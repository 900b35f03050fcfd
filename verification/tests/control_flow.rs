use ponos::ast::AstNode;
use ponos::generator::Generator;
use ponos::lexer::lex;
use ponos::model::ArithOp;
use ponos::name_resolver::NameResolver;
use ponos::number::Number;
use ponos::parser::parse_tokens;
use ponos::preprocess::preprocess_semicolons;
use ponos::symbol_table::SymbolTable;
use ponos::token::TokenKind;
use ponos::vm::{Action, Reply, VM};

fn arithmetic(op: ArithOp, left: Number, right: Number) -> Number {
    let a = f64::from_bits(left.to_bits());
    let b = f64::from_bits(right.to_bits());
    let r = match op {
        ArithOp::Add => a + b,
        ArithOp::Sub => a - b,
        ArithOp::Mul => a * b,
        ArithOp::Div => a / b,
        ArithOp::Mod => a % b,
    };
    Number::from_bits(r.to_bits())
}

/// Runs a source text to its end and gives the machine back.
fn run_source(source: &str) -> VM {
    let prepared = preprocess_semicolons(source);
    let mut tokens = lex(&prepared).expect("the source has tokens");
    for token in tokens.iter_mut() {
        if token.kind == TokenKind::Number {
            let value: f64 = token.text.parse().expect("a number");
            token.number = Number::from_bits(value.to_bits());
        }
    }
    let mut program = match parse_tokens(&tokens) {
        Ok(program) => program,
        Err(failure) => panic!("{:?} at {:?}", failure, tokens.get(failure.at)),
    };
    NameResolver::new().resolve(&mut program, &SymbolTable::new()).expect("the names resolve");
    let ctx = Generator::new().generate(AstNode::Program(program)).expect("the program compiles");
    let mut vm = VM::new();
    let mut action = vm.execute(ctx.opcodes, ctx.constants, ctx.functions, 1_000_000);
    loop {
        action = match action {
            Action::Continue => vm.run(1_000_000),
            Action::Arithmetic { op, left, right } => vm.resume(Reply::Number(arithmetic(op, left, right))),
            Action::Format { number } => vm.resume(Reply::Text(format!("{}", f64::from_bits(number.to_bits())))),
            other => {
                assert_eq!(other, Action::Finished);
                return vm;
            }
        };
    }
}

#[test]
fn test_if_true() {
    let source = r#"
        пер x = 0;
        если истина
            x = 1;
        конец
    "#;

    run_source(source);
}

#[test]
fn test_if_false() {
    let source = r#"
        пер x = 0;
        если ложь
            x = 1;
        конец
    "#;

    run_source(source);
}

#[test]
fn test_if_with_comparison() {
    let source = r#"
        пер a = 10;
        пер b = 5;
        пер результат = 0;
        если a > b
            результат = 1;
        конец
    "#;

    run_source(source);
}

#[test]
fn test_if_else_true_branch() {
    let source = r#"
        пер x = 0;
        если истина
            x = 1;
        иначе
            x = 2;
        конец
    "#;

    run_source(source);
}

#[test]
fn test_if_else_false_branch() {
    let source = r#"
        пер x = 0;
        если ложь
            x = 1;
        иначе
            x = 2;
        конец
    "#;

    run_source(source);
}

#[test]
fn test_if_multiple_statements() {
    let source = r#"
        пер x = 0;
        пер y = 0;
        если истина
            x = 1;
            y = 2;
        конец
    "#;

    run_source(source);
}

#[test]
fn test_nested_if() {
    let source = r#"
        пер x = 0;
        если истина
            если истина
                x = 1;
            конец
        конец
    "#;

    run_source(source);
}

#[test]
fn test_if_with_logical_operators() {
    let source = r#"
        пер a = истина;
        пер b = истина;
        пер x = 0;
        если a и b
            x = 1;
        конец
    "#;

    run_source(source);
}

#[test]
fn test_while_zero_iterations() {
    let source = r#"
        пер x = 0;
        пока ложь
            x = x + 1;
        конец
    "#;

    run_source(source);
}

#[test]
fn test_while_with_counter() {
    let source = r#"
        пер i = 0;
        пока i < 5
            i = i + 1;
        конец
    "#;

    run_source(source);
}

#[test]
fn test_while_with_multiple_statements() {
    let source = r#"
        пер i = 0;
        пер сумма = 0;
        пока i < 3
            сумма = сумма + i;
            i = i + 1;
        конец
    "#;

    run_source(source);
}

#[test]
fn test_nested_while() {
    let source = r#"
        пер i = 0;
        пер j = 0;
        пока i < 2
            j = 0;
            пока j < 2
                j = j + 1;
            конец
            i = i + 1;
        конец
    "#;

    run_source(source);
}

#[test]
fn test_while_with_if() {
    let source = r#"
        пер i = 0;
        пер чётные = 0;
        пока i < 10
            если i == 0
                чётные = чётные + 1;
            конец
            если i == 2
                чётные = чётные + 1;
            конец
            если i == 4
                чётные = чётные + 1;
            конец
            i = i + 1;
        конец
    "#;

    run_source(source);
}

#[test]
fn test_if_else_with_arithmetic() {
    let source = r#"
        пер x = 10;
        пер результат = 0;
        если x > 5
            результат = x * 2;
        иначе
            результат = x / 2;
        конец
    "#;

    run_source(source);
}
