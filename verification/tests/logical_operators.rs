use ponos::ast::AstNode;
use ponos::generator::Generator;
use ponos::lexer::lex;
use ponos::model::ArithOp;
use ponos::name_resolver::NameResolver;
use ponos::number::Number;
use ponos::parser::parse_tokens;
use ponos::preprocess::preprocess_semicolons;
use ponos::symbol_table::SymbolTable;
use ponos::token::TokenKind;
use ponos::vm::{Action, Reply, VM};

fn arithmetic(op: ArithOp, left: Number, right: Number) -> Number {
    let a = f64::from_bits(left.to_bits());
    let b = f64::from_bits(right.to_bits());
    let r = match op {
        ArithOp::Add => a + b,
        ArithOp::Sub => a - b,
        ArithOp::Mul => a * b,
        ArithOp::Div => a / b,
        ArithOp::Mod => a % b,
    };
    Number::from_bits(r.to_bits())
}

/// Runs a source text to its end and gives the machine back.
fn run_source(source: &str) -> VM {
    let prepared = preprocess_semicolons(source);
    let mut tokens = lex(&prepared).expect("the source has tokens");
    for token in tokens.iter_mut() {
        if token.kind == TokenKind::Number {
            let value: f64 = token.text.parse().expect("a number");
            token.number = Number::from_bits(value.to_bits());
        }
    }
    let mut program = match parse_tokens(&tokens) {
        Ok(program) => program,
        Err(failure) => panic!("{:?} at {:?}", failure, tokens.get(failure.at)),
    };
    NameResolver::new().resolve(&mut program, &SymbolTable::new()).expect("the names resolve");
    let ctx = Generator::new().generate(AstNode::Program(program)).expect("the program compiles");
    let mut vm = VM::new();
    let mut action = vm.execute(ctx.opcodes, ctx.constants, ctx.functions, 1_000_000);
    loop {
        action = match action {
            Action::Continue => vm.run(1_000_000),
            Action::Arithmetic { op, left, right } => vm.resume(Reply::Number(arithmetic(op, left, right))),
            Action::Format { number } => vm.resume(Reply::Text(format!("{}", f64::from_bits(number.to_bits())))),
            other => {
                assert_eq!(other, Action::Finished);
                return vm;
            }
        };
    }
}

#[test]
fn test_and_operator_both_true() {
    let source = r#"
        пер x = истина и истина;
    "#;

    run_source(source);
}

#[test]
fn test_and_operator_first_false() {
    let source = r#"
        пер x = ложь и истина;
    "#;

    run_source(source);
}

#[test]
fn test_and_operator_second_false() {
    let source = r#"
        пер x = истина и ложь;
    "#;

    run_source(source);
}

#[test]
fn test_and_operator_both_false() {
    let source = r#"
        пер x = ложь и ложь;
    "#;

    run_source(source);
}

#[test]
fn test_or_operator_both_true() {
    let source = r#"
        пер x = истина или истина;
    "#;

    run_source(source);
}

#[test]
fn test_or_operator_first_true() {
    let source = r#"
        пер x = истина или ложь;
    "#;

    run_source(source);
}

#[test]
fn test_or_operator_second_true() {
    let source = r#"
        пер x = ложь или истина;
    "#;

    run_source(source);
}

#[test]
fn test_or_operator_both_false() {
    let source = r#"
        пер x = ложь или ложь;
    "#;

    run_source(source);
}

#[test]
fn test_and_short_circuit() {
    // Короткое замыкание: если первый операнд false, второй не вычисляется
    let source = r#"
        пер a = ложь;
        пер b = 10;
        пер x = a и (b > 5);
    "#;

    run_source(source);
}

#[test]
fn test_or_short_circuit() {
    // Короткое замыкание: если первый операнд true, второй не вычисляется
    let source = r#"
        пер a = истина;
        пер b = 10;
        пер x = a или (b > 5);
    "#;

    run_source(source);
}

#[test]
fn test_combined_logical_operators() {
    let source = r#"
        пер x = истина и (ложь или истина);
    "#;

    run_source(source);
}

#[test]
fn test_logical_operators_with_comparison() {
    let source = r#"
        пер a = 5;
        пер b = 10;
        пер c = 3;
        пер x = (a < b) и (b > c);
    "#;

    run_source(source);
}
