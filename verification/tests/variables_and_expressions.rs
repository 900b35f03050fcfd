use ponos::ast::AstNode;
use ponos::generator::Generator;
use ponos::lexer::lex;
use ponos::model::ArithOp;
use ponos::name_resolver::NameResolver;
use ponos::number::Number;
use ponos::parser::parse_tokens;
use ponos::preprocess::preprocess_semicolons;
use ponos::symbol_table::SymbolTable;
use ponos::token::TokenKind;
use ponos::vm::{Action, Reply, VM};

fn arithmetic(op: ArithOp, left: Number, right: Number) -> Number {
    let a = f64::from_bits(left.to_bits());
    let b = f64::from_bits(right.to_bits());
    let r = match op {
        ArithOp::Add => a + b,
        ArithOp::Sub => a - b,
        ArithOp::Mul => a * b,
        ArithOp::Div => a / b,
        ArithOp::Mod => a % b,
    };
    Number::from_bits(r.to_bits())
}

/// Runs a source text to its end and gives the machine back.
fn run_source(source: &str) -> VM {
    let prepared = preprocess_semicolons(source);
    let mut tokens = lex(&prepared).expect("the source has tokens");
    for token in tokens.iter_mut() {
        if token.kind == TokenKind::Number {
            let value: f64 = token.text.parse().expect("a number");
            token.number = Number::from_bits(value.to_bits());
        }
    }
    let mut program = match parse_tokens(&tokens) {
        Ok(program) => program,
        Err(failure) => panic!("{:?} at {:?}", failure, tokens.get(failure.at)),
    };
    NameResolver::new().resolve(&mut program, &SymbolTable::new()).expect("the names resolve");
    let ctx = Generator::new().generate(AstNode::Program(program)).expect("the program compiles");
    let mut vm = VM::new();
    let mut action = vm.execute(ctx.opcodes, ctx.constants, ctx.functions, 1_000_000);
    loop {
        action = match action {
            Action::Continue => vm.run(1_000_000),
            Action::Arithmetic { op, left, right } => vm.resume(Reply::Number(arithmetic(op, left, right))),
            Action::Format { number } => vm.resume(Reply::Text(format!("{}", f64::from_bits(number.to_bits())))),
            other => {
                assert_eq!(other, Action::Finished);
                return vm;
            }
        };
    }
}

#[test]
fn test_local_variable_number() {
    let source = r#"
        пер x = 42;
    "#;

    run_source(source);
}

#[test]
fn test_local_variable_string() {
    let source = r#"
        пер имя = "Понос";
    "#;

    run_source(source);
}

#[test]
fn test_local_variable_boolean() {
    let source = r#"
        пер флаг = истина;
    "#;

    run_source(source);
}

#[test]
fn test_multiple_local_variables() {
    let source = r#"
        пер a = 1;
        пер b = 2;
        пер c = 3;
    "#;

    run_source(source);
}

#[test]
fn test_variable_reassignment() {
    let source = r#"
        пер x = 10;
        x = 20;
        x = 30;
    "#;

    run_source(source);
}

#[test]
fn test_variable_with_expression() {
    let source = r#"
        пер x = 5 + 3;
    "#;

    run_source(source);
}

#[test]
fn test_addition() {
    let source = r#"
        пер результат = 5 + 3;
    "#;

    run_source(source);
}

#[test]
fn test_subtraction() {
    let source = r#"
        пер результат = 10 - 4;
    "#;

    run_source(source);
}

#[test]
fn test_multiplication() {
    let source = r#"
        пер результат = 6 * 7;
    "#;

    run_source(source);
}

#[test]
fn test_division() {
    let source = r#"
        пер результат = 20 / 4;
    "#;

    run_source(source);
}

#[test]
fn test_arithmetic_precedence() {
    let source = r#"
        пер результат = 2 + 3 * 4;
    "#;

    run_source(source);
}

#[test]
fn test_arithmetic_with_parentheses() {
    let source = r#"
        пер результат = (2 + 3) * 4;
    "#;

    run_source(source);
}

#[test]
fn test_unary_negation() {
    let source = r#"
        пер x = -5;
        пер y = -x;
    "#;

    run_source(source);
}

#[test]
fn test_less_than() {
    let source = r#"
        пер результат = 5 < 10;
    "#;

    run_source(source);
}

#[test]
fn test_less_than_or_equal() {
    let source = r#"
        пер результат = 5 <= 5;
    "#;

    run_source(source);
}

#[test]
fn test_greater_than() {
    let source = r#"
        пер результат = 10 > 5;
    "#;

    run_source(source);
}

#[test]
fn test_greater_than_or_equal() {
    let source = r#"
        пер результат = 10 >= 10;
    "#;

    run_source(source);
}

#[test]
fn test_equality() {
    let source = r#"
        пер результат = 5 == 5;
    "#;

    run_source(source);
}

#[test]
fn test_inequality() {
    let source = r#"
        пер результат = 5 != 3;
    "#;

    run_source(source);
}

#[test]
fn test_logical_not_true() {
    let source = r#"
        пер результат = !истина;
    "#;

    run_source(source);
}

#[test]
fn test_logical_not_false() {
    let source = r#"
        пер результат = !ложь;
    "#;

    run_source(source);
}

#[test]
fn test_complex_expression() {
    let source = r#"
        пер a = 5;
        пер b = 10;
        пер c = (a + b) * 3 - 2;
    "#;

    run_source(source);
}

#[test]
fn test_comparison_with_arithmetic() {
    let source = r#"
        пер x = (5 + 3) > (10 - 2);
    "#;

    run_source(source);
}

#[test]
fn test_logical_with_comparison() {
    let source = r#"
        пер результат = (5 > 3) и (10 < 20);
    "#;

    run_source(source);
}
