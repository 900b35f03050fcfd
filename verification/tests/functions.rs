use ponos::ast::AstNode;
use ponos::generator::Generator;
use ponos::lexer::lex;
use ponos::model::ArithOp;
use ponos::name_resolver::NameResolver;
use ponos::number::Number;
use ponos::parser::parse_tokens;
use ponos::preprocess::preprocess_semicolons;
use ponos::symbol_table::SymbolTable;
use ponos::token::TokenKind;
use ponos::vm::{Action, Reply, VM};

fn arithmetic(op: ArithOp, left: Number, right: Number) -> Number {
    let a = f64::from_bits(left.to_bits());
    let b = f64::from_bits(right.to_bits());
    let r = match op {
        ArithOp::Add => a + b,
        ArithOp::Sub => a - b,
        ArithOp::Mul => a * b,
        ArithOp::Div => a / b,
        ArithOp::Mod => a % b,
    };
    Number::from_bits(r.to_bits())
}

/// Runs a source text to its end and gives the machine back.
fn run_source(source: &str) -> VM {
    let prepared = preprocess_semicolons(source);
    let mut tokens = lex(&prepared).expect("the source has tokens");
    for token in tokens.iter_mut() {
        if token.kind == TokenKind::Number {
            let value: f64 = token.text.parse().expect("a number");
            token.number = Number::from_bits(value.to_bits());
        }
    }
    let mut program = match parse_tokens(&tokens) {
        Ok(program) => program,
        Err(failure) => panic!("{:?} at {:?}", failure, tokens.get(failure.at)),
    };
    NameResolver::new().resolve(&mut program, &SymbolTable::new()).expect("the names resolve");
    let ctx = Generator::new().generate(AstNode::Program(program)).expect("the program compiles");
    let mut vm = VM::new();
    let mut action = vm.execute(ctx.opcodes, ctx.constants, ctx.functions, 1_000_000);
    loop {
        action = match action {
            Action::Continue => vm.run(1_000_000),
            Action::Arithmetic { op, left, right } => vm.resume(Reply::Number(arithmetic(op, left, right))),
            Action::Format { number } => vm.resume(Reply::Text(format!("{}", f64::from_bits(number.to_bits())))),
            other => {
                assert_eq!(other, Action::Finished);
                return vm;
            }
        };
    }
}

#[test]
fn test_simple_function_no_params() {
    let source = r#"
        функ привет()
            пер сообщение = "Привет!";
        конец

        привет();
    "#;

    run_source(source);
}

#[test]
fn test_function_with_return() {
    let source = r#"
        функ получитьЧисло(): число
            возврат 42;
        конец

        пер результат = получитьЧисло();
    "#;

    run_source(source);
}

#[test]
fn test_function_with_one_param() {
    let source = r#"
        функ удвоить(x: число): число
            возврат x * 2;
        конец

        пер результат = удвоить(5);
    "#;

    run_source(source);
}

#[test]
fn test_function_with_two_params() {
    let source = r#"
        функ сложить(a: число, b: число): число
            возврат a + b;
        конец

        пер результат = сложить(3, 4);
    "#;

    run_source(source);
}

#[test]
fn test_function_with_multiple_statements() {
    let source = r#"
        функ вычислить(x: число): число
            пер temp = x * 2;
            пер result = temp + 10;
            возврат result;
        конец

        пер ответ = вычислить(5);
    "#;

    run_source(source);
}

#[test]
fn test_recursive_function() {
    let source = r#"
        функ факториал(n: число): число
            если n <= 1
                возврат 1;
            конец
            возврат n * факториал(n - 1);
        конец

        пер результат = факториал(5);
    "#;

    run_source(source);
}

#[test]
fn test_function_with_local_variables() {
    let source = r#"
        функ тест(): число
            пер a = 1;
            пер b = 2;
            пер c = a + b;
            возврат c;
        конец

        пер результат = тест();
    "#;

    run_source(source);
}

#[test]
fn test_function_with_if_statement() {
    let source = r#"
        функ максимум(a: число, b: число): число
            если a > b
                возврат a;
            конец
            возврат b;
        конец

        пер результат = максимум(10, 5);
    "#;

    run_source(source);
}

#[test]
fn test_function_with_while_loop() {
    let source = r#"
        функ сумма(n: число): число
            пер i = 0;
            пер sum = 0;
            пока i <= n
                sum = sum + i;
                i = i + 1;
            конец
            возврат sum;
        конец

        пер результат = сумма(5);
    "#;

    run_source(source);
}
