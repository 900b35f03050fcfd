use ponos::ast::AstNode;
use ponos::generator::Generator;
use ponos::lexer::lex;
use ponos::model::ArithOp;
use ponos::name_resolver::NameResolver;
use ponos::number::Number;
use ponos::parser::parse_tokens;
use ponos::preprocess::preprocess_semicolons;
use ponos::symbol_table::SymbolTable;
use ponos::token::TokenKind;
use ponos::vm::{Action, Reply, VM};

fn arithmetic(op: ArithOp, left: Number, right: Number) -> Number {
    let a = f64::from_bits(left.to_bits());
    let b = f64::from_bits(right.to_bits());
    let r = match op {
        ArithOp::Add => a + b,
        ArithOp::Sub => a - b,
        ArithOp::Mul => a * b,
        ArithOp::Div => a / b,
        ArithOp::Mod => a % b,
    };
    Number::from_bits(r.to_bits())
}

/// Runs a source text to its end and gives the machine back.
fn run_source(source: &str) -> VM {
    let prepared = preprocess_semicolons(source);
    let mut tokens = lex(&prepared).expect("the source has tokens");
    for token in tokens.iter_mut() {
        if token.kind == TokenKind::Number {
            let value: f64 = token.text.parse().expect("a number");
            token.number = Number::from_bits(value.to_bits());
        }
    }
    let mut program = match parse_tokens(&tokens) {
        Ok(program) => program,
        Err(failure) => panic!("{:?} at {:?}", failure, tokens.get(failure.at)),
    };
    NameResolver::new().resolve(&mut program, &SymbolTable::new()).expect("the names resolve");
    let ctx = Generator::new().generate(AstNode::Program(program)).expect("the program compiles");
    let mut vm = VM::new();
    let mut action = vm.execute(ctx.opcodes, ctx.constants, ctx.functions, 1_000_000);
    loop {
        action = match action {
            Action::Continue => vm.run(1_000_000),
            Action::Arithmetic { op, left, right } => vm.resume(Reply::Number(arithmetic(op, left, right))),
            Action::Format { number } => vm.resume(Reply::Text(format!("{}", f64::from_bits(number.to_bits())))),
            other => {
                assert_eq!(other, Action::Finished);
                return vm;
            }
        };
    }
}

#[test]
fn test_minimal_class() {
    let source = r#"
        класс Точка
        конец
    "#;

    run_source(source);
    // Тест просто проверяет, что нет паники
}

#[test]
fn test_class_with_constructor() {
    let source = r#"
        класс Точка
            конструктор()
            конец
        конец

        пер p = Точка();
    "#;

    run_source(source);
}

#[test]
fn test_class_with_field_and_constructor() {
    let source = r#"
        класс Точка
            x: число

            конструктор(val: число)
                это.x = val;
            конец
        конец

        пер p = Точка(42);
    "#;

    run_source(source);
}

#[test]
fn test_class_with_method() {
    let source = r#"
        класс Точка
            x: число

            конструктор(val: число)
                это.x = val;
            конец

            функ получить_x(): число
                возврат это.x;
            конец
        конец

        пер p = Точка(42);
        пер результат = p.получить_x();
    "#;

    run_source(source);
}

#[test]
fn test_class_method_call() {
    let source = r#"
        класс Калькулятор
            значение: число

            конструктор(val: число)
                это.значение = val;
            конец

            функ удвоить(): число
                возврат это.значение;
            конец
        конец

        пер calc = Калькулятор(21);
        пер result = calc.удвоить();
    "#;

    run_source(source);
}

#[test]
fn test_simple_inheritance() {
    let source = r#"
        класс Животное
            конструктор()
            конец

            функ говорить(): строка
                возврат "Животное";
            конец
        конец

        класс Собака наследует Животное
            конструктор()
            конец
        конец

        пер собака = Собака();
        пер речь = собака.говорить();
    "#;

    run_source(source);
}

#[test]
fn test_inheritance_with_override() {
    let source = r#"
        класс Животное
            конструктор()
            конец

            функ говорить(): строка
                возврат "Животное говорит";
            конец
        конец

        класс Собака наследует Животное
            конструктор()
            конец

            функ говорить(): строка
                возврат "Гав-гав";
            конец
        конец

        пер собака = Собака();
        пер речь = собака.говорить();
    "#;

    run_source(source);
}

#[test]
fn test_inheritance_with_own_methods() {
    let source = r#"
        класс Животное
            конструктор()
            конец

            функ говорить(): строка
                возврат "Животное";
            конец
        конец

        класс Собака наследует Животное
            конструктор()
            конец

            функ лаять(): строка
                возврат "Гав";
            конец
        конец

        пер собака = Собака();
        пер речь = собака.говорить();
        пер лай = собака.лаять();
    "#;

    run_source(source);
}

#[test]
fn test_inheritance_with_fields() {
    let source = r#"
        класс Животное
            имя: строка

            конструктор(имя_val: строка)
                это.имя = имя_val;
            конец

            функ получить_имя(): строка
                возврат это.имя;
            конец
        конец

        класс Собака наследует Животное
            конструктор(имя_val: строка)
                это.имя = имя_val;
            конец
        конец

        пер собака = Собака("Бобик");
        пер имя = собака.получить_имя();
    "#;

    run_source(source);
}
