use ponos::ast::AstNode;
use ponos::generator::Generator;
use ponos::heap::Object;
use ponos::lexer::lex;
use ponos::model::ArithOp;
use ponos::number::Number;
use ponos::parser::parse_tokens;
use ponos::preprocess::preprocess_semicolons;
use ponos::token::TokenKind;
use ponos::value::Value;
use ponos::vm::{Action, Reply, VM};

fn arithmetic(op: ArithOp, left: Number, right: Number) -> Number {
    let a = f64::from_bits(left.to_bits());
    let b = f64::from_bits(right.to_bits());
    let r = match op {
        ArithOp::Add => a + b,
        ArithOp::Sub => a - b,
        ArithOp::Mul => a * b,
        ArithOp::Div => a / b,
        ArithOp::Mod => a % b,
    };
    Number::from_bits(r.to_bits())
}

fn num(x: f64) -> Value {
    Value::Number(Number::from_bits(x.to_bits()))
}

fn text(s: &str) -> Value {
    Value::String(s.to_string())
}

/// Runs a source text and gives the machine and how the run ended.
fn run(source: &str) -> (VM, Action) {
    let prepared = preprocess_semicolons(source);
    let mut tokens = lex(&prepared).expect("the source has tokens");
    for token in tokens.iter_mut() {
        if token.kind == TokenKind::Number {
            let value: f64 = token.text.parse().expect("a number");
            token.number = Number::from_bits(value.to_bits());
        }
    }
    let program = match parse_tokens(&tokens) {
        Ok(program) => program,
        Err(failure) => panic!("{:?} at {:?}", failure, tokens.get(failure.at)),
    };
    let ctx = Generator::new().generate(AstNode::Program(program)).expect("the program compiles");
    let mut vm = VM::new();
    let mut action = vm.execute(ctx.opcodes, ctx.constants, ctx.functions, 1_000_000);
    loop {
        action = match action {
            Action::Continue => vm.run(1_000_000),
            Action::Arithmetic { op, left, right } => vm.resume(Reply::Number(arithmetic(op, left, right))),
            Action::Format { number } => vm.resume(Reply::Text(format!("{}", f64::from_bits(number.to_bits())))),
            other => return (vm, other),
        };
    }
}

fn global(source: &str, name: &str) -> Value {
    let (vm, action) = run(source);
    assert_eq!(action, Action::Finished);
    vm.global(name).expect("the global is defined")
}

#[test]
fn source_while_loop_sums_zero_to_four() {
    let source = "
        пер сумма = 0
        пер i = 0
        пока i < 5
            сумма = сумма + i
            i = i + 1
        конец
    ";
    assert_eq!(global(source, "сумма"), num(10.0));
}

#[test]
fn source_recursive_factorial_of_five() {
    let source = "
        функ факториал(n)
            если n <= 1
                возврат 1
            конец
            возврат n * факториал(n - 1)
        конец
        пер результат = факториал(5)
    ";
    assert_eq!(global(source, "результат"), num(120.0));
}

#[test]
fn source_counter_closure_counts_to_three() {
    let source = "
        функ создать()
            пер c = 0
            возврат функ()
                c = c + 1
                возврат c
            конец;
        конец
        пер следующий = создать()
        следующий()
        следующий()
        пер последний = следующий()
    ";
    assert_eq!(global(source, "последний"), num(3.0));
}

#[test]
fn source_override_and_parent_method() {
    let source = "
        класс Животное
            функ голос()
                возврат \"animal\"
            конец
        конец
        класс Собака наследует Животное
            функ голос()
                возврат родитель.голос() + \"/bark\"
            конец
        конец
        пер с = Собака()
        пер звук = с.голос()
    ";
    assert_eq!(global(source, "звук"), text("animal/bark"));
}

#[test]
fn source_out_of_range_index_is_caught() {
    let source = "
        пер seen = \"\"
        попытка
            пер arr = []
            arr[5]
        перехват e
            seen = e
        конец
    ";
    assert_eq!(global(source, "seen"), text("Индекс вне диапазона"));
}

#[test]
fn source_dictionary_sum_and_keys() {
    let source = "
        пер d = {
            \"a\": 1,
            \"b\": 2
        }
        d[\"c\"] = d[\"a\"] + d[\"b\"]
        пер c = d[\"c\"]
        пер keys = d.ключи()
    ";
    let (vm, action) = run(source);
    assert_eq!(action, Action::Finished);
    assert_eq!(vm.global("c"), Some(num(3.0)));
    let keys = match vm.global("keys") {
        Some(Value::Array(at)) => match &vm.heap[at] {
            Object::Array(items) => items.clone(),
            other => panic!("{:?}", other),
        },
        other => panic!("{:?}", other),
    };
    assert_eq!(keys.len(), 3);
    for key in ["a", "b", "c"] {
        assert!(keys.contains(&text(key)));
    }
}

#[test]
fn source_uncaught_throw_ends_the_run() {
    let (_, action) = run("пер x = 1\nисключение \"беда\"\nпер y = 2\n");
    assert_eq!(action, Action::Uncaught(text("беда")));
}

#[test]
fn source_short_circuit_and_slices() {
    let source = "
        пер тронуто = ложь
        функ тронуть()
            тронуто = истина
            возврат истина
        конец
        пер a = ложь и тронуть()
        пер b = истина или тронуть()
        пер s = \"привет\"[1:3]
        пер t = [1, 2, 3, 4][:2]
    ";
    let (vm, action) = run(source);
    assert_eq!(action, Action::Finished);
    assert_eq!(vm.global("тронуто"), Some(Value::Boolean(false)));
    assert_eq!(vm.global("a"), Some(Value::Boolean(false)));
    assert_eq!(vm.global("b"), Some(Value::Boolean(true)));
    assert_eq!(vm.global("s"), Some(text("ри")));
    match vm.global("t") {
        Some(Value::Array(at)) => assert_eq!(vm.heap[at], Object::Array(vec![num(1.0), num(2.0)])),
        other => panic!("{:?}", other),
    }
}

#[test]
fn embedded_mathematics_module_is_a_program() {
    let source = ponos::stdlib::get_embedded_source("стд/математика").expect("the module is embedded");
    let program = format!("{}\nпер девять = квадрат(3)\nпер два = модуль(0 - 2)\nпер больше = максимум(1, 7)\n", source);
    let (vm, action) = run(&program);
    assert_eq!(action, Action::Finished);
    assert_eq!(vm.global("ПИ"), Some(num(3.141592653589793)));
    assert_eq!(vm.global("Е"), Some(num(2.718281828459045)));
    assert_eq!(vm.global("девять"), Some(num(9.0)));
    assert_eq!(vm.global("два"), Some(num(2.0)));
    assert_eq!(vm.global("больше"), Some(num(7.0)));
}

#[test]
fn short_circuit_code_jumps_over_the_right_side() {
    assert_jump_shape("пер r = a и b(1);", true);
    assert_jump_shape("пер r = a или b(1);", false);
}

fn assert_jump_shape(source: &str, and: bool) {
    let mut tokens = lex(source).expect("the source has tokens");
    for token in tokens.iter_mut() {
        if token.kind == TokenKind::Number {
            let value: f64 = token.text.parse().expect("a number");
            token.number = Number::from_bits(value.to_bits());
        }
    }
    let program = parse_tokens(&tokens).expect("a program");
    let ctx = Generator::new().generate(AstNode::Program(program)).expect("the program compiles");
    let code = ctx.opcodes;
    let at = code.iter().position(|op| *op == ponos::opcode::OpCode::Dup).expect("the value is doubled");
    let end = code.iter().position(|op| matches!(op, ponos::opcode::OpCode::DefineGlobal(_))).unwrap();
    assert!(matches!(code[at - 1], ponos::opcode::OpCode::GetGlobal(_)));
    if and {
        assert_eq!(code[at + 1], ponos::opcode::OpCode::JumpIfFalse(end));
    } else {
        assert_eq!(code[at + 1], ponos::opcode::OpCode::JumpIfTrue(end));
    }
    assert_eq!(code[at + 2], ponos::opcode::OpCode::Pop);
    assert!(code[at + 3..end].iter().any(|op| matches!(op, ponos::opcode::OpCode::Call(1))));
}

#[test]
fn source_method_is_found_up_the_whole_chain_of_parents() {
    let source = "
        класс А
            функ кто() возврат \"А\"; конец
            функ что() возврат \"основа\"; конец
        конец
        класс Б наследует А
            функ что() возврат \"середина\"; конец
        конец
        класс В наследует Б
        конец
        пер в = В()
        пер имя = в.кто()
        пер слой = в.что()
    ";
    let (vm, action) = run(source);
    assert_eq!(action, Action::Finished);
    assert_eq!(vm.global("имя"), Some(text("А")));
    assert_eq!(vm.global("слой"), Some(text("середина")));
}

#[test]
fn source_throw_closes_the_variables_of_the_frames_it_leaves() {
    let source = "
        пер читать = 0
        функ создать()
            пер x = 5
            читать = функ() возврат x; конец;
            x = x + 1
            исключение \"беда\"
        конец
        пер поймано = \"\"
        попытка
            создать()
        перехват e
            поймано = e
        конец
        пер y = читать()
    ";
    let (vm, action) = run(source);
    assert_eq!(action, Action::Finished);
    assert_eq!(vm.global("поймано"), Some(text("беда")));
    assert_eq!(vm.global("y"), Some(num(6.0)));
}

#[test]
fn source_constructor_that_returns_gives_what_it_returns() {
    let source = "
        класс Обычный
            конструктор(v)
                это.x = v
            конец
        конец
        класс Странный
            конструктор(v)
                это.x = v
                возврат 99
            конец
        конец
        пер а = Обычный(1)
        пер поле = а.x
        пер б = Странный(1)
    ";
    let (vm, action) = run(source);
    assert_eq!(action, Action::Finished);
    assert!(matches!(vm.global("а"), Some(Value::Instance(_))));
    assert_eq!(vm.global("поле"), Some(num(1.0)));
    assert_eq!(vm.global("б"), Some(num(99.0)));
}
