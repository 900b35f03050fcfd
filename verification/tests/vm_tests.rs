use ponos::model::{ArithOp, NativeKind};
use ponos::number::Number;
use ponos::opcode::OpCode;
use ponos::value::Value;
use ponos::vm::{Action, Reply, VM};

fn num(x: f64) -> Value {
    Value::Number(Number::from_bits(x.to_bits()))
}

fn text(s: &str) -> Value {
    Value::String(s.to_string())
}

fn arithmetic(op: ArithOp, left: Number, right: Number) -> Number {
    let a = f64::from_bits(left.to_bits());
    let b = f64::from_bits(right.to_bits());
    let r = match op {
        ArithOp::Add => a + b,
        ArithOp::Sub => a - b,
        ArithOp::Mul => a * b,
        ArithOp::Div => a / b,
        ArithOp::Mod => a % b,
    };
    Number::from_bits(r.to_bits())
}

/// Drives the machine to its end, doing the host's part of the arithmetic.
fn drive(vm: &mut VM, mut action: Action) -> Action {
    loop {
        action = match action {
            Action::Continue => vm.run(100_000),
            Action::Arithmetic { op, left, right } => vm.resume(Reply::Number(arithmetic(op, left, right))),
            Action::Format { number } => {
                vm.resume(Reply::Text(format!("{}", f64::from_bits(number.to_bits()))))
            }
            other => return other,
        };
    }
}

fn run_program(vm: &mut VM, opcodes: Vec<OpCode>, constants: Vec<Value>) -> Action {
    let action = vm.execute(opcodes, constants, Vec::new(), 100_000);
    drive(vm, action)
}

#[test]
fn defines_and_sets_locals() {
    let mut vm = VM::new();
    let constants = vec![num(1.0), num(2.0)];

    let opcodes = vec![
        OpCode::Constant(0),
        OpCode::DefineLocal(0),
        OpCode::Constant(1),
        OpCode::SetLocal(0),
        OpCode::GetLocal(0),
    ];

    run_program(&mut vm, opcodes, constants);

    assert_eq!(vm.stack, vec![num(2.0)]);
}

#[test]
fn defines_and_gets_global_variable() {
    let mut vm = VM::new();
    let constants = vec![text("x"), num(42.0)];

    let opcodes = vec![
        OpCode::Constant(1),
        OpCode::DefineGlobal(0),
        OpCode::GetGlobal(0),
    ];

    run_program(&mut vm, opcodes, constants);

    assert_eq!(vm.stack.len(), 1);
    assert_eq!(vm.stack[0], num(42.0));
}

#[test]
fn module_variables_use_mangled_names() {
    let mut vm = VM::new();
    let constants = vec![text("мат::ПИ"), num(3.14)];

    let opcodes = vec![
        OpCode::Constant(1),
        OpCode::DefineGlobal(0),
        OpCode::GetGlobal(0),
    ];

    run_program(&mut vm, opcodes, constants);

    assert_eq!(vm.stack.len(), 1);
    assert_eq!(vm.stack[0], num(3.14));
    assert_eq!(vm.global("мат::ПИ"), Some(num(3.14)));
}

#[test]
fn arithmetic_is_asked_of_the_host() {
    let mut vm = VM::new();
    let action = vm.execute(
        vec![OpCode::Constant(0), OpCode::Constant(1), OpCode::Sub],
        vec![num(7.0), num(2.5)],
        Vec::new(),
        100,
    );
    assert_eq!(
        action,
        Action::Arithmetic {
            op: ArithOp::Sub,
            left: Number::from_bits(7.0f64.to_bits()),
            right: Number::from_bits(2.5f64.to_bits()),
        }
    );
    assert_eq!(vm.step(), Action::Waiting);
    assert_eq!(vm.resume(Reply::Text("no".to_string())), Action::Waiting);
    let action = vm.resume(Reply::Number(Number::from_bits(4.5f64.to_bits())));
    assert_eq!(action, Action::Continue);
    assert_eq!(drive(&mut vm, action), Action::Finished);
    assert_eq!(vm.stack, vec![num(4.5)]);
}

#[test]
fn add_joins_strings_and_formats_numbers() {
    let mut vm = VM::new();
    let action = run_program(
        &mut vm,
        vec![
            OpCode::Constant(0),
            OpCode::Constant(1),
            OpCode::Add,
            OpCode::Constant(2),
            OpCode::Add,
            OpCode::Constant(2),
            OpCode::Constant(0),
            OpCode::Add,
            OpCode::Add,
        ],
        vec![text("a"), text("b"), num(1.5)],
    );
    assert_eq!(action, Action::Finished);
    assert_eq!(vm.stack, vec![text("ab1.51.5a")]);
}

#[test]
fn global_defined_twice_is_an_error() {
    let mut vm = VM::new();
    let action = run_program(
        &mut vm,
        vec![
            OpCode::Constant(1),
            OpCode::DefineGlobal(0),
            OpCode::Constant(1),
            OpCode::DefineGlobal(0),
        ],
        vec![text("x"), num(1.0)],
    );
    assert_eq!(action, Action::Uncaught(text("Глобальная переменная уже определена")));
    assert_eq!(vm.global("x"), Some(num(1.0)));
}

#[test]
fn missing_global_is_thrown_and_caught() {
    let mut vm = VM::new();
    let action = run_program(
        &mut vm,
        vec![
            OpCode::PushExceptionHandler(4),
            OpCode::GetGlobal(0),
            OpCode::PopExceptionHandler,
            OpCode::Jump(5),
            OpCode::DefineGlobal(1),
            OpCode::Halt,
        ],
        vec![text("nowhere"), text("caught")],
    );
    assert_eq!(action, Action::Finished);
    assert_eq!(vm.global("caught"), Some(text("Глобальная переменная не найдена")));
    assert!(vm.stack.is_empty());
    assert!(vm.handlers.is_empty());
}

#[test]
fn while_loop_sums_to_ten() {
    // var sum = 0; var i = 0; while (i < 5) { sum = sum + i; i = i + 1; }
    let constants = vec![num(0.0), text("sum"), text("i"), num(5.0), num(1.0)];
    let opcodes = vec![
        OpCode::Constant(0),
        OpCode::DefineGlobal(1),
        OpCode::Constant(0),
        OpCode::DefineGlobal(2),
        OpCode::GetGlobal(2), // 4: condition
        OpCode::Constant(3),
        OpCode::Less,
        OpCode::JumpIfFalse(17),
        OpCode::GetGlobal(1),
        OpCode::GetGlobal(2),
        OpCode::Add,
        OpCode::SetGlobal(1),
        OpCode::GetGlobal(2),
        OpCode::Constant(4),
        OpCode::Add,
        OpCode::SetGlobal(2),
        OpCode::Jump(4),
        OpCode::Halt,
    ];
    let mut vm = VM::new();
    assert_eq!(run_program(&mut vm, opcodes, constants), Action::Finished);
    assert_eq!(vm.global("sum"), Some(num(10.0)));
    assert_eq!(vm.global("i"), Some(num(5.0)));
}

#[test]
fn index_out_of_range_is_caught_as_a_string() {
    // try { var arr = []; arr[5]; } catch e { }
    let constants = vec![num(5.0), text("e")];
    let opcodes = vec![
        OpCode::PushExceptionHandler(6),
        OpCode::Array(0),
        OpCode::Constant(0),
        OpCode::GetIndex,
        OpCode::PopExceptionHandler,
        OpCode::Jump(7),
        OpCode::DefineGlobal(1),
        OpCode::Halt,
    ];
    let mut vm = VM::new();
    assert_eq!(run_program(&mut vm, opcodes, constants), Action::Finished);
    assert_eq!(vm.global("e"), Some(text("Индекс вне диапазона")));
}

#[test]
fn native_call_goes_to_the_host_and_its_error_is_thrown() {
    let mut vm = VM::new();
    let id = vm.register_and_define("ио::вывести", NativeKind::IoPrint);
    let action = vm.execute(
        vec![OpCode::GetGlobal(0), OpCode::Constant(1), OpCode::Call(1)],
        vec![text("ио::вывести"), text("hello")],
        Vec::new(),
        100,
    );
    assert_eq!(action, Action::CallNative { id, kind: NativeKind::IoPrint, args: vec![text("hello")] });
    assert!(vm.stack.is_empty());
    let action = vm.resume(Reply::Native(Err("no output".to_string())));
    assert_eq!(action, Action::Uncaught(text("no output")));
    assert!(vm.frames.is_empty());
}

#[test]
fn number_index_matches_the_cast() {
    for x in [0.0f64, 0.5, 1.0, 1.9, 2.0, 5.0, 1e9, 4294967296.0, 1e300, -1.0, -0.0, f64::NAN, f64::INFINITY,
        f64::NEG_INFINITY, 4503599627370496.0, 9007199254740993.0, 1.8446744073709552e19, 9.223372036854776e18]
    {
        assert_eq!(Number::from_bits(x.to_bits()).index(), x as usize, "{}", x);
    }
}

#[test]
fn number_from_count_matches_the_cast() {
    for n in [0usize, 1, 2, 3, 7, 8, 255, 1 << 20, (1 << 53) - 1, 1 << 53, (1 << 53) + 1, (1 << 53) + 2,
        (1 << 53) + 3, (1 << 60) + 12345, usize::MAX, usize::MAX - 1024, usize::MAX / 2 + 1]
    {
        assert_eq!(Number::from_count(n).to_bits(), (n as f64).to_bits(), "{}", n);
    }
}

#[test]
fn number_order_and_equality_match_floats() {
    let samples = [0.0f64, -0.0, 1.0, -1.0, 2.5, -2.5, 1e300, -1e300, f64::INFINITY, f64::NEG_INFINITY,
        f64::NAN, f64::MIN_POSITIVE, 5e-324, -5e-324];
    for a in samples {
        for b in samples {
            let x = Number::from_bits(a.to_bits());
            let y = Number::from_bits(b.to_bits());
            assert_eq!(x.same(&y), a == b, "{} == {}", a, b);
            assert_eq!(x.greater(&y), a > b, "{} > {}", a, b);
        }
        let x = Number::from_bits(a.to_bits());
        assert_eq!(x.negate().to_bits(), (-a).to_bits());
        assert_eq!(x.nan(), a.is_nan());
    }
}
