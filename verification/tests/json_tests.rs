use ponos::heap::Object;
use ponos::json::{json_to_value, value_to_json, Json};
use ponos::model::NativeKind;
use ponos::number::Number;
use ponos::opcode::OpCode;
use ponos::ops::is_equal;
use ponos::value::{Value, ValueKey};
use ponos::vm::{Action, VM};

fn num(x: f64) -> Value {
    Value::Number(Number::from_bits(x.to_bits()))
}

fn text(s: &str) -> Value {
    Value::String(s.to_string())
}

#[test]
fn values_become_json_of_the_same_shape() {
    let mut heap = vec![
        Object::Array(vec![num(1.0), text("a"), Value::Nil, Value::Array(1)]),
        Object::Array(vec![Value::Boolean(true)]),
        Object::Dict(vec![
            (ValueKey::String("k".to_string()), Value::Array(0)),
            (ValueKey::Number(5), num(2.0)),
        ]),
    ];
    let json = value_to_json(&heap, &Value::Dict(2), 10).unwrap();
    assert_eq!(
        json,
        Json::Object(vec![
            (
                ValueKey::String("k".to_string()),
                Json::Array(vec![
                    Json::Number(Number::from_bits(1.0f64.to_bits())),
                    Json::String("a".to_string()),
                    Json::Null,
                    Json::Array(vec![Json::Bool(true)]),
                ])
            ),
            (ValueKey::Number(5), Json::Number(Number::from_bits(2.0f64.to_bits()))),
        ])
    );
    let before = heap.len();
    let back = json_to_value(&mut heap, &json);
    assert!(heap.len() > before);
    assert_ne!(back, Value::Dict(2));
    let depth = heap.len();
    assert!(is_equal(&heap, &Value::Dict(2), &back, depth));
}

#[test]
fn what_json_cannot_hold_is_an_error() {
    let heap = vec![Object::Array(vec![Value::Array(0)]), Object::Array(vec![num(1.0), num(f64::NAN)])];
    assert_eq!(
        value_to_json(&heap, &num(f64::INFINITY), 3).unwrap_err(),
        "Число не может быть представлено в JSON"
    );
    assert_eq!(
        value_to_json(&heap, &Value::Array(1), 3).unwrap_err(),
        "Число не может быть представлено в JSON"
    );
    assert_eq!(
        value_to_json(&heap, &Value::Function(0), 3).unwrap_err(),
        "Невозможно сериализовать этот тип в JSON"
    );
    assert_eq!(
        value_to_json(&heap, &Value::Array(7), 3).unwrap_err(),
        "Невозможно сериализовать этот тип в JSON"
    );
    // an array that holds itself has no JSON
    assert_eq!(
        value_to_json(&heap, &Value::Array(0), 3).unwrap_err(),
        "Значение слишком глубоко вложено для JSON"
    );
    assert_eq!(value_to_json(&heap, &num(-0.5), 0).unwrap(), Json::Number(Number::from_bits((-0.5f64).to_bits())));
}

#[test]
fn later_entries_of_an_object_replace_earlier_ones() {
    let mut heap = Vec::new();
    let json = Json::Object(vec![
        (ValueKey::String("a".to_string()), Json::Bool(false)),
        (ValueKey::String("b".to_string()), Json::Null),
        (ValueKey::String("a".to_string()), Json::Bool(true)),
    ]);
    let v = json_to_value(&mut heap, &json);
    assert_eq!(v, Value::Dict(0));
    assert_eq!(
        heap,
        vec![Object::Dict(vec![
            (ValueKey::String("a".to_string()), Value::Boolean(true)),
            (ValueKey::String("b".to_string()), Value::Nil),
        ])]
    );
}

fn call(kind: NativeKind, args: Vec<Value>) -> (VM, Action) {
    let mut vm = VM::new();
    vm.register_and_define("f", kind);
    let mut constants = vec![text("f")];
    let mut opcodes = vec![OpCode::GetGlobal(0)];
    for (i, a) in args.into_iter().enumerate() {
        constants.push(a);
        opcodes.push(OpCode::Constant(i + 1));
    }
    opcodes.push(OpCode::Call(constants.len() - 1));
    let action = vm.execute(opcodes, constants, Vec::new(), 1000);
    (vm, action)
}

#[test]
fn string_natives_are_computed_by_the_machine() {
    let (vm, action) = call(NativeKind::StrTrim, vec![text("  да \n")]);
    assert_eq!(action, Action::Finished);
    assert_eq!(vm.stack, vec![text("да")]);
    let (vm, _) = call(NativeKind::StrUpper, vec![text("Привет")]);
    assert_eq!(vm.stack, vec![text("ПРИВЕТ")]);
    let (vm, _) = call(NativeKind::StrLower, vec![text("ПриВет")]);
    assert_eq!(vm.stack, vec![text("привет")]);
    let (vm, _) = call(NativeKind::StrReplace, vec![text("a-b-c"), text("-"), text("+")]);
    assert_eq!(vm.stack, vec![text("a+b+c")]);
    let (vm, _) = call(NativeKind::StrStartsWith, vec![text("привет"), text("при")]);
    assert_eq!(vm.stack, vec![Value::Boolean(true)]);
    let (vm, _) = call(NativeKind::StrStartsWith, vec![text("привет"), text("вет")]);
    assert_eq!(vm.stack, vec![Value::Boolean(false)]);
    let (vm, _) = call(NativeKind::StrSplit, vec![text("a b"), text(" ")]);
    assert_eq!(vm.stack, vec![Value::Array(0)]);
    assert_eq!(vm.heap, vec![Object::Array(vec![text("a"), text("b")])]);
}

#[test]
fn string_natives_check_their_arguments() {
    let (_, action) = call(NativeKind::StrTrim, vec![]);
    assert_eq!(action, Action::Uncaught(text("обрезать требует 1 аргумент")));
    let (_, action) = call(NativeKind::StrTrim, vec![num(1.0)]);
    assert_eq!(action, Action::Uncaught(text("Аргумент должен быть строкой")));
    let (_, action) = call(NativeKind::StrSplit, vec![text("a"), num(1.0)]);
    assert_eq!(action, Action::Uncaught(text("Разделитель должен быть строкой")));
    let (_, action) = call(NativeKind::StrSplit, vec![num(1.0), text("a")]);
    assert_eq!(action, Action::Uncaught(text("Первый аргумент должен быть строкой")));
    let (_, action) = call(NativeKind::StrReplace, vec![text("a"), text("b"), Value::Nil]);
    assert_eq!(action, Action::Uncaught(text("Третий аргумент должен быть строкой")));
    let (_, action) = call(NativeKind::StrReplace, vec![text("a"), Value::Nil, text("b")]);
    assert_eq!(action, Action::Uncaught(text("Второй аргумент должен быть строкой")));
    let (_, action) = call(NativeKind::StrUpper, vec![text("a"), text("b")]);
    assert_eq!(action, Action::Uncaught(text("верхний_регистр требует 1 аргумент")));
    let (_, action) = call(NativeKind::StrLower, vec![]);
    assert_eq!(action, Action::Uncaught(text("нижний_регистр требует 1 аргумент")));
    let (_, action) = call(NativeKind::StrStartsWith, vec![text("a")]);
    assert_eq!(action, Action::Uncaught(text("начинается_с требует 2 аргумента: строка и начало")));
}

#[test]
fn trimming_agrees_with_the_trimming_of_std() {
    let cases = [
        "",
        " ",
        "\n\t\r ",
        "x",
        " x",
        "x ",
        "  a b  ",
        "\u{a0}да\u{2003}",
        "\u{3000} внутри  пробелы \u{85}",
        "без",
        "\u{200b}x\u{200b}",
    ];
    for case in cases {
        let (vm, action) = call(NativeKind::StrTrim, vec![text(case)]);
        assert_eq!(action, Action::Finished);
        assert_eq!(vm.stack, vec![text(case.trim())], "{:?}", case);
    }
}
