use ponos::ast::{
    ArrayLiteralExpr, AssignmentStatement, AssignmentTarget, AstNode, BinaryExpr, BinaryOperator,
    CallExpr, ClassDecl, ClassMember, ConstructorDecl, DictLiteralExpr, Expression, FieldAccessExpr,
    FuncDecl, IfStatement, IndexExpr, LambdaExpr, Parameter, Program, RangeExpr, ReturnStatement,
    Statement, ThrowStatement, TryStatement, VarDecl, WhileStatement,
};
use ponos::generator::Generator;
use ponos::heap::Object;
use ponos::model::ArithOp;
use ponos::number::Number;
use ponos::span::Span;
use ponos::value::Value;
use ponos::vm::{Action, Reply, VM};

fn sp() -> Span {
    Span::default()
}

fn num(x: f64) -> Value {
    Value::Number(Number::from_bits(x.to_bits()))
}

fn text(s: &str) -> Value {
    Value::String(s.to_string())
}

fn n(x: f64) -> Expression {
    Expression::Number(Number::from_bits(x.to_bits()), sp())
}

fn s(x: &str) -> Expression {
    Expression::String(x.to_string(), sp())
}

fn b(x: bool) -> Expression {
    Expression::Boolean(x, sp())
}

fn id(name: &str) -> Expression {
    Expression::Identifier(name.to_string(), sp())
}

fn bin(left: Expression, operator: BinaryOperator, right: Expression) -> Expression {
    Expression::Binary(Box::new(BinaryExpr { left, operator, right, span: sp() }))
}

fn call(callee: Expression, arguments: Vec<Expression>) -> Expression {
    Expression::Call(Box::new(CallExpr { callee, arguments, span: sp() }))
}

fn field(object: Expression, name: &str) -> Expression {
    Expression::FieldAccess(Box::new(FieldAccessExpr { object, field: name.to_string(), span: sp() }))
}

fn index(object: Expression, at: Expression) -> Expression {
    Expression::Index(Box::new(IndexExpr { object, index: at, span: sp() }))
}

fn array(elements: Vec<Expression>) -> Expression {
    Expression::ArrayLiteral(Box::new(ArrayLiteralExpr { elements, span: sp() }))
}

fn dict(pairs: Vec<(Expression, Expression)>) -> Expression {
    Expression::DictLiteral(Box::new(DictLiteralExpr { pairs, span: sp() }))
}

fn params(names: &[&str]) -> Vec<Parameter> {
    names.iter().map(|p| Parameter { name: p.to_string(), type_annotation: None, span: sp() }).collect()
}

fn lambda(names: &[&str], body: Vec<Statement>) -> Expression {
    Expression::Lambda(Box::new(LambdaExpr { params: params(names), body, span: sp() }))
}

fn var(name: &str, init: Expression) -> Statement {
    Statement::VarDecl(VarDecl {
        name: name.to_string(),
        type_annotation: None,
        initializer: Some(init),
        is_exported: false,
        span: sp(),
    })
}

fn set(name: &str, value: Expression) -> Statement {
    Statement::Assignment(AssignmentStatement {
        target: AssignmentTarget::Identifier(name.to_string()),
        value,
        span: sp(),
    })
}

fn set_field(object: Expression, name: &str, value: Expression) -> Statement {
    Statement::Assignment(AssignmentStatement {
        target: AssignmentTarget::FieldAccess(Box::new(object), name.to_string()),
        value,
        span: sp(),
    })
}

fn set_index(object: Expression, at: Expression, value: Expression) -> Statement {
    Statement::Assignment(AssignmentStatement {
        target: AssignmentTarget::Index(Box::new(object), Box::new(at)),
        value,
        span: sp(),
    })
}

fn func(name: &str, names: &[&str], body: Vec<Statement>) -> FuncDecl {
    FuncDecl {
        name: name.to_string(),
        params: params(names),
        body,
        annotations: Vec::new(),
        is_exported: false,
        span: sp(),
    }
}

fn ret(value: Expression) -> Statement {
    Statement::Return(ReturnStatement { value: Some(value), span: sp() })
}

fn expr(e: Expression) -> Statement {
    Statement::Expression(e)
}

fn if_else(condition: Expression, then_branch: Vec<Statement>, else_branch: Option<Vec<Statement>>) -> Statement {
    Statement::If(IfStatement { condition, then_branch, else_branch, span: sp() })
}

fn while_loop(condition: Expression, body: Vec<Statement>) -> Statement {
    Statement::While(WhileStatement { condition, body, span: sp() })
}

fn try_catch(try_body: Vec<Statement>, catch_var: Option<&str>, catch_body: Vec<Statement>) -> Statement {
    Statement::Try(Box::new(TryStatement {
        try_body,
        catch_var: catch_var.map(|v| v.to_string()),
        catch_body,
        span: sp(),
    }))
}

fn throw(e: Expression) -> Statement {
    Statement::Throw(Box::new(ThrowStatement { expression: e, span: sp() }))
}

fn class(name: &str, extends: Option<&str>, members: Vec<ClassMember>) -> Statement {
    Statement::ClassDecl(ClassDecl {
        name: name.to_string(),
        extends: extends.map(|e| e.to_string()),
        implements: Vec::new(),
        members,
        annotations: Vec::new(),
        is_exported: false,
        span: sp(),
    })
}

fn arithmetic(op: ArithOp, left: Number, right: Number) -> Number {
    let a = f64::from_bits(left.to_bits());
    let b = f64::from_bits(right.to_bits());
    let r = match op {
        ArithOp::Add => a + b,
        ArithOp::Sub => a - b,
        ArithOp::Mul => a * b,
        ArithOp::Div => a / b,
        ArithOp::Mod => a % b,
    };
    Number::from_bits(r.to_bits())
}

fn drive(vm: &mut VM, mut action: Action) -> Action {
    loop {
        action = match action {
            Action::Continue => vm.run(1_000_000),
            Action::Arithmetic { op, left, right } => vm.resume(Reply::Number(arithmetic(op, left, right))),
            Action::Format { number } => vm.resume(Reply::Text(format!("{}", f64::from_bits(number.to_bits())))),
            other => return other,
        };
    }
}

/// Compiles and runs a program on a machine, the way a session would.
fn run_on(vm: &mut VM, statements: Vec<Statement>) -> Action {
    let ctx = Generator::new().generate(AstNode::Program(Program { statements })).unwrap();
    let action = vm.execute(ctx.opcodes, ctx.constants, ctx.functions, 1_000_000);
    drive(vm, action)
}

fn run(statements: Vec<Statement>) -> (VM, Action) {
    let mut vm = VM::new();
    let action = run_on(&mut vm, statements);
    (vm, action)
}

fn array_items(vm: &VM, v: &Value) -> Vec<Value> {
    match v {
        Value::Array(a) => match &vm.heap[*a] {
            Object::Array(items) => items.clone(),
            other => panic!("not an array: {:?}", other),
        },
        other => panic!("not an array: {:?}", other),
    }
}

#[test]
fn while_loop_sums_zero_to_four() {
    let (vm, action) = run(vec![
        var("sum", n(0.0)),
        var("i", n(0.0)),
        while_loop(
            bin(id("i"), BinaryOperator::Less, n(5.0)),
            vec![
                set("sum", bin(id("sum"), BinaryOperator::Add, id("i"))),
                set("i", bin(id("i"), BinaryOperator::Add, n(1.0))),
            ],
        ),
    ]);
    assert_eq!(action, Action::Finished);
    assert_eq!(vm.global("sum"), Some(num(10.0)));
}

#[test]
fn recursive_factorial_of_five() {
    let factorial = func(
        "factorial",
        &["n"],
        vec![
            if_else(bin(id("n"), BinaryOperator::LessEqual, n(1.0)), vec![ret(n(1.0))], None),
            ret(bin(
                id("n"),
                BinaryOperator::Multiply,
                call(id("factorial"), vec![bin(id("n"), BinaryOperator::Subtract, n(1.0))]),
            )),
        ],
    );
    let (vm, action) =
        run(vec![Statement::FuncDecl(factorial), var("result", call(id("factorial"), vec![n(5.0)]))]);
    assert_eq!(action, Action::Finished);
    assert_eq!(vm.global("result"), Some(num(120.0)));
}

#[test]
fn counter_closure_counts_to_three() {
    let make = lambda(
        &[],
        vec![
            var("c", n(0.0)),
            ret(lambda(&[], vec![set("c", bin(id("c"), BinaryOperator::Add, n(1.0))), ret(id("c"))])),
        ],
    );
    let (vm, action) = run(vec![
        var("make", make),
        var("next", call(id("make"), vec![])),
        expr(call(id("next"), vec![])),
        expr(call(id("next"), vec![])),
        var("last", call(id("next"), vec![])),
    ]);
    assert_eq!(action, Action::Finished);
    assert_eq!(vm.global("last"), Some(num(3.0)));
}

#[test]
fn closures_of_one_activation_share_their_variable() {
    // func pair() { var c = 0; var inc = func() { c = c + 1; }; var get = func() { return c; };
    //               inc(); var seen = get(); return [inc, get, seen]; }
    let pair = func(
        "pair",
        &[],
        vec![
            var("c", n(0.0)),
            var("inc", lambda(&[], vec![set("c", bin(id("c"), BinaryOperator::Add, n(1.0)))])),
            var("get", lambda(&[], vec![ret(id("c"))])),
            expr(call(id("inc"), vec![])),
            var("seen", call(id("get"), vec![])),
            ret(array(vec![id("inc"), id("get"), id("seen"), id("c")])),
        ],
    );
    let (vm, action) = run(vec![
        Statement::FuncDecl(pair),
        var("p", call(id("pair"), vec![])),
        var("while_open", index(id("p"), n(2.0))),
        var("local_then", index(id("p"), n(3.0))),
        expr(call(index(id("p"), n(0.0)), vec![])),
        expr(call(index(id("p"), n(0.0)), vec![])),
        var("after_return", call(index(id("p"), n(1.0)), vec![])),
    ]);
    assert_eq!(action, Action::Finished);
    assert_eq!(vm.global("while_open"), Some(num(1.0)));
    assert_eq!(vm.global("local_then"), Some(num(1.0)));
    assert_eq!(vm.global("after_return"), Some(num(3.0)));
}

#[test]
fn overriding_method_and_super_dispatch() {
    let animal = class(
        "Animal",
        None,
        vec![ClassMember::Method(func("speak", &[], vec![ret(s("animal"))]))],
    );
    let dog = class(
        "Dog",
        Some("Animal"),
        vec![
            ClassMember::Method(func("speak", &[], vec![ret(s("bark"))])),
            ClassMember::Method(func(
                "both",
                &[],
                vec![ret(bin(
                    bin(
                        call(Expression::Super("speak".to_string(), sp()), vec![]),
                        BinaryOperator::Add,
                        s("/"),
                    ),
                    BinaryOperator::Add,
                    call(field(Expression::This(sp()), "speak"), vec![]),
                ))],
            )),
        ],
    );
    let (vm, action) = run(vec![
        animal,
        dog,
        var("d", call(id("Dog"), vec![])),
        var("result", call(field(id("d"), "both"), vec![])),
        var("plain", call(field(call(id("Animal"), vec![]), "speak"), vec![])),
        var("via_super_word", call(field(id("d"), "speak"), vec![])),
    ]);
    assert_eq!(action, Action::Finished);
    assert_eq!(vm.global("result"), Some(text("animal/bark")));
    assert_eq!(vm.global("plain"), Some(text("animal")));
    assert_eq!(vm.global("via_super_word"), Some(text("bark")));
}

#[test]
fn constructor_sets_fields_and_returns_the_instance() {
    let point = class(
        "Точка",
        None,
        vec![
            ClassMember::Field { name: "x".to_string(), type_annotation: None },
            ClassMember::Constructor(ConstructorDecl {
                params: params(&["val"]),
                body: vec![set_field(Expression::This(sp()), "x", id("val"))],
                span: sp(),
            }),
            ClassMember::Method(func(
                "twice",
                &[],
                vec![ret(bin(field(Expression::This(sp()), "x"), BinaryOperator::Multiply, n(2.0)))],
            )),
        ],
    );
    let (vm, action) = run(vec![
        point,
        var("p", call(id("Точка"), vec![n(21.0)])),
        var("x", field(id("p"), "x")),
        var("t", call(field(id("p"), "twice"), vec![])),
    ]);
    assert_eq!(action, Action::Finished);
    assert_eq!(vm.global("x"), Some(num(21.0)));
    assert_eq!(vm.global("t"), Some(num(42.0)));
    assert!(matches!(vm.global("p"), Some(Value::Instance(_))));
}

#[test]
fn constructor_with_an_explicit_return_gives_what_it_returns() {
    let odd = class(
        "Странный",
        None,
        vec![ClassMember::Constructor(ConstructorDecl {
            params: params(&["val"]),
            body: vec![set_field(Expression::This(sp()), "x", id("val")), ret(n(99.0))],
            span: sp(),
        })],
    );
    let (vm, action) = run(vec![odd, var("p", call(id("Странный"), vec![n(21.0)]))]);
    assert_eq!(action, Action::Finished);
    assert_eq!(vm.global("p"), Some(num(99.0)));
}

#[test]
fn out_of_range_index_is_caught_as_a_string() {
    let (vm, action) = run(vec![
        var("seen", s("")),
        try_catch(
            vec![var("arr", array(vec![])), expr(index(id("arr"), n(5.0)))],
            Some("e"),
            vec![set("seen", id("e"))],
        ),
    ]);
    assert_eq!(action, Action::Finished);
    assert_eq!(vm.global("seen"), Some(text("Индекс вне диапазона")));
}

#[test]
fn dictionary_stores_and_lists_its_keys() {
    let (vm, action) = run(vec![
        var("d", dict(vec![(s("a"), n(1.0)), (s("b"), n(2.0))])),
        set_index(id("d"), s("c"), bin(index(id("d"), s("a")), BinaryOperator::Add, index(id("d"), s("b")))),
        var("keys", call(field(id("d"), "ключи"), vec![])),
        var("c", index(id("d"), s("c"))),
        var("missing", index(id("d"), s("zzz"))),
        var("values", call(field(id("d"), "значения"), vec![])),
    ]);
    assert_eq!(action, Action::Finished);
    assert_eq!(vm.global("c"), Some(num(3.0)));
    assert_eq!(vm.global("missing"), Some(Value::Nil));
    let keys = array_items(&vm, &vm.global("keys").unwrap());
    assert_eq!(keys.len(), 3);
    assert!(keys.contains(&text("a")));
    assert!(keys.contains(&text("b")));
    assert!(keys.contains(&text("c")));
    let values = array_items(&vm, &vm.global("values").unwrap());
    assert_eq!(values, vec![num(1.0), num(2.0), num(3.0)]);
}

#[test]
fn local_shadows_global_inside_the_function_only() {
    let f = func("f", &[], vec![var("x", s("inner")), ret(id("x"))]);
    let (vm, action) = run(vec![
        var("x", s("outer")),
        Statement::FuncDecl(f),
        var("inside", call(id("f"), vec![])),
        var("after", id("x")),
    ]);
    assert_eq!(action, Action::Finished);
    assert_eq!(vm.global("inside"), Some(text("inner")));
    assert_eq!(vm.global("after"), Some(text("outer")));
}

#[test]
fn short_circuit_skips_the_right_operand() {
    let touch = func("touch", &[], vec![set("touched", b(true)), ret(b(true))]);
    let (vm, action) = run(vec![
        var("touched", b(false)),
        Statement::FuncDecl(touch),
        var("a", bin(b(false), BinaryOperator::And, call(id("touch"), vec![]))),
        var("o", bin(b(true), BinaryOperator::Or, call(id("touch"), vec![]))),
        var("untouched", bin(id("touched"), BinaryOperator::Equal, b(false))),
        var("a2", bin(b(true), BinaryOperator::And, call(id("touch"), vec![]))),
        var("o2", bin(n(7.0), BinaryOperator::Or, n(8.0))),
    ]);
    assert_eq!(action, Action::Finished);
    assert_eq!(vm.global("a"), Some(Value::Boolean(false)));
    assert_eq!(vm.global("o"), Some(Value::Boolean(true)));
    assert_eq!(vm.global("untouched"), Some(Value::Boolean(true)));
    assert_eq!(vm.global("a2"), Some(Value::Boolean(true)));
    assert_eq!(vm.global("touched"), Some(Value::Boolean(true)));
    assert_eq!(vm.global("o2"), Some(num(7.0)));
}

#[test]
fn wrong_argument_count_is_thrown_not_fatal() {
    let f = func("f", &["a", "b"], vec![ret(id("a"))]);
    let (vm, action) = run(vec![
        Statement::FuncDecl(f),
        var("seen", s("")),
        try_catch(vec![expr(call(id("f"), vec![n(1.0)]))], Some("e"), vec![set("seen", id("e"))]),
    ]);
    assert_eq!(action, Action::Finished);
    assert_eq!(vm.global("seen"), Some(text("Неверное количество аргументов")));
    let f = func("f", &["a", "b"], vec![ret(id("a"))]);
    let (_, action) = run(vec![Statement::FuncDecl(f), expr(call(id("f"), vec![]))]);
    assert_eq!(action, Action::Uncaught(text("Неверное количество аргументов")));
}

#[test]
fn bound_methods_are_distinct_but_behave_alike() {
    let c = class("C", None, vec![ClassMember::Method(func("m", &[], vec![ret(n(5.0))]))]);
    let (vm, action) = run(vec![
        c,
        var("i", call(id("C"), vec![])),
        var("m1", field(id("i"), "m")),
        var("m2", field(id("i"), "m")),
        var("same", bin(id("m1"), BinaryOperator::Equal, id("m2"))),
        var("self_same", bin(id("m1"), BinaryOperator::Equal, id("m1"))),
        var("r1", call(id("m1"), vec![])),
        var("r2", call(id("m2"), vec![])),
    ]);
    assert_eq!(action, Action::Finished);
    assert_eq!(vm.global("same"), Some(Value::Boolean(false)));
    assert_eq!(vm.global("self_same"), Some(Value::Boolean(true)));
    assert_eq!(vm.global("r1"), Some(num(5.0)));
    assert_eq!(vm.global("r2"), Some(num(5.0)));
    assert_ne!(vm.global("m1"), vm.global("m2"));
}

#[test]
fn throw_in_a_called_function_unwinds_to_the_catch() {
    let fail = func(
        "fail",
        &["log"],
        vec![expr(call(field(id("log"), "добавить"), vec![s("before")])), throw(s("boom")), ret(n(1.0))],
    );
    let (vm, action) = run(vec![
        Statement::FuncDecl(fail),
        var("log", array(vec![])),
        var("seen", s("")),
        try_catch(
            vec![expr(bin(n(1.0), BinaryOperator::Add, call(id("fail"), vec![id("log")])))],
            Some("e"),
            vec![set("seen", id("e"))],
        ),
        var("after", n(7.0)),
    ]);
    assert_eq!(action, Action::Finished);
    assert_eq!(vm.global("seen"), Some(text("boom")));
    assert_eq!(array_items(&vm, &vm.global("log").unwrap()), vec![text("before")]);
    assert_eq!(vm.global("after"), Some(num(7.0)));
    assert!(vm.frames.is_empty());
    assert!(vm.handlers.is_empty());
}

#[test]
fn second_definition_of_a_global_is_a_runtime_error() {
    let (vm, action) = run(vec![var("x", n(1.0)), var("x", n(2.0))]);
    assert_eq!(action, Action::Uncaught(text("Глобальная переменная уже определена")));
    assert_eq!(vm.global("x"), Some(num(1.0)));
}

#[test]
fn uncaught_user_throw_surfaces_the_value() {
    let (vm, action) = run(vec![throw(n(42.0))]);
    assert_eq!(action, Action::Uncaught(num(42.0)));
    assert!(vm.stack.is_empty());
}

#[test]
fn strings_index_and_slice_by_code_point() {
    let slice = |start: Option<f64>, end: Option<f64>| {
        Expression::Range(Box::new(RangeExpr {
            start: start.map(|x| Box::new(n(x))),
            end: end.map(|x| Box::new(n(x))),
            span: sp(),
        }))
    };
    let (vm, action) = run(vec![
        var("t", s("привет")),
        var("c", index(id("t"), n(1.0))),
        var("head", index(id("t"), slice(None, Some(3.0)))),
        var("tail", index(id("t"), slice(Some(3.0), None))),
        var("all", index(id("t"), slice(None, None))),
        var("len", call(field(id("t"), "длина"), vec![])),
        var("parts", call(field(s("a,b,,c"), "разделить"), vec![s(",")])),
        var("arr", index(array(vec![n(1.0), n(2.0), n(3.0)]), slice(Some(1.0), Some(3.0)))),
    ]);
    assert_eq!(action, Action::Finished);
    assert_eq!(vm.global("c"), Some(text("р")));
    assert_eq!(vm.global("head"), Some(text("при")));
    assert_eq!(vm.global("tail"), Some(text("вет")));
    assert_eq!(vm.global("all"), Some(text("привет")));
    assert_eq!(vm.global("len"), Some(num(6.0)));
    assert_eq!(
        array_items(&vm, &vm.global("parts").unwrap()),
        vec![text("a"), text("b"), text(""), text("c")]
    );
    assert_eq!(array_items(&vm, &vm.global("arr").unwrap()), vec![num(2.0), num(3.0)]);
}

#[test]
fn bad_slice_and_bad_key_are_thrown() {
    let slice = Expression::Range(Box::new(RangeExpr {
        start: Some(Box::new(n(3.0))),
        end: Some(Box::new(n(1.0))),
        span: sp(),
    }));
    let (_, action) = run(vec![expr(index(s("abc"), slice))]);
    assert_eq!(action, Action::Uncaught(text("Некорректные границы среза")));
    let (_, action) = run(vec![expr(dict(vec![(array(vec![]), n(1.0))]))]);
    assert_eq!(
        action,
        Action::Uncaught(text("Ключом словаря может быть только число, строка или булево значение"))
    );
    let (_, action) = run(vec![expr(call(n(1.0), vec![]))]);
    assert_eq!(action, Action::Uncaught(text("Попытка вызвать не-функцию")));
    let (_, action) = run(vec![expr(bin(b(true), BinaryOperator::Less, n(1.0)))]);
    assert_eq!(action, Action::Uncaught(text("Значения нельзя сравнить")));
}

#[test]
fn arrays_are_shared_by_reference_and_compared_by_content() {
    let (vm, action) = run(vec![
        var("a", array(vec![n(1.0)])),
        var("alias", id("a")),
        expr(call(field(id("alias"), "добавить"), vec![n(2.0)])),
        set_index(id("a"), n(0.0), n(10.0)),
        var("first", index(id("alias"), n(0.0))),
        var("equal", bin(id("a"), BinaryOperator::Equal, array(vec![n(10.0), n(2.0)]))),
        var("unequal", bin(id("a"), BinaryOperator::Equal, array(vec![n(10.0)]))),
        expr(call(field(id("a"), "очистить"), vec![])),
        var("empty", bin(id("alias"), BinaryOperator::Equal, array(vec![]))),
    ]);
    assert_eq!(action, Action::Finished);
    assert_eq!(vm.global("first"), Some(num(10.0)));
    assert_eq!(vm.global("equal"), Some(Value::Boolean(true)));
    assert_eq!(vm.global("unequal"), Some(Value::Boolean(false)));
    assert_eq!(vm.global("empty"), Some(Value::Boolean(true)));
}

#[test]
fn a_second_program_on_the_same_machine_sees_the_first() {
    let mut vm = VM::new();
    let add = func("add", &["a", "b"], vec![ret(bin(id("a"), BinaryOperator::Add, id("b")))]);
    assert_eq!(run_on(&mut vm, vec![Statement::FuncDecl(add), var("x", n(1.0))]), Action::Finished);
    let twice = func("twice", &["a"], vec![ret(call(id("add"), vec![id("a"), id("a")]))]);
    assert_eq!(
        run_on(&mut vm, vec![Statement::FuncDecl(twice), var("y", call(id("twice"), vec![id("x")]))]),
        Action::Finished
    );
    assert_eq!(vm.global("y"), Some(num(2.0)));
}
