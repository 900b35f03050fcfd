use ponos::ast::{
    AssignmentStatement, AssignmentTarget, AstNode, BinaryExpr, BinaryOperator, Expression, FuncDecl,
    IfStatement, LambdaExpr, ModuleBlock, Parameter, Program, ReturnStatement, Statement, VarDecl,
    WhileStatement,
};
use ponos::codegen::CompileError;
use ponos::generator::Generator;
use ponos::number::Number;
use ponos::opcode::OpCode;
use ponos::span::Span;
use ponos::value::{UpvalueDescriptor, Value};

fn num(x: f64) -> Value {
    Value::Number(Number::from_bits(x.to_bits()))
}

fn number_expr(n: f64) -> Expression {
    Expression::Number(Number::from_bits(n.to_bits()), Span::default())
}

fn ident(name: &str) -> Expression {
    Expression::Identifier(name.to_string(), Span::default())
}

fn var(name: &str, init: Option<Expression>) -> Statement {
    Statement::VarDecl(VarDecl {
        name: name.to_string(),
        type_annotation: None,
        initializer: init,
        is_exported: false,
        span: Span::default(),
    })
}

fn assign(name: &str, value: Expression) -> Statement {
    Statement::Assignment(AssignmentStatement {
        target: AssignmentTarget::Identifier(name.to_string()),
        value,
        span: Span::default(),
    })
}

fn binary(left: Expression, operator: BinaryOperator, right: Expression) -> Expression {
    Expression::Binary(Box::new(BinaryExpr { left, operator, right, span: Span::default() }))
}

fn func(name: &str, params: &[&str], body: Vec<Statement>) -> Statement {
    Statement::FuncDecl(FuncDecl {
        name: name.to_string(),
        params: params
            .iter()
            .map(|p| Parameter { name: p.to_string(), type_annotation: None, span: Span::default() })
            .collect(),
        body,
        annotations: Vec::new(),
        is_exported: false,
        span: Span::default(),
    })
}

fn ret(value: Option<Expression>) -> Statement {
    Statement::Return(ReturnStatement { value, span: Span::default() })
}

#[test]
fn generates_default_module_and_global_define() {
    let program = Program {
        statements: vec![Statement::VarDecl(VarDecl {
            name: "a".to_string(),
            type_annotation: None,
            initializer: Some(number_expr(42.0)),
            is_exported: false,
            span: Span::default(),
        })],
    };

    let mut generator = Generator::new();
    let ctx = generator.generate(AstNode::Program(program)).unwrap();

    assert_eq!(
        ctx.opcodes,
        vec![OpCode::Constant(0), OpCode::DefineGlobal(1), OpCode::Halt]
    );
    assert_eq!(ctx.constants.len(), 2);
}

#[test]
fn honors_module_declaration_and_exports() {
    let program = Program {
        statements: vec![Statement::VarDecl(VarDecl {
            name: "x".to_string(),
            type_annotation: None,
            initializer: Some(number_expr(1.0)),
            is_exported: true,
            span: Span::default(),
        })],
    };

    let mut generator = Generator::new();
    let ctx = generator.generate(AstNode::Program(program)).unwrap();

    assert_eq!(
        ctx.opcodes,
        vec![OpCode::Constant(0), OpCode::DefineGlobal(1), OpCode::Halt]
    );

    assert_eq!(
        ctx.constants,
        vec![num(1.0), Value::String("x".to_string())]
    );
}

#[test]
fn generates_locals_in_function_body() {
    let statements = vec![
        Statement::VarDecl(VarDecl {
            name: "x".to_string(),
            type_annotation: None,
            initializer: Some(number_expr(1.0)),
            is_exported: false,
            span: Span::default(),
        }),
        Statement::Assignment(AssignmentStatement {
            target: AssignmentTarget::Identifier("x".to_string()),
            value: number_expr(2.0),
            span: Span::default(),
        }),
        Statement::Expression(Expression::Identifier("x".to_string(), Span::default())),
    ];

    let mut generator = Generator::new();
    let ctx = generator.generate_function_body(statements).unwrap();

    assert_eq!(
        ctx.opcodes,
        vec![
            OpCode::Constant(0),
            OpCode::DefineLocal(0),
            OpCode::Constant(1),
            OpCode::SetLocal(0),
            OpCode::GetLocal(0),
        ]
    );

    assert_eq!(ctx.constants, vec![num(1.0), num(2.0)]);
}

#[test]
fn generates_if_statement_with_else() {
    let condition = Expression::Binary(Box::new(BinaryExpr {
        left: Expression::Identifier("x".to_string(), Span::default()),
        operator: BinaryOperator::Greater,
        right: number_expr(5.0),
        span: Span::default(),
    }));

    let then_branch = vec![Statement::Assignment(AssignmentStatement {
        target: AssignmentTarget::Identifier("y".to_string()),
        value: number_expr(10.0),
        span: Span::default(),
    })];

    let else_branch = vec![Statement::Assignment(AssignmentStatement {
        target: AssignmentTarget::Identifier("y".to_string()),
        value: number_expr(20.0),
        span: Span::default(),
    })];

    let program = Program {
        statements: vec![Statement::If(IfStatement {
            condition,
            then_branch,
            else_branch: Some(else_branch),
            span: Span::default(),
        })],
    };

    let mut generator = Generator::new();
    let ctx = generator.generate(AstNode::Program(program)).unwrap();

    assert!(matches!(ctx.opcodes[3], OpCode::JumpIfFalse(7)));
    assert!(matches!(ctx.opcodes[6], OpCode::Jump(9)));
}

#[test]
fn constants_are_shared_by_content_and_functions_never() {
    let program = Program {
        statements: vec![
            var("a", Some(number_expr(1.0))),
            var("b", Some(number_expr(1.0))),
            var("c", Some(Expression::String("a".to_string(), Span::default()))),
            var("d", Some(Expression::Boolean(true, Span::default()))),
            var("e", None),
            var("f", None),
        ],
    };
    let ctx = Generator::new().generate(AstNode::Program(program)).unwrap();
    assert_eq!(
        ctx.constants,
        vec![
            num(1.0),
            Value::String("a".to_string()),
            Value::String("b".to_string()),
            Value::String("c".to_string()),
            Value::Boolean(true),
            Value::String("d".to_string()),
            Value::Nil,
            Value::String("e".to_string()),
            Value::String("f".to_string()),
        ]
    );
    assert_eq!(
        ctx.opcodes,
        vec![
            OpCode::Constant(0),
            OpCode::DefineGlobal(1),
            OpCode::Constant(0),
            OpCode::DefineGlobal(2),
            OpCode::Constant(1),
            OpCode::DefineGlobal(3),
            OpCode::Constant(4),
            OpCode::DefineGlobal(5),
            OpCode::Constant(6),
            OpCode::DefineGlobal(7),
            OpCode::Constant(6),
            OpCode::DefineGlobal(8),
            OpCode::Halt,
        ]
    );
}

#[test]
fn module_block_mangles_and_restores_the_namespace() {
    let program = Program {
        statements: vec![
            Statement::ModuleBlock(ModuleBlock {
                namespace: "мат".to_string(),
                statements: vec![var("ПИ", Some(number_expr(3.0)))],
                span: Span::default(),
            }),
            var("x", Some(ident("y"))),
        ],
    };
    let ctx = Generator::new().generate(AstNode::Program(program)).unwrap();
    assert_eq!(
        ctx.constants,
        vec![
            num(3.0),
            Value::String("мат::ПИ".to_string()),
            Value::String("y".to_string()),
            Value::String("x".to_string()),
        ]
    );
    assert_eq!(ctx.current_namespace, None);
}

#[test]
fn while_jumps_back_to_the_condition_and_out_past_the_body() {
    let program = Program {
        statements: vec![Statement::While(WhileStatement {
            condition: binary(ident("i"), BinaryOperator::Less, number_expr(5.0)),
            body: vec![assign("i", binary(ident("i"), BinaryOperator::Add, number_expr(1.0)))],
            span: Span::default(),
        })],
    };
    let ctx = Generator::new().generate(AstNode::Program(program)).unwrap();
    assert_eq!(
        ctx.opcodes,
        vec![
            OpCode::GetGlobal(0),
            OpCode::Constant(1),
            OpCode::Less,
            OpCode::JumpIfFalse(9),
            OpCode::GetGlobal(0),
            OpCode::Constant(2),
            OpCode::Add,
            OpCode::SetGlobal(0),
            OpCode::Jump(0),
            OpCode::Halt,
        ]
    );
}

#[test]
fn short_circuit_operators_jump_over_the_right_side() {
    let program = Program {
        statements: vec![
            Statement::Expression(binary(ident("a"), BinaryOperator::And, ident("b"))),
            Statement::Expression(binary(ident("a"), BinaryOperator::Or, ident("b"))),
        ],
    };
    let ctx = Generator::new().generate(AstNode::Program(program)).unwrap();
    assert_eq!(
        ctx.opcodes,
        vec![
            OpCode::GetGlobal(0),
            OpCode::Dup,
            OpCode::JumpIfFalse(5),
            OpCode::Pop,
            OpCode::GetGlobal(1),
            OpCode::GetGlobal(0),
            OpCode::Dup,
            OpCode::JumpIfTrue(10),
            OpCode::Pop,
            OpCode::GetGlobal(1),
            OpCode::Halt,
        ]
    );
}

#[test]
fn comparison_operators_are_synthesized() {
    let cases = [
        (BinaryOperator::NotEqual, vec![OpCode::Eql, OpCode::Not]),
        (BinaryOperator::LessEqual, vec![OpCode::Greater, OpCode::Not]),
        (BinaryOperator::GreaterEqual, vec![OpCode::Less, OpCode::Not]),
        (BinaryOperator::Modulo, vec![OpCode::Mod]),
    ];
    for (operator, expected) in cases {
        let program =
            Program { statements: vec![Statement::Expression(binary(ident("a"), operator, ident("b")))] };
        let ctx = Generator::new().generate(AstNode::Program(program)).unwrap();
        let mut opcodes = vec![OpCode::GetGlobal(0), OpCode::GetGlobal(1)];
        opcodes.extend(expected);
        opcodes.push(OpCode::Halt);
        assert_eq!(ctx.opcodes, opcodes);
    }
}

#[test]
fn upvalues_are_chained_through_every_function_between() {
    // func outer() { var c = 0; func middle() { func inner() { return c; } return inner; } return middle; }
    let inner = func("inner", &[], vec![ret(Some(ident("c")))]);
    let middle = func("middle", &[], vec![inner, ret(Some(ident("inner")))]);
    let outer = func("outer", &[], vec![var("c", Some(number_expr(0.0))), middle, ret(Some(ident("middle")))]);
    let ctx = Generator::new().generate(AstNode::Program(Program { statements: vec![outer] })).unwrap();
    assert_eq!(ctx.functions.len(), 3);
    let inner = &ctx.functions[0];
    let middle = &ctx.functions[1];
    let outer = &ctx.functions[2];
    assert_eq!(inner.name, "inner");
    assert_eq!(inner.upvalue_descriptors, vec![UpvalueDescriptor { is_local: false, index: 0 }]);
    assert_eq!(inner.opcodes, vec![OpCode::GetUpvalue(0), OpCode::Return_, OpCode::Constant(0), OpCode::Return_]);
    assert_eq!(middle.upvalue_descriptors, vec![UpvalueDescriptor { is_local: true, index: 0 }]);
    assert_eq!(middle.upvalue_count, 1);
    assert_eq!(middle.opcodes[0], OpCode::Closure(0, 1));
    assert_eq!(outer.upvalue_count, 0);
    assert_eq!(outer.arity, 0);
    assert_eq!(ctx.opcodes, vec![OpCode::Closure(0, 0), OpCode::DefineGlobal(1), OpCode::Halt]);
    assert_eq!(ctx.constants[0], Value::Function(2));
}

#[test]
fn compile_errors_are_reported() {
    let mut generator = Generator::new();
    let exported = Statement::VarDecl(VarDecl {
        name: "x".to_string(),
        type_annotation: None,
        initializer: None,
        is_exported: true,
        span: Span::default(),
    });
    assert_eq!(
        generator.generate_function_body(vec![exported]).unwrap_err(),
        CompileError::ExportInFunction
    );
    assert_eq!(
        generator.generate(AstNode::Program(Program { statements: vec![ret(None)] })).unwrap_err(),
        CompileError::ReturnOutsideFunction
    );
    assert_eq!(
        generator
            .generate(AstNode::Program(Program {
                statements: vec![Statement::Expression(Expression::This(Span::default()))]
            }))
            .unwrap_err(),
        CompileError::ThisOutsideMethod
    );
    assert_eq!(
        generator.generate(AstNode::Expression(number_expr(1.0))).unwrap_err(),
        CompileError::NotAProgram
    );
    // the generator is usable after a failure
    let ctx = generator.generate(AstNode::Program(Program { statements: vec![var("a", None)] })).unwrap();
    assert_eq!(ctx.opcodes.len(), 3);
}

#[test]
fn lambda_is_compiled_inline_with_an_implicit_nil_return() {
    let lambda = Expression::Lambda(Box::new(LambdaExpr {
        params: vec![Parameter { name: "n".to_string(), type_annotation: None, span: Span::default() }],
        body: vec![Statement::Expression(ident("n"))],
        span: Span::default(),
    }));
    let ctx = Generator::new()
        .generate(AstNode::Program(Program { statements: vec![Statement::Expression(lambda)] }))
        .unwrap();
    assert_eq!(ctx.opcodes, vec![OpCode::Closure(0, 0), OpCode::Halt]);
    assert_eq!(ctx.functions.len(), 1);
    assert_eq!(ctx.functions[0].name, "<lambda>");
    assert_eq!(ctx.functions[0].arity, 1);
    assert_eq!(
        ctx.functions[0].opcodes,
        vec![OpCode::GetLocal(0), OpCode::Constant(0), OpCode::Return_]
    );
    assert_eq!(ctx.functions[0].constants, vec![Value::Nil]);
}
