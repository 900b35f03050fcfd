use ponos::ast::{
    AssignmentStatement, AssignmentTarget, BinaryExpr, BinaryOperator, CallExpr, Expression, FieldAccessExpr,
    Program, Statement, VarDecl,
};
use ponos::name_resolver::NameResolver;
use ponos::preprocess::{is_ident_continue, is_ident_start, preprocess_semicolons};
use ponos::span::Span;
use ponos::symbol_table::{Symbol, SymbolKind, SymbolTable};

#[test]
fn semicolons_are_put_in_after_complete_lines() {
    assert_eq!(preprocess_semicolons("пер x = 1\nпер y = 2"), "пер x = 1;\nпер y = 2");
    assert_eq!(preprocess_semicolons("x = f(a)\ny = [1]\nz = \"s\"\n"), "x = f(a);\ny = [1];\nz = \"s\";\n");
    assert_eq!(preprocess_semicolons("a;\n\n\nb\n"), "a;\n\n\nb;\n");
    assert_eq!(preprocess_semicolons(""), "");
}

#[test]
fn open_lines_and_block_headers_get_no_semicolon() {
    assert_eq!(preprocess_semicolons("если x\n  y = 1\nконец\n"), "если x\n  y = 1;\nконец\n");
    assert_eq!(preprocess_semicolons("f(\n1,\n2)\n"), "f(\n1,\n2);\n");
    assert_eq!(preprocess_semicolons("x = 1 +\n2\n"), "x = 1 +\n2;\n");
    assert_eq!(preprocess_semicolons("функ f(a)\nвозврат a\nконец\n"), "функ f(a)\nвозврат a;\nконец\n");
    assert_eq!(preprocess_semicolons("попытка\nx\nперехват e\nконец\n"), "попытка\nx;\nперехват e\nконец\n");
    assert_eq!(preprocess_semicolons("класс A\nx\nконец"), "класс A\nx;\nконец");
}

#[test]
fn strings_and_comments_are_passed_over() {
    assert_eq!(preprocess_semicolons("x = \"a\nb\"\n"), "x = \"a\nb\";\n");
    assert_eq!(preprocess_semicolons("x = \"a\\\"\n\"\n"), "x = \"a\\\"\n\";\n");
    assert_eq!(preprocess_semicolons("a /* b\nc */ d\n"), "a /* b\nc */ d;\n");
    assert_eq!(preprocess_semicolons("a // c\nb"), "a // c;\nb");
    assert_eq!(preprocess_semicolons("// только комментарий\n"), "// только комментарий\n");
    assert_eq!(preprocess_semicolons("x = 1.5 / 2\n"), "x = 1.5 / 2;\n");
}

#[test]
fn identifier_characters() {
    assert!(is_ident_start('я'));
    assert!(is_ident_start('_'));
    assert!(is_ident_start('a'));
    assert!(!is_ident_start('1'));
    assert!(!is_ident_start(' '));
    assert!(is_ident_continue('1'));
    assert!(is_ident_continue('_'));
    assert!(!is_ident_continue('-'));
}

fn ident(name: &str) -> Expression {
    Expression::Identifier(name.to_string(), Span::default())
}

fn field(object: Expression, name: &str) -> Expression {
    Expression::FieldAccess(Box::new(FieldAccessExpr { object, field: name.to_string(), span: Span::new(1, 9) }))
}

fn table_with_module() -> SymbolTable {
    let mut table = SymbolTable::new();
    let scope = table.push_scope();
    table
        .define_in_scope(scope, Symbol::new("ПИ".to_string(), SymbolKind::Variable, true, Span::default()))
        .unwrap();
    table
        .define_in_scope(scope, Symbol::new("тайна".to_string(), SymbolKind::Variable, false, Span::default()))
        .unwrap();
    table.pop_scope();
    table.define(Symbol::new_module("мат".to_string(), scope, Span::default())).unwrap();
    table.define(Symbol::new("obj".to_string(), SymbolKind::Variable, false, Span::default())).unwrap();
    table
}

#[test]
fn module_access_is_told_from_field_access() {
    let table = table_with_module();
    let resolved = NameResolver::resolve_expression(&table, field(ident("мат"), "ПИ")).unwrap();
    match resolved {
        Expression::ModuleAccess(access) => {
            assert_eq!(access.namespace, "мат");
            assert_eq!(access.symbol, "ПИ");
            assert_eq!(access.span, Span::new(1, 9));
        }
        other => panic!("{:?}", other),
    }
    let resolved = NameResolver::resolve_expression(&table, field(ident("obj"), "ПИ")).unwrap();
    assert!(matches!(resolved, Expression::FieldAccess(_)));
    let resolved = NameResolver::resolve_expression(&table, field(ident("unknown"), "ПИ")).unwrap();
    assert!(matches!(resolved, Expression::FieldAccess(_)));
    assert_eq!(
        NameResolver::resolve_expression(&table, field(ident("мат"), "тайна")).unwrap_err(),
        "Символ 'тайна' не экспортирован из модуля 'мат'"
    );
    assert_eq!(
        NameResolver::resolve_expression(&table, field(ident("мат"), "нет")).unwrap_err(),
        "Символ 'нет' не найден в модуле 'мат'"
    );
}

#[test]
fn names_are_resolved_throughout_a_program() {
    let table = table_with_module();
    let call = Expression::Call(Box::new(CallExpr {
        callee: field(ident("obj"), "f"),
        arguments: vec![
            field(ident("мат"), "ПИ"),
            Expression::Binary(Box::new(BinaryExpr {
                left: field(ident("мат"), "ПИ"),
                operator: BinaryOperator::Add,
                right: ident("x"),
                span: Span::default(),
            })),
        ],
        span: Span::default(),
    }));
    let mut program = Program {
        statements: vec![
            Statement::VarDecl(VarDecl {
                name: "v".to_string(),
                type_annotation: None,
                initializer: Some(call),
                is_exported: false,
                span: Span::default(),
            }),
            Statement::Assignment(AssignmentStatement {
                target: AssignmentTarget::FieldAccess(Box::new(field(ident("мат"), "ПИ")), "y".to_string()),
                value: ident("z"),
                span: Span::default(),
            }),
        ],
    };
    NameResolver::new().resolve(&mut program, &table).unwrap();
    assert_eq!(program.statements.len(), 2);
    match &program.statements[0] {
        Statement::VarDecl(decl) => match decl.initializer.as_ref().unwrap() {
            Expression::Call(call) => {
                assert!(matches!(call.callee, Expression::FieldAccess(_)));
                assert!(matches!(call.arguments[0], Expression::ModuleAccess(_)));
                match &call.arguments[1] {
                    Expression::Binary(b) => assert!(matches!(b.left, Expression::ModuleAccess(_))),
                    other => panic!("{:?}", other),
                }
            }
            other => panic!("{:?}", other),
        },
        other => panic!("{:?}", other),
    }
    match &program.statements[1] {
        Statement::Assignment(a) => match &a.target {
            AssignmentTarget::FieldAccess(object, name) => {
                assert!(matches!(**object, Expression::ModuleAccess(_)));
                assert_eq!(name, "y");
            }
            other => panic!("{:?}", other),
        },
        other => panic!("{:?}", other),
    }
    let mut bad = Program { statements: vec![Statement::Expression(field(ident("мат"), "нет"))] };
    assert!(NameResolver::new().resolve(&mut bad, &table).is_err());
}
