use ponos::ast::{BinaryExpr, BinaryOperator, CallExpr, Expression, FieldAccessExpr, Program, Statement, VarDecl};
use ponos::name_resolver::NameResolver;
use ponos::number::Number;
use ponos::span::Span;
use ponos::symbol_table::{Symbol, SymbolKind, SymbolTable};

fn create_module_with_export(module_name: &str, symbol_name: &str) -> SymbolTable {
    let mut symbol_table = SymbolTable::new();
    let module_scope_id = symbol_table.push_scope();
    let symbol = Symbol::new(
        symbol_name.to_string(),
        SymbolKind::Variable,
        true,
        Span::default(),
    );
    symbol_table
        .define_in_scope(module_scope_id, symbol)
        .unwrap();
    symbol_table.pop_scope();
    let module_symbol =
        Symbol::new_module(module_name.to_string(), module_scope_id, Span::default());
    symbol_table.define(module_symbol).unwrap();

    symbol_table
}


#[test]
fn test_resolve_field_access_to_module_access() {
    let mut ast = Program {
        statements: vec![Statement::VarDecl(VarDecl {
            name: "x".to_string(),
            type_annotation: None,
            initializer: Some(Expression::FieldAccess(Box::new(FieldAccessExpr {
                object: Expression::Identifier("модуль".to_string(), Span::default()),
                field: "символ".to_string(),
                span: Span::default(),
            }))),
            is_exported: false,
            span: Span::default(),
        })],
    };

    let symbol_table = create_module_with_export("модуль", "символ");
    let mut resolver = NameResolver::new();
    resolver.resolve(&mut ast, &symbol_table).unwrap();
    match &ast.statements[0] {
        Statement::VarDecl(var_decl) => match &var_decl.initializer {
            Some(Expression::ModuleAccess(module_access)) => {
                assert_eq!(module_access.namespace, "модуль");
                assert_eq!(module_access.symbol, "символ");
            }
            _ => panic!("Expected ModuleAccess"),
        },
        _ => panic!("Expected VarDecl"),
    }
}

#[test]
fn test_does_not_convert_regular_field_access() {
    let mut ast = Program {
        statements: vec![Statement::VarDecl(VarDecl {
            name: "x".to_string(),
            type_annotation: None,
            initializer: Some(Expression::FieldAccess(Box::new(FieldAccessExpr {
                object: Expression::Identifier("объект".to_string(), Span::default()),
                field: "поле".to_string(),
                span: Span::default(),
            }))),
            is_exported: false,
            span: Span::default(),
        })],
    };
    let symbol_table = create_module_with_export("модуль", "символ");
    let mut resolver = NameResolver::new();
    resolver.resolve(&mut ast, &symbol_table).unwrap();
    match &ast.statements[0] {
        Statement::VarDecl(var_decl) => match &var_decl.initializer {
            Some(Expression::FieldAccess(field_access)) => {
                match &field_access.object {
                    Expression::Identifier(name, _) => {
                        assert_eq!(name, "объект");
                    }
                    _ => panic!("Expected Identifier"),
                }
                assert_eq!(field_access.field, "поле");
            }
            _ => panic!("Expected FieldAccess, not ModuleAccess"),
        },
        _ => panic!("Expected VarDecl"),
    }
}

#[test]
fn test_resolve_in_binary_expression() {
    let mut ast = Program {
        statements: vec![Statement::VarDecl(VarDecl {
            name: "x".to_string(),
            type_annotation: None,
            initializer: Some(Expression::Binary(Box::new(BinaryExpr {
                left: Expression::FieldAccess(Box::new(FieldAccessExpr {
                    object: Expression::Identifier("модуль".to_string(), Span::default()),
                    field: "символ".to_string(),
                    span: Span::default(),
                })),
                operator: BinaryOperator::Add,
                right: Expression::Number(Number::from_bits(5f64.to_bits()), Span::default()),
                span: Span::default(),
            }))),
            is_exported: false,
            span: Span::default(),
        })],
    };

    let symbol_table = create_module_with_export("модуль", "символ");
    let mut resolver = NameResolver::new();
    resolver.resolve(&mut ast, &symbol_table).unwrap();
    match &ast.statements[0] {
        Statement::VarDecl(var_decl) => match &var_decl.initializer {
            Some(Expression::Binary(binary)) => match &binary.left {
                Expression::ModuleAccess(module_access) => {
                    assert_eq!(module_access.namespace, "модуль");
                    assert_eq!(module_access.symbol, "символ");
                }
                _ => panic!("Expected ModuleAccess in left operand"),
            },
            _ => panic!("Expected Binary expression"),
        },
        _ => panic!("Expected VarDecl"),
    }
}

#[test]
fn test_resolve_in_function_call() {
    let mut ast = Program {
        statements: vec![Statement::Expression(Expression::Call(Box::new(
            CallExpr {
                callee: Expression::FieldAccess(Box::new(FieldAccessExpr {
                    object: Expression::Identifier("модуль".to_string(), Span::default()),
                    field: "функция".to_string(),
                    span: Span::default(),
                })),
                arguments: vec![],
                span: Span::default(),
            },
        )))],
    };

    let symbol_table = create_module_with_export("модуль", "функция");
    let mut resolver = NameResolver::new();
    resolver.resolve(&mut ast, &symbol_table).unwrap();
    match &ast.statements[0] {
        Statement::Expression(Expression::Call(call)) => match &call.callee {
            Expression::ModuleAccess(module_access) => {
                assert_eq!(module_access.namespace, "модуль");
                assert_eq!(module_access.symbol, "функция");
            }
            _ => panic!("Expected ModuleAccess in callee"),
        },
        _ => panic!("Expected Call expression"),
    }
}

#[test]
fn test_resolve_multiple_namespaces() {
    let mut ast = Program {
        statements: vec![Statement::VarDecl(VarDecl {
            name: "x".to_string(),
            type_annotation: None,
            initializer: Some(Expression::Binary(Box::new(BinaryExpr {
                left: Expression::FieldAccess(Box::new(FieldAccessExpr {
                    object: Expression::Identifier("мод1".to_string(), Span::default()),
                    field: "символ".to_string(),
                    span: Span::default(),
                })),
                operator: BinaryOperator::Add,
                right: Expression::FieldAccess(Box::new(FieldAccessExpr {
                    object: Expression::Identifier("мод2".to_string(), Span::default()),
                    field: "символ".to_string(),
                    span: Span::default(),
                })),
                span: Span::default(),
            }))),
            is_exported: false,
            span: Span::default(),
        })],
    };
    let mut symbol_table = SymbolTable::new();
    let scope_id1 = symbol_table.push_scope();
    symbol_table
        .define_in_scope(
            scope_id1,
            Symbol::new(
                "символ".to_string(),
                SymbolKind::Variable,
                true,
                Span::default(),
            ),
        )
        .unwrap();
    symbol_table.pop_scope();
    symbol_table
        .define(Symbol::new_module(
            "мод1".to_string(),
            scope_id1,
            Span::default(),
        ))
        .unwrap();
    let scope_id2 = symbol_table.push_scope();
    symbol_table
        .define_in_scope(
            scope_id2,
            Symbol::new(
                "символ".to_string(),
                SymbolKind::Variable,
                true,
                Span::default(),
            ),
        )
        .unwrap();
    symbol_table.pop_scope();
    symbol_table
        .define(Symbol::new_module(
            "мод2".to_string(),
            scope_id2,
            Span::default(),
        ))
        .unwrap();

    let mut resolver = NameResolver::new();
    resolver.resolve(&mut ast, &symbol_table).unwrap();
    match &ast.statements[0] {
        Statement::VarDecl(var_decl) => {
            match &var_decl.initializer {
                Some(Expression::Binary(binary)) => {
                    match &binary.left {
                        Expression::ModuleAccess(module_access) => {
                            assert_eq!(module_access.namespace, "мод1");
                        }
                        _ => panic!("Expected ModuleAccess in left"),
                    }
                    match &binary.right {
                        Expression::ModuleAccess(module_access) => {
                            assert_eq!(module_access.namespace, "мод2");
                        }
                        _ => panic!("Expected ModuleAccess in right"),
                    }
                }
                _ => panic!("Expected Binary"),
            }
        }
        _ => panic!("Expected VarDecl"),
    }
}
