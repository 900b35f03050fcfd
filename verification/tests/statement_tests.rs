use ponos::ast::{AssignmentTarget, ClassMember, Expression, Statement, ThrowStatement};
use ponos::grammar::Failure;
use ponos::lexer::lex;
use ponos::number::Number;
use ponos::parser::{parse_statement};
use ponos::token::{Token, TokenKind};

fn tokens(source: &str) -> Vec<Token> {
    let mut tokens = lex(source).expect("the source has tokens");
    for token in tokens.iter_mut() {
        if token.kind == TokenKind::Number {
            let value: f64 = token.text.parse().expect("a number");
            token.number = Number::from_bits(value.to_bits());
        }
    }
    tokens
}

#[allow(dead_code)]
fn value(n: Number) -> f64 {
    f64::from_bits(n.to_bits())
}

fn try_statement(source: &str) -> Result<Statement, Failure> {
    let tokens = tokens(source);
    parse_statement(&tokens, 0).map(|(s, _)| s)
}

fn statement(source: &str) -> Statement {
    try_statement(source).expect("a statement")
}

#[test]
fn test_parse_var_statement() {
    let stmt = statement("пер x = 42;");
    match stmt {
        Statement::VarDecl(decl) => {
            assert_eq!(decl.name, "x");
            assert!(decl.initializer.is_some());
        }
        _ => panic!("Expected VarDecl"),
    }
}

#[test]
fn test_parse_var_with_type() {
    let stmt = statement("пер x: число = 42;");
    match stmt {
        Statement::VarDecl(decl) => {
            assert_eq!(decl.name, "x");
            assert_eq!(decl.type_annotation, Some("число".to_string()));
        }
        _ => panic!("Expected VarDecl"),
    }
}

#[test]
fn test_parse_function() {
    let stmt = statement("функ foo(x, y) возврат x + y; конец");
    match stmt {
        Statement::FuncDecl(func) => {
            assert_eq!(func.name, "foo");
            assert_eq!(func.params.len(), 2);
            assert_eq!(func.body.len(), 1);
        }
        _ => panic!("Expected FuncDecl"),
    }
}

#[test]
fn test_parse_function_with_typed_params() {
    let stmt = statement("функ типизированная(парам1: число, парам2: строка) возврат парам1; конец");
    match stmt {
        Statement::FuncDecl(func) => {
            assert_eq!(func.name, "типизированная");
            assert_eq!(func.params.len(), 2);

            // Проверяем первый параметр
            assert_eq!(func.params[0].name, "парам1");
            assert_eq!(func.params[0].type_annotation, Some("число".to_string()));

            // Проверяем второй параметр
            assert_eq!(func.params[1].name, "парам2");
            assert_eq!(func.params[1].type_annotation, Some("строка".to_string()));
        }
        _ => panic!("Expected FuncDecl"),
    }
}

#[test]
fn test_parse_function_with_mixed_params() {
    let stmt = statement("функ смешанная(без_типа, с_типом: число) конец");
    match stmt {
        Statement::FuncDecl(func) => {
            assert_eq!(func.name, "смешанная");
            assert_eq!(func.params.len(), 2);

            // Проверяем параметр без типа
            assert_eq!(func.params[0].name, "без_типа");
            assert_eq!(func.params[0].type_annotation, None);

            // Проверяем параметр с типом
            assert_eq!(func.params[1].name, "с_типом");
            assert_eq!(func.params[1].type_annotation, Some("число".to_string()));
        }
        _ => panic!("Expected FuncDecl"),
    }
}

#[test]
fn test_parse_if() {
    let stmt = statement("если x > 0 возврат x; конец");
    match stmt {
        Statement::If(if_stmt) => {
            assert_eq!(if_stmt.then_branch.len(), 1);
            assert!(if_stmt.else_branch.is_none());
        }
        _ => panic!("Expected If"),
    }
}

#[test]
fn test_parse_if_else() {
    let stmt = statement("если x > 0 возврат x; иначе возврат 0; конец");
    match stmt {
        Statement::If(if_stmt) => {
            assert_eq!(if_stmt.then_branch.len(), 1);
            assert!(if_stmt.else_branch.is_some());
            assert_eq!(if_stmt.else_branch.unwrap().len(), 1);
        }
        _ => panic!("Expected If"),
    }
}

#[test]
fn test_parse_while() {
    let stmt = statement("пока x > 0 вызов(); конец");
    match stmt {
        Statement::While(while_stmt) => {
            assert_eq!(while_stmt.body.len(), 1);
        }
        _ => panic!("Expected While"),
    }
}

#[test]
fn test_parse_return() {
    let stmt = statement("возврат 42;");
    match stmt {
        Statement::Return(ret) => {
            assert!(ret.value.is_some());
        }
        _ => panic!("Expected Return"),
    }
}

#[test]
fn test_parse_expression_statement() {
    let stmt = statement("foo();");
    match stmt {
        Statement::Expression(_) => {}
        _ => panic!("Expected Expression statement"),
    }
}

#[test]
fn test_parse_assignment() {
    let stmt = statement("x = 42;");
    match stmt {
        Statement::Assignment(assign) => {
            match &assign.target {
                AssignmentTarget::Identifier(name) => assert_eq!(name, "x"),
                _ => panic!("Expected identifier target"),
            }
            match assign.value {
                Expression::Number(n, _) => assert_eq!(value(n), 42.0),
                _ => panic!("Expected number"),
            }
        }
        _ => panic!("Expected Assignment"),
    }
}

#[test]
fn test_parse_assignment_with_expression() {
    let stmt = statement("результат = x + y;");
    match stmt {
        Statement::Assignment(assign) => match &assign.target {
            AssignmentTarget::Identifier(name) => assert_eq!(name, "результат"),
            _ => panic!("Expected identifier target"),
        },
        _ => panic!("Expected Assignment"),
    }
}

#[test]
fn test_parse_class_simple() {
    let stmt = statement("класс Точка конец");
    match stmt {
        Statement::ClassDecl(class) => {
            assert_eq!(class.name, "Точка");
            assert!(class.extends.is_none());
            assert!(class.implements.is_empty());
            assert!(class.members.is_empty());
        }
        _ => panic!("Expected ClassDecl"),
    }
}

#[test]
fn test_parse_class_with_extends() {
    let stmt = statement("класс Подкласс наследует Родитель конец");
    match stmt {
        Statement::ClassDecl(class) => {
            assert_eq!(class.name, "Подкласс");
            assert_eq!(class.extends, Some("Родитель".to_string()));
        }
        _ => panic!("Expected ClassDecl"),
    }
}

#[test]
fn test_parse_class_with_implements() {
    let stmt = statement("класс Реализатор реализует Интерфейс1, Интерфейс2 конец");
    match stmt {
        Statement::ClassDecl(class) => {
            assert_eq!(class.name, "Реализатор");
            assert_eq!(class.implements.len(), 2);
            assert_eq!(class.implements[0], "Интерфейс1");
            assert_eq!(class.implements[1], "Интерфейс2");
        }
        _ => panic!("Expected ClassDecl"),
    }
}

#[test]
fn test_parse_class_with_field() {
    let stmt = statement("класс Человек имя: строка конец");
    match stmt {
        Statement::ClassDecl(class) => {
            assert_eq!(class.name, "Человек");
            assert_eq!(class.members.len(), 1);
            match &class.members[0] {
                ClassMember::Field {
                    name,
                    type_annotation,
                } => {
                    assert_eq!(name, "имя");
                    assert_eq!(type_annotation, &Some("строка".to_string()));
                }
                _ => panic!("Expected Field"),
            }
        }
        _ => panic!("Expected ClassDecl"),
    }
}

#[test]
fn test_parse_class_with_constructor() {
    let stmt = statement("класс Точка конструктор(x: число, y: число) конец конец");
    match stmt {
        Statement::ClassDecl(class) => {
            assert_eq!(class.name, "Точка");
            assert_eq!(class.members.len(), 1);
            match &class.members[0] {
                ClassMember::Constructor(ctor) => {
                    assert_eq!(ctor.params.len(), 2);
                    assert_eq!(ctor.params[0].name, "x");
                    assert_eq!(ctor.params[1].name, "y");
                }
                _ => panic!("Expected Constructor"),
            }
        }
        _ => panic!("Expected ClassDecl"),
    }
}

#[test]
fn test_parse_class_with_method() {
    let stmt = statement("класс Точка функ печать() конец конец");
    match stmt {
        Statement::ClassDecl(class) => {
            assert_eq!(class.name, "Точка");
            assert_eq!(class.members.len(), 1);
            match &class.members[0] {
                ClassMember::Method(method) => {
                    assert_eq!(method.name, "печать");
                }
                _ => panic!("Expected Method"),
            }
        }
        _ => panic!("Expected ClassDecl"),
    }
}

#[test]
fn test_parse_interface() {
    let stmt = statement("интерфейс Печатаемый функ печать(); конец");
    match stmt {
        Statement::InterfaceDecl(interface) => {
            assert_eq!(interface.name, "Печатаемый");
            assert_eq!(interface.methods.len(), 1);
            assert_eq!(interface.methods[0].name, "печать");
        }
        _ => panic!("Expected InterfaceDecl"),
    }
}

#[test]
fn test_parse_interface_with_params() {
    let stmt = statement("интерфейс Сравнимый функ равно(другой: Сравнимый); конец");
    match stmt {
        Statement::InterfaceDecl(interface) => {
            assert_eq!(interface.name, "Сравнимый");
            assert_eq!(interface.methods.len(), 1);
            assert_eq!(interface.methods[0].name, "равно");
            assert_eq!(interface.methods[0].params.len(), 1);
        }
        _ => panic!("Expected InterfaceDecl"),
    }
}

#[test]
fn test_parse_annotation() {
    let stmt = statement("аннотация Тест конец");
    match stmt {
        Statement::AnnotationDecl(annotation) => {
            assert_eq!(annotation.name, "Тест");
            assert!(annotation.body.is_empty());
        }
        _ => panic!("Expected AnnotationDecl"),
    }
}

#[test]
fn test_parse_import_simple() {
    let stmt = statement(r#"использовать "путь/к/модулю";"#);
    match stmt {
        Statement::Import(import) => {
            assert_eq!(import.path, "путь/к/модулю");
            assert!(import.alias.is_none());
        }
        _ => panic!("Expected Import"),
    }
}

#[test]
fn test_parse_import_with_as() {
    let stmt = statement(r#"использовать "модуль" как М;"#);
    match stmt {
        Statement::Import(import) => {
            assert_eq!(import.path, "модуль");
            assert_eq!(import.alias, Some("М".to_string()));
        }
        _ => panic!("Expected Import"),
    }
}

#[test]
fn test_parse_field_access_assignment() {
    let stmt = statement("obj.поле = 42;");
    match stmt {
        Statement::Assignment(assign) => match &assign.target {
            AssignmentTarget::FieldAccess(_, field) => {
                assert_eq!(field, "поле");
            }
            _ => panic!("Expected field access target"),
        },
        _ => panic!("Expected Assignment"),
    }
}

// Тесты для экспорта

#[test]
fn test_parse_exported_var() {
    let stmt = statement("экспорт пер x = 42;");
    match stmt {
        Statement::VarDecl(decl) => {
            assert_eq!(decl.name, "x");
            assert_eq!(decl.is_exported, true);
        }
        _ => panic!("Expected VarDecl"),
    }
}

#[test]
fn test_parse_non_exported_var() {
    let stmt = statement("пер x = 42;");
    match stmt {
        Statement::VarDecl(decl) => {
            assert_eq!(decl.name, "x");
            assert_eq!(decl.is_exported, false);
        }
        _ => panic!("Expected VarDecl"),
    }
}

#[test]
fn test_parse_exported_function() {
    let stmt = statement("экспорт функ foo() конец");
    match stmt {
        Statement::FuncDecl(func) => {
            assert_eq!(func.name, "foo");
            assert_eq!(func.is_exported, true);
        }
        _ => panic!("Expected FuncDecl"),
    }
}

#[test]
fn test_parse_non_exported_function() {
    let stmt = statement("функ foo() конец");
    match stmt {
        Statement::FuncDecl(func) => {
            assert_eq!(func.name, "foo");
            assert_eq!(func.is_exported, false);
        }
        _ => panic!("Expected FuncDecl"),
    }
}

#[test]
fn test_parse_exported_class() {
    let stmt = statement("экспорт класс Точка конец");
    match stmt {
        Statement::ClassDecl(class) => {
            assert_eq!(class.name, "Точка");
            assert_eq!(class.is_exported, true);
        }
        _ => panic!("Expected ClassDecl"),
    }
}

#[test]
fn test_parse_non_exported_class() {
    let stmt = statement("класс Точка конец");
    match stmt {
        Statement::ClassDecl(class) => {
            assert_eq!(class.name, "Точка");
            assert_eq!(class.is_exported, false);
        }
        _ => panic!("Expected ClassDecl"),
    }
}

#[test]
fn test_parse_exported_interface() {
    let stmt = statement("экспорт интерфейс Печатаемый конец");
    match stmt {
        Statement::InterfaceDecl(interface) => {
            assert_eq!(interface.name, "Печатаемый");
            assert_eq!(interface.is_exported, true);
        }
        _ => panic!("Expected InterfaceDecl"),
    }
}

#[test]
fn test_parse_non_exported_interface() {
    let stmt = statement("интерфейс Печатаемый конец");
    match stmt {
        Statement::InterfaceDecl(interface) => {
            assert_eq!(interface.name, "Печатаемый");
            assert_eq!(interface.is_exported, false);
        }
        _ => panic!("Expected InterfaceDecl"),
    }
}

#[test]
fn test_parse_exported_annotation() {
    let stmt = statement("экспорт аннотация Тест конец");
    match stmt {
        Statement::AnnotationDecl(annotation) => {
            assert_eq!(annotation.name, "Тест");
            assert_eq!(annotation.is_exported, true);
        }
        _ => panic!("Expected AnnotationDecl"),
    }
}

#[test]
fn test_parse_non_exported_annotation() {
    let stmt = statement("аннотация Тест конец");
    match stmt {
        Statement::AnnotationDecl(annotation) => {
            assert_eq!(annotation.name, "Тест");
            assert_eq!(annotation.is_exported, false);
        }
        _ => panic!("Expected AnnotationDecl"),
    }
}

#[test]
fn test_parse_throw_statement() {
    let stmt = statement("исключение \"ошибка\"; ");
    match stmt {
        Statement::Throw(throw_stmt) => match *throw_stmt {
            ThrowStatement {
                expression: Expression::String(text, _),
                ..
            } => {
                assert_eq!(text, "ошибка")
            }
            other => panic!("Unexpected expression in throw: {:?}", other),
        },
        other => panic!("Expected Throw statement, got {:?}", other),
    }
}

#[test]
fn test_parse_try_catch_statement() {
    let stmt = statement(r#"
попытка
исключение "внутри";
перехват err
возврат;
конец
"#);
    match stmt {
        Statement::Try(try_stmt) => {
            assert_eq!(try_stmt.try_body.len(), 1);
            assert_eq!(try_stmt.catch_body.len(), 1);
            assert_eq!(try_stmt.catch_var.as_deref(), Some("err"));
        }
        other => panic!("Expected Try statement, got {:?}", other),
    }
}

#[test]
fn test_parse_try_catch_without_var() {
    let stmt = statement(r#"
попытка
исключение "внутри";
перехват
вывести("ok");
конец
"#);
    match stmt {
        Statement::Try(try_stmt) => {
            assert!(try_stmt.catch_var.is_none());
            assert_eq!(try_stmt.catch_body.len(), 1);
        }
        other => panic!("Expected Try statement, got {:?}", other),
    }
}
