use ponos::ast::{BinaryOperator, Expression, UnaryOperator};
use ponos::grammar::Failure;
use ponos::lexer::lex;
use ponos::number::Number;
use ponos::parser::{parse_expression};
use ponos::token::{Token, TokenKind};

fn tokens(source: &str) -> Vec<Token> {
    let mut tokens = lex(source).expect("the source has tokens");
    for token in tokens.iter_mut() {
        if token.kind == TokenKind::Number {
            let value: f64 = token.text.parse().expect("a number");
            token.number = Number::from_bits(value.to_bits());
        }
    }
    tokens
}

#[allow(dead_code)]
fn value(n: Number) -> f64 {
    f64::from_bits(n.to_bits())
}

fn try_expression(source: &str) -> Result<Expression, Failure> {
    let tokens = tokens(source);
    parse_expression(&tokens, 0).map(|(e, _)| e)
}

fn expression(source: &str) -> Expression {
    try_expression(source).expect("an expression")
}

#[test]
fn test_parse_number_expr() {
    let expr = expression("42");
    match expr {
        Expression::Number(n, _) => assert_eq!(value(n), 42.0),
        _ => panic!("Expected number"),
    }
}

#[test]
fn test_parse_string_expr() {
    let expr = expression(r#""hello""#);
    match expr {
        Expression::String(s, _) => assert_eq!(s, "hello"),
        _ => panic!("Expected string"),
    }
}

#[test]
fn expression_test_parse_identifier() {
    let expr = expression("x");
    match expr {
        Expression::Identifier(id, _) => assert_eq!(id, "x"),
        _ => panic!("Expected identifier"),
    }
}

#[test]
fn test_parse_binary_add() {
    let expr = expression("2 + 3");
    match expr {
        Expression::Binary(b) => {
            assert_eq!(b.operator, BinaryOperator::Add);
            match (&b.left, &b.right) {
                (Expression::Number(l, _), Expression::Number(r, _)) => {
                    assert_eq!(value(*l), 2.0);
                    assert_eq!(value(*r), 3.0);
                }
                _ => panic!("Expected numbers"),
            }
        }
        _ => panic!("Expected binary expr"),
    }
}

#[test]
fn test_parse_binary_precedence() {
    // 2 + 3 * 4 должно быть 2 + (3 * 4)
    let expr = expression("2 + 3 * 4");

    match expr {
        Expression::Binary(b) => {
            assert_eq!(b.operator, BinaryOperator::Add);
            match (&b.left, &b.right) {
                (Expression::Number(l, _), Expression::Binary(r)) => {
                    assert_eq!(value(*l), 2.0);
                    assert_eq!(r.operator, BinaryOperator::Multiply);
                }
                _ => panic!("Wrong structure"),
            }
        }
        _ => panic!("Expected binary expr"),
    }
}

#[test]
fn test_parse_unary() {
    let expr = expression("-5");
    match expr {
        Expression::Unary(u) => {
            assert_eq!(u.operator, UnaryOperator::Negate);
            match &u.operand {
                Expression::Number(n, _) => assert_eq!(value(*n), 5.0),
                _ => panic!("Expected number"),
            }
        }
        _ => panic!("Expected unary expr"),
    }
}

#[test]
fn test_parse_call() {
    let expr = expression("foo()");
    match expr {
        Expression::Call(c) => {
            match &c.callee {
                Expression::Identifier(id, _) => assert_eq!(id, "foo"),
                _ => panic!("Expected identifier"),
            }
            assert_eq!(c.arguments.len(), 0);
        }
        _ => panic!("Expected call expr"),
    }

    let expr = expression("bar(1, 2)");
    match expr {
        Expression::Call(c) => {
            assert_eq!(c.arguments.len(), 2);
        }
        _ => panic!("Expected call expr"),
    }
}

#[test]
fn test_parse_field_access() {
    let expr = expression("obj.field");
    match expr {
        Expression::FieldAccess(f) => {
            match &f.object {
                Expression::Identifier(id, _) => assert_eq!(id, "obj"),
                _ => panic!("Expected identifier"),
            }
            assert_eq!(f.field, "field");
        }
        _ => panic!("Expected field access"),
    }
}

#[test]
fn test_parse_this() {
    let expr = expression("это");
    match expr {
        Expression::This(_) => {}
        _ => panic!("Expected this"),
    }
}

#[test]
fn test_parse_parenthesized() {
    let expr = expression("(2 + 3) * 4");

    // Должно быть (2 + 3) * 4
    match expr {
        Expression::Binary(b) => {
            assert_eq!(b.operator, BinaryOperator::Multiply);
            match &b.left {
                Expression::Binary(left_bin) => {
                    assert_eq!(left_bin.operator, BinaryOperator::Add);
                }
                _ => panic!("Expected binary in left"),
            }
        }
        _ => panic!("Expected binary expr"),
    }
}

#[test]
fn test_parse_lambda() {
    let expr = expression("функ(x, y) возврат x + y; конец");
    match expr {
        Expression::Lambda(l) => {
            assert_eq!(l.params.len(), 2);
            assert_eq!(l.params[0].name, "x");
            assert_eq!(l.params[1].name, "y");
            assert_eq!(l.body.len(), 1);
        }
        _ => panic!("Expected lambda"),
    }
}

#[test]
fn test_parse_lambda_with_typed_params() {
    let expr = expression("функ(x: число, y: строка) возврат x; конец");
    match expr {
        Expression::Lambda(l) => {
            assert_eq!(l.params.len(), 2);
            assert_eq!(l.params[0].name, "x");
            assert_eq!(l.params[0].type_annotation, Some("число".to_string()));
            assert_eq!(l.params[1].name, "y");
            assert_eq!(l.params[1].type_annotation, Some("строка".to_string()));
        }
        _ => panic!("Expected lambda"),
    }
}

#[test]
fn test_parse_lambda_with_return_type() {
    let expr = expression("функ(a: число, b: число): число возврат a + b; конец");
    match expr {
        Expression::Lambda(l) => {
            assert_eq!(l.params.len(), 2);
            assert_eq!(l.params[0].name, "a");
            assert_eq!(l.params[0].type_annotation, Some("число".to_string()));
            assert_eq!(l.params[1].name, "b");
            assert_eq!(l.params[1].type_annotation, Some("число".to_string()));
            assert_eq!(l.body.len(), 1);
        }
        _ => panic!("Expected lambda"),
    }
}

#[test]
fn test_parse_lambda_no_params() {
    let expr = expression("функ() возврат 42; конец");
    match expr {
        Expression::Lambda(l) => {
            assert_eq!(l.params.len(), 0);
            assert_eq!(l.body.len(), 1);
        }
        _ => panic!("Expected lambda"),
    }
}

#[test]
fn test_parse_super() {
    let expr = expression("родитель.метод");
    match expr {
        Expression::Super(method, _) => {
            assert_eq!(method, "метод");
        }
        _ => panic!("Expected super"),
    }
}

#[test]
fn test_parse_logical_and() {
    let expr = expression("истина и ложь");
    match expr {
        Expression::Binary(b) => {
            assert_eq!(b.operator, BinaryOperator::And);
        }
        _ => panic!("Expected binary and"),
    }
}

#[test]
fn test_parse_logical_or() {
    let expr = expression("истина или ложь");
    match expr {
        Expression::Binary(b) => {
            assert_eq!(b.operator, BinaryOperator::Or);
        }
        _ => panic!("Expected binary or"),
    }
}

#[test]
fn test_parse_logical_not() {
    let expr = expression("!истина");
    match expr {
        Expression::Unary(u) => {
            assert_eq!(u.operator, UnaryOperator::Not);
        }
        _ => panic!("Expected unary not"),
    }
}

#[test]
fn test_parse_comparison_equal() {
    let expr = expression("x == y");
    match expr {
        Expression::Binary(b) => {
            assert_eq!(b.operator, BinaryOperator::Equal);
        }
        _ => panic!("Expected binary equal"),
    }
}

#[test]
fn test_parse_comparison_not_equal() {
    let expr = expression("x != y");
    match expr {
        Expression::Binary(b) => {
            assert_eq!(b.operator, BinaryOperator::NotEqual);
        }
        _ => panic!("Expected binary not equal"),
    }
}

#[test]
fn test_parse_comparison_less() {
    let expr = expression("x < y");
    match expr {
        Expression::Binary(b) => {
            assert_eq!(b.operator, BinaryOperator::Less);
        }
        _ => panic!("Expected binary less"),
    }
}

#[test]
fn test_parse_comparison_less_equal() {
    let expr = expression("x <= y");
    match expr {
        Expression::Binary(b) => {
            assert_eq!(b.operator, BinaryOperator::LessEqual);
        }
        _ => panic!("Expected binary less equal"),
    }
}

#[test]
fn test_parse_comparison_greater() {
    let expr = expression("x > y");
    match expr {
        Expression::Binary(b) => {
            assert_eq!(b.operator, BinaryOperator::Greater);
        }
        _ => panic!("Expected binary greater"),
    }
}

#[test]
fn test_parse_comparison_greater_equal() {
    let expr = expression("x >= y");
    match expr {
        Expression::Binary(b) => {
            assert_eq!(b.operator, BinaryOperator::GreaterEqual);
        }
        _ => panic!("Expected binary greater equal"),
    }
}

#[test]
fn test_parse_subtract() {
    let expr = expression("10 - 5");
    match expr {
        Expression::Binary(b) => {
            assert_eq!(b.operator, BinaryOperator::Subtract);
        }
        _ => panic!("Expected binary subtract"),
    }
}

#[test]
fn test_parse_multiply() {
    let expr = expression("3 * 4");
    match expr {
        Expression::Binary(b) => {
            assert_eq!(b.operator, BinaryOperator::Multiply);
        }
        _ => panic!("Expected binary multiply"),
    }
}

#[test]
fn test_parse_divide() {
    let expr = expression("10 / 2");
    match expr {
        Expression::Binary(b) => {
            assert_eq!(b.operator, BinaryOperator::Divide);
        }
        _ => panic!("Expected binary divide"),
    }
}
