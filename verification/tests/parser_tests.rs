use ponos::ast::{
    AssignmentTarget, BinaryOperator, ClassMember, Expression, Program, Statement, UnaryOperator,
};
use ponos::grammar::{Expected, Failure};
use ponos::lexer::lex;
use ponos::number::Number;
use ponos::parser::{
    parse_annotation_declaration, parse_assignment_or_expression_statement, parse_class_declaration,
    parse_constructor_declaration, parse_expression, parse_function_declaration, parse_if_statement,
    parse_import_statement, parse_interface_declaration, parse_return_statement, parse_statement,
    number_texts, parse_throw_statement, parse_tokens, parse_try_statement, parse_var_statement,
    parse_while_statement, with_numbers, PonosParser,
};
use ponos::preprocess::preprocess_semicolons;
use ponos::span::Span;
use ponos::token::{Keyword, Symbol, Token, TokenKind};

fn tokens(source: &str) -> Vec<Token> {
    let mut tokens = lex(source).expect("the source has tokens");
    for token in tokens.iter_mut() {
        if token.kind == TokenKind::Number {
            let value: f64 = token.text.parse().expect("a number");
            token.number = Number::from_bits(value.to_bits());
        }
    }
    tokens
}

fn value(n: Number) -> f64 {
    f64::from_bits(n.to_bits())
}

fn expression(source: &str) -> Expression {
    let tokens = tokens(source);
    let (e, next) = parse_expression(&tokens, 0).expect("an expression");
    assert_eq!(next, tokens.len() - 1, "the whole text is the expression");
    e
}

fn expression_failure(source: &str) -> Failure {
    parse_expression(&tokens(source), 0).unwrap_err()
}

fn statement(source: &str) -> Statement {
    let tokens = tokens(source);
    let (s, next) = parse_statement(&tokens, 0).expect("a statement");
    assert_eq!(next, tokens.len() - 1, "the whole text is the statement");
    s
}

fn program(source: &str) -> Result<Program, Failure> {
    parse_tokens(&tokens(&preprocess_semicolons(source)))
}

fn failure(source: &str) -> Failure {
    parse_tokens(&tokens(source)).unwrap_err()
}

/// An expression written out with every operation in parentheses.
fn shape(e: &Expression) -> String {
    match e {
        Expression::Number(n, _) => format!("{}", value(*n)),
        Expression::String(s, _) => format!("{:?}", s),
        Expression::Boolean(b, _) => format!("{}", b),
        Expression::Identifier(name, _) => name.clone(),
        Expression::Binary(b) => format!("({} {:?} {})", shape(&b.left), b.operator, shape(&b.right)),
        Expression::Unary(u) => format!("({:?} {})", u.operator, shape(&u.operand)),
        Expression::Call(c) => {
            let arguments: Vec<String> = c.arguments.iter().map(shape).collect();
            format!("{}({})", shape(&c.callee), arguments.join(", "))
        }
        Expression::FieldAccess(f) => format!("{}.{}", shape(&f.object), f.field),
        Expression::ModuleAccess(m) => format!("{}::{}", m.namespace, m.symbol),
        Expression::Lambda(l) => format!("lambda/{}/{}", l.params.len(), l.body.len()),
        Expression::Index(i) => format!("{}[{}]", shape(&i.object), shape(&i.index)),
        Expression::Range(r) => format!(
            "{}:{}",
            r.start.as_ref().map(|e| shape(e)).unwrap_or_default(),
            r.end.as_ref().map(|e| shape(e)).unwrap_or_default()
        ),
        Expression::ArrayLiteral(a) => {
            let items: Vec<String> = a.elements.iter().map(shape).collect();
            format!("[{}]", items.join(", "))
        }
        Expression::DictLiteral(d) => {
            let items: Vec<String> = d.pairs.iter().map(|(k, v)| format!("{}: {}", shape(k), shape(v))).collect();
            format!("{{{}}}", items.join(", "))
        }
        Expression::This(_) => "this".to_string(),
        Expression::Super(method, _) => format!("super.{}", method),
    }
}

#[test]
fn binary_operators_bind_by_strength_and_from_the_left() {
    assert_eq!(shape(&expression("1 - 2 - 3")), "((1 Subtract 2) Subtract 3)");
    assert_eq!(shape(&expression("1 + 2 * 3 - 4")), "((1 Add (2 Multiply 3)) Subtract 4)");
    assert_eq!(shape(&expression("a или b и c")), "(a Or (b And c))");
    assert_eq!(shape(&expression("a == b < c + d * e")), "(a Equal (b Less (c Add (d Multiply e))))");
    assert_eq!(shape(&expression("a * b + c < d == e и f или g")),
        "((((((a Multiply b) Add c) Less d) Equal e) And f) Or g)");
    assert_eq!(shape(&expression("8 / 4 % 3 * 2")), "(((8 Divide 4) Modulo 3) Multiply 2)");
    assert_eq!(shape(&expression("a != b >= c")), "(a NotEqual (b GreaterEqual c))");
    assert_eq!(shape(&expression("a <= b > c")), "((a LessEqual b) Greater c)");
    assert_eq!(shape(&expression("(1 + 2) * 3")), "((1 Add 2) Multiply 3)");
}

#[test]
fn prefix_operators_bind_more_strongly_than_binary_ones() {
    assert_eq!(shape(&expression("-a * b")), "((Negate a) Multiply b)");
    assert_eq!(shape(&expression("!-!x")), "(Not (Negate (Not x)))");
    assert_eq!(shape(&expression("a - -b")), "(a Subtract (Negate b))");
    assert_eq!(shape(&expression("-f(x).y[0]")), "(Negate f(x).y[0])");
    match expression("!истина") {
        Expression::Unary(u) => assert_eq!(u.operator, UnaryOperator::Not),
        other => panic!("{:?}", other),
    }
}

#[test]
fn what_follows_a_primary_applies_from_the_left() {
    assert_eq!(shape(&expression("a.b.c")), "a.b.c");
    assert_eq!(shape(&expression("f(1)(2)")), "f(1)(2)");
    assert_eq!(shape(&expression("a[0][1].b(c, d)")), "a[0][1].b(c, d)");
    assert_eq!(shape(&expression("это.поле")), "this.поле");
    assert_eq!(shape(&expression("родитель.конструктор(x)")), "super.конструктор(x)");
    assert_eq!(shape(&expression("объект.конец")), "объект.конец");
    assert_eq!(shape(&expression("f()")), "f()");
}

#[test]
fn index_and_slices() {
    assert_eq!(shape(&expression("a[i + 1]")), "a[(i Add 1)]");
    assert_eq!(shape(&expression("a[1:2]")), "a[1:2]");
    assert_eq!(shape(&expression("a[:2]")), "a[:2]");
    assert_eq!(shape(&expression("a[1:]")), "a[1:]");
    assert_eq!(shape(&expression("a[:]")), "a[:]");
    assert_eq!(expression_failure("a[1 2]"), Failure { expected: Expected::Symbol(Symbol::RightBracket), at: 3 });
    assert_eq!(
        expression_failure("a[1:2 3]"),
        Failure { expected: Expected::Symbol(Symbol::RightBracket), at: 5 }
    );
    assert_eq!(expression_failure("a[]"), Failure { expected: Expected::Expression, at: 2 });
}

#[test]
fn array_and_dictionary_literals() {
    assert_eq!(shape(&expression("[]")), "[]");
    assert_eq!(shape(&expression("[1, \"a\", [2], x]")), "[1, \"a\", [2], x]");
    assert_eq!(shape(&expression("{}")), "{}");
    assert_eq!(shape(&expression("{\"a\": 1, b: {c: []}}")), "{\"a\": 1, b: {c: []}}");
    assert_eq!(expression_failure("[1, ]"), Failure { expected: Expected::Expression, at: 3 });
    assert_eq!(expression_failure("[1 2]"), Failure { expected: Expected::Symbol(Symbol::RightBracket), at: 2 });
    assert_eq!(expression_failure("{a 1}"), Failure { expected: Expected::Symbol(Symbol::Colon), at: 2 });
    assert_eq!(expression_failure("{a: 1 b: 2}"), Failure { expected: Expected::Symbol(Symbol::RightBrace), at: 4 });
    assert_eq!(expression_failure("f(1"), Failure { expected: Expected::Symbol(Symbol::RightParen), at: 3 });
}

#[test]
fn a_list_may_end_its_line() {
    let source = "пер d = {\n  \"a\": 1,\n  \"b\": [\n    1,\n    2\n  ]\n}\nпер x = f(\n  a,\n  b\n)\n";
    let program = program(source).expect("the program is read");
    assert_eq!(program.statements.len(), 2);
    match &program.statements[0] {
        Statement::VarDecl(d) => assert_eq!(shape(d.initializer.as_ref().unwrap()), "{\"a\": 1, \"b\": [1, 2]}"),
        other => panic!("{:?}", other),
    }
    match &program.statements[1] {
        Statement::VarDecl(d) => assert_eq!(shape(d.initializer.as_ref().unwrap()), "f(a, b)"),
        other => panic!("{:?}", other),
    }
    assert_eq!(shape(&expression("[1;]")), "[1]");
    assert_eq!(expression_failure("[1;;]"), Failure { expected: Expected::Symbol(Symbol::RightBracket), at: 3 });
    assert_eq!(expression_failure("[1; 2]"), Failure { expected: Expected::Symbol(Symbol::RightBracket), at: 3 });
    assert_eq!(expression_failure("{a: 1; b: 2}"), Failure { expected: Expected::Symbol(Symbol::RightBrace), at: 5 });
}

#[test]
fn spans_cover_the_tokens_of_a_node() {
    match expression("ab + cd * e") {
        Expression::Binary(b) => {
            assert_eq!(b.span, Span::new(0, 11));
            assert_eq!(b.left.span(), Span::new(0, 2));
            assert_eq!(b.right.span(), Span::new(5, 11));
        }
        other => panic!("{:?}", other),
    }
    assert_eq!(expression("f(a)[1:2].b").span(), Span::new(0, 11));
    match expression("f(a)[1:2]") {
        Expression::Index(i) => {
            assert_eq!(i.span, Span::new(0, 9));
            assert_eq!(i.index.span(), Span::new(4, 9));
            assert_eq!(i.object.span(), Span::new(0, 4));
        }
        other => panic!("{:?}", other),
    }
    assert_eq!(expression("(x)").span(), Span::new(1, 2));
    assert_eq!(expression("-x").span(), Span::new(0, 2));
    assert_eq!(expression("[1, 2]").span(), Span::new(0, 6));
    assert_eq!(expression("{a: 1}").span(), Span::new(0, 6));
    assert_eq!(expression("родитель.м").span(), Span::new(0, 19));
    match statement("экспорт пер x = 1;") {
        Statement::VarDecl(d) => {
            assert!(d.is_exported);
            assert_eq!(d.span, Span::new(0, 28));
        }
        other => panic!("{:?}", other),
    }
    match statement("пер x = 1;") {
        Statement::VarDecl(d) => assert_eq!(d.span, Span::new(0, 13)),
        other => panic!("{:?}", other),
    }
}

#[test]
fn assignment_targets() {
    match statement("a.b.c = 1;") {
        Statement::Assignment(a) => match a.target {
            AssignmentTarget::FieldAccess(object, field) => {
                assert_eq!(shape(&object), "a.b");
                assert_eq!(field, "c");
            }
            other => panic!("{:?}", other),
        },
        other => panic!("{:?}", other),
    }
    match statement("a[i] = x или y;") {
        Statement::Assignment(a) => {
            match a.target {
                AssignmentTarget::Index(object, index) => {
                    assert_eq!(shape(&object), "a");
                    assert_eq!(shape(&index), "i");
                }
                other => panic!("{:?}", other),
            }
            match a.value {
                Expression::Binary(b) => assert_eq!(b.operator, BinaryOperator::Or),
                other => panic!("{:?}", other),
            }
        }
        other => panic!("{:?}", other),
    }
    assert_eq!(failure("f() = 1;"), Failure { expected: Expected::Target, at: 0 });
    assert_eq!(failure("x; 1 + 2 = 3;"), Failure { expected: Expected::Target, at: 2 });
}

#[test]
fn else_if_stands_as_a_nested_if() {
    let source = "если a x = 1; иначе если b x = 2; иначе если c x = 3; иначе x = 4; конец";
    match statement(source) {
        Statement::If(first) => {
            assert_eq!(first.then_branch.len(), 1);
            let second = first.else_branch.expect("an else branch");
            assert_eq!(second.len(), 1);
            match &second[0] {
                Statement::If(second) => {
                    assert_eq!(shape(&second.condition), "b");
                    let third = second.else_branch.as_ref().expect("an else branch");
                    assert_eq!(third.len(), 1);
                    match &third[0] {
                        Statement::If(third) => {
                            assert_eq!(shape(&third.condition), "c");
                            assert_eq!(third.else_branch.as_ref().map(|b| b.len()), Some(1));
                        }
                        other => panic!("{:?}", other),
                    }
                }
                other => panic!("{:?}", other),
            }
        }
        other => panic!("{:?}", other),
    }
}

#[test]
fn class_with_all_kinds_of_members() {
    let source = "класс Т наследует Б реализует И, К
        имя
        возраст: число;
        конструктор(a) это.имя = a; конец
        функ показать() возврат это.имя; конец
    конец";
    match statement(source) {
        Statement::ClassDecl(c) => {
            assert_eq!(c.name, "Т");
            assert_eq!(c.extends.as_deref(), Some("Б"));
            assert_eq!(c.implements, vec!["И", "К"]);
            assert_eq!(c.members.len(), 4);
            assert!(matches!(&c.members[0], ClassMember::Field { name, type_annotation: None } if name == "имя"));
            assert!(matches!(&c.members[1],
                ClassMember::Field { name, type_annotation: Some(t) } if name == "возраст" && t == "число"));
            assert!(matches!(&c.members[2], ClassMember::Constructor(k) if k.params.len() == 1 && k.body.len() == 1));
            assert!(matches!(&c.members[3], ClassMember::Method(m) if m.name == "показать" && !m.is_exported));
            assert!(c.annotations.is_empty());
        }
        other => panic!("{:?}", other),
    }
    assert_eq!(failure("класс Т 1 конец"), Failure { expected: Expected::Member, at: 2 });
    assert_eq!(failure("класс Т реализует конец"), Failure { expected: Expected::Identifier, at: 3 });
}

#[test]
fn handler_names_what_it_catches_unless_a_call_follows() {
    match statement("попытка f(); перехват e g(e); конец") {
        Statement::Try(t) => {
            assert_eq!(t.catch_var.as_deref(), Some("e"));
            assert_eq!(t.catch_body.len(), 1);
        }
        other => panic!("{:?}", other),
    }
    match statement("попытка f(); перехват g(); конец") {
        Statement::Try(t) => {
            assert_eq!(t.catch_var, None);
            assert_eq!(t.catch_body.len(), 1);
        }
        other => panic!("{:?}", other),
    }
    match statement("попытка перехват конец") {
        Statement::Try(t) => {
            assert!(t.try_body.is_empty() && t.catch_body.is_empty() && t.catch_var.is_none());
        }
        other => panic!("{:?}", other),
    }
    assert_eq!(
        failure("попытка f(); конец"),
        Failure { expected: Expected::Keyword(Keyword::Catch), at: 5 }
    );
}

#[test]
fn every_failure_names_what_was_wanted_and_where() {
    let cases: Vec<(&str, Expected, usize)> = vec![
        ("пер = 1;", Expected::Identifier, 1),
        ("пер x: = 1;", Expected::Identifier, 3),
        ("пер x 1;", Expected::Symbol(Symbol::Semicolon), 2),
        ("пер x = ;", Expected::Expression, 3),
        ("x = 1", Expected::Symbol(Symbol::Semicolon), 3),
        ("функ f конец", Expected::Symbol(Symbol::LeftParen), 2),
        ("функ f(a b) конец", Expected::Symbol(Symbol::RightParen), 4),
        ("функ f(a,) конец", Expected::Identifier, 5),
        ("функ f() x;", Expected::Keyword(Keyword::End), 6),
        ("если x y; иначе z;", Expected::Keyword(Keyword::End), 7),
        ("пока x", Expected::Keyword(Keyword::End), 2),
        ("возврат 1 2;", Expected::Symbol(Symbol::Semicolon), 2),
        ("исключение ;", Expected::Expression, 1),
        ("использовать x;", Expected::Text, 1),
        ("использовать \"m\" как ;", Expected::Identifier, 3),
        ("использовать \"m\" x;", Expected::Symbol(Symbol::Semicolon), 2),
        ("экспорт x = 1;", Expected::Declaration, 1),
        ("экспорт если x конец", Expected::Declaration, 1),
        ("интерфейс И функ f() конец", Expected::Symbol(Symbol::Semicolon), 6),
        ("интерфейс И x конец", Expected::Keyword(Keyword::End), 2),
        ("аннотация конец", Expected::Identifier, 1),
        ("родитель x", Expected::Symbol(Symbol::Dot), 1),
        ("родитель.1;", Expected::Name, 2),
        ("a.;", Expected::Name, 2),
        ("(1 + 2;", Expected::Symbol(Symbol::RightParen), 4),
        ("1 + ;", Expected::Expression, 2),
        ("конец", Expected::Statement, 0),
        ("x; иначе", Expected::Statement, 2),
        ("x; перехват", Expected::Statement, 2),
        ("функ (a) конец;", Expected::Identifier, 1),
        ("x = функ a) конец;", Expected::Symbol(Symbol::LeftParen), 3),
    ];
    for (source, expected, at) in cases {
        assert_eq!(failure(source), Failure { expected, at }, "{}", source);
    }
}

#[test]
fn empty_text_is_the_empty_program() {
    assert_eq!(program("").unwrap().statements.len(), 0);
    assert_eq!(program("  // nothing\n/* at all */\n").unwrap().statements.len(), 0);
    assert_eq!(parse_tokens(&Vec::new()).unwrap().statements.len(), 0);
}

#[test]
fn number_literals_carry_the_value_that_was_written_into_the_token() {
    let mut tokens = lex("x = 2.5;").unwrap();
    match parse_tokens(&tokens).unwrap().statements.remove(0) {
        Statement::Assignment(a) => assert_eq!(a.value.span(), Span::new(4, 7)),
        other => panic!("{:?}", other),
    }
    tokens[2].number = Number::from_bits(2.5f64.to_bits());
    match parse_tokens(&tokens).unwrap().statements.remove(0) {
        Statement::Assignment(a) => match a.value {
            Expression::Number(n, _) => assert_eq!(value(n), 2.5),
            other => panic!("{:?}", other),
        },
        other => panic!("{:?}", other),
    }
}

#[test]
fn statements_are_read_from_any_place() {
    let tokens = tokens("a; пер b = 1; c;");
    let (first, next) = parse_statement(&tokens, 0).unwrap();
    assert!(matches!(first, Statement::Expression(_)));
    assert_eq!(next, 2);
    let (second, next) = parse_statement(&tokens, next).unwrap();
    assert!(matches!(second, Statement::VarDecl(_)));
    assert_eq!(next, 7);
    let (e, next) = parse_expression(&tokens, 5).unwrap();
    assert_eq!(shape(&e), "1");
    assert_eq!(next, 6);
    assert_eq!(
        parse_statement(&tokens, tokens.len()).unwrap_err(),
        Failure { expected: Expected::Expression, at: tokens.len() }
    );
}

#[test]
fn every_rule_wants_its_keyword() {
    let tokens = tokens("x = 1;");
    let wanted = |keyword: Keyword| Failure { expected: Expected::Keyword(keyword), at: 0 };
    assert_eq!(parse_var_statement(&tokens, 0, false).unwrap_err(), wanted(Keyword::Var));
    assert_eq!(parse_function_declaration(&tokens, 0, false).unwrap_err(), wanted(Keyword::Func));
    assert_eq!(parse_class_declaration(&tokens, 0, false).unwrap_err(), wanted(Keyword::Class));
    assert_eq!(parse_interface_declaration(&tokens, 0, false).unwrap_err(), wanted(Keyword::Interface));
    assert_eq!(parse_annotation_declaration(&tokens, 0, false).unwrap_err(), wanted(Keyword::Annotation));
    assert_eq!(parse_constructor_declaration(&tokens, 0).unwrap_err(), wanted(Keyword::Constructor));
    assert_eq!(parse_import_statement(&tokens, 0).unwrap_err(), wanted(Keyword::Use));
    assert_eq!(parse_if_statement(&tokens, 0).unwrap_err(), wanted(Keyword::If));
    assert_eq!(parse_while_statement(&tokens, 0).unwrap_err(), wanted(Keyword::While));
    assert_eq!(parse_try_statement(&tokens, 0).unwrap_err(), wanted(Keyword::Try));
    assert_eq!(parse_throw_statement(&tokens, 0).unwrap_err(), wanted(Keyword::Throw));
    assert_eq!(parse_return_statement(&tokens, 0).unwrap_err(), wanted(Keyword::Return));
    let (statement, next) = parse_assignment_or_expression_statement(&tokens, 0).unwrap();
    assert!(matches!(statement, Statement::Assignment(_)));
    assert_eq!(next, 4);
    assert_eq!(
        parse_var_statement(&tokens, tokens.len(), false).unwrap_err(),
        Failure { expected: Expected::Keyword(Keyword::Var), at: tokens.len() }
    );
}

#[test]
fn declarations_are_read_from_their_keyword() {
    let tokens = tokens("экспорт пер x = 1; функ f() конец конструктор(a) конец");
    let (declared, next) = parse_var_statement(&tokens, 1, true).unwrap();
    match declared {
        Statement::VarDecl(d) => {
            assert!(d.is_exported);
            assert_eq!(d.span.start, 0);
        }
        other => panic!("{:?}", other),
    }
    assert_eq!(next, 6);
    let (function, next) = parse_function_declaration(&tokens, next, false).unwrap();
    assert_eq!(function.name, "f");
    assert!(!function.is_exported);
    assert_eq!(next, 11);
    let (member, next) = parse_constructor_declaration(&tokens, next).unwrap();
    assert!(matches!(member, ClassMember::Constructor(c) if c.params.len() == 1));
    assert_eq!(next, tokens.len() - 1);
}

#[test]
fn number_values_are_written_into_the_tokens_in_order() {
    let tokens = lex("a = 1 + 2.5 * x[3];").unwrap();
    assert_eq!(number_texts(&tokens), vec!["1", "2.5", "3"]);
    let values = vec![Number::from_bits(1f64.to_bits()), Number::from_bits(2.5f64.to_bits())];
    let filled = with_numbers(&tokens, &values);
    assert_eq!(filled.len(), tokens.len());
    let numbers: Vec<f64> =
        filled.iter().filter(|t| t.kind == TokenKind::Number).map(|t| value(t.number)).collect();
    assert_eq!(numbers, vec![1.0, 2.5, 0.0]);
    for (before, after) in tokens.iter().zip(filled.iter()) {
        assert_eq!((before.kind, &before.text, before.span), (after.kind, &after.text, after.span));
        if before.kind != TokenKind::Number {
            assert_eq!(before.number, after.number);
        }
    }
    assert!(number_texts(&lex("x;").unwrap()).is_empty());
}

#[test]
fn parser_reads_a_source_text_with_the_values_of_its_numbers() {
    let mut parser = PonosParser::new();
    let source = "пер x = 1.5\nпер y = x * 4\n";
    let values = vec![Number::from_bits(1.5f64.to_bits()), Number::from_bits(4f64.to_bits())];
    let program = parser.parse(source.to_string(), &values).unwrap();
    assert_eq!(program.statements.len(), 2);
    match &program.statements[0] {
        Statement::VarDecl(d) => match d.initializer.as_ref().unwrap() {
            Expression::Number(n, _) => assert_eq!(value(*n), 1.5),
            other => panic!("{:?}", other),
        },
        other => panic!("{:?}", other),
    }
    match &program.statements[1] {
        Statement::VarDecl(d) => assert_eq!(shape(d.initializer.as_ref().unwrap()), "(x Multiply 4)"),
        other => panic!("{:?}", other),
    }
    let tokens = parser.tokens(source).unwrap();
    assert_eq!(number_texts(&tokens), vec!["1.5", "4"]);

    let error = parser.parse("пер x = \"a".to_string(), &vec![]).unwrap_err();
    assert_eq!(error.kind, ponos::parse_error::ParseErrorKind::InvalidString("Незакрытая строка".to_string()));
    let error = parser.parse("пер = 1".to_string(), &vec![]).unwrap_err();
    assert_eq!(
        error.kind,
        ponos::parse_error::ParseErrorKind::UnexpectedToken {
            expected: vec!["идентификатор".to_string()],
            found: "=".to_string(),
        }
    );
    assert_eq!(error.span, Span::new(7, 8));
}

#[test]
fn test_empty_program() {
    let mut parser = PonosParser::new();
    let result = parser.parse("".to_string(), &vec![]);
    assert!(result.is_ok());

    let program = result.unwrap();
    assert_eq!(program.statements.len(), 0);
}

#[test]
fn test_whitespace_only() {
    let mut parser = PonosParser::new();
    let result = parser.parse("   \n\t  ".to_string(), &vec![]);
    assert!(result.is_ok());
}

#[test]
fn places_are_counted_in_the_text_as_it_was_written() {
    let source = "ё = 1\nб = [\n  2\n]\n";
    let mut parser = PonosParser::new();
    let tokens = parser.tokens(source).unwrap();
    let read: Vec<(String, usize, usize)> =
        tokens.iter().map(|t| (t.text.clone(), t.span.start, t.span.end)).collect();
    let expected: Vec<(&str, usize, usize)> = vec![
        ("ё", 0, 2),
        ("=", 3, 4),
        ("1", 5, 6),
        (";", 6, 6),
        ("б", 7, 9),
        ("=", 10, 11),
        ("[", 12, 13),
        ("2", 16, 17),
        (";", 17, 17),
        ("]", 18, 19),
        (";", 19, 19),
        ("", 20, 20),
    ];
    assert_eq!(read.len(), expected.len());
    for ((text, start, end), (wanted, from, to)) in read.iter().zip(expected.iter()) {
        assert_eq!((text.as_str(), *start, *end), (*wanted, *from, *to));
        if !text.is_empty() && *start < *end {
            assert_eq!(&source[*start..*end], text);
        }
    }

    let places = ponos::places::Places::new("a\nb", "a;\nb");
    assert_eq!(places.table, vec![0, 1, 1, 2, 3]);
    assert_eq!(places.place(2), 1);
    assert_eq!(places.place(4), 3);
    assert_eq!(places.place(99), 3);
    assert_eq!(places.span(Span::new(3, 4)), Span::new(2, 3));

    let error = parser.parse("x = 1\ny = \"a\n".to_string(), &vec![]).unwrap_err();
    assert_eq!(error.span, Span::new(10, 12));
}
