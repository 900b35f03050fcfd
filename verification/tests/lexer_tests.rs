use ponos::grammar::{Expected, Failure};
use ponos::lexer::{lex, LexFailure, LexFailureKind};
use ponos::number::Number;
use ponos::parse_error::ParseErrorKind;
use ponos::parser::parse_tokens;
use ponos::span::Span;
use ponos::syntax_error::{lex_error, syntax_error};
use ponos::token::{Keyword, Symbol, Token, TokenKind};

fn kinds(source: &str) -> Vec<TokenKind> {
    lex(source).expect("the source has tokens").iter().map(|t| t.kind).collect()
}

fn texts(source: &str) -> Vec<String> {
    lex(source).expect("the source has tokens").iter().map(|t| t.text.clone()).collect()
}

fn only(source: &str) -> Token {
    let tokens = lex(source).expect("the source has tokens");
    assert_eq!(tokens.len(), 2, "{:?}", tokens);
    assert_eq!(tokens[1].kind, TokenKind::End);
    tokens[0].clone()
}

fn number(source: &str) -> f64 {
    let token = only(source);
    assert_eq!(token.kind, TokenKind::Number);
    assert_eq!(token.number, Number::from_bits(0));
    token.text.parse().expect("a number")
}

#[test]
fn test_parse_number() {
    assert_eq!(number("42"), 42.0);
    assert_eq!(number("3.14"), 3.14);
    assert_eq!(number("0"), 0.0);
    assert_eq!(number("123.456"), 123.456);
}

#[test]
fn number_takes_its_point_only_before_a_digit() {
    assert_eq!(
        kinds("5.foo"),
        vec![TokenKind::Number, TokenKind::Symbol(Symbol::Dot), TokenKind::Identifier, TokenKind::End]
    );
    assert_eq!(texts("1.2.3"), vec!["1.2", ".", "3", ""]);
    assert_eq!(texts("7."), vec!["7", ".", ""]);
}

#[test]
fn test_parse_bool() {
    assert_eq!(only("истина").kind, TokenKind::Keyword(Keyword::True));
    assert_eq!(only("ложь").kind, TokenKind::Keyword(Keyword::False));
}

#[test]
fn test_parse_string() {
    for (source, meant) in [
        (r#""привет""#, "привет"),
        (r#""hello world""#, "hello world"),
        (r#""строка\nс\tэкранированием""#, "строка\nс\tэкранированием"),
        (r#""кавычки: \" и слеш: \\""#, "кавычки: \" и слеш: \\"),
        (r#""""#, ""),
        (r#""\r\'\0""#, "\r'\0"),
    ] {
        let token = only(source);
        assert_eq!(token.kind, TokenKind::Text);
        assert_eq!(token.text, meant);
        assert_eq!(token.span, Span::new(0, source.len()));
    }
}

#[test]
fn test_parse_string_errors() {
    assert_eq!(
        lex(r#""незакрытая"#),
        Err(LexFailure { kind: LexFailureKind::UnclosedText, span: Span::new(0, 21) })
    );
    assert_eq!(
        lex("\"строка\nс переносом\""),
        Err(LexFailure { kind: LexFailureKind::UnclosedText, span: Span::new(0, 13) })
    );
    assert_eq!(
        lex(r#"x = "a\q""#),
        Err(LexFailure { kind: LexFailureKind::UnknownEscape('q'), span: Span::new(6, 8) })
    );
    assert_eq!(
        lex("\"a\\"),
        Err(LexFailure { kind: LexFailureKind::UnclosedText, span: Span::new(0, 3) })
    );
}

#[test]
fn lexer_test_parse_identifier() {
    for source in ["переменная", "x", "_private", "переменная123"] {
        let token = only(source);
        assert_eq!(token.kind, TokenKind::Identifier);
        assert_eq!(token.text, source);
        assert_eq!(token.span, Span::new(0, source.len()));
    }
}

#[test]
fn test_line_comment() {
    assert_eq!(texts("// это комментарий\nкод"), vec!["код", ""]);
    assert_eq!(kinds("// комментарий до конца"), vec![TokenKind::End]);
    assert_eq!(texts("a / b // c"), vec!["a", "/", "b", ""]);
}

#[test]
fn test_block_comment() {
    assert_eq!(texts("/* комментарий */код"), vec!["код", ""]);
    assert_eq!(texts("/* многострочный\n комментарий\n */код"), vec!["код", ""]);
    assert_eq!(texts("a /* * / ** */ b"), vec!["a", "b", ""]);
    assert_eq!(
        lex("a /* b"),
        Err(LexFailure { kind: LexFailureKind::UnclosedComment, span: Span::new(2, 6) })
    );
    assert_eq!(
        lex("/*/"),
        Err(LexFailure { kind: LexFailureKind::UnclosedComment, span: Span::new(0, 3) })
    );
}

#[test]
fn test_skip_ws_and_comments() {
    assert_eq!(texts("  \n\t  код"), vec!["код", ""]);
    assert_eq!(texts("  // комментарий\n  код"), vec!["код", ""]);
    assert_eq!(texts("  /* блок */  // строка\n  код"), vec!["код", ""]);
}

#[test]
fn test_ws() {
    assert_eq!(texts("   hello"), vec!["hello", ""]);
    assert_eq!(texts("\n\t  world"), vec!["world", ""]);
    assert_eq!(kinds(" \t\r\n"), vec![TokenKind::End]);
    assert_eq!(kinds(""), vec![TokenKind::End]);
}

#[test]
fn test_keyword() {
    assert_eq!(kinds("пер x"), vec![TokenKind::Keyword(Keyword::Var), TokenKind::Identifier, TokenKind::End]);
    assert_eq!(kinds("перx"), vec![TokenKind::Identifier, TokenKind::End]);
    assert_eq!(kinds("пер_"), vec![TokenKind::Identifier, TokenKind::End]);
}

#[test]
fn every_keyword_is_known() {
    let words = [
        ("пер", Keyword::Var),
        ("функ", Keyword::Func),
        ("конец", Keyword::End),
        ("класс", Keyword::Class),
        ("интерфейс", Keyword::Interface),
        ("аннотация", Keyword::Annotation),
        ("если", Keyword::If),
        ("иначе", Keyword::Else),
        ("пока", Keyword::While),
        ("возврат", Keyword::Return),
        ("попытка", Keyword::Try),
        ("перехват", Keyword::Catch),
        ("исключение", Keyword::Throw),
        ("экспорт", Keyword::Export),
        ("это", Keyword::This),
        ("родитель", Keyword::Super),
        ("наследует", Keyword::Extends),
        ("реализует", Keyword::Implements),
        ("использовать", Keyword::Use),
        ("как", Keyword::As),
        ("конструктор", Keyword::Constructor),
        ("и", Keyword::And),
        ("или", Keyword::Or),
        ("истина", Keyword::True),
        ("ложь", Keyword::False),
    ];
    for (word, keyword) in words {
        let token = only(word);
        assert_eq!(token.kind, TokenKind::Keyword(keyword));
        assert_eq!(token.text, word);
    }
}

#[test]
fn test_char() {
    assert_eq!(
        kinds(";rest"),
        vec![TokenKind::Symbol(Symbol::Semicolon), TokenKind::Identifier, TokenKind::End]
    );
    assert_eq!(kinds("xrest"), vec![TokenKind::Identifier, TokenKind::End]);
}

#[test]
fn every_symbol_is_known() {
    let source = "( ) [ ] { } , . : ; = == != < <= > >= + - * / % !";
    let symbols = [
        Symbol::LeftParen,
        Symbol::RightParen,
        Symbol::LeftBracket,
        Symbol::RightBracket,
        Symbol::LeftBrace,
        Symbol::RightBrace,
        Symbol::Comma,
        Symbol::Dot,
        Symbol::Colon,
        Symbol::Semicolon,
        Symbol::Assign,
        Symbol::Equal,
        Symbol::NotEqual,
        Symbol::Less,
        Symbol::LessEqual,
        Symbol::Greater,
        Symbol::GreaterEqual,
        Symbol::Plus,
        Symbol::Minus,
        Symbol::Star,
        Symbol::Slash,
        Symbol::Percent,
        Symbol::Bang,
    ];
    let mut expected: Vec<TokenKind> = symbols.iter().map(|s| TokenKind::Symbol(*s)).collect();
    expected.push(TokenKind::End);
    assert_eq!(kinds(source), expected);
    let written: Vec<&str> = source.split(' ').collect();
    let read = texts(source);
    assert_eq!(&read[..written.len()], &written[..]);
}

#[test]
fn symbols_of_two_are_read_greedily() {
    assert_eq!(texts("a<=b"), vec!["a", "<=", "b", ""]);
    assert_eq!(texts("a===b"), vec!["a", "==", "=", "b", ""]);
    assert_eq!(texts("!!=x"), vec!["!", "!=", "x", ""]);
    assert_eq!(texts("a=<b"), vec!["a", "=", "<", "b", ""]);
}

#[test]
fn test_span_from_remaining_uses_absolute_offsets() {
    let tokens = lex("hello<=12345").unwrap();
    assert_eq!(tokens[0].span, Span::new(0, 5));
    assert_eq!(tokens[1].span, Span::new(5, 7));
    assert_eq!(tokens[2].span, Span::new(7, 12));
    assert_eq!(tokens[3].span, Span::new(12, 12));
}

#[test]
fn spans_count_bytes() {
    let source = "пер ё = \"я\";";
    let tokens = lex(source).unwrap();
    let spans: Vec<(usize, usize)> = tokens.iter().map(|t| (t.span.start, t.span.end)).collect();
    assert_eq!(spans, vec![(0, 6), (7, 9), (10, 11), (12, 16), (16, 17), (17, 17)]);
    for token in &tokens[..3] {
        assert_eq!(&source[token.span.start..token.span.end], token.text);
    }
    let wide = lex("a😀").unwrap_err();
    assert_eq!(wide, LexFailure { kind: LexFailureKind::Stray('😀'), span: Span::new(1, 5) });
    assert_eq!(lex("€").unwrap_err().span, Span::new(0, 3));
}

#[test]
fn stray_character_is_refused() {
    assert_eq!(lex("a # b"), Err(LexFailure { kind: LexFailureKind::Stray('#'), span: Span::new(2, 3) }));
    assert_eq!(lex("@"), Err(LexFailure { kind: LexFailureKind::Stray('@'), span: Span::new(0, 1) }));
}

#[test]
fn lexer_failures_become_errors() {
    let error = lex_error(LexFailure { kind: LexFailureKind::UnclosedText, span: Span::new(1, 4) });
    assert_eq!(error.kind, ParseErrorKind::InvalidString("Незакрытая строка".to_string()));
    assert_eq!(error.span, Span::new(1, 4));
    assert!(error.context.is_empty());
    let error = lex_error(LexFailure { kind: LexFailureKind::UnknownEscape('q'), span: Span::new(0, 2) });
    assert_eq!(
        error.kind,
        ParseErrorKind::InvalidString("Неизвестная escape-последовательность: \\q".to_string())
    );
    let error = lex_error(LexFailure { kind: LexFailureKind::UnclosedComment, span: Span::new(0, 2) });
    assert_eq!(error.kind, ParseErrorKind::Custom("Незакрытый многострочный комментарий".to_string()));
    let error = lex_error(LexFailure { kind: LexFailureKind::Stray('#'), span: Span::new(0, 1) });
    assert_eq!(error.kind, ParseErrorKind::UnexpectedToken { expected: vec![], found: "#".to_string() });
    let error = lex_error(LexFailure { kind: LexFailureKind::TooLong, span: Span::new(0, 0) });
    assert_eq!(error.kind, ParseErrorKind::Custom("Слишком длинный текст".to_string()));
}

#[test]
fn parser_failures_become_errors() {
    let tokens = lex("пер x = ;").unwrap();
    let failure = parse_tokens(&tokens).unwrap_err();
    assert_eq!(failure, Failure { expected: Expected::Expression, at: 3 });
    let error = syntax_error(&tokens, failure);
    assert_eq!(
        error.kind,
        ParseErrorKind::UnexpectedToken { expected: vec!["выражение".to_string()], found: ";".to_string() }
    );
    assert_eq!(error.span, Span::new(11, 12));

    let tokens = lex("x = 1").unwrap();
    let failure = parse_tokens(&tokens).unwrap_err();
    assert_eq!(failure, Failure { expected: Expected::Symbol(Symbol::Semicolon), at: 3 });
    let error = syntax_error(&tokens, failure);
    assert_eq!(error.kind, ParseErrorKind::UnexpectedEof);
    assert_eq!(error.span, Span::new(5, 5));

    let tokens = lex("x y;").unwrap();
    let failure = parse_tokens(&tokens).unwrap_err();
    let error = syntax_error(&tokens, failure);
    assert_eq!(
        error.kind,
        ParseErrorKind::UnexpectedToken { expected: vec![";".to_string()], found: "y".to_string() }
    );
    assert_eq!(
        error.kind.hint(),
        Some("Возможно, вы забыли поставить точку с запятой? Операторы 'пер', 'возврат', 'исключение' и выражения должны заканчиваться на ';'".to_string())
    );
    let out_of_reach = syntax_error(&tokens, Failure { expected: Expected::Identifier, at: 99 });
    assert_eq!(out_of_reach.kind, ParseErrorKind::UnexpectedEof);
    assert_eq!(out_of_reach.span, Span::new(0, 0));
}
