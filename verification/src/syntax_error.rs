//! Failures of the lexer and of the parser as errors that can be shown.

use vstd::prelude::*;
use vstd::string::StringExecFns;
use crate::grammar::{kind_at, text_at, Expected, Failure};
use crate::heap::text_views;
use crate::lexer::{LexFailure, LexFailureKind};
use crate::parse_error::{ParseErrorKind, PonosParseError};
use crate::preprocess::text_of;
use crate::span::Span;
use crate::token::{token_views, Keyword, Symbol, Token, TokenKind, TokenView};

verus! {

pub const UNCLOSED_TEXT: &'static str = "Незакрытая строка";
pub const UNKNOWN_ESCAPE: &'static str = "Неизвестная escape-последовательность: \\";
pub const UNCLOSED_COMMENT: &'static str = "Незакрытый многострочный комментарий";
pub const TOO_LONG: &'static str = "Слишком длинный текст";

pub const AN_IDENTIFIER: &'static str = "идентификатор";
pub const A_NAME: &'static str = "имя";
pub const A_TEXT: &'static str = "строка";
pub const AN_EXPRESSION: &'static str = "выражение";
pub const A_DECLARATION: &'static str = "объявление";
pub const A_MEMBER: &'static str = "член класса";
pub const A_TARGET: &'static str = "переменная, поле или элемент";
pub const A_STATEMENT: &'static str = "оператор";
pub const PROGRESS: &'static str = "продолжение";
pub const FEWER: &'static str = "программа короче";

/// A symbol as it is written.
pub open spec fn symbol_text(symbol: Symbol) -> &'static str {
    match symbol {
        Symbol::LeftParen => "(",
        Symbol::RightParen => ")",
        Symbol::LeftBracket => "[",
        Symbol::RightBracket => "]",
        Symbol::LeftBrace => "{",
        Symbol::RightBrace => "}",
        Symbol::Comma => ",",
        Symbol::Dot => ".",
        Symbol::Colon => ":",
        Symbol::Semicolon => ";",
        Symbol::Assign => "=",
        Symbol::Equal => "==",
        Symbol::NotEqual => "!=",
        Symbol::Less => "<",
        Symbol::LessEqual => "<=",
        Symbol::Greater => ">",
        Symbol::GreaterEqual => ">=",
        Symbol::Plus => "+",
        Symbol::Minus => "-",
        Symbol::Star => "*",
        Symbol::Slash => "/",
        Symbol::Percent => "%",
        Symbol::Bang => "!",
    }
}

/// A keyword as it is written.
pub open spec fn keyword_text(keyword: Keyword) -> &'static str {
    match keyword {
        Keyword::Var => crate::token::KW_VAR,
        Keyword::Func => crate::token::KW_FUNC,
        Keyword::End => crate::token::KW_END,
        Keyword::Class => crate::token::KW_CLASS,
        Keyword::Interface => crate::token::KW_INTERFACE,
        Keyword::Annotation => crate::token::KW_ANNOTATION,
        Keyword::If => crate::token::KW_IF,
        Keyword::Else => crate::token::KW_ELSE,
        Keyword::While => crate::token::KW_WHILE,
        Keyword::Return => crate::token::KW_RETURN,
        Keyword::Try => crate::token::KW_TRY,
        Keyword::Catch => crate::token::KW_CATCH,
        Keyword::Throw => crate::token::KW_THROW,
        Keyword::Export => crate::token::KW_EXPORT,
        Keyword::This => crate::token::KW_THIS,
        Keyword::Super => crate::token::KW_SUPER,
        Keyword::Extends => crate::token::KW_EXTENDS,
        Keyword::Implements => crate::token::KW_IMPLEMENTS,
        Keyword::Use => crate::token::KW_USE,
        Keyword::As => crate::token::KW_AS,
        Keyword::Constructor => crate::token::KW_CONSTRUCTOR,
        Keyword::And => crate::token::KW_AND,
        Keyword::Or => crate::token::KW_OR,
        Keyword::True => crate::token::KW_TRUE,
        Keyword::False => crate::token::KW_FALSE,
    }
}

/// What was wanted, in words.
pub open spec fn expected_text(expected: Expected) -> &'static str {
    match expected {
        Expected::Symbol(symbol) => symbol_text(symbol),
        Expected::Keyword(keyword) => keyword_text(keyword),
        Expected::Identifier => AN_IDENTIFIER,
        Expected::Name => A_NAME,
        Expected::Text => A_TEXT,
        Expected::Expression => AN_EXPRESSION,
        Expected::Declaration => A_DECLARATION,
        Expected::Member => A_MEMBER,
        Expected::Target => A_TARGET,
        Expected::Statement => A_STATEMENT,
        Expected::Progress => PROGRESS,
        Expected::Fewer => FEWER,
    }
}

pub fn symbol_word(symbol: Symbol) -> (r: &'static str)
    ensures
        r == symbol_text(symbol),
{
    match symbol {
        Symbol::LeftParen => "(",
        Symbol::RightParen => ")",
        Symbol::LeftBracket => "[",
        Symbol::RightBracket => "]",
        Symbol::LeftBrace => "{",
        Symbol::RightBrace => "}",
        Symbol::Comma => ",",
        Symbol::Dot => ".",
        Symbol::Colon => ":",
        Symbol::Semicolon => ";",
        Symbol::Assign => "=",
        Symbol::Equal => "==",
        Symbol::NotEqual => "!=",
        Symbol::Less => "<",
        Symbol::LessEqual => "<=",
        Symbol::Greater => ">",
        Symbol::GreaterEqual => ">=",
        Symbol::Plus => "+",
        Symbol::Minus => "-",
        Symbol::Star => "*",
        Symbol::Slash => "/",
        Symbol::Percent => "%",
        Symbol::Bang => "!",
    }
}

pub fn keyword_word(keyword: Keyword) -> (r: &'static str)
    ensures
        r == keyword_text(keyword),
{
    match keyword {
        Keyword::Var => crate::token::KW_VAR,
        Keyword::Func => crate::token::KW_FUNC,
        Keyword::End => crate::token::KW_END,
        Keyword::Class => crate::token::KW_CLASS,
        Keyword::Interface => crate::token::KW_INTERFACE,
        Keyword::Annotation => crate::token::KW_ANNOTATION,
        Keyword::If => crate::token::KW_IF,
        Keyword::Else => crate::token::KW_ELSE,
        Keyword::While => crate::token::KW_WHILE,
        Keyword::Return => crate::token::KW_RETURN,
        Keyword::Try => crate::token::KW_TRY,
        Keyword::Catch => crate::token::KW_CATCH,
        Keyword::Throw => crate::token::KW_THROW,
        Keyword::Export => crate::token::KW_EXPORT,
        Keyword::This => crate::token::KW_THIS,
        Keyword::Super => crate::token::KW_SUPER,
        Keyword::Extends => crate::token::KW_EXTENDS,
        Keyword::Implements => crate::token::KW_IMPLEMENTS,
        Keyword::Use => crate::token::KW_USE,
        Keyword::As => crate::token::KW_AS,
        Keyword::Constructor => crate::token::KW_CONSTRUCTOR,
        Keyword::And => crate::token::KW_AND,
        Keyword::Or => crate::token::KW_OR,
        Keyword::True => crate::token::KW_TRUE,
        Keyword::False => crate::token::KW_FALSE,
    }
}

pub fn expected_word(expected: Expected) -> (r: &'static str)
    ensures
        r == expected_text(expected),
{
    match expected {
        Expected::Symbol(symbol) => symbol_word(symbol),
        Expected::Keyword(keyword) => keyword_word(keyword),
        Expected::Identifier => AN_IDENTIFIER,
        Expected::Name => A_NAME,
        Expected::Text => A_TEXT,
        Expected::Expression => AN_EXPRESSION,
        Expected::Declaration => A_DECLARATION,
        Expected::Member => A_MEMBER,
        Expected::Target => A_TARGET,
        Expected::Statement => A_STATEMENT,
        Expected::Progress => PROGRESS,
        Expected::Fewer => FEWER,
    }
}

/// Where in the source a failure of the parser lies: the bytes of the
/// token at which it stands.
pub open spec fn failure_span(tokens: Seq<TokenView>, failure: Failure) -> Span {
    if failure.at < tokens.len() {
        tokens[failure.at as int].span
    } else {
        Span { start: 0, end: 0 }
    }
}

/// Whether an error says what a failure of the parser is: at the end of
/// the tokens that the source ended too soon, elsewhere what token stands
/// there and what was wanted.
pub open spec fn tells_failure(error: PonosParseError, tokens: Seq<TokenView>, failure: Failure) -> bool {
    &&& error.span == failure_span(tokens, failure)
    &&& error.context@.len() == 0
    &&& if kind_at(tokens, failure.at as nat) == TokenKind::End {
        error.kind == ParseErrorKind::UnexpectedEof
    } else {
        &&& error.kind matches ParseErrorKind::UnexpectedToken { expected, found }
        &&& text_views(expected@) == seq![expected_text(failure.expected)@]
        &&& found@ == text_at(tokens, failure.at as nat)
    }
}

/// The error that says what a failure of the parser is.
pub fn syntax_error(tokens: &Vec<Token>, failure: Failure) -> (r: PonosParseError)
    ensures
        tells_failure(r, token_views(tokens@), failure),
{
    if failure.at >= tokens.len() {
        return PonosParseError::new(ParseErrorKind::UnexpectedEof, Span { start: 0, end: 0 });
    }
    let token = &tokens[failure.at];
    if token.kind == TokenKind::End {
        PonosParseError::new(ParseErrorKind::UnexpectedEof, token.span)
    } else {
        let mut expected: Vec<String> = Vec::new();
        let word = expected_word(failure.expected).to_string();
        expected.push(word);
        assert(text_views(expected@) =~= seq![expected_text(failure.expected)@]);
        PonosParseError::new(ParseErrorKind::UnexpectedToken { expected, found: token.text.clone() }, token.span)
    }
}

/// Whether an error says what a failure of the lexer is.
pub open spec fn tells_lex_failure(error: PonosParseError, failure: LexFailure) -> bool {
    &&& error.span == failure.span
    &&& error.context@.len() == 0
    &&& match failure.kind {
        LexFailureKind::UnclosedText => error.kind matches ParseErrorKind::InvalidString(m) && m@ == UNCLOSED_TEXT@,
        LexFailureKind::UnknownEscape(c) => error.kind matches ParseErrorKind::InvalidString(m) && m@
            == UNKNOWN_ESCAPE@.push(c),
        LexFailureKind::UnclosedComment => error.kind matches ParseErrorKind::Custom(m) && m@ == UNCLOSED_COMMENT@,
        LexFailureKind::Stray(c) => {
            &&& error.kind matches ParseErrorKind::UnexpectedToken { expected, found }
            &&& expected@.len() == 0
            &&& found@ == seq![c]
        },
        LexFailureKind::TooLong => error.kind matches ParseErrorKind::Custom(m) && m@ == TOO_LONG@,
    }
}

fn character(c: char) -> (r: String)
    ensures
        r@ == seq![c],
{
    let mut chars: Vec<char> = Vec::new();
    chars.push(c);
    text_of(&chars)
}

/// The error that says what a failure of the lexer is.
pub fn lex_error(failure: LexFailure) -> (r: PonosParseError)
    ensures
        tells_lex_failure(r, failure),
{
    let kind = match failure.kind {
        LexFailureKind::UnclosedText => ParseErrorKind::InvalidString(UNCLOSED_TEXT.to_string()),
        LexFailureKind::UnknownEscape(c) => {
            let message = UNKNOWN_ESCAPE.to_string().concat(character(c).as_str());
            assert(message@ =~= UNKNOWN_ESCAPE@.push(c));
            ParseErrorKind::InvalidString(message)
        },
        LexFailureKind::UnclosedComment => ParseErrorKind::Custom(UNCLOSED_COMMENT.to_string()),
        LexFailureKind::Stray(c) => ParseErrorKind::UnexpectedToken { expected: Vec::new(), found: character(c) },
        LexFailureKind::TooLong => ParseErrorKind::Custom(TOO_LONG.to_string()),
    };
    PonosParseError::new(kind, failure.span)
}

} // verus!
