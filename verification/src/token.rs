//! The tokens of the language.

use vstd::prelude::*;
use crate::number::Number;
use crate::span::Span;

verus! {

#[derive(Clone, Copy, Debug, PartialEq, Eq, Structural)]
pub enum Keyword {
    Var,
    Func,
    End,
    Class,
    Interface,
    Annotation,
    If,
    Else,
    While,
    Return,
    Try,
    Catch,
    Throw,
    Export,
    This,
    Super,
    Extends,
    Implements,
    Use,
    As,
    Constructor,
    And,
    Or,
    True,
    False,
}

#[derive(Clone, Copy, Debug, PartialEq, Eq, Structural)]
pub enum Symbol {
    LeftParen,
    RightParen,
    LeftBracket,
    RightBracket,
    LeftBrace,
    RightBrace,
    Comma,
    Dot,
    Colon,
    Semicolon,
    Assign,
    Equal,
    NotEqual,
    Less,
    LessEqual,
    Greater,
    GreaterEqual,
    Plus,
    Minus,
    Star,
    Slash,
    Percent,
    Bang,
}

#[derive(Clone, Copy, Debug, PartialEq, Eq, Structural)]
pub enum TokenKind {
    /// A number, written in `text`.
    Number,
    /// A string literal; `text` is what it stands for, the escapes
    /// resolved.
    Text,
    Identifier,
    Keyword(Keyword),
    Symbol(Symbol),
    /// The end of the source.
    End,
}

/// A token: its kind, its text, and the bytes of the source it covers.
#[derive(Clone, Debug, PartialEq)]
pub struct Token {
    pub kind: TokenKind,
    pub text: String,
    /// The value of a number. The lexer leaves it zero: who drives the
    /// library reads the value from `text` and writes it here.
    pub number: Number,
    pub span: Span,
}

pub struct TokenView {
    pub kind: TokenKind,
    pub text: Seq<char>,
    pub number: Number,
    pub span: Span,
}

impl View for Token {
    type V = TokenView;

    open spec fn view(&self) -> TokenView {
        TokenView { kind: self.kind, text: self.text@, number: self.number, span: self.span }
    }
}

pub open spec fn token_views(s: Seq<Token>) -> Seq<TokenView> {
    s.map_values(|t: Token| t@)
}

pub const KW_VAR: &'static str = "пер";
pub const KW_FUNC: &'static str = "функ";
pub const KW_END: &'static str = "конец";
pub const KW_CLASS: &'static str = "класс";
pub const KW_INTERFACE: &'static str = "интерфейс";
pub const KW_ANNOTATION: &'static str = "аннотация";
pub const KW_IF: &'static str = "если";
pub const KW_ELSE: &'static str = "иначе";
pub const KW_WHILE: &'static str = "пока";
pub const KW_RETURN: &'static str = "возврат";
pub const KW_TRY: &'static str = "попытка";
pub const KW_CATCH: &'static str = "перехват";
pub const KW_THROW: &'static str = "исключение";
pub const KW_EXPORT: &'static str = "экспорт";
pub const KW_THIS: &'static str = "это";
pub const KW_SUPER: &'static str = "родитель";
pub const KW_EXTENDS: &'static str = "наследует";
pub const KW_IMPLEMENTS: &'static str = "реализует";
pub const KW_USE: &'static str = "использовать";
pub const KW_AS: &'static str = "как";
pub const KW_CONSTRUCTOR: &'static str = "конструктор";
pub const KW_AND: &'static str = "и";
pub const KW_OR: &'static str = "или";
pub const KW_TRUE: &'static str = "истина";
pub const KW_FALSE: &'static str = "ложь";

/// The keyword that a word is, if it is one.
pub open spec fn keyword_of(word: Seq<char>) -> Option<Keyword> {
    if word == KW_VAR@ {
        Some(Keyword::Var)
    } else if word == KW_FUNC@ {
        Some(Keyword::Func)
    } else if word == KW_END@ {
        Some(Keyword::End)
    } else if word == KW_CLASS@ {
        Some(Keyword::Class)
    } else if word == KW_INTERFACE@ {
        Some(Keyword::Interface)
    } else if word == KW_ANNOTATION@ {
        Some(Keyword::Annotation)
    } else if word == KW_IF@ {
        Some(Keyword::If)
    } else if word == KW_ELSE@ {
        Some(Keyword::Else)
    } else if word == KW_WHILE@ {
        Some(Keyword::While)
    } else if word == KW_RETURN@ {
        Some(Keyword::Return)
    } else if word == KW_TRY@ {
        Some(Keyword::Try)
    } else if word == KW_CATCH@ {
        Some(Keyword::Catch)
    } else if word == KW_THROW@ {
        Some(Keyword::Throw)
    } else if word == KW_EXPORT@ {
        Some(Keyword::Export)
    } else if word == KW_THIS@ {
        Some(Keyword::This)
    } else if word == KW_SUPER@ {
        Some(Keyword::Super)
    } else if word == KW_EXTENDS@ {
        Some(Keyword::Extends)
    } else if word == KW_IMPLEMENTS@ {
        Some(Keyword::Implements)
    } else if word == KW_USE@ {
        Some(Keyword::Use)
    } else if word == KW_AS@ {
        Some(Keyword::As)
    } else if word == KW_CONSTRUCTOR@ {
        Some(Keyword::Constructor)
    } else if word == KW_AND@ {
        Some(Keyword::And)
    } else if word == KW_OR@ {
        Some(Keyword::Or)
    } else if word == KW_TRUE@ {
        Some(Keyword::True)
    } else if word == KW_FALSE@ {
        Some(Keyword::False)
    } else {
        None
    }
}

/// The symbol that two characters make together.
pub open spec fn double_symbol(c: char, next: char) -> Option<Symbol> {
    if next != '=' {
        None
    } else if c == '=' {
        Some(Symbol::Equal)
    } else if c == '!' {
        Some(Symbol::NotEqual)
    } else if c == '<' {
        Some(Symbol::LessEqual)
    } else if c == '>' {
        Some(Symbol::GreaterEqual)
    } else {
        None
    }
}

/// The symbol that one character is.
pub open spec fn single_symbol(c: char) -> Option<Symbol> {
    match c {
        '(' => Some(Symbol::LeftParen),
        ')' => Some(Symbol::RightParen),
        '[' => Some(Symbol::LeftBracket),
        ']' => Some(Symbol::RightBracket),
        '{' => Some(Symbol::LeftBrace),
        '}' => Some(Symbol::RightBrace),
        ',' => Some(Symbol::Comma),
        '.' => Some(Symbol::Dot),
        ':' => Some(Symbol::Colon),
        ';' => Some(Symbol::Semicolon),
        '=' => Some(Symbol::Assign),
        '<' => Some(Symbol::Less),
        '>' => Some(Symbol::Greater),
        '+' => Some(Symbol::Plus),
        '-' => Some(Symbol::Minus),
        '*' => Some(Symbol::Star),
        '/' => Some(Symbol::Slash),
        '%' => Some(Symbol::Percent),
        '!' => Some(Symbol::Bang),
        _ => None,
    }
}

/// The character that stands after a backslash in a string literal for
/// `c`.
pub open spec fn escape_of(c: char) -> Option<char> {
    match c {
        'n' => Some('\n'),
        't' => Some('\t'),
        'r' => Some('\r'),
        '\\' => Some('\\'),
        '"' => Some('"'),
        '\'' => Some('\''),
        '0' => Some('\0'),
        _ => None,
    }
}

pub fn keyword(word: &String) -> (r: Option<Keyword>)
    ensures
        r == keyword_of(word@),
{
    if crate::text::is_text(word, KW_VAR) {
        Some(Keyword::Var)
    } else if crate::text::is_text(word, KW_FUNC) {
        Some(Keyword::Func)
    } else if crate::text::is_text(word, KW_END) {
        Some(Keyword::End)
    } else if crate::text::is_text(word, KW_CLASS) {
        Some(Keyword::Class)
    } else if crate::text::is_text(word, KW_INTERFACE) {
        Some(Keyword::Interface)
    } else if crate::text::is_text(word, KW_ANNOTATION) {
        Some(Keyword::Annotation)
    } else if crate::text::is_text(word, KW_IF) {
        Some(Keyword::If)
    } else if crate::text::is_text(word, KW_ELSE) {
        Some(Keyword::Else)
    } else if crate::text::is_text(word, KW_WHILE) {
        Some(Keyword::While)
    } else if crate::text::is_text(word, KW_RETURN) {
        Some(Keyword::Return)
    } else if crate::text::is_text(word, KW_TRY) {
        Some(Keyword::Try)
    } else if crate::text::is_text(word, KW_CATCH) {
        Some(Keyword::Catch)
    } else if crate::text::is_text(word, KW_THROW) {
        Some(Keyword::Throw)
    } else if crate::text::is_text(word, KW_EXPORT) {
        Some(Keyword::Export)
    } else if crate::text::is_text(word, KW_THIS) {
        Some(Keyword::This)
    } else if crate::text::is_text(word, KW_SUPER) {
        Some(Keyword::Super)
    } else if crate::text::is_text(word, KW_EXTENDS) {
        Some(Keyword::Extends)
    } else if crate::text::is_text(word, KW_IMPLEMENTS) {
        Some(Keyword::Implements)
    } else if crate::text::is_text(word, KW_USE) {
        Some(Keyword::Use)
    } else if crate::text::is_text(word, KW_AS) {
        Some(Keyword::As)
    } else if crate::text::is_text(word, KW_CONSTRUCTOR) {
        Some(Keyword::Constructor)
    } else if crate::text::is_text(word, KW_AND) {
        Some(Keyword::And)
    } else if crate::text::is_text(word, KW_OR) {
        Some(Keyword::Or)
    } else if crate::text::is_text(word, KW_TRUE) {
        Some(Keyword::True)
    } else if crate::text::is_text(word, KW_FALSE) {
        Some(Keyword::False)
    } else {
        None
    }
}

pub fn symbol_pair(c: char, next: char) -> (r: Option<Symbol>)
    ensures
        r == double_symbol(c, next),
{
    if next != '=' {
        None
    } else if c == '=' {
        Some(Symbol::Equal)
    } else if c == '!' {
        Some(Symbol::NotEqual)
    } else if c == '<' {
        Some(Symbol::LessEqual)
    } else if c == '>' {
        Some(Symbol::GreaterEqual)
    } else {
        None
    }
}

pub fn symbol(c: char) -> (r: Option<Symbol>)
    ensures
        r == single_symbol(c),
{
    match c {
        '(' => Some(Symbol::LeftParen),
        ')' => Some(Symbol::RightParen),
        '[' => Some(Symbol::LeftBracket),
        ']' => Some(Symbol::RightBracket),
        '{' => Some(Symbol::LeftBrace),
        '}' => Some(Symbol::RightBrace),
        ',' => Some(Symbol::Comma),
        '.' => Some(Symbol::Dot),
        ':' => Some(Symbol::Colon),
        ';' => Some(Symbol::Semicolon),
        '=' => Some(Symbol::Assign),
        '<' => Some(Symbol::Less),
        '>' => Some(Symbol::Greater),
        '+' => Some(Symbol::Plus),
        '-' => Some(Symbol::Minus),
        '*' => Some(Symbol::Star),
        '/' => Some(Symbol::Slash),
        '%' => Some(Symbol::Percent),
        '!' => Some(Symbol::Bang),
        _ => None,
    }
}

pub fn escape(c: char) -> (r: Option<char>)
    ensures
        r == escape_of(c),
{
    match c {
        'n' => Some('\n'),
        't' => Some('\t'),
        'r' => Some('\r'),
        '\\' => Some('\\'),
        '"' => Some('"'),
        '\'' => Some('\''),
        '0' => Some('\0'),
        _ => None,
    }
}

} // verus!
