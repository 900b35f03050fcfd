//! Errors of the parser and how they are shown with the source around them.

use vstd::prelude::*;
use vstd::string::{StrSliceExecFns, StringExecFns, StringSliceAdditionalSpecFns};
use crate::heap::text_views;
use crate::span::{byte_offset_to_location, location_after, Location, Span};
use crate::text::{
    contains_text, decimal, decimal_text, has_ink, inked, lines_of, occurs, repeat, repeated, source_lines,
};

verus! {

/// What went wrong while parsing.
#[derive(Debug, Clone, PartialEq)]
pub enum ParseErrorKind {
    /// A token other than the expected ones was found.
    UnexpectedToken { expected: Vec<String>, found: String },
    UnexpectedEof,
    InvalidNumber(String),
    InvalidString(String),
    InvalidIdentifier(String),
    Custom(String),
}

/// An error of the parser: what went wrong, where, and inside what.
#[derive(Debug)]
pub struct PonosParseError {
    pub kind: ParseErrorKind,
    pub span: Span,
    pub context: Vec<String>,
}

pub const RED: &'static str = "\x1b[31m";
pub const YELLOW: &'static str = "\x1b[33m";
pub const BLUE: &'static str = "\x1b[34m";
pub const BOLD: &'static str = "\x1b[1m";
pub const RESET: &'static str = "\x1b[0m";
pub const GRAY: &'static str = "\x1b[90m";

pub const UNEXPECTED: &'static str = "Неожиданный токен '";
pub const QUOTE: &'static str = "'";
pub const EXPECTED: &'static str = "'. Ожидалось: ";
pub const COMMA: &'static str = ", ";
pub const EOF: &'static str = "Неожиданный конец файла";
pub const BAD_NUMBER: &'static str = "Неверный формат числа: '";
pub const BAD_STRING: &'static str = "Неверный формат строки: '";
pub const BAD_IDENTIFIER: &'static str = "Неверный идентификатор: '";

pub const HINT_SEMICOLON: &'static str = "Возможно, вы забыли поставить точку с запятой? Операторы 'пер', 'возврат', 'исключение' и выражения должны заканчиваться на ';'";
pub const HINT_END: &'static str = "Возможно, вы забыли закрыть блок словом 'конец'? Блоки 'функ', 'класс', 'если', 'пока' должны заканчиваться на 'конец'";
pub const HINT_PAREN: &'static str = "Возможно, вы забыли закрыть скобку ')'?";
pub const HINT_BRACKET: &'static str = "Возможно, вы забыли закрыть скобку ']'?";
pub const HINT_BRACE: &'static str = "Возможно, вы забыли закрыть скобку '}'?";
pub const HINT_ASSIGN: &'static str = "Возможно, вы забыли оператор присваивания '='?";
pub const HINT_COLON: &'static str = "Возможно, вы забыли двоеточие ':'? Оно нужно для типов или пар в словарях.";
pub const HINT_QUOTES: &'static str = "Возможно, у вас незакрытая строка? Проверьте кавычки.";
pub const HINT_EOF: &'static str = "Файл закончился раньше времени. Проверьте, все ли блоки закрыты словом 'конец', все ли строки закрыты кавычками, и все ли скобки закрыты.";
pub const HINT_NUMBER_BEFORE: &'static str = "Проверьте формат числа '";
pub const HINT_NUMBER_AFTER: &'static str = "'. Числа должны быть в формате: 42 или 3.14";
pub const HINT_STRING: &'static str = "Строки должны быть заключены в двойные кавычки (\"). Используйте \\ для экранирования: \\n, \\t, \\\"";
pub const HINT_IDENTIFIER_BEFORE: &'static str = "Идентификатор '";
pub const HINT_IDENTIFIER_AFTER: &'static str = "' недопустим. Идентификаторы должны начинаться с буквы или _, и содержать только буквы, цифры и _";

pub const SEMICOLON: &'static str = ";";
pub const END: &'static str = "конец";
pub const CLOSE_PAREN: &'static str = ")";
pub const CLOSE_BRACKET: &'static str = "]";
pub const CLOSE_BRACE: &'static str = "}";
pub const ASSIGN: &'static str = "=";
pub const COLON: &'static str = ":";
pub const DOUBLE_QUOTE: &'static str = "\"";

/// The first `n` of the expected tokens, with `, ` between them.
pub open spec fn joined(items: Seq<Seq<char>>, n: nat) -> Seq<char>
    decreases n,
{
    if n == 0 {
        Seq::empty()
    } else if n == 1 {
        items[0]
    } else {
        joined(items, (n - 1) as nat) + COMMA@ + items[n - 1]
    }
}

/// Whether `word` is one of `items`.
pub open spec fn listed(items: Seq<Seq<char>>, word: Seq<char>) -> bool {
    exists|i: int| 0 <= i < items.len() && #[trigger] items[i] == word
}

/// What the error says.
pub open spec fn message_of(kind: ParseErrorKind) -> Seq<char> {
    match kind {
        ParseErrorKind::UnexpectedToken { expected, found } => if expected@.len() == 0 {
            UNEXPECTED@ + found@ + QUOTE@
        } else {
            UNEXPECTED@ + found@ + EXPECTED@ + joined(text_views(expected@), expected@.len())
        },
        ParseErrorKind::UnexpectedEof => EOF@,
        ParseErrorKind::InvalidNumber(s) => BAD_NUMBER@ + s@ + QUOTE@,
        ParseErrorKind::InvalidString(s) => BAD_STRING@ + s@ + QUOTE@,
        ParseErrorKind::InvalidIdentifier(s) => BAD_IDENTIFIER@ + s@ + QUOTE@,
        ParseErrorKind::Custom(message) => message@,
    }
}

/// The advice that goes with the error, if there is any. For an
/// unexpected token the first of these decides: an expected `;`, `конец`,
/// `)`, `]`, `}`, `=`, `:`, then a quote in what was found.
pub open spec fn hint_of(kind: ParseErrorKind) -> Option<Seq<char>> {
    match kind {
        ParseErrorKind::UnexpectedToken { expected, found } => {
            let items = text_views(expected@);
            if listed(items, SEMICOLON@) {
                Some(HINT_SEMICOLON@)
            } else if listed(items, END@) {
                Some(HINT_END@)
            } else if listed(items, CLOSE_PAREN@) {
                Some(HINT_PAREN@)
            } else if listed(items, CLOSE_BRACKET@) {
                Some(HINT_BRACKET@)
            } else if listed(items, CLOSE_BRACE@) {
                Some(HINT_BRACE@)
            } else if listed(items, ASSIGN@) {
                Some(HINT_ASSIGN@)
            } else if listed(items, COLON@) {
                Some(HINT_COLON@)
            } else if occurs(found@, DOUBLE_QUOTE@) || occurs(found@, QUOTE@) {
                Some(HINT_QUOTES@)
            } else {
                None
            }
        },
        ParseErrorKind::UnexpectedEof => Some(HINT_EOF@),
        ParseErrorKind::InvalidNumber(number) => Some(HINT_NUMBER_BEFORE@ + number@ + HINT_NUMBER_AFTER@),
        ParseErrorKind::InvalidString(_) => Some(HINT_STRING@),
        ParseErrorKind::InvalidIdentifier(name) => Some(
            HINT_IDENTIFIER_BEFORE@ + name@ + HINT_IDENTIFIER_AFTER@,
        ),
        ParseErrorKind::Custom(_) => None,
    }
}

fn is_listed(items: &Vec<String>, word: &str) -> (r: bool)
    ensures
        r == listed(text_views(items@), word@),
{
    let wanted = word.to_string();
    let mut i: usize = 0;
    while i < items.len()
        invariant
            i <= items.len(),
            wanted@ == word@,
            forall|j: int| 0 <= j < i ==> (#[trigger] text_views(items@)[j]) != word@,
        decreases items.len() - i,
    {
        if items[i] == wanted {
            assert(text_views(items@)[i as int] == word@);
            return true;
        }
        i = i + 1;
    }
    false
}

fn join(items: &Vec<String>) -> (r: String)
    ensures
        r@ == joined(text_views(items@), items@.len()),
{
    let mut r = String::new();
    let mut i: usize = 0;
    while i < items.len()
        invariant
            i <= items.len(),
            r@ == joined(text_views(items@), i as nat),
        decreases items.len() - i,
    {
        if i == 0 {
            r = items[0].clone();
            assert(text_views(items@)[0] == items@[0]@);
        } else {
            assert(text_views(items@)[i as int] == items@[i as int]@);
            r = r.concat(COMMA).concat(items[i].as_str());
        }
        i = i + 1;
    }
    r
}

impl ParseErrorKind {
    /// What the error says.
    pub fn message(&self) -> (r: String)
        ensures
            r@ == message_of(*self),
    {
        match self {
            ParseErrorKind::UnexpectedToken { expected, found } => if expected.len() == 0 {
                UNEXPECTED.to_string().concat(found.as_str()).concat(QUOTE)
            } else {
                UNEXPECTED.to_string().concat(found.as_str()).concat(EXPECTED).concat(join(expected).as_str())
            },
            ParseErrorKind::UnexpectedEof => EOF.to_string(),
            ParseErrorKind::InvalidNumber(s) => BAD_NUMBER.to_string().concat(s.as_str()).concat(QUOTE),
            ParseErrorKind::InvalidString(s) => BAD_STRING.to_string().concat(s.as_str()).concat(QUOTE),
            ParseErrorKind::InvalidIdentifier(s) => BAD_IDENTIFIER.to_string().concat(s.as_str()).concat(QUOTE),
            ParseErrorKind::Custom(message) => message.clone(),
        }
    }

    /// The advice that goes with the error.
    pub fn hint(&self) -> (r: Option<String>)
        ensures
            match r {
                Some(hint) => hint_of(*self) == Some(hint@),
                None => hint_of(*self) is None,
            },
    {
        match self {
            ParseErrorKind::UnexpectedToken { expected, found } => {
                if is_listed(expected, SEMICOLON) {
                    Some(HINT_SEMICOLON.to_string())
                } else if is_listed(expected, END) {
                    Some(HINT_END.to_string())
                } else if is_listed(expected, CLOSE_PAREN) {
                    Some(HINT_PAREN.to_string())
                } else if is_listed(expected, CLOSE_BRACKET) {
                    Some(HINT_BRACKET.to_string())
                } else if is_listed(expected, CLOSE_BRACE) {
                    Some(HINT_BRACE.to_string())
                } else if is_listed(expected, ASSIGN) {
                    Some(HINT_ASSIGN.to_string())
                } else if is_listed(expected, COLON) {
                    Some(HINT_COLON.to_string())
                } else if contains_text(found.as_str(), DOUBLE_QUOTE) || contains_text(found.as_str(), QUOTE) {
                    Some(HINT_QUOTES.to_string())
                } else {
                    None
                }
            },
            ParseErrorKind::UnexpectedEof => Some(HINT_EOF.to_string()),
            ParseErrorKind::InvalidNumber(number) => Some(
                HINT_NUMBER_BEFORE.to_string().concat(number.as_str()).concat(HINT_NUMBER_AFTER),
            ),
            ParseErrorKind::InvalidString(_) => Some(HINT_STRING.to_string()),
            ParseErrorKind::InvalidIdentifier(name) => Some(
                HINT_IDENTIFIER_BEFORE.to_string().concat(name.as_str()).concat(HINT_IDENTIFIER_AFTER),
            ),
            ParseErrorKind::Custom(_) => None,
        }
    }
}

impl PonosParseError {
    pub fn new(kind: ParseErrorKind, span: Span) -> (r: Self)
        ensures
            r.kind == kind,
            r.span == span,
            r.context@.len() == 0,
    {
        PonosParseError { kind, span, context: Vec::new() }
    }

    /// The error with one more piece of context, innermost first.
    pub fn with_context(self, ctx: String) -> (r: Self)
        ensures
            r.kind == self.kind,
            r.span == self.span,
            r.context@ == self.context@.push(ctx),
    {
        let mut r = self;
        r.context.push(ctx);
        r
    }

    /// What the error says, as `message` of its kind gives it.
    pub fn describe(&self) -> (r: String)
        ensures
            r@ == message_of(self.kind),
    {
        self.kind.message()
    }
}

pub const TITLE: &'static str = "Ошибка:";
pub const SPACE: &'static str = " ";
pub const IN_FILE: &'static str = " в ";
pub const IN_CONTEXT: &'static str = "  в ";
pub const NEWLINE: &'static str = "\n";
pub const BAR: &'static str = " |";
pub const GUTTER: &'static str = "     |";
pub const CARET: &'static str = "^";
pub const HINT_TITLE: &'static str = "💡 Подсказка:";

/// A line number, right-aligned in four columns.
pub open spec fn padded(n: nat) -> Seq<char> {
    let digits = decimal_text(n);
    if digits.len() >= 4 {
        digits
    } else {
        repeated(SPACE@, (4 - digits.len()) as nat) + digits
    }
}

/// One line of source with its number in front.
pub open spec fn numbered(color: Seq<char>, number: nat, line: Seq<char>) -> Seq<char> {
    color + padded(number) + BAR@ + RESET@ + SPACE@ + line + NEWLINE@
}

/// The head of the report: what went wrong, and where.
pub open spec fn headline(message: Seq<char>, filename: Seq<char>, line: nat, column: nat) -> Seq<char> {
    BOLD@ + RED@ + TITLE@ + RESET@ + SPACE@ + message + IN_FILE@ + BLUE@ + filename + COLON@ + decimal_text(
        line + 1,
    ) + COLON@ + decimal_text(column + 1) + RESET@ + NEWLINE@
}

/// The first `n` pieces of context, one line each.
pub open spec fn contexts(context: Seq<Seq<char>>, n: nat) -> Seq<char>
    decreases n,
{
    if n == 0 {
        Seq::empty()
    } else {
        contexts(context, (n - 1) as nat) + GRAY@ + IN_CONTEXT@ + context[n - 1] + RESET@ + NEWLINE@
    }
}

/// How many carets underline the error: the columns of the span where it
/// stays on one line, else the rest of the line; one at least in the first
/// case.
pub open spec fn underline(start: (nat, nat), end: (nat, nat), width: nat) -> nat {
    if start.0 == end.0 {
        if end.1 > start.1 + 1 {
            (end.1 - start.1) as nat
        } else {
            1
        }
    } else if width > start.1 {
        (width - start.1) as nat
    } else {
        0
    }
}

/// The text under the carets: what the line holds from the start column
/// on, as far as the carets go.
pub open spec fn underlined(line: Seq<char>, column: nat, carets: nat) -> Seq<char> {
    if column < line.len() {
        line.subrange(
            column as int,
            if column + carets <= line.len() {
                (column + carets) as int
            } else {
                line.len() as int
            },
        )
    } else {
        Seq::empty()
    }
}

/// The source around the error: up to two lines before it, the line
/// itself, the carets under it with what they underline, one line after.
pub open spec fn excerpt(lines: Seq<Seq<char>>, start: (nat, nat), end: (nat, nat)) -> Seq<char> {
    if start.0 >= lines.len() {
        Seq::empty()
    } else {
        let line = lines[start.0 as int];
        let carets = underline(start, end, line.len());
        let found = underlined(line, start.1, carets);
        NEWLINE@ + (if start.0 >= 2 {
            numbered(GRAY@, (start.0 - 1) as nat, lines[start.0 as int - 2])
        } else {
            Seq::empty()
        }) + (if start.0 >= 1 {
            numbered(GRAY@, start.0, lines[start.0 as int - 1])
        } else {
            Seq::empty()
        }) + numbered(BLUE@, start.0 + 1, line) + BLUE@ + GUTTER@ + RESET@ + SPACE@ + repeated(SPACE@, start.1)
            + RED@ + repeated(CARET@, carets) + RESET@ + (if has_ink(found) {
            SPACE@ + RED@ + found + RESET@
        } else {
            Seq::empty()
        }) + NEWLINE@ + (if start.0 + 1 < lines.len() {
            numbered(GRAY@, start.0 + 2, lines[start.0 as int + 1])
        } else {
            Seq::empty()
        })
    }
}

/// The advice at the foot of the report.
pub open spec fn advice(hint: Option<Seq<char>>) -> Seq<char> {
    match hint {
        Some(text) => NEWLINE@ + BOLD@ + YELLOW@ + HINT_TITLE@ + RESET@ + SPACE@ + text + NEWLINE@,
        None => Seq::empty(),
    }
}

/// The place of a byte offset of `source`, clamped to its end.
pub open spec fn place(source: &str, offset: usize) -> (nat, nat) {
    location_after(
        source.spec_bytes(),
        if offset <= source.spec_bytes().len() {
            offset as nat
        } else {
            source.spec_bytes().len()
        },
    )
}

/// The whole report on an error.
pub open spec fn report(error: PonosParseError, source: &str, filename: Seq<char>) -> Seq<char> {
    let start = place(source, error.span.start);
    let end = place(source, error.span.end);
    headline(message_of(error.kind), filename, start.0, start.1) + contexts(
        text_views(error.context@),
        error.context@.len(),
    ) + excerpt(source_lines(source@), start, end) + advice(hint_of(error.kind))
}

fn pad(n: u128) -> (r: String)
    ensures
        r@ == padded(n as nat),
{
    let digits = decimal(n);
    let width: usize = digits.as_str().unicode_len();
    if width >= 4 {
        digits
    } else {
        repeat(SPACE, 4 - width).concat(digits.as_str())
    }
}

fn number_line(color: &str, number: u128, line: &String) -> (r: String)
    ensures
        r@ == numbered(color@, number as nat, line@),
{
    color.to_string().concat(pad(number).as_str()).concat(BAR).concat(RESET).concat(SPACE).concat(
        line.as_str(),
    ).concat(NEWLINE)
}

fn context_lines(context: &Vec<String>) -> (r: String)
    ensures
        r@ == contexts(text_views(context@), context@.len()),
{
    let mut r = String::new();
    let mut i: usize = 0;
    while i < context.len()
        invariant
            i <= context.len(),
            r@ == contexts(text_views(context@), i as nat),
        decreases context.len() - i,
    {
        assert(text_views(context@)[i as int] == context@[i as int]@);
        r = r.concat(GRAY).concat(IN_CONTEXT).concat(context[i].as_str()).concat(RESET).concat(NEWLINE);
        i = i + 1;
    }
    r
}

fn excerpt_of(lines: &Vec<String>, start: Location, end: Location) -> (r: String)
    ensures
        r@ == excerpt(
            text_views(lines@),
            (start.line as nat, start.column as nat),
            (end.line as nat, end.column as nat),
        ),
{
    if start.line >= lines.len() {
        return String::new();
    }
    let ghost all = text_views(lines@);
    let line = &lines[start.line];
    assert(all[start.line as int] == line@);
    let width: usize = line.as_str().unicode_len();
    let carets: usize = if start.line == end.line {
        if end.column > start.column && end.column - start.column > 1 {
            end.column - start.column
        } else {
            1
        }
    } else if width > start.column {
        width - start.column
    } else {
        0
    };
    let found: String = if start.column < width {
        let to: usize = if carets <= width - start.column {
            start.column + carets
        } else {
            width
        };
        line.as_str().substring_char(start.column, to).to_string()
    } else {
        String::new()
    };
    let two_before: String = if start.line >= 2 {
        assert(all[start.line - 2] == lines@[start.line - 2]@);
        number_line(GRAY, start.line as u128 - 1, &lines[start.line - 2])
    } else {
        String::new()
    };
    let one_before: String = if start.line >= 1 {
        assert(all[start.line - 1] == lines@[start.line - 1]@);
        number_line(GRAY, start.line as u128, &lines[start.line - 1])
    } else {
        String::new()
    };
    let ink: String = if inked(found.as_str()) {
        SPACE.to_string().concat(RED).concat(found.as_str()).concat(RESET)
    } else {
        String::new()
    };
    let after: String = if start.line < lines.len() - 1 {
        assert(all[start.line + 1] == lines@[start.line + 1]@);
        number_line(GRAY, start.line as u128 + 2, &lines[start.line + 1])
    } else {
        String::new()
    };
    NEWLINE.to_string().concat(two_before.as_str()).concat(one_before.as_str()).concat(
        number_line(BLUE, start.line as u128 + 1, line).as_str(),
    ).concat(BLUE).concat(GUTTER).concat(RESET).concat(SPACE).concat(repeat(SPACE, start.column).as_str()).concat(
        RED,
    ).concat(repeat(CARET, carets).as_str()).concat(RESET).concat(ink.as_str()).concat(NEWLINE).concat(
        after.as_str(),
    )
}

impl PonosParseError {
    /// The report on the error: headline, context, the source around the
    /// place with the error underlined, and advice.
    pub fn format(&self, source: &str, filename: &str) -> (r: String)
        ensures
            r@ == report(*self, source, filename@),
    {
        let start = byte_offset_to_location(source, self.span.start);
        let end = byte_offset_to_location(source, self.span.end);
        let head = BOLD.to_string().concat(RED).concat(TITLE).concat(RESET).concat(SPACE).concat(
            self.kind.message().as_str(),
        ).concat(IN_FILE).concat(BLUE).concat(filename).concat(COLON).concat(
            decimal(start.line as u128 + 1).as_str(),
        ).concat(COLON).concat(decimal(start.column as u128 + 1).as_str()).concat(RESET).concat(NEWLINE);
        let lines = lines_of(source);
        let body = excerpt_of(&lines, start, end);
        let foot = match self.kind.hint() {
            Some(hint) => NEWLINE.to_string().concat(BOLD).concat(YELLOW).concat(HINT_TITLE).concat(RESET).concat(
                SPACE,
            ).concat(hint.as_str()).concat(NEWLINE),
            None => String::new(),
        };
        head.concat(context_lines(&self.context).as_str()).concat(body.as_str()).concat(foot.as_str())
    }
}

} // verus!
