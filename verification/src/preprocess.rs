//! Semicolons that need not be written: before a line feed that follows a
//! complete token, one is put in.

use vstd::prelude::*;
use vstd::string::StrSliceExecFns;
use crate::text::{blank, is_blank};

verus! {

/// Whether a character is a letter, as `char::is_alphabetic` decides.
pub uninterp spec fn alphabetic(c: char) -> bool;

/// Whether a character is a letter or a digit, as `char::is_alphanumeric`
/// decides.
pub uninterp spec fn alphanumeric(c: char) -> bool;

/// `char::is_alphabetic`. The contract only names its answer.
#[verifier::external_body]
fn is_alphabetic(c: char) -> (r: bool)
    ensures
        r == alphabetic(c),
{
    c.is_alphabetic()
}

/// `char::is_alphanumeric`. The contract only names its answer.
#[verifier::external_body]
fn is_alphanumeric(c: char) -> (r: bool)
    ensures
        r == alphanumeric(c),
{
    c.is_alphanumeric()
}

/// The characters of a text, as `str::chars` gives them.
#[verifier::external_body]
pub(crate) fn chars_of(text: &str) -> (r: Vec<char>)
    ensures
        r@ == text@,
{
    text.chars().collect()
}

/// The text that characters make, as collecting them into a `String`
/// gives it.
#[verifier::external_body]
pub(crate) fn text_of(chars: &Vec<char>) -> (r: String)
    ensures
        r@ == chars@,
{
    chars.iter().collect()
}

/// Whether an identifier can begin with the character.
pub open spec fn ident_start(c: char) -> bool {
    alphabetic(c) || c == '_'
}

/// Whether an identifier can go on with the character.
pub open spec fn ident_continue(c: char) -> bool {
    alphanumeric(c) || c == '_'
}

pub open spec fn digit(c: char) -> bool {
    '0' <= c <= '9'
}

pub fn is_ident_start(c: char) -> (r: bool)
    ensures
        r == ident_start(c),
{
    is_alphabetic(c) || c == '_'
}

pub fn is_ident_continue(c: char) -> (r: bool)
    ensures
        r == ident_continue(c),
{
    is_alphanumeric(c) || c == '_'
}

fn is_digit(c: char) -> (r: bool)
    ensures
        r == digit(c),
{
    '0' <= c && c <= '9'
}

/// How the last token of a line ended.
#[derive(Clone, Copy, Debug, PartialEq, Eq, Structural)]
pub enum LastTokenEnd {
    Nothing,
    Identifier,
    Number,
    Text,
    /// One of `)`, `]`, `}`.
    CloseDelim,
    Other(char),
}

/// What the scan is in the middle of.
#[derive(Clone, Copy, Debug, PartialEq, Eq, Structural)]
pub enum Mode {
    Normal,
    /// A string literal; `escaped` after a backslash.
    Text { escaped: bool },
    LineComment,
    BlockComment,
    /// An identifier or keyword.
    Word,
    /// A number.
    Digits,
}

/// The state of the scan, as mathematics.
pub struct ScanView {
    pub mode: Mode,
    pub last_end: LastTokenEnd,
    /// Whether a keyword that opens a block stands on the line.
    pub block_header: bool,
    pub last_ident: Option<Seq<char>>,
    /// The identifier that is being read.
    pub word: Seq<char>,
}

pub const KW_IF: &'static str = "если";
pub const KW_ELSE: &'static str = "иначе";
pub const KW_WHILE: &'static str = "пока";
pub const KW_TRY: &'static str = "попытка";
pub const KW_CATCH: &'static str = "перехват";
pub const KW_FUNC: &'static str = "функ";
pub const KW_CONSTRUCTOR: &'static str = "конструктор";
pub const KW_CLASS: &'static str = "класс";
pub const KW_INTERFACE: &'static str = "интерфейс";
pub const KW_ANNOTATION: &'static str = "аннотация";
pub const KW_END: &'static str = "конец";

/// Whether a word opens a block.
pub open spec fn opens_block(word: Seq<char>) -> bool {
    word == KW_IF@ || word == KW_ELSE@ || word == KW_WHILE@ || word == KW_TRY@ || word == KW_CATCH@ || word
        == KW_FUNC@ || word == KW_CONSTRUCTOR@ || word == KW_CLASS@ || word == KW_INTERFACE@ || word
        == KW_ANNOTATION@
}

/// Whether no semicolon is put behind a word.
pub open spec fn ends_no_statement(word: Seq<char>) -> bool {
    word == KW_END@ || opens_block(word)
}

/// Whether a token that ends in this punctuation leaves the statement
/// open.
pub open spec fn continues_line(c: char) -> bool {
    c == ';' || c == '(' || c == '[' || c == '{' || c == ',' || c == '.' || c == '+' || c == '-' || c == '*'
        || c == '/' || c == '%' || c == '<' || c == '>' || c == '=' || c == '!' || c == '&' || c == '|' || c
        == ':'
}

/// Whether a semicolon is put in before the line feed.
pub open spec fn should_insert(st: ScanView) -> bool {
    if st.block_header {
        false
    } else if st.last_ident matches Some(word) && ends_no_statement(word) {
        false
    } else {
        match st.last_end {
            LastTokenEnd::Nothing => false,
            LastTokenEnd::Other(c) => !continues_line(c),
            _ => true,
        }
    }
}

/// The state at the start of a text and of every line.
pub open spec fn start_of_line(mode: Mode) -> ScanView {
    ScanView { mode, last_end: LastTokenEnd::Nothing, block_header: false, last_ident: None, word: Seq::empty() }
}

/// The state after the token that was being read has ended.
pub open spec fn token_ended(st: ScanView) -> ScanView {
    match st.mode {
        Mode::Word => ScanView {
            mode: Mode::Normal,
            last_end: LastTokenEnd::Identifier,
            block_header: st.block_header || opens_block(st.word),
            last_ident: Some(st.word),
            word: Seq::empty(),
        },
        Mode::Digits => ScanView { mode: Mode::Normal, last_end: LastTokenEnd::Number, last_ident: None, ..st },
        _ => st,
    }
}

/// One step of the scan outside any token: the state after it, what it
/// writes, and how many characters it reads.
pub open spec fn normal_step(st: ScanView, c: char, next: Option<char>) -> (ScanView, Seq<char>, nat) {
    if c == '"' {
        (ScanView { mode: Mode::Text { escaped: false }, last_end: LastTokenEnd::Text, ..st }, seq![c], 1)
    } else if c == '/' && next == Some('/') {
        (ScanView { mode: Mode::LineComment, ..st }, seq!['/', '/'], 2)
    } else if c == '/' && next == Some('*') {
        (ScanView { mode: Mode::BlockComment, ..st }, seq!['/', '*'], 2)
    } else if c == '\n' {
        (
            start_of_line(Mode::Normal),
            if should_insert(st) {
                seq![';', '\n']
            } else {
                seq!['\n']
            },
            1,
        )
    } else if ident_start(c) {
        (ScanView { mode: Mode::Word, word: seq![c], ..st }, seq![c], 1)
    } else if digit(c) {
        (ScanView { mode: Mode::Digits, ..st }, seq![c], 1)
    } else if blank(c) {
        (st, seq![c], 1)
    } else {
        (
            ScanView {
                last_end: if c == ')' || c == ']' || c == '}' {
                    LastTokenEnd::CloseDelim
                } else {
                    LastTokenEnd::Other(c)
                },
                last_ident: None,
                ..st
            },
            seq![c],
            1,
        )
    }
}

/// One step of the scan.
pub open spec fn step(st: ScanView, c: char, next: Option<char>) -> (ScanView, Seq<char>, nat) {
    match st.mode {
        Mode::Normal => normal_step(st, c, next),
        Mode::Text { escaped } => (
            ScanView {
                mode: if escaped {
                    Mode::Text { escaped: false }
                } else if c == '\\' {
                    Mode::Text { escaped: true }
                } else if c == '"' {
                    Mode::Normal
                } else {
                    st.mode
                },
                ..st
            },
            seq![c],
            1,
        ),
        Mode::LineComment => if c == '\n' {
            (
                start_of_line(Mode::Normal),
                if should_insert(st) {
                    seq![';', '\n']
                } else {
                    seq!['\n']
                },
                1,
            )
        } else {
            (st, seq![c], 1)
        },
        Mode::BlockComment => if c == '*' && next == Some('/') {
            (ScanView { mode: Mode::Normal, ..st }, seq!['*', '/'], 2)
        } else {
            (st, seq![c], 1)
        },
        Mode::Word => if ident_continue(c) {
            (ScanView { word: st.word.push(c), ..st }, seq![c], 1)
        } else {
            normal_step(token_ended(st), c, next)
        },
        Mode::Digits => if digit(c) || c == '.' {
            (st, seq![c], 1)
        } else {
            normal_step(token_ended(st), c, next)
        },
    }
}

pub open spec fn next_char(source: Seq<char>, i: int) -> Option<char> {
    if i + 1 < source.len() {
        Some(source[i + 1])
    } else {
        None
    }
}

/// What the scan writes from place `i` on.
pub open spec fn scanned(source: Seq<char>, i: nat, st: ScanView) -> Seq<char>
    decreases source.len() - i,
{
    if i >= source.len() {
        Seq::empty()
    } else {
        let (after, written, read) = step(st, source[i as int], next_char(source, i as int));
        if read == 0 {
            written
        } else {
            written + scanned(source, i + read, after)
        }
    }
}

/// The text with the semicolons put in that need not be written.
pub open spec fn with_semicolons(source: Seq<char>) -> Seq<char> {
    scanned(source, 0, start_of_line(Mode::Normal))
}

/// The state of the scan.
pub struct Scan {
    pub mode: Mode,
    pub last_end: LastTokenEnd,
    pub block_header: bool,
    pub last_ident: Option<Vec<char>>,
    pub word: Vec<char>,
}

impl View for Scan {
    type V = ScanView;

    open spec fn view(&self) -> ScanView {
        ScanView {
            mode: self.mode,
            last_end: self.last_end,
            block_header: self.block_header,
            last_ident: match self.last_ident {
                Some(word) => Some(word@),
                None => None,
            },
            word: self.word@,
        }
    }
}

fn word_is(word: &Vec<char>, keyword: &str) -> (r: bool)
    ensures
        r == (word@ == keyword@),
{
    let n: usize = keyword.unicode_len();
    if word.len() != n {
        return false;
    }
    let mut i: usize = 0;
    while i < n
        invariant
            i <= n,
            n == keyword@.len(),
            n == word@.len(),
            forall|j: int| 0 <= j < i ==> word@[j] == keyword@[j],
        decreases n - i,
    {
        if word[i] != keyword.get_char(i) {
            return false;
        }
        i = i + 1;
    }
    assert(word@ =~= keyword@);
    true
}

fn word_opens_block(word: &Vec<char>) -> (r: bool)
    ensures
        r == opens_block(word@),
{
    word_is(word, KW_IF) || word_is(word, KW_ELSE) || word_is(word, KW_WHILE) || word_is(word, KW_TRY) || word_is(
        word,
        KW_CATCH,
    ) || word_is(word, KW_FUNC) || word_is(word, KW_CONSTRUCTOR) || word_is(word, KW_CLASS) || word_is(
        word,
        KW_INTERFACE,
    ) || word_is(word, KW_ANNOTATION)
}

fn punctuation_continues(c: char) -> (r: bool)
    ensures
        r == continues_line(c),
{
    c == ';' || c == '(' || c == '[' || c == '{' || c == ',' || c == '.' || c == '+' || c == '-' || c == '*'
        || c == '/' || c == '%' || c == '<' || c == '>' || c == '=' || c == '!' || c == '&' || c == '|' || c
        == ':'
}

impl Scan {
    fn new() -> (r: Scan)
        ensures
            r@ == start_of_line(Mode::Normal),
    {
        Scan {
            mode: Mode::Normal,
            last_end: LastTokenEnd::Nothing,
            block_header: false,
            last_ident: None,
            word: Vec::new(),
        }
    }

    fn wants_semicolon(&self) -> (r: bool)
        ensures
            r == should_insert(self@),
    {
        if self.block_header {
            return false;
        }
        match &self.last_ident {
            Some(word) => {
                if word_is(word, KW_END) || word_opens_block(word) {
                    return false;
                }
            },
            None => {},
        }
        match self.last_end {
            LastTokenEnd::Nothing => false,
            LastTokenEnd::Other(c) => !punctuation_continues(c),
            _ => true,
        }
    }

    fn end_token(&mut self)
        ensures
            final(self)@ == token_ended(old(self)@),
    {
        match self.mode {
            Mode::Word => {
                let mut word: Vec<char> = Vec::new();
                std::mem::swap(&mut self.word, &mut word);
                if word_opens_block(&word) {
                    self.block_header = true;
                }
                self.last_ident = Some(word);
                self.last_end = LastTokenEnd::Identifier;
                self.mode = Mode::Normal;
            },
            Mode::Digits => {
                self.last_end = LastTokenEnd::Number;
                self.last_ident = None;
                self.mode = Mode::Normal;
            },
            _ => {},
        }
    }

    fn end_line(&mut self, out: &mut Vec<char>)
        ensures
            final(self)@ == start_of_line(Mode::Normal),
            final(out)@ == old(out)@ + (if should_insert(old(self)@) {
                seq![';', '\n']
            } else {
                seq!['\n']
            }),
    {
        if self.wants_semicolon() {
            out.push(';');
        }
        out.push('\n');
        self.mode = Mode::Normal;
        self.last_end = LastTokenEnd::Nothing;
        self.block_header = false;
        self.last_ident = None;
        self.word = Vec::new();
        assert(out@ =~= old(out)@ + (if should_insert(old(self)@) {
            seq![';', '\n']
        } else {
            seq!['\n']
        }));
    }

    fn normal_step(&mut self, c: char, next: Option<char>, out: &mut Vec<char>) -> (read: usize)
        ensures
            (final(self)@, final(out)@.skip(old(out)@.len() as int), read as nat) == normal_step(
                old(self)@,
                c,
                next,
            ),
            final(out)@.take(old(out)@.len() as int) == old(out)@,
            old(out)@.len() <= final(out)@.len(),
            1 <= read <= 2,
            read == 2 ==> next is Some,
    {
        let ghost before = out@;
        if c == '"' {
            out.push(c);
            self.mode = Mode::Text { escaped: false };
            self.last_end = LastTokenEnd::Text;
            assert(out@.skip(before.len() as int) =~= seq![c]);
            assert(out@.take(before.len() as int) =~= before);
            return 1;
        }
        let slash: bool = match next {
            Some(n) => c == '/' && n == '/',
            None => false,
        };
        if slash {
            out.push('/');
            out.push('/');
            self.mode = Mode::LineComment;
            assert(out@.skip(before.len() as int) =~= seq!['/', '/']);
            assert(out@.take(before.len() as int) =~= before);
            return 2;
        }
        let star: bool = match next {
            Some(n) => c == '/' && n == '*',
            None => false,
        };
        if star {
            out.push('/');
            out.push('*');
            self.mode = Mode::BlockComment;
            assert(out@.skip(before.len() as int) =~= seq!['/', '*']);
            assert(out@.take(before.len() as int) =~= before);
            return 2;
        }
        if c == '\n' {
            self.end_line(out);
            assert(out@.skip(before.len() as int) =~= (if should_insert(old(self)@) {
                seq![';', '\n']
            } else {
                seq!['\n']
            }));
            assert(out@.take(before.len() as int) =~= before);
            return 1;
        }
        if is_ident_start(c) {
            self.mode = Mode::Word;
            let mut word: Vec<char> = Vec::new();
            word.push(c);
            self.word = word;
            assert(self.word@ =~= seq![c]);
        } else if is_digit(c) {
            self.mode = Mode::Digits;
        } else if is_blank(c) {
        } else {
            self.last_end = if c == ')' || c == ']' || c == '}' {
                LastTokenEnd::CloseDelim
            } else {
                LastTokenEnd::Other(c)
            };
            self.last_ident = None;
        }
        out.push(c);
        assert(out@.skip(before.len() as int) =~= seq![c]);
        assert(out@.take(before.len() as int) =~= before);
        1
    }

    fn step(&mut self, c: char, next: Option<char>, out: &mut Vec<char>) -> (read: usize)
        ensures
            (final(self)@, final(out)@.skip(old(out)@.len() as int), read as nat) == step(old(self)@, c, next),
            final(out)@.take(old(out)@.len() as int) == old(out)@,
            old(out)@.len() <= final(out)@.len(),
            1 <= read <= 2,
            read == 2 ==> next is Some,
    {
        let ghost before = out@;
        match self.mode {
            Mode::Normal => self.normal_step(c, next, out),
            Mode::Text { escaped } => {
                if escaped {
                    self.mode = Mode::Text { escaped: false };
                } else if c == '\\' {
                    self.mode = Mode::Text { escaped: true };
                } else if c == '"' {
                    self.mode = Mode::Normal;
                }
                out.push(c);
                assert(out@.skip(before.len() as int) =~= seq![c]);
                assert(out@.take(before.len() as int) =~= before);
                1
            },
            Mode::LineComment => {
                if c == '\n' {
                    self.end_line(out);
                    assert(out@.skip(before.len() as int) =~= (if should_insert(old(self)@) {
                        seq![';', '\n']
                    } else {
                        seq!['\n']
                    }));
                } else {
                    out.push(c);
                    assert(out@.skip(before.len() as int) =~= seq![c]);
                }
                assert(out@.take(before.len() as int) =~= before);
                1
            },
            Mode::BlockComment => {
                let closes: bool = match next {
                    Some(n) => c == '*' && n == '/',
                    None => false,
                };
                if closes {
                    out.push('*');
                    out.push('/');
                    self.mode = Mode::Normal;
                    assert(out@.skip(before.len() as int) =~= seq!['*', '/']);
                    assert(out@.take(before.len() as int) =~= before);
                    2
                } else {
                    out.push(c);
                    assert(out@.skip(before.len() as int) =~= seq![c]);
                    assert(out@.take(before.len() as int) =~= before);
                    1
                }
            },
            Mode::Word => {
                if is_ident_continue(c) {
                    self.word.push(c);
                    out.push(c);
                    assert(out@.skip(before.len() as int) =~= seq![c]);
                    assert(out@.take(before.len() as int) =~= before);
                    1
                } else {
                    self.end_token();
                    self.normal_step(c, next, out)
                }
            },
            Mode::Digits => {
                if is_digit(c) || c == '.' {
                    out.push(c);
                    assert(out@.skip(before.len() as int) =~= seq![c]);
                    assert(out@.take(before.len() as int) =~= before);
                    1
                } else {
                    self.end_token();
                    self.normal_step(c, next, out)
                }
            },
        }
    }
}

/// Puts in the semicolons that need not be written: before a line feed,
/// where the line ends in an identifier, a number, a string or a closing
/// bracket, or in punctuation that cannot go on, and holds no keyword
/// that opens a block or ends one. Strings and comments are passed over.
pub fn preprocess_semicolons(source: &str) -> (r: String)
    ensures
        r@ == with_semicolons(source@),
{
    let chars = chars_of(source);
    let mut out: Vec<char> = Vec::new();
    let mut scan = Scan::new();
    let mut i: usize = 0;
    while i < chars.len()
        invariant
            i <= chars.len(),
            chars@ == source@,
            out@ + scanned(chars@, i as nat, scan@) == with_semicolons(source@),
        decreases chars.len() - i,
    {
        let ghost before = out@;
        let next: Option<char> = if i + 1 < chars.len() {
            Some(chars[i + 1])
        } else {
            None
        };
        let read: usize = scan.step(chars[i], next, &mut out);
        proof {
            let written = out@.skip(before.len() as int);
            assert(out@ =~= before + written);
            assert(before + (written + scanned(chars@, (i + read) as nat, scan@)) =~= (before + written) + scanned(
                chars@,
                (i + read) as nat,
                scan@,
            ));
        }
        i = i + read;
    }
    assert(scanned(chars@, i as nat, scan@) =~= Seq::empty());
    assert(out@ + Seq::<char>::empty() =~= out@);
    text_of(&out)
}

} // verus!
