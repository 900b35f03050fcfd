//! From source text to tokens, one character at a time.

use vstd::prelude::*;
use vstd::utf8::{char_is_scalar, encode_scalar, encode_utf8};
use crate::number::Number;
use crate::preprocess::{chars_of, digit, ident_continue, ident_start, is_ident_continue, is_ident_start, text_of};
use crate::span::Span;
use crate::text::{blank, is_blank};
use crate::token::{
    double_symbol, escape, escape_of, keyword, keyword_of, single_symbol, symbol, symbol_pair, token_views, Keyword,
    Symbol, Token, TokenKind, TokenView,
};

verus! {

/// What the lexer is in the middle of.
#[derive(Clone, Copy, Debug, PartialEq, Eq, Structural)]
pub enum Mode {
    Normal,
    /// An identifier or a keyword.
    Word,
    Number,
    /// A string literal.
    Text,
    /// A string literal, after a backslash.
    Escape,
    LineComment,
    /// Before the `*` that opens a block comment.
    CommentOpen,
    BlockComment,
    /// Before the `/` that closes a block comment.
    CommentClose,
    /// Before the second character of a symbol of two.
    Pair,
}

/// Why a text has no tokens.
#[derive(Clone, Copy, Debug, PartialEq, Eq, Structural)]
pub enum LexFailureKind {
    /// A string literal that its line or the text ends.
    UnclosedText,
    /// A backslash before a character that it gives no meaning.
    UnknownEscape(char),
    UnclosedComment,
    /// A character that begins no token.
    Stray(char),
    /// More characters than places can be counted for.
    TooLong,
}

#[derive(Clone, Copy, Debug, PartialEq, Eq, Structural)]
pub struct LexFailure {
    pub kind: LexFailureKind,
    pub span: Span,
}

/// The state of the lexer, as mathematics.
pub struct LexView {
    pub mode: Mode,
    /// Where the token that is being read began.
    pub start: nat,
    /// Whether the number that is being read has its point.
    pub dotted: bool,
    /// What has been read of the token.
    pub text: Seq<char>,
    pub tokens: Seq<TokenView>,
}

/// The state of the lexer.
pub struct Lexer {
    pub mode: Mode,
    pub start: usize,
    pub dotted: bool,
    pub text: Vec<char>,
    pub tokens: Vec<Token>,
}

impl View for Lexer {
    type V = LexView;

    open spec fn view(&self) -> LexView {
        LexView {
            mode: self.mode,
            start: self.start as nat,
            dotted: self.dotted,
            text: self.text@,
            tokens: token_views(self.tokens@),
        }
    }
}

/// How many bytes a character takes in UTF-8.
pub open spec fn width(c: char) -> nat {
    if (c as u32) < 0x80 {
        1
    } else if (c as u32) < 0x800 {
        2
    } else if (c as u32) < 0x10000 {
        3
    } else {
        4
    }
}

/// How many bytes the first `i` characters take.
pub open spec fn offset_of(source: Seq<char>, i: nat) -> nat
    decreases i,
{
    if i == 0 || i > source.len() {
        0
    } else {
        offset_of(source, (i - 1) as nat) + width(source[i - 1])
    }
}

/// The bytes that the characters from `from` up to `to` take.
pub open spec fn covering(source: Seq<char>, from: nat, to: nat) -> Span {
    Span { start: offset_of(source, from) as usize, end: offset_of(source, to) as usize }
}

pub open spec fn at(source: Seq<char>, i: nat) -> Option<char> {
    if i < source.len() {
        Some(source[i as int])
    } else {
        None
    }
}

/// Whether a number goes on after a character of it: with a digit, or
/// with its one point where a digit follows the point.
pub open spec fn number_goes_on(next: Option<char>, after: Option<char>, dotted: bool) -> bool {
    match next {
        Some(c) => digit(c) || (c == '.' && !dotted && after is Some && digit(after->Some_0)),
        None => false,
    }
}

pub open spec fn word_goes_on(next: Option<char>) -> bool {
    next is Some && ident_continue(next->Some_0)
}

pub open spec fn word_kind(word: Seq<char>) -> TokenKind {
    match keyword_of(word) {
        Some(k) => TokenKind::Keyword(k),
        None => TokenKind::Identifier,
    }
}

/// The state after a token that ends with character `i`.
pub open spec fn emitted(source: Seq<char>, st: LexView, kind: TokenKind, text: Seq<char>, start: nat, i: nat) -> LexView {
    LexView {
        mode: Mode::Normal,
        start: st.start,
        dotted: false,
        text: Seq::empty(),
        tokens: st.tokens.push(
            TokenView { kind, text, number: Number { bits: 0 }, span: covering(source, start, i + 1) },
        ),
    }
}

/// What character `i` does where no token is being read.
pub open spec fn normal_step(source: Seq<char>, i: nat, st: LexView) -> Result<LexView, LexFailure> {
    let c = source[i as int];
    let next = at(source, i + 1);
    if blank(c) {
        Ok(st)
    } else if c == '/' && next == Some('/') {
        Ok(LexView { mode: Mode::LineComment, ..st })
    } else if c == '/' && next == Some('*') {
        Ok(LexView { mode: Mode::CommentOpen, start: i, ..st })
    } else if digit(c) {
        if number_goes_on(next, at(source, i + 2), false) {
            Ok(LexView { mode: Mode::Number, start: i, dotted: false, text: seq![c], ..st })
        } else {
            Ok(emitted(source, st, TokenKind::Number, seq![c], i, i))
        }
    } else if c == '"' {
        Ok(LexView { mode: Mode::Text, start: i, text: Seq::empty(), ..st })
    } else if ident_start(c) {
        if word_goes_on(next) {
            Ok(LexView { mode: Mode::Word, start: i, text: seq![c], ..st })
        } else {
            Ok(emitted(source, st, word_kind(seq![c]), seq![c], i, i))
        }
    } else if next is Some && double_symbol(c, next->Some_0) is Some {
        Ok(
            LexView {
                mode: Mode::Pair,
                ..emitted(
                    source,
                    st,
                    TokenKind::Symbol(double_symbol(c, next->Some_0)->Some_0),
                    seq![c, next->Some_0],
                    i,
                    i + 1,
                )
            },
        )
    } else if single_symbol(c) is Some {
        Ok(emitted(source, st, TokenKind::Symbol(single_symbol(c)->Some_0), seq![c], i, i))
    } else {
        Err(LexFailure { kind: LexFailureKind::Stray(c), span: covering(source, i, i + 1) })
    }
}

/// What character `i` does to the state.
pub open spec fn step(source: Seq<char>, i: nat, st: LexView) -> Result<LexView, LexFailure> {
    let c = source[i as int];
    let next = at(source, i + 1);
    match st.mode {
        Mode::Normal => normal_step(source, i, st),
        Mode::Word => {
            let text = st.text.push(c);
            if word_goes_on(next) {
                Ok(LexView { text, ..st })
            } else {
                Ok(emitted(source, st, word_kind(text), text, st.start, i))
            }
        },
        Mode::Number => {
            let text = st.text.push(c);
            let dotted = st.dotted || c == '.';
            if number_goes_on(next, at(source, i + 2), dotted) {
                Ok(LexView { text, dotted, ..st })
            } else {
                Ok(emitted(source, st, TokenKind::Number, text, st.start, i))
            }
        },
        Mode::Text => if c == '"' {
            Ok(emitted(source, st, TokenKind::Text, st.text, st.start, i))
        } else if c == '\n' {
            Err(LexFailure { kind: LexFailureKind::UnclosedText, span: covering(source, st.start, i) })
        } else if c == '\\' {
            Ok(LexView { mode: Mode::Escape, ..st })
        } else {
            Ok(LexView { text: st.text.push(c), ..st })
        },
        Mode::Escape => match escape_of(c) {
            Some(meant) => Ok(LexView { mode: Mode::Text, text: st.text.push(meant), ..st }),
            None => Err(
                LexFailure { kind: LexFailureKind::UnknownEscape(c), span: covering(source, (i - 1) as nat, i + 1) },
            ),
        },
        Mode::LineComment => if c == '\n' {
            Ok(LexView { mode: Mode::Normal, ..st })
        } else {
            Ok(st)
        },
        Mode::CommentOpen => Ok(LexView { mode: Mode::BlockComment, ..st }),
        Mode::BlockComment => if c == '*' && next == Some('/') {
            Ok(LexView { mode: Mode::CommentClose, ..st })
        } else {
            Ok(st)
        },
        Mode::CommentClose => Ok(LexView { mode: Mode::Normal, ..st }),
        Mode::Pair => Ok(LexView { mode: Mode::Normal, ..st }),
    }
}

/// What the end of the text makes of the state: the tokens with the end
/// marker after them, unless a string or a comment is open.
pub open spec fn finished(source: Seq<char>, st: LexView) -> Result<Seq<TokenView>, LexFailure> {
    match st.mode {
        Mode::Text | Mode::Escape => Err(
            LexFailure { kind: LexFailureKind::UnclosedText, span: covering(source, st.start, source.len()) },
        ),
        Mode::CommentOpen | Mode::BlockComment | Mode::CommentClose => Err(
            LexFailure { kind: LexFailureKind::UnclosedComment, span: covering(source, st.start, source.len()) },
        ),
        _ => Ok(
            st.tokens.push(
                TokenView {
                    kind: TokenKind::End,
                    text: Seq::empty(),
                    number: Number { bits: 0 },
                    span: covering(source, source.len(), source.len()),
                },
            ),
        ),
    }
}

/// The tokens of the text, read from character `i` on in state `st`.
pub open spec fn lexed_from(source: Seq<char>, i: nat, st: LexView) -> Result<Seq<TokenView>, LexFailure>
    decreases source.len() - i,
{
    if i >= source.len() {
        finished(source, st)
    } else {
        match step(source, i, st) {
            Ok(after) => lexed_from(source, i + 1, after),
            Err(failure) => Err(failure),
        }
    }
}

pub open spec fn initial() -> LexView {
    LexView { mode: Mode::Normal, start: 0, dotted: false, text: Seq::empty(), tokens: Seq::empty() }
}

/// The tokens of a text.
pub open spec fn lexed(source: Seq<char>) -> Result<Seq<TokenView>, LexFailure> {
    if source.len() >= usize::MAX / 4 {
        Err(LexFailure { kind: LexFailureKind::TooLong, span: Span { start: 0, end: 0 } })
    } else {
        lexed_from(source, 0, initial())
    }
}

/// Whether none of the tokens is the end marker.
pub open spec fn no_marker(tokens: Seq<TokenView>) -> bool {
    forall|k: int| 0 <= k < tokens.len() ==> (#[trigger] tokens[k]).kind != TokenKind::End
}

proof fn lemma_step_emits_no_marker(source: Seq<char>, i: nat, st: LexView)
    requires
        i < source.len(),
        no_marker(st.tokens),
    ensures
        step(source, i, st) matches Ok(after) ==> no_marker(after.tokens),
{
}

proof fn lemma_lexed_from_ends_with_marker(source: Seq<char>, i: nat, st: LexView)
    requires
        i <= source.len(),
        no_marker(st.tokens),
    ensures
        lexed_from(source, i, st) matches Ok(tokens) ==> tokens.len() > 0 && tokens.last().kind == TokenKind::End
            && no_marker(tokens.drop_last()),
    decreases source.len() - i,
{
    if i >= source.len() {
        if finished(source, st) is Ok {
            assert(finished(source, st)->Ok_0.drop_last() =~= st.tokens);
        }
    } else {
        lemma_step_emits_no_marker(source, i, st);
        match step(source, i, st) {
            Ok(after) => {
                lemma_lexed_from_ends_with_marker(source, i + 1, after);
            },
            Err(_) => {},
        }
    }
}

/// The tokens of a text end with the end marker, and it stands nowhere
/// else among them.
pub proof fn law_tokens_end_with_the_marker(source: Seq<char>)
    ensures
        lexed(source) matches Ok(tokens) ==> tokens.len() > 0 && tokens.last().kind == TokenKind::End && no_marker(
            tokens.drop_last(),
        ),
{
    if source.len() < usize::MAX / 4 {
        lemma_lexed_from_ends_with_marker(source, 0, initial());
    }
}

/// The width of a character is the number of bytes of its UTF-8
/// encoding.
pub proof fn lemma_width_is_encoded_length(c: char)
    ensures
        width(c) == encode_scalar(c as u32).len(),
{
    char_is_scalar(c);
}

proof fn lemma_encoding_of_joined_texts(a: Seq<char>, b: Seq<char>)
    ensures
        encode_utf8(a + b) == encode_utf8(a) + encode_utf8(b),
    decreases a.len(),
{
    if a.len() == 0 {
        assert(a + b =~= b);
        assert(encode_utf8(a) + encode_utf8(b) =~= encode_utf8(b));
    } else {
        lemma_encoding_of_joined_texts(a.drop_first(), b);
        assert((a + b).drop_first() =~= a.drop_first() + b);
        assert((a + b)[0] == a[0]);
        assert(encode_utf8(a + b) =~= encode_scalar(a[0] as u32) + (encode_utf8(a.drop_first()) + encode_utf8(b)));
        assert(encode_utf8(a) + encode_utf8(b) =~= encode_scalar(a[0] as u32) + (encode_utf8(a.drop_first())
            + encode_utf8(b)));
    }
}

/// The places that the lexer counts are places in the bytes of the text:
/// the first `i` characters take as many bytes as their UTF-8 encoding
/// has.
pub proof fn law_offsets_are_byte_offsets(source: Seq<char>, i: nat)
    requires
        i <= source.len(),
    ensures
        offset_of(source, i) == encode_utf8(source.take(i as int)).len(),
    decreases i,
{
    if i == 0 {
        assert(source.take(0) =~= Seq::<char>::empty());
    } else {
        law_offsets_are_byte_offsets(source, (i - 1) as nat);
        let c: char = source[i - 1];
        let before = source.take(i - 1);
        let last = seq![c];
        assert(source.take(i as int) =~= before + last);
        lemma_encoding_of_joined_texts(before, last);
        lemma_width_is_encoded_length(c);
        char_is_scalar(c);
        assert(last.drop_first() =~= Seq::<char>::empty());
        assert(encode_utf8(last.drop_first()) =~= Seq::<u8>::empty());
        assert(encode_utf8(last) == encode_scalar(last[0] as u32) + encode_utf8(last.drop_first()));
        assert(encode_utf8(last) =~= encode_scalar(c as u32));
    }
}

proof fn lemma_offset_bound(source: Seq<char>, i: nat)
    requires
        i <= source.len(),
    ensures
        offset_of(source, i) <= 4 * i,
    decreases i,
{
    if i > 0 {
        lemma_offset_bound(source, (i - 1) as nat);
    }
}

fn char_width(c: char) -> (r: usize)
    ensures
        r == width(c),
        1 <= r <= 4,
{
    let n: u32 = c as u32;
    if n < 0x80 {
        1
    } else if n < 0x800 {
        2
    } else if n < 0x10000 {
        3
    } else {
        4
    }
}

/// Where each character begins, in bytes, and where the text ends.
fn offsets_of(chars: &Vec<char>) -> (r: Vec<usize>)
    requires
        chars.len() * 4 < usize::MAX,
    ensures
        r.len() == chars.len() + 1,
        forall|i: int| 0 <= i <= chars.len() ==> r[i] == offset_of(chars@, i as nat),
{
    let mut offsets: Vec<usize> = Vec::new();
    offsets.push(0);
    let mut i: usize = 0;
    let mut offset: usize = 0;
    while i < chars.len()
        invariant
            i <= chars.len(),
            chars.len() * 4 < usize::MAX,
            offsets.len() == i + 1,
            offset == offset_of(chars@, i as nat),
            offset <= 4 * i,
            forall|k: int| 0 <= k <= i ==> offsets[k] == offset_of(chars@, k as nat),
        decreases chars.len() - i,
    {
        offset = offset + char_width(chars[i]);
        i = i + 1;
        offsets.push(offset);
    }
    offsets
}

fn cover(chars: &Vec<char>, offsets: &Vec<usize>, from: usize, to: usize) -> (r: Span)
    requires
        from <= chars.len(),
        to <= chars.len(),
        offsets.len() == chars.len() + 1,
        forall|i: int| 0 <= i <= chars.len() ==> offsets[i] == offset_of(chars@, i as nat),
    ensures
        r == covering(chars@, from as nat, to as nat),
{
    Span { start: offsets[from], end: offsets[to] }
}

fn peek(chars: &Vec<char>, i: usize) -> (r: Option<char>)
    ensures
        r == at(chars@, i as nat),
{
    if i < chars.len() {
        Some(chars[i])
    } else {
        None
    }
}

fn goes_on(chars: &Vec<char>, i: usize, dotted: bool) -> (r: bool)
    requires
        i < chars.len(),
    ensures
        r == number_goes_on(at(chars@, (i + 1) as nat), at(chars@, (i + 2) as nat), dotted),
{
    if i + 1 >= chars.len() {
        return false;
    }
    let c = chars[i + 1];
    if '0' <= c && c <= '9' {
        true
    } else if c == '.' && !dotted {
        match peek(chars, i + 2) {
            Some(d) => '0' <= d && d <= '9',
            None => false,
        }
    } else {
        false
    }
}

fn continues(chars: &Vec<char>, i: usize) -> (r: bool)
    requires
        i < chars.len(),
    ensures
        r == word_goes_on(at(chars@, (i + 1) as nat)),
{
    match peek(chars, i + 1) {
        Some(c) => is_ident_continue(c),
        None => false,
    }
}

fn emit(
    chars: &Vec<char>,
    offsets: &Vec<usize>,
    st: Lexer,
    kind: TokenKind,
    text: &Vec<char>,
    start: usize,
    i: usize,
) -> (r: Lexer)
    requires
        start <= chars.len(),
        i < chars.len(),
        offsets.len() == chars.len() + 1,
        forall|i: int| 0 <= i <= chars.len() ==> offsets[i] == offset_of(chars@, i as nat),
    ensures
        r@ == emitted(chars@, st@, kind, text@, start as nat, i as nat),
{
    let mut st = st;
    let ghost before = token_views(st.tokens@);
    let token = Token {
        kind,
        text: text_of(text),
        number: Number { bits: 0 },
        span: cover(chars, offsets, start, i + 1),
    };
    st.tokens.push(token);
    st.mode = Mode::Normal;
    st.dotted = false;
    st.text = Vec::new();
    assert(token_views(st.tokens@) =~= before.push(token@));
    st
}

fn emit_word(chars: &Vec<char>, offsets: &Vec<usize>, st: Lexer, text: &Vec<char>, start: usize, i: usize) -> (r:
    Lexer)
    requires
        start <= chars.len(),
        i < chars.len(),
        offsets.len() == chars.len() + 1,
        forall|i: int| 0 <= i <= chars.len() ==> offsets[i] == offset_of(chars@, i as nat),
    ensures
        r@ == emitted(chars@, st@, word_kind(text@), text@, start as nat, i as nat),
{
    let word = text_of(text);
    let kind = match keyword(&word) {
        Some(k) => TokenKind::Keyword(k),
        None => TokenKind::Identifier,
    };
    emit(chars, offsets, st, kind, text, start, i)
}

fn one(c: char) -> (r: Vec<char>)
    ensures
        r@ == seq![c],
{
    let mut text: Vec<char> = Vec::new();
    text.push(c);
    text
}

fn step_normal(chars: &Vec<char>, offsets: &Vec<usize>, i: usize, st: Lexer) -> (r: Result<Lexer, LexFailure>)
    requires
        i < chars.len(),
        offsets.len() == chars.len() + 1,
        forall|i: int| 0 <= i <= chars.len() ==> offsets[i] == offset_of(chars@, i as nat),
    ensures
        match r {
            Ok(after) => normal_step(chars@, i as nat, st@) == Ok::<LexView, LexFailure>(after@),
            Err(failure) => normal_step(chars@, i as nat, st@) == Err::<LexView, LexFailure>(failure),
        },
{
    let mut st = st;
    let c = chars[i];
    let next = peek(chars, i + 1);
    if is_blank(c) {
        Ok(st)
    } else if c == '/' && next == Some('/') {
        st.mode = Mode::LineComment;
        Ok(st)
    } else if c == '/' && next == Some('*') {
        st.mode = Mode::CommentOpen;
        st.start = i;
        Ok(st)
    } else if '0' <= c && c <= '9' {
        let text = one(c);
        if goes_on(chars, i, false) {
            st.mode = Mode::Number;
            st.start = i;
            st.dotted = false;
            st.text = text;
            Ok(st)
        } else {
            Ok(emit(chars, offsets, st, TokenKind::Number, &text, i, i))
        }
    } else if c == '"' {
        st.mode = Mode::Text;
        st.start = i;
        st.text = Vec::new();
        Ok(st)
    } else if is_ident_start(c) {
        let text = one(c);
        if continues(chars, i) {
            st.mode = Mode::Word;
            st.start = i;
            st.text = text;
            Ok(st)
        } else {
            Ok(emit_word(chars, offsets, st, &text, i, i))
        }
    } else {
        let pair: Option<(Symbol, char)> = match next {
            Some(n) => match symbol_pair(c, n) {
                Some(s) => Some((s, n)),
                None => None,
            },
            None => None,
        };
        match pair {
            Some((s, n)) => {
                let mut text = one(c);
                text.push(n);
                assert(text@ =~= seq![c, n]);
                let mut after = emit(chars, offsets, st, TokenKind::Symbol(s), &text, i, i + 1);
                after.mode = Mode::Pair;
                Ok(after)
            },
            None => match symbol(c) {
                Some(s) => {
                    let text = one(c);
                    Ok(emit(chars, offsets, st, TokenKind::Symbol(s), &text, i, i))
                },
                None => Err(LexFailure { kind: LexFailureKind::Stray(c), span: cover(chars, offsets, i, i + 1) }),
            },
        }
    }
}

fn step_on(chars: &Vec<char>, offsets: &Vec<usize>, i: usize, st: Lexer) -> (r: Result<Lexer, LexFailure>)
    requires
        i < chars.len(),
        st.start <= i,
        st.mode is Escape ==> i > 0,
        offsets.len() == chars.len() + 1,
        forall|i: int| 0 <= i <= chars.len() ==> offsets[i] == offset_of(chars@, i as nat),
    ensures
        match r {
            Ok(after) => step(chars@, i as nat, st@) == Ok::<LexView, LexFailure>(after@) && after.start <= i,
            Err(failure) => step(chars@, i as nat, st@) == Err::<LexView, LexFailure>(failure),
        },
{
    let mut st = st;
    let c = chars[i];
    let next = peek(chars, i + 1);
    match st.mode {
        Mode::Normal => {
            let r = step_normal(chars, offsets, i, st);
            proof {
                if r is Ok {
                    assert(r->Ok_0@.start == st@.start || r->Ok_0@.start == i);
                }
            }
            r
        },
        Mode::Word => {
            st.text.push(c);
            if continues(chars, i) {
                Ok(st)
            } else {
                let text = st.text.clone();
                let start = st.start;
                Ok(emit_word(chars, offsets, st, &text, start, i))
            }
        },
        Mode::Number => {
            st.text.push(c);
            st.dotted = st.dotted || c == '.';
            if goes_on(chars, i, st.dotted) {
                Ok(st)
            } else {
                let text = st.text.clone();
                let start = st.start;
                Ok(emit(chars, offsets, st, TokenKind::Number, &text, start, i))
            }
        },
        Mode::Text => {
            if c == '"' {
                let text = st.text.clone();
                let start = st.start;
                Ok(emit(chars, offsets, st, TokenKind::Text, &text, start, i))
            } else if c == '\n' {
                Err(LexFailure { kind: LexFailureKind::UnclosedText, span: cover(chars, offsets, st.start, i) })
            } else if c == '\\' {
                st.mode = Mode::Escape;
                Ok(st)
            } else {
                st.text.push(c);
                Ok(st)
            }
        },
        Mode::Escape => match escape(c) {
            Some(meant) => {
                st.mode = Mode::Text;
                st.text.push(meant);
                Ok(st)
            },
            None => Err(
                LexFailure { kind: LexFailureKind::UnknownEscape(c), span: cover(chars, offsets, i - 1, i + 1) },
            ),
        },
        Mode::LineComment => {
            if c == '\n' {
                st.mode = Mode::Normal;
            }
            Ok(st)
        },
        Mode::CommentOpen => {
            st.mode = Mode::BlockComment;
            Ok(st)
        },
        Mode::BlockComment => {
            if c == '*' && next == Some('/') {
                st.mode = Mode::CommentClose;
            }
            Ok(st)
        },
        Mode::CommentClose => {
            st.mode = Mode::Normal;
            Ok(st)
        },
        Mode::Pair => {
            st.mode = Mode::Normal;
            Ok(st)
        },
    }
}

fn finish(chars: &Vec<char>, offsets: &Vec<usize>, st: Lexer) -> (r: Result<Vec<Token>, LexFailure>)
    requires
        st.start <= chars.len(),
        offsets.len() == chars.len() + 1,
        forall|i: int| 0 <= i <= chars.len() ==> offsets[i] == offset_of(chars@, i as nat),
    ensures
        match r {
            Ok(tokens) => finished(chars@, st@) == Ok::<Seq<TokenView>, LexFailure>(token_views(tokens@)),
            Err(failure) => finished(chars@, st@) == Err::<Seq<TokenView>, LexFailure>(failure),
        },
{
    let n: usize = chars.len();
    match st.mode {
        Mode::Text | Mode::Escape => Err(
            LexFailure { kind: LexFailureKind::UnclosedText, span: cover(chars, offsets, st.start, n) },
        ),
        Mode::CommentOpen | Mode::BlockComment | Mode::CommentClose => Err(
            LexFailure { kind: LexFailureKind::UnclosedComment, span: cover(chars, offsets, st.start, n) },
        ),
        _ => {
            let mut tokens = st.tokens;
            let ghost before = token_views(tokens@);
            let token = Token {
                kind: TokenKind::End,
                text: String::new(),
                number: Number { bits: 0 },
                span: cover(chars, offsets, n, n),
            };
            tokens.push(token);
            assert(token@.text =~= Seq::empty());
            assert(token_views(tokens@) =~= before.push(token@));
            Ok(tokens)
        },
    }
}

/// The tokens of a text, the end marker last.
pub fn lex(source: &str) -> (r: Result<Vec<Token>, LexFailure>)
    ensures
        match r {
            Ok(tokens) => lexed(source@) == Ok::<Seq<TokenView>, LexFailure>(token_views(tokens@)),
            Err(failure) => lexed(source@) == Err::<Seq<TokenView>, LexFailure>(failure),
        },
{
    let chars = chars_of(source);
    if chars.len() >= usize::MAX / 4 {
        return Err(LexFailure { kind: LexFailureKind::TooLong, span: Span { start: 0, end: 0 } });
    }
    let offsets = offsets_of(&chars);
    let mut st = Lexer { mode: Mode::Normal, start: 0, dotted: false, text: Vec::new(), tokens: Vec::new() };
    assert(st@.tokens =~= Seq::empty());
    assert(st@ == initial());
    let mut i: usize = 0;
    while i < chars.len()
        invariant
            i <= chars.len(),
            chars.len() < usize::MAX / 4,
            chars@ == source@,
            st.start <= i,
            st.mode is Escape ==> i > 0,
            offsets.len() == chars.len() + 1,
            forall|k: int| 0 <= k <= chars.len() ==> offsets[k] == offset_of(chars@, k as nat),
            lexed_from(chars@, i as nat, st@) == lexed_from(chars@, 0, initial()),
        decreases chars.len() - i,
    {
        match step_on(&chars, &offsets, i, st) {
            Ok(after) => {
                st = after;
            },
            Err(failure) => {
                return Err(failure);
            },
        }
        i = i + 1;
    }
    finish(&chars, &offsets, st)
}

} // verus!
