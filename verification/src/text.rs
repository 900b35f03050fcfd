use vstd::prelude::*;
use vstd::string::{StrSliceExecFns, StringExecFns};
use crate::heap::text_views;
use crate::model::{first_ink, last_ink, lowercased, replaced, split_pieces, trimmed, uppercased};

verus! {

/// `str::split` with a string as the pattern, the pieces made owned
/// strings. The contract only names the pieces that std documents: the
/// substrings of `text` that the matches of `separator` set apart, in order.
#[verifier::external_body]
pub(crate) fn split_text(text: &String, separator: &String) -> (pieces: Vec<String>)
    ensures
        text_views(pieces@) == split_pieces(text@, separator@),
{
    text.split(separator.as_str()).map(|piece| piece.to_string()).collect()
}

/// The lines of a text, as `str::lines` gives them: split at line feeds, a
/// carriage return before the line feed dropped with it, and no empty line
/// for a line feed that ends the text.
pub uninterp spec fn source_lines(source: Seq<char>) -> Seq<Seq<char>>;

/// Whether a character is white space, as `char::is_whitespace` decides.
pub uninterp spec fn blank(c: char) -> bool;

/// `str::lines`, the lines made owned strings. The contract only names the
/// lines.
#[verifier::external_body]
pub(crate) fn lines_of(source: &str) -> (lines: Vec<String>)
    ensures
        text_views(lines@) == source_lines(source@),
{
    source.lines().map(|line| line.to_string()).collect()
}

/// `char::is_whitespace`. The contract only names its answer.
#[verifier::external_body]
pub(crate) fn is_blank(c: char) -> (r: bool)
    ensures
        r == blank(c),
{
    c.is_whitespace()
}

/// `piece` written `n` times.
pub open spec fn repeated(piece: Seq<char>, n: nat) -> Seq<char>
    decreases n,
{
    if n == 0 {
        Seq::empty()
    } else {
        repeated(piece, (n - 1) as nat) + piece
    }
}

/// `piece` written `n` times.
pub fn repeat(piece: &str, n: usize) -> (r: String)
    ensures
        r@ == repeated(piece@, n as nat),
{
    let mut r = String::new();
    let mut i: usize = 0;
    while i < n
        invariant
            i <= n,
            r@ == repeated(piece@, i as nat),
        decreases n - i,
    {
        r = r.concat(piece);
        i = i + 1;
    }
    r
}

/// Whether some character of `text` is not white space.
pub open spec fn has_ink(text: Seq<char>) -> bool {
    exists|i: int| 0 <= i < text.len() && !blank(#[trigger] text[i])
}

/// Whether some character of `text` is not white space.
pub fn inked(text: &str) -> (r: bool)
    ensures
        r == has_ink(text@),
{
    let n: usize = text.unicode_len();
    let mut i: usize = 0;
    while i < n
        invariant
            i <= n,
            n == text@.len(),
            forall|j: int| 0 <= j < i ==> blank(#[trigger] text@[j]),
        decreases n - i,
    {
        if !is_blank(text.get_char(i)) {
            return true;
        }
        i = i + 1;
    }
    false
}

/// The text without the white space at its two ends.
pub(crate) fn trim_text(text: &String) -> (r: String)
    ensures
        r@ == trimmed(text@),
{
    let chars = crate::preprocess::chars_of(text.as_str());
    let n: usize = chars.len();
    let mut from: usize = 0;
    while from < n && is_blank(chars[from])
        invariant
            from <= n,
            n == chars@.len(),
            chars@ == text@,
            first_ink(chars@, 0) == first_ink(chars@, from as nat),
        decreases n - from,
    {
        from = from + 1;
    }
    let mut kept: Vec<char> = Vec::new();
    if from >= n {
        return crate::preprocess::text_of(&kept);
    }
    let mut to: usize = n;
    while to > from && is_blank(chars[to - 1])
        invariant
            from <= to <= n,
            n == chars@.len(),
            last_ink(chars@, n as nat, from as nat) == last_ink(chars@, to as nat, from as nat),
        decreases to,
    {
        to = to - 1;
    }
    let mut i: usize = from;
    while i < to
        invariant
            from <= i <= to <= n,
            n == chars@.len(),
            kept@ == chars@.subrange(from as int, i as int),
        decreases to - i,
    {
        kept.push(chars[i]);
        assert(kept@ =~= chars@.subrange(from as int, i + 1));
        i = i + 1;
    }
    crate::preprocess::text_of(&kept)
}

/// `str::replace` with strings as pattern and replacement. The contract
/// only names the result.
#[verifier::external_body]
pub(crate) fn replace_text(text: &String, from: &String, to: &String) -> (r: String)
    ensures
        r@ == replaced(text@, from@, to@),
{
    text.replace(from.as_str(), to.as_str())
}

/// `str::to_uppercase`. The contract only names the result.
#[verifier::external_body]
pub(crate) fn upper_text(text: &String) -> (r: String)
    ensures
        r@ == uppercased(text@),
{
    text.to_uppercase()
}

/// `str::to_lowercase`. The contract only names the result.
#[verifier::external_body]
pub(crate) fn lower_text(text: &String) -> (r: String)
    ensures
        r@ == lowercased(text@),
{
    text.to_lowercase()
}

/// Whether `text` reads as the literal `word`.
pub fn is_text(text: &String, word: &str) -> (r: bool)
    ensures
        r == (text@ == word@),
{
    let other = word.to_string();
    *text == other
}

/// Whether `piece` stands in `text` at place `at`.
pub open spec fn occurs_at(text: Seq<char>, piece: Seq<char>, at: int) -> bool {
    &&& 0 <= at
    &&& at + piece.len() <= text.len()
    &&& text.subrange(at, at + piece.len()) == piece
}

/// Whether `piece` stands somewhere in `text`.
pub open spec fn occurs(text: Seq<char>, piece: Seq<char>) -> bool {
    exists|at: int| occurs_at(text, piece, at)
}

/// Whether `piece` stands in `text` at place `at`.
pub fn stands_at(text: &str, piece: &str, at: usize) -> (r: bool)
    ensures
        r == occurs_at(text@, piece@, at as int),
{
    let n: usize = text.unicode_len();
    let m: usize = piece.unicode_len();
    if at > n || m > n - at {
        return false;
    }
    let mut i: usize = 0;
    while i < m
        invariant
            i <= m,
            n == text@.len(),
            m == piece@.len(),
            at + m <= n,
            forall|j: int| 0 <= j < i ==> text@[at + j] == piece@[j],
        decreases m - i,
    {
        if text.get_char(at + i) != piece.get_char(i) {
            assert(text@.subrange(at as int, at + m)[i as int] != piece@[i as int]);
            return false;
        }
        i = i + 1;
    }
    assert(text@.subrange(at as int, at + m) =~= piece@);
    true
}

/// The first place at which `piece` stands in `text`.
pub fn find_text(text: &str, piece: &str) -> (r: Option<usize>)
    ensures
        match r {
            Some(at) => occurs_at(text@, piece@, at as int) && forall|j: int|
                0 <= j < at ==> !occurs_at(text@, piece@, j),
            None => !occurs(text@, piece@),
        },
{
    let n: usize = text.unicode_len();
    let mut at: usize = 0;
    loop
        invariant
            at <= n,
            n == text@.len(),
            forall|j: int| 0 <= j < at ==> !occurs_at(text@, piece@, j),
        decreases n - at,
    {
        if stands_at(text, piece, at) {
            return Some(at);
        }
        if at == n {
            return None;
        }
        at = at + 1;
    }
}

/// Whether `piece` stands somewhere in `text`.
pub fn contains_text(text: &str, piece: &str) -> (r: bool)
    ensures
        r == occurs(text@, piece@),
{
    find_text(text, piece).is_some()
}

/// Whether `text` begins with `piece`.
pub fn starts_with(text: &str, piece: &str) -> (r: bool)
    ensures
        r == occurs_at(text@, piece@, 0),
{
    stands_at(text, piece, 0)
}

/// Whether `text` ends with `piece`.
pub fn ends_with(text: &str, piece: &str) -> (r: bool)
    ensures
        r == (piece@.len() <= text@.len() && occurs_at(text@, piece@, text@.len() - piece@.len())),
{
    let n: usize = text.unicode_len();
    let m: usize = piece.unicode_len();
    if m > n {
        false
    } else {
        stands_at(text, piece, n - m)
    }
}

/// The text of one decimal digit.
pub open spec fn digit_text(d: int) -> Seq<char> {
    if d == 0 {
        "0"@
    } else if d == 1 {
        "1"@
    } else if d == 2 {
        "2"@
    } else if d == 3 {
        "3"@
    } else if d == 4 {
        "4"@
    } else if d == 5 {
        "5"@
    } else if d == 6 {
        "6"@
    } else if d == 7 {
        "7"@
    } else if d == 8 {
        "8"@
    } else {
        "9"@
    }
}

/// A number written in decimal, without leading zeros.
pub open spec fn decimal_text(n: nat) -> Seq<char>
    decreases n,
{
    if n < 10 {
        digit_text(n as int)
    } else {
        decimal_text(n / 10) + digit_text((n % 10) as int)
    }
}

fn digit(d: u128) -> (r: &'static str)
    requires
        d < 10,
    ensures
        r@ == digit_text(d as int),
{
    if d == 0 {
        "0"
    } else if d == 1 {
        "1"
    } else if d == 2 {
        "2"
    } else if d == 3 {
        "3"
    } else if d == 4 {
        "4"
    } else if d == 5 {
        "5"
    } else if d == 6 {
        "6"
    } else if d == 7 {
        "7"
    } else if d == 8 {
        "8"
    } else {
        "9"
    }
}

/// A number written in decimal.
pub fn decimal(n: u128) -> (r: String)
    ensures
        r@ == decimal_text(n as nat),
    decreases n,
{
    if n < 10 {
        digit(n).to_string()
    } else {
        decimal(n / 10).concat(digit(n % 10))
    }
}

} // verus!
