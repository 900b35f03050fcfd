//! What the answer to an HTTP request becomes in the machine.

use vstd::prelude::*;
use crate::heap::{object_views, Object, ObjectView};
use crate::model::trimmed;
use crate::number::Number;
use crate::text::{occurs, occurs_at, trim_text};
use crate::value::{KeyView, Value, ValueKey, ValueView};

verus! {

pub const CONTENT_TYPE: &'static str = "content-type";
pub const JSON_TYPE: &'static str = "application/json";
pub const STATUS_KEY: &'static str = "статус";
pub const HEADERS_KEY: &'static str = "заголовки";
pub const BODY_KEY: &'static str = "тело";
pub const JSON_KEY: &'static str = "json";

/// An ASCII capital as its small letter, any other character as itself.
pub open spec fn lowered(c: char) -> char {
    match c {
        'A' => 'a',
        'B' => 'b',
        'C' => 'c',
        'D' => 'd',
        'E' => 'e',
        'F' => 'f',
        'G' => 'g',
        'H' => 'h',
        'I' => 'i',
        'J' => 'j',
        'K' => 'k',
        'L' => 'l',
        'M' => 'm',
        'N' => 'n',
        'O' => 'o',
        'P' => 'p',
        'Q' => 'q',
        'R' => 'r',
        'S' => 's',
        'T' => 't',
        'U' => 'u',
        'V' => 'v',
        'W' => 'w',
        'X' => 'x',
        'Y' => 'y',
        'Z' => 'z',
        _ => c,
    }
}

pub open spec fn lowered_text(text: Seq<char>) -> Seq<char> {
    text.map_values(|c: char| lowered(c))
}

/// Whether a header says that the body is JSON.
pub open spec fn json_header(name: Seq<char>, value: Seq<char>) -> bool {
    lowered_text(name) == CONTENT_TYPE@ && occurs(lowered_text(value), JSON_TYPE@)
}

/// Whether one of the headers says that the body is JSON.
pub open spec fn announces_json(headers: Seq<(String, String)>) -> bool {
    exists|i: int| 0 <= i < headers.len() && json_header(#[trigger] headers[i].0@, headers[i].1@)
}

/// How the body of an answer is to be read.
#[derive(Clone, Copy, Debug, PartialEq, Eq)]
pub enum Reading {
    /// As text only.
    Text,
    /// As the absent value: it is blank.
    Nothing,
    /// As JSON; where `strict`, a body that is none is an error.
    Json { strict: bool },
}

pub open spec fn reading_of(expect_json: bool, headers: Seq<(String, String)>, body: Seq<char>) -> Reading {
    if !expect_json && !announces_json(headers) {
        Reading::Text
    } else if trimmed(body).len() == 0 {
        Reading::Nothing
    } else {
        Reading::Json { strict: expect_json }
    }
}

/// The dictionary that stands for an answer.
pub open spec fn answer_entries(status: u16, headers: nat, body: Seq<char>, json: ValueView) -> Seq<
    (KeyView, ValueView),
> {
    seq![
        (KeyView::String(STATUS_KEY@), ValueView::Number(Number::of_count(status as nat))),
        (KeyView::String(HEADERS_KEY@), ValueView::Dict(headers as usize)),
        (KeyView::String(BODY_KEY@), ValueView::String(body)),
        (KeyView::String(JSON_KEY@), json),
    ]
}

pub open spec fn header_entries(headers: Seq<(String, String)>) -> Seq<(KeyView, ValueView)> {
    headers.map_values(|h: (String, String)| (KeyView::String(h.0@), ValueView::String(h.1@)))
}

fn lower(c: char) -> (r: char)
    ensures
        r == lowered(c),
{
    match c {
        'A' => 'a',
        'B' => 'b',
        'C' => 'c',
        'D' => 'd',
        'E' => 'e',
        'F' => 'f',
        'G' => 'g',
        'H' => 'h',
        'I' => 'i',
        'J' => 'j',
        'K' => 'k',
        'L' => 'l',
        'M' => 'm',
        'N' => 'n',
        'O' => 'o',
        'P' => 'p',
        'Q' => 'q',
        'R' => 'r',
        'S' => 's',
        'T' => 't',
        'U' => 'u',
        'V' => 'v',
        'W' => 'w',
        'X' => 'x',
        'Y' => 'y',
        'Z' => 'z',
        _ => c,
    }
}

/// Whether `piece` stands at place `at` in `text` once its capitals are
/// made small.
fn stands_lowered(text: &str, piece: &str, at: usize) -> (r: bool)
    ensures
        r == occurs_at(lowered_text(text@), piece@, at as int),
{
    let n: usize = text.unicode_len();
    let m: usize = piece.unicode_len();
    if at > n || m > n - at {
        return false;
    }
    let mut i: usize = 0;
    while i < m
        invariant
            i <= m,
            n == text@.len(),
            m == piece@.len(),
            at + m <= n,
            forall|j: int| 0 <= j < i ==> lowered(text@[at + j]) == piece@[j],
        decreases m - i,
    {
        if lower(text.get_char(at + i)) != piece.get_char(i) {
            assert(lowered_text(text@).subrange(at as int, at + m)[i as int] != piece@[i as int]);
            return false;
        }
        i = i + 1;
    }
    assert(lowered_text(text@).subrange(at as int, at + m) =~= piece@);
    true
}

fn is_json_header(name: &str, value: &str) -> (r: bool)
    ensures
        r == json_header(name@, value@),
{
    if name.unicode_len() != CONTENT_TYPE.unicode_len() || !stands_lowered(name, CONTENT_TYPE, 0) {
        proof {
            if name@.len() == CONTENT_TYPE@.len() {
                assert(lowered_text(name@).subrange(0, CONTENT_TYPE@.len() as int) =~= lowered_text(name@));
            }
        }
        return false;
    }
    assert(lowered_text(name@).subrange(0, CONTENT_TYPE@.len() as int) =~= lowered_text(name@));
    let n: usize = value.unicode_len();
    let mut at: usize = 0;
    loop
        invariant
            at <= n,
            n == value@.len(),
            lowered_text(name@) == CONTENT_TYPE@,
            forall|j: int| 0 <= j < at ==> !occurs_at(lowered_text(value@), JSON_TYPE@, j),
        decreases n - at,
    {
        if stands_lowered(value, JSON_TYPE, at) {
            return true;
        }
        if at == n {
            return false;
        }
        at = at + 1;
    }
}

/// Whether one of the headers says that the body is JSON: its name reads
/// `content-type` and its value holds `application/json`, capitals and
/// small letters alike.
pub fn has_json_content_type(headers: &Vec<(String, String)>) -> (r: bool)
    ensures
        r == announces_json(headers@),
{
    let mut i: usize = 0;
    while i < headers.len()
        invariant
            i <= headers.len(),
            forall|k: int| 0 <= k < i ==> !json_header(#[trigger] headers[k].0@, headers[k].1@),
        decreases headers.len() - i,
    {
        if is_json_header(headers[i].0.as_str(), headers[i].1.as_str()) {
            return true;
        }
        i = i + 1;
    }
    false
}

/// How the body of an answer is to be read.
pub fn reading(expect_json: bool, headers: &Vec<(String, String)>, body: &String) -> (r: Reading)
    ensures
        r == reading_of(expect_json, headers@, body@),
{
    if !expect_json && !has_json_content_type(headers) {
        Reading::Text
    } else if trim_text(body).as_str().unicode_len() == 0 {
        Reading::Nothing
    } else {
        Reading::Json { strict: expect_json }
    }
}

/// Lays an answer out on the heap: a dictionary of the headers, then the
/// dictionary of status, headers, body and what the body held as JSON.
pub fn answer(heap: &mut Vec<Object>, status: u16, headers: &Vec<(String, String)>, body: String, json: Value) -> (r:
    Value)
    requires
        old(heap).len() + 2 <= usize::MAX,
    ensures
        r@ == ValueView::Dict((old(heap).len() + 1) as usize),
        object_views(final(heap)@) == object_views(old(heap)@).push(
            ObjectView::Dict(header_entries(headers@)),
        ).push(ObjectView::Dict(answer_entries(status, old(heap).len() as nat, body@, json@))),
{
    let mut named: Vec<(ValueKey, Value)> = Vec::new();
    let mut i: usize = 0;
    while i < headers.len()
        invariant
            i <= headers.len(),
            named.len() == i,
            forall|k: int|
                0 <= k < i ==> (#[trigger] named[k]).0@ == KeyView::String(headers[k].0@) && named[k].1@
                    == ValueView::String(headers[k].1@),
        decreases headers.len() - i,
    {
        named.push((ValueKey::String(headers[i].0.clone()), Value::String(headers[i].1.clone())));
        i = i + 1;
    }
    let at: usize = heap.len();
    let ghost before = object_views(heap@);
    heap.push(Object::Dict(named));
    let mut entries: Vec<(ValueKey, Value)> = Vec::new();
    entries.push((ValueKey::String(STATUS_KEY.to_string()), Value::Number(Number::from_count(status as usize))));
    entries.push((ValueKey::String(HEADERS_KEY.to_string()), Value::Dict(at)));
    entries.push((ValueKey::String(BODY_KEY.to_string()), Value::String(body)));
    entries.push((ValueKey::String(JSON_KEY.to_string()), json));
    heap.push(Object::Dict(entries));
    proof {
        assert(crate::heap::entry_views(named@) =~= header_entries(headers@));
        assert(crate::heap::entry_views(entries@) =~= answer_entries(status, at as nat, body@, json@));
        assert(object_views(heap@) =~= before.push(ObjectView::Dict(header_entries(headers@))).push(
            ObjectView::Dict(answer_entries(status, at as nat, body@, json@)),
        ));
    }
    Value::Dict(at + 1)
}

} // verus!
