//! Values as text. The library lays a value out as pieces of text with
//! the numbers left as they are; who drives it writes the numbers out and
//! puts the pieces together.

use vstd::prelude::*;
use vstd::string::StringExecFns;
use crate::heap::{entry_views, object_views, Object, ObjectView};
use crate::number::Number;
use crate::value::{views, KeyView, Value, ValueKey, ValueView};

verus! {

/// A piece of the text of a value.
#[derive(Debug, PartialEq)]
pub enum Piece {
    Text(String),
    /// A number, to be written out by the host.
    Number(Number),
}

pub enum PieceView {
    Text(Seq<char>),
    Number(Number),
}

impl View for Piece {
    type V = PieceView;

    open spec fn view(&self) -> PieceView {
        match *self {
            Piece::Text(t) => PieceView::Text(t@),
            Piece::Number(n) => PieceView::Number(n),
        }
    }
}

pub open spec fn piece_views(s: Seq<Piece>) -> Seq<PieceView> {
    s.map_values(|p: Piece| p@)
}

pub const NIL: &'static str = "ничто";
pub const TRUE: &'static str = "true";
pub const FALSE: &'static str = "false";
pub const OBJECT: &'static str = "<объект>";
pub const OPEN_ARRAY: &'static str = "[";
pub const CLOSE_ARRAY: &'static str = "]";
pub const OPEN_DICT: &'static str = "{";
pub const CLOSE_DICT: &'static str = "}";
pub const BETWEEN: &'static str = ", ";
pub const AFTER_KEY: &'static str = ": ";
pub const QUOTE: &'static str = "\"";

pub open spec fn truth_text(b: bool) -> Seq<char> {
    if b {
        TRUE@
    } else {
        FALSE@
    }
}

/// A key of a dictionary as text: a string in quotes, a number or a
/// boolean as it is.
pub open spec fn key_shown(k: KeyView) -> PieceView {
    match k {
        KeyView::String(s) => PieceView::Text(QUOTE@ + s + QUOTE@),
        KeyView::Number(bits) => PieceView::Number(Number { bits }),
        KeyView::Boolean(b) => PieceView::Text(truth_text(b)),
    }
}

/// The first `n` items of an array as text, `, ` between them.
pub open spec fn items_shown(heap: Seq<ObjectView>, items: Seq<ValueView>, n: nat, depth: nat) -> Seq<PieceView>
    decreases depth, 1nat, n,
{
    if n == 0 || n > items.len() {
        Seq::empty()
    } else if n == 1 {
        shown(heap, items[0], depth)
    } else {
        items_shown(heap, items, (n - 1) as nat, depth).push(PieceView::Text(BETWEEN@)) + shown(
            heap,
            items[n - 1],
            depth,
        )
    }
}

/// The first `n` entries of a dictionary as text: `key: value`, with `, `
/// between them.
pub open spec fn entries_shown(
    heap: Seq<ObjectView>,
    entries: Seq<(KeyView, ValueView)>,
    n: nat,
    depth: nat,
) -> Seq<PieceView>
    decreases depth, 1nat, n,
{
    if n == 0 || n > entries.len() {
        Seq::empty()
    } else {
        let before = if n == 1 {
            Seq::empty()
        } else {
            entries_shown(heap, entries, (n - 1) as nat, depth).push(PieceView::Text(BETWEEN@))
        };
        before.push(key_shown(entries[n - 1].0)).push(PieceView::Text(AFTER_KEY@)) + shown(
            heap,
            entries[n - 1].1,
            depth,
        )
    }
}

/// A value as text: a string as it is, `ничто` for nil, an array in
/// brackets, a dictionary in braces, and `<объект>` for everything else
/// and for what lies deeper than `depth`.
pub open spec fn shown(heap: Seq<ObjectView>, v: ValueView, depth: nat) -> Seq<PieceView>
    decreases depth, 0nat, 0nat,
{
    match v {
        ValueView::String(s) => seq![PieceView::Text(s)],
        ValueView::Number(n) => seq![PieceView::Number(n)],
        ValueView::Boolean(b) => seq![PieceView::Text(truth_text(b))],
        ValueView::Nil => seq![PieceView::Text(NIL@)],
        ValueView::Array(a) => if depth > 0 && a < heap.len() && heap[a as int] is Array {
            seq![PieceView::Text(OPEN_ARRAY@)] + items_shown(
                heap,
                heap[a as int]->Array_0,
                heap[a as int]->Array_0.len(),
                (depth - 1) as nat,
            ) + seq![PieceView::Text(CLOSE_ARRAY@)]
        } else {
            seq![PieceView::Text(OBJECT@)]
        },
        ValueView::Dict(d) => if depth > 0 && d < heap.len() && heap[d as int] is Dict {
            seq![PieceView::Text(OPEN_DICT@)] + entries_shown(
                heap,
                heap[d as int]->Dict_0,
                heap[d as int]->Dict_0.len(),
                (depth - 1) as nat,
            ) + seq![PieceView::Text(CLOSE_DICT@)]
        } else {
            seq![PieceView::Text(OBJECT@)]
        },
        _ => seq![PieceView::Text(OBJECT@)],
    }
}

fn text(word: &str) -> (r: Piece)
    ensures
        r@ == PieceView::Text(word@),
{
    Piece::Text(word.to_string())
}

fn truth(b: bool) -> (r: Piece)
    ensures
        r@ == PieceView::Text(truth_text(b)),
{
    if b {
        text(TRUE)
    } else {
        text(FALSE)
    }
}

fn show_key(k: &ValueKey) -> (r: Piece)
    ensures
        r@ == key_shown(k@),
{
    match k {
        ValueKey::String(s) => Piece::Text(QUOTE.to_string().concat(s.as_str()).concat(QUOTE)),
        ValueKey::Number(bits) => Piece::Number(Number { bits: *bits }),
        ValueKey::Boolean(b) => truth(*b),
    }
}

/// Puts the pieces of `more` behind those of `out`.
fn append(out: &mut Vec<Piece>, more: Vec<Piece>)
    ensures
        piece_views(final(out)@) == piece_views(old(out)@) + piece_views(more@),
{
    let mut rest = more;
    out.append(&mut rest);
    assert(piece_views(out@) =~= piece_views(old(out)@) + piece_views(more@));
}

fn push(out: &mut Vec<Piece>, piece: Piece)
    ensures
        piece_views(final(out)@) == piece_views(old(out)@).push(piece@),
{
    out.push(piece);
    assert(piece_views(out@) =~= piece_views(old(out)@).push(piece@));
}

/// A value of the heap as text.
pub fn show(heap: &Vec<Object>, v: &Value, depth: usize) -> (r: Vec<Piece>)
    ensures
        piece_views(r@) == shown(object_views(heap@), v@, depth as nat),
    decreases depth,
{
    let ghost h = object_views(heap@);
    let mut out: Vec<Piece> = Vec::new();
    assert(piece_views(out@) =~= Seq::empty());
    match v {
        Value::String(s) => {
            push(&mut out, Piece::Text(s.clone()));
        },
        Value::Number(n) => {
            push(&mut out, Piece::Number(*n));
        },
        Value::Boolean(b) => {
            push(&mut out, truth(*b));
        },
        Value::Nil => {
            push(&mut out, text(NIL));
        },
        Value::Array(a) => {
            let listed: bool = depth > 0 && *a < heap.len() && match &heap[*a] {
                Object::Array(_) => true,
                _ => false,
            };
            if !listed {
                push(&mut out, text(OBJECT));
                assert(piece_views(out@) =~= seq![PieceView::Text(OBJECT@)]);
                return out;
            }
            match &heap[*a] {
                Object::Array(items) => {
                    let ghost vx = views(items@);
                    let mut inner: Vec<Piece> = Vec::new();
                    assert(piece_views(inner@) =~= Seq::empty());
                    let mut i: usize = 0;
                    while i < items.len()
                        invariant
                            i <= items.len(),
                            depth > 0,
                            h == object_views(heap@),
                            vx == views(items@),
                            piece_views(inner@) == items_shown(h, vx, i as nat, (depth - 1) as nat),
                        decreases items.len() - i,
                    {
                        if i > 0 {
                            push(&mut inner, text(BETWEEN));
                        }
                        let one = show(heap, &items[i], depth - 1);
                        let ghost before = piece_views(inner@);
                        append(&mut inner, one);
                        proof {
                            if i == 0 {
                                assert(before + piece_views(one@) =~= piece_views(one@));
                            }
                        }
                        i = i + 1;
                    }
                    push(&mut out, text(OPEN_ARRAY));
                    append(&mut out, inner);
                    push(&mut out, text(CLOSE_ARRAY));
                    assert(piece_views(out@) =~= seq![PieceView::Text(OPEN_ARRAY@)] + items_shown(
                        h,
                        vx,
                        vx.len(),
                        (depth - 1) as nat,
                    ) + seq![PieceView::Text(CLOSE_ARRAY@)]);
                },
                _ => {},
            }
        },
        Value::Dict(d) => {
            let listed: bool = depth > 0 && *d < heap.len() && match &heap[*d] {
                Object::Dict(_) => true,
                _ => false,
            };
            if !listed {
                push(&mut out, text(OBJECT));
                assert(piece_views(out@) =~= seq![PieceView::Text(OBJECT@)]);
                return out;
            }
            match &heap[*d] {
                Object::Dict(entries) => {
                    let ghost ve = entry_views(entries@);
                    let mut inner: Vec<Piece> = Vec::new();
                    assert(piece_views(inner@) =~= Seq::empty());
                    let mut i: usize = 0;
                    while i < entries.len()
                        invariant
                            i <= entries.len(),
                            depth > 0,
                            h == object_views(heap@),
                            ve == entry_views(entries@),
                            piece_views(inner@) == entries_shown(h, ve, i as nat, (depth - 1) as nat),
                        decreases entries.len() - i,
                    {
                        if i > 0 {
                            push(&mut inner, text(BETWEEN));
                        }
                        push(&mut inner, show_key(&entries[i].0));
                        push(&mut inner, text(AFTER_KEY));
                        let one = show(heap, &entries[i].1, depth - 1);
                        append(&mut inner, one);
                        i = i + 1;
                    }
                    push(&mut out, text(OPEN_DICT));
                    append(&mut out, inner);
                    push(&mut out, text(CLOSE_DICT));
                    assert(piece_views(out@) =~= seq![PieceView::Text(OPEN_DICT@)] + entries_shown(
                        h,
                        ve,
                        ve.len(),
                        (depth - 1) as nat,
                    ) + seq![PieceView::Text(CLOSE_DICT@)]);
                },
                _ => {},
            }
        },
        _ => {
            push(&mut out, text(OBJECT));
        },
    }
    assert(out@.len() == 1 ==> piece_views(out@) =~= seq![piece_views(out@)[0]]);
    out
}

} // verus!
