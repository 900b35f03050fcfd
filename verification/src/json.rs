//! Values as JSON and JSON as values. The library converts between a
//! value of the machine and the shape of a JSON document; reading and
//! writing the text of the document is left to who drives the library.

use vstd::prelude::*;
use crate::heap::{entry_views, lemma_lookup_first, object_views, with_entry, Object, ObjectView};
use crate::model::{entry_matched, values_equal};
use crate::number::{Number, INFINITY_BITS};
use crate::value::{views, KeyView, Value, ValueKey, ValueView};

verus! {

/// The shape of a JSON document. The keys of an object are the keys of
/// the dictionary it stands for; a key that is no string is written as
/// text only when the document is.
#[derive(Debug, PartialEq)]
pub enum Json {
    Null,
    Bool(bool),
    Number(Number),
    String(String),
    Array(Vec<Json>),
    Object(Vec<(ValueKey, Json)>),
}

pub const NOT_FINITE: &'static str = "Число не может быть представлено в JSON";

pub const NOT_JSON: &'static str = "Невозможно сериализовать этот тип в JSON";

pub const TOO_DEEP: &'static str = "Значение слишком глубоко вложено для JSON";

/// Whether a number is neither infinite nor NaN.
pub open spec fn is_finite(n: Number) -> bool {
    n.magnitude() < INFINITY_BITS
}

/// Why a value cannot be written as JSON, where it cannot: the first
/// reason met when its parts are gone through in order. `depth` bounds
/// how far into nested containers the conversion goes.
pub open spec fn json_error(heap: Seq<ObjectView>, v: ValueView, depth: nat) -> Option<Seq<char>>
    decreases depth, 0nat,
{
    match v {
        ValueView::Nil => None,
        ValueView::Boolean(_) => None,
        ValueView::Number(n) => if is_finite(n) {
            None
        } else {
            Some(NOT_FINITE@)
        },
        ValueView::String(_) => None,
        ValueView::Array(a) => if a < heap.len() && heap[a as int] is Array {
            if depth == 0 {
                Some(TOO_DEEP@)
            } else {
                first_error(heap, heap[a as int]->Array_0, heap[a as int]->Array_0.len(), (depth - 1) as nat)
            }
        } else {
            Some(NOT_JSON@)
        },
        ValueView::Dict(d) => if d < heap.len() && heap[d as int] is Dict {
            if depth == 0 {
                Some(TOO_DEEP@)
            } else {
                first_error(
                    heap,
                    heap[d as int]->Dict_0.map_values(|e: (KeyView, ValueView)| e.1),
                    heap[d as int]->Dict_0.len(),
                    (depth - 1) as nat,
                )
            }
        } else {
            Some(NOT_JSON@)
        },
        _ => Some(NOT_JSON@),
    }
}

/// The first reason among the first `n` of `items`.
pub open spec fn first_error(heap: Seq<ObjectView>, items: Seq<ValueView>, n: nat, depth: nat) -> Option<
    Seq<char>,
>
    decreases depth, 1nat, n,
{
    if n == 0 || n > items.len() {
        None
    } else {
        match first_error(heap, items, (n - 1) as nat, depth) {
            Some(reason) => Some(reason),
            None => json_error(heap, items[n - 1], depth),
        }
    }
}

/// Whether `j` is the JSON of the value `v`.
pub open spec fn encoded(heap: Seq<ObjectView>, v: ValueView, j: Json, depth: nat) -> bool
    decreases depth,
{
    match (v, j) {
        (ValueView::Nil, Json::Null) => true,
        (ValueView::Boolean(b), Json::Bool(c)) => b == c,
        (ValueView::Number(n), Json::Number(m)) => n == m && is_finite(n),
        (ValueView::String(s), Json::String(t)) => s == t@,
        (ValueView::Array(a), Json::Array(items)) => {
            &&& depth > 0
            &&& a < heap.len()
            &&& heap[a as int] matches ObjectView::Array(xs)
            &&& xs.len() == items.len()
            &&& forall|i: int| 0 <= i < xs.len() ==> encoded(heap, #[trigger] xs[i], items[i], (depth - 1) as nat)
        },
        (ValueView::Dict(d), Json::Object(entries)) => {
            &&& depth > 0
            &&& d < heap.len()
            &&& heap[d as int] matches ObjectView::Dict(es)
            &&& es.len() == entries.len()
            &&& forall|i: int|
                0 <= i < es.len() ==> (#[trigger] es[i]).0 == entries[i].0@ && encoded(
                    heap,
                    es[i].1,
                    entries[i].1,
                    (depth - 1) as nat,
                )
        },
        _ => false,
    }
}

/// The JSON of a value of the heap.
pub fn value_to_json(heap: &Vec<Object>, v: &Value, depth: usize) -> (r: Result<Json, String>)
    ensures
        match r {
            Ok(j) => json_error(object_views(heap@), v@, depth as nat) is None && encoded(
                object_views(heap@),
                v@,
                j,
                depth as nat,
            ),
            Err(reason) => json_error(object_views(heap@), v@, depth as nat) == Some(reason@),
        },
    decreases depth,
{
    let ghost h = object_views(heap@);
    match v {
        Value::Nil => Ok(Json::Null),
        Value::Boolean(b) => Ok(Json::Bool(*b)),
        Value::Number(n) => {
            let magnitude: u64 = if n.bits >= crate::number::SIGN_BIT {
                n.bits - crate::number::SIGN_BIT
            } else {
                n.bits
            };
            if magnitude < INFINITY_BITS {
                Ok(Json::Number(*n))
            } else {
                Err(NOT_FINITE.to_string())
            }
        },
        Value::String(s) => Ok(Json::String(s.clone())),
        Value::Array(a) => {
            if *a >= heap.len() {
                return Err(NOT_JSON.to_string());
            }
            match &heap[*a] {
                Object::Array(xs) => {
                    if depth == 0 {
                        return Err(TOO_DEEP.to_string());
                    }
                    let ghost vx = views(xs@);
                    let mut items: Vec<Json> = Vec::new();
                    let mut i: usize = 0;
                    while i < xs.len()
                        invariant
                            i <= xs.len(),
                            depth > 0,
                            h == object_views(heap@),
                            vx == views(xs@),
                            v@ == ValueView::Array(*a),
                            *a < heap.len(),
                            h[*a as int] == ObjectView::Array(vx),
                            items.len() == i,
                            first_error(h, vx, i as nat, (depth - 1) as nat) is None,
                            forall|k: int|
                                0 <= k < i ==> encoded(h, #[trigger] vx[k], items[k], (depth - 1) as nat),
                        decreases xs.len() - i,
                    {
                        match value_to_json(heap, &xs[i], depth - 1) {
                            Ok(j) => {
                                items.push(j);
                            },
                            Err(reason) => {
                                proof {
                                    lemma_error_sticks(h, vx, (i + 1) as nat, vx.len(), (depth - 1) as nat);
                                }
                                return Err(reason);
                            },
                        }
                        i = i + 1;
                    }
                    Ok(Json::Array(items))
                },
                _ => Err(NOT_JSON.to_string()),
            }
        },
        Value::Dict(d) => {
            if *d >= heap.len() {
                return Err(NOT_JSON.to_string());
            }
            match &heap[*d] {
                Object::Dict(es) => {
                    if depth == 0 {
                        return Err(TOO_DEEP.to_string());
                    }
                    let ghost ve = entry_views(es@);
                    let ghost vx = ve.map_values(|e: (KeyView, ValueView)| e.1);
                    let mut entries: Vec<(ValueKey, Json)> = Vec::new();
                    let mut i: usize = 0;
                    while i < es.len()
                        invariant
                            i <= es.len(),
                            depth > 0,
                            h == object_views(heap@),
                            ve == entry_views(es@),
                            vx == ve.map_values(|e: (KeyView, ValueView)| e.1),
                            v@ == ValueView::Dict(*d),
                            *d < heap.len(),
                            h[*d as int] == ObjectView::Dict(ve),
                            entries.len() == i,
                            first_error(h, vx, i as nat, (depth - 1) as nat) is None,
                            forall|k: int|
                                0 <= k < i ==> (#[trigger] ve[k]).0 == entries[k].0@ && encoded(
                                    h,
                                    ve[k].1,
                                    entries[k].1,
                                    (depth - 1) as nat,
                                ),
                        decreases es.len() - i,
                    {
                        assert(vx[i as int] == es[i as int].1@);
                        match value_to_json(heap, &es[i].1, depth - 1) {
                            Ok(j) => {
                                entries.push((es[i].0.duplicate(), j));
                            },
                            Err(reason) => {
                                proof {
                                    lemma_error_sticks(h, vx, (i + 1) as nat, vx.len(), (depth - 1) as nat);
                                }
                                return Err(reason);
                            },
                        }
                        i = i + 1;
                    }
                    Ok(Json::Object(entries))
                },
                _ => Err(NOT_JSON.to_string()),
            }
        },
        _ => Err(NOT_JSON.to_string()),
    }
}

/// An error among the first items is the error of the whole.
proof fn lemma_error_sticks(heap: Seq<ObjectView>, items: Seq<ValueView>, k: nat, n: nat, depth: nat)
    requires
        k <= n <= items.len(),
        first_error(heap, items, k, depth) is Some,
    ensures
        first_error(heap, items, n, depth) == first_error(heap, items, k, depth),
    decreases n,
{
    if k < n {
        lemma_error_sticks(heap, items, k, (n - 1) as nat, depth);
    }
}

/// The entries of the dictionary that the first `n` entries of an
/// object build, a later entry replacing an earlier one under the same
/// key; `values` are the values that the entries stand for.
pub open spec fn object_entries(entries: Seq<(ValueKey, Json)>, values: Seq<ValueView>, n: nat) -> Seq<
    (KeyView, ValueView),
>
    decreases n,
{
    if n == 0 {
        Seq::empty()
    } else {
        with_entry(object_entries(entries, values, (n - 1) as nat), entries[n - 1].0@, values[n - 1])
    }
}

/// Whether the value `v` of the heap is what the JSON `j` stands for.
pub open spec fn decoded(heap: Seq<ObjectView>, j: Json, v: ValueView) -> bool
    decreases j,
{
    match j {
        Json::Null => v == ValueView::Nil,
        Json::Bool(b) => v == ValueView::Boolean(b),
        Json::Number(n) => v == ValueView::Number(n),
        Json::String(t) => v == ValueView::String(t@),
        Json::Array(items) => {
            &&& v matches ValueView::Array(a)
            &&& a < heap.len()
            &&& heap[a as int] matches ObjectView::Array(xs)
            &&& xs.len() == items.len()
            &&& forall|i: int| 0 <= i < items.len() ==> decoded(heap, #[trigger] items[i], xs[i])
        },
        Json::Object(entries) => {
            &&& v matches ValueView::Dict(d)
            &&& d < heap.len()
            &&& heap[d as int] matches ObjectView::Dict(es)
            &&& exists|values: Seq<ValueView>|
                {
                    &&& values.len() == entries.len()
                    &&& forall|i: int| 0 <= i < entries.len() ==> decoded(heap, (#[trigger] entries[i]).1, values[i])
                    &&& es == #[trigger] object_entries(entries@, values, entries.len() as nat)
                }
        },
    }
}

/// Whether a heap holds all the objects of another, in their places.
pub open spec fn extends(before: Seq<ObjectView>, after: Seq<ObjectView>) -> bool {
    before.len() <= after.len() && after.take(before.len() as int) == before
}

/// What a JSON stands for in a heap, it stands for in every heap that
/// extends it.
pub proof fn lemma_decoded_stays(before: Seq<ObjectView>, after: Seq<ObjectView>, j: Json, v: ValueView)
    requires
        decoded(before, j, v),
        extends(before, after),
    ensures
        decoded(after, j, v),
    decreases j,
{
    match j {
        Json::Array(items) => {
            let a = v->Array_0;
            assert(after[a as int] == after.take(before.len() as int)[a as int]);
            let xs = before[a as int]->Array_0;
            assert forall|i: int| 0 <= i < items.len() implies decoded(after, #[trigger] items[i], xs[i]) by {
                lemma_decoded_stays(before, after, items[i], xs[i]);
            }
        },
        Json::Object(entries) => {
            let d = v->Dict_0;
            assert(after[d as int] == after.take(before.len() as int)[d as int]);
            let es = before[d as int]->Dict_0;
            let values = choose|values: Seq<ValueView>|
                {
                    &&& values.len() == entries.len()
                    &&& forall|i: int|
                        0 <= i < entries.len() ==> decoded(before, (#[trigger] entries[i]).1, values[i])
                    &&& es == #[trigger] object_entries(entries@, values, entries.len() as nat)
                };
            assert forall|i: int| 0 <= i < entries.len() implies decoded(
                after,
                (#[trigger] entries[i]).1,
                values[i],
            ) by {
                lemma_decoded_stays(before, after, entries[i].1, values[i]);
            }
            assert(es == object_entries(entries@, values, entries.len() as nat));
        },
        _ => {},
    }
}

/// The value that a JSON stands for; its arrays and dictionaries are new
/// objects of the heap.
pub fn json_to_value(heap: &mut Vec<Object>, j: &Json) -> (v: Value)
    ensures
        decoded(object_views(final(heap)@), *j, v@),
        extends(object_views(old(heap)@), object_views(final(heap)@)),
    decreases j,
{
    let ghost start = object_views(heap@);
    assert(start.take(start.len() as int) =~= start);
    match j {
        Json::Null => Value::Nil,
        Json::Bool(b) => Value::Boolean(*b),
        Json::Number(n) => Value::Number(*n),
        Json::String(t) => Value::String(t.clone()),
        Json::Array(items) => {
            let mut xs: Vec<Value> = Vec::new();
            let mut i: usize = 0;
            while i < items.len()
                invariant
                    i <= items.len(),
                    xs.len() == i,
                    *j == Json::Array(*items),
                    extends(start, object_views(heap@)),
                    forall|k: int| 0 <= k < i ==> decoded(object_views(heap@), #[trigger] items[k], xs[k]@),
                decreases items.len() - i,
            {
                let ghost before = object_views(heap@);
                let ghost done = views(xs@);
                proof {
                    assert(*j is Array && j->Array_0 == *items);
                    assert(decreases_to!(*j => j->Array_0));
                    assert(decreases_to!(*items => items[i as int]));
                }
                let x = json_to_value(heap, &items[i]);
                proof {
                    let after = object_views(heap@);
                    assert(after.take(start.len() as int) =~= before.take(start.len() as int));
                    assert forall|k: int| 0 <= k < i implies decoded(after, #[trigger] items[k], xs[k]@) by {
                        lemma_decoded_stays(before, after, items[k], xs[k]@);
                    }
                }
                xs.push(x);
                i = i + 1;
            }
            let ghost before = object_views(heap@);
            let ghost values = views(xs@);
            let id: usize = heap.len();
            heap.push(Object::Array(xs));
            proof {
                let after = object_views(heap@);
                assert(after =~= before.push(ObjectView::Array(values)));
                assert(after.take(before.len() as int) =~= before);
                assert(after.take(start.len() as int) =~= before.take(start.len() as int));
                assert forall|k: int| 0 <= k < items.len() implies decoded(after, #[trigger] items[k], values[k]) by {
                    lemma_decoded_stays(before, after, items[k], values[k]);
                }
            }
            Value::Array(id)
        },
        Json::Object(entries) => {
            let mut es: Vec<(ValueKey, Value)> = Vec::new();
            let ghost mut values: Seq<ValueView> = Seq::empty();
            let mut i: usize = 0;
            while i < entries.len()
                invariant
                    i <= entries.len(),
                    values.len() == i,
                    *j == Json::Object(*entries),
                    extends(start, object_views(heap@)),
                    forall|k: int|
                        0 <= k < i ==> decoded(object_views(heap@), (#[trigger] entries[k]).1, values[k]),
                    entry_views(es@) == object_entries(entries@, values, i as nat),
                decreases entries.len() - i,
            {
                let ghost before = object_views(heap@);
                let ghost earlier = values;
                proof {
                    assert(*j is Object && j->Object_0 == *entries);
                    assert(decreases_to!(*j => j->Object_0));
                    assert(decreases_to!(*entries => entries[i as int]));
                    assert(decreases_to!(entries[i as int] => entries[i as int].1));
                }
                let x = json_to_value(heap, &entries[i].1);
                proof {
                    let after = object_views(heap@);
                    assert(after.take(start.len() as int) =~= before.take(start.len() as int));
                    assert forall|k: int| 0 <= k < i implies decoded(
                        after,
                        (#[trigger] entries[k]).1,
                        values[k],
                    ) by {
                        lemma_decoded_stays(before, after, entries[k].1, values[k]);
                    }
                    values = values.push(x@);
                    lemma_object_entries_prefix(entries@, earlier, values, i as nat);
                }
                crate::heap::set_key(&mut es, entries[i].0.duplicate(), x);
                i = i + 1;
            }
            let ghost before = object_views(heap@);
            let id: usize = heap.len();
            let ghost built = entry_views(es@);
            heap.push(Object::Dict(es));
            proof {
                let after = object_views(heap@);
                assert(after =~= before.push(ObjectView::Dict(built)));
                assert(after.take(before.len() as int) =~= before);
                assert(after.take(start.len() as int) =~= before.take(start.len() as int));
                assert forall|k: int| 0 <= k < entries.len() implies decoded(
                    after,
                    (#[trigger] entries[k]).1,
                    values[k],
                ) by {
                    lemma_decoded_stays(before, after, entries[k].1, values[k]);
                }
                assert(built == object_entries(entries@, values, entries.len() as nat));
            }
            Value::Dict(id)
        },
    }
}

/// The entries built from the first `n` entries depend on the first `n`
/// values only.
proof fn lemma_object_entries_prefix(
    entries: Seq<(ValueKey, Json)>,
    short: Seq<ValueView>,
    long: Seq<ValueView>,
    n: nat,
)
    requires
        n <= short.len() <= long.len(),
        forall|k: int| 0 <= k < short.len() ==> short[k] == long[k],
    ensures
        object_entries(entries, short, n) == object_entries(entries, long, n),
    decreases n,
{
    if n > 0 {
        lemma_object_entries_prefix(entries, short, long, (n - 1) as nat);
    }
}

/// Whether no dictionary in a value files two entries under one key.
pub open spec fn keys_distinct(heap: Seq<ObjectView>, v: ValueView, depth: nat) -> bool
    decreases depth,
{
    match v {
        ValueView::Array(a) => {
            &&& depth > 0
            &&& a < heap.len()
            &&& heap[a as int] matches ObjectView::Array(xs)
            &&& forall|i: int| 0 <= i < xs.len() ==> keys_distinct(heap, #[trigger] xs[i], (depth - 1) as nat)
        },
        ValueView::Dict(d) => {
            &&& depth > 0
            &&& d < heap.len()
            &&& heap[d as int] matches ObjectView::Dict(es)
            &&& forall|i: int, k: int| 0 <= i < k < es.len() ==> (#[trigger] es[i]).0 != (#[trigger] es[k]).0
            &&& forall|i: int| 0 <= i < es.len() ==> keys_distinct(heap, (#[trigger] es[i]).1, (depth - 1) as nat)
        },
        _ => true,
    }
}

/// With keys that are all different, the entries of an object become the
/// entries of the dictionary one for one.
proof fn lemma_object_entries_distinct(entries: Seq<(ValueKey, Json)>, values: Seq<ValueView>, n: nat)
    requires
        n <= entries.len(),
        n <= values.len(),
        forall|i: int, k: int| 0 <= i < k < entries.len() ==> (#[trigger] entries[i]).0@ != (#[trigger] entries[k]).0@,
    ensures
        object_entries(entries, values, n).len() == n,
        forall|i: int|
            0 <= i < n ==> #[trigger] object_entries(entries, values, n)[i] == (entries[i].0@, values[i]),
    decreases n,
{
    if n > 0 {
        lemma_object_entries_distinct(entries, values, (n - 1) as nat);
        let before = object_entries(entries, values, (n - 1) as nat);
        let key = entries[n - 1].0@;
        assert forall|i: int| 0 <= i < before.len() implies (#[trigger] before[i]).0 != key by {
            assert(before[i] == (entries[i].0@, values[i]));
            assert(entries[i].0@ != entries[n - 1].0@);
        }
        crate::heap::lemma_lookup_absent(before, key);
    }
}

/// A value that was written as JSON and read back equals the value it
/// was: what a JSON of a value stands for, in a heap that still holds the
/// value, is equal to the value by the language's `==`. This holds of
/// every value that JSON can hold and whose dictionaries file no two
/// entries under one key.
pub proof fn law_json_round_trip(
    heap: Seq<ObjectView>,
    later: Seq<ObjectView>,
    v: ValueView,
    j: Json,
    back: ValueView,
    depth: nat,
)
    requires
        encoded(heap, v, j, depth),
        keys_distinct(heap, v, depth),
        extends(heap, later),
        decoded(later, j, back),
    ensures
        values_equal(later, v, back, depth),
    decreases depth,
{
    match (v, j) {
        (ValueView::Array(a), Json::Array(items)) => {
            assert(later[a as int] == later.take(heap.len() as int)[a as int]);
            let xs = heap[a as int]->Array_0;
            let b = back->Array_0;
            let ys = later[b as int]->Array_0;
            assert forall|i: int| 0 <= i < xs.len() implies values_equal(
                later,
                #[trigger] xs[i],
                ys[i],
                (depth - 1) as nat,
            ) by {
                law_json_round_trip(heap, later, xs[i], items[i], ys[i], (depth - 1) as nat);
            }
        },
        (ValueView::Dict(d), Json::Object(entries)) => {
            assert(later[d as int] == later.take(heap.len() as int)[d as int]);
            let es = heap[d as int]->Dict_0;
            let b = back->Dict_0;
            let fs = later[b as int]->Dict_0;
            let values = choose|values: Seq<ValueView>|
                {
                    &&& values.len() == entries.len()
                    &&& forall|i: int|
                        0 <= i < entries.len() ==> decoded(later, (#[trigger] entries[i]).1, values[i])
                    &&& fs == #[trigger] object_entries(entries@, values, entries.len() as nat)
                };
            assert forall|i: int, k: int| 0 <= i < k < entries@.len() implies (#[trigger] entries@[i]).0@ != (
            #[trigger] entries@[k]).0@ by {
                assert(es[i].0 == entries[i].0@);
                assert(es[k].0 == entries[k].0@);
            }
            lemma_object_entries_distinct(entries@, values, entries.len() as nat);
            assert forall|i: int| 0 <= i < es.len() implies entry_matched(
                later,
                #[trigger] es[i],
                fs,
                (depth - 1) as nat,
            ) by {
                assert(fs[i] == (entries@[i].0@, values[i]));
                assert forall|k: int| 0 <= k < i implies (#[trigger] fs[k]).0 != es[i].0 by {
                    assert(fs[k] == (entries@[k].0@, values[k]));
                    assert(es[k].0 == entries[k].0@);
                }
                assert(crate::heap::is_first(fs, es[i].0, i));
                lemma_lookup_first(fs, es[i].0, i);
                law_json_round_trip(heap, later, es[i].1, entries[i].1, values[i], (depth - 1) as nat);
            }
        },
        _ => {},
    }
}

} // verus!
