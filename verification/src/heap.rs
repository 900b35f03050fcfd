use vstd::prelude::*;
use crate::value::{KeyView, Value, ValueKey, ValueView, views};

verus! {

/// A method that primitive containers carry without any class.
#[derive(Clone, Copy, Debug, PartialEq, Eq, Structural)]
pub enum Builtin {
    ArrayAdd,
    ArrayClear,
    StringLength,
    StringSplit,
    DictKeys,
    DictValues,
    DictClear,
}

/// What a bound method runs: a compiled function or a built-in.
#[derive(Clone, Copy, Debug, PartialEq, Eq, Structural)]
pub enum Method {
    Function(usize),
    Builtin(Builtin),
}

/// A captured variable. While open it is the stack slot it names; once
/// closed it holds the value itself.
#[derive(Clone, Debug, PartialEq)]
pub enum Upvalue {
    Open(usize),
    Closed(Value),
}

pub enum UpvalueView {
    Open(usize),
    Closed(ValueView),
}

impl View for Upvalue {
    type V = UpvalueView;

    open spec fn view(&self) -> UpvalueView {
        match *self {
            Upvalue::Open(slot) => UpvalueView::Open(slot),
            Upvalue::Closed(v) => UpvalueView::Closed(v@),
        }
    }
}

/// A function together with the cells of the variables it captured.
#[derive(Clone, Debug, PartialEq)]
pub struct Closure {
    pub function: usize,
    pub upvalues: Vec<usize>,
}

#[derive(Clone, Debug, PartialEq)]
pub struct Class {
    pub name: String,
    pub methods: Vec<(String, usize)>,
    pub fields: Vec<String>,
    pub parent: Option<usize>,
}

#[derive(Clone, Debug, PartialEq)]
pub struct Instance {
    pub class: usize,
    pub fields: Vec<(String, Value)>,
}

/// A receiver paired with the method to run on it.
#[derive(Clone, Debug, PartialEq)]
pub struct BoundMethod {
    pub receiver: Value,
    pub method: Method,
}

/// An object of the heap: everything that is shared by reference.
#[derive(Clone, Debug, PartialEq)]
pub enum Object {
    Array(Vec<Value>),
    Dict(Vec<(ValueKey, Value)>),
    Closure(Closure),
    Class(Class),
    Instance(Instance),
    BoundMethod(BoundMethod),
}

pub enum ObjectView {
    Array(Seq<ValueView>),
    Dict(Seq<(KeyView, ValueView)>),
    Closure { function: usize, upvalues: Seq<usize> },
    Class { name: Seq<char>, methods: Seq<(Seq<char>, usize)>, fields: Seq<Seq<char>>, parent: Option<usize> },
    Instance { class: usize, fields: Seq<(Seq<char>, ValueView)> },
    BoundMethod { receiver: ValueView, method: Method },
}

/// Name-to-function entries as mathematical pairs.
pub open spec fn method_views(s: Seq<(String, usize)>) -> Seq<(Seq<char>, usize)> {
    s.map_values(|e: (String, usize)| (e.0@, e.1))
}

/// Name-to-value entries as mathematical pairs.
pub open spec fn field_views(s: Seq<(String, Value)>) -> Seq<(Seq<char>, ValueView)> {
    s.map_values(|e: (String, Value)| (e.0@, e.1@))
}

/// Key-to-value entries as mathematical pairs.
pub open spec fn entry_views(s: Seq<(ValueKey, Value)>) -> Seq<(KeyView, ValueView)> {
    s.map_values(|e: (ValueKey, Value)| (e.0@, e.1@))
}

pub open spec fn text_views(s: Seq<String>) -> Seq<Seq<char>> {
    s.map_values(|t: String| t@)
}

impl View for Object {
    type V = ObjectView;

    open spec fn view(&self) -> ObjectView {
        match *self {
            Object::Array(items) => ObjectView::Array(views(items@)),
            Object::Dict(entries) => ObjectView::Dict(entry_views(entries@)),
            Object::Closure(c) => ObjectView::Closure { function: c.function, upvalues: c.upvalues@ },
            Object::Class(c) => ObjectView::Class {
                name: c.name@,
                methods: method_views(c.methods@),
                fields: text_views(c.fields@),
                parent: c.parent,
            },
            Object::Instance(i) => ObjectView::Instance { class: i.class, fields: field_views(i.fields@) },
            Object::BoundMethod(b) => ObjectView::BoundMethod { receiver: b.receiver@, method: b.method },
        }
    }
}

pub open spec fn object_views(s: Seq<Object>) -> Seq<ObjectView> {
    s.map_values(|o: Object| o@)
}

pub open spec fn upvalue_views(s: Seq<Upvalue>) -> Seq<UpvalueView> {
    s.map_values(|u: Upvalue| u@)
}

/// Whether `i` is the first entry of `entries` filed under `key`.
pub open spec fn is_first<K, V>(entries: Seq<(K, V)>, key: K, i: int) -> bool {
    &&& 0 <= i < entries.len()
    &&& entries[i].0 == key
    &&& forall|j: int| 0 <= j < i ==> (#[trigger] entries[j]).0 != key
}

/// The index of the first entry filed under `key`, if there is one.
pub open spec fn lookup<K, V>(entries: Seq<(K, V)>, key: K) -> Option<int> {
    if exists|i: int| is_first(entries, key, i) {
        Some(choose|i: int| is_first(entries, key, i))
    } else {
        None
    }
}

/// The entries with `value` filed under `key`: in place of the first entry
/// under that key, or at the end when there is none.
pub open spec fn with_entry<K, V>(entries: Seq<(K, V)>, key: K, value: V) -> Seq<(K, V)> {
    match lookup(entries, key) {
        Some(i) => entries.update(i, (key, value)),
        None => entries.push((key, value)),
    }
}

/// The first entry under a key is the only one that `lookup` can give.
pub proof fn lemma_lookup_first<K, V>(entries: Seq<(K, V)>, key: K, i: int)
    requires
        is_first(entries, key, i),
    ensures
        lookup(entries, key) == Some(i),
{
    let j = choose|j: int| is_first(entries, key, j);
    assert(is_first(entries, key, j));
    if j < i {
        assert(entries[j].0 != key);
    }
    if i < j {
        assert(entries[i].0 != key);
    }
}

/// A key that no entry carries is not found.
pub proof fn lemma_lookup_absent<K, V>(entries: Seq<(K, V)>, key: K)
    requires
        forall|j: int| 0 <= j < entries.len() ==> (#[trigger] entries[j]).0 != key,
    ensures
        lookup(entries, key) is None,
{
}

/// What `lookup` gives for a key after `with_entry` filed a value under it,
/// and for any other key.
pub proof fn lemma_with_entry<K, V>(entries: Seq<(K, V)>, key: K, value: V, other: K)
    ensures
        lookup(with_entry(entries, key, value), key) matches Some(i)
            && with_entry(entries, key, value)[i].1 == value,
        other != key ==> lookup(with_entry(entries, key, value), other) == lookup(entries, other),
        other != key ==> (lookup(entries, other) matches Some(j) ==> with_entry(entries, key, value)[j]
            == entries[j]),
{
    let after = with_entry(entries, key, value);
    match lookup(entries, key) {
        Some(i) => {
            assert(is_first(entries, key, i));
            assert forall|j: int| 0 <= j < i implies (#[trigger] after[j]).0 != key by {
                assert(entries[j].0 != key);
            }
            assert(is_first(after, key, i));
            lemma_lookup_first(after, key, i);
        },
        None => {
            let n = entries.len() as int;
            assert forall|j: int| 0 <= j < n implies (#[trigger] after[j]).0 != key by {
                if entries[j].0 == key {
                    lemma_has_first(entries, key, j);
                }
            }
            assert(is_first(after, key, n));
            lemma_lookup_first(after, key, n);
        },
    }
    if other != key {
        match lookup(entries, other) {
            Some(j) => {
                assert(is_first(entries, other, j));
                assert forall|m: int| 0 <= m < j implies (#[trigger] after[m]).0 != other by {
                    assert(entries[m].0 != other);
                }
                assert(is_first(after, other, j));
                lemma_lookup_first(after, other, j);
            },
            None => {
                assert forall|m: int| 0 <= m < after.len() implies (#[trigger] after[m]).0 != other by {
                    if m < entries.len() && entries[m].0 == other {
                        lemma_has_first(entries, other, m);
                    }
                }
                lemma_lookup_absent(after, other);
            },
        }
    }
}

/// Where some entry carries a key, a first one does.
pub proof fn lemma_has_first<K, V>(entries: Seq<(K, V)>, key: K, at: int)
    requires
        0 <= at < entries.len(),
        entries[at].0 == key,
    ensures
        exists|i: int| is_first(entries, key, i),
    decreases at,
{
    if forall|j: int| 0 <= j < at ==> (#[trigger] entries[j]).0 != key {
        assert(is_first(entries, key, at));
    } else {
        let j = choose|j: int| 0 <= j < at && (#[trigger] entries[j]).0 == key;
        lemma_has_first(entries, key, j);
    }
}

/// The place of the first field filed under `name`.
pub fn find_field(entries: &Vec<(String, Value)>, name: &String) -> (r: Option<usize>)
    ensures
        match r {
            Some(i) => lookup(field_views(entries@), name@) == Some(i as int) && i < entries.len(),
            None => lookup(field_views(entries@), name@) is None,
        },
{
    let ghost all = field_views(entries@);
    let mut i: usize = 0;
    while i < entries.len()
        invariant
            i <= entries.len(),
            all == field_views(entries@),
            forall|j: int| 0 <= j < i ==> (#[trigger] all[j]).0 != name@,
        decreases entries.len() - i,
    {
        if entries[i].0 == *name {
            proof {
                assert(all[i as int].0 == name@);
                lemma_lookup_first(all, name@, i as int);
            }
            return Some(i);
        }
        assert(all[i as int].0 != name@);
        i = i + 1;
    }
    proof {
        lemma_lookup_absent(all, name@);
    }
    None
}

/// The place of the first method filed under `name`.
pub fn find_entry(entries: &Vec<(String, usize)>, name: &String) -> (r: Option<usize>)
    ensures
        match r {
            Some(i) => lookup(method_views(entries@), name@) == Some(i as int) && i < entries.len(),
            None => lookup(method_views(entries@), name@) is None,
        },
{
    let ghost all = method_views(entries@);
    let mut i: usize = 0;
    while i < entries.len()
        invariant
            i <= entries.len(),
            all == method_views(entries@),
            forall|j: int| 0 <= j < i ==> (#[trigger] all[j]).0 != name@,
        decreases entries.len() - i,
    {
        if entries[i].0 == *name {
            proof {
                assert(all[i as int].0 == name@);
                lemma_lookup_first(all, name@, i as int);
            }
            return Some(i);
        }
        assert(all[i as int].0 != name@);
        i = i + 1;
    }
    proof {
        lemma_lookup_absent(all, name@);
    }
    None
}

/// The place of the first dictionary entry filed under `key`.
pub fn find_key(entries: &Vec<(ValueKey, Value)>, key: &ValueKey) -> (r: Option<usize>)
    ensures
        match r {
            Some(i) => lookup(entry_views(entries@), key@) == Some(i as int) && i < entries.len(),
            None => lookup(entry_views(entries@), key@) is None,
        },
{
    let ghost all = entry_views(entries@);
    let mut i: usize = 0;
    while i < entries.len()
        invariant
            i <= entries.len(),
            all == entry_views(entries@),
            forall|j: int| 0 <= j < i ==> (#[trigger] all[j]).0 != key@,
        decreases entries.len() - i,
    {
        if entries[i].0.same(key) {
            proof {
                assert(all[i as int].0 == key@);
                lemma_lookup_first(all, key@, i as int);
            }
            return Some(i);
        }
        assert(all[i as int].0 != key@);
        i = i + 1;
    }
    proof {
        lemma_lookup_absent(all, key@);
    }
    None
}

/// Files `value` under `name`, in place of the first field of that name
/// where there is one.
pub fn set_field(entries: &mut Vec<(String, Value)>, name: String, value: Value)
    ensures
        field_views(final(entries)@) == with_entry(field_views(old(entries)@), name@, value@),
{
    match find_field(entries, &name) {
        Some(i) => {
            entries[i] = (name, value);
            assert(field_views(entries@) =~= field_views(old(entries)@).update(i as int, (name@, value@)));
        },
        None => {
            entries.push((name, value));
            assert(field_views(entries@) =~= field_views(old(entries)@).push((name@, value@)));
        },
    }
}

/// Files `function` under `name`, in place of the first method of that name
/// where there is one.
pub fn set_method(entries: &mut Vec<(String, usize)>, name: String, function: usize)
    ensures
        method_views(final(entries)@) == with_entry(method_views(old(entries)@), name@, function),
{
    match find_entry(entries, &name) {
        Some(i) => {
            entries[i] = (name, function);
            assert(method_views(entries@) =~= method_views(old(entries)@).update(i as int, (name@, function)));
        },
        None => {
            entries.push((name, function));
            assert(method_views(entries@) =~= method_views(old(entries)@).push((name@, function)));
        },
    }
}

/// Files `value` under `key`, in place of the first entry under that key
/// where there is one.
pub fn set_key(entries: &mut Vec<(ValueKey, Value)>, key: ValueKey, value: Value)
    ensures
        entry_views(final(entries)@) == with_entry(entry_views(old(entries)@), key@, value@),
{
    match find_key(entries, &key) {
        Some(i) => {
            entries[i] = (key, value);
            assert(entry_views(entries@) =~= entry_views(old(entries)@).update(i as int, (key@, value@)));
        },
        None => {
            entries.push((key, value));
            assert(entry_views(entries@) =~= entry_views(old(entries)@).push((key@, value@)));
        },
    }
}

} // verus!
