use vstd::prelude::*;
use crate::number::Number;
use crate::opcode::OpCode;

verus! {

/// Handle of a host function in the machine's native table.
#[derive(Clone, Copy, Debug, PartialEq, Eq, Structural)]
pub struct NativeFnId(pub usize);

/// Says where a closure finds one captured variable when it is created:
/// in a local slot of the creating frame, or among that frame's own upvalues.
#[derive(Clone, Copy, Debug, PartialEq, Eq, Structural)]
pub struct UpvalueDescriptor {
    pub is_local: bool,
    pub index: usize,
}

/// A runtime value. Values with identity (arrays, dictionaries, closures,
/// classes, instances, bound methods) are handles into the machine's heap, and
/// a function is a handle into its function table; two handles are the same
/// object exactly when they are equal.
#[derive(Clone, Debug, PartialEq)]
pub enum Value {
    Number(Number),
    String(String),
    Boolean(bool),
    Nil,
    Function(usize),
    NativeFunction(NativeFnId),
    Closure(usize),
    Class(usize),
    Instance(usize),
    BoundMethod(usize),
    Range(Option<Number>, Option<Number>),
    Array(usize),
    Dict(usize),
}

/// The mathematical content of a [`Value`].
pub enum ValueView {
    Number(Number),
    String(Seq<char>),
    Boolean(bool),
    Nil,
    Function(usize),
    NativeFunction(usize),
    Closure(usize),
    Class(usize),
    Instance(usize),
    BoundMethod(usize),
    Range(Option<Number>, Option<Number>),
    Array(usize),
    Dict(usize),
}

impl View for Value {
    type V = ValueView;

    open spec fn view(&self) -> ValueView {
        match *self {
            Value::Number(n) => ValueView::Number(n),
            Value::String(s) => ValueView::String(s@),
            Value::Boolean(b) => ValueView::Boolean(b),
            Value::Nil => ValueView::Nil,
            Value::Function(f) => ValueView::Function(f),
            Value::NativeFunction(id) => ValueView::NativeFunction(id.0),
            Value::Closure(c) => ValueView::Closure(c),
            Value::Class(c) => ValueView::Class(c),
            Value::Instance(i) => ValueView::Instance(i),
            Value::BoundMethod(b) => ValueView::BoundMethod(b),
            Value::Range(s, e) => ValueView::Range(s, e),
            Value::Array(a) => ValueView::Array(a),
            Value::Dict(d) => ValueView::Dict(d),
        }
    }
}

/// The views of a sequence of values, in order.
pub open spec fn views(s: Seq<Value>) -> Seq<ValueView> {
    s.map_values(|v: Value| v@)
}

impl Value {
    /// A copy of the value; handles stay handles of the same object.
    pub fn duplicate(&self) -> (r: Value)
        ensures
            r@ == self@,
    {
        match self {
            Value::Number(n) => Value::Number(*n),
            Value::String(s) => Value::String(s.clone()),
            Value::Boolean(b) => Value::Boolean(*b),
            Value::Nil => Value::Nil,
            Value::Function(f) => Value::Function(*f),
            Value::NativeFunction(id) => Value::NativeFunction(*id),
            Value::Closure(c) => Value::Closure(*c),
            Value::Class(c) => Value::Class(*c),
            Value::Instance(i) => Value::Instance(*i),
            Value::BoundMethod(b) => Value::BoundMethod(*b),
            Value::Range(s, e) => Value::Range(*s, *e),
            Value::Array(a) => Value::Array(*a),
            Value::Dict(d) => Value::Dict(*d),
        }
    }
}

/// The hashable subset of values, as used for dictionary keys.
#[derive(Debug, Clone, PartialEq, Eq, Hash)]
pub enum ValueKey {
    Number(u64),
    String(String),
    Boolean(bool),
}

pub enum KeyView {
    Number(u64),
    String(Seq<char>),
    Boolean(bool),
}

impl View for ValueKey {
    type V = KeyView;

    open spec fn view(&self) -> KeyView {
        match *self {
            ValueKey::Number(n) => KeyView::Number(n),
            ValueKey::String(s) => KeyView::String(s@),
            ValueKey::Boolean(b) => KeyView::Boolean(b),
        }
    }
}

/// The key that a value is filed under, if it may be a key at all.
pub open spec fn key_of(v: ValueView) -> Option<KeyView> {
    match v {
        ValueView::Number(n) => Some(KeyView::Number(n.key_bits())),
        ValueView::String(s) => Some(KeyView::String(s)),
        ValueView::Boolean(b) => Some(KeyView::Boolean(b)),
        _ => None,
    }
}

/// The value that a key gives back when the keys of a dictionary are listed.
pub open spec fn value_of_key(k: KeyView) -> ValueView {
    match k {
        KeyView::Number(n) => ValueView::Number(Number { bits: n }),
        KeyView::String(s) => ValueView::String(s),
        KeyView::Boolean(b) => ValueView::Boolean(b),
    }
}

impl ValueKey {
    /// The key for a value: numbers, strings and booleans may be keys, and
    /// nothing else.
    pub fn from_value(v: &Value) -> (r: Result<ValueKey, String>)
        ensures
            match key_of(v@) {
                Some(k) => r matches Ok(key) && key@ == k,
                None => r matches Err(msg) && msg@ == KEY_ERROR@,
            },
    {
        match v {
            Value::Number(n) => Ok(ValueKey::Number(n.key())),
            Value::String(s) => Ok(ValueKey::String(s.clone())),
            Value::Boolean(b) => Ok(ValueKey::Boolean(*b)),
            _ => Err(KEY_ERROR.to_string()),
        }
    }

    /// A copy of the key.
    pub fn duplicate(&self) -> (r: ValueKey)
        ensures
            r@ == self@,
    {
        match self {
            ValueKey::Number(n) => ValueKey::Number(*n),
            ValueKey::String(s) => ValueKey::String(s.clone()),
            ValueKey::Boolean(b) => ValueKey::Boolean(*b),
        }
    }

    pub fn to_value(&self) -> (r: Value)
        ensures
            r@ == value_of_key(self@),
    {
        match self {
            ValueKey::Number(n) => Value::Number(Number { bits: *n }),
            ValueKey::String(s) => Value::String(s.clone()),
            ValueKey::Boolean(b) => Value::Boolean(*b),
        }
    }

    pub fn same(&self, other: &ValueKey) -> (r: bool)
        ensures
            r == (self@ == other@),
    {
        match (self, other) {
            (ValueKey::Number(a), ValueKey::Number(b)) => *a == *b,
            (ValueKey::String(a), ValueKey::String(b)) => *a == *b,
            (ValueKey::Boolean(a), ValueKey::Boolean(b)) => *a == *b,
            _ => false,
        }
    }
}

/// What is thrown when a value that cannot be a key is used as one.
pub const KEY_ERROR: &'static str = "Ключом словаря может быть только число, строка или булево значение";

/// A compiled function body with its own constant pool.
#[derive(Clone, Debug)]
pub struct Function {
    pub arity: usize,
    pub opcodes: Vec<OpCode>,
    pub constants: Vec<Value>,
    pub name: String,
    pub upvalue_count: usize,
    pub upvalue_descriptors: Vec<UpvalueDescriptor>,
}

pub struct FunctionView {
    pub arity: usize,
    pub opcodes: Seq<OpCode>,
    pub constants: Seq<ValueView>,
    pub name: Seq<char>,
    pub upvalue_count: usize,
    pub upvalue_descriptors: Seq<UpvalueDescriptor>,
}

impl View for Function {
    type V = FunctionView;

    open spec fn view(&self) -> FunctionView {
        FunctionView {
            arity: self.arity,
            opcodes: self.opcodes@,
            constants: views(self.constants@),
            name: self.name@,
            upvalue_count: self.upvalue_count,
            upvalue_descriptors: self.upvalue_descriptors@,
        }
    }
}

} // verus!
