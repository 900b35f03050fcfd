//! The methods that arrays, strings and dictionaries carry without any
//! class.

use vstd::prelude::*;
use crate::heap::Builtin;
use crate::model;
use crate::text::is_text;
use crate::value::{Value, ValueView};

verus! {

/// The kinds of value that carry built-in methods.
#[derive(Hash, Eq, PartialEq, Clone, Copy, Debug, Structural)]
pub enum TypeDiscriminant {
    Array,
    String,
    Dict,
}

/// The kind of a value where it carries built-in methods.
pub open spec fn kind_of(v: ValueView) -> Option<TypeDiscriminant> {
    match v {
        ValueView::Array(_) => Some(TypeDiscriminant::Array),
        ValueView::String(_) => Some(TypeDiscriminant::String),
        ValueView::Dict(_) => Some(TypeDiscriminant::Dict),
        _ => None,
    }
}

/// The built-in that values of a kind carry under `name`.
pub open spec fn method_of(kind: TypeDiscriminant, name: Seq<char>) -> Option<Builtin> {
    match kind {
        TypeDiscriminant::Array => if name == model::ARRAY_ADD@ {
            Some(Builtin::ArrayAdd)
        } else if name == model::CLEAR@ {
            Some(Builtin::ArrayClear)
        } else {
            None
        },
        TypeDiscriminant::String => if name == model::STRING_LENGTH@ {
            Some(Builtin::StringLength)
        } else if name == model::STRING_SPLIT@ {
            Some(Builtin::StringSplit)
        } else {
            None
        },
        TypeDiscriminant::Dict => if name == model::DICT_KEYS@ {
            Some(Builtin::DictKeys)
        } else if name == model::DICT_VALUES@ {
            Some(Builtin::DictValues)
        } else if name == model::CLEAR@ {
            Some(Builtin::DictClear)
        } else {
            None
        },
    }
}

/// The table agrees with what the machine binds on a property access.
pub proof fn lemma_method_of_agrees(v: ValueView, name: Seq<char>)
    ensures
        model::builtin_of(v, name) == match kind_of(v) {
            Some(kind) => method_of(kind, name),
            None => None,
        },
{
}

/// The table of built-in methods.
#[derive(Debug)]
pub struct BuiltinMethodRegistry {}

impl BuiltinMethodRegistry {
    pub fn new() -> (r: Self) {
        BuiltinMethodRegistry {  }
    }

    /// The kind of a value where it carries built-in methods.
    pub fn discriminant(v: &Value) -> (r: Option<TypeDiscriminant>)
        ensures
            r == kind_of(v@),
    {
        match v {
            Value::Array(_) => Some(TypeDiscriminant::Array),
            Value::String(_) => Some(TypeDiscriminant::String),
            Value::Dict(_) => Some(TypeDiscriminant::Dict),
            _ => None,
        }
    }

    /// The built-in that values of kind `type_disc` carry under
    /// `method_name`.
    pub fn get(&self, type_disc: TypeDiscriminant, method_name: &str) -> (r: Option<Builtin>)
        ensures
            r == method_of(type_disc, method_name@),
    {
        let name = method_name.to_string();
        match type_disc {
            TypeDiscriminant::Array => if is_text(&name, model::ARRAY_ADD) {
                Some(Builtin::ArrayAdd)
            } else if is_text(&name, model::CLEAR) {
                Some(Builtin::ArrayClear)
            } else {
                None
            },
            TypeDiscriminant::String => if is_text(&name, model::STRING_LENGTH) {
                Some(Builtin::StringLength)
            } else if is_text(&name, model::STRING_SPLIT) {
                Some(Builtin::StringSplit)
            } else {
                None
            },
            TypeDiscriminant::Dict => if is_text(&name, model::DICT_KEYS) {
                Some(Builtin::DictKeys)
            } else if is_text(&name, model::DICT_VALUES) {
                Some(Builtin::DictValues)
            } else if is_text(&name, model::CLEAR) {
                Some(Builtin::DictClear)
            } else {
                None
            },
        }
    }
}

} // verus!
