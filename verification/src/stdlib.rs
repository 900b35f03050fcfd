//! The modules of the standard library whose source is part of the library.

use vstd::prelude::*;
use crate::text::is_text;

verus! {

/// The path of the mathematics module.
pub const MATH_PATH: &'static str = "стд/математика";

/// The source of the mathematics module.
pub const MATH_SOURCE: &'static str = "// Математические константы и функции\nэкспорт пер ПИ = 3.141592653589793;\nэкспорт пер Е = 2.718281828459045;\n\nэкспорт функ квадрат(x)\n    возврат x * x;\nконец\n\nэкспорт функ куб(x)\n    возврат x * x * x;\nконец\n\nэкспорт функ модуль(x)\n    если x < 0\n        возврат -x;\n    конец\n    возврат x;\nконец\n\nэкспорт функ максимум(a, b)\n    если a > b\n        возврат a;\n    конец\n    возврат b;\nконец\n\nэкспорт функ минимум(a, b)\n    если a < b\n        возврат a;\n    конец\n    возврат b;\nконец\n";

/// Whether `path` names a module whose source is embedded.
pub fn is_embedded_stdlib(path: &str) -> (r: bool)
    ensures
        r == (path@ == MATH_PATH@),
{
    is_text(&path.to_string(), MATH_PATH)
}

/// The source of the embedded module at `path`.
pub fn get_embedded_source(path: &str) -> (r: Option<&'static str>)
    ensures
        match r {
            Some(source) => path@ == MATH_PATH@ && source@ == MATH_SOURCE@,
            None => path@ != MATH_PATH@,
        },
{
    if is_embedded_stdlib(path) {
        Some(MATH_SOURCE)
    } else {
        None
    }
}

} // verus!
