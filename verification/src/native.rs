//! The bridge to host functions: which native modules there are, what they
//! export, and how their functions are bound to global names of a machine.

use vstd::prelude::*;
use vstd::string::StringExecFns;
use crate::heap::{text_views, with_entry};
use crate::model::{NativeKind, VmView};
use crate::text::is_text;
use crate::value::ValueView;
use crate::vm::VM;

verus! {

pub const MODULE_IO: &'static str = "стд/ввод_вывод";
pub const MODULE_FS: &'static str = "стд/фс";
pub const MODULE_SYSTEM: &'static str = "стд/система";
pub const MODULE_STRINGS: &'static str = "стд/строки";
pub const MODULE_JSON: &'static str = "стд/json";
pub const MODULE_NET: &'static str = "стд/сеть";

pub const IO_PRINT: &'static str = "вывести";
pub const IO_INPUT: &'static str = "ввести";
pub const FS_READ: &'static str = "читать";
pub const FS_WRITE: &'static str = "писать";
pub const FS_EXISTS: &'static str = "существует";
pub const FS_DELETE: &'static str = "удалить";
pub const SYS_EXECUTE: &'static str = "выполнить";
pub const ENV_GET: &'static str = "получить_переменную_среды";
pub const ENV_SET: &'static str = "установить_переменную_среды";
pub const SYS_ARGS: &'static str = "аргументы";
pub const STR_SPLIT: &'static str = "разделить";
pub const STR_TRIM: &'static str = "обрезать";
pub const STR_REPLACE: &'static str = "заменить";
pub const STR_UPPER: &'static str = "верхний_регистр";
pub const STR_LOWER: &'static str = "нижний_регистр";
pub const STR_STARTS_WITH: &'static str = "начинается_с";
pub const JSON_PARSE: &'static str = "десериализовать";
pub const JSON_STRINGIFY: &'static str = "сериализовать";
pub const NET_REQUEST: &'static str = "запрос";
pub const NET_GET: &'static str = "получить";
pub const NET_REQUEST_JSON: &'static str = "запрос_json";

pub const SEPARATOR: &'static str = "::";

pub const MISSING_BEFORE: &'static str = "Нативный модуль '";
pub const MISSING_AFTER: &'static str = "' не найден";
pub const UNKNOWN_BEFORE: &'static str = "Неизвестный нативный модуль '";
pub const UNKNOWN_AFTER: &'static str = "'";

/// A native module: its path and the names it exports.
#[derive(Debug)]
pub struct NativeModule {
    pub name: String,
    pub exports: Vec<String>,
}

/// The native modules that a program can import, latest registration
/// first among those of one name.
#[derive(Debug)]
pub struct NativeModuleRegistry {
    pub modules: Vec<NativeModule>,
}

/// Whether the library has host functions for the module at `path`.
pub open spec fn known_module(path: Seq<char>) -> bool {
    path == MODULE_IO@ || path == MODULE_FS@ || path == MODULE_SYSTEM@ || path == MODULE_STRINGS@ || path
        == MODULE_JSON@ || path == MODULE_NET@
}

/// The host function behind the export `name` of the module at `path`.
pub open spec fn native_kind(path: Seq<char>, name: Seq<char>) -> Option<NativeKind> {
    if path == MODULE_IO@ {
        if name == IO_PRINT@ {
            Some(NativeKind::IoPrint)
        } else if name == IO_INPUT@ {
            Some(NativeKind::IoInput)
        } else {
            None
        }
    } else if path == MODULE_FS@ {
        if name == FS_READ@ {
            Some(NativeKind::FsRead)
        } else if name == FS_WRITE@ {
            Some(NativeKind::FsWrite)
        } else if name == FS_EXISTS@ {
            Some(NativeKind::FsExists)
        } else if name == FS_DELETE@ {
            Some(NativeKind::FsDelete)
        } else {
            None
        }
    } else if path == MODULE_SYSTEM@ {
        if name == SYS_EXECUTE@ {
            Some(NativeKind::SysExecute)
        } else if name == ENV_GET@ {
            Some(NativeKind::EnvGet)
        } else if name == ENV_SET@ {
            Some(NativeKind::EnvSet)
        } else if name == SYS_ARGS@ {
            Some(NativeKind::SysArgs)
        } else {
            None
        }
    } else if path == MODULE_STRINGS@ {
        if name == STR_SPLIT@ {
            Some(NativeKind::StrSplit)
        } else if name == STR_TRIM@ {
            Some(NativeKind::StrTrim)
        } else if name == STR_REPLACE@ {
            Some(NativeKind::StrReplace)
        } else if name == STR_UPPER@ {
            Some(NativeKind::StrUpper)
        } else if name == STR_LOWER@ {
            Some(NativeKind::StrLower)
        } else if name == STR_STARTS_WITH@ {
            Some(NativeKind::StrStartsWith)
        } else {
            None
        }
    } else if path == MODULE_JSON@ {
        if name == JSON_PARSE@ {
            Some(NativeKind::JsonParse)
        } else if name == JSON_STRINGIFY@ {
            Some(NativeKind::JsonStringify)
        } else {
            None
        }
    } else if path == MODULE_NET@ {
        if name == NET_REQUEST@ {
            Some(NativeKind::NetRequest)
        } else if name == NET_GET@ {
            Some(NativeKind::NetGet)
        } else if name == NET_REQUEST_JSON@ {
            Some(NativeKind::NetRequestJson)
        } else {
            None
        }
    } else {
        None
    }
}

fn kind_of(path: &String, name: &String) -> (r: Option<NativeKind>)
    ensures
        r == native_kind(path@, name@),
{
    if is_text(path, MODULE_IO) {
        if is_text(name, IO_PRINT) {
            Some(NativeKind::IoPrint)
        } else if is_text(name, IO_INPUT) {
            Some(NativeKind::IoInput)
        } else {
            None
        }
    } else if is_text(path, MODULE_FS) {
        if is_text(name, FS_READ) {
            Some(NativeKind::FsRead)
        } else if is_text(name, FS_WRITE) {
            Some(NativeKind::FsWrite)
        } else if is_text(name, FS_EXISTS) {
            Some(NativeKind::FsExists)
        } else if is_text(name, FS_DELETE) {
            Some(NativeKind::FsDelete)
        } else {
            None
        }
    } else if is_text(path, MODULE_SYSTEM) {
        if is_text(name, SYS_EXECUTE) {
            Some(NativeKind::SysExecute)
        } else if is_text(name, ENV_GET) {
            Some(NativeKind::EnvGet)
        } else if is_text(name, ENV_SET) {
            Some(NativeKind::EnvSet)
        } else if is_text(name, SYS_ARGS) {
            Some(NativeKind::SysArgs)
        } else {
            None
        }
    } else if is_text(path, MODULE_STRINGS) {
        if is_text(name, STR_SPLIT) {
            Some(NativeKind::StrSplit)
        } else if is_text(name, STR_TRIM) {
            Some(NativeKind::StrTrim)
        } else if is_text(name, STR_REPLACE) {
            Some(NativeKind::StrReplace)
        } else if is_text(name, STR_UPPER) {
            Some(NativeKind::StrUpper)
        } else if is_text(name, STR_LOWER) {
            Some(NativeKind::StrLower)
        } else if is_text(name, STR_STARTS_WITH) {
            Some(NativeKind::StrStartsWith)
        } else {
            None
        }
    } else if is_text(path, MODULE_JSON) {
        if is_text(name, JSON_PARSE) {
            Some(NativeKind::JsonParse)
        } else if is_text(name, JSON_STRINGIFY) {
            Some(NativeKind::JsonStringify)
        } else {
            None
        }
    } else if is_text(path, MODULE_NET) {
        if is_text(name, NET_REQUEST) {
            Some(NativeKind::NetRequest)
        } else if is_text(name, NET_GET) {
            Some(NativeKind::NetGet)
        } else if is_text(name, NET_REQUEST_JSON) {
            Some(NativeKind::NetRequestJson)
        } else {
            None
        }
    } else {
        None
    }
}

fn is_known(path: &String) -> (r: bool)
    ensures
        r == known_module(path@),
{
    is_text(path, MODULE_IO) || is_text(path, MODULE_FS) || is_text(path, MODULE_SYSTEM) || is_text(
        path,
        MODULE_STRINGS,
    ) || is_text(path, MODULE_JSON) || is_text(path, MODULE_NET)
}

/// Whether `i` is the place of the first module called `path`.
pub open spec fn is_first_module(modules: Seq<NativeModule>, path: Seq<char>, i: int) -> bool {
    &&& 0 <= i < modules.len()
    &&& modules[i].name@ == path
    &&& forall|j: int| 0 <= j < i ==> (#[trigger] modules[j]).name@ != path
}

/// Whether some module is called `path`.
pub open spec fn has_module(modules: Seq<NativeModule>, path: Seq<char>) -> bool {
    exists|i: int| 0 <= i < modules.len() && (#[trigger] modules[i]).name@ == path
}

/// The machine with one more host function, bound to the global `name`.
pub open spec fn with_native(s: VmView, name: Seq<char>, kind: NativeKind) -> VmView {
    VmView {
        natives: s.natives.push(kind),
        globals: with_entry(s.globals, name, ValueView::NativeFunction(s.natives.len() as usize)),
        ..s
    }
}

/// The machine after the first `n` exports of a module were bound under
/// `namespace`; an export that the library has no function for is passed
/// over.
pub open spec fn with_exports(s: VmView, path: Seq<char>, namespace: Seq<char>, exports: Seq<String>, n: nat) -> VmView
    decreases n,
{
    if n == 0 {
        s
    } else {
        let before = with_exports(s, path, namespace, exports, (n - 1) as nat);
        let name = exports[n - 1]@;
        match native_kind(path, name) {
            Some(kind) => with_native(before, namespace + SEPARATOR@ + name, kind),
            None => before,
        }
    }
}

fn module(name: &str, exports: Vec<&str>) -> (r: NativeModule)
    ensures
        r.name@ == name@,
        text_views(r.exports@) == exports@.map_values(|e: &str| e@),
        r.exports@.len() == exports@.len(),
        forall|i: int| 0 <= i < exports@.len() ==> (#[trigger] r.exports@[i])@ == exports@[i]@,
{
    let mut names: Vec<String> = Vec::new();
    let mut i: usize = 0;
    while i < exports.len()
        invariant
            i <= exports.len(),
            names@.len() == i,
            forall|j: int| 0 <= j < i ==> (#[trigger] names@[j])@ == exports@[j]@,
        decreases exports.len() - i,
    {
        names.push(exports[i].to_string());
        i = i + 1;
    }
    assert(text_views(names@) =~= exports@.map_values(|e: &str| e@));
    NativeModule { name: name.to_string(), exports: names }
}

/// A native module as mathematics: its path and the names it exports, in
/// order.
pub open spec fn module_view(module: NativeModule) -> (Seq<char>, Seq<Seq<char>>) {
    (module.name@, text_views(module.exports@))
}

pub open spec fn module_views(modules: Seq<NativeModule>) -> Seq<(Seq<char>, Seq<Seq<char>>)> {
    modules.map_values(|m: NativeModule| module_view(m))
}

/// The six modules of the standard library, each with the names it
/// exports, in order.
pub open spec fn standard_modules() -> Seq<(Seq<char>, Seq<Seq<char>>)> {
    seq![
        (MODULE_IO@, seq![IO_PRINT@, IO_INPUT@]),
        (MODULE_FS@, seq![FS_READ@, FS_WRITE@, FS_EXISTS@, FS_DELETE@]),
        (MODULE_SYSTEM@, seq![SYS_EXECUTE@, ENV_GET@, ENV_SET@, SYS_ARGS@]),
        (
            MODULE_STRINGS@,
            seq![STR_SPLIT@, STR_TRIM@, STR_REPLACE@, STR_UPPER@, STR_LOWER@, STR_STARTS_WITH@],
        ),
        (MODULE_JSON@, seq![JSON_PARSE@, JSON_STRINGIFY@]),
        (MODULE_NET@, seq![NET_REQUEST@, NET_GET@, NET_REQUEST_JSON@]),
    ]
}

/// What the first module called `path` exports, in order; nothing where
/// no module is called so.
pub open spec fn exports_of(modules: Seq<NativeModule>, path: Seq<char>) -> Option<Seq<Seq<char>>> {
    match choose_first(modules, path) {
        Some(i) => Some(text_views(modules[i].exports@)),
        None => None,
    }
}

impl NativeModuleRegistry {
    /// The registry with the six modules of the standard library.
    pub fn new() -> (r: Self)
        ensures
            module_views(r.modules@) == standard_modules(),
            exports_of(r.modules@, MODULE_IO@) == Some(seq![IO_PRINT@, IO_INPUT@]),
            exports_of(r.modules@, MODULE_FS@) == Some(seq![FS_READ@, FS_WRITE@, FS_EXISTS@, FS_DELETE@]),
            exports_of(r.modules@, MODULE_SYSTEM@) == Some(seq![SYS_EXECUTE@, ENV_GET@, ENV_SET@, SYS_ARGS@]),
            exports_of(r.modules@, MODULE_STRINGS@) == Some(
                seq![STR_SPLIT@, STR_TRIM@, STR_REPLACE@, STR_UPPER@, STR_LOWER@, STR_STARTS_WITH@],
            ),
            exports_of(r.modules@, MODULE_JSON@) == Some(seq![JSON_PARSE@, JSON_STRINGIFY@]),
            exports_of(r.modules@, MODULE_NET@) == Some(seq![NET_REQUEST@, NET_GET@, NET_REQUEST_JSON@]),
            r.modules@.len() == 6,
            has_module(r.modules@, MODULE_IO@),
            has_module(r.modules@, MODULE_FS@),
            has_module(r.modules@, MODULE_SYSTEM@),
            has_module(r.modules@, MODULE_STRINGS@),
            has_module(r.modules@, MODULE_JSON@),
            has_module(r.modules@, MODULE_NET@),
            forall|i: int| 0 <= i < 6 ==> known_module((#[trigger] r.modules@[i]).name@),
    {
        let mut modules: Vec<NativeModule> = Vec::new();
        modules.push(module(MODULE_IO, vec![IO_PRINT, IO_INPUT]));
        modules.push(module(MODULE_FS, vec![FS_READ, FS_WRITE, FS_EXISTS, FS_DELETE]));
        modules.push(module(MODULE_SYSTEM, vec![SYS_EXECUTE, ENV_GET, ENV_SET, SYS_ARGS]));
        modules.push(
            module(MODULE_STRINGS, vec![STR_SPLIT, STR_TRIM, STR_REPLACE, STR_UPPER, STR_LOWER, STR_STARTS_WITH]),
        );
        modules.push(module(MODULE_JSON, vec![JSON_PARSE, JSON_STRINGIFY]));
        modules.push(module(MODULE_NET, vec![NET_REQUEST, NET_GET, NET_REQUEST_JSON]));
        proof {
            assert(modules@[0].name@ == MODULE_IO@);
            assert(modules@[1].name@ == MODULE_FS@);
            assert(modules@[2].name@ == MODULE_SYSTEM@);
            assert(modules@[3].name@ == MODULE_STRINGS@);
            assert(modules@[4].name@ == MODULE_JSON@);
            assert(modules@[5].name@ == MODULE_NET@);
            assert(module_view(modules@[0]).1 =~= standard_modules()[0].1);
            assert(module_view(modules@[1]).1 =~= standard_modules()[1].1);
            assert(module_view(modules@[2]).1 =~= standard_modules()[2].1);
            assert(module_view(modules@[3]).1 =~= standard_modules()[3].1);
            assert(module_view(modules@[4]).1 =~= standard_modules()[4].1);
            assert(module_view(modules@[5]).1 =~= standard_modules()[5].1);
            assert(module_views(modules@) =~= standard_modules());
            reveal_strlit("стд/ввод_вывод");
            reveal_strlit("стд/фс");
            reveal_strlit("стд/система");
            reveal_strlit("стд/строки");
            reveal_strlit("стд/json");
            reveal_strlit("стд/сеть");
            assert(is_first_module(modules@, MODULE_IO@, 0));
            assert(is_first_module(modules@, MODULE_FS@, 1));
            assert(is_first_module(modules@, MODULE_SYSTEM@, 2));
            assert(is_first_module(modules@, MODULE_STRINGS@, 3));
            assert(is_first_module(modules@, MODULE_JSON@, 4));
            assert(MODULE_NET@[4] != MODULE_JSON@[4]);
            assert(is_first_module(modules@, MODULE_NET@, 5));
            lemma_first_module_unique(modules@, MODULE_IO@, 0);
            lemma_first_module_unique(modules@, MODULE_FS@, 1);
            lemma_first_module_unique(modules@, MODULE_SYSTEM@, 2);
            lemma_first_module_unique(modules@, MODULE_STRINGS@, 3);
            lemma_first_module_unique(modules@, MODULE_JSON@, 4);
            lemma_first_module_unique(modules@, MODULE_NET@, 5);
        }
        NativeModuleRegistry { modules }
    }

    /// The place of the first module called `path`.
    fn position(&self, path: &str) -> (r: Option<usize>)
        ensures
            match r {
                Some(i) => is_first_module(self.modules@, path@, i as int),
                None => !has_module(self.modules@, path@),
            },
    {
        let wanted = path.to_string();
        let mut i: usize = 0;
        while i < self.modules.len()
            invariant
                i <= self.modules.len(),
                wanted@ == path@,
                forall|j: int| 0 <= j < i ==> (#[trigger] self.modules@[j]).name@ != path@,
            decreases self.modules.len() - i,
        {
            if self.modules[i].name == wanted {
                return Some(i);
            }
            i = i + 1;
        }
        None
    }

    /// Registers a module, in place of the one that has its name where
    /// there is one.
    pub fn register_module(&mut self, module: NativeModule)
        ensures
            has_module(final(self).modules@, module.name@),
            match choose_first(old(self).modules@, module.name@) {
                Some(i) => final(self).modules@ == old(self).modules@.update(i, module),
                None => final(self).modules@ == old(self).modules@.push(module),
            },
    {
        match self.position(module.name.as_str()) {
            Some(i) => {
                proof {
                    lemma_first_module_unique(self.modules@, module.name@, i as int);
                }
                self.modules[i] = module;
                assert(self.modules@[i as int].name@ == module.name@);
            },
            None => {
                self.modules.push(module);
                assert(self.modules@[self.modules@.len() - 1].name@ == module.name@);
            },
        }
    }

    /// Whether `path` names a native module.
    pub fn is_native_module(&self, path: &str) -> (r: bool)
        ensures
            r == has_module(self.modules@, path@),
    {
        self.position(path).is_some()
    }

    /// The native module at `path`.
    pub fn get_module(&self, path: &str) -> (r: Option<&NativeModule>)
        ensures
            match r {
                Some(module) => {
                    &&& exists|i: int| is_first_module(self.modules@, path@, i) && *module == self.modules@[i]
                    &&& module.name@ == path@
                    &&& exports_of(self.modules@, path@) == Some(text_views(module.exports@))
                },
                None => !has_module(self.modules@, path@) && exports_of(self.modules@, path@) is None,
            },
    {
        match self.position(path) {
            Some(i) => {
                proof {
                    lemma_first_module_unique(self.modules@, path@, i as int);
                }
                Some(&self.modules[i])
            },
            None => None,
        }
    }

    /// Binds the functions of the module at `path` to global names
    /// of the machine, each under `namespace::export`. A path that is not
    /// registered, or that the library has no functions for, is an error
    /// and leaves the machine as it was.
    pub fn register_module_in_vm(&self, path: &str, namespace: &str, vm: &mut VM) -> (r: Result<(), String>)
        ensures
            match choose_first(self.modules@, path@) {
                None => {
                    &&& final(vm)@ == old(vm)@
                    &&& r matches Err(message)
                    &&& message@ == MISSING_BEFORE@ + path@ + MISSING_AFTER@
                },
                Some(i) => if known_module(path@) {
                    &&& r is Ok
                    &&& final(vm)@ == with_exports(
                        old(vm)@,
                        path@,
                        namespace@,
                        self.modules@[i].exports@,
                        self.modules@[i].exports@.len(),
                    )
                } else {
                    &&& final(vm)@ == old(vm)@
                    &&& r matches Err(message)
                    &&& message@ == UNKNOWN_BEFORE@ + path@ + UNKNOWN_AFTER@
                },
            },
    {
        let at: usize = match self.position(path) {
            Some(i) => i,
            None => {
                return Err(MISSING_BEFORE.to_string().concat(path).concat(MISSING_AFTER));
            },
        };
        proof {
            lemma_first_module_unique(self.modules@, path@, at as int);
        }
        let wanted = path.to_string();
        if !is_known(&wanted) {
            return Err(UNKNOWN_BEFORE.to_string().concat(path).concat(UNKNOWN_AFTER));
        }
        let exports = &self.modules[at].exports;
        let mut i: usize = 0;
        while i < exports.len()
            invariant
                i <= exports.len(),
                wanted@ == path@,
                vm@ == with_exports(old(vm)@, path@, namespace@, exports@, i as nat),
            decreases exports.len() - i,
        {
            match kind_of(&wanted, &exports[i]) {
                Some(kind) => {
                    let mangled = namespace.to_string().concat(SEPARATOR).concat(exports[i].as_str());
                    vm.register_and_define(mangled.as_str(), kind);
                },
                None => {},
            }
            i = i + 1;
        }
        Ok(())
    }
}

/// The place of the first module called `path`, where there is one.
pub open spec fn choose_first(modules: Seq<NativeModule>, path: Seq<char>) -> Option<int> {
    if has_module(modules, path) {
        Some(choose|i: int| is_first_module(modules, path, i))
    } else {
        None
    }
}

proof fn lemma_first_module_unique(modules: Seq<NativeModule>, path: Seq<char>, i: int)
    requires
        is_first_module(modules, path, i),
    ensures
        choose_first(modules, path) == Some(i),
{
    let j = choose|j: int| is_first_module(modules, path, j);
    assert(is_first_module(modules, path, j));
    if j < i {
        assert(modules[j].name@ != path);
    }
    if i < j {
        assert(modules[i].name@ != path);
    }
}

} // verus!
