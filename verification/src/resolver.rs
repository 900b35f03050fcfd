//! What an import of a native module does to the symbol table, and which
//! modules a program imports.

use vstd::prelude::*;
use vstd::string::StringExecFns;
use crate::ast::{ModuleBlock, Program, Statement};
use crate::grammar::program_of;
use crate::heap::text_views;
use crate::module::{
    collect_exports, exports_defined, exports_of, extract_namespace, merge_module_ast, namespace_of,
    register_exports_in_symbol_table, LoadedModule,
};
use crate::parse_error::message_of;
use crate::parser::parse_tokens;
use crate::syntax_error::{syntax_error, tells_failure};
use crate::token::{token_views, Token, TokenView};
use crate::native::{has_module, is_first_module, NativeModule, NativeModuleRegistry};
use crate::span::Span;
use crate::symbol_table::{already_defined, defined, has_name, ScopeId, Symbol, SymbolKind, SymbolTable};

verus! {

pub const NATIVE_MISSING_BEFORE: &'static str = "Нативный модуль '";
pub const NATIVE_MISSING_AFTER: &'static str = "' не найден";
pub const NATIVE_ERROR_BEFORE: &'static str = "Ошибка регистрации нативной функции '";
pub const NATIVE_ERROR_MIDDLE: &'static str = "': ";
pub const NATIVE_PATH_BEFORE: &'static str = "<native:";
pub const NATIVE_PATH_AFTER: &'static str = ">";

/// The symbol that stands for a host function.
pub open spec fn native_symbol(name: String) -> Symbol {
    Symbol {
        name,
        kind: SymbolKind::Function,
        is_exported: true,
        span: Span { start: 0, end: 0 },
        module_scope_id: None,
    }
}

/// The symbols of a scope after the first `n` names were defined in it.
pub open spec fn native_symbols(symbols: Seq<Symbol>, names: Seq<String>, n: nat) -> Seq<Symbol>
    decreases n,
{
    if n == 0 {
        symbols
    } else {
        native_symbols(symbols, names, (n - 1) as nat).push(native_symbol(names[n - 1]))
    }
}

/// Whether name `k` is one that the scope has by then.
pub open spec fn name_clashes(symbols: Seq<Symbol>, names: Seq<String>, k: int) -> bool {
    has_name(native_symbols(symbols, names, k as nat), names[k]@)
}

pub open spec fn native_error(name: Seq<char>) -> Seq<char> {
    NATIVE_ERROR_BEFORE@ + name + NATIVE_ERROR_MIDDLE@ + already_defined(name)
}

pub open spec fn native_missing(path: Seq<char>) -> Seq<char> {
    NATIVE_MISSING_BEFORE@ + path + NATIVE_MISSING_AFTER@
}

pub open spec fn native_path(path: Seq<char>) -> Seq<char> {
    NATIVE_PATH_BEFORE@ + path + NATIVE_PATH_AFTER@
}

/// How the symbols of scope `scope_id` and the answer stand after the
/// names were defined in it one by one, up to the first that the scope had
/// already.
pub open spec fn names_defined(before: Seq<Symbol>, after: Seq<Symbol>, names: Seq<String>, r: Result<(), String>) -> bool {
    match r {
        Ok(_) => {
            &&& forall|k: int| 0 <= k < names.len() ==> !name_clashes(before, names, k)
            &&& after == native_symbols(before, names, names.len())
        },
        Err(message) => exists|k: int|
            {
                &&& 0 <= k < names.len()
                &&& #[trigger] name_clashes(before, names, k)
                &&& forall|j: int| 0 <= j < k ==> !name_clashes(before, names, j)
                &&& after == native_symbols(before, names, k as nat)
                &&& message@ == native_error(names[k]@)
            },
    }
}

/// Defines the exports of a native module as functions in the scope
/// `scope_id`, and stops at the first name that the scope has already.
pub fn register_native_exports(exports: &Vec<String>, scope_id: ScopeId, symbol_table: &mut SymbolTable) -> (r:
    Result<(), String>)
    requires
        scope_id.0 < old(symbol_table).scopes@.len(),
    ensures
        final(symbol_table).current_scope == old(symbol_table).current_scope,
        final(symbol_table).scopes@.len() == old(symbol_table).scopes@.len(),
        forall|i: int|
            0 <= i < old(symbol_table).scopes@.len() && i != scope_id.0 ==> final(symbol_table).scopes@[i] == old(
                symbol_table,
            ).scopes@[i],
        final(symbol_table).scopes@[scope_id.0 as int].id == old(symbol_table).scopes@[scope_id.0 as int].id,
        final(symbol_table).scopes@[scope_id.0 as int].parent == old(symbol_table).scopes@[scope_id.0 as int].parent,
        names_defined(
            old(symbol_table).scopes@[scope_id.0 as int].symbols@,
            final(symbol_table).scopes@[scope_id.0 as int].symbols@,
            exports@,
            r,
        ),
{
    let ghost before = symbol_table.scopes@[scope_id.0 as int].symbols@;
    let mut i: usize = 0;
    while i < exports.len()
        invariant
            i <= exports.len(),
            scope_id.0 < symbol_table.scopes@.len(),
            symbol_table.current_scope == old(symbol_table).current_scope,
            symbol_table.scopes@.len() == old(symbol_table).scopes@.len(),
            before == old(symbol_table).scopes@[scope_id.0 as int].symbols@,
            forall|k: int|
                0 <= k < old(symbol_table).scopes@.len() && k != scope_id.0 ==> symbol_table.scopes@[k] == old(
                    symbol_table,
                ).scopes@[k],
            symbol_table.scopes@[scope_id.0 as int].id == old(symbol_table).scopes@[scope_id.0 as int].id,
            symbol_table.scopes@[scope_id.0 as int].parent == old(symbol_table).scopes@[scope_id.0 as int].parent,
            forall|k: int| 0 <= k < i ==> !name_clashes(before, exports@, k),
            symbol_table.scopes@[scope_id.0 as int].symbols@ == native_symbols(before, exports@, i as nat),
        decreases exports.len() - i,
    {
        let name = exports[i].clone();
        let symbol = Symbol::new(name, SymbolKind::Function, true, Span::default());
        assert(symbol == native_symbol(exports@[i as int]));
        match symbol_table.define_in_scope(scope_id, symbol) {
            Ok(()) => {},
            Err(reason) => {
                assert(name_clashes(before, exports@, i as int));
                let message = NATIVE_ERROR_BEFORE.to_string().concat(exports[i].as_str()).concat(
                    NATIVE_ERROR_MIDDLE,
                ).concat(reason.as_str());
                return Err(message);
            },
        }
        i = i + 1;
    }
    Ok(())
}

/// How the table and the answer stand after the native module `module`
/// was loaded: one more scope is there, inside the scope that was current,
/// and is current now; it holds the exports of the module as far as they
/// could be defined.
pub open spec fn native_loaded(
    before: SymbolTable,
    after: SymbolTable,
    module: NativeModule,
    path: Seq<char>,
    alias: Option<String>,
    r: Result<LoadedModule, String>,
) -> bool {
    let id = before.scopes@.len();
    &&& after.scopes@.len() == id + 1
    &&& after.current_scope.0 == id
    &&& after.scopes@.take(id as int) == before.scopes@
    &&& after.scopes@[id as int].id.0 == id
    &&& after.scopes@[id as int].parent == Some(before.current_scope)
    &&& match r {
        Ok(loaded) => {
            &&& names_defined(Seq::empty(), after.scopes@[id as int].symbols@, module.exports@, Ok(()))
            &&& loaded.namespace@ == namespace_of(path, alias)
            &&& loaded.ast.statements@.len() == 0
            &&& text_views(loaded.exports@) == text_views(module.exports@)
            &&& loaded.file_path@ == native_path(path)
            &&& loaded.scope_id.0 == id
        },
        Err(message) => names_defined(
            Seq::empty(),
            after.scopes@[id as int].symbols@,
            module.exports@,
            Err(message),
        ),
    }
}

fn copy_names(names: &Vec<String>) -> (r: Vec<String>)
    ensures
        text_views(r@) == text_views(names@),
{
    let mut out: Vec<String> = Vec::new();
    let mut i: usize = 0;
    while i < names.len()
        invariant
            i <= names.len(),
            out.len() == i,
            forall|k: int| 0 <= k < i ==> (#[trigger] out[k])@ == names[k]@,
        decreases names.len() - i,
    {
        out.push(names[i].clone());
        i = i + 1;
    }
    assert(text_views(out@) =~= text_views(names@));
    out
}

/// Loads the native module at `import_path`: opens a scope for it and
/// defines its exports there. A path that names no native module is an
/// error, and leaves the table as it is.
pub fn load_native_module(
    registry: &NativeModuleRegistry,
    import_path: &str,
    alias: Option<String>,
    symbol_table: &mut SymbolTable,
) -> (r: Result<LoadedModule, String>)
    ensures
        !has_module(registry.modules@, import_path@) ==> {
            &&& *final(symbol_table) == *old(symbol_table)
            &&& r matches Err(message)
            &&& message@ == native_missing(import_path@)
        },
        has_module(registry.modules@, import_path@) ==> exists|i: int|
            is_first_module(registry.modules@, import_path@, i) && native_loaded(
                *old(symbol_table),
                *final(symbol_table),
                #[trigger] registry.modules@[i],
                import_path@,
                alias,
                r,
            ),
{
    let module = match registry.get_module(import_path) {
        Some(module) => module,
        None => {
            return Err(NATIVE_MISSING_BEFORE.to_string().concat(import_path).concat(NATIVE_MISSING_AFTER));
        },
    };
    let ghost place = choose|i: int| is_first_module(registry.modules@, import_path@, i) && *module == registry.modules@[i];
    let namespace = extract_namespace(import_path, alias);
    let exports = copy_names(&module.exports);
    let scope_id = symbol_table.push_scope();
    assert(symbol_table.scopes@[scope_id.0 as int].symbols@ =~= Seq::empty());
    match register_native_exports(&module.exports, scope_id, symbol_table) {
        Ok(()) => {
            let file_path = NATIVE_PATH_BEFORE.to_string().concat(import_path).concat(NATIVE_PATH_AFTER);
            let loaded = LoadedModule {
                namespace,
                ast: Program { statements: Vec::new() },
                exports,
                file_path,
                scope_id,
            };
            proof {
                assert(symbol_table.scopes@.take(old(symbol_table).scopes@.len() as int) =~= old(
                    symbol_table,
                ).scopes@);
                assert(native_loaded(
                    *old(symbol_table),
                    *symbol_table,
                    registry.modules@[place],
                    import_path@,
                    alias,
                    Ok(loaded),
                ));
            }
            Ok(loaded)
        },
        Err(message) => {
            proof {
                assert(symbol_table.scopes@.take(old(symbol_table).scopes@.len() as int) =~= old(
                    symbol_table,
                ).scopes@);
                assert(native_loaded(
                    *old(symbol_table),
                    *symbol_table,
                    registry.modules@[place],
                    import_path@,
                    alias,
                    Err(message),
                ));
            }
            Err(message)
        },
    }
}

pub const MODULE_PARSE_BEFORE: &'static str = "Ошибка парсинга модуля ";
pub const MODULE_PARSE_MIDDLE: &'static str = ": ";
pub const MODULE_WARNING_BEFORE: &'static str = "Предупреждение: не удалось зарегистрировать модуль '";
pub const MODULE_WARNING_MIDDLE: &'static str = "': ";

/// Whether `after` is `before` with one more scope, opened inside the
/// scope that was current and current now.
pub open spec fn scope_opened(before: SymbolTable, after: SymbolTable) -> bool {
    let id = before.scopes@.len();
    &&& after.scopes@.len() == id + 1
    &&& after.current_scope.0 == id
    &&& after.scopes@.take(id as int) == before.scopes@
    &&& after.scopes@[id as int].id.0 == id
    &&& after.scopes@[id as int].parent == Some(before.current_scope)
}

/// What is answered for a module whose tokens are no program: where the
/// module lies and what the error says.
pub open spec fn unread_module(file_path: Seq<char>, error: Seq<char>) -> Seq<char> {
    MODULE_PARSE_BEFORE@ + file_path + MODULE_PARSE_MIDDLE@ + error
}

/// How the table and the answer stand after a module was read from its
/// tokens. Tokens that are no program leave the table alone. A program
/// gets a scope of its own, in which its exports are defined one by one;
/// an export whose name is taken by then is an error.
pub open spec fn module_loaded(
    before: SymbolTable,
    after: SymbolTable,
    tokens: Seq<TokenView>,
    import_path: Seq<char>,
    alias: Option<String>,
    file_path: String,
    r: Result<LoadedModule, String>,
) -> bool {
    match program_of(tokens) {
        Err(failure) => {
            &&& after == before
            &&& r matches Err(message)
            &&& exists|error: crate::parse_error::PonosParseError|
                tells_failure(error, tokens, failure) && message@ == unread_module(
                    file_path@,
                    message_of(error.kind),
                )
        },
        Ok(statements) => {
            let id = before.scopes@.len();
            &&& scope_opened(before, after)
            &&& match r {
                Ok(loaded) => {
                    &&& loaded.ast@ == statements
                    &&& exports_defined(
                        Seq::empty(),
                        after.scopes@[id as int].symbols@,
                        loaded.ast.statements@,
                        Ok(()),
                    )
                    &&& text_views(loaded.exports@) == exports_of(
                        loaded.ast.statements@,
                        loaded.ast.statements@.len(),
                    )
                    &&& loaded.namespace@ == namespace_of(import_path, alias)
                    &&& loaded.file_path == file_path
                    &&& loaded.scope_id.0 == id
                },
                Err(message) => exists|ast: Program|
                    ast@ == statements && exports_defined(
                        Seq::empty(),
                        after.scopes@[id as int].symbols@,
                        ast.statements@,
                        Err(message),
                    ),
            }
        },
    }
}

/// Reads a module from its tokens: parses them, opens a scope for the
/// module and defines there what it exports.
pub fn load_from_tokens(
    tokens: &Vec<Token>,
    import_path: &str,
    alias: Option<String>,
    file_path: String,
    symbol_table: &mut SymbolTable,
) -> (r: Result<LoadedModule, String>)
    ensures
        module_loaded(
            *old(symbol_table),
            *final(symbol_table),
            token_views(tokens@),
            import_path@,
            alias,
            file_path,
            r,
        ),
{
    let ast = match parse_tokens(tokens) {
        Ok(ast) => ast,
        Err(failure) => {
            let error = syntax_error(tokens, failure);
            let message = MODULE_PARSE_BEFORE.to_string().concat(file_path.as_str()).concat(
                MODULE_PARSE_MIDDLE,
            ).concat(error.describe().as_str());
            return Err(message);
        },
    };
    let exports = collect_exports(&ast);
    let namespace = extract_namespace(import_path, alias);
    let scope_id = symbol_table.push_scope();
    assert(symbol_table.scopes@[scope_id.0 as int].symbols@ =~= Seq::empty());
    match register_exports_in_symbol_table(&ast, scope_id, symbol_table) {
        Ok(()) => {
            proof {
                assert(symbol_table.scopes@.take(old(symbol_table).scopes@.len() as int) =~= old(
                    symbol_table,
                ).scopes@);
            }
            Ok(LoadedModule { namespace, ast, exports, file_path, scope_id })
        },
        Err(message) => {
            proof {
                assert(symbol_table.scopes@.take(old(symbol_table).scopes@.len() as int) =~= old(
                    symbol_table,
                ).scopes@);
            }
            Err(message)
        },
    }
}

/// The symbol under which a program knows a module that it imports.
pub open spec fn module_symbol(namespace: String, scope_id: ScopeId) -> Symbol {
    Symbol {
        name: namespace,
        kind: SymbolKind::Module,
        is_exported: false,
        span: Span { start: 0, end: 0 },
        module_scope_id: Some(scope_id),
    }
}

pub open spec fn module_warning(namespace: Seq<char>, reason: Seq<char>) -> Seq<char> {
    MODULE_WARNING_BEFORE@ + namespace + MODULE_WARNING_MIDDLE@ + reason
}

/// Takes a loaded module into a program: defines the module's namespace
/// in the current scope and appends the module's statements as a module
/// block. Where the name is taken the statements are appended all the
/// same, and the answer is a warning.
pub fn adopt_module(ast: &mut Program, loaded: LoadedModule, symbol_table: &mut SymbolTable) -> (warning: Option<
    String,
>)
    ensures
        final(symbol_table).current_scope == old(symbol_table).current_scope,
        final(ast).statements@ == old(ast).statements@.push(
            Statement::ModuleBlock(
                ModuleBlock {
                    namespace: loaded.namespace,
                    statements: loaded.ast.statements,
                    span: Span { start: 0, end: 0 },
                },
            ),
        ),
        exists|r: Result<(), String>|
            {
                &&& defined(
                    old(symbol_table).scopes@,
                    final(symbol_table).scopes@,
                    old(symbol_table).current_scope,
                    module_symbol(loaded.namespace, loaded.scope_id),
                    r,
                )
                &&& match r {
                    Ok(_) => warning is None,
                    Err(reason) => warning matches Some(text) && text@ == module_warning(
                        loaded.namespace@,
                        reason@,
                    ),
                }
            },
{
    let symbol = Symbol::new_module(loaded.namespace.clone(), loaded.scope_id, Span::default());
    assert(symbol == module_symbol(loaded.namespace, loaded.scope_id));
    let defined_as = symbol_table.define(symbol);
    let warning = match &defined_as {
        Ok(_) => None,
        Err(reason) => Some(
            MODULE_WARNING_BEFORE.to_string().concat(loaded.namespace.as_str()).concat(
                MODULE_WARNING_MIDDLE,
            ).concat(reason.as_str()),
        ),
    };
    merge_module_ast(ast, loaded);
    warning
}

/// What is kept of a module that was loaded: where it lies, its
/// namespace, what it exports, and the scope that holds its exports.
#[derive(Debug)]
pub struct Cached {
    pub path: String,
    pub namespace: String,
    pub exports: Vec<String>,
    pub scope_id: ScopeId,
}

/// Whether `i` is the place of the first module that lies at `path`.
pub open spec fn is_first_cached(loaded: Seq<Cached>, path: Seq<char>, i: int) -> bool {
    &&& 0 <= i < loaded.len()
    &&& loaded[i].path@ == path
    &&& forall|j: int| 0 <= j < i ==> (#[trigger] loaded[j]).path@ != path
}

/// Whether a module that lies at `path` was loaded.
pub open spec fn has_cached(loaded: Seq<Cached>, path: Seq<char>) -> bool {
    exists|i: int| 0 <= i < loaded.len() && (#[trigger] loaded[i]).path@ == path
}

/// Whether `module` is what an import gets of the module kept as `kept`:
/// its exports and its scope, under the alias where there is one and else
/// under the namespace it was loaded with, and no statements, which the
/// program has already.
pub open spec fn recalled(kept: Cached, alias: Option<String>, module: LoadedModule) -> bool {
    &&& module.namespace@ == match alias {
        Some(name) => name@,
        None => kept.namespace@,
    }
    &&& module.ast.statements@.len() == 0
    &&& text_views(module.exports@) == text_views(kept.exports@)
    &&& module.file_path@ == kept.path@
    &&& module.scope_id == kept.scope_id
}

/// The module at `path` where it was loaded before: the first that is
/// kept under that path, without its statements.
pub fn cached_module(loaded: &Vec<Cached>, path: &str, alias: Option<String>) -> (r: Option<LoadedModule>)
    ensures
        match r {
            Some(module) => exists|i: int|
                is_first_cached(loaded@, path@, i) && recalled(#[trigger] loaded@[i], alias, module),
            None => !has_cached(loaded@, path@),
        },
{
    let wanted = path.to_string();
    let mut i: usize = 0;
    while i < loaded.len()
        invariant
            i <= loaded.len(),
            wanted@ == path@,
            forall|j: int| 0 <= j < i ==> (#[trigger] loaded[j]).path@ != path@,
        decreases loaded.len() - i,
    {
        if loaded[i].path == wanted {
            let namespace = match alias {
                Some(name) => name,
                None => loaded[i].namespace.clone(),
            };
            let module = LoadedModule {
                namespace,
                ast: Program { statements: Vec::new() },
                exports: copy_names(&loaded[i].exports),
                file_path: loaded[i].path.clone(),
                scope_id: loaded[i].scope_id,
            };
            assert(is_first_cached(loaded@, path@, i as int));
            assert(recalled(loaded@[i as int], alias, module));
            return Some(module);
        }
        i = i + 1;
    }
    None
}

/// Keeps a module that was loaded from `path`, behind those kept before.
pub fn remember_module(loaded: &mut Vec<Cached>, path: String, module: &LoadedModule)
    ensures
        final(loaded)@.len() == old(loaded)@.len() + 1,
        final(loaded)@.take(old(loaded)@.len() as int) == old(loaded)@,
        ({
            let kept = final(loaded)@[old(loaded)@.len() as int];
            &&& kept.path == path
            &&& kept.namespace@ == module.namespace@
            &&& text_views(kept.exports@) == text_views(module.exports@)
            &&& kept.scope_id == module.scope_id
        }),
{
    let kept = Cached {
        path,
        namespace: module.namespace.clone(),
        exports: copy_names(&module.exports),
        scope_id: module.scope_id,
    };
    loaded.push(kept);
    assert(loaded@.take(old(loaded)@.len() as int) =~= old(loaded)@);
}

/// The import that a statement is.
pub open spec fn import_of(statement: Statement) -> Option<(String, Option<String>)> {
    match statement {
        Statement::Import(import) => Some((import.path, import.alias)),
        _ => None,
    }
}

/// The imports among the first `n` statements, in order.
pub open spec fn imports_among(statements: Seq<Statement>, n: nat) -> Seq<(String, Option<String>)>
    decreases n,
{
    if n == 0 {
        Seq::empty()
    } else {
        match import_of(statements[n - 1]) {
            Some(import) => imports_among(statements, (n - 1) as nat).push(import),
            None => imports_among(statements, (n - 1) as nat),
        }
    }
}

/// The modules that a program imports at its top level, each with its
/// alias, in order.
pub fn collect_imports(ast: &Program) -> (r: Vec<(String, Option<String>)>)
    ensures
        r@ == imports_among(ast.statements@, ast.statements@.len()),
{
    let mut imports: Vec<(String, Option<String>)> = Vec::new();
    let mut i: usize = 0;
    while i < ast.statements.len()
        invariant
            i <= ast.statements.len(),
            imports@ == imports_among(ast.statements@, i as nat),
        decreases ast.statements.len() - i,
    {
        match &ast.statements[i] {
            Statement::Import(import) => {
                let alias: Option<String> = match &import.alias {
                    Some(name) => Some(name.clone()),
                    None => None,
                };
                imports.push((import.path.clone(), alias));
            },
            _ => {},
        }
        i = i + 1;
    }
    imports
}

} // verus!
