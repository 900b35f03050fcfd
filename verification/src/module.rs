//! Modules and their imports.

use vstd::prelude::*;
use vstd::string::{StrSliceExecFns, StringExecFns};
use crate::ast::{ModuleBlock, Program, Statement};
use crate::heap::text_views;
use crate::loader::{file_name, EXTENSION};
use crate::span::Span;
use crate::symbol_table::{defined, ScopeId, Symbol, SymbolKind, SymbolTable};
use crate::text::{ends_with, occurs_at};

verus! {

/// One import of a module.
#[derive(Debug)]
pub struct Import {
    pub path: String,
    /// The namespace to use in place of the module's own.
    pub alias: Option<String>,
    pub span: Span,
}

impl Import {
    pub fn new(path: String, alias: Option<String>, span: Span) -> (r: Self)
        ensures
            r.path == path,
            r.alias == alias,
            r.span == span,
    {
        Import { path, alias, span }
    }
}

/// A module: its syntax tree, the scope of its symbols, and its imports in
/// the order they were added.
#[derive(Debug)]
pub struct Module {
    pub name: String,
    pub file_path: String,
    pub ast: Program,
    pub scope_id: ScopeId,
    pub imports: Vec<Import>,
}

impl Module {
    pub fn new(name: String, file_path: String, ast: Program, scope_id: ScopeId) -> (r: Self)
        ensures
            r.name == name,
            r.file_path == file_path,
            r.ast == ast,
            r.scope_id == scope_id,
            r.imports@.len() == 0,
    {
        Module { name, file_path, ast, scope_id, imports: Vec::new() }
    }

    pub fn add_import(&mut self, import: Import)
        ensures
            final(self).imports@ == old(self).imports@.push(import),
            final(self).name == old(self).name,
            final(self).file_path == old(self).file_path,
            final(self).ast == old(self).ast,
            final(self).scope_id == old(self).scope_id,
    {
        self.imports.push(import);
    }

    pub fn import_count(&self) -> (r: usize)
        ensures
            r == self.imports@.len(),
    {
        self.imports.len()
    }
}

/// Whether `i` is the place of the first module called `name`.
pub open spec fn is_first_called(modules: Seq<Module>, name: Seq<char>, i: int) -> bool {
    &&& 0 <= i < modules.len()
    &&& modules[i].name@ == name
    &&& forall|j: int| 0 <= j < i ==> (#[trigger] modules[j]).name@ != name
}

/// Whether some module is called `name`.
pub open spec fn has_called(modules: Seq<Module>, name: Seq<char>) -> bool {
    exists|i: int| 0 <= i < modules.len() && (#[trigger] modules[i]).name@ == name
}

/// The modules that were loaded, one under each name.
#[derive(Debug)]
pub struct ModuleRegistry {
    pub modules: Vec<Module>,
}

impl ModuleRegistry {
    pub fn new() -> (r: Self)
        ensures
            r.modules@.len() == 0,
    {
        ModuleRegistry { modules: Vec::new() }
    }

    fn position(&self, name: &str) -> (r: Option<usize>)
        ensures
            match r {
                Some(i) => is_first_called(self.modules@, name@, i as int),
                None => !has_called(self.modules@, name@),
            },
    {
        let wanted = name.to_string();
        let mut i: usize = 0;
        while i < self.modules.len()
            invariant
                i <= self.modules.len(),
                wanted@ == name@,
                forall|j: int| 0 <= j < i ==> (#[trigger] self.modules@[j]).name@ != name@,
            decreases self.modules.len() - i,
        {
            if self.modules[i].name == wanted {
                return Some(i);
            }
            i = i + 1;
        }
        None
    }

    /// Registers a module, in place of the one of its name where there is
    /// one.
    pub fn register(&mut self, module: Module)
        ensures
            has_called(final(self).modules@, module.name@),
            if has_called(old(self).modules@, module.name@) {
                &&& final(self).modules@.len() == old(self).modules@.len()
                &&& exists|i: int|
                    is_first_called(old(self).modules@, module.name@, i) && final(self).modules@ == old(
                        self,
                    ).modules@.update(i, module)
            } else {
                final(self).modules@ == old(self).modules@.push(module)
            },
    {
        match self.position(module.name.as_str()) {
            Some(i) => {
                self.modules[i] = module;
                assert(self.modules@[i as int].name@ == module.name@);
            },
            None => {
                self.modules.push(module);
                assert(self.modules@[self.modules@.len() - 1].name@ == module.name@);
            },
        }
    }

    /// The module called `name`.
    pub fn get(&self, name: &str) -> (r: Option<&Module>)
        ensures
            match r {
                Some(module) => exists|i: int|
                    is_first_called(self.modules@, name@, i) && *module == self.modules@[i],
                None => !has_called(self.modules@, name@),
            },
    {
        match self.position(name) {
            Some(i) => Some(&self.modules[i]),
            None => None,
        }
    }

    pub fn contains(&self, name: &str) -> (r: bool)
        ensures
            r == has_called(self.modules@, name@),
    {
        self.position(name).is_some()
    }

    pub fn count(&self) -> (r: usize)
        ensures
            r == self.modules@.len(),
    {
        self.modules.len()
    }

    /// The names of the modules, in the order of their registration.
    pub fn module_names(&self) -> (r: Vec<String>)
        ensures
            r@.len() == self.modules@.len(),
            forall|i: int| 0 <= i < r@.len() ==> (#[trigger] r@[i])@ == self.modules@[i].name@,
    {
        let mut r: Vec<String> = Vec::new();
        let mut i: usize = 0;
        while i < self.modules.len()
            invariant
                i <= self.modules.len(),
                r@.len() == i,
                forall|j: int| 0 <= j < i ==> (#[trigger] r@[j])@ == self.modules@[j].name@,
            decreases self.modules.len() - i,
        {
            r.push(self.modules[i].name.clone());
            i = i + 1;
        }
        r
    }
}

/// A module that was loaded for an import: its namespace, where it came
/// from, its syntax tree and the scope of its symbols.
#[derive(Debug)]
pub struct LoadedModule {
    pub namespace: String,
    pub ast: Program,
    /// The names that the module exports.
    pub exports: Vec<String>,
    pub file_path: String,
    pub scope_id: ScopeId,
}

/// The name that a top-level statement exports, and the kind of what it
/// names.
pub open spec fn export_of(statement: Statement) -> Option<(String, SymbolKind, Span)> {
    match statement {
        Statement::VarDecl(decl) => if decl.is_exported {
            Some((decl.name, SymbolKind::Variable, decl.span))
        } else {
            None
        },
        Statement::FuncDecl(decl) => if decl.is_exported {
            Some((decl.name, SymbolKind::Function, decl.span))
        } else {
            None
        },
        Statement::ClassDecl(decl) => if decl.is_exported {
            Some((decl.name, SymbolKind::Class, decl.span))
        } else {
            None
        },
        Statement::InterfaceDecl(decl) => if decl.is_exported {
            Some((decl.name, SymbolKind::Interface, decl.span))
        } else {
            None
        },
        Statement::AnnotationDecl(decl) => if decl.is_exported {
            Some((decl.name, SymbolKind::Annotation, decl.span))
        } else {
            None
        },
        _ => None,
    }
}

/// The names that the first `n` statements export, in order.
pub open spec fn exports_of(statements: Seq<Statement>, n: nat) -> Seq<Seq<char>>
    decreases n,
{
    if n == 0 {
        Seq::empty()
    } else {
        match export_of(statements[n - 1]) {
            Some((name, _, _)) => exports_of(statements, (n - 1) as nat).push(name@),
            None => exports_of(statements, (n - 1) as nat),
        }
    }
}

fn exported(statement: &Statement) -> (r: Option<(String, SymbolKind, Span)>)
    ensures
        r == export_of(*statement),
{
    match statement {
        Statement::VarDecl(decl) => if decl.is_exported {
            Some((decl.name.clone(), SymbolKind::Variable, decl.span))
        } else {
            None
        },
        Statement::FuncDecl(decl) => if decl.is_exported {
            Some((decl.name.clone(), SymbolKind::Function, decl.span))
        } else {
            None
        },
        Statement::ClassDecl(decl) => if decl.is_exported {
            Some((decl.name.clone(), SymbolKind::Class, decl.span))
        } else {
            None
        },
        Statement::InterfaceDecl(decl) => if decl.is_exported {
            Some((decl.name.clone(), SymbolKind::Interface, decl.span))
        } else {
            None
        },
        Statement::AnnotationDecl(decl) => if decl.is_exported {
            Some((decl.name.clone(), SymbolKind::Annotation, decl.span))
        } else {
            None
        },
        _ => None,
    }
}

/// The names that a module exports: those of its exported variables,
/// functions, classes, interfaces and annotations, in order.
pub fn collect_exports(ast: &Program) -> (r: Vec<String>)
    ensures
        text_views(r@) == exports_of(ast.statements@, ast.statements@.len()),
{
    let mut r: Vec<String> = Vec::new();
    let mut i: usize = 0;
    assert(text_views(r@) =~= exports_of(ast.statements@, 0));
    while i < ast.statements.len()
        invariant
            i <= ast.statements.len(),
            text_views(r@) == exports_of(ast.statements@, i as nat),
        decreases ast.statements.len() - i,
    {
        match exported(&ast.statements[i]) {
            Some((name, _, _)) => {
                let ghost before = text_views(r@);
                r.push(name);
                assert(text_views(r@) =~= before.push(name@));
            },
            None => {},
        }
        i = i + 1;
    }
    r
}

/// The namespace of an import: its alias, or the last part of its path
/// without the extension.
pub open spec fn namespace_of(import_path: Seq<char>, alias: Option<String>) -> Seq<char> {
    match alias {
        Some(name) => name@,
        None => {
            let last = file_name(import_path);
            if EXTENSION@.len() <= last.len() && occurs_at(last, EXTENSION@, last.len() - EXTENSION@.len()) {
                last.subrange(0, last.len() - EXTENSION@.len())
            } else {
                last
            }
        },
    }
}

/// The namespace of an import.
pub fn extract_namespace(import_path: &str, alias: Option<String>) -> (r: String)
    ensures
        r@ == namespace_of(import_path@, alias),
{
    match alias {
        Some(name) => name,
        None => {
            let last = crate::loader::last_part(import_path);
            if ends_with(last.as_str(), EXTENSION) {
                proof {
                    reveal_strlit(".pns");
                }
                let n: usize = last.as_str().unicode_len();
                last.as_str().substring_char(0, n - 4).to_string()
            } else {
                last
            }
        },
    }
}

pub const EXPORT_ERROR_BEFORE: &'static str = "Ошибка регистрации символа '";

pub const EXPORT_ERROR_MIDDLE: &'static str = "': ";

/// The symbols of a scope after the exports among the first `n`
/// statements were defined in it.
pub open spec fn symbols_after(symbols: Seq<Symbol>, statements: Seq<Statement>, n: nat) -> Seq<Symbol>
    decreases n,
{
    if n == 0 {
        symbols
    } else {
        match export_of(statements[n - 1]) {
            Some((name, kind, span)) => symbols_after(symbols, statements, (n - 1) as nat).push(
                Symbol { name, kind, is_exported: true, span, module_scope_id: None },
            ),
            None => symbols_after(symbols, statements, (n - 1) as nat),
        }
    }
}

/// Whether statement `k` exports a name that the scope has by then.
pub open spec fn clashes(symbols: Seq<Symbol>, statements: Seq<Statement>, k: int) -> bool {
    export_of(statements[k]) matches Some((name, _, _)) && crate::symbol_table::has_name(
        symbols_after(symbols, statements, k as nat),
        name@,
    )
}

/// What the registration of an export answers when its name is taken.
pub open spec fn export_error(name: Seq<char>) -> Seq<char> {
    EXPORT_ERROR_BEFORE@ + name + EXPORT_ERROR_MIDDLE@ + crate::symbol_table::already_defined(name)
}

/// How the symbols of a scope and the answer stand after the exports among
/// the statements were defined in it one by one, up to the first whose name
/// the scope had already.
pub open spec fn exports_defined(
    before: Seq<Symbol>,
    after: Seq<Symbol>,
    statements: Seq<Statement>,
    r: Result<(), String>,
) -> bool {
    match r {
        Ok(_) => {
            &&& forall|k: int| 0 <= k < statements.len() ==> !clashes(before, statements, k)
            &&& after == symbols_after(before, statements, statements.len())
        },
        Err(message) => exists|k: int|
            {
                &&& 0 <= k < statements.len()
                &&& #[trigger] clashes(before, statements, k)
                &&& forall|j: int| 0 <= j < k ==> !clashes(before, statements, j)
                &&& after == symbols_after(before, statements, k as nat)
                &&& message@ == export_error(export_of(statements[k])->Some_0.0@)
            },
    }
}

/// Defines what a module exports in the scope `scope_id`, statement by
/// statement, and stops at the first name that the scope has already.
pub fn register_exports_in_symbol_table(ast: &Program, scope_id: ScopeId, symbol_table: &mut SymbolTable) -> (r:
    Result<(), String>)
    requires
        scope_id.0 < old(symbol_table).scopes@.len(),
    ensures
        final(symbol_table).current_scope == old(symbol_table).current_scope,
        final(symbol_table).scopes@.len() == old(symbol_table).scopes@.len(),
        forall|i: int|
            0 <= i < old(symbol_table).scopes@.len() && i != scope_id.0 ==> final(symbol_table).scopes@[i] == old(
                symbol_table,
            ).scopes@[i],
        final(symbol_table).scopes@[scope_id.0 as int].id == old(symbol_table).scopes@[scope_id.0 as int].id,
        final(symbol_table).scopes@[scope_id.0 as int].parent == old(symbol_table).scopes@[scope_id.0 as int].parent,
        exports_defined(
            old(symbol_table).scopes@[scope_id.0 as int].symbols@,
            final(symbol_table).scopes@[scope_id.0 as int].symbols@,
            ast.statements@,
            r,
        ),
{
    let ghost before = symbol_table.scopes@[scope_id.0 as int].symbols@;
    let mut i: usize = 0;
    while i < ast.statements.len()
        invariant
            i <= ast.statements.len(),
            scope_id.0 < symbol_table.scopes@.len(),
            symbol_table.current_scope == old(symbol_table).current_scope,
            symbol_table.scopes@.len() == old(symbol_table).scopes@.len(),
            before == old(symbol_table).scopes@[scope_id.0 as int].symbols@,
            forall|k: int|
                0 <= k < old(symbol_table).scopes@.len() && k != scope_id.0 ==> symbol_table.scopes@[k] == old(
                    symbol_table,
                ).scopes@[k],
            symbol_table.scopes@[scope_id.0 as int].id == old(symbol_table).scopes@[scope_id.0 as int].id,
            symbol_table.scopes@[scope_id.0 as int].parent == old(symbol_table).scopes@[scope_id.0 as int].parent,
            forall|k: int| 0 <= k < i ==> !clashes(before, ast.statements@, k),
            symbol_table.scopes@[scope_id.0 as int].symbols@ == symbols_after(before, ast.statements@, i as nat),
        decreases ast.statements.len() - i,
    {
        match exported(&ast.statements[i]) {
            Some((name, kind, span)) => {
                let label = name.clone();
                let symbol = Symbol::new(name, kind, true, span);
                match symbol_table.define_in_scope(scope_id, symbol) {
                    Ok(()) => {},
                    Err(reason) => {
                        assert(clashes(before, ast.statements@, i as int));
                        let message = EXPORT_ERROR_BEFORE.to_string().concat(label.as_str()).concat(
                            EXPORT_ERROR_MIDDLE,
                        ).concat(reason.as_str());
                        return Err(message);
                    },
                }
            },
            None => {},
        }
        i = i + 1;
    }
    Ok(())
}

/// Appends the statements of a loaded module to a program, as one module
/// block under the module's namespace.
pub fn merge_module_ast(main_ast: &mut Program, loaded_module: LoadedModule)
    ensures
        final(main_ast).statements@ == old(main_ast).statements@.push(
            Statement::ModuleBlock(
                ModuleBlock {
                    namespace: loaded_module.namespace,
                    statements: loaded_module.ast.statements,
                    span: Span { start: 0, end: 0 },
                },
            ),
        ),
{
    let block = ModuleBlock {
        namespace: loaded_module.namespace,
        statements: loaded_module.ast.statements,
        span: Span::new(0, 0),
    };
    main_ast.statements.push(Statement::ModuleBlock(block));
}

/// Whether a statement is a module block.
pub open spec fn is_module_block(s: Statement) -> bool {
    s is ModuleBlock
}

/// Puts the module blocks of a program before all its other statements;
/// within each of the two groups the order stays.
pub fn hoist_module_blocks(ast: &mut Program)
    ensures
        final(ast).statements@ == old(ast).statements@.filter(|s: Statement| is_module_block(s)) + old(
            ast,
        ).statements@.filter(|s: Statement| !is_module_block(s)),
{
    let mut statements: Vec<Statement> = Vec::new();
    std::mem::swap(&mut ast.statements, &mut statements);
    let ghost all = statements@;
    let mut reversed: Vec<Statement> = Vec::new();
    while statements.len() > 0
        invariant
            statements@.len() + reversed@.len() == all.len(),
            statements@ == all.take(statements@.len() as int),
            forall|j: int| 0 <= j < reversed@.len() ==> reversed@[j] == all[all.len() - 1 - j],
        decreases statements.len(),
    {
        let s = statements.pop().unwrap();
        reversed.push(s);
        assert(statements@ =~= all.take(statements@.len() as int));
    }
    let mut blocks: Vec<Statement> = Vec::new();
    let mut others: Vec<Statement> = Vec::new();
    let ghost mut i: int = 0;
    proof {
        reveal(Seq::filter);
        assert(all.take(0) =~= Seq::<Statement>::empty());
    }
    while reversed.len() > 0
        invariant
            i + reversed@.len() == all.len(),
            0 <= i,
            forall|j: int| 0 <= j < reversed@.len() ==> reversed@[j] == all[all.len() - 1 - j],
            blocks@ == all.take(i).filter(|s: Statement| is_module_block(s)),
            others@ == all.take(i).filter(|s: Statement| !is_module_block(s)),
        decreases reversed.len(),
    {
        let s = reversed.pop().unwrap();
        proof {
            reveal(Seq::filter);
            assert(s == all[i]);
            assert(all.take(i + 1).drop_last() =~= all.take(i));
            assert(all.take(i + 1).last() == s);
        }
        let is_block: bool = match &s {
            Statement::ModuleBlock(_) => true,
            _ => false,
        };
        if is_block {
            blocks.push(s);
        } else {
            others.push(s);
        }
        proof {
            i = i + 1;
        }
    }
    assert(all.take(i) =~= all);
    blocks.append(&mut others);
    ast.statements = blocks;
}

} // verus!
