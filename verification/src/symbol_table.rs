//! Scopes and the symbols defined in them.

use vstd::prelude::*;
use vstd::string::StringExecFns;
use crate::span::Span;

verus! {

#[derive(Debug, Clone, Copy, PartialEq, Eq, Structural)]
pub enum SymbolKind {
    Variable,
    Function,
    Class,
    Interface,
    Annotation,
    Module,
}

/// The number of a scope: its place in the table.
#[derive(Debug, Clone, Copy, PartialEq, Eq, Hash, Structural)]
pub struct ScopeId(pub usize);

/// A name that a program defines, with what it names.
#[derive(Debug, Clone)]
pub struct Symbol {
    pub name: String,
    pub kind: SymbolKind,
    pub is_exported: bool,
    pub span: Span,
    /// For the name of a module: the scope that holds what it exports.
    pub module_scope_id: Option<ScopeId>,
}

impl Symbol {
    pub fn new(name: String, kind: SymbolKind, is_exported: bool, span: Span) -> (r: Self)
        ensures
            r.name == name,
            r.kind == kind,
            r.is_exported == is_exported,
            r.span == span,
            r.module_scope_id is None,
    {
        Symbol { name, kind, is_exported, span, module_scope_id: None }
    }

    /// The symbol for the namespace of a module whose exports are in
    /// `scope_id`.
    pub fn new_module(name: String, scope_id: ScopeId, span: Span) -> (r: Self)
        ensures
            r.name == name,
            r.kind == SymbolKind::Module,
            !r.is_exported,
            r.span == span,
            r.module_scope_id == Some(scope_id),
    {
        Symbol { name, kind: SymbolKind::Module, is_exported: false, span, module_scope_id: Some(scope_id) }
    }
}

pub const DEFINED_BEFORE: &'static str = "Символ '";

pub const DEFINED_AFTER: &'static str = "' уже определён в этой области";

pub const NO_SCOPE: &'static str = "Область видимости не найдена";

/// What `define` answers when the name is taken.
pub open spec fn already_defined(name: Seq<char>) -> Seq<char> {
    DEFINED_BEFORE@ + name + DEFINED_AFTER@
}

/// Whether `i` is the place of the first symbol called `name`.
pub open spec fn is_first_named(symbols: Seq<Symbol>, name: Seq<char>, i: int) -> bool {
    &&& 0 <= i < symbols.len()
    &&& symbols[i].name@ == name
    &&& forall|j: int| 0 <= j < i ==> (#[trigger] symbols[j]).name@ != name
}

/// Whether some symbol is called `name`.
pub open spec fn has_name(symbols: Seq<Symbol>, name: Seq<char>) -> bool {
    exists|i: int| 0 <= i < symbols.len() && (#[trigger] symbols[i]).name@ == name
}

/// The exported symbols among the first `n`, in order.
pub open spec fn exported(symbols: Seq<Symbol>, n: nat) -> Seq<Symbol>
    decreases n,
{
    if n == 0 {
        Seq::empty()
    } else if symbols[n - 1].is_exported {
        exported(symbols, (n - 1) as nat).push(symbols[n - 1])
    } else {
        exported(symbols, (n - 1) as nat)
    }
}

/// One scope: the symbols defined in it, in the order of their definition,
/// and the scope around it.
#[derive(Debug, Clone)]
pub struct Scope {
    pub id: ScopeId,
    pub parent: Option<ScopeId>,
    pub symbols: Vec<Symbol>,
}

impl Scope {
    pub fn new(id: ScopeId, parent: Option<ScopeId>) -> (r: Self)
        ensures
            r.id == id,
            r.parent == parent,
            r.symbols@.len() == 0,
    {
        Scope { id, parent, symbols: Vec::new() }
    }

    /// The place of the first symbol called `name`.
    fn position(&self, name: &str) -> (r: Option<usize>)
        ensures
            match r {
                Some(i) => is_first_named(self.symbols@, name@, i as int),
                None => !has_name(self.symbols@, name@),
            },
    {
        let wanted = name.to_string();
        let mut i: usize = 0;
        while i < self.symbols.len()
            invariant
                i <= self.symbols.len(),
                wanted@ == name@,
                forall|j: int| 0 <= j < i ==> (#[trigger] self.symbols@[j]).name@ != name@,
            decreases self.symbols.len() - i,
        {
            if self.symbols[i].name == wanted {
                return Some(i);
            }
            i = i + 1;
        }
        None
    }

    /// Adds a symbol, unless its name is taken in this scope.
    pub fn define(&mut self, symbol: Symbol) -> (r: Result<(), String>)
        ensures
            final(self).id == old(self).id,
            final(self).parent == old(self).parent,
            match r {
                Ok(_) => !has_name(old(self).symbols@, symbol.name@) && final(self).symbols@ == old(
                    self,
                ).symbols@.push(symbol),
                Err(message) => has_name(old(self).symbols@, symbol.name@) && final(self).symbols@ == old(
                    self,
                ).symbols@ && message@ == already_defined(symbol.name@),
            },
    {
        match self.position(symbol.name.as_str()) {
            Some(_) => {
                let message = DEFINED_BEFORE.to_string().concat(symbol.name.as_str()).concat(DEFINED_AFTER);
                Err(message)
            },
            None => {
                self.symbols.push(symbol);
                Ok(())
            },
        }
    }

    /// The symbol that this scope itself defines under `name`.
    pub fn lookup_local(&self, name: &str) -> (r: Option<&Symbol>)
        ensures
            match r {
                Some(symbol) => exists|i: int|
                    is_first_named(self.symbols@, name@, i) && *symbol == self.symbols@[i],
                None => !has_name(self.symbols@, name@),
            },
    {
        match self.position(name) {
            Some(i) => Some(&self.symbols[i]),
            None => None,
        }
    }

    /// All symbols of the scope, in the order of their definition.
    pub fn symbols(&self) -> (r: &Vec<Symbol>)
        ensures
            r@ == self.symbols@,
    {
        &self.symbols
    }

    /// The exported symbols of the scope, in the order of their definition.
    pub fn exported_symbols(&self) -> (r: Vec<&Symbol>)
        ensures
            r@.len() == exported(self.symbols@, self.symbols@.len()).len(),
            forall|i: int| 0 <= i < r@.len() ==> *r@[i] == exported(self.symbols@, self.symbols@.len())[i],
    {
        let mut r: Vec<&Symbol> = Vec::new();
        let mut i: usize = 0;
        while i < self.symbols.len()
            invariant
                i <= self.symbols.len(),
                r@.len() == exported(self.symbols@, i as nat).len(),
                forall|j: int| 0 <= j < r@.len() ==> *r@[j] == exported(self.symbols@, i as nat)[j],
            decreases self.symbols.len() - i,
        {
            if self.symbols[i].is_exported {
                r.push(&self.symbols[i]);
            }
            i = i + 1;
        }
        r
    }
}

/// The place of the first symbol called `name` on the way from scope `from`
/// up through its parents, as (scope, place in the scope). At most `fuel`
/// scopes are looked at.
pub open spec fn found_from(scopes: Seq<Scope>, from: usize, name: Seq<char>, fuel: nat) -> Option<
    (int, int),
>
    decreases fuel,
{
    if fuel == 0 || from >= scopes.len() {
        None
    } else if has_name(scopes[from as int].symbols@, name) {
        Some((from as int, choose|i: int| is_first_named(scopes[from as int].symbols@, name, i)))
    } else {
        match scopes[from as int].parent {
            Some(parent) => found_from(scopes, parent.0, name, (fuel - 1) as nat),
            None => None,
        }
    }
}

/// The scopes of a program. Scope 0 is the global scope; a scope's number
/// is its place in the table.
#[derive(Debug)]
pub struct SymbolTable {
    pub scopes: Vec<Scope>,
    pub current_scope: ScopeId,
}

impl SymbolTable {
    /// A table with the global scope alone.
    pub fn new() -> (r: Self)
        ensures
            r.scopes@.len() == 1,
            r.scopes@[0].id == ScopeId(0),
            r.scopes@[0].parent is None,
            r.scopes@[0].symbols@.len() == 0,
            r.current_scope == ScopeId(0),
    {
        let mut scopes: Vec<Scope> = Vec::new();
        scopes.push(Scope::new(ScopeId(0), None));
        SymbolTable { scopes, current_scope: ScopeId(0) }
    }

    /// Opens a scope inside the current one and makes it current.
    pub fn push_scope(&mut self) -> (id: ScopeId)
        ensures
            id.0 == old(self).scopes@.len(),
            final(self).current_scope == id,
            final(self).scopes@.len() == old(self).scopes@.len() + 1,
            final(self).scopes@.take(old(self).scopes@.len() as int) == old(self).scopes@,
            final(self).scopes@[id.0 as int].id == id,
            final(self).scopes@[id.0 as int].parent == Some(old(self).current_scope),
            final(self).scopes@[id.0 as int].symbols@.len() == 0,
    {
        let id = ScopeId(self.scopes.len());
        let scope = Scope::new(id, Some(self.current_scope));
        self.scopes.push(scope);
        self.current_scope = id;
        assert(self.scopes@.take(old(self).scopes@.len() as int) =~= old(self).scopes@);
        id
    }

    /// Makes the parent of the current scope current; the global scope
    /// stays.
    pub fn pop_scope(&mut self)
        ensures
            final(self).scopes == old(self).scopes,
            final(self).current_scope == if old(self).current_scope.0 < old(self).scopes@.len() {
                match old(self).scopes@[old(self).current_scope.0 as int].parent {
                    Some(parent) => parent,
                    None => old(self).current_scope,
                }
            } else {
                old(self).current_scope
            },
    {
        if self.current_scope.0 < self.scopes.len() {
            match self.scopes[self.current_scope.0].parent {
                Some(parent) => {
                    self.current_scope = parent;
                },
                None => {},
            }
        }
    }

    pub fn get_scope(&self, id: ScopeId) -> (r: &Scope)
        requires
            id.0 < self.scopes@.len(),
        ensures
            *r == self.scopes@[id.0 as int],
    {
        &self.scopes[id.0]
    }

    pub fn get_scope_mut(&mut self, id: ScopeId) -> (r: &mut Scope)
        requires
            id.0 < old(self).scopes@.len(),
        ensures
            *r == old(self).scopes@[id.0 as int],
            final(self).scopes@ == old(self).scopes@.update(id.0 as int, *final(r)),
            final(self).current_scope == old(self).current_scope,
    {
        &mut self.scopes[id.0]
    }

    /// Defines a symbol in the current scope.
    pub fn define(&mut self, symbol: Symbol) -> (r: Result<(), String>)
        ensures
            final(self).current_scope == old(self).current_scope,
            final(self).scopes@.len() == old(self).scopes@.len(),
            defined(old(self).scopes@, final(self).scopes@, old(self).current_scope, symbol, r),
    {
        let id = self.current_scope;
        self.define_in_scope(id, symbol)
    }

    /// Defines a symbol in the scope `scope_id`.
    pub fn define_in_scope(&mut self, scope_id: ScopeId, symbol: Symbol) -> (r: Result<(), String>)
        ensures
            final(self).current_scope == old(self).current_scope,
            final(self).scopes@.len() == old(self).scopes@.len(),
            defined(old(self).scopes@, final(self).scopes@, scope_id, symbol, r),
    {
        if scope_id.0 >= self.scopes.len() {
            return Err(NO_SCOPE.to_string());
        }
        self.scopes[scope_id.0].define(symbol)
    }

    /// The symbol that `name` means in the current scope: the nearest
    /// definition on the way up through the enclosing scopes.
    pub fn lookup(&self, name: &str) -> (r: Option<&Symbol>)
        ensures
            match found_from(self.scopes@, self.current_scope.0, name@, self.scopes@.len()) {
                Some((scope, place)) => r matches Some(symbol) && *symbol == self.scopes@[scope].symbols@[place],
                None => r is None,
            },
    {
        let mut current: usize = self.current_scope.0;
        let mut fuel: usize = self.scopes.len();
        while fuel > 0 && current < self.scopes.len()
            invariant
                found_from(self.scopes@, current, name@, fuel as nat) == found_from(
                    self.scopes@,
                    self.current_scope.0,
                    name@,
                    self.scopes@.len(),
                ),
            decreases fuel,
        {
            match self.scopes[current].position(name) {
                Some(i) => {
                    proof {
                        let symbols = self.scopes@[current as int].symbols@;
                        let chosen = choose|j: int| is_first_named(symbols, name@, j);
                        assert(is_first_named(symbols, name@, i as int));
                        assert(is_first_named(symbols, name@, chosen));
                        if chosen < i {
                            assert(symbols[chosen].name@ != name@);
                        }
                        if i < chosen {
                            assert(symbols[i as int].name@ != name@);
                        }
                    }
                    return Some(&self.scopes[current].symbols[i]);
                },
                None => {},
            }
            match self.scopes[current].parent {
                Some(parent) => {
                    current = parent.0;
                },
                None => {
                    return None;
                },
            }
            fuel = fuel - 1;
        }
        None
    }

    /// The symbol that the scope `scope_id` itself defines under `name`.
    pub fn lookup_in_scope(&self, scope_id: ScopeId, name: &str) -> (r: Option<&Symbol>)
        requires
            scope_id.0 < self.scopes@.len(),
        ensures
            match r {
                Some(symbol) => exists|i: int|
                    is_first_named(self.scopes@[scope_id.0 as int].symbols@, name@, i) && *symbol
                        == self.scopes@[scope_id.0 as int].symbols@[i],
                None => !has_name(self.scopes@[scope_id.0 as int].symbols@, name@),
            },
    {
        self.scopes[scope_id.0].lookup_local(name)
    }

    pub fn current_scope(&self) -> (r: ScopeId)
        ensures
            r == self.current_scope,
    {
        self.current_scope
    }
}

/// What defining `symbol` in scope `id` does to a table and answers.
pub open spec fn defined(
    before: Seq<Scope>,
    after: Seq<Scope>,
    id: ScopeId,
    symbol: Symbol,
    r: Result<(), String>,
) -> bool {
    if id.0 >= before.len() {
        &&& after == before
        &&& r matches Err(message)
        &&& message@ == NO_SCOPE@
    } else {
        let scope = before[id.0 as int];
        &&& after.len() == before.len()
        &&& forall|i: int| 0 <= i < before.len() && i != id.0 ==> after[i] == before[i]
        &&& after[id.0 as int].id == scope.id
        &&& after[id.0 as int].parent == scope.parent
        &&& match r {
            Ok(_) => !has_name(scope.symbols@, symbol.name@) && after[id.0 as int].symbols@
                == scope.symbols@.push(symbol),
            Err(message) => has_name(scope.symbols@, symbol.name@) && after[id.0 as int].symbols@
                == scope.symbols@ && message@ == already_defined(symbol.name@),
        }
    }
}

} // verus!
