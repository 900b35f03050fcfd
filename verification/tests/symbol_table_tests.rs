use ponos::span::Span;
use ponos::symbol_table::{Scope, ScopeId, Symbol, SymbolKind, SymbolTable};

#[test]
fn test_symbol_kind_equality() {
    assert_eq!(SymbolKind::Variable, SymbolKind::Variable);
    assert_ne!(SymbolKind::Variable, SymbolKind::Function);
}

#[test]
fn test_symbol_creation() {
    let symbol = Symbol::new(
        "test".to_string(),
        SymbolKind::Function,
        true,
        Span::new(0, 10),
    );
    assert_eq!(symbol.name, "test");
    assert_eq!(symbol.kind, SymbolKind::Function);
    assert_eq!(symbol.is_exported, true);
}

#[test]
fn test_scope_define_and_lookup() {
    let mut scope = Scope::new(ScopeId(0), None);

    let symbol = Symbol::new(
        "foo".to_string(),
        SymbolKind::Variable,
        false,
        Span::new(0, 10),
    );

    assert!(scope.define(symbol).is_ok());
    assert!(scope.lookup_local("foo").is_some());
    assert!(scope.lookup_local("bar").is_none());
}

#[test]
fn test_scope_duplicate_symbol() {
    let mut scope = Scope::new(ScopeId(0), None);

    let symbol1 = Symbol::new(
        "foo".to_string(),
        SymbolKind::Variable,
        false,
        Span::new(0, 10),
    );
    let symbol2 = Symbol::new(
        "foo".to_string(),
        SymbolKind::Function,
        false,
        Span::new(10, 20),
    );

    assert!(scope.define(symbol1).is_ok());
    assert!(scope.define(symbol2).is_err());
}

#[test]
fn test_scope_exported_symbols() {
    let mut scope = Scope::new(ScopeId(0), None);

    scope
        .define(Symbol::new(
            "foo".to_string(),
            SymbolKind::Variable,
            false,
            Span::new(0, 10),
        ))
        .unwrap();
    scope
        .define(Symbol::new(
            "bar".to_string(),
            SymbolKind::Function,
            true,
            Span::new(10, 20),
        ))
        .unwrap();
    scope
        .define(Symbol::new(
            "baz".to_string(),
            SymbolKind::Class,
            true,
            Span::new(20, 30),
        ))
        .unwrap();

    let exported = scope.exported_symbols();
    assert_eq!(exported.len(), 2);
    assert!(exported.iter().any(|s| s.name == "bar"));
    assert!(exported.iter().any(|s| s.name == "baz"));
    assert!(!exported.iter().any(|s| s.name == "foo"));
}

#[test]
fn test_symbol_table_creation() {
    let table = SymbolTable::new();
    assert_eq!(table.scopes.len(), 1);
}

#[test]
fn test_symbol_table_define_and_lookup() {
    let mut table = SymbolTable::new();

    let symbol = Symbol::new(
        "test".to_string(),
        SymbolKind::Variable,
        false,
        Span::new(0, 10),
    );

    assert!(table.define(symbol).is_ok());
    assert!(table.lookup("test").is_some());
    assert!(table.lookup("nonexistent").is_none());
}

#[test]
fn test_symbol_table_scopes() {
    let mut table = SymbolTable::new();

    table
        .define(Symbol::new(
            "global".to_string(),
            SymbolKind::Variable,
            false,
            Span::new(0, 10),
        ))
        .unwrap();

    table.push_scope();
    table
        .define(Symbol::new(
            "local".to_string(),
            SymbolKind::Variable,
            false,
            Span::new(10, 20),
        ))
        .unwrap();

    assert!(table.lookup("global").is_some());
    assert!(table.lookup("local").is_some());

    table.pop_scope();

    assert!(table.lookup("global").is_some());
    assert!(table.lookup("local").is_none());
}

#[test]
fn test_symbol_table_shadowing() {
    let mut table = SymbolTable::new();

    table
        .define(Symbol::new(
            "x".to_string(),
            SymbolKind::Variable,
            false,
            Span::new(0, 10),
        ))
        .unwrap();

    table.push_scope();
    table
        .define(Symbol::new(
            "x".to_string(),
            SymbolKind::Variable,
            false,
            Span::new(10, 20),
        ))
        .unwrap();

    let found = table.lookup("x");
    assert!(found.is_some());
    assert_eq!(found.unwrap().span.start, 10);
}

#[test]
fn duplicate_definition_names_the_symbol() {
    let mut scope = Scope::new(ScopeId(0), None);
    scope
        .define(Symbol::new("foo".to_string(), SymbolKind::Variable, false, Span::new(0, 1)))
        .unwrap();
    let err = scope
        .define(Symbol::new("foo".to_string(), SymbolKind::Class, true, Span::new(2, 3)))
        .unwrap_err();
    assert_eq!(err, "Символ 'foo' уже определён в этой области");
    assert_eq!(scope.symbols().len(), 1);
    assert_eq!(scope.lookup_local("foo").unwrap().kind, SymbolKind::Variable);
}

#[test]
fn scope_ids_count_up_and_parents_link_back() {
    let mut table = SymbolTable::new();
    assert_eq!(table.current_scope(), ScopeId(0));
    let first = table.push_scope();
    let second = table.push_scope();
    assert_eq!(first, ScopeId(1));
    assert_eq!(second, ScopeId(2));
    assert_eq!(table.get_scope(second).parent, Some(first));
    assert_eq!(table.get_scope(first).parent, Some(ScopeId(0)));
    table.pop_scope();
    assert_eq!(table.current_scope(), first);
    table.pop_scope();
    table.pop_scope();
    assert_eq!(table.current_scope(), ScopeId(0));
}

#[test]
fn define_in_scope_reaches_that_scope_only() {
    let mut table = SymbolTable::new();
    let inner = table.push_scope();
    table.pop_scope();
    table
        .define_in_scope(inner, Symbol::new("hidden".to_string(), SymbolKind::Function, true, Span::new(0, 1)))
        .unwrap();
    assert!(table.lookup("hidden").is_none());
    assert!(table.lookup_in_scope(inner, "hidden").is_some());
    assert!(table.lookup_in_scope(ScopeId(0), "hidden").is_none());
    let missing = table.define_in_scope(
        ScopeId(9),
        Symbol::new("x".to_string(), SymbolKind::Variable, false, Span::new(0, 1)),
    );
    assert!(missing.is_err());
    table.get_scope_mut(inner).parent = None;
    assert_eq!(table.get_scope(inner).parent, None);
}

#[test]
fn module_symbol_carries_its_scope() {
    let module = Symbol::new_module("мат".to_string(), ScopeId(3), Span::new(1, 2));
    assert_eq!(module.kind, SymbolKind::Module);
    assert_eq!(module.module_scope_id, Some(ScopeId(3)));
    assert!(!module.is_exported);
    let plain = Symbol::new("x".to_string(), SymbolKind::Variable, true, Span::new(1, 2));
    assert_eq!(plain.module_scope_id, None);
}
