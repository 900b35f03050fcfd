use ponos::ast::{ImportStatement, Program, Statement};
use ponos::native::NativeModuleRegistry;
use ponos::resolver::{collect_imports, load_native_module, register_native_exports};
use ponos::span::Span;
use ponos::symbol_table::{ScopeId, Symbol, SymbolKind, SymbolTable};

fn import(path: &str, alias: Option<&str>) -> Statement {
    Statement::Import(ImportStatement {
        path: path.to_string(),
        alias: alias.map(|a| a.to_string()),
        span: Span::new(0, 0),
    })
}

#[test]
fn imports_are_collected_in_order() {
    let program = Program {
        statements: vec![
            import("стд/ввод_вывод", Some("ио")),
            Statement::Return(ponos::ast::ReturnStatement { value: None, span: Span::new(0, 0) }),
            import("a/b.pns", None),
        ],
    };
    assert_eq!(
        collect_imports(&program),
        vec![("стд/ввод_вывод".to_string(), Some("ио".to_string())), ("a/b.pns".to_string(), None)]
    );
    assert!(collect_imports(&Program { statements: vec![] }).is_empty());
}

#[test]
fn native_module_gets_a_scope_with_its_exports() {
    let registry = NativeModuleRegistry::new();
    let mut table = SymbolTable::new();
    let scopes_before = table.scopes.len();
    let outer = table.current_scope();
    let loaded = load_native_module(&registry, "стд/ввод_вывод", Some("ио".to_string()), &mut table).unwrap();
    assert_eq!(loaded.namespace, "ио");
    assert_eq!(loaded.file_path, "<native:стд/ввод_вывод>");
    assert_eq!(loaded.scope_id, ScopeId(scopes_before));
    assert!(loaded.ast.statements.is_empty());
    assert_eq!(loaded.exports, registry.get_module("стд/ввод_вывод").unwrap().exports);
    assert_eq!(table.scopes.len(), scopes_before + 1);
    assert_eq!(table.current_scope(), loaded.scope_id);
    let scope = &table.scopes[loaded.scope_id.0];
    assert_eq!(scope.parent, Some(outer));
    let names: Vec<String> = scope.symbols.iter().map(|s| s.name.clone()).collect();
    assert_eq!(names, loaded.exports);
    for symbol in scope.symbols.iter() {
        assert_eq!(symbol.kind, SymbolKind::Function);
        assert!(symbol.is_exported);
        assert_eq!(symbol.module_scope_id, None);
    }
    for export in loaded.exports.iter() {
        assert!(table.lookup_in_scope(loaded.scope_id, export).is_some());
    }
}

#[test]
fn native_module_without_alias_is_named_by_its_path() {
    let registry = NativeModuleRegistry::new();
    let mut table = SymbolTable::new();
    let loaded = load_native_module(&registry, "стд/json", None, &mut table).unwrap();
    assert_eq!(loaded.namespace, "json");
}

#[test]
fn unknown_native_module_leaves_the_table_alone() {
    let registry = NativeModuleRegistry::new();
    let mut table = SymbolTable::new();
    let scopes_before = table.scopes.len();
    let current = table.current_scope();
    assert_eq!(
        load_native_module(&registry, "стд/нет", None, &mut table).unwrap_err(),
        "Нативный модуль 'стд/нет' не найден"
    );
    assert_eq!(table.scopes.len(), scopes_before);
    assert_eq!(table.current_scope(), current);
}

#[test]
fn native_export_that_is_defined_already_is_refused() {
    let mut table = SymbolTable::new();
    let scope = table.push_scope();
    table
        .define_in_scope(scope, Symbol::new("b".to_string(), SymbolKind::Variable, false, Span::new(0, 0)))
        .unwrap();
    let exports = vec!["a".to_string(), "b".to_string(), "c".to_string()];
    let message = register_native_exports(&exports, scope, &mut table).unwrap_err();
    assert!(message.starts_with("Ошибка регистрации нативной функции 'b': "), "{}", message);
    let names: Vec<String> = table.scopes[scope.0].symbols.iter().map(|s| s.name.clone()).collect();
    assert_eq!(names, vec!["b", "a"]);

    let mut table = SymbolTable::new();
    let scope = table.push_scope();
    let twice = vec!["a".to_string(), "a".to_string()];
    assert!(register_native_exports(&twice, scope, &mut table).is_err());
    assert_eq!(table.scopes[scope.0].symbols.len(), 1);
}

fn tokens(source: &str) -> Vec<ponos::token::Token> {
    ponos::lexer::lex(source).expect("the source has tokens")
}

#[test]
fn module_is_read_from_its_tokens() {
    let mut table = SymbolTable::new();
    let outer = table.current_scope();
    let scopes_before = table.scopes.len();
    let source = "экспорт пер ПИ = 3; пер скрыто = 1; экспорт функ удвоить(x) возврат x + x; конец";
    let loaded = ponos::resolver::load_from_tokens(
        &tokens(source),
        "lib/math.pns",
        None,
        "/abs/lib/math.pns".to_string(),
        &mut table,
    )
    .unwrap();
    assert_eq!(loaded.namespace, "math");
    assert_eq!(loaded.file_path, "/abs/lib/math.pns");
    assert_eq!(loaded.exports, vec!["ПИ", "удвоить"]);
    assert_eq!(loaded.ast.statements.len(), 3);
    assert_eq!(loaded.scope_id, ScopeId(scopes_before));
    assert_eq!(table.current_scope(), loaded.scope_id);
    let scope = &table.scopes[loaded.scope_id.0];
    assert_eq!(scope.parent, Some(outer));
    let symbols: Vec<(String, SymbolKind, bool)> =
        scope.symbols.iter().map(|s| (s.name.clone(), s.kind.clone(), s.is_exported)).collect();
    assert_eq!(
        symbols,
        vec![("ПИ".to_string(), SymbolKind::Variable, true), ("удвоить".to_string(), SymbolKind::Function, true)]
    );
}

#[test]
fn module_that_is_no_program_leaves_the_table_alone() {
    let mut table = SymbolTable::new();
    let scopes_before = table.scopes.len();
    let current = table.current_scope();
    let message = ponos::resolver::load_from_tokens(
        &tokens("пер = 1;"),
        "m",
        Some("м".to_string()),
        "m.pns".to_string(),
        &mut table,
    )
    .unwrap_err();
    assert_eq!(message, "Ошибка парсинга модуля m.pns: Неожиданный токен '='. Ожидалось: идентификатор");
    assert_eq!(table.scopes.len(), scopes_before);
    assert_eq!(table.current_scope(), current);
}

#[test]
fn module_that_exports_a_name_twice_is_refused() {
    let mut table = SymbolTable::new();
    let scopes_before = table.scopes.len();
    let message = ponos::resolver::load_from_tokens(
        &tokens("экспорт пер a = 1; экспорт пер a = 2; экспорт пер b = 3;"),
        "m",
        None,
        "m.pns".to_string(),
        &mut table,
    )
    .unwrap_err();
    assert!(message.starts_with("Ошибка регистрации символа 'a': "), "{}", message);
    assert_eq!(table.scopes.len(), scopes_before + 1);
    assert_eq!(table.scopes[scopes_before].symbols.len(), 1);
}

#[test]
fn adopted_module_is_named_and_appended() {
    let registry = NativeModuleRegistry::new();
    let mut table = SymbolTable::new();
    let loaded = load_native_module(&registry, "стд/json", None, &mut table).unwrap();
    let scope_id = loaded.scope_id;
    let mut program = Program { statements: vec![import("стд/json", None)] };
    assert_eq!(ponos::resolver::adopt_module(&mut program, loaded, &mut table), None);
    assert_eq!(program.statements.len(), 2);
    match &program.statements[1] {
        Statement::ModuleBlock(block) => {
            assert_eq!(block.namespace, "json");
            assert!(block.statements.is_empty());
        }
        other => panic!("{:?}", other),
    }
    let symbol = table.lookup("json").expect("the namespace is defined");
    assert_eq!(symbol.kind, SymbolKind::Module);
    assert_eq!(symbol.module_scope_id, Some(scope_id));
    assert!(!symbol.is_exported);

    let again = load_native_module(&registry, "стд/json", None, &mut table).unwrap();
    table.pop_scope();
    let warning = ponos::resolver::adopt_module(&mut program, again, &mut table).expect("the name is taken");
    assert!(warning.starts_with("Предупреждение: не удалось зарегистрировать модуль 'json': "), "{}", warning);
    assert_eq!(program.statements.len(), 3);
}

#[test]
fn test_extract_namespace_simple() {
    assert_eq!(ponos::module::extract_namespace("математика", None), "математика");
}

#[test]
fn test_extract_namespace_with_path() {
    assert_eq!(ponos::module::extract_namespace("путь/к/математика", None), "математика");
}

#[test]
fn test_extract_namespace_with_alias() {
    assert_eq!(ponos::module::extract_namespace("математика", Some("мат".to_string())), "мат");
}

#[test]
fn test_collect_exports() {
    let ast = Program {
        statements: vec![
            Statement::VarDecl(ponos::ast::VarDecl {
                name: "exported_var".to_string(),
                type_annotation: None,
                initializer: None,
                is_exported: true,
                span: Span::default(),
            }),
            Statement::VarDecl(ponos::ast::VarDecl {
                name: "private_var".to_string(),
                type_annotation: None,
                initializer: None,
                is_exported: false,
                span: Span::default(),
            }),
            Statement::FuncDecl(ponos::ast::FuncDecl {
                name: "exported_func".to_string(),
                params: vec![],
                body: vec![],
                annotations: vec![],
                is_exported: true,
                span: Span::default(),
            }),
        ],
    };

    let exports = ponos::module::collect_exports(&ast);
    assert_eq!(exports.len(), 2);
    assert!(exports.contains(&"exported_var".to_string()));
    assert!(exports.contains(&"exported_func".to_string()));
    assert!(!exports.contains(&"private_var".to_string()));
}

#[test]
fn test_load_simple_module() {
    let mut symbol_table = SymbolTable::new();
    let result = ponos::resolver::load_from_tokens(
        &tokens("экспорт пер ПИ = 3.14;"),
        "/tmp/ponos_test_modules/test_module.pns",
        None,
        "/tmp/ponos_test_modules/test_module.pns".to_string(),
        &mut symbol_table,
    );

    assert!(result.is_ok());
    let loaded = result.unwrap();
    assert_eq!(loaded.namespace, "test_module");
    assert_eq!(loaded.exports.len(), 1);
    assert_eq!(loaded.exports[0], "ПИ");

    let scope = symbol_table.get_scope(loaded.scope_id);
    let exports = scope.exported_symbols();
    assert_eq!(exports.len(), 1);
    assert_eq!(exports[0].name, "ПИ");
}

#[test]
fn test_load_module_with_alias() {
    let mut symbol_table = SymbolTable::new();
    let result = ponos::resolver::load_from_tokens(
        &tokens("экспорт пер ПИ = 3.14;"),
        "/tmp/ponos_test_alias/математика.pns",
        Some("мат".to_string()),
        "/tmp/ponos_test_alias/математика.pns".to_string(),
        &mut symbol_table,
    );

    assert!(result.is_ok());
    let loaded = result.unwrap();
    assert_eq!(loaded.namespace, "мат");
}

#[test]
fn module_loaded_before_comes_back_without_statements() {
    let mut table = SymbolTable::new();
    let loaded = ponos::resolver::load_from_tokens(
        &tokens("экспорт пер ПИ = 3;"),
        "lib/math.pns",
        None,
        "/abs/lib/math.pns".to_string(),
        &mut table,
    )
    .unwrap();
    let mut kept: Vec<ponos::resolver::Cached> = Vec::new();
    assert!(ponos::resolver::cached_module(&kept, "/abs/lib/math.pns", None).is_none());
    ponos::resolver::remember_module(&mut kept, "/abs/lib/math.pns".to_string(), &loaded);
    ponos::resolver::remember_module(&mut kept, "/abs/other.pns".to_string(), &loaded);
    assert_eq!(kept.len(), 2);
    assert_eq!(kept[0].path, "/abs/lib/math.pns");
    assert_eq!(kept[0].namespace, "math");
    assert_eq!(kept[0].exports, vec!["ПИ"]);
    assert_eq!(kept[0].scope_id, loaded.scope_id);

    let again = ponos::resolver::cached_module(&kept, "/abs/lib/math.pns", None).unwrap();
    assert_eq!(again.namespace, "math");
    assert_eq!(again.exports, vec!["ПИ"]);
    assert_eq!(again.file_path, "/abs/lib/math.pns");
    assert_eq!(again.scope_id, loaded.scope_id);
    assert!(again.ast.statements.is_empty());

    let renamed = ponos::resolver::cached_module(&kept, "/abs/lib/math.pns", Some("м".to_string())).unwrap();
    assert_eq!(renamed.namespace, "м");
    assert_eq!(renamed.exports, vec!["ПИ"]);
    assert!(ponos::resolver::cached_module(&kept, "/abs/none.pns", None).is_none());
}

#[test]
fn standard_modules_export_their_functions_in_order() {
    let registry = NativeModuleRegistry::new();
    let expected: Vec<(&str, Vec<&str>)> = vec![
        ("стд/ввод_вывод", vec!["вывести", "ввести"]),
        ("стд/фс", vec!["читать", "писать", "существует", "удалить"]),
        (
            "стд/система",
            vec!["выполнить", "получить_переменную_среды", "установить_переменную_среды", "аргументы"],
        ),
        (
            "стд/строки",
            vec!["разделить", "обрезать", "заменить", "верхний_регистр", "нижний_регистр", "начинается_с"],
        ),
        ("стд/json", vec!["десериализовать", "сериализовать"]),
        ("стд/сеть", vec!["запрос", "получить", "запрос_json"]),
    ];
    assert_eq!(registry.modules.len(), expected.len());
    for (module, (name, exports)) in registry.modules.iter().zip(expected.iter()) {
        assert_eq!(module.name, *name);
        assert_eq!(module.exports, *exports);
        assert!(registry.is_native_module(name));
        assert_eq!(registry.get_module(name).unwrap().exports, *exports);
    }
    assert!(registry.get_module("стд/нет").is_none());
    assert!(!registry.is_native_module("стд/нет"));
}
