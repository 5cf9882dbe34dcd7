use gitmind::analyzer::dependencies::{parse_cargo_toml, parse_manifest, parse_package_json, parse_pyproject_toml, ManifestFiles};
use gitmind::analyzer::describe::describe_module;
use gitmind::analyzer::manifest::{parse_go_mod, parse_requirements_txt, split_python_spec};
use gitmind::analyzer::naming::compute_module_name;
use gitmind::analyzer::stats::{count_language_lines, total_line_count};
use gitmind::analyzer::{analyze, collect_all_symbols, collect_interfaces, group_into_modules, pluralize, symbol_to_info};
use gitmind::scanner::extract::parse_symbols;
use gitmind::scanner::{detect_language, select_language, source_file, Language, SourceFile, Symbol, SymbolKind};

fn sym(kind: SymbolKind, name: &str, line: usize, is_public: bool, children: Vec<Symbol>) -> Symbol {
    Symbol { kind, name: name.to_string(), line, is_public, children }
}

fn file(path: &str, lines: usize, language: Language, symbols: Vec<Symbol>) -> SourceFile {
    SourceFile { path: path.to_string(), line_count: lines, language, symbols }
}

fn no_manifests() -> ManifestFiles {
    ManifestFiles { cargo_toml: None, package_json: None, go_mod: None, pyproject_toml: None, requirements_txt: None }
}

// --- module names -------------------------------------------------------

#[test]
fn module_name_ignores_leading_current_dir() {
    assert_eq!(compute_module_name("./foo/bar.rs"), compute_module_name("foo/bar.rs"));
    assert_eq!(compute_module_name("./foo/bar.rs"), "foo::bar");
}

#[test]
fn module_name_ignores_leading_source_dir() {
    assert_eq!(compute_module_name("src/x/y.py"), compute_module_name("x/y.py"));
    assert_eq!(compute_module_name("SRC/App/x.ts"), "x");
}

#[test]
fn module_name_ignores_any_leading_absorbed_dirs() {
    assert_eq!(compute_module_name("../SRC/Lib/./packages/foo/bar.rs"), "foo::bar");
    assert_eq!(compute_module_name("foo/bar.rs"), "foo::bar");
    assert_eq!(compute_module_name("../Source/app/x.go"), compute_module_name("x.go"));
}

#[test]
fn module_name_edge_cases() {
    assert_eq!(compute_module_name(""), "root");
    assert_eq!(compute_module_name("src"), "root");
    assert_eq!(compute_module_name("src/mod.rs"), "root");
    assert_eq!(compute_module_name("/"), "/");
    assert_eq!(compute_module_name("foo/.rs"), "foo");
    assert_eq!(compute_module_name("a/src/b/lib/c.go"), "a::b::c");
    assert_eq!(compute_module_name("a/b/main.rs"), "a::b::main");
    assert_eq!(compute_module_name("a/b/lib.rs"), "a::b::lib");
    assert_eq!(compute_module_name("docs/readme.md"), "docs::readme.md");
    assert_eq!(compute_module_name("a/../b/./c.js"), "a::b::c");
    assert_eq!(compute_module_name("/abs/x.rs"), "/::abs::x");
}

// --- words --------------------------------------------------------------

#[test]
fn pluralize_rules() {
    assert_eq!(pluralize("struct", 1), "struct");
    assert_eq!(pluralize("function", 2), "functions");
    assert_eq!(pluralize("class", 2), "classes");
    assert_eq!(pluralize("box", 3), "boxes");
    assert_eq!(pluralize("match", 0), "matches");
    assert_eq!(pluralize("dish", 5), "dishes");
}

#[test]
fn symbol_kind_names() {
    assert_eq!(SymbolKind::TypeAlias.to_string(), "type");
    assert_eq!(SymbolKind::Constant.to_string(), "const");
    assert_eq!(SymbolKind::Function.to_string(), "function");
}

// --- descriptions -------------------------------------------------------

#[test]
fn description_counts_kinds_sorted() {
    let syms = vec![
        sym(SymbolKind::Function, "a", 1, true, vec![]),
        sym(SymbolKind::Struct, "S", 2, true, vec![]),
        sym(SymbolKind::Function, "b", 3, false, vec![]),
    ];
    assert_eq!(describe_module(&Language::Rust, &syms), "Rust module with 1 struct, 2 functions");
}

#[test]
fn description_of_empty_file() {
    assert_eq!(describe_module(&Language::TypeScript, &vec![]), "typescript source file");
}

#[test]
fn description_ignores_symbol_order() {
    let a = vec![
        sym(SymbolKind::Class, "A", 1, true, vec![]),
        sym(SymbolKind::Function, "f", 2, true, vec![]),
        sym(SymbolKind::Class, "B", 3, true, vec![]),
    ];
    let b = vec![
        sym(SymbolKind::Function, "f", 2, true, vec![]),
        sym(SymbolKind::Class, "B", 3, true, vec![]),
        sym(SymbolKind::Class, "A", 1, true, vec![]),
    ];
    assert_eq!(describe_module(&Language::Python, &a), describe_module(&Language::Python, &b));
    assert_eq!(describe_module(&Language::Python, &a), "Python module with 1 function, 2 classes");
}

// --- symbols, modules, interfaces -----------------------------------------

#[test]
fn symbols_are_flattened_parent_first() {
    let syms = vec![
        sym(SymbolKind::Impl, "User", 5, false, vec![
            sym(SymbolKind::Method, "new", 6, true, vec![]),
            sym(SymbolKind::Method, "secret", 9, false, vec![]),
        ]),
        sym(SymbolKind::Function, "helper", 12, false, vec![]),
    ];
    let infos = collect_all_symbols(&syms);
    let names: Vec<&str> = infos.iter().map(|s| s.name.as_str()).collect();
    assert_eq!(names, vec!["User", "new", "secret", "helper"]);
    assert_eq!(infos[1].kind, "method");
    assert_eq!(infos[1].line, 6);
    let info = symbol_to_info(&syms[1]);
    assert_eq!(info.kind, "function");
    assert!(!info.is_public);
}

#[test]
fn one_module_per_file() {
    let files = vec![
        file("./src/main.rs", 10, Language::Rust, vec![sym(SymbolKind::Function, "main", 1, false, vec![])]),
        file("./web/app.ts", 4, Language::TypeScript, vec![]),
    ];
    let modules = group_into_modules(&files);
    assert_eq!(modules.len(), 2);
    assert_eq!(modules[0].name, "main");
    assert_eq!(modules[0].path, "./src/main.rs");
    assert_eq!(modules[0].description, "Rust module with 1 function");
    assert_eq!(modules[0].line_count, 10);
    assert_eq!(modules[1].name, "web::app");
    assert_eq!(modules[1].description, "typescript source file");
}

#[test]
fn interfaces_are_public_top_level_symbols() {
    let files = vec![
        file("src/api/users.rs", 30, Language::Rust, vec![
            sym(SymbolKind::Struct, "User", 3, true, vec![sym(SymbolKind::Field, "name", 4, true, vec![])]),
            sym(SymbolKind::Function, "hidden", 10, false, vec![]),
            sym(SymbolKind::Function, "create_user", 42, true, vec![]),
        ]),
    ];
    let interfaces = collect_interfaces(&files);
    assert_eq!(interfaces.len(), 2);
    assert_eq!(interfaces[0].name, "User");
    assert_eq!(interfaces[0].module, "api::users");
    assert_eq!(interfaces[0].kind, "struct");
    assert_eq!(interfaces[1].name, "create_user");
    assert_eq!(interfaces[1].line, 42);
}

// --- statistics ---------------------------------------------------------

#[test]
fn language_lines_add_up() {
    let files = vec![
        file("a.rs", 10, Language::Rust, vec![]),
        file("b.py", 5, Language::Python, vec![]),
        file("c.rs", 7, Language::Rust, vec![]),
    ];
    let stats = count_language_lines(&files);
    assert_eq!(stats, vec![("rust".to_string(), 17), ("python".to_string(), 5)]);
    assert_eq!(total_line_count(&files), Some(22));
    let sum: usize = stats.iter().map(|(_, n)| n).sum();
    assert_eq!(sum, 22);
}

#[test]
fn total_line_count_detects_overflow() {
    let files = vec![file("a.rs", usize::MAX, Language::Rust, vec![]), file("b.rs", 1, Language::Rust, vec![])];
    assert_eq!(total_line_count(&files), None);
}

#[test]
fn analyze_reports_everything() {
    let files = vec![
        file("src/lib.rs", 9, Language::Rust, vec![sym(SymbolKind::Function, "run", 1, true, vec![])]),
        file("tool.py", 4, Language::Python, vec![]),
    ];
    let manifests = ManifestFiles {
        requirements_txt: Some("requests>=2\nrequests>=2\n".to_string()),
        ..no_manifests()
    };
    let a = analyze(Some("demo".to_string()), &files, &manifests);
    assert_eq!(a.name, "demo");
    assert_eq!(a.modules.len(), 2);
    assert_eq!(a.interfaces.len(), 1);
    assert_eq!(a.file_stats.total_files, 2);
    assert_eq!(a.file_stats.total_lines, 13);
    assert_eq!(a.file_stats.avg_lines_per_file, 6);
    assert_eq!(a.language_stats, vec![("rust".to_string(), 9), ("python".to_string(), 4)]);
    assert_eq!(a.dependencies.len(), 1);
    let empty = analyze(None, &vec![], &no_manifests());
    assert_eq!(empty.name, "project");
    assert_eq!(empty.file_stats.avg_lines_per_file, 0);
}

// --- dependencies -------------------------------------------------------

#[test]
fn go_mod_dependencies_have_versions() {
    let deps = parse_go_mod("require a/b v1\nrequire (\n  c/d v2 // indirect\n  lonely\n)\nrequire e/f\n");
    assert_eq!(deps.len(), 2);
    assert_eq!(deps[0].name, "a/b");
    assert_eq!(deps[0].version.as_deref(), Some("v1"));
    assert_eq!(deps[1].name, "c/d");
    assert_eq!(deps[1].version.as_deref(), Some("v2"));
    assert!(deps.iter().all(|d| d.version.is_some()));
}

#[test]
fn python_spec_splitting() {
    assert_eq!(split_python_spec("requests==2.28"), ("requests".to_string(), Some("=2.28".to_string())));
    assert_eq!(split_python_spec("numpy"), ("numpy".to_string(), None));
    assert_eq!(split_python_spec("  flask >= 2 "), ("flask".to_string(), Some(">= 2".to_string())));
    assert_eq!(split_python_spec("pkg="), ("pkg".to_string(), None));
    assert_eq!(split_python_spec("x; python_version<'3'"), ("x".to_string(), Some("; python_version<'3'".to_string())));
}

#[test]
fn requirements_skip_blank_and_comment_lines() {
    let deps = parse_requirements_txt("\n  # note\nrequests>=2.28\r\n\n  pytest  \n");
    assert_eq!(deps.len(), 2);
    assert_eq!(deps[0].name, "requests");
    assert_eq!(deps[0].version.as_deref(), Some(">=2.28"));
    assert_eq!(deps[1].name, "pytest");
    assert_eq!(deps[1].version, None);
}

#[test]
fn poetry_python_entry_is_skipped() {
    let content = "[tool.poetry.dependencies]\npython = \"^3.11\"\npython-dateutil = \"2.8\"\n";
    let deps = parse_pyproject_toml(content);
    let pairs: Vec<(&str, Option<&str>)> = deps.iter().map(|d| (d.name.as_str(), d.version.as_deref())).collect();
    assert_eq!(pairs, vec![("python-dateutil", Some("2.8"))]);
}

#[test]
fn invalid_documents_give_no_dependencies() {
    assert!(parse_cargo_toml("[dependencies\nserde = ").is_empty());
    assert!(parse_package_json("{ not json").is_empty());
    assert!(parse_package_json("[1, 2]").is_empty());
    assert!(parse_pyproject_toml("= =").is_empty());
}

#[test]
fn cargo_versions_from_tables_and_strings() {
    let deps = parse_cargo_toml("[dependencies]\nb = \"2\"\na = { version = \"1\" }\nc = { path = \"../c\" }\n[build-dependencies]\ncc = \"1.0\"\n");
    let pairs: Vec<(&str, Option<&str>)> = deps.iter().map(|d| (d.name.as_str(), d.version.as_deref())).collect();
    assert_eq!(pairs, vec![("a", Some("1")), ("b", Some("2")), ("c", None), ("cc", Some("1.0"))]);
}

#[test]
fn package_json_non_string_versions() {
    let deps = parse_package_json(r#"{"peerDependencies": {"x": 1}}"#);
    assert_eq!(deps.len(), 1);
    assert_eq!(deps[0].name, "x");
    assert_eq!(deps[0].version, None);
}

#[test]
fn manifest_dependencies_are_deduplicated() {
    let manifests = ManifestFiles {
        cargo_toml: Some("[dependencies]\nserde = \"1\"\n[dev-dependencies]\nserde = \"1\"\n".to_string()),
        requirements_txt: Some("serde==1\nrequests\nrequests\nrequests>=2\n".to_string()),
        ..no_manifests()
    };
    let deps = parse_manifest(&manifests);
    let pairs: Vec<(&str, Option<&str>)> = deps.iter().map(|d| (d.name.as_str(), d.version.as_deref())).collect();
    assert_eq!(pairs, vec![("serde", Some("1")), ("serde", Some("=1")), ("requests", None), ("requests", Some(">=2"))]);
}

// --- scanning -----------------------------------------------------------

#[test]
fn supported_extensions() {
    assert_eq!(detect_language("a/b.mjs"), Language::JavaScript);
    assert_eq!(detect_language("x.js"), Language::JavaScript);
    assert_eq!(detect_language(".rs"), Language::Unknown);
    assert_eq!(detect_language("dir.rs/"), Language::Rust);
    assert_eq!(detect_language("a/.."), Language::Unknown);
    assert_eq!(detect_language("Makefile"), Language::Unknown);
    assert_eq!(detect_language("x.RS"), Language::Unknown);
}

#[test]
fn language_filter_is_case_insensitive() {
    assert_eq!(select_language("./a.rs", Some(" RUST ,go")), Some(Language::Rust));
    assert_eq!(select_language("./a.go", Some("rust,Go")), Some(Language::Go));
    assert_eq!(select_language("./a.rs", Some("python")), None);
    assert_eq!(select_language("./a.rs", None), Some(Language::Rust));
    assert_eq!(select_language("./a.txt", None), None);
}

#[test]
fn source_file_counts_lines() {
    let f = source_file("./x.py", Language::Python, "def f():\r\n    pass\n\nclass _Hidden:\n    pass");
    assert_eq!(f.line_count, 5);
    assert_eq!(f.path, "./x.py");
    assert_eq!(f.symbols.len(), 2);
    assert!(f.symbols[0].is_public);
    assert!(!f.symbols[1].is_public);
    assert_eq!(f.symbols[1].line, 4);
    let empty = source_file("e.rs", Language::Rust, "");
    assert_eq!(empty.line_count, 0);
    assert!(empty.symbols.is_empty());
}

#[test]
fn unknown_language_has_no_symbols() {
    assert!(parse_symbols("fn main() {}", &Language::Unknown).is_empty());
}

#[test]
fn go_visibility_follows_capitalisation() {
    let syms = parse_symbols("package p\nfunc helper() {}\nfunc Élan() {}\n", &Language::Go);
    assert_eq!(syms.len(), 2);
    assert!(!syms[0].is_public);
    assert!(syms[1].is_public);
}

#[test]
fn go_struct_and_interface_types() {
    let source = "package main\n\ntype User struct {\n    Name string\n}\n\ntype (\n    reader interface {\n        Read() int\n    }\n    ID int\n)\n\nfunc NewUser() *User { return nil }\n";
    let syms = parse_symbols(source, &Language::Go);
    let names: Vec<(&str, SymbolKind, usize, bool)> =
        syms.iter().map(|s| (s.name.as_str(), s.kind, s.line, s.is_public)).collect();
    assert_eq!(
        names,
        vec![
            ("NewUser", SymbolKind::Function, 14, true),
            ("User", SymbolKind::Struct, 3, true),
            ("reader", SymbolKind::Interface, 8, false),
        ]
    );
    assert!(syms.iter().all(|s| s.children.is_empty()));
}

#[test]
fn javascript_symbols() {
    let syms = parse_symbols("export function run() {}\nconst x = 1;\nclass A { m() {} }\n", &Language::JavaScript);
    assert!(syms.iter().any(|s| s.name == "run" && s.kind == SymbolKind::Function));
    let a = syms.iter().find(|s| s.name == "A").expect("class A");
    assert_eq!(a.kind, SymbolKind::Class);
    assert!(a.children.iter().any(|c| c.name == "m" && c.kind == SymbolKind::Method));
}
