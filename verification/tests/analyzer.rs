use gitmind::analyzer::dependencies::{parse_cargo_toml, parse_package_json, parse_pyproject_toml};
use gitmind::analyzer::manifest::{parse_go_mod, parse_requirements_txt};
use gitmind::analyzer::naming::compute_module_name;

#[test]
fn module_names_for_rust_layout() {
    assert_eq!(compute_module_name("./src/main.rs"), "main");
    assert_eq!(compute_module_name("src/lib.rs"), "lib");
    assert_eq!(compute_module_name("src/analyzer/mod.rs"), "analyzer");
    assert_eq!(compute_module_name("src/foo/bar.rs"), "foo::bar");
    assert_eq!(compute_module_name("packages/ui/src/index.ts"), "ui::index");
}

#[test]
fn cargo_toml_parsing_handles_inline_tables() {
    let content = r#"
[package]
name = "demo"
version = "0.1.0"

[dependencies]
clap = { version = "4", features = ["derive"] }
serde = "1"
tokio = { version = "1.35", features = ["full"] }

[dev-dependencies]
pretty_assertions = "1"
"#;
    let deps = parse_cargo_toml(content);
    let names: Vec<&str> = deps.iter().map(|d| d.name.as_str()).collect();
    assert!(names.contains(&"clap"));
    assert!(names.contains(&"serde"));
    assert!(names.contains(&"tokio"));
    assert!(names.contains(&"pretty_assertions"));

    let clap = deps.iter().find(|d| d.name == "clap").unwrap();
    assert_eq!(clap.version.as_deref(), Some("4"));

    let serde = deps.iter().find(|d| d.name == "serde").unwrap();
    assert_eq!(serde.version.as_deref(), Some("1"));
}

#[test]
fn package_json_parsing_includes_dev_deps() {
    let content = r#"
{
  "dependencies": {
    "react": "^18.0.0"
  },
  "devDependencies": {
    "jest": "^29.0.0"
  }
}
"#;
    let deps = parse_package_json(content);
    assert!(deps.iter().any(|d| d.name == "react" && d.version.as_deref() == Some("^18.0.0")));
    assert!(deps.iter().any(|d| d.name == "jest" && d.version.as_deref() == Some("^29.0.0")));
}

#[test]
fn go_mod_parsing_handles_single_and_block_requires() {
    let content = r#"
module github.com/example/app

go 1.21

require github.com/foo/bar v1.2.3

require (
    github.com/baz/qux v2.0.0
    github.com/some/thing v0.5.0
)
"#;
    let deps = parse_go_mod(content);
    assert!(deps.iter().any(|d| d.name == "github.com/foo/bar"));
    assert!(deps.iter().any(|d| d.name == "github.com/baz/qux"));
    assert!(deps.iter().any(|d| d.name == "github.com/some/thing"));
}

#[test]
fn pyproject_toml_parsing_handles_pep621_and_poetry() {
    let content = r#"
[project]
name = "myapp"
dependencies = [
    "requests>=2.28",
    "numpy",
]

[tool.poetry.dependencies]
python = "^3.11"
pendulum = "^3.0"
httpx = { version = ">=0.25", extras = ["http2"] }
"#;
    let deps = parse_pyproject_toml(content);
    assert!(deps.iter().any(|d| d.name == "requests"));
    assert!(deps.iter().any(|d| d.name == "numpy"));
    assert!(deps.iter().any(|d| d.name == "pendulum"));
    assert!(deps.iter().any(|d| d.name == "httpx"));
    assert!(!deps.iter().any(|d| d.name == "python"));
}

#[test]
fn requirements_txt_parsing_handles_versions() {
    let content = r#"
# comment
requests>=2.28
numpy<2.0; python_version < "3.12"
pytest
"#;
    let deps = parse_requirements_txt(content);
    assert!(deps.iter().any(|d| d.name == "requests"));
    assert!(deps.iter().any(|d| d.name == "numpy"));
    assert!(deps.iter().any(|d| d.name == "pytest"));
}
