use gitmind::scanner::extract::parse_symbols;
use gitmind::scanner::{detect_language, Language, Symbol, SymbolKind};

fn parse_rust(source: &str) -> Vec<Symbol> {
    parse_symbols(source, &Language::Rust)
}

fn parse_ts(source: &str) -> Vec<Symbol> {
    parse_symbols(source, &Language::TypeScript)
}

fn parse_python(source: &str) -> Vec<Symbol> {
    parse_symbols(source, &Language::Python)
}

fn parse_go(source: &str) -> Vec<Symbol> {
    parse_symbols(source, &Language::Go)
}

fn find_symbol<'a>(symbols: &'a [Symbol], name: &str) -> Option<&'a Symbol> {
    symbols.iter().find(|s| s.name == name)
}

#[test]
fn rust_extracts_struct_function_and_impl_methods() {
    let source = r#"
pub struct User {
    name: String,
}

impl User {
    pub fn new(name: &str) -> Self {
        User { name: name.to_string() }
    }

    fn secret(&self) {}
}

fn helper() {}
"#;
    let symbols = parse_rust(source);
    let user = find_symbol(&symbols, "User").expect("User struct");
    assert_eq!(user.kind, SymbolKind::Struct);
    assert!(user.is_public);
    assert_eq!(user.children.len(), 1); // field

    let user_impl = find_symbol(&symbols, "User").and_then(|_| {
        symbols.iter().find(|s| s.kind == SymbolKind::Impl && s.name == "User")
    });
    assert!(user_impl.is_some(), "impl User should be extracted");
    let impl_methods = &user_impl.unwrap().children;
    assert_eq!(impl_methods.len(), 2);
    assert!(impl_methods.iter().any(|m| m.name == "new" && m.kind == SymbolKind::Method));
    assert!(impl_methods.iter().any(|m| m.name == "secret" && m.kind == SymbolKind::Method));

    let helper = find_symbol(&symbols, "helper").expect("helper function");
    assert_eq!(helper.kind, SymbolKind::Function);
    assert!(!helper.is_public);
}

#[test]
fn rust_extracts_trait_and_enum() {
    let source = r#"
pub trait Greeter {
    fn greet(&self);
}

pub enum Color {
    Red,
    Green,
}
"#;
    let symbols = parse_rust(source);
    let greeter = find_symbol(&symbols, "Greeter").expect("Greeter trait");
    assert_eq!(greeter.kind, SymbolKind::Trait);
    assert_eq!(greeter.children.len(), 1);
    assert_eq!(greeter.children[0].name, "greet");
    assert_eq!(greeter.children[0].kind, SymbolKind::Method);

    let color = find_symbol(&symbols, "Color").expect("Color enum");
    assert_eq!(color.kind, SymbolKind::Enum);
}

#[test]
fn rust_extracts_macro_and_module() {
    let source = r#"
macro_rules! say_hello {
    () => { println!("hello") };
}

mod inner {
    pub fn work() {}
}
"#;
    let symbols = parse_rust(source);
    assert!(find_symbol(&symbols, "say_hello").is_some());
    assert_eq!(find_symbol(&symbols, "say_hello").unwrap().kind, SymbolKind::Macro);

    let inner = find_symbol(&symbols, "inner").expect("inner module");
    assert_eq!(inner.kind, SymbolKind::Module);
    assert_eq!(inner.children.len(), 1);
    assert_eq!(inner.children[0].name, "work");
}

#[test]
fn typescript_extracts_class_interface_and_methods() {
    let source = r#"
export class User {
    constructor(public name: string) {}

    greet(): string {
        return "hi";
    }
}

interface Named {
    name: string;
}
"#;
    let symbols = parse_ts(source);
    let user = find_symbol(&symbols, "User").expect("User class");
    assert_eq!(user.kind, SymbolKind::Class);
    assert!(user.children.iter().any(|c| c.name == "greet" && c.kind == SymbolKind::Method));

    let named = find_symbol(&symbols, "Named").expect("Named interface");
    assert_eq!(named.kind, SymbolKind::Interface);
    assert!(named.children.iter().any(|c| c.name == "name" && c.kind == SymbolKind::Field));
}

#[test]
fn python_extracts_class_and_methods() {
    let source = r#"
class User:
    def __init__(self, name):
        self.name = name

    def greet(self):
        return f"hello {self.name}"

def helper():
    pass
"#;
    let symbols = parse_python(source);
    let user = find_symbol(&symbols, "User").expect("User class");
    assert_eq!(user.kind, SymbolKind::Class);
    assert!(user.children.iter().any(|c| c.name == "__init__" && c.kind == SymbolKind::Method));
    assert!(user.children.iter().any(|c| c.name == "greet" && c.kind == SymbolKind::Method));

    let helper = find_symbol(&symbols, "helper").expect("helper function");
    assert_eq!(helper.kind, SymbolKind::Function);
}

#[test]
fn go_extracts_functions_structs_and_methods() {
    let source = r#"
package main

type User struct {
    Name string
}

func NewUser(name string) *User {
    return &User{Name: name}
}

func (u *User) Greet() string {
    return "hello"
}
"#;
    let symbols = parse_go(source);
    let new_user = find_symbol(&symbols, "NewUser").expect("NewUser function");
    assert_eq!(new_user.kind, SymbolKind::Function);
    assert!(new_user.is_public);

    let greet = find_symbol(&symbols, "Greet").expect("Greet method");
    assert_eq!(greet.kind, SymbolKind::Method);
    assert!(greet.is_public);
}

#[test]
fn language_detection_works() {
    assert_eq!(detect_language("foo.rs"), Language::Rust);
    assert_eq!(detect_language("foo.ts"), Language::TypeScript);
    assert_eq!(detect_language("foo.tsx"), Language::TypeScript);
    assert_eq!(detect_language("foo.py"), Language::Python);
    assert_eq!(detect_language("foo.go"), Language::Go);
    assert_eq!(detect_language("foo.jsx"), Language::JavaScript);
    assert_eq!(detect_language("foo.txt"), Language::Unknown);
}
