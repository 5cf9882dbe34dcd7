//! gitmind: scans a code base, extracts the symbols of its source files with
//! tree-sitter, and analyses them into modules, public interfaces, line
//! statistics and declared dependencies. Every function here carries a
//! contract that Verus proves; the calls into tree-sitter, `toml` and
//! `serde_json` stand behind small trusted wrappers.
pub mod text;
pub mod path;
pub mod scanner;
pub mod analyzer;
