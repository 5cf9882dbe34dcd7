//! Source files, their languages and the symbols found in them.
use vstd::prelude::*;
use crate::path::{dot_dot_name, extension, file_name, last_index, normal_part_ranges, rfind_char};
use crate::text::{
    line_ranges, lines, owned, range_eq, range_is, ranges_view, split_on, split_ranges, string_of,
    to_chars, trim, trim_range,
};
use crate::analyzer::describe::{language_key, language_key_of};
use self::extract::{parse_symbols, source_symbols};

pub mod syntax;
pub mod extract;

verus! {

#[derive(Debug, Clone, Copy, PartialEq, Eq, Structural)]
pub enum Language {
    TypeScript,
    JavaScript,
    Python,
    Rust,
    Go,
    Unknown,
}

#[derive(Debug, Clone, Copy, PartialEq, Eq, Structural)]
pub enum SymbolKind {
    Function,
    Class,
    Struct,
    Interface,
    Impl,
    Enum,
    TypeAlias,
    Field,
    Method,
    Trait,
    Macro,
    Constant,
    Module,
    Variable,
}

/// A symbol found in a source file, with the symbols nested in it.
#[derive(Debug)]
pub struct Symbol {
    pub kind: SymbolKind,
    pub name: String,
    pub line: usize,
    pub is_public: bool,
    pub children: Vec<Symbol>,
}

/// A scanned source file.
pub struct SourceFile {
    pub path: String,
    pub line_count: usize,
    pub language: Language,
    pub symbols: Vec<Symbol>,
}

/// The mathematical value of a `SourceFile`.
pub struct SourceFileView {
    pub path: Seq<char>,
    pub line_count: nat,
    pub language: Language,
    pub symbols: Seq<SymbolView>,
}

impl View for SourceFile {
    type V = SourceFileView;

    open spec fn view(&self) -> SourceFileView {
        SourceFileView {
            path: self.path@,
            line_count: self.line_count as nat,
            language: self.language,
            symbols: symbols_view(self.symbols@),
        }
    }
}

pub open spec fn files_view(s: Seq<SourceFile>) -> Seq<SourceFileView> {
    Seq::new(s.len(), |i: int| s[i]@)
}

/// The mathematical value of a `Symbol`.
pub struct SymbolView {
    pub kind: SymbolKind,
    pub name: Seq<char>,
    pub line: nat,
    pub is_public: bool,
    pub children: Seq<SymbolView>,
}

pub open spec fn symbol_view(s: Symbol) -> SymbolView
    decreases s,
{
    SymbolView {
        kind: s.kind,
        name: s.name@,
        line: s.line as nat,
        is_public: s.is_public,
        children: Seq::new(
            s.children@.len(),
            |i: int|
                if 0 <= i < s.children@.len() {
                    symbol_view(s.children@[i])
                } else {
                    empty_symbol_view()
                },
        ),
    }
}

pub open spec fn empty_symbol_view() -> SymbolView {
    SymbolView {
        kind: SymbolKind::Function,
        name: Seq::empty(),
        line: 0,
        is_public: false,
        children: Seq::empty(),
    }
}

impl View for Symbol {
    type V = SymbolView;

    open spec fn view(&self) -> SymbolView {
        symbol_view(*self)
    }
}

/// A copy of a symbol and of the symbols nested in it.
pub fn copy_symbol(s: &Symbol) -> (r: Symbol)
    ensures
        r@ == s@,
    decreases s,
{
    let mut children: Vec<Symbol> = Vec::new();
    let mut i: usize = 0;
    while i < s.children.len()
        invariant
            i <= s.children.len(),
            children@.len() == i,
            forall|j: int| 0 <= j < i ==> (#[trigger] children@[j])@ == s.children@[j]@,
        decreases s.children.len() - i,
    {
        proof {
            assert(decreases_to!(s => s.children@[i as int]));
        }
        children.push(copy_symbol(&s.children[i]));
        i = i + 1;
    }
    let r = Symbol {
        kind: s.kind,
        name: s.name.clone(),
        line: s.line,
        is_public: s.is_public,
        children,
    };
    proof {
        assert(r@.children =~= s@.children);
    }
    r
}

impl Clone for Symbol {
    fn clone(&self) -> (r: Self)
        ensures
            r@ == self@,
    {
        copy_symbol(self)
    }
}

/// The values of a sequence of symbols.
pub open spec fn symbols_view(s: Seq<Symbol>) -> Seq<SymbolView> {
    Seq::new(s.len(), |i: int| s[i]@)
}

/// The name under which a kind of symbol is shown.
pub open spec fn kind_name(k: SymbolKind) -> Seq<char> {
    match k {
        SymbolKind::Function => "function"@,
        SymbolKind::Class => "class"@,
        SymbolKind::Struct => "struct"@,
        SymbolKind::Interface => "interface"@,
        SymbolKind::Impl => "impl"@,
        SymbolKind::Enum => "enum"@,
        SymbolKind::TypeAlias => "type"@,
        SymbolKind::Field => "field"@,
        SymbolKind::Method => "method"@,
        SymbolKind::Trait => "trait"@,
        SymbolKind::Macro => "macro"@,
        SymbolKind::Constant => "const"@,
        SymbolKind::Module => "module"@,
        SymbolKind::Variable => "variable"@,
    }
}

impl SymbolKind {
    /// The name under which this kind of symbol is shown.
    pub fn to_string(&self) -> (r: String)
        ensures
            r@ == kind_name(*self),
    {
        match self {
            SymbolKind::Function => owned("function"),
            SymbolKind::Class => owned("class"),
            SymbolKind::Struct => owned("struct"),
            SymbolKind::Interface => owned("interface"),
            SymbolKind::Impl => owned("impl"),
            SymbolKind::Enum => owned("enum"),
            SymbolKind::TypeAlias => owned("type"),
            SymbolKind::Field => owned("field"),
            SymbolKind::Method => owned("method"),
            SymbolKind::Trait => owned("trait"),
            SymbolKind::Macro => owned("macro"),
            SymbolKind::Constant => owned("const"),
            SymbolKind::Module => owned("module"),
            SymbolKind::Variable => owned("variable"),
        }
    }
}

/// The language that a file extension stands for.
pub open spec fn language_for_extension(ext: Option<Seq<char>>) -> Language {
    match ext {
        Some(e) => if e == "ts"@ || e == "tsx"@ {
            Language::TypeScript
        } else if e == "js"@ || e == "jsx"@ || e == "mjs"@ {
            Language::JavaScript
        } else if e == "py"@ {
            Language::Python
        } else if e == "rs"@ {
            Language::Rust
        } else if e == "go"@ {
            Language::Go
        } else {
            Language::Unknown
        },
        None => Language::Unknown,
    }
}

/// The language of the file at `path`, by the extension of its file name.
pub open spec fn language_of_path(path: Seq<char>) -> Language {
    match file_name(path) {
        Some(name) => language_for_extension(extension(name)),
        None => Language::Unknown,
    }
}

/// The language of a file depends only on the text after the last `.` of its
/// name: for any name `p` (which may itself hold dots) and an extension `e`,
/// the file `p.e` is TypeScript for `ts`/`tsx`, JavaScript for
/// `js`/`jsx`/`mjs`, Python for `py`, Rust for `rs` and Go for `go`.
pub proof fn lemma_language_by_last_extension(p: Seq<char>, e: Seq<char>)
    requires
        p.len() > 0,
        forall|i: int| 0 <= i < p.len() ==> #[trigger] p[i] != '/',
        forall|i: int| 0 <= i < e.len() ==> #[trigger] e[i] != '/' && e[i] != '.',
    ensures
        language_of_path(p + seq!['.'] + e) == language_for_extension(Some(e)),
        e == seq!['t', 's'] ==> language_of_path(p + seq!['.'] + e) == Language::TypeScript,
        e == seq!['t', 's', 'x'] ==> language_of_path(p + seq!['.'] + e) == Language::TypeScript,
        e == seq!['j', 's'] ==> language_of_path(p + seq!['.'] + e) == Language::JavaScript,
        e == seq!['j', 's', 'x'] ==> language_of_path(p + seq!['.'] + e) == Language::JavaScript,
        e == seq!['m', 'j', 's'] ==> language_of_path(p + seq!['.'] + e) == Language::JavaScript,
        e == seq!['p', 'y'] ==> language_of_path(p + seq!['.'] + e) == Language::Python,
        e == seq!['r', 's'] ==> language_of_path(p + seq!['.'] + e) == Language::Rust,
        e == seq!['g', 'o'] ==> language_of_path(p + seq!['.'] + e) == Language::Go,
{
    let x = p + seq!['.'] + e;
    assert forall|i: int| 0 <= i < x.len() implies #[trigger] x[i] != '/' by {
        if i < p.len() {
            assert(x[i] == p[i]);
        } else if i > p.len() {
            assert(x[i] == e[i - p.len() - 1]);
        }
    }
    assert(x.len() >= 2);
    assert(x != crate::path::dot_name());
    crate::path::lemma_single_component(x);
    if x == crate::path::dot_dot_name() {
        assert(x[p.len() as int] == '.');
        assert(p.len() == 1);
        assert(e.len() == 0);
    }
    assert(forall|j: int| p.len() < j < x.len() ==> x[j] == e[j - p.len() - 1]);
    crate::path::lemma_last_index_is(x, '.', Some(p.len() as nat));
    assert(x.skip(p.len() + 1 as int) =~= e);
    reveal_strlit("ts");
    reveal_strlit("tsx");
    reveal_strlit("js");
    reveal_strlit("jsx");
    reveal_strlit("mjs");
    reveal_strlit("py");
    reveal_strlit("rs");
    reveal_strlit("go");
    assert("ts"@ =~= seq!['t', 's']);
    assert("tsx"@ =~= seq!['t', 's', 'x']);
    assert("js"@ =~= seq!['j', 's']);
    assert("jsx"@ =~= seq!['j', 's', 'x']);
    assert("mjs"@ =~= seq!['m', 'j', 's']);
    assert("py"@ =~= seq!['p', 'y']);
    assert("rs"@ =~= seq!['r', 's']);
    assert("go"@ =~= seq!['g', 'o']);
}

/// Detects the language of the file at `path` from its extension.
pub fn detect_language(path: &str) -> (r: Language)
    ensures
        r == language_of_path(path@),
{
    let v = to_chars(path);
    let parts = normal_part_ranges(&v);
    if parts.len() == 0 {
        return Language::Unknown;
    }
    let (a, b) = parts[parts.len() - 1];
    let ghost name = v@.subrange(a as int, b as int);
    proof {
        assert(ranges_view(v@, parts@).last() == name);
    }
    let dd = to_chars("..");
    proof {
        reveal_strlit("..");
        assert(dd@ =~= dot_dot_name());
    }
    if range_eq(&v, a, b, &dd) {
        return Language::Unknown;
    }
    let dot = rfind_char(&v, a, b, '.');
    match dot {
        Some(i) => {
            if i == a {
                return Language::Unknown;
            }
            proof {
                assert(name.skip(i - a + 1) =~= v@.subrange(i + 1, b as int));
            }
            let s = i + 1;
            if range_is(&v, s, b, "ts") || range_is(&v, s, b, "tsx") {
                Language::TypeScript
            } else if range_is(&v, s, b, "js") || range_is(&v, s, b, "jsx") || range_is(
                &v,
                s,
                b,
                "mjs",
            ) {
                Language::JavaScript
            } else if range_is(&v, s, b, "py") {
                Language::Python
            } else if range_is(&v, s, b, "rs") {
                Language::Rust
            } else if range_is(&v, s, b, "go") {
                Language::Go
            } else {
                Language::Unknown
            }
        },
        None => Language::Unknown,
    }
}

/// Whether a function found under a node of kind `parent_kind` is a method.
pub open spec fn method_context(lang: Language, parent_kind: Seq<char>) -> bool {
    match lang {
        Language::Rust => parent_kind == "impl_item"@ || parent_kind == "trait_item"@,
        Language::TypeScript | Language::JavaScript => parent_kind == "class_declaration"@
            || parent_kind == "class_body"@,
        Language::Python => parent_kind == "class_definition"@,
        _ => false,
    }
}

/// Whether two strings hold the same characters.
pub(crate) fn str_eq(a: &str, b: &str) -> (r: bool)
    ensures
        r == (a@ == b@),
{
    let v = to_chars(a);
    proof {
        assert(v@.subrange(0, v@.len() as int) =~= v@);
    }
    range_is(&v, 0, v.len(), b)
}

pub fn is_method_context(lang: &Language, parent_kind: &str) -> (r: bool)
    ensures
        r == method_context(*lang, parent_kind@),
{
    match lang {
        Language::Rust => str_eq(parent_kind, "impl_item") || str_eq(parent_kind, "trait_item"),
        Language::TypeScript | Language::JavaScript => str_eq(parent_kind, "class_declaration")
            || str_eq(parent_kind, "class_body"),
        Language::Python => str_eq(parent_kind, "class_definition"),
        _ => false,
    }
}

/// Kinds of symbols whose nested symbols are gathered from inner blocks too.
pub open spec fn container_kind(kind: SymbolKind) -> bool {
    match kind {
        SymbolKind::Class | SymbolKind::Struct | SymbolKind::Enum | SymbolKind::Impl
        | SymbolKind::Trait | SymbolKind::Interface | SymbolKind::Module => true,
        _ => false,
    }
}

pub fn is_container(kind: &SymbolKind) -> (r: bool)
    ensures
        r == container_kind(*kind),
{
    match kind {
        SymbolKind::Class | SymbolKind::Struct | SymbolKind::Enum | SymbolKind::Impl
        | SymbolKind::Trait | SymbolKind::Interface | SymbolKind::Module => true,
        _ => false,
    }
}

// ---------------------------------------------------------------------------
// Scanning files
// ---------------------------------------------------------------------------

/// What `str::to_lowercase` returns: the Unicode lower case of a text.
pub uninterp spec fn lowercase_of(s: Seq<char>) -> Seq<char>;

/// `str::to_lowercase`. The contract names the result (`lowercase_of`);
/// the Unicode case mapping itself is not stated.
#[verifier::external_body]
pub(crate) fn to_lowercase(s: &str) -> (r: String)
    ensures
        r@ == lowercase_of(s@),
{
    s.to_lowercase()
}

/// Whether a comma-separated list of language names names `lang`, ignoring
/// case and surrounding whitespace.
pub open spec fn filter_accepts(filter: Seq<char>, lang: Language) -> bool {
    exists|i: int|
        0 <= i < split_on(filter, ',').len() && lowercase_of(trim(#[trigger] split_on(filter, ',')[i]))
            == language_key(lang)
}

/// The language of the file at `path` when it is to be scanned: one that the
/// scanner knows and, when a filter is given, that the filter names.
pub open spec fn selected_language(path: Seq<char>, filter: Option<Seq<char>>) -> Option<Language> {
    let lang = language_of_path(path);
    if lang == Language::Unknown {
        None
    } else {
        match filter {
            Some(f) => if filter_accepts(f, lang) {
                Some(lang)
            } else {
                None
            },
            None => Some(lang),
        }
    }
}

/// Decides whether the file at `path` is scanned, and as which language.
pub fn select_language(path: &str, lang_filter: Option<&str>) -> (r: Option<Language>)
    ensures
        r == selected_language(
            path@,
            match lang_filter {
                Some(f) => Some(f@),
                None => None,
            },
        ),
{
    let lang = detect_language(path);
    if lang == Language::Unknown {
        return None;
    }
    match lang_filter {
        None => Some(lang),
        Some(f) => {
            let key = language_key_of(&lang);
            let v = to_chars(f);
            proof {
                assert(v@.subrange(0, v@.len() as int) =~= v@);
            }
            let pieces = split_ranges(&v, 0, v.len(), ',');
            let ghost ps = ranges_view(v@, pieces@);
            let mut i: usize = 0;
            while i < pieces.len()
                invariant
                    i <= pieces.len(),
                    ps == ranges_view(v@, pieces@),
                    ps == split_on(f@, ','),
                    v@ == f@,
                    key@ == language_key(lang),
                    lang == language_of_path(path@),
                    lang != Language::Unknown,
                    lang_filter == Some(f),
                    crate::text::ranges_within(pieces@, 0, v@.len() as int),
                    forall|j: int| 0 <= j < i ==> lowercase_of(trim(#[trigger] ps[j])) != language_key(lang),
                decreases pieces.len() - i,
            {
                let (a, b) = pieces[i];
                proof {
                    assert(0 <= pieces@[i as int].0 <= pieces@[i as int].1 <= v@.len());
                    assert(ps[i as int] == v@.subrange(a as int, b as int));
                }
                let (s, e) = trim_range(&v, a, b);
                let t = string_of(&v, s, e);
                let low = to_lowercase(t.as_str());
                if low == key {
                    proof {
                        assert(t@ == trim(ps[i as int]));
                        assert(lowercase_of(trim(split_on(f@, ',')[i as int])) == language_key(lang));
                    }
                    return Some(lang);
                }
                i = i + 1;
            }
            None
        },
    }
}

/// What scanning a file of language `lang` at `path` with text `content`
/// yields.
pub open spec fn scanned_file(path: Seq<char>, lang: Language, content: Seq<char>) -> SourceFileView {
    SourceFileView {
        path,
        line_count: lines(content).len(),
        language: lang,
        symbols: source_symbols(content, lang),
    }
}

/// Scans the text `content` of the file at `path`, of language `language`.
pub fn source_file(path: &str, language: Language, content: &str) -> (r: SourceFile)
    ensures
        r@ == scanned_file(path@, language, content@),
{
    let v = to_chars(content);
    let lrs = line_ranges(&v);
    let symbols = parse_symbols(content, &language);
    SourceFile { path: owned(path), line_count: lrs.len(), language, symbols }
}

} // verus!
