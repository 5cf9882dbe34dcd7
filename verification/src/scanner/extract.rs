//! Symbols from syntax trees: which nodes are symbols, what they are called,
//! whether they are public and which symbols they hold.
use vstd::prelude::*;
use super::{
    container_kind, is_container, is_method_context, method_context, str_eq, symbols_view,
    Language, Symbol, SymbolKind, SymbolView,
};
use super::syntax::{
    check_rows, grammar_for, grammar_of, lemma_rows_fit_all, nodes_view, parse_tree, rows_fit,
    rows_fit_all, syntax_tree_of, SyntaxNode, SyntaxTree,
};
use crate::text::{owned, to_chars};

verus! {

// ---------------------------------------------------------------------------
// Which nodes are symbols
// ---------------------------------------------------------------------------

pub open spec fn is_script(lang: Language) -> bool {
    lang == Language::TypeScript || lang == Language::JavaScript
}

/// The kind of symbol that a node of kind `k` stands for, found under a node
/// of kind `root_kind` while symbols of a `parent` node are collected.
pub open spec fn classify(
    lang: Language,
    k: Seq<char>,
    parent: Seq<char>,
    root_kind: Seq<char>,
) -> Option<SymbolKind> {
    if k == "function_item"@ || k == "function_declaration"@ || k == "function_signature_item"@ {
        if method_context(lang, parent) {
            Some(SymbolKind::Method)
        } else {
            Some(SymbolKind::Function)
        }
    } else if is_script(lang) && k == "method_definition"@ {
        Some(SymbolKind::Method)
    } else if lang == Language::Python && k == "function_definition"@ {
        if parent == "class_definition"@ {
            Some(SymbolKind::Method)
        } else {
            Some(SymbolKind::Function)
        }
    } else if lang == Language::Go && k == "method_declaration"@ {
        Some(SymbolKind::Method)
    } else if k == "class_declaration"@ || k == "class_definition"@ {
        Some(SymbolKind::Class)
    } else if lang == Language::Rust && k == "struct_item"@ {
        Some(SymbolKind::Struct)
    } else if lang == Language::Rust && k == "interface_item"@ {
        Some(SymbolKind::Interface)
    } else if is_script(lang) && k == "interface_declaration"@ {
        Some(SymbolKind::Interface)
    } else if lang == Language::Go && k == "interface_type"@ && root_kind != "type_spec"@ {
        Some(SymbolKind::Interface)
    } else if lang == Language::Rust && k == "impl_item"@ {
        Some(SymbolKind::Impl)
    } else if lang == Language::Rust && k == "trait_item"@ {
        Some(SymbolKind::Trait)
    } else if is_script(lang) && k == "enum_declaration"@ {
        Some(SymbolKind::Enum)
    } else if lang == Language::Rust && k == "enum_item"@ {
        Some(SymbolKind::Enum)
    } else if is_script(lang) && k == "type_alias_declaration"@ {
        Some(SymbolKind::TypeAlias)
    } else if lang == Language::Rust && k == "type_item"@ {
        Some(SymbolKind::TypeAlias)
    } else if lang == Language::Rust && k == "field_declaration"@ {
        Some(SymbolKind::Field)
    } else if lang == Language::Rust && (k == "macro_rules_definition"@ || k
        == "macro_definition"@) {
        Some(SymbolKind::Macro)
    } else if lang == Language::Rust && (k == "const_item"@ || k == "static_item"@) {
        Some(SymbolKind::Constant)
    } else if lang == Language::Rust && k == "mod_item"@ {
        Some(SymbolKind::Module)
    } else if is_script(lang) && (k == "property_signature"@ || k == "property_definition"@) {
        Some(SymbolKind::Field)
    } else if is_script(lang) && k == "method_signature"@ {
        Some(SymbolKind::Method)
    } else if is_script(lang) && k == "variable_declarator"@ {
        Some(SymbolKind::Variable)
    } else if lang == Language::Go && (k == "const_declaration"@ || k == "var_declaration"@) {
        Some(SymbolKind::Constant)
    } else {
        None
    }
}

fn is_script_lang(lang: &Language) -> (r: bool)
    ensures
        r == is_script(*lang),
{
    match lang {
        Language::TypeScript | Language::JavaScript => true,
        _ => false,
    }
}

fn is_lang(lang: &Language, other: Language) -> (r: bool)
    ensures
        r == (*lang == other),
{
    *lang == other
}

pub fn classify_node(lang: &Language, k: &str, parent: &str, root_kind: &str) -> (r: Option<
    SymbolKind,
>)
    ensures
        r == classify(*lang, k@, parent@, root_kind@),
{
    let script = is_script_lang(lang);
    let rust = is_lang(lang, Language::Rust);
    let go = is_lang(lang, Language::Go);
    let python = is_lang(lang, Language::Python);
    if str_eq(k, "function_item") || str_eq(k, "function_declaration") || str_eq(
        k,
        "function_signature_item",
    ) {
        if is_method_context(lang, parent) {
            Some(SymbolKind::Method)
        } else {
            Some(SymbolKind::Function)
        }
    } else if script && str_eq(k, "method_definition") {
        Some(SymbolKind::Method)
    } else if python && str_eq(k, "function_definition") {
        if str_eq(parent, "class_definition") {
            Some(SymbolKind::Method)
        } else {
            Some(SymbolKind::Function)
        }
    } else if go && str_eq(k, "method_declaration") {
        Some(SymbolKind::Method)
    } else if str_eq(k, "class_declaration") || str_eq(k, "class_definition") {
        Some(SymbolKind::Class)
    } else if rust && str_eq(k, "struct_item") {
        Some(SymbolKind::Struct)
    } else if rust && str_eq(k, "interface_item") {
        Some(SymbolKind::Interface)
    } else if script && str_eq(k, "interface_declaration") {
        Some(SymbolKind::Interface)
    } else if go && str_eq(k, "interface_type") && !str_eq(root_kind, "type_spec") {
        Some(SymbolKind::Interface)
    } else if rust && str_eq(k, "impl_item") {
        Some(SymbolKind::Impl)
    } else if rust && str_eq(k, "trait_item") {
        Some(SymbolKind::Trait)
    } else if script && str_eq(k, "enum_declaration") {
        Some(SymbolKind::Enum)
    } else if rust && str_eq(k, "enum_item") {
        Some(SymbolKind::Enum)
    } else if script && str_eq(k, "type_alias_declaration") {
        Some(SymbolKind::TypeAlias)
    } else if rust && str_eq(k, "type_item") {
        Some(SymbolKind::TypeAlias)
    } else if rust && str_eq(k, "field_declaration") {
        Some(SymbolKind::Field)
    } else if rust && (str_eq(k, "macro_rules_definition") || str_eq(k, "macro_definition")) {
        Some(SymbolKind::Macro)
    } else if rust && (str_eq(k, "const_item") || str_eq(k, "static_item")) {
        Some(SymbolKind::Constant)
    } else if rust && str_eq(k, "mod_item") {
        Some(SymbolKind::Module)
    } else if script && (str_eq(k, "property_signature") || str_eq(k, "property_definition")) {
        Some(SymbolKind::Field)
    } else if script && str_eq(k, "method_signature") {
        Some(SymbolKind::Method)
    } else if script && str_eq(k, "variable_declarator") {
        Some(SymbolKind::Variable)
    } else if go && (str_eq(k, "const_declaration") || str_eq(k, "var_declaration")) {
        Some(SymbolKind::Constant)
    } else {
        None
    }
}

// ---------------------------------------------------------------------------
// Names
// ---------------------------------------------------------------------------

/// The first child that stands under field `f`.
pub open spec fn child_with_field(cs: Seq<SyntaxTree>, f: Seq<char>) -> Option<SyntaxTree>
    decreases cs.len(),
{
    if cs.len() == 0 {
        None
    } else if cs[0].field == Some(f) {
        Some(cs[0])
    } else {
        child_with_field(cs.drop_first(), f)
    }
}

/// The text of the first child under the first of `fields` whose child has
/// a text.
pub open spec fn name_by_fields(cs: Seq<SyntaxTree>, fields: Seq<Seq<char>>) -> Option<Seq<char>>
    decreases fields.len(),
{
    if fields.len() == 0 {
        None
    } else {
        match child_with_field(cs, fields[0]) {
            Some(c) => match c.text {
                Some(t) => Some(t),
                None => name_by_fields(cs, fields.drop_first()),
            },
            None => name_by_fields(cs, fields.drop_first()),
        }
    }
}

/// The text of the first child whose kind is one of `kinds` and which has a
/// text.
pub open spec fn name_by_kinds(cs: Seq<SyntaxTree>, kinds: Seq<Seq<char>>) -> Option<Seq<char>>
    decreases cs.len(),
{
    if cs.len() == 0 {
        None
    } else if kinds.contains(cs[0].kind) && cs[0].text is Some {
        cs[0].text
    } else {
        name_by_kinds(cs.drop_first(), kinds)
    }
}

/// The fields that hold the name of a node of kind `k`, in order of preference.
pub open spec fn name_fields(lang: Language, k: Seq<char>) -> Seq<Seq<char>> {
    if lang == Language::Rust && k == "impl_item"@ {
        seq!["type"@, "trait"@, "name"@]
    } else if is_script(lang) && (k == "class_declaration"@ || k == "interface_declaration"@ || k
        == "type_alias_declaration"@ || k == "enum_declaration"@) {
        seq!["name"@, "type_identifier"@]
    } else if is_script(lang) && (k == "method_definition"@ || k == "method_signature"@ || k
        == "property_signature"@ || k == "property_definition"@) {
        seq!["name"@, "property_identifier"@]
    } else if lang == Language::Go && (k == "method_declaration"@ || k
        == "function_declaration"@) {
        seq!["name"@, "field_identifier"@]
    } else {
        seq!["name"@]
    }
}

/// The kinds of children that may hold a name when no field does.
pub open spec fn identifier_kinds(lang: Language) -> Seq<Seq<char>> {
    if is_script(lang) {
        seq!["type_identifier"@, "property_identifier"@, "identifier"@]
    } else if lang == Language::Go {
        seq!["field_identifier"@, "identifier"@]
    } else {
        seq!["identifier"@]
    }
}

/// The name of the symbol that node `n` stands for.
pub open spec fn symbol_name(n: SyntaxTree, lang: Language) -> Seq<char> {
    match name_by_fields(n.children, name_fields(lang, n.kind)) {
        Some(t) => t,
        None => match name_by_kinds(n.children, identifier_kinds(lang)) {
            Some(t) => t,
            None => "<anonymous>"@,
        },
    }
}

pub open spec fn strs_view(v: Seq<&str>) -> Seq<Seq<char>> {
    Seq::new(v.len(), |i: int| v[i]@)
}

fn name_fields_of(lang: &Language, k: &str) -> (r: Vec<&'static str>)
    ensures
        strs_view(r@) == name_fields(*lang, k@),
{
    let script = is_script_lang(lang);
    let r = if is_lang(lang, Language::Rust) && str_eq(k, "impl_item") {
        vec!["type", "trait", "name"]
    } else if script && (str_eq(k, "class_declaration") || str_eq(k, "interface_declaration")
        || str_eq(k, "type_alias_declaration") || str_eq(k, "enum_declaration")) {
        vec!["name", "type_identifier"]
    } else if script && (str_eq(k, "method_definition") || str_eq(k, "method_signature")
        || str_eq(k, "property_signature") || str_eq(k, "property_definition")) {
        vec!["name", "property_identifier"]
    } else if is_lang(lang, Language::Go) && (str_eq(k, "method_declaration") || str_eq(
        k,
        "function_declaration",
    )) {
        vec!["name", "field_identifier"]
    } else {
        vec!["name"]
    };
    proof {
        assert(strs_view(r@) =~= name_fields(*lang, k@));
    }
    r
}

fn identifier_kinds_of(lang: &Language) -> (r: Vec<&'static str>)
    ensures
        strs_view(r@) == identifier_kinds(*lang),
{
    let r = if is_script_lang(lang) {
        vec!["type_identifier", "property_identifier", "identifier"]
    } else if is_lang(lang, Language::Go) {
        vec!["field_identifier", "identifier"]
    } else {
        vec!["identifier"]
    };
    proof {
        assert(strs_view(r@) =~= identifier_kinds(*lang));
    }
    r
}

/// Index of the first child that stands under field `f`.
fn field_child(cs: &Vec<SyntaxNode>, f: &str) -> (r: Option<usize>)
    ensures
        r matches Some(i) ==> i < cs.len() && child_with_field(nodes_view(cs@), f@) == Some(
            cs@[i as int]@,
        ),
        r is None ==> child_with_field(nodes_view(cs@), f@) is None,
{
    let ghost all = nodes_view(cs@);
    let mut i: usize = 0;
    proof {
        assert(all.skip(0) =~= all);
    }
    while i < cs.len()
        invariant
            i <= cs.len(),
            all == nodes_view(cs@),
            child_with_field(all, f@) == child_with_field(all.skip(i as int), f@),
        decreases cs.len() - i,
    {
        let ghost rest = all.skip(i as int);
        proof {
            assert(rest[0] == cs@[i as int]@);
            assert(rest.drop_first() =~= all.skip(i + 1));
        }
        let hit = match &cs[i].field {
            Some(x) => str_eq(x.as_str(), f),
            None => false,
        };
        if hit {
            return Some(i);
        }
        i = i + 1;
    }
    None
}

/// Whether `k` is one of `kinds`.
fn is_one_of(k: &str, kinds: &Vec<&'static str>) -> (r: bool)
    ensures
        r == strs_view(kinds@).contains(k@),
{
    let mut i: usize = 0;
    while i < kinds.len()
        invariant
            i <= kinds.len(),
            forall|j: int| 0 <= j < i ==> strs_view(kinds@)[j] != k@,
        decreases kinds.len() - i,
    {
        if str_eq(kinds[i], k) {
            proof {
                assert(strs_view(kinds@)[i as int] == k@);
            }
            return true;
        }
        i = i + 1;
    }
    false
}

/// The name of the symbol that `n` stands for.
pub fn extract_name(n: &SyntaxNode, lang: &Language) -> (r: String)
    ensures
        r@ == symbol_name(n@, *lang),
{
    let ghost cs = n@.children;
    proof {
        assert(cs =~= nodes_view(n.children@));
    }
    let fields = name_fields_of(lang, n.kind.as_str());
    let ghost fs = strs_view(fields@);
    let mut i: usize = 0;
    proof {
        assert(fs.skip(0) =~= fs);
        assert(n@.kind == n.kind@);
        assert(fs == name_fields(*lang, n@.kind));
    }
    while i < fields.len()
        invariant
            i <= fields.len(),
            fs == strs_view(fields@),
            cs == nodes_view(n.children@),
            cs == n@.children,
            fs == name_fields(*lang, n@.kind),
            name_by_fields(cs, fs) == name_by_fields(cs, fs.skip(i as int)),
        decreases fields.len() - i,
    {
        proof {
            assert(fs.skip(i as int)[0] == fields@[i as int]@);
            assert(fs.skip(i as int).drop_first() =~= fs.skip(i + 1));
        }
        match field_child(&n.children, fields[i]) {
            Some(j) => match &n.children[j].text {
                Some(t) => {
                    proof {
                        assert(cs[j as int] == n.children@[j as int]@);
                        assert(name_by_fields(cs, fs.skip(i as int)) == Some(t@));
                    }
                    let r = t.clone();
                    proof {
                        assert(r@ == t@);
                        assert(symbol_name(n@, *lang) == t@);
                    }
                    return r;
                },
                None => {},
            },
            None => {},
        }
        i = i + 1;
    }
    let kinds = identifier_kinds_of(lang);
    let mut j: usize = 0;
    proof {
        assert(fs.skip(fields.len() as int) =~= Seq::<Seq<char>>::empty());
        assert(cs.skip(0) =~= cs);
    }
    while j < n.children.len()
        invariant
            j <= n.children.len(),
            cs == nodes_view(n.children@),
            cs == n@.children,
            strs_view(kinds@) == identifier_kinds(*lang),
            name_by_fields(cs, name_fields(*lang, n@.kind)) is None,
            name_by_kinds(cs, identifier_kinds(*lang)) == name_by_kinds(
                cs.skip(j as int),
                identifier_kinds(*lang),
            ),
        decreases n.children.len() - j,
    {
        let c = &n.children[j];
        proof {
            assert(cs.skip(j as int)[0] == c@);
            assert(cs.skip(j as int).drop_first() =~= cs.skip(j + 1));
        }
        if is_one_of(c.kind.as_str(), &kinds) {
            match &c.text {
                Some(t) => {
                    proof {
                        assert(name_by_kinds(cs.skip(j as int), identifier_kinds(*lang)) == Some(
                            t@,
                        ));
                    }
                    let r = t.clone();
                    proof {
                        assert(r@ == t@);
                        assert(symbol_name(n@, *lang) == t@);
                    }
                    return r;
                },
                None => {},
            }
        }
        j = j + 1;
    }
    owned("<anonymous>")
}

// ---------------------------------------------------------------------------
// Visibility
// ---------------------------------------------------------------------------

/// Whether a character has the Unicode `Uppercase` property.
pub uninterp spec fn uppercase_char(c: char) -> bool;

/// `char::is_uppercase`: whether `c` has the Unicode `Uppercase` property.
/// The contract names the answer (`uppercase_char`) and states nothing more.
#[verifier::external_body]
pub(crate) fn is_uppercase(c: char) -> (r: bool)
    ensures
        r == uppercase_char(c),
{
    c.is_uppercase()
}

/// Whether the symbol that node `n`, named `name`, stands for is public.
pub open spec fn is_public_symbol(n: SyntaxTree, lang: Language, name: Seq<char>) -> bool {
    match lang {
        Language::Rust => exists|i: int|
            0 <= i < n.children.len() && (#[trigger] n.children[i]).kind
                == "visibility_modifier"@,
        Language::Go => name.len() > 0 && uppercase_char(name[0]),
        Language::Python => !(name.len() > 0 && name[0] == '_'),
        _ => true,
    }
}

fn has_visibility_modifier(n: &SyntaxNode) -> (r: bool)
    ensures
        r == exists|i: int|
            0 <= i < n@.children.len() && (#[trigger] n@.children[i]).kind
                == "visibility_modifier"@,
{
    let mut i: usize = 0;
    while i < n.children.len()
        invariant
            i <= n.children.len(),
            forall|j: int| 0 <= j < i ==> (#[trigger] n@.children[j]).kind != "visibility_modifier"@,
        decreases n.children.len() - i,
    {
        proof {
            assert(n@.children[i as int] == n.children@[i as int]@);
        }
        if str_eq(n.children[i].kind.as_str(), "visibility_modifier") {
            return true;
        }
        i = i + 1;
    }
    false
}

fn is_public(n: &SyntaxNode, lang: &Language, name: &String) -> (r: bool)
    ensures
        r == is_public_symbol(n@, *lang, name@),
{
    match lang {
        Language::Rust => has_visibility_modifier(n),
        Language::Go => {
            let cs = to_chars(name.as_str());
            cs.len() > 0 && is_uppercase(cs[0])
        },
        Language::Python => {
            let cs = to_chars(name.as_str());
            !(cs.len() > 0 && cs[0] == '_')
        },
        _ => true,
    }
}

// ---------------------------------------------------------------------------
// Symbols of a tree
// ---------------------------------------------------------------------------

/// The kind of symbol that a Go type declaration (`type_spec`) stands for:
/// a struct or an interface when the type it declares (its `type` field) is
/// a struct or an interface type.
pub open spec fn go_type_kind(n: SyntaxTree) -> Option<SymbolKind> {
    match child_with_field(n.children, "type"@) {
        Some(t) => if t.kind == "struct_type"@ {
            Some(SymbolKind::Struct)
        } else if t.kind == "interface_type"@ {
            Some(SymbolKind::Interface)
        } else {
            None
        },
        None => None,
    }
}

/// The kind of symbol that node `n` stands for, found under a node of kind
/// `root_kind` while symbols of a `parent` node are collected.
pub open spec fn node_symbol_kind(
    lang: Language,
    n: SyntaxTree,
    parent: Seq<char>,
    root_kind: Seq<char>,
) -> Option<SymbolKind> {
    if lang == Language::Go && n.kind == "type_spec"@ {
        go_type_kind(n)
    } else {
        classify(lang, n.kind, parent, root_kind)
    }
}

pub fn symbol_kind_of(lang: &Language, n: &SyntaxNode, parent: &str, root_kind: &str) -> (r: Option<
    SymbolKind,
>)
    ensures
        r == node_symbol_kind(*lang, n@, parent@, root_kind@),
{
    if is_lang(lang, Language::Go) && str_eq(n.kind.as_str(), "type_spec") {
        proof {
            assert(n@.children =~= nodes_view(n.children@));
        }
        match field_child(&n.children, "type") {
            Some(i) => {
                let t = &n.children[i];
                if str_eq(t.kind.as_str(), "struct_type") {
                    Some(SymbolKind::Struct)
                } else if str_eq(t.kind.as_str(), "interface_type") {
                    Some(SymbolKind::Interface)
                } else {
                    None
                }
            },
            None => None,
        }
    } else {
        classify_node(lang, n.kind.as_str(), parent, root_kind)
    }
}

/// Kinds of nodes whose symbols count as their parent's.
pub open spec fn block_kind(k: Seq<char>) -> bool {
    ||| k == "field_declaration_list"@
    ||| k == "class_body"@
    ||| k == "declaration_list"@
    ||| k == "enum_variant_list"@
    ||| k == "interface_body"@
    ||| k == "block"@
    ||| k == "export_statement"@
    ||| k == "decorated_definition"@
    ||| k == "statement_block"@
    ||| k == "type_declaration"@
}

fn is_block_kind(k: &str) -> (r: bool)
    ensures
        r == block_kind(k@),
{
    str_eq(k, "field_declaration_list") || str_eq(k, "class_body") || str_eq(
        k,
        "declaration_list",
    ) || str_eq(k, "enum_variant_list") || str_eq(k, "interface_body") || str_eq(k, "block")
        || str_eq(k, "export_statement") || str_eq(k, "decorated_definition") || str_eq(
        k,
        "statement_block",
    ) || str_eq(k, "type_declaration")
}

/// The symbols that the children of a node stand for (not those further down
/// except as their nested symbols).
pub open spec fn symbols_of(root: SyntaxTree, lang: Language, parent: Seq<char>) -> Seq<
    SymbolView,
>
    decreases root, 1nat,
{
    symbols_of_children(root.children, root.kind, lang, parent)
}

pub open spec fn symbols_of_children(
    cs: Seq<SyntaxTree>,
    root_kind: Seq<char>,
    lang: Language,
    parent: Seq<char>,
) -> Seq<SymbolView>
    decreases cs, 0nat,
{
    if cs.len() == 0 {
        Seq::empty()
    } else {
        let c = cs[0];
        let rest = symbols_of_children(cs.drop_first(), root_kind, lang, parent);
        match node_symbol_kind(lang, c, parent, root_kind) {
            Some(k) => {
                let name = symbol_name(c, lang);
                let nested = if container_kind(k) {
                    all_symbols_of(c, lang, c.kind)
                } else {
                    symbols_of(c, lang, c.kind)
                };
                seq![
                    SymbolView {
                        kind: k,
                        name,
                        line: c.row + 1,
                        is_public: is_public_symbol(c, lang, name),
                        children: nested,
                    },
                ] + rest
            },
            None => rest,
        }
    }
}

/// The symbols of a node together with those of the blocks directly inside it.
pub open spec fn all_symbols_of(root: SyntaxTree, lang: Language, parent: Seq<char>) -> Seq<
    SymbolView,
>
    decreases root, 2nat,
{
    symbols_of(root, lang, parent) + block_symbols(root.children, lang, parent)
}

pub open spec fn block_symbols(cs: Seq<SyntaxTree>, lang: Language, parent: Seq<char>) -> Seq<
    SymbolView,
>
    decreases cs, 0nat,
{
    if cs.len() == 0 {
        Seq::empty()
    } else {
        let rest = block_symbols(cs.drop_first(), lang, parent);
        if block_kind(cs[0].kind) {
            all_symbols_of(cs[0], lang, parent) + rest
        } else {
            rest
        }
    }
}

/// The wrappers of a definition (a decorated definition, an export
/// statement) and their markers (a decorator, the `export` keyword) are no
/// symbols themselves; the wrappers are blocks whose symbols count as their
/// parent's; class and function definitions are no blocks.
proof fn lemma_wrapper_kinds(lang: Language, parent: Seq<char>, root_kind: Seq<char>)
    ensures
        classify(lang, "decorated_definition"@, parent, root_kind) is None,
        block_kind("decorated_definition"@),
        classify(lang, "export_statement"@, parent, root_kind) is None,
        block_kind("export_statement"@),
        classify(lang, "decorator"@, parent, root_kind) is None,
        !block_kind("decorator"@),
        classify(lang, "export"@, parent, root_kind) is None,
        !block_kind("export"@),
        !block_kind("class_definition"@),
        !block_kind("function_definition"@),
        !block_kind("class_declaration"@),
        !block_kind("function_declaration"@),
{
    reveal_strlit("block");
    reveal_strlit("class_body");
    reveal_strlit("class_declaration");
    reveal_strlit("class_definition");
    reveal_strlit("const_declaration");
    reveal_strlit("const_item");
    reveal_strlit("declaration_list");
    reveal_strlit("decorated_definition");
    reveal_strlit("decorator");
    reveal_strlit("enum_declaration");
    reveal_strlit("enum_item");
    reveal_strlit("enum_variant_list");
    reveal_strlit("export");
    reveal_strlit("export_statement");
    reveal_strlit("field_declaration");
    reveal_strlit("field_declaration_list");
    reveal_strlit("function_declaration");
    reveal_strlit("function_definition");
    reveal_strlit("function_item");
    reveal_strlit("function_signature_item");
    reveal_strlit("impl_item");
    reveal_strlit("interface_body");
    reveal_strlit("interface_declaration");
    reveal_strlit("interface_item");
    reveal_strlit("interface_type");
    reveal_strlit("macro_definition");
    reveal_strlit("macro_rules_definition");
    reveal_strlit("method_declaration");
    reveal_strlit("method_definition");
    reveal_strlit("method_signature");
    reveal_strlit("mod_item");
    reveal_strlit("property_definition");
    reveal_strlit("property_signature");
    reveal_strlit("statement_block");
    reveal_strlit("static_item");
    reveal_strlit("struct_item");
    reveal_strlit("trait_item");
    reveal_strlit("type_alias_declaration");
    reveal_strlit("type_declaration");
    reveal_strlit("type_item");
    reveal_strlit("type_spec");
    reveal_strlit("var_declaration");
    reveal_strlit("variable_declarator");
    assert("decorated_definition"@.len() != "function_item"@.len());
    assert("decorated_definition"@ != "function_item"@);
    assert("decorated_definition"@[0] != "function_declaration"@[0]);
    assert("decorated_definition"@ != "function_declaration"@);
    assert("decorated_definition"@.len() != "function_signature_item"@.len());
    assert("decorated_definition"@ != "function_signature_item"@);
    assert("decorated_definition"@.len() != "method_definition"@.len());
    assert("decorated_definition"@ != "method_definition"@);
    assert("decorated_definition"@.len() != "function_definition"@.len());
    assert("decorated_definition"@ != "function_definition"@);
    assert("decorated_definition"@.len() != "class_definition"@.len());
    assert("decorated_definition"@ != "class_definition"@);
    assert("decorated_definition"@.len() != "method_declaration"@.len());
    assert("decorated_definition"@ != "method_declaration"@);
    assert("decorated_definition"@.len() != "class_declaration"@.len());
    assert("decorated_definition"@ != "class_declaration"@);
    assert("decorated_definition"@.len() != "struct_item"@.len());
    assert("decorated_definition"@ != "struct_item"@);
    assert("decorated_definition"@.len() != "interface_item"@.len());
    assert("decorated_definition"@ != "interface_item"@);
    assert("decorated_definition"@.len() != "interface_declaration"@.len());
    assert("decorated_definition"@ != "interface_declaration"@);
    assert("decorated_definition"@.len() != "interface_type"@.len());
    assert("decorated_definition"@ != "interface_type"@);
    assert("decorated_definition"@.len() != "impl_item"@.len());
    assert("decorated_definition"@ != "impl_item"@);
    assert("decorated_definition"@.len() != "trait_item"@.len());
    assert("decorated_definition"@ != "trait_item"@);
    assert("decorated_definition"@.len() != "enum_declaration"@.len());
    assert("decorated_definition"@ != "enum_declaration"@);
    assert("decorated_definition"@.len() != "enum_item"@.len());
    assert("decorated_definition"@ != "enum_item"@);
    assert("decorated_definition"@.len() != "type_alias_declaration"@.len());
    assert("decorated_definition"@ != "type_alias_declaration"@);
    assert("decorated_definition"@.len() != "type_item"@.len());
    assert("decorated_definition"@ != "type_item"@);
    assert("decorated_definition"@.len() != "field_declaration"@.len());
    assert("decorated_definition"@ != "field_declaration"@);
    assert("decorated_definition"@.len() != "macro_rules_definition"@.len());
    assert("decorated_definition"@ != "macro_rules_definition"@);
    assert("decorated_definition"@.len() != "macro_definition"@.len());
    assert("decorated_definition"@ != "macro_definition"@);
    assert("decorated_definition"@.len() != "const_item"@.len());
    assert("decorated_definition"@ != "const_item"@);
    assert("decorated_definition"@.len() != "static_item"@.len());
    assert("decorated_definition"@ != "static_item"@);
    assert("decorated_definition"@.len() != "mod_item"@.len());
    assert("decorated_definition"@ != "mod_item"@);
    assert("decorated_definition"@.len() != "property_signature"@.len());
    assert("decorated_definition"@ != "property_signature"@);
    assert("decorated_definition"@.len() != "property_definition"@.len());
    assert("decorated_definition"@ != "property_definition"@);
    assert("decorated_definition"@.len() != "method_signature"@.len());
    assert("decorated_definition"@ != "method_signature"@);
    assert("decorated_definition"@.len() != "variable_declarator"@.len());
    assert("decorated_definition"@ != "variable_declarator"@);
    assert("decorated_definition"@.len() != "const_declaration"@.len());
    assert("decorated_definition"@ != "const_declaration"@);
    assert("decorated_definition"@.len() != "var_declaration"@.len());
    assert("decorated_definition"@ != "var_declaration"@);
    assert("export_statement"@.len() != "function_item"@.len());
    assert("export_statement"@ != "function_item"@);
    assert("export_statement"@.len() != "function_declaration"@.len());
    assert("export_statement"@ != "function_declaration"@);
    assert("export_statement"@.len() != "function_signature_item"@.len());
    assert("export_statement"@ != "function_signature_item"@);
    assert("export_statement"@.len() != "method_definition"@.len());
    assert("export_statement"@ != "method_definition"@);
    assert("export_statement"@.len() != "function_definition"@.len());
    assert("export_statement"@ != "function_definition"@);
    assert("export_statement"@[0] != "class_definition"@[0]);
    assert("export_statement"@ != "class_definition"@);
    assert("export_statement"@.len() != "method_declaration"@.len());
    assert("export_statement"@ != "method_declaration"@);
    assert("export_statement"@.len() != "class_declaration"@.len());
    assert("export_statement"@ != "class_declaration"@);
    assert("export_statement"@.len() != "struct_item"@.len());
    assert("export_statement"@ != "struct_item"@);
    assert("export_statement"@.len() != "interface_item"@.len());
    assert("export_statement"@ != "interface_item"@);
    assert("export_statement"@.len() != "interface_declaration"@.len());
    assert("export_statement"@ != "interface_declaration"@);
    assert("export_statement"@.len() != "interface_type"@.len());
    assert("export_statement"@ != "interface_type"@);
    assert("export_statement"@.len() != "impl_item"@.len());
    assert("export_statement"@ != "impl_item"@);
    assert("export_statement"@.len() != "trait_item"@.len());
    assert("export_statement"@ != "trait_item"@);
    assert("export_statement"@[1] != "enum_declaration"@[1]);
    assert("export_statement"@ != "enum_declaration"@);
    assert("export_statement"@.len() != "enum_item"@.len());
    assert("export_statement"@ != "enum_item"@);
    assert("export_statement"@.len() != "type_alias_declaration"@.len());
    assert("export_statement"@ != "type_alias_declaration"@);
    assert("export_statement"@.len() != "type_item"@.len());
    assert("export_statement"@ != "type_item"@);
    assert("export_statement"@.len() != "field_declaration"@.len());
    assert("export_statement"@ != "field_declaration"@);
    assert("export_statement"@.len() != "macro_rules_definition"@.len());
    assert("export_statement"@ != "macro_rules_definition"@);
    assert("export_statement"@[0] != "macro_definition"@[0]);
    assert("export_statement"@ != "macro_definition"@);
    assert("export_statement"@.len() != "const_item"@.len());
    assert("export_statement"@ != "const_item"@);
    assert("export_statement"@.len() != "static_item"@.len());
    assert("export_statement"@ != "static_item"@);
    assert("export_statement"@.len() != "mod_item"@.len());
    assert("export_statement"@ != "mod_item"@);
    assert("export_statement"@.len() != "property_signature"@.len());
    assert("export_statement"@ != "property_signature"@);
    assert("export_statement"@.len() != "property_definition"@.len());
    assert("export_statement"@ != "property_definition"@);
    assert("export_statement"@[0] != "method_signature"@[0]);
    assert("export_statement"@ != "method_signature"@);
    assert("export_statement"@.len() != "variable_declarator"@.len());
    assert("export_statement"@ != "variable_declarator"@);
    assert("export_statement"@.len() != "const_declaration"@.len());
    assert("export_statement"@ != "const_declaration"@);
    assert("export_statement"@.len() != "var_declaration"@.len());
    assert("export_statement"@ != "var_declaration"@);
    assert("decorator"@.len() != "function_item"@.len());
    assert("decorator"@ != "function_item"@);
    assert("decorator"@.len() != "function_declaration"@.len());
    assert("decorator"@ != "function_declaration"@);
    assert("decorator"@.len() != "function_signature_item"@.len());
    assert("decorator"@ != "function_signature_item"@);
    assert("decorator"@.len() != "method_definition"@.len());
    assert("decorator"@ != "method_definition"@);
    assert("decorator"@.len() != "function_definition"@.len());
    assert("decorator"@ != "function_definition"@);
    assert("decorator"@.len() != "class_definition"@.len());
    assert("decorator"@ != "class_definition"@);
    assert("decorator"@.len() != "method_declaration"@.len());
    assert("decorator"@ != "method_declaration"@);
    assert("decorator"@.len() != "class_declaration"@.len());
    assert("decorator"@ != "class_declaration"@);
    assert("decorator"@.len() != "struct_item"@.len());
    assert("decorator"@ != "struct_item"@);
    assert("decorator"@.len() != "interface_item"@.len());
    assert("decorator"@ != "interface_item"@);
    assert("decorator"@.len() != "interface_declaration"@.len());
    assert("decorator"@ != "interface_declaration"@);
    assert("decorator"@.len() != "interface_type"@.len());
    assert("decorator"@ != "interface_type"@);
    assert("decorator"@[0] != "impl_item"@[0]);
    assert("decorator"@ != "impl_item"@);
    assert("decorator"@.len() != "trait_item"@.len());
    assert("decorator"@ != "trait_item"@);
    assert("decorator"@.len() != "enum_declaration"@.len());
    assert("decorator"@ != "enum_declaration"@);
    assert("decorator"@[0] != "enum_item"@[0]);
    assert("decorator"@ != "enum_item"@);
    assert("decorator"@.len() != "type_alias_declaration"@.len());
    assert("decorator"@ != "type_alias_declaration"@);
    assert("decorator"@[0] != "type_item"@[0]);
    assert("decorator"@ != "type_item"@);
    assert("decorator"@.len() != "field_declaration"@.len());
    assert("decorator"@ != "field_declaration"@);
    assert("decorator"@.len() != "macro_rules_definition"@.len());
    assert("decorator"@ != "macro_rules_definition"@);
    assert("decorator"@.len() != "macro_definition"@.len());
    assert("decorator"@ != "macro_definition"@);
    assert("decorator"@.len() != "const_item"@.len());
    assert("decorator"@ != "const_item"@);
    assert("decorator"@.len() != "static_item"@.len());
    assert("decorator"@ != "static_item"@);
    assert("decorator"@.len() != "mod_item"@.len());
    assert("decorator"@ != "mod_item"@);
    assert("decorator"@.len() != "property_signature"@.len());
    assert("decorator"@ != "property_signature"@);
    assert("decorator"@.len() != "property_definition"@.len());
    assert("decorator"@ != "property_definition"@);
    assert("decorator"@.len() != "method_signature"@.len());
    assert("decorator"@ != "method_signature"@);
    assert("decorator"@.len() != "variable_declarator"@.len());
    assert("decorator"@ != "variable_declarator"@);
    assert("decorator"@.len() != "const_declaration"@.len());
    assert("decorator"@ != "const_declaration"@);
    assert("decorator"@.len() != "var_declaration"@.len());
    assert("decorator"@ != "var_declaration"@);
    assert("export"@.len() != "function_item"@.len());
    assert("export"@ != "function_item"@);
    assert("export"@.len() != "function_declaration"@.len());
    assert("export"@ != "function_declaration"@);
    assert("export"@.len() != "function_signature_item"@.len());
    assert("export"@ != "function_signature_item"@);
    assert("export"@.len() != "method_definition"@.len());
    assert("export"@ != "method_definition"@);
    assert("export"@.len() != "function_definition"@.len());
    assert("export"@ != "function_definition"@);
    assert("export"@.len() != "class_definition"@.len());
    assert("export"@ != "class_definition"@);
    assert("export"@.len() != "method_declaration"@.len());
    assert("export"@ != "method_declaration"@);
    assert("export"@.len() != "class_declaration"@.len());
    assert("export"@ != "class_declaration"@);
    assert("export"@.len() != "struct_item"@.len());
    assert("export"@ != "struct_item"@);
    assert("export"@.len() != "interface_item"@.len());
    assert("export"@ != "interface_item"@);
    assert("export"@.len() != "interface_declaration"@.len());
    assert("export"@ != "interface_declaration"@);
    assert("export"@.len() != "interface_type"@.len());
    assert("export"@ != "interface_type"@);
    assert("export"@.len() != "impl_item"@.len());
    assert("export"@ != "impl_item"@);
    assert("export"@.len() != "trait_item"@.len());
    assert("export"@ != "trait_item"@);
    assert("export"@.len() != "enum_declaration"@.len());
    assert("export"@ != "enum_declaration"@);
    assert("export"@.len() != "enum_item"@.len());
    assert("export"@ != "enum_item"@);
    assert("export"@.len() != "type_alias_declaration"@.len());
    assert("export"@ != "type_alias_declaration"@);
    assert("export"@.len() != "type_item"@.len());
    assert("export"@ != "type_item"@);
    assert("export"@.len() != "field_declaration"@.len());
    assert("export"@ != "field_declaration"@);
    assert("export"@.len() != "macro_rules_definition"@.len());
    assert("export"@ != "macro_rules_definition"@);
    assert("export"@.len() != "macro_definition"@.len());
    assert("export"@ != "macro_definition"@);
    assert("export"@.len() != "const_item"@.len());
    assert("export"@ != "const_item"@);
    assert("export"@.len() != "static_item"@.len());
    assert("export"@ != "static_item"@);
    assert("export"@.len() != "mod_item"@.len());
    assert("export"@ != "mod_item"@);
    assert("export"@.len() != "property_signature"@.len());
    assert("export"@ != "property_signature"@);
    assert("export"@.len() != "property_definition"@.len());
    assert("export"@ != "property_definition"@);
    assert("export"@.len() != "method_signature"@.len());
    assert("export"@ != "method_signature"@);
    assert("export"@.len() != "variable_declarator"@.len());
    assert("export"@ != "variable_declarator"@);
    assert("export"@.len() != "const_declaration"@.len());
    assert("export"@ != "const_declaration"@);
    assert("export"@.len() != "var_declaration"@.len());
    assert("export"@ != "var_declaration"@);
    assert("decorator"@.len() != "field_declaration_list"@.len());
    assert("decorator"@ != "field_declaration_list"@);
    assert("decorator"@.len() != "class_body"@.len());
    assert("decorator"@ != "class_body"@);
    assert("decorator"@.len() != "declaration_list"@.len());
    assert("decorator"@ != "declaration_list"@);
    assert("decorator"@.len() != "enum_variant_list"@.len());
    assert("decorator"@ != "enum_variant_list"@);
    assert("decorator"@.len() != "interface_body"@.len());
    assert("decorator"@ != "interface_body"@);
    assert("decorator"@.len() != "block"@.len());
    assert("decorator"@ != "block"@);
    assert("decorator"@.len() != "export_statement"@.len());
    assert("decorator"@ != "export_statement"@);
    assert("decorator"@.len() != "decorated_definition"@.len());
    assert("decorator"@ != "decorated_definition"@);
    assert("decorator"@.len() != "statement_block"@.len());
    assert("decorator"@ != "statement_block"@);
    assert("decorator"@.len() != "type_declaration"@.len());
    assert("decorator"@ != "type_declaration"@);
    assert("export"@.len() != "field_declaration_list"@.len());
    assert("export"@ != "field_declaration_list"@);
    assert("export"@.len() != "class_body"@.len());
    assert("export"@ != "class_body"@);
    assert("export"@.len() != "declaration_list"@.len());
    assert("export"@ != "declaration_list"@);
    assert("export"@.len() != "enum_variant_list"@.len());
    assert("export"@ != "enum_variant_list"@);
    assert("export"@.len() != "interface_body"@.len());
    assert("export"@ != "interface_body"@);
    assert("export"@.len() != "block"@.len());
    assert("export"@ != "block"@);
    assert("export"@.len() != "export_statement"@.len());
    assert("export"@ != "export_statement"@);
    assert("export"@.len() != "decorated_definition"@.len());
    assert("export"@ != "decorated_definition"@);
    assert("export"@.len() != "statement_block"@.len());
    assert("export"@ != "statement_block"@);
    assert("export"@.len() != "type_declaration"@.len());
    assert("export"@ != "type_declaration"@);
    assert("class_definition"@.len() != "field_declaration_list"@.len());
    assert("class_definition"@ != "field_declaration_list"@);
    assert("class_definition"@.len() != "class_body"@.len());
    assert("class_definition"@ != "class_body"@);
    assert("class_definition"@[0] != "declaration_list"@[0]);
    assert("class_definition"@ != "declaration_list"@);
    assert("class_definition"@.len() != "enum_variant_list"@.len());
    assert("class_definition"@ != "enum_variant_list"@);
    assert("class_definition"@.len() != "interface_body"@.len());
    assert("class_definition"@ != "interface_body"@);
    assert("class_definition"@.len() != "block"@.len());
    assert("class_definition"@ != "block"@);
    assert("class_definition"@[0] != "export_statement"@[0]);
    assert("class_definition"@ != "export_statement"@);
    assert("class_definition"@.len() != "decorated_definition"@.len());
    assert("class_definition"@ != "decorated_definition"@);
    assert("class_definition"@.len() != "statement_block"@.len());
    assert("class_definition"@ != "statement_block"@);
    assert("class_definition"@[0] != "type_declaration"@[0]);
    assert("class_definition"@ != "type_declaration"@);
    assert("function_definition"@.len() != "field_declaration_list"@.len());
    assert("function_definition"@ != "field_declaration_list"@);
    assert("function_definition"@.len() != "class_body"@.len());
    assert("function_definition"@ != "class_body"@);
    assert("function_definition"@.len() != "declaration_list"@.len());
    assert("function_definition"@ != "declaration_list"@);
    assert("function_definition"@.len() != "enum_variant_list"@.len());
    assert("function_definition"@ != "enum_variant_list"@);
    assert("function_definition"@.len() != "interface_body"@.len());
    assert("function_definition"@ != "interface_body"@);
    assert("function_definition"@.len() != "block"@.len());
    assert("function_definition"@ != "block"@);
    assert("function_definition"@.len() != "export_statement"@.len());
    assert("function_definition"@ != "export_statement"@);
    assert("function_definition"@.len() != "decorated_definition"@.len());
    assert("function_definition"@ != "decorated_definition"@);
    assert("function_definition"@.len() != "statement_block"@.len());
    assert("function_definition"@ != "statement_block"@);
    assert("function_definition"@.len() != "type_declaration"@.len());
    assert("function_definition"@ != "type_declaration"@);
    assert("class_declaration"@.len() != "field_declaration_list"@.len());
    assert("class_declaration"@ != "field_declaration_list"@);
    assert("class_declaration"@.len() != "class_body"@.len());
    assert("class_declaration"@ != "class_body"@);
    assert("class_declaration"@.len() != "declaration_list"@.len());
    assert("class_declaration"@ != "declaration_list"@);
    assert("class_declaration"@[0] != "enum_variant_list"@[0]);
    assert("class_declaration"@ != "enum_variant_list"@);
    assert("class_declaration"@.len() != "interface_body"@.len());
    assert("class_declaration"@ != "interface_body"@);
    assert("class_declaration"@.len() != "block"@.len());
    assert("class_declaration"@ != "block"@);
    assert("class_declaration"@.len() != "export_statement"@.len());
    assert("class_declaration"@ != "export_statement"@);
    assert("class_declaration"@.len() != "decorated_definition"@.len());
    assert("class_declaration"@ != "decorated_definition"@);
    assert("class_declaration"@.len() != "statement_block"@.len());
    assert("class_declaration"@ != "statement_block"@);
    assert("class_declaration"@.len() != "type_declaration"@.len());
    assert("class_declaration"@ != "type_declaration"@);
    assert("function_declaration"@.len() != "field_declaration_list"@.len());
    assert("function_declaration"@ != "field_declaration_list"@);
    assert("function_declaration"@.len() != "class_body"@.len());
    assert("function_declaration"@ != "class_body"@);
    assert("function_declaration"@.len() != "declaration_list"@.len());
    assert("function_declaration"@ != "declaration_list"@);
    assert("function_declaration"@.len() != "enum_variant_list"@.len());
    assert("function_declaration"@ != "enum_variant_list"@);
    assert("function_declaration"@.len() != "interface_body"@.len());
    assert("function_declaration"@ != "interface_body"@);
    assert("function_declaration"@.len() != "block"@.len());
    assert("function_declaration"@ != "block"@);
    assert("function_declaration"@.len() != "export_statement"@.len());
    assert("function_declaration"@ != "export_statement"@);
    assert("function_declaration"@[0] != "decorated_definition"@[0]);
    assert("function_declaration"@ != "decorated_definition"@);
    assert("function_declaration"@.len() != "statement_block"@.len());
    assert("function_declaration"@ != "statement_block"@);
    assert("function_declaration"@.len() != "type_declaration"@.len());
    assert("function_declaration"@ != "type_declaration"@);
}

/// A wrapped class or function definition gives the same symbols as the bare
/// definition would at the same place: a decorated definition
/// (`@dataclass class User: ..`, `@app.route(..) def index(): ..`) and an
/// exported one (`export function run() {}`, `export class A {}`).
pub proof fn lemma_wrapped_definition_symbols(
    lang: Language,
    root: SyntaxTree,
    wrapper: SyntaxTree,
    marker: SyntaxTree,
    def: SyntaxTree,
    parent: Seq<char>,
)
    requires
        def.kind == "class_definition"@ || def.kind == "function_definition"@ || def.kind == "class_declaration"@ || def.kind == "function_declaration"@,
        (wrapper.kind == "decorated_definition"@ && marker.kind == "decorator"@) || (wrapper.kind
            == "export_statement"@ && marker.kind == "export"@),
        wrapper.children == seq![marker, def],
    ensures
        all_symbols_of(
            SyntaxTree {
                kind: root.kind,
                field: root.field,
                text: root.text,
                row: root.row,
                children: seq![wrapper],
            },
            lang,
            parent,
        ) == all_symbols_of(
            SyntaxTree {
                kind: root.kind,
                field: root.field,
                text: root.text,
                row: root.row,
                children: seq![def],
            },
            lang,
            parent,
        ),
{
    lemma_wrapper_kinds(lang, parent, root.kind);
    lemma_wrapper_kinds(lang, parent, wrapper.kind);
    reveal_strlit("class_definition");
    reveal_strlit("function_definition");
    reveal_strlit("class_declaration");
    reveal_strlit("function_declaration");
    reveal_strlit("decorated_definition");
    reveal_strlit("export_statement");
    reveal_strlit("decorator");
    reveal_strlit("export");
    reveal_strlit("type_spec");
    reveal_strlit("interface_type");
    assert(def.kind.len() != "type_spec"@.len());
    assert(def.kind != "type_spec"@);
    assert(def.kind.len() != "interface_type"@.len());
    assert(def.kind != "interface_type"@);
    assert(marker.kind != "type_spec"@) by {
        if marker.kind == "decorator"@ {
            assert(marker.kind[0] != "type_spec"@[0]);
        } else {
            assert(marker.kind.len() != "type_spec"@.len());
        }
    }
    assert(wrapper.kind.len() != "type_spec"@.len());
    assert(wrapper.kind != "type_spec"@);
    let with_wrapper = SyntaxTree {
        kind: root.kind,
        field: root.field,
        text: root.text,
        row: root.row,
        children: seq![wrapper],
    };
    let with_def = SyntaxTree {
        kind: root.kind,
        field: root.field,
        text: root.text,
        row: root.row,
        children: seq![def],
    };
    let e = Seq::<SyntaxTree>::empty();
    // The symbol that `def` stands for, whichever node holds it.
    let own = symbols_of_children(seq![def], root.kind, lang, parent);
    assert(seq![def].drop_first() =~= e);
    assert(seq![wrapper].drop_first() =~= e);
    assert(seq![marker, def].drop_first() =~= seq![def]);
    assert(symbols_of_children(e, root.kind, lang, parent) =~= Seq::<SymbolView>::empty());
    assert(symbols_of_children(e, wrapper.kind, lang, parent) =~= Seq::<SymbolView>::empty());
    assert(block_symbols(e, lang, parent) =~= Seq::<SymbolView>::empty());
    // The bare definition: its own symbol, and it is no block.
    assert(symbols_of(with_def, lang, parent) == own);
    assert(block_symbols(seq![def], lang, parent) =~= Seq::<SymbolView>::empty());
    assert(all_symbols_of(with_def, lang, parent) =~= own);
    // The wrapped one: no symbol of its own, and a block holding `def`.
    assert(symbols_of(with_wrapper, lang, parent) =~= Seq::<SymbolView>::empty());
    assert(classify(lang, def.kind, parent, wrapper.kind) == classify(
        lang,
        def.kind,
        parent,
        root.kind,
    ));
    assert(symbols_of_children(seq![def], wrapper.kind, lang, parent) == own);
    assert(symbols_of(wrapper, lang, parent) =~= own);
    assert(block_symbols(seq![marker, def], lang, parent) =~= Seq::<SymbolView>::empty());
    assert(all_symbols_of(wrapper, lang, parent) =~= own);
    assert(block_symbols(seq![wrapper], lang, parent) =~= own);
    assert(all_symbols_of(with_wrapper, lang, parent) =~= own);
}

proof fn lemma_symbols_view_push(v: Seq<Symbol>, s: Symbol)
    ensures
        symbols_view(v.push(s)) == symbols_view(v).push(s@),
{
    assert(symbols_view(v.push(s)) =~= symbols_view(v).push(s@));
}

proof fn lemma_symbols_view_add(a: Seq<Symbol>, b: Seq<Symbol>)
    ensures
        symbols_view(a + b) == symbols_view(a) + symbols_view(b),
{
    assert(symbols_view(a + b) =~= symbols_view(a) + symbols_view(b));
}

/// The symbols that the children of `root` stand for.
pub fn extract_symbols(root: &SyntaxNode, lang: &Language, parent_kind: &str) -> (r: Vec<Symbol>)
    requires
        rows_fit(root@),
    ensures
        symbols_view(r@) == symbols_of(root@, *lang, parent_kind@),
    decreases root, 1nat,
{
    let ghost cs = root@.children;
    let mut symbols: Vec<Symbol> = Vec::new();
    let mut i: usize = 0;
    proof {
        assert(cs.skip(0) =~= cs);
    }
    while i < root.children.len()
        invariant
            i <= root.children.len(),
            cs == root@.children,
            cs.len() == root.children.len(),
            rows_fit_all(cs),
            symbols_view(symbols@) + symbols_of_children(
                cs.skip(i as int),
                root@.kind,
                *lang,
                parent_kind@,
            ) == symbols_of_children(cs, root@.kind, *lang, parent_kind@),
        decreases root.children.len() - i,
    {
        let child = &root.children[i];
        proof {
            assert(decreases_to!(root => root.children@[i as int]));
            assert(cs[i as int] == child@);
            lemma_rows_fit_all(cs, i as int);
            assert(cs.skip(i as int)[0] == child@);
            assert(cs.skip(i as int).drop_first() =~= cs.skip(i + 1));
        }
        let kind = symbol_kind_of(lang, child, parent_kind, root.kind.as_str());
        match kind {
            Some(k) => {
                let name = extract_name(child, lang);
                let public = is_public(child, lang, &name);
                let nested = if is_container(&k) {
                    extract_all_symbols(child, lang, child.kind.as_str())
                } else {
                    extract_symbols(child, lang, child.kind.as_str())
                };
                let ghost nested_view = symbols_view(nested@);
                let sym = Symbol {
                    kind: k,
                    name,
                    line: child.row + 1,
                    is_public: public,
                    children: nested,
                };
                proof {
                    assert(sym@.children =~= nested_view);
                    lemma_symbols_view_push(symbols@, sym);
                }
                symbols.push(sym);
            },
            None => {},
        }
        i = i + 1;
    }
    proof {
        assert(cs.skip(i as int) =~= Seq::<SyntaxTree>::empty());
        assert(symbols_view(symbols@) + Seq::<SymbolView>::empty() =~= symbols_view(symbols@));
    }
    symbols
}

/// The symbols of `root` together with those of the blocks directly inside it.
pub fn extract_all_symbols(root: &SyntaxNode, lang: &Language, parent_kind: &str) -> (r: Vec<
    Symbol,
>)
    requires
        rows_fit(root@),
    ensures
        symbols_view(r@) == all_symbols_of(root@, *lang, parent_kind@),
    decreases root, 2nat,
{
    let mut symbols = extract_symbols(root, lang, parent_kind);
    let ghost cs = root@.children;
    let ghost first = symbols_view(symbols@);
    let mut i: usize = 0;
    proof {
        assert(cs.skip(0) =~= cs);
    }
    while i < root.children.len()
        invariant
            i <= root.children.len(),
            cs == root@.children,
            cs.len() == root.children.len(),
            rows_fit_all(cs),
            first == symbols_of(root@, *lang, parent_kind@),
            symbols_view(symbols@) + block_symbols(cs.skip(i as int), *lang, parent_kind@) == first
                + block_symbols(cs, *lang, parent_kind@),
        decreases root.children.len() - i,
    {
        let child = &root.children[i];
        proof {
            assert(decreases_to!(root => root.children@[i as int]));
            assert(cs[i as int] == child@);
            lemma_rows_fit_all(cs, i as int);
            assert(cs.skip(i as int)[0] == child@);
            assert(cs.skip(i as int).drop_first() =~= cs.skip(i + 1));
        }
        if is_block_kind(child.kind.as_str()) {
            let mut more = extract_all_symbols(child, lang, parent_kind);
            proof {
                lemma_symbols_view_add(symbols@, more@);
            }
            symbols.append(&mut more);
        }
        i = i + 1;
    }
    proof {
        assert(cs.skip(i as int) =~= Seq::<SyntaxTree>::empty());
        assert(symbols_view(symbols@) + Seq::<SymbolView>::empty() =~= symbols_view(symbols@));
    }
    symbols
}

// ---------------------------------------------------------------------------
// Symbols of a source text
// ---------------------------------------------------------------------------

/// The symbols of a source text: those of the root of its syntax tree and of
/// the blocks directly inside it; none when the language has no grammar, the
/// parser gives no tree, or a row of the tree is `usize::MAX`.
pub open spec fn source_symbols(source: Seq<char>, lang: Language) -> Seq<SymbolView> {
    match grammar_of(lang) {
        Some(g) => match syntax_tree_of(source, g) {
            Some(t) => if rows_fit(t) {
                all_symbols_of(t, lang, "source_file"@)
            } else {
                Seq::empty()
            },
            None => Seq::empty(),
        },
        None => Seq::empty(),
    }
}

/// Parses `source` as a file of language `lang` and extracts its symbols.
pub fn parse_symbols(source: &str, lang: &Language) -> (r: Vec<Symbol>)
    ensures
        symbols_view(r@) == source_symbols(source@, *lang),
{
    let g = match grammar_for(lang) {
        Some(g) => g,
        None => {
            proof {
                assert(symbols_view(Seq::<Symbol>::empty()) =~= Seq::<SymbolView>::empty());
            }
            return Vec::new();
        },
    };
    match parse_tree(source, g) {
        Some(tree) => {
            if check_rows(&tree) {
                extract_all_symbols(&tree, lang, "source_file")
            } else {
                proof {
                    assert(symbols_view(Seq::<Symbol>::empty()) =~= Seq::<SymbolView>::empty());
                }
                Vec::new()
            }
        },
        None => {
            proof {
                assert(symbols_view(Seq::<Symbol>::empty()) =~= Seq::<SymbolView>::empty());
            }
            Vec::new()
        },
    }
}

} // verus!
