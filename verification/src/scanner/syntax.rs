//! Syntax trees as plain values, and the tree-sitter parser that builds them.
use vstd::prelude::*;
use super::Language;

verus! {

/// A node of a syntax tree: its kind, the field under which it stands in its
/// parent, its source text, the row where it starts and its children.
pub struct SyntaxNode {
    pub kind: String,
    pub field: Option<String>,
    pub text: Option<String>,
    pub row: usize,
    pub children: Vec<SyntaxNode>,
}

/// The mathematical value of a `SyntaxNode`.
pub struct SyntaxTree {
    pub kind: Seq<char>,
    pub field: Option<Seq<char>>,
    pub text: Option<Seq<char>>,
    pub row: nat,
    pub children: Seq<SyntaxTree>,
}

pub open spec fn opt_view(s: Option<String>) -> Option<Seq<char>> {
    match s {
        Some(x) => Some(x@),
        None => None,
    }
}

pub open spec fn empty_tree() -> SyntaxTree {
    SyntaxTree { kind: Seq::empty(), field: None, text: None, row: 0, children: Seq::empty() }
}

pub open spec fn syntax_view(n: SyntaxNode) -> SyntaxTree
    decreases n,
{
    SyntaxTree {
        kind: n.kind@,
        field: opt_view(n.field),
        text: opt_view(n.text),
        row: n.row as nat,
        children: Seq::new(
            n.children@.len(),
            |i: int|
                if 0 <= i < n.children@.len() {
                    syntax_view(n.children@[i])
                } else {
                    empty_tree()
                },
        ),
    }
}

impl View for SyntaxNode {
    type V = SyntaxTree;

    open spec fn view(&self) -> SyntaxTree {
        syntax_view(*self)
    }
}

pub open spec fn nodes_view(s: Seq<SyntaxNode>) -> Seq<SyntaxTree> {
    Seq::new(s.len(), |i: int| s[i]@)
}

/// Every node of the tree starts on a row whose successor fits in `usize`.
pub open spec fn rows_fit(t: SyntaxTree) -> bool
    decreases t, 1nat,
{
    t.row < usize::MAX && rows_fit_all(t.children)
}

pub open spec fn rows_fit_all(ts: Seq<SyntaxTree>) -> bool
    decreases ts, 0nat,
{
    ts.len() == 0 || (rows_fit(ts[0]) && rows_fit_all(ts.drop_first()))
}

pub proof fn lemma_rows_fit_all(ts: Seq<SyntaxTree>, i: int)
    requires
        rows_fit_all(ts),
        0 <= i < ts.len(),
    ensures
        rows_fit(ts[i]),
    decreases ts.len(),
{
    if i > 0 {
        lemma_rows_fit_all(ts.drop_first(), i - 1);
        assert(ts.drop_first()[i - 1] == ts[i]);
    }
}

/// Checks that every node of the tree starts on a row whose successor fits
/// in `usize`.
pub fn check_rows(n: &SyntaxNode) -> (r: bool)
    ensures
        r == rows_fit(n@),
    decreases n,
{
    if n.row == usize::MAX {
        return false;
    }
    let mut i = n.children.len();
    let ghost cs = n@.children;
    proof {
        assert(cs.skip(i as int) =~= Seq::<SyntaxTree>::empty());
    }
    while i > 0
        invariant
            i <= n.children.len(),
            cs == n@.children,
            cs.len() == n.children.len(),
            rows_fit_all(cs.skip(i as int)),
        decreases i,
    {
        proof {
            assert(decreases_to!(n => n.children@[i - 1]));
        }
        if !check_rows(&n.children[i - 1]) {
            proof {
                assert(cs[i - 1] == n.children@[i - 1]@);
                if rows_fit_all(cs) {
                    lemma_rows_fit_all(cs, i - 1);
                }
            }
            return false;
        }
        proof {
            assert(cs.skip(i - 1).drop_first() =~= cs.skip(i as int));
            assert(cs.skip(i - 1)[0] == cs[i - 1]);
        }
        i = i - 1;
    }
    proof {
        assert(cs.skip(0) =~= cs);
    }
    true
}

/// The tree-sitter grammars that the scanner can parse with.
#[derive(Debug, Clone, Copy, PartialEq, Eq, Structural)]
pub enum Grammar {
    TypeScript,
    JavaScript,
    Python,
    Rust,
    Go,
}

/// The grammar that parses files of a language, if there is one.
pub open spec fn grammar_of(lang: Language) -> Option<Grammar> {
    match lang {
        Language::TypeScript => Some(Grammar::TypeScript),
        Language::JavaScript => Some(Grammar::JavaScript),
        Language::Python => Some(Grammar::Python),
        Language::Rust => Some(Grammar::Rust),
        Language::Go => Some(Grammar::Go),
        Language::Unknown => None,
    }
}

pub fn grammar_for(lang: &Language) -> (r: Option<Grammar>)
    ensures
        r == grammar_of(*lang),
{
    match lang {
        Language::TypeScript => Some(Grammar::TypeScript),
        Language::JavaScript => Some(Grammar::JavaScript),
        Language::Python => Some(Grammar::Python),
        Language::Rust => Some(Grammar::Rust),
        Language::Go => Some(Grammar::Go),
        Language::Unknown => None,
    }
}

/// The syntax tree that tree-sitter builds for `source` with `grammar`
/// (`None` when the grammar cannot be loaded or parsing gives no tree).
pub uninterp spec fn syntax_tree_of(source: Seq<char>, grammar: Grammar) -> Option<SyntaxTree>;

#[verifier::external_type_specification]
#[verifier::external_body]
pub struct ExTreeSitterNode<'tree>(tree_sitter::Node<'tree>);

/// Copies a tree-sitter node and the nodes below it into a `SyntaxNode`:
/// `Node::kind`, `Node::utf8_text`, `Node::start_position`, and for each child
/// the `TreeCursor::field_name` under which it stands. Only `parse_tree` calls
/// it; what it returns is covered by the contract of `parse_tree`.
#[verifier::external_body]
fn node_from_tree(node: tree_sitter::Node<'_>, field: Option<&str>, source: &[u8]) -> SyntaxNode {
    let mut cursor = node.walk();
    let mut children = Vec::new();
    let mut more = cursor.goto_first_child();
    while more {
        children.push(node_from_tree(cursor.node(), cursor.field_name(), source));
        more = cursor.goto_next_sibling();
    }
    SyntaxNode {
        kind: node.kind().to_string(),
        field: field.map(|f| f.to_string()),
        text: node.utf8_text(source).ok().map(|t| t.to_string()),
        row: node.start_position().row,
        children,
    }
}

/// Parses `source` with tree-sitter (`Parser::set_language`, `Parser::parse`)
/// and returns the root of the tree. The contract names the result
/// (`syntax_tree_of`): tree-sitter's parse is a function of the text and the
/// grammar; nothing more of it is stated.
#[verifier::external_body]
pub(crate) fn parse_tree(source: &str, grammar: Grammar) -> (r: Option<SyntaxNode>)
    ensures
        r matches Some(n) ==> syntax_tree_of(source@, grammar) == Some(n@),
        r is None ==> syntax_tree_of(source@, grammar) is None,
{
    let language: tree_sitter::Language = match grammar {
        Grammar::TypeScript => tree_sitter_typescript::LANGUAGE_TYPESCRIPT.into(),
        Grammar::JavaScript => tree_sitter_javascript::LANGUAGE.into(),
        Grammar::Python => tree_sitter_python::LANGUAGE.into(),
        Grammar::Rust => tree_sitter_rust::LANGUAGE.into(),
        Grammar::Go => tree_sitter_go::LANGUAGE.into(),
    };
    let mut parser = tree_sitter::Parser::new();
    parser.set_language(&language).ok()?;
    let tree = parser.parse(source, None)?;
    Some(node_from_tree(tree.root_node(), None, source.as_bytes()))
}

} // verus!
