//! Structured documents (TOML and JSON) as plain values, and the parsers
//! that read them.
use vstd::prelude::*;

verus! {

/// A value of a structured document: text, a list, a table of keyed values,
/// or anything else (numbers, booleans, dates, null).
pub enum DocValue {
    Text(String),
    List(Vec<DocValue>),
    Table(Vec<DocEntry>),
    Other,
}

/// A keyed value of a table, in the order the table holds its keys.
pub struct DocEntry {
    pub key: String,
    pub value: DocValue,
}

/// The mathematical value of a `DocValue`.
pub enum DocTree {
    Text(Seq<char>),
    List(Seq<DocTree>),
    Table(Seq<(Seq<char>, DocTree)>),
    Other,
}

pub open spec fn doc_view(d: DocValue) -> DocTree
    decreases d,
{
    match d {
        DocValue::Text(s) => DocTree::Text(s@),
        DocValue::List(items) => DocTree::List(
            Seq::new(
                items@.len(),
                |i: int|
                    if 0 <= i < items@.len() {
                        doc_view(items@[i])
                    } else {
                        DocTree::Other
                    },
            ),
        ),
        DocValue::Table(entries) => DocTree::Table(
            Seq::new(
                entries@.len(),
                |i: int|
                    if 0 <= i < entries@.len() {
                        (entries@[i].key@, doc_view(entries@[i].value))
                    } else {
                        (Seq::empty(), DocTree::Other)
                    },
            ),
        ),
        DocValue::Other => DocTree::Other,
    }
}

impl View for DocValue {
    type V = DocTree;

    open spec fn view(&self) -> DocTree {
        doc_view(*self)
    }
}

/// The value of a table (or list) is the table (list) of the values of its entries.
pub proof fn lemma_doc_view(d: DocValue)
    ensures
        d matches DocValue::Table(es) ==> d@ == DocTree::Table(entries_view(es@)),
        d matches DocValue::List(items) ==> d@ == DocTree::List(items_view(items@)),
        d matches DocValue::Text(s) ==> d@ == DocTree::Text(s@),
{
    match d {
        DocValue::Table(es) => {
            assert(entries_view(es@) =~= match d@ {
                DocTree::Table(x) => x,
                _ => Seq::empty(),
            });
        },
        DocValue::List(items) => {
            assert(items_view(items@) =~= match d@ {
                DocTree::List(x) => x,
                _ => Seq::empty(),
            });
        },
        _ => {},
    }
}

pub open spec fn entries_view(es: Seq<DocEntry>) -> Seq<(Seq<char>, DocTree)> {
    Seq::new(es.len(), |i: int| (es[i].key@, es[i].value@))
}

pub open spec fn items_view(items: Seq<DocValue>) -> Seq<DocTree> {
    Seq::new(items.len(), |i: int| items[i]@)
}

/// The value of the first entry of a table with key `key`.
pub open spec fn table_get(es: Seq<(Seq<char>, DocTree)>, key: Seq<char>) -> Option<DocTree>
    decreases es.len(),
{
    if es.len() == 0 {
        None
    } else if es[0].0 == key {
        Some(es[0].1)
    } else {
        table_get(es.drop_first(), key)
    }
}

/// Index of the first entry of a table with key `key`.
pub fn table_lookup(es: &Vec<DocEntry>, key: &str) -> (r: Option<usize>)
    ensures
        r matches Some(i) ==> i < es.len() && table_get(entries_view(es@), key@) == Some(
            es@[i as int].value@,
        ),
        r is None ==> table_get(entries_view(es@), key@) is None,
{
    let ghost all = entries_view(es@);
    let mut i: usize = 0;
    proof {
        assert(all.skip(0) =~= all);
    }
    while i < es.len()
        invariant
            i <= es.len(),
            all == entries_view(es@),
            table_get(all, key@) == table_get(all.skip(i as int), key@),
        decreases es.len() - i,
    {
        proof {
            assert(all.skip(i as int)[0] == all[i as int]);
            assert(all.skip(i as int).drop_first() =~= all.skip(i + 1));
        }
        if crate::scanner::str_eq(es[i].key.as_str(), key) {
            return Some(i);
        }
        i = i + 1;
    }
    proof {
        assert(all.skip(i as int) =~= Seq::<(Seq<char>, DocTree)>::empty());
    }
    None
}

// ---------------------------------------------------------------------------
// TOML
// ---------------------------------------------------------------------------

/// The entries of the table that a TOML text holds, in the order the parsed
/// table lists them (`None` when the text is not valid TOML).
pub uninterp spec fn toml_table_of(text: Seq<char>) -> Option<Seq<(Seq<char>, DocTree)>>;

#[verifier::external_type_specification]
#[verifier::external_body]
pub struct ExTomlValue(toml::Value);

/// Copies a parsed TOML value into a `DocValue` (strings, arrays and tables
/// kept, other values as `Other`). Only `parse_toml_table` calls it; what it
/// returns is covered by the contract of `parse_toml_table`.
#[verifier::external_body]
fn doc_from_toml(v: &toml::Value) -> DocValue {
    match v {
        toml::Value::String(s) => DocValue::Text(s.clone()),
        toml::Value::Array(items) => DocValue::List(items.iter().map(doc_from_toml).collect()),
        toml::Value::Table(t) => DocValue::Table(
            t.iter().map(|(k, v)| DocEntry { key: k.clone(), value: doc_from_toml(v) }).collect(),
        ),
        _ => DocValue::Other,
    }
}

/// Parses a TOML document (`str::parse::<toml::Table>`) and lists the entries
/// of its top-level table in the order the table iterates them. The contract
/// names the result (`toml_table_of`); nothing more of the TOML grammar is
/// stated.
#[verifier::external_body]
pub(crate) fn parse_toml_table(content: &str) -> (r: Option<Vec<DocEntry>>)
    ensures
        r matches Some(es) ==> toml_table_of(content@) == Some(entries_view(es@)),
        r is None ==> toml_table_of(content@) is None,
{
    let table = content.parse::<toml::Table>().ok()?;
    Some(table.iter().map(|(k, v)| DocEntry { key: k.clone(), value: doc_from_toml(v) }).collect())
}

// ---------------------------------------------------------------------------
// JSON
// ---------------------------------------------------------------------------

/// The value that a JSON text holds, objects with their entries in the order
/// the parsed map lists them (`None` when the text is not valid JSON).
pub uninterp spec fn json_value_of(text: Seq<char>) -> Option<DocTree>;

#[verifier::external_type_specification]
#[verifier::external_body]
pub struct ExJsonValue(serde_json::Value);

/// Copies a parsed JSON value into a `DocValue` (strings, arrays and objects
/// kept, other values as `Other`). Only `parse_json` calls it; what it returns
/// is covered by the contract of `parse_json`.
#[verifier::external_body]
fn doc_from_json(v: &serde_json::Value) -> DocValue {
    match v {
        serde_json::Value::String(s) => DocValue::Text(s.clone()),
        serde_json::Value::Array(items) => DocValue::List(items.iter().map(doc_from_json).collect()),
        serde_json::Value::Object(m) => DocValue::Table(
            m.iter().map(|(k, v)| DocEntry { key: k.clone(), value: doc_from_json(v) }).collect(),
        ),
        _ => DocValue::Other,
    }
}

/// Parses a JSON document (`serde_json::from_str::<serde_json::Value>`). The
/// contract names the result (`json_value_of`); nothing more of the JSON
/// grammar is stated.
#[verifier::external_body]
pub(crate) fn parse_json(content: &str) -> (r: Option<DocValue>)
    ensures
        r matches Some(d) ==> json_value_of(content@) == Some(d@),
        r is None ==> json_value_of(content@) is None,
{
    let value = serde_json::from_str::<serde_json::Value>(content).ok()?;
    Some(doc_from_json(&value))
}

} // verus!
