//! Dependencies declared in `Cargo.toml`, `package.json` and `pyproject.toml`,
//! and the dependencies of a project across all its manifests.
use vstd::prelude::*;
use crate::text::owned;
use super::{deps_view, Dependency, DependencyView};
use super::documents::{
    entries_view, items_view, lemma_doc_view, json_value_of, parse_json, parse_toml_table, table_get,
    table_lookup, toml_table_of, DocEntry, DocTree, DocValue,
};
use super::manifest::{
    dep_of, go_mod_deps, parse_go_mod, parse_requirements_txt, python_spec, requirements_deps,
    split_python_spec,
};

verus! {

proof fn lemma_deps_view_push(v: Seq<Dependency>, d: Dependency)
    ensures
        deps_view(v.push(d)) == deps_view(v).push(d@),
{
    assert(deps_view(v.push(d)) =~= deps_view(v).push(d@));
}

proof fn lemma_deps_view_add(a: Seq<Dependency>, b: Seq<Dependency>)
    ensures
        deps_view(a + b) == deps_view(a) + deps_view(b),
{
    assert(deps_view(a + b) =~= deps_view(a) + deps_view(b));
}

/// The version that a dependency entry gives: the entry itself when it is
/// text, or the text under its `version` key when it is a table.
pub open spec fn entry_version(value: DocTree) -> Option<Seq<char>> {
    match value {
        DocTree::Text(s) => Some(s),
        DocTree::Table(t) => match table_get(t, "version"@) {
            Some(DocTree::Text(s)) => Some(s),
            _ => None,
        },
        _ => None,
    }
}

/// One dependency for each entry of a dependency table, except, when
/// `skip_python` holds, the entries with key `python`.
pub open spec fn table_deps(es: Seq<(Seq<char>, DocTree)>, skip_python: bool) -> Seq<
    DependencyView,
>
    decreases es.len(),
{
    if es.len() == 0 {
        Seq::empty()
    } else {
        let rest = table_deps(es.drop_last(), skip_python);
        let (key, value) = es.last();
        if skip_python && key == "python"@ {
            rest
        } else {
            rest.push(dep_of(key, entry_version(value)))
        }
    }
}

/// The dependencies in table `section` of a manifest's top-level table.
pub open spec fn section_deps(root: Seq<(Seq<char>, DocTree)>, section: Seq<char>) -> Seq<
    DependencyView,
> {
    match table_get(root, section) {
        Some(DocTree::Table(t)) => table_deps(t, false),
        _ => Seq::empty(),
    }
}

/// The dependencies that a `Cargo.toml` file declares (none when it is not
/// valid TOML).
pub open spec fn cargo_deps(content: Seq<char>) -> Seq<DependencyView> {
    match toml_table_of(content) {
        Some(root) => section_deps(root, "dependencies"@) + section_deps(root, "dev-dependencies"@)
            + section_deps(root, "build-dependencies"@),
        None => Seq::empty(),
    }
}

fn text_of(value: &DocValue) -> (r: Option<String>)
    ensures
        match value@ {
            DocTree::Text(s) => r matches Some(x) && x@ == s,
            _ => r is None,
        },
{
    match value {
        DocValue::Text(s) => Some(s.clone()),
        _ => None,
    }
}

fn version_of_entry(value: &DocValue) -> (r: Option<String>)
    ensures
        match r {
            Some(x) => entry_version(value@) == Some(x@),
            None => entry_version(value@) is None,
        },
{
    match value {
        DocValue::Text(s) => Some(s.clone()),
        DocValue::Table(t) => {
            proof {
                lemma_doc_view(*value);
            }
            match table_lookup(t, "version") {
                Some(i) => text_of(&t[i].value),
                None => None,
            }
        },
        _ => None,
    }
}

/// Appends one dependency for each entry of a dependency table.
fn push_table_deps(es: &Vec<DocEntry>, skip_python: bool, deps: &mut Vec<Dependency>)
    ensures
        deps_view(final(deps)@) == deps_view(old(deps)@) + table_deps(
            entries_view(es@),
            skip_python,
        ),
{
    let ghost all = entries_view(es@);
    let ghost start = deps_view(deps@);
    let mut i: usize = 0;
    proof {
        assert(all.take(0) =~= Seq::<(Seq<char>, DocTree)>::empty());
        assert(start + Seq::<DependencyView>::empty() =~= start);
    }
    while i < es.len()
        invariant
            i <= es.len(),
            all == entries_view(es@),
            deps_view(deps@) == start + table_deps(all.take(i as int), skip_python),
        decreases es.len() - i,
    {
        let e = &es[i];
        proof {
            assert(all.take(i + 1).drop_last() =~= all.take(i as int));
            assert(all.take(i + 1).last() == (e.key@, e.value@));
        }
        if skip_python && crate::scanner::str_eq(e.key.as_str(), "python") {
        } else {
            let dep = Dependency { name: e.key.clone(), version: version_of_entry(&e.value) };
            proof {
                lemma_deps_view_push(deps@, dep);
                assert(start + table_deps(all.take(i as int), skip_python).push(dep@) =~= (start
                    + table_deps(all.take(i as int), skip_python)).push(dep@));
            }
            deps.push(dep);
        }
        i = i + 1;
    }
    proof {
        assert(all.take(es.len() as int) =~= all);
    }
}

/// Appends the dependencies in table `section` of `root`.
fn push_section_deps(root: &Vec<DocEntry>, section: &str, deps: &mut Vec<Dependency>)
    ensures
        deps_view(final(deps)@) == deps_view(old(deps)@) + section_deps(
            entries_view(root@),
            section@,
        ),
{
    match table_lookup(root, section) {
        Some(i) => match &root[i].value {
            DocValue::Table(t) => {
                proof {
                    lemma_doc_view(root@[i as int].value);
                }
                push_table_deps(t, false, deps);
            },
            _ => {
                proof {
                    assert(deps_view(deps@) + Seq::<DependencyView>::empty() =~= deps_view(deps@));
                }
            },
        },
        None => {
            proof {
                assert(deps_view(deps@) + Seq::<DependencyView>::empty() =~= deps_view(deps@));
            }
        },
    }
}

/// The dependencies, dev-dependencies and build-dependencies that a
/// `Cargo.toml` file declares, with the version each gives.
pub fn parse_cargo_toml(content: &str) -> (r: Vec<Dependency>)
    ensures
        deps_view(r@) == cargo_deps(content@),
{
    let mut deps: Vec<Dependency> = Vec::new();
    let root = match parse_toml_table(content) {
        Some(root) => root,
        None => {
            proof {
                assert(deps_view(deps@) =~= Seq::<DependencyView>::empty());
            }
            return deps;
        },
    };
    proof {
        assert(deps_view(deps@) =~= Seq::<DependencyView>::empty());
    }
    push_section_deps(&root, "dependencies", &mut deps);
    push_section_deps(&root, "dev-dependencies", &mut deps);
    push_section_deps(&root, "build-dependencies", &mut deps);
    proof {
        let r = entries_view(root@);
        assert(Seq::<DependencyView>::empty() + section_deps(r, "dependencies"@) + section_deps(
            r,
            "dev-dependencies"@,
        ) + section_deps(r, "build-dependencies"@) =~= cargo_deps(content@));
    }
    deps
}

// ---------------------------------------------------------------------------
// package.json
// ---------------------------------------------------------------------------

/// One dependency for each entry of a JSON object, with its version when the
/// entry is text.
pub open spec fn object_deps(es: Seq<(Seq<char>, DocTree)>) -> Seq<DependencyView>
    decreases es.len(),
{
    if es.len() == 0 {
        Seq::empty()
    } else {
        let (key, value) = es.last();
        object_deps(es.drop_last()).push(
            dep_of(
                key,
                match value {
                    DocTree::Text(s) => Some(s),
                    _ => None,
                },
            ),
        )
    }
}

/// The dependencies in object `section` of a JSON document.
pub open spec fn json_section_deps(doc: DocTree, section: Seq<char>) -> Seq<DependencyView> {
    match doc {
        DocTree::Table(root) => match table_get(root, section) {
            Some(DocTree::Table(obj)) => object_deps(obj),
            _ => Seq::empty(),
        },
        _ => Seq::empty(),
    }
}

/// The dependencies that a `package.json` file declares (none when it is
/// not valid JSON).
pub open spec fn package_json_deps(content: Seq<char>) -> Seq<DependencyView> {
    match json_value_of(content) {
        Some(doc) => json_section_deps(doc, "dependencies"@) + json_section_deps(
            doc,
            "devDependencies"@,
        ) + json_section_deps(doc, "peerDependencies"@),
        None => Seq::empty(),
    }
}

fn push_object_deps(es: &Vec<DocEntry>, deps: &mut Vec<Dependency>)
    ensures
        deps_view(final(deps)@) == deps_view(old(deps)@) + object_deps(entries_view(es@)),
{
    let ghost all = entries_view(es@);
    let ghost start = deps_view(deps@);
    let mut i: usize = 0;
    proof {
        assert(all.take(0) =~= Seq::<(Seq<char>, DocTree)>::empty());
        assert(start + Seq::<DependencyView>::empty() =~= start);
    }
    while i < es.len()
        invariant
            i <= es.len(),
            all == entries_view(es@),
            deps_view(deps@) == start + object_deps(all.take(i as int)),
        decreases es.len() - i,
    {
        let e = &es[i];
        proof {
            assert(all.take(i + 1).drop_last() =~= all.take(i as int));
            assert(all.take(i + 1).last() == (e.key@, e.value@));
        }
        let dep = Dependency { name: e.key.clone(), version: text_of(&e.value) };
        proof {
            lemma_deps_view_push(deps@, dep);
            assert(start + object_deps(all.take(i as int)).push(dep@) =~= (start + object_deps(
                all.take(i as int),
            )).push(dep@));
        }
        deps.push(dep);
        i = i + 1;
    }
    proof {
        assert(all.take(es.len() as int) =~= all);
    }
}

fn push_json_section_deps(doc: &DocValue, section: &str, deps: &mut Vec<Dependency>)
    ensures
        deps_view(final(deps)@) == deps_view(old(deps)@) + json_section_deps(doc@, section@),
{
    proof {
        assert(deps_view(deps@) + Seq::<DependencyView>::empty() =~= deps_view(deps@));
    }
    match doc {
        DocValue::Table(root) => {
            proof {
                lemma_doc_view(*doc);
            }
            match table_lookup(root, section) {
                Some(i) => match &root[i].value {
                    DocValue::Table(obj) => {
                        proof {
                            lemma_doc_view(root@[i as int].value);
                        }
                        push_object_deps(obj, deps);
                    },
                    _ => {},
                },
                None => {},
            }
        },
        _ => {},
    }
}

/// The dependencies, devDependencies and peerDependencies that a
/// `package.json` file declares, with the version each gives.
pub fn parse_package_json(content: &str) -> (r: Vec<Dependency>)
    ensures
        deps_view(r@) == package_json_deps(content@),
{
    let mut deps: Vec<Dependency> = Vec::new();
    proof {
        assert(deps_view(deps@) =~= Seq::<DependencyView>::empty());
    }
    let doc = match parse_json(content) {
        Some(doc) => doc,
        None => {
            return deps;
        },
    };
    push_json_section_deps(&doc, "dependencies", &mut deps);
    push_json_section_deps(&doc, "devDependencies", &mut deps);
    push_json_section_deps(&doc, "peerDependencies", &mut deps);
    proof {
        assert(Seq::<DependencyView>::empty() + json_section_deps(doc@, "dependencies"@)
            + json_section_deps(doc@, "devDependencies"@) + json_section_deps(
            doc@,
            "peerDependencies"@,
        ) =~= package_json_deps(content@));
    }
    deps
}

// ---------------------------------------------------------------------------
// pyproject.toml
// ---------------------------------------------------------------------------

/// One requirement for each text item of a list.
pub open spec fn list_requirements(items: Seq<DocTree>) -> Seq<DependencyView>
    decreases items.len(),
{
    if items.len() == 0 {
        Seq::empty()
    } else {
        let rest = list_requirements(items.drop_last());
        match items.last() {
            DocTree::Text(s) => {
                let (name, version) = python_spec(s);
                rest.push(dep_of(name, version))
            },
            _ => rest,
        }
    }
}

/// The requirements listed under `[project] dependencies`.
pub open spec fn project_deps(root: Seq<(Seq<char>, DocTree)>) -> Seq<DependencyView> {
    match table_get(root, "project"@) {
        Some(DocTree::Table(project)) => match table_get(project, "dependencies"@) {
            Some(DocTree::List(items)) => list_requirements(items),
            _ => Seq::empty(),
        },
        _ => Seq::empty(),
    }
}

/// The dependencies under `[tool.poetry.dependencies]`, Python itself aside.
pub open spec fn poetry_deps(root: Seq<(Seq<char>, DocTree)>) -> Seq<DependencyView> {
    match table_get(root, "tool"@) {
        Some(DocTree::Table(tool)) => match table_get(tool, "poetry"@) {
            Some(DocTree::Table(poetry)) => match table_get(poetry, "dependencies"@) {
                Some(DocTree::Table(t)) => table_deps(t, true),
                _ => Seq::empty(),
            },
            _ => Seq::empty(),
        },
        _ => Seq::empty(),
    }
}

proof fn lemma_table_deps_skip_python(es: Seq<(Seq<char>, DocTree)>)
    ensures
        forall|i: int|
            0 <= i < table_deps(es, true).len() ==> (#[trigger] table_deps(es, true)[i]).name
                != "python"@,
    decreases es.len(),
{
    if es.len() > 0 {
        lemma_table_deps_skip_python(es.drop_last());
    }
}

/// The Python interpreter entry of a Poetry dependency table is never
/// reported as a dependency.
pub proof fn lemma_poetry_skips_python(root: Seq<(Seq<char>, DocTree)>)
    ensures
        forall|i: int|
            0 <= i < poetry_deps(root).len() ==> (#[trigger] poetry_deps(root)[i]).name
                != "python"@,
{
    match table_get(root, "tool"@) {
        Some(DocTree::Table(tool)) => match table_get(tool, "poetry"@) {
            Some(DocTree::Table(poetry)) => match table_get(poetry, "dependencies"@) {
                Some(DocTree::Table(t)) => lemma_table_deps_skip_python(t),
                _ => {},
            },
            _ => {},
        },
        _ => {},
    }
}

/// The dependencies that a `pyproject.toml` file declares (none when it is
/// not valid TOML).
pub open spec fn pyproject_deps(content: Seq<char>) -> Seq<DependencyView> {
    match toml_table_of(content) {
        Some(root) => project_deps(root) + poetry_deps(root),
        None => Seq::empty(),
    }
}

fn push_list_requirements(items: &Vec<DocValue>, deps: &mut Vec<Dependency>)
    ensures
        deps_view(final(deps)@) == deps_view(old(deps)@) + list_requirements(items_view(items@)),
{
    let ghost all = items_view(items@);
    let ghost start = deps_view(deps@);
    let mut i: usize = 0;
    proof {
        assert(all.take(0) =~= Seq::<DocTree>::empty());
        assert(start + Seq::<DependencyView>::empty() =~= start);
    }
    while i < items.len()
        invariant
            i <= items.len(),
            all == items_view(items@),
            deps_view(deps@) == start + list_requirements(all.take(i as int)),
        decreases items.len() - i,
    {
        proof {
            assert(all.take(i + 1).drop_last() =~= all.take(i as int));
            assert(all.take(i + 1).last() == items@[i as int]@);
        }
        match &items[i] {
            DocValue::Text(s) => {
                let (name, version) = split_python_spec(s.as_str());
                let dep = Dependency { name, version };
                proof {
                    lemma_deps_view_push(deps@, dep);
                    assert(start + list_requirements(all.take(i as int)).push(dep@) =~= (start
                        + list_requirements(all.take(i as int))).push(dep@));
                }
                deps.push(dep);
            },
            _ => {},
        }
        i = i + 1;
    }
    proof {
        assert(all.take(items.len() as int) =~= all);
    }
}

fn push_project_deps(root: &Vec<DocEntry>, deps: &mut Vec<Dependency>)
    ensures
        deps_view(final(deps)@) == deps_view(old(deps)@) + project_deps(entries_view(root@)),
{
    proof {
        assert(deps_view(deps@) + Seq::<DependencyView>::empty() =~= deps_view(deps@));
    }
    if let Some(i) = table_lookup(root, "project") {
        if let DocValue::Table(project) = &root[i].value {
            proof {
                lemma_doc_view(root@[i as int].value);
            }
            if let Some(j) = table_lookup(project, "dependencies") {
                if let DocValue::List(items) = &project[j].value {
                    proof {
                        lemma_doc_view(project@[j as int].value);
                    }
                    push_list_requirements(items, deps);
                }
            }
        }
    }
}

fn push_poetry_deps(root: &Vec<DocEntry>, deps: &mut Vec<Dependency>)
    ensures
        deps_view(final(deps)@) == deps_view(old(deps)@) + poetry_deps(entries_view(root@)),
{
    proof {
        assert(deps_view(deps@) + Seq::<DependencyView>::empty() =~= deps_view(deps@));
    }
    if let Some(i) = table_lookup(root, "tool") {
        if let DocValue::Table(tool) = &root[i].value {
            proof {
                lemma_doc_view(root@[i as int].value);
            }
            if let Some(j) = table_lookup(tool, "poetry") {
                if let DocValue::Table(poetry) = &tool[j].value {
                    proof {
                        lemma_doc_view(tool@[j as int].value);
                    }
                    if let Some(k) = table_lookup(poetry, "dependencies") {
                        if let DocValue::Table(t) = &poetry[k].value {
                            proof {
                                lemma_doc_view(poetry@[k as int].value);
                            }
                            push_table_deps(t, true, deps);
                        }
                    }
                }
            }
        }
    }
}

/// The dependencies that a `pyproject.toml` file declares, under
/// `[project] dependencies` and `[tool.poetry.dependencies]`.
pub fn parse_pyproject_toml(content: &str) -> (r: Vec<Dependency>)
    ensures
        deps_view(r@) == pyproject_deps(content@),
{
    let mut deps: Vec<Dependency> = Vec::new();
    proof {
        assert(deps_view(deps@) =~= Seq::<DependencyView>::empty());
    }
    let root = match parse_toml_table(content) {
        Some(root) => root,
        None => {
            return deps;
        },
    };
    push_project_deps(&root, &mut deps);
    push_poetry_deps(&root, &mut deps);
    proof {
        let r = entries_view(root@);
        assert(Seq::<DependencyView>::empty() + project_deps(r) + poetry_deps(r) =~= pyproject_deps(
            content@,
        ));
    }
    deps
}

// ---------------------------------------------------------------------------
// All manifests of a project
// ---------------------------------------------------------------------------

/// The contents of the manifest files of a project, for those that exist.
pub struct ManifestFiles {
    pub cargo_toml: Option<String>,
    pub package_json: Option<String>,
    pub go_mod: Option<String>,
    pub pyproject_toml: Option<String>,
    pub requirements_txt: Option<String>,
}

/// The dependencies that the manifests declare, manifest by manifest.
pub open spec fn declared_deps(m: ManifestFiles) -> Seq<DependencyView> {
    (match m.cargo_toml {
        Some(c) => cargo_deps(c@),
        None => Seq::empty(),
    }) + (match m.package_json {
        Some(c) => package_json_deps(c@),
        None => Seq::empty(),
    }) + (match m.go_mod {
        Some(c) => go_mod_deps(c@),
        None => Seq::empty(),
    }) + (match m.pyproject_toml {
        Some(c) => pyproject_deps(c@),
        None => Seq::empty(),
    }) + (match m.requirements_txt {
        Some(c) => requirements_deps(c@),
        None => Seq::empty(),
    })
}

/// `s` with every dependency after its first occurrence left out.
pub open spec fn unique_deps(s: Seq<DependencyView>) -> Seq<DependencyView>
    decreases s.len(),
{
    if s.len() == 0 {
        Seq::empty()
    } else {
        let u = unique_deps(s.drop_last());
        if u.contains(s.last()) {
            u
        } else {
            u.push(s.last())
        }
    }
}

/// A dependency (name and version) occurs at most once among the deduplicated
/// dependencies, and the same dependencies occur there as in the input.
pub proof fn lemma_unique_deps(s: Seq<DependencyView>)
    ensures
        unique_deps(s).no_duplicates(),
        unique_deps(s).to_set() == s.to_set(),
    decreases s.len(),
{
    if s.len() > 0 {
        let u = unique_deps(s.drop_last());
        lemma_unique_deps(s.drop_last());
        assert(s =~= s.drop_last().push(s.last()));
        s.drop_last().lemma_push_to_set_commute(s.last());
        if !u.contains(s.last()) {
            u.lemma_push_to_set_commute(s.last());
            assert forall|i: int, j: int|
                0 <= i < u.push(s.last()).len() && 0 <= j < u.push(s.last()).len() && i != j
                implies u.push(s.last())[i] != u.push(s.last())[j] by {
                if i == u.len() {
                    assert(u.contains(u[j]));
                } else if j == u.len() {
                    assert(u.contains(u[i]));
                }
            }
        } else {
            assert(u.to_set().contains(s.last()));
            assert(u.to_set().insert(s.last()) =~= u.to_set());
        }
    }
}

fn same_dep(a: &Dependency, b: &Dependency) -> (r: bool)
    ensures
        r == (a@ == b@),
{
    if a.name != b.name {
        return false;
    }
    match (&a.version, &b.version) {
        (Some(x), Some(y)) => *x == *y,
        (None, None) => true,
        _ => false,
    }
}

fn copy_dep(d: &Dependency) -> (r: Dependency)
    ensures
        r@ == d@,
{
    Dependency {
        name: d.name.clone(),
        version: match &d.version {
            Some(v) => Some(v.clone()),
            None => None,
        },
    }
}

fn append_parsed(all: &mut Vec<Dependency>, mut more: Vec<Dependency>)
    ensures
        deps_view(final(all)@) == deps_view(old(all)@) + deps_view(more@),
{
    proof {
        lemma_deps_view_add(all@, more@);
    }
    all.append(&mut more);
}

/// The dependencies that the manifests of a project declare, in the order
/// `Cargo.toml`, `package.json`, `go.mod`, `pyproject.toml`,
/// `requirements.txt`, each name-and-version pair once, where it first occurs.
pub fn parse_manifest(files: &ManifestFiles) -> (r: Vec<Dependency>)
    ensures
        deps_view(r@) == unique_deps(declared_deps(*files)),
{
    let mut all: Vec<Dependency> = Vec::new();
    proof {
        assert(deps_view(all@) =~= Seq::<DependencyView>::empty());
    }
    match &files.cargo_toml {
        Some(c) => append_parsed(&mut all, parse_cargo_toml(c.as_str())),
        None => {},
    }
    let ghost a1 = deps_view(all@);
    match &files.package_json {
        Some(c) => append_parsed(&mut all, parse_package_json(c.as_str())),
        None => {
            proof {
                assert(a1 + Seq::<DependencyView>::empty() =~= a1);
            }
        },
    }
    let ghost a2 = deps_view(all@);
    match &files.go_mod {
        Some(c) => append_parsed(&mut all, parse_go_mod(c.as_str())),
        None => {
            proof {
                assert(a2 + Seq::<DependencyView>::empty() =~= a2);
            }
        },
    }
    let ghost a3 = deps_view(all@);
    match &files.pyproject_toml {
        Some(c) => append_parsed(&mut all, parse_pyproject_toml(c.as_str())),
        None => {
            proof {
                assert(a3 + Seq::<DependencyView>::empty() =~= a3);
            }
        },
    }
    let ghost a4 = deps_view(all@);
    match &files.requirements_txt {
        Some(c) => append_parsed(&mut all, parse_requirements_txt(c.as_str())),
        None => {
            proof {
                assert(a4 + Seq::<DependencyView>::empty() =~= a4);
            }
        },
    }
    let ghost av = deps_view(all@);
    proof {
        assert(av =~= declared_deps(*files));
    }
    let mut deps: Vec<Dependency> = Vec::new();
    let mut i: usize = 0;
    proof {
        assert(av.take(0) =~= Seq::<DependencyView>::empty());
        assert(deps_view(deps@) =~= unique_deps(av.take(0)));
    }
    while i < all.len()
        invariant
            i <= all.len(),
            av == deps_view(all@),
            deps_view(deps@) == unique_deps(av.take(i as int)),
        decreases all.len() - i,
    {
        let d = &all[i];
        let ghost dv = deps_view(deps@);
        let mut seen = false;
        let mut j: usize = 0;
        while j < deps.len()
            invariant
                j <= deps.len(),
                dv == deps_view(deps@),
                seen == dv.take(j as int).contains(d@),
            decreases deps.len() - j,
        {
            proof {
                assert(dv.take(j + 1) =~= dv.take(j as int).push(dv[j as int]));
                assert(dv[j as int] == deps@[j as int]@);
            }
            if !seen && same_dep(&deps[j], d) {
                seen = true;
            }
            proof {
                if !seen {
                    assert(!dv.take(j + 1).contains(d@)) by {
                        if dv.take(j + 1).contains(d@) {
                            let k = choose|k: int| 0 <= k < j + 1 && #[trigger] dv.take(j + 1)[k] == d@;
                            if k < j {
                                assert(dv.take(j as int).contains(d@));
                            }
                        }
                    }
                } else {
                    if !dv.take(j as int).contains(d@) {
                        assert(dv.take(j + 1)[j as int] == d@);
                    } else {
                        let k = choose|k: int| 0 <= k < j && #[trigger] dv.take(j as int)[k] == d@;
                        assert(dv.take(j + 1)[k] == d@);
                    }
                }
            }
            j = j + 1;
        }
        proof {
            assert(dv.take(deps.len() as int) =~= dv);
            assert(av.take(i + 1).drop_last() =~= av.take(i as int));
            assert(av.take(i + 1).last() == d@);
        }
        if !seen {
            let c = copy_dep(d);
            proof {
                lemma_deps_view_push(deps@, c);
            }
            deps.push(c);
        }
        i = i + 1;
    }
    proof {
        assert(av.take(all.len() as int) =~= av);
    }
    deps
}

} // verus!
