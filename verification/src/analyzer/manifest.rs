//! Dependencies declared in line-based manifests: `go.mod` and
//! `requirements.txt`, and the Python requirement specifiers they use.
use vstd::prelude::*;
use crate::text::{
    first_index, lemma_first_index, line_ranges, range_contains, range_is, range_starts_with,
    ranges_view, ranges_within, starts_with, string_of, to_chars, trim, trim_range, word_ranges,
    words,
};
use super::{deps_view, Dependency, DependencyView};

verus! {

pub open spec fn dep_of(name: Seq<char>, version: Option<Seq<char>>) -> DependencyView {
    DependencyView { name, version }
}

proof fn lemma_deps_view_push(v: Seq<Dependency>, d: Dependency)
    ensures
        deps_view(v.push(d)) == deps_view(v).push(d@),
{
    assert(deps_view(v.push(d)) =~= deps_view(v).push(d@));
}

/// A dependency whose name and version are pieces of `v`.
fn dep_from(v: &Vec<char>, name: (usize, usize), version: Option<(usize, usize)>) -> (r:
    Dependency)
    requires
        name.0 <= name.1 <= v.len(),
        version matches Some(p) ==> p.0 <= p.1 <= v.len(),
    ensures
        r@ == dep_of(
            v@.subrange(name.0 as int, name.1 as int),
            match version {
                Some(p) => Some(v@.subrange(p.0 as int, p.1 as int)),
                None => None,
            },
        ),
{
    let n = string_of(v, name.0, name.1);
    match version {
        Some(p) => Dependency { name: n, version: Some(string_of(v, p.0, p.1)) },
        None => Dependency { name: n, version: None },
    }
}

// ---------------------------------------------------------------------------
// go.mod
// ---------------------------------------------------------------------------

/// What `.skip(1)` leaves of a list.
pub open spec fn skip_first(ws: Seq<Seq<char>>) -> Seq<Seq<char>> {
    if ws.len() > 0 {
        ws.drop_first()
    } else {
        ws
    }
}

/// The dependency that a `require` entry names: a module path and a version.
pub open spec fn go_require(ws: Seq<Seq<char>>) -> Seq<DependencyView> {
    if ws.len() >= 2 {
        seq![dep_of(ws[0], Some(ws[1]))]
    } else {
        Seq::empty()
    }
}

/// What one trimmed line `t` of a `go.mod` file adds, inside a
/// `require ( .. )` block or not, and whether the next line is inside one.
pub open spec fn go_mod_step(t: Seq<char>, in_require: bool) -> (Seq<DependencyView>, bool) {
    if starts_with(t, "require ("@) {
        (Seq::empty(), true)
    } else if t == ")"@ {
        (Seq::empty(), false)
    } else if starts_with(t, "require "@) && !t.contains('(') {
        (go_require(skip_first(words(t))), in_require)
    } else if in_require {
        (go_require(words(t)), in_require)
    } else {
        (Seq::empty(), in_require)
    }
}

/// The dependencies that the lines `ls` of a `go.mod` file require.
pub open spec fn go_mod_lines(ls: Seq<Seq<char>>, in_require: bool) -> Seq<DependencyView>
    decreases ls.len(),
{
    if ls.len() == 0 {
        Seq::empty()
    } else {
        let (found, next) = go_mod_step(trim(ls[0]), in_require);
        found + go_mod_lines(ls.drop_first(), next)
    }
}

/// The dependencies that a `go.mod` file requires.
pub open spec fn go_mod_deps(content: Seq<char>) -> Seq<DependencyView> {
    go_mod_lines(crate::text::lines(content), false)
}

/// The dependency that word ranges `ws[from..]` of `v` name, if two words are there.
fn require_from_words(v: &Vec<char>, ws: &Vec<(usize, usize)>, from: usize, deps: &mut Vec<
    Dependency,
>)
    requires
        from <= 1,
        from <= ws.len(),
        ranges_within(ws@, 0, v@.len() as int),
    ensures
        deps_view(final(deps)@) == deps_view(old(deps)@) + go_require(
            ranges_view(v@, ws@).skip(from as int),
        ),
{
    let ghost rest = ranges_view(v@, ws@).skip(from as int);
    if from <= ws.len() && ws.len() - from >= 2 {
        let (a, b) = ws[from];
        let (c, d) = ws[from + 1];
        proof {
            assert(rest[0] == v@.subrange(a as int, b as int));
            assert(rest[1] == v@.subrange(c as int, d as int));
            assert(0 <= ws@[from as int].0 <= ws@[from as int].1 <= v@.len());
            assert(0 <= ws@[from + 1].0 <= ws@[from + 1].1 <= v@.len());
        }
        let dep = dep_from(v, (a, b), Some((c, d)));
        proof {
            lemma_deps_view_push(deps@, dep);
            assert(deps_view(deps@).push(dep@) =~= deps_view(deps@) + go_require(rest));
        }
        deps.push(dep);
    } else {
        proof {
            assert(rest.len() < 2);
            assert(deps_view(deps@) + Seq::<DependencyView>::empty() =~= deps_view(deps@));
        }
    }
}

/// Handles the trimmed line `v[s..e]` of a `go.mod` file (see `go_mod_step`).
fn go_mod_line(
    v: &Vec<char>,
    s: usize,
    e: usize,
    in_require: bool,
    req_block: &Vec<char>,
    req: &Vec<char>,
    deps: &mut Vec<Dependency>,
) -> (r: bool)
    requires
        s <= e <= v.len(),
        req_block@ == "require ("@,
        req@ == "require "@,
    ensures
        deps_view(final(deps)@) == deps_view(old(deps)@) + go_mod_step(
            v@.subrange(s as int, e as int),
            in_require,
        ).0,
        r == go_mod_step(v@.subrange(s as int, e as int), in_require).1,
{
    let ghost t = v@.subrange(s as int, e as int);
    proof {
        assert(deps_view(deps@) + Seq::<DependencyView>::empty() =~= deps_view(deps@));
    }
    if range_starts_with(v, s, e, req_block) {
        true
    } else if range_is(v, s, e, ")") {
        false
    } else if range_starts_with(v, s, e, req) && !range_contains(v, s, e, '(') {
        let ws = word_ranges(v, s, e);
        proof {
            if ws.len() > 0 {
                assert(ranges_view(v@, ws@).skip(1) =~= ranges_view(v@, ws@).drop_first());
            } else {
                assert(ranges_view(v@, ws@).skip(0) =~= ranges_view(v@, ws@));
            }
        }
        let from: usize = if ws.len() > 0 {
            1
        } else {
            0
        };
        require_from_words(v, &ws, from, deps);
        in_require
    } else if in_require {
        let ws = word_ranges(v, s, e);
        proof {
            assert(ranges_view(v@, ws@).skip(0) =~= ranges_view(v@, ws@));
        }
        require_from_words(v, &ws, 0, deps);
        in_require
    } else {
        in_require
    }
}

/// The dependencies that a `go.mod` file requires, one-line `require`
/// statements and `require ( .. )` blocks alike.
pub fn parse_go_mod(content: &str) -> (r: Vec<Dependency>)
    ensures
        deps_view(r@) == go_mod_deps(content@),
{
    let v = to_chars(content);
    let lrs = line_ranges(&v);
    let ghost ls = ranges_view(v@, lrs@);
    let req_block = to_chars("require (");
    let req = to_chars("require ");
    let mut deps: Vec<Dependency> = Vec::new();
    let mut in_require = false;
    let mut i: usize = 0;
    proof {
        assert(ls.skip(0) =~= ls);
        assert(deps_view(deps@) + go_mod_lines(ls, false) =~= go_mod_lines(ls, false));
    }
    while i < lrs.len()
        invariant
            i <= lrs.len(),
            ls == ranges_view(v@, lrs@),
            ls == crate::text::lines(v@),
            v@ == content@,
            req_block@ == "require ("@,
            req@ == "require "@,
            ranges_within(lrs@, 0, v@.len() as int),
            deps_view(deps@) + go_mod_lines(ls.skip(i as int), in_require) == go_mod_deps(
                content@,
            ),
        decreases lrs.len() - i,
    {
        let (a, b) = lrs[i];
        proof {
            assert(0 <= lrs@[i as int].0 <= lrs@[i as int].1 <= v@.len());
            assert(ls.skip(i as int)[0] == v@.subrange(a as int, b as int));
            assert(ls.skip(i as int).drop_first() =~= ls.skip(i + 1));
        }
        let (s, e) = trim_range(&v, a, b);
        let ghost before = deps_view(deps@);
        let ghost st = in_require;
        in_require = go_mod_line(&v, s, e, in_require, &req_block, &req, &mut deps);
        proof {
            let (found, next) = go_mod_step(v@.subrange(s as int, e as int), st);
            assert(before + found + go_mod_lines(ls.skip(i + 1), next) =~= before + (found
                + go_mod_lines(ls.skip(i + 1), next)));
        }
        i = i + 1;
    }
    proof {
        assert(ls.skip(i as int) =~= Seq::<Seq<char>>::empty());
        assert(deps_view(deps@) + Seq::<DependencyView>::empty() =~= deps_view(deps@));
    }
    deps
}

pub open spec fn all_versioned(ds: Seq<DependencyView>) -> bool {
    forall|i: int| 0 <= i < ds.len() ==> (#[trigger] ds[i]).version is Some
}

proof fn lemma_go_mod_lines_versioned(ls: Seq<Seq<char>>, in_require: bool)
    ensures
        all_versioned(go_mod_lines(ls, in_require)),
    decreases ls.len(),
{
    if ls.len() > 0 {
        let (found, next) = go_mod_step(trim(ls[0]), in_require);
        lemma_go_mod_lines_versioned(ls.drop_first(), next);
        let rest = go_mod_lines(ls.drop_first(), next);
        assert forall|i: int| 0 <= i < (found + rest).len() implies (#[trigger] (found
            + rest)[i]).version is Some by {
            if i >= found.len() {
                assert((found + rest)[i] == rest[i - found.len()]);
            }
        }
    }
}

proof fn lemma_require_prefix(t: Seq<char>)
    ensures
        starts_with(t, "require ("@) ==> starts_with(t, "require"@),
        starts_with(t, "require "@) ==> starts_with(t, "require"@),
{
    reveal_strlit("require (");
    reveal_strlit("require ");
    reveal_strlit("require");
    if starts_with(t, "require ("@) {
        assert(t.take(7) =~= t.take(9).take(7));
        assert("require ("@.take(7) =~= "require"@);
    }
    if starts_with(t, "require "@) {
        assert(t.take(7) =~= t.take(8).take(7));
        assert("require "@.take(7) =~= "require"@);
    }
}

/// Outside a `require` block, lines that do not start with `require` add no
/// dependency and open no block.
proof fn lemma_go_mod_quiet(rest: Seq<Seq<char>>)
    requires
        forall|i: int| 0 <= i < rest.len() ==> !starts_with(trim(#[trigger] rest[i]), "require"@),
    ensures
        go_mod_lines(rest, false) == Seq::<DependencyView>::empty(),
    decreases rest.len(),
{
    if rest.len() > 0 {
        let t = trim(rest[0]);
        assert(!starts_with(trim(rest[0]), "require"@));
        lemma_require_prefix(t);
        assert forall|i: int| 0 <= i < rest.drop_first().len() implies !starts_with(
            trim(#[trigger] rest.drop_first()[i]),
            "require"@,
        ) by {
            assert(rest.drop_first()[i] == rest[i + 1]);
        }
        lemma_go_mod_quiet(rest.drop_first());
        assert(go_mod_step(t, false).1 == false);
        assert(go_mod_step(t, false).0 =~= Seq::<DependencyView>::empty());
        assert(go_mod_lines(rest, false) =~= Seq::<DependencyView>::empty());
    }
}

/// A line `)` closes a `require ( .. )` block: whatever the lines before it,
/// lines after it that do not start with `require` add no dependency.
pub proof fn lemma_go_mod_block_closes(ls: Seq<Seq<char>>, in_require: bool, rest: Seq<Seq<char>>)
    requires
        forall|i: int| 0 <= i < rest.len() ==> !starts_with(trim(#[trigger] rest[i]), "require"@),
    ensures
        go_mod_lines(ls + seq![seq![')']] + rest, in_require) == go_mod_lines(
            ls + seq![seq![')']],
            in_require,
        ),
    decreases ls.len(),
{
    let close = seq![seq![')']];
    if ls.len() == 0 {
        let a = ls + close + rest;
        let b = ls + close;
        assert(a[0] == seq![')']);
        assert(b[0] == seq![')']);
        assert(trim(seq![')']) == seq![')']) by {
            crate::text::lemma_first_index_is(seq![')'], crate::text::non_ws_pred(), 0);
            assert(seq![')'].skip(0) =~= seq![')']);
            assert(seq![')'].take(1) =~= seq![')']);
        }
        reveal_strlit("require (");
        reveal_strlit(")");
        assert(")"@ =~= seq![')']);
        assert(!starts_with(seq![')'], "require ("@));
        assert(go_mod_step(seq![')'], in_require) == (Seq::<DependencyView>::empty(), false));
        assert(a.drop_first() =~= rest);
        assert(b.drop_first() =~= Seq::<Seq<char>>::empty());
        lemma_go_mod_quiet(rest);
        assert(go_mod_lines(b.drop_first(), false) =~= Seq::<DependencyView>::empty());
        assert(go_mod_lines(a, in_require) =~= Seq::<DependencyView>::empty());
        assert(go_mod_lines(b, in_require) =~= Seq::<DependencyView>::empty());
    } else {
        let a = ls + close + rest;
        let b = ls + close;
        let next = go_mod_step(trim(ls[0]), in_require).1;
        assert(a[0] == ls[0]);
        assert(b[0] == ls[0]);
        assert(a.drop_first() =~= ls.drop_first() + close + rest);
        assert(b.drop_first() =~= ls.drop_first() + close);
        lemma_go_mod_block_closes(ls.drop_first(), next, rest);
    }
}

/// Every dependency that a `go.mod` file requires comes with a version.
pub proof fn lemma_go_mod_versioned(content: Seq<char>)
    ensures
        all_versioned(go_mod_deps(content)),
{
    lemma_go_mod_lines_versioned(crate::text::lines(content), false);
}

// ---------------------------------------------------------------------------
// Python requirement specifiers
// ---------------------------------------------------------------------------

pub open spec fn is_spec_delimiter(c: char) -> bool {
    c == '=' || c == '<' || c == '>' || c == '~' || c == '!' || c == ';'
}

pub open spec fn delimiter_pred() -> spec_fn(char) -> bool {
    |c: char| is_spec_delimiter(c)
}

/// The name and version of a requirement such as `requests>=2.28`: the text
/// before the first of `=<>~!;`, and the text from there on with one leading
/// `=` removed (no version when that is empty).
pub open spec fn python_spec(s: Seq<char>) -> (Seq<char>, Option<Seq<char>>) {
    let pos = first_index(s, delimiter_pred());
    if pos < s.len() {
        let name = trim(s.take(pos as int));
        let v0 = trim(s.skip(pos as int));
        let v = if v0.len() > 0 && v0[0] == '=' {
            trim(v0.drop_first())
        } else {
            v0
        };
        (name, if v.len() > 0 {
            Some(v)
        } else {
            None
        })
    } else {
        (trim(s), None)
    }
}

/// `python_spec` of `v[lo..hi]`, as ranges of `v`.
fn python_spec_ranges(v: &Vec<char>, lo: usize, hi: usize) -> (r: ((usize, usize), Option<
    (usize, usize),
>))
    requires
        lo <= hi <= v.len(),
    ensures
        r.0.0 <= r.0.1 <= v.len(),
        r.1 matches Some(p) ==> p.0 <= p.1 <= v.len(),
        python_spec(v@.subrange(lo as int, hi as int)) == (
            v@.subrange(r.0.0 as int, r.0.1 as int),
            match r.1 {
                Some(p) => Some(v@.subrange(p.0 as int, p.1 as int)),
                None => None,
            },
        ),
{
    let ghost s = v@.subrange(lo as int, hi as int);
    let mut i = lo;
    while i < hi && !(v[i] == '=' || v[i] == '<' || v[i] == '>' || v[i] == '~' || v[i] == '!'
        || v[i] == ';')
        invariant
            lo <= i <= hi <= v.len(),
            forall|j: int| lo <= j < i ==> !is_spec_delimiter(#[trigger] v@[j]),
        decreases hi - i,
    {
        i = i + 1;
    }
    proof {
        assert forall|j: int| 0 <= j < i - lo implies !delimiter_pred()(#[trigger] s[j]) by {
            assert(s[j] == v@[lo + j]);
        }
        if i < hi {
            assert(s[i - lo] == v@[i as int]);
        }
        crate::text::lemma_first_index_is(s, delimiter_pred(), i - lo);
    }
    if i < hi {
        let name = trim_range(v, lo, i);
        let (vs, ve) = trim_range(v, i, hi);
        proof {
            assert(s.take(i - lo) =~= v@.subrange(lo as int, i as int));
            assert(s.skip(i - lo) =~= v@.subrange(i as int, hi as int));
        }
        let (fs, fe) = if vs < ve && v[vs] == '=' {
            proof {
                assert(v@.subrange(vs as int, ve as int).drop_first() =~= v@.subrange(
                    vs + 1,
                    ve as int,
                ));
            }
            trim_range(v, vs + 1, ve)
        } else {
            (vs, ve)
        };
        if fs < fe {
            (name, Some((fs, fe)))
        } else {
            (name, None)
        }
    } else {
        proof {
            assert(s =~= v@.subrange(lo as int, hi as int));
        }
        (trim_range(v, lo, hi), None)
    }
}

/// The characters of a plain distribution name: ASCII letters and digits,
/// `-`, `_` and `.`.
pub open spec fn plain_name_char(c: char) -> bool {
    ||| ('a' <= c && c <= 'z')
    ||| ('A' <= c && c <= 'Z')
    ||| ('0' <= c && c <= '9')
    ||| c == '-'
    ||| c == '_'
    ||| c == '.'
}

/// The version comparison operators of PEP 440 that requirements use.
pub open spec fn version_operator(op: Seq<char>) -> bool {
    ||| op == seq!['=', '=']
    ||| op == seq!['>', '=']
    ||| op == seq!['<', '=']
    ||| op == seq!['~', '=']
    ||| op == seq!['!', '=']
    ||| op == seq!['<']
    ||| op == seq!['>']
}

proof fn lemma_trim_plain(n: Seq<char>)
    requires
        forall|i: int| 0 <= i < n.len() ==> plain_name_char(#[trigger] n[i]),
    ensures
        trim(n) == n,
{
    if n.len() > 0 {
        assert(plain_name_char(n[0]));
        crate::text::lemma_first_index_is(n, crate::text::non_ws_pred(), 0);
        assert(n.skip(0) =~= n);
        assert(plain_name_char(n.last()));
        assert(n.take(n.len() as int) =~= n);
    } else {
        assert(n.skip(0) =~= n);
        assert(n.take(0) =~= n);
    }
}

/// A requirement written as a plain name, a version operator and anything
/// after it is named exactly by that name: the operator, whatever it is,
/// never becomes part of the name.
pub proof fn lemma_python_name_before_operator(n: Seq<char>, op: Seq<char>, v: Seq<char>)
    requires
        forall|i: int| 0 <= i < n.len() ==> plain_name_char(#[trigger] n[i]),
        version_operator(op),
    ensures
        python_spec(n + op + v).0 == n,
{
    let s = n + op + v;
    assert forall|j: int| 0 <= j < n.len() implies !delimiter_pred()(#[trigger] s[j]) by {
        assert(s[j] == n[j]);
        assert(plain_name_char(n[j]));
    }
    assert(s[n.len() as int] == op[0]);
    crate::text::lemma_first_index_is(s, delimiter_pred(), n.len() as int);
    assert(s.take(n.len() as int) =~= n);
    lemma_trim_plain(n);
}

/// A requirement written as a plain name, a version operator and a plain
/// version has that operator and version as its version, with one leading
/// `=` dropped: `django~=4.2` gives `~=4.2`, `requests>=2` gives `>=2`,
/// `serde==1` gives `=1`.
pub proof fn lemma_python_version_after_name(n: Seq<char>, op: Seq<char>, v: Seq<char>)
    requires
        forall|i: int| 0 <= i < n.len() ==> plain_name_char(#[trigger] n[i]),
        version_operator(op),
        v.len() > 0,
        forall|i: int| 0 <= i < v.len() ==> plain_name_char(#[trigger] v[i]),
    ensures
        python_spec(n + op + v).1 == Some(
            if op[0] == '=' {
                op.drop_first() + v
            } else {
                op + v
            },
        ),
{
    let s = n + op + v;
    assert forall|j: int| 0 <= j < n.len() implies !delimiter_pred()(#[trigger] s[j]) by {
        assert(s[j] == n[j]);
        assert(plain_name_char(n[j]));
    }
    assert(s[n.len() as int] == op[0]);
    crate::text::lemma_first_index_is(s, delimiter_pred(), n.len() as int);
    let w = op + v;
    assert(s.skip(n.len() as int) =~= w);
    lemma_trim_no_ws(w);
    if op[0] == '=' {
        let w1 = op.drop_first() + v;
        assert(w.drop_first() =~= w1);
        lemma_trim_no_ws(w1);
    }
}

/// A text of operator and plain characters has no whitespace to trim.
proof fn lemma_trim_no_ws(w: Seq<char>)
    requires
        forall|i: int| 0 <= i < w.len() ==> !crate::text::is_ws(#[trigger] w[i]),
    ensures
        trim(w) == w,
{
    if w.len() > 0 {
        assert(!crate::text::is_ws(w[0]));
        crate::text::lemma_first_index_is(w, crate::text::non_ws_pred(), 0);
        assert(w.skip(0) =~= w);
        assert(!crate::text::is_ws(w.last()));
        assert(w.take(w.len() as int) =~= w);
    } else {
        assert(w.skip(0) =~= w);
        assert(w.take(0) =~= w);
    }
}

/// Splits a Python requirement into its name and version (see `python_spec`).
pub fn split_python_spec(spec: &str) -> (r: (String, Option<String>))
    ensures
        python_spec(spec@) == (
            r.0@,
            match r.1 {
                Some(x) => Some(x@),
                None => None,
            },
        ),
{
    let v = to_chars(spec);
    proof {
        assert(v@.subrange(0, v@.len() as int) =~= v@);
    }
    let (n, ver) = python_spec_ranges(&v, 0, v.len());
    let name = string_of(&v, n.0, n.1);
    match ver {
        Some(p) => (name, Some(string_of(&v, p.0, p.1))),
        None => (name, None),
    }
}

/// `trim(x)` is a piece of `x`.
proof fn lemma_trim_piece(x: Seq<char>)
    ensures
        forall|i: int| 0 <= i < trim(x).len() ==> exists|j: int| 0 <= j < x.len() && x[j] == #[trigger] trim(x)[i],
{
    let a = first_index(x, crate::text::non_ws_pred());
    lemma_first_index(x, crate::text::non_ws_pred());
    let t0 = x.skip(a as int);
    crate::text::lemma_trailing_ws(t0);
    assert forall|i: int| 0 <= i < trim(x).len() implies exists|j: int|
        0 <= j < x.len() && x[j] == #[trigger] trim(x)[i] by {
        assert(trim(x)[i] == t0[i]);
        assert(x[a + i] == t0[i]);
    }
}

/// The name of a Python requirement never holds a version operator.
pub proof fn lemma_python_name_plain(s: Seq<char>)
    ensures
        forall|i: int| 0 <= i < python_spec(s).0.len() ==> !is_spec_delimiter(
            #[trigger] python_spec(s).0[i],
        ),
{
    let pos = first_index(s, delimiter_pred());
    lemma_first_index(s, delimiter_pred());
    let x = if pos < s.len() {
        s.take(pos as int)
    } else {
        s
    };
    assert forall|j: int| 0 <= j < x.len() implies !is_spec_delimiter(#[trigger] x[j]) by {
        assert(x[j] == s[j]);
        assert(!delimiter_pred()(s[j]));
    }
    lemma_trim_piece(x);
    assert(python_spec(s).0 == trim(x));
    assert forall|i: int| 0 <= i < trim(x).len() implies !is_spec_delimiter(#[trigger] trim(x)[i]) by {
        let j = choose|j: int| 0 <= j < x.len() && x[j] == trim(x)[i];
    }
}

// ---------------------------------------------------------------------------
// requirements.txt
// ---------------------------------------------------------------------------

/// The requirements that lines `ls` of a `requirements.txt` file hold; blank
/// lines and comments hold none.
pub open spec fn requirement_lines(ls: Seq<Seq<char>>) -> Seq<DependencyView>
    decreases ls.len(),
{
    if ls.len() == 0 {
        Seq::empty()
    } else {
        let t = trim(ls[0]);
        let rest = requirement_lines(ls.drop_first());
        if t.len() == 0 || t[0] == '#' {
            rest
        } else {
            let (name, version) = python_spec(t);
            seq![dep_of(name, version)] + rest
        }
    }
}

pub open spec fn requirements_deps(content: Seq<char>) -> Seq<DependencyView> {
    requirement_lines(crate::text::lines(content))
}

/// The requirements listed in a `requirements.txt` file, one per line that
/// is neither blank nor a comment.
pub fn parse_requirements_txt(content: &str) -> (r: Vec<Dependency>)
    ensures
        deps_view(r@) == requirements_deps(content@),
{
    let v = to_chars(content);
    let lrs = line_ranges(&v);
    let ghost ls = ranges_view(v@, lrs@);
    let mut deps: Vec<Dependency> = Vec::new();
    let mut i: usize = 0;
    proof {
        assert(ls.skip(0) =~= ls);
        assert(deps_view(deps@) + requirement_lines(ls) =~= requirement_lines(ls));
    }
    while i < lrs.len()
        invariant
            i <= lrs.len(),
            ls == ranges_view(v@, lrs@),
            ls == crate::text::lines(v@),
            v@ == content@,
            ranges_within(lrs@, 0, v@.len() as int),
            deps_view(deps@) + requirement_lines(ls.skip(i as int)) == requirements_deps(
                content@,
            ),
        decreases lrs.len() - i,
    {
        let (a, b) = lrs[i];
        proof {
            assert(0 <= lrs@[i as int].0 <= lrs@[i as int].1 <= v@.len());
            assert(ls.skip(i as int)[0] == v@.subrange(a as int, b as int));
            assert(ls.skip(i as int).drop_first() =~= ls.skip(i + 1));
        }
        let (s, e) = trim_range(&v, a, b);
        if s < e && v[s] != '#' {
            let (n, ver) = python_spec_ranges(&v, s, e);
            let dep = dep_from(&v, n, ver);
            proof {
                lemma_deps_view_push(deps@, dep);
                assert(v@.subrange(s as int, e as int)[0] == v@[s as int]);
                assert(deps_view(deps@).push(dep@) + requirement_lines(ls.skip(i + 1))
                    =~= deps_view(deps@) + (seq![dep@] + requirement_lines(ls.skip(i + 1))));
            }
            deps.push(dep);
        } else {
            proof {
                if s < e {
                    assert(v@.subrange(s as int, e as int)[0] == v@[s as int]);
                }
            }
        }
        i = i + 1;
    }
    proof {
        assert(ls.skip(i as int) =~= Seq::<Seq<char>>::empty());
        assert(deps_view(deps@) + Seq::<DependencyView>::empty() =~= deps_view(deps@));
    }
    deps
}

} // verus!
