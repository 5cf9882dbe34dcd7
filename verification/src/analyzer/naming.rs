//! Module names from file paths.
use vstd::prelude::*;
use crate::path::{dot_dot_name, has_root, last_index, normal_part_ranges, normal_parts, rfind_char};
use crate::text::{char_pred, first_index, join, join_ranges, lemma_first_index_is, split_on, lemma_ranges_push, owned, range_is, ranges_view, ranges_within, to_chars};

verus! {

pub open spec fn root_part(p: Seq<char>) -> Seq<Seq<char>> {
    if has_root(p) {
        seq![seq!['/']]
    } else {
        Seq::empty()
    }
}

/// The components of a path with `.` and `..` dropped (the root kept as `/`).
pub open spec fn raw_components(p: Seq<char>) -> Seq<Seq<char>> {
    root_part(p) + normal_parts(p).filter(|c: Seq<char>| c != dot_dot_name())
}

/// A character with ASCII upper case letters mapped to lower case.
pub open spec fn ascii_lower(c: char) -> u32 {
    if 'A' <= c && c <= 'Z' {
        (c as u32 + 32) as u32
    } else {
        c as u32
    }
}

/// What `str::eq_ignore_ascii_case` decides.
#[verifier::opaque]
pub open spec fn eq_ignore_ascii_case(a: Seq<char>, b: Seq<char>) -> bool {
    a.len() == b.len() && forall|i: int| 0 <= i < a.len() ==> ascii_lower(a[i]) == ascii_lower(b[i])
}

/// Directory names that lead to source code and are left out of module names.
pub open spec fn source_dir(c: Seq<char>) -> bool {
    ||| eq_ignore_ascii_case(c, "src"@)
    ||| eq_ignore_ascii_case(c, "lib"@)
    ||| eq_ignore_ascii_case(c, "app"@)
    ||| eq_ignore_ascii_case(c, "packages"@)
    ||| eq_ignore_ascii_case(c, "source"@)
}

pub open spec fn strip_source_dirs(cs: Seq<Seq<char>>) -> Seq<Seq<char>>
    decreases cs.len(),
{
    if cs.len() > 0 && source_dir(cs[0]) {
        strip_source_dirs(cs.drop_first())
    } else {
        cs
    }
}

pub open spec fn inner_kept(c: Seq<char>) -> bool {
    c != "src"@ && c != "lib"@
}

/// Drops `src` and `lib` directories before the last component.
pub open spec fn collapse_inner(cs: Seq<Seq<char>>) -> Seq<Seq<char>> {
    if cs.len() > 1 {
        cs.drop_last().filter(|c: Seq<char>| inner_kept(c)).push(cs.last())
    } else {
        cs
    }
}

pub open spec fn source_extension(e: Seq<char>) -> bool {
    ||| e == "rs"@
    ||| e == "ts"@
    ||| e == "tsx"@
    ||| e == "js"@
    ||| e == "jsx"@
    ||| e == "py"@
    ||| e == "go"@
}

/// Turns the file name at the end into a module name.
pub open spec fn rename_last(cs: Seq<Seq<char>>) -> Seq<Seq<char>> {
    if cs.len() == 0 {
        cs
    } else {
        let last = cs.last();
        if last == "mod.rs"@ {
            cs.drop_last()
        } else if last == "lib.rs"@ {
            cs.drop_last().push("lib"@)
        } else if last == "main.rs"@ {
            cs.drop_last().push("main"@)
        } else {
            match last_index(last, '.') {
                Some(i) => if source_extension(last.skip(i + 1 as int)) {
                    if i == 0 {
                        cs.drop_last()
                    } else {
                        cs.drop_last().push(last.take(i as int))
                    }
                } else {
                    cs
                },
                None => cs,
            }
        }
    }
}

/// The module name of the file at path `p`: its directories and file stem
/// joined with `::`, or `root`.
pub open spec fn module_name(p: Seq<char>) -> Seq<char> {
    name_of_components(strip_source_dirs(raw_components(p)))
}

/// The module name made of path components `cs`, leading source directories
/// already stripped.
pub open spec fn name_of_components(cs: Seq<Seq<char>>) -> Seq<char> {
    if cs.len() == 0 {
        "root"@
    } else {
        let named = rename_last(collapse_inner(cs));
        if named.len() == 0 {
            "root"@
        } else {
            join(named, "::"@)
        }
    }
}

fn lower_code(c: char) -> (r: u32)
    ensures
        r == ascii_lower(c),
{
    if 'A' <= c && c <= 'Z' {
        c as u32 + 32
    } else {
        c as u32
    }
}

/// Whether `v[lo..hi]` matches `lit` ignoring ASCII case.
fn range_eq_ignore_ascii_case(v: &Vec<char>, lo: usize, hi: usize, lit: &str) -> (r: bool)
    requires
        lo <= hi <= v.len(),
    ensures
        r == eq_ignore_ascii_case(v@.subrange(lo as int, hi as int), lit@),
{
    proof {
        reveal(eq_ignore_ascii_case);
    }
    let w = to_chars(lit);
    if w.len() != hi - lo {
        return false;
    }
    let ghost s = v@.subrange(lo as int, hi as int);
    let mut i: usize = 0;
    while i < w.len()
        invariant
            lo <= hi <= v.len(),
            w.len() == hi - lo,
            w@ == lit@,
            s == v@.subrange(lo as int, hi as int),
            i <= w.len(),
            forall|j: int| 0 <= j < i ==> ascii_lower(s[j]) == ascii_lower(w@[j]),
        decreases w.len() - i,
    {
        proof {
            assert(s[i as int] == v@[lo + i]);
        }
        if lower_code(v[lo + i]) != lower_code(w[i]) {
            proof {
                reveal(eq_ignore_ascii_case);
            }
            return false;
        }
        i = i + 1;
    }
    proof {
        reveal(eq_ignore_ascii_case);
    }
    true
}

fn is_source_dir(v: &Vec<char>, lo: usize, hi: usize) -> (r: bool)
    requires
        lo <= hi <= v.len(),
    ensures
        r == source_dir(v@.subrange(lo as int, hi as int)),
{
    range_eq_ignore_ascii_case(v, lo, hi, "src") || range_eq_ignore_ascii_case(v, lo, hi, "lib")
        || range_eq_ignore_ascii_case(v, lo, hi, "app") || range_eq_ignore_ascii_case(
        v,
        lo,
        hi,
        "packages",
    ) || range_eq_ignore_ascii_case(v, lo, hi, "source")
}

fn is_source_extension(v: &Vec<char>, lo: usize, hi: usize) -> (r: bool)
    requires
        lo <= hi <= v.len(),
    ensures
        r == source_extension(v@.subrange(lo as int, hi as int)),
{
    range_is(v, lo, hi, "rs") || range_is(v, lo, hi, "ts") || range_is(v, lo, hi, "tsx")
        || range_is(v, lo, hi, "js") || range_is(v, lo, hi, "jsx") || range_is(v, lo, hi, "py")
        || range_is(v, lo, hi, "go")
}

/// The components of the path `v` (see `raw_components`), as ranges of `v`.
fn component_ranges(v: &Vec<char>) -> (r: Vec<(usize, usize)>)
    ensures
        ranges_within(r@, 0, v@.len() as int),
        ranges_view(v@, r@) == raw_components(v@),
{
    let parts = normal_part_ranges(v);
    let ghost ps = ranges_view(v@, parts@);
    let ghost pred = |c: Seq<char>| c != dot_dot_name();
    let mut r: Vec<(usize, usize)> = Vec::new();
    if v.len() > 0 && v[0] == '/' {
        proof {
            lemma_ranges_push(v@, r@, (0, 1));
            assert(v@.subrange(0, 1) =~= seq!['/']);
        }
        r.push((0, 1));
    }
    proof {
        assert(ranges_view(v@, r@) =~= root_part(v@));
        assert(ps.take(0).filter(pred) =~= Seq::<Seq<char>>::empty());
        assert(root_part(v@) + Seq::<Seq<char>>::empty() =~= root_part(v@));
    }
    let dd = to_chars("..");
    proof {
        reveal_strlit("..");
        assert(dd@ =~= dot_dot_name());
    }
    let mut i: usize = 0;
    while i < parts.len()
        invariant
            i <= parts.len(),
            dd@ == dot_dot_name(),
            ps == ranges_view(v@, parts@),
            ranges_within(parts@, 0, v@.len() as int),
            ranges_within(r@, 0, v@.len() as int),
            pred == (|c: Seq<char>| c != dot_dot_name()),
            ranges_view(v@, r@) == root_part(v@) + ps.take(i as int).filter(pred),
        decreases parts.len() - i,
    {
        let (a, b) = parts[i];
        let ghost c = v@.subrange(a as int, b as int);
        proof {
            assert(ps[i as int] == c);
            assert(ps.take(i + 1) =~= ps.take(i as int).push(c));
            ps.take(i as int).lemma_filter_push(c, pred);
        }
        if !crate::text::range_eq(v, a, b, &dd) {
            proof {
                lemma_ranges_push(v@, r@, (a, b));
                assert(root_part(v@) + ps.take(i as int).filter(pred).push(c) =~= (root_part(v@)
                    + ps.take(i as int).filter(pred)).push(c));
            }
            r.push((a, b));
        }
        i = i + 1;
    }
    proof {
        assert(ps.take(parts.len() as int) =~= ps);
    }
    r
}

/// The module name of the file at `path` (see `module_name`).
pub fn compute_module_name(path: &str) -> (r: String)
    ensures
        r@ == module_name(path@),
{
    let v = to_chars(path);
    let comps = component_ranges(&v);
    let ghost raw = ranges_view(v@, comps@);
    // Strip leading source directories.
    let mut k: usize = 0;
    proof {
        assert(raw.skip(0) =~= raw);
    }
    while k < comps.len() && is_source_dir(&v, comps[k].0, comps[k].1)
        invariant
            k <= comps.len(),
            raw == ranges_view(v@, comps@),
            ranges_within(comps@, 0, v@.len() as int),
            strip_source_dirs(raw) == strip_source_dirs(raw.skip(k as int)),
        decreases comps.len() - k,
    {
        proof {
            assert(raw.skip(k as int)[0] == raw[k as int]);
            assert(raw.skip(k as int).drop_first() =~= raw.skip(k + 1));
        }
        k = k + 1;
    }
    let ghost cs = raw.skip(k as int);
    proof {
        if k < comps.len() {
            assert(cs[0] == raw[k as int]);
        }
        assert(strip_source_dirs(raw) == cs);
    }
    proof {
        assert(module_name(path@) == name_of_components(cs));
    }
    if k == comps.len() {
        return owned("root");
    }
    // Drop `src` and `lib` directories before the last component.
    let n = comps.len();
    let mut kept: Vec<(usize, usize)> = Vec::new();
    let ghost pred = |c: Seq<char>| inner_kept(c);
    let mut j = k;
    proof {
        assert(cs.drop_last().take(0).filter(pred) =~= Seq::<Seq<char>>::empty());
    }
    while j + 1 < n
        invariant
            k <= j < n,
            n == comps.len(),
            raw == ranges_view(v@, comps@),
            cs == raw.skip(k as int),
            ranges_within(comps@, 0, v@.len() as int),
            ranges_within(kept@, 0, v@.len() as int),
            pred == (|c: Seq<char>| inner_kept(c)),
            ranges_view(v@, kept@) == cs.drop_last().take(j - k).filter(pred),
        decreases n - j,
    {
        let (a, b) = comps[j];
        let ghost c = v@.subrange(a as int, b as int);
        proof {
            assert(raw[j as int] == c);
            assert(cs.drop_last().take(j + 1 - k) =~= cs.drop_last().take(j - k).push(c));
            cs.drop_last().take(j - k).lemma_filter_push(c, pred);
        }
        if !range_is(&v, a, b, "src") && !range_is(&v, a, b, "lib") {
            proof {
                lemma_ranges_push(v@, kept@, (a, b));
            }
            kept.push((a, b));
        }
        j = j + 1;
    }
    let (la, lb) = comps[n - 1];
    proof {
        assert(cs.drop_last().take(j - k) =~= cs.drop_last());
        assert(cs.last() == v@.subrange(la as int, lb as int));
        lemma_ranges_push(v@, kept@, (la, lb));
        if cs.len() <= 1 {
            assert(kept@.len() == 0);
            assert(ranges_view(v@, kept@) =~= Seq::<Seq<char>>::empty());
            assert(cs =~= seq![cs.last()]);
        }
    }
    kept.push((la, lb));
    let ghost collapsed = ranges_view(v@, kept@);
    proof {
        assert(collapsed == collapse_inner(cs));
    }
    // Turn the file name into a module name.
    let ghost last = v@.subrange(la as int, lb as int);
    proof {
        assert(collapsed.last() == last);
        assert(collapsed.drop_last() =~= ranges_view(v@, kept@.drop_last()));
        reveal_strlit("lib.rs");
        reveal_strlit("lib");
        reveal_strlit("main.rs");
        reveal_strlit("main");
    }
    if range_is(&v, la, lb, "mod.rs") {
        kept.pop();
    } else if range_is(&v, la, lb, "lib.rs") {
        kept.pop();
        proof {
            assert(v@.subrange(la as int, la + 3) =~= "lib"@);
            lemma_ranges_push(v@, kept@, (la, (la + 3) as usize));
        }
        kept.push((la, la + 3));
    } else if range_is(&v, la, lb, "main.rs") {
        kept.pop();
        proof {
            assert(v@.subrange(la as int, la + 4) =~= "main"@);
            lemma_ranges_push(v@, kept@, (la, (la + 4) as usize));
        }
        kept.push((la, la + 4));
    } else {
        match rfind_char(&v, la, lb, '.') {
            Some(d) => {
                proof {
                    assert(last.skip(d - la + 1) =~= v@.subrange(d + 1, lb as int));
                    assert(last.take(d - la) =~= v@.subrange(la as int, d as int));
                }
                if is_source_extension(&v, d + 1, lb) {
                    kept.pop();
                    if d > la {
                        proof {
                            lemma_ranges_push(v@, kept@, (la, d));
                        }
                        kept.push((la, d));
                    }
                }
            },
            None => {},
        }
    }
    proof {
        assert(ranges_view(v@, kept@) =~= rename_last(collapsed));
        assert(name_of_components(cs) == (if ranges_view(v@, kept@).len() == 0 {
            "root"@
        } else {
            join(ranges_view(v@, kept@), "::"@)
        }));
    }
    if kept.len() == 0 {
        owned("root")
    } else {
        join_ranges(&v, &kept, "::")
    }
}

// ---------------------------------------------------------------------------
// Laws
// ---------------------------------------------------------------------------

/// Splitting `a/p` at `/` gives `a` and then the pieces of `p`.
proof fn lemma_split_prefix(a: Seq<char>, p: Seq<char>)
    requires
        !a.contains('/'),
    ensures
        split_on(a + seq!['/'] + p, '/') == seq![a] + split_on(p, '/'),
{
    let s = a + seq!['/'] + p;
    assert forall|j: int| 0 <= j < a.len() implies !char_pred('/')(#[trigger] s[j]) by {
        assert(s[j] == a[j]);
        if a[j] == '/' {
            assert(a.contains('/'));
        }
    }
    assert(s[a.len() as int] == '/');
    lemma_first_index_is(s, char_pred('/'), a.len() as int);
    assert(s.take(a.len() as int) =~= a);
    assert(s.skip(a.len() + 1 as int) =~= p);
}

/// A path that starts with `a/`, for a first component `a` that is kept,
/// has the components `a` and then those of the rest.
pub(crate) proof fn lemma_raw_components_prefix(a: Seq<char>, p: Seq<char>)
    requires
        !a.contains('/'),
        a.len() > 0,
        a[0] != '/',
        !has_root(p),
    ensures
        raw_components(a + seq!['/'] + p) == root_part(a + seq!['/'] + p) + seq![a].filter(
            |seg: Seq<char>| crate::path::is_normal_segment(seg),
        ).filter(|c: Seq<char>| c != dot_dot_name()) + raw_components(p),
{
    let s = a + seq!['/'] + p;
    let normal = |seg: Seq<char>| crate::path::is_normal_segment(seg);
    let not_up = |c: Seq<char>| c != dot_dot_name();
    lemma_split_prefix(a, p);
    Seq::filter_distributes_over_add(seq![a], split_on(p, '/'), normal);
    Seq::filter_distributes_over_add(
        seq![a].filter(normal),
        split_on(p, '/').filter(normal),
        not_up,
    );
    assert(s[0] == a[0]);
    assert(root_part(s) =~= Seq::<Seq<char>>::empty());
    assert(root_part(p) =~= Seq::<Seq<char>>::empty());
    assert(raw_components(s) =~= root_part(s) + seq![a].filter(normal).filter(not_up)
        + raw_components(p));
}

pub(crate) proof fn lemma_filter_one(x: Seq<char>, pred: spec_fn(Seq<char>) -> bool)
    ensures
        seq![x].filter(pred) == if pred(x) {
            seq![x]
        } else {
            Seq::<Seq<char>>::empty()
        },
{
    Seq::<Seq<char>>::empty().lemma_filter_push(x, pred);
    assert(Seq::<Seq<char>>::empty().push(x) =~= seq![x]);
    assert(Seq::<Seq<char>>::empty().filter(pred) =~= Seq::<Seq<char>>::empty());
}

pub(crate) proof fn lemma_no_slash(a: Seq<char>)
    requires
        forall|i: int| 0 <= i < a.len() ==> a[i] != '/',
    ensures
        !a.contains('/'),
{
}

pub open spec fn all_nonempty(cs: Seq<Seq<char>>) -> bool {
    forall|i: int| 0 <= i < cs.len() ==> (#[trigger] cs[i]).len() > 0
}

proof fn lemma_filter_nonempty(cs: Seq<Seq<char>>, pred: spec_fn(Seq<char>) -> bool)
    requires
        all_nonempty(cs),
    ensures
        all_nonempty(cs.filter(pred)),
{
    assert forall|i: int| 0 <= i < cs.filter(pred).len() implies (#[trigger] cs.filter(pred)[i]).len()
        > 0 by {
        let x = cs.filter(pred)[i];
        assert(cs.filter(pred).contains(x));
        cs.lemma_filter_contains_rev(pred, x);
        let k = choose|k: int| 0 <= k < cs.len() && cs[k] == x;
    }
}

proof fn lemma_raw_nonempty(p: Seq<char>)
    ensures
        all_nonempty(raw_components(p)),
{
    let normal = |seg: Seq<char>| crate::path::is_normal_segment(seg);
    let not_up = |c: Seq<char>| c != dot_dot_name();
    let parts = split_on(p, '/').filter(normal);
    assert forall|i: int| 0 <= i < parts.len() implies (#[trigger] parts[i]).len() > 0 by {
        split_on(p, '/').lemma_filter_pred(normal, i);
    }
    lemma_filter_nonempty(parts, not_up);
    let rest = parts.filter(not_up);
    let all = root_part(p) + rest;
    assert forall|i: int| 0 <= i < all.len() implies (#[trigger] all[i]).len() > 0 by {
        if i >= root_part(p).len() {
            assert(all[i] == rest[i - root_part(p).len()]);
        }
    }
}

proof fn lemma_strip_nonempty(cs: Seq<Seq<char>>)
    requires
        all_nonempty(cs),
    ensures
        all_nonempty(strip_source_dirs(cs)),
    decreases cs.len(),
{
    if cs.len() > 0 && source_dir(cs[0]) {
        assert forall|i: int| 0 <= i < cs.drop_first().len() implies (
        #[trigger] cs.drop_first()[i]).len() > 0 by {
            assert(cs.drop_first()[i] == cs[i + 1]);
        }
        lemma_strip_nonempty(cs.drop_first());
    }
}

proof fn lemma_join_len(parts: Seq<Seq<char>>, sep: Seq<char>)
    requires
        parts.len() > 0,
    ensures
        join(parts, sep).len() >= parts.last().len(),
{
}

/// Every file gets a module name that is not empty.
pub proof fn lemma_module_name_nonempty(p: Seq<char>)
    ensures
        module_name(p).len() > 0,
{
    reveal_strlit("root");
    reveal_strlit("lib");
    reveal_strlit("main");
    let cs = strip_source_dirs(raw_components(p));
    lemma_raw_nonempty(p);
    lemma_strip_nonempty(raw_components(p));
    if cs.len() > 0 {
        let inner = |c: Seq<char>| inner_kept(c);
        let col = collapse_inner(cs);
        if cs.len() > 1 {
            lemma_filter_nonempty(cs.drop_last(), inner);
            assert(all_nonempty(cs.drop_last())) by {
                assert forall|i: int| 0 <= i < cs.drop_last().len() implies (
                #[trigger] cs.drop_last()[i]).len() > 0 by {
                    assert(cs.drop_last()[i] == cs[i]);
                }
            }
            lemma_filter_nonempty(cs.drop_last(), inner);
            let f = cs.drop_last().filter(inner);
            assert forall|i: int| 0 <= i < col.len() implies (#[trigger] col[i]).len() > 0 by {
                if i < f.len() {
                    assert(col[i] == f[i]);
                } else {
                    assert(col[i] == cs.last());
                }
            }
        }
        assert(all_nonempty(col));
        let named = rename_last(col);
        if named.len() > 0 {
            assert(named.last().len() > 0) by {
                let last = col.last();
                if named.len() < col.len() {
                    assert(named.last() == col[col.len() - 2]);
                } else if named.len() == col.len() && named.last() != last {
                    match last_index(last, '.') {
                        Some(i) => {
                            crate::path::lemma_last_index(last, '.');
                        },
                        None => {},
                    }
                }
            }
            lemma_join_len(named, "::"@);
        }
    }
}

} // verus!
