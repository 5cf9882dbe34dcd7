//! Laws of module names: the leading directories they leave out and the
//! source extensions they drop.
use vstd::prelude::*;
use crate::path::{dot_dot_name, has_root};
use super::naming::{
    ascii_lower, eq_ignore_ascii_case, lemma_filter_one, lemma_no_slash, lemma_raw_components_prefix,
    collapse_inner, inner_kept, module_name, raw_components, rename_last, root_part, source_dir, source_extension,
    strip_source_dirs,
};
use crate::text::join;

verus! {

/// A directory name that a module name leaves out when a path starts with it:
/// `.`, `..`, or a source directory (`src`, `lib`, `app`, `packages`,
/// `source`, in any ASCII case).
pub open spec fn absorbed_dir(d: Seq<char>) -> bool {
    d == crate::path::dot_name() || d == dot_dot_name() || source_dir(d)
}

/// The path made of the directories `ds`, each followed by `/`, then `p`.
pub open spec fn under_dirs(ds: Seq<Seq<char>>, p: Seq<char>) -> Seq<char>
    decreases ds.len(),
{
    if ds.len() == 0 {
        p
    } else {
        ds[0] + seq!['/'] + under_dirs(ds.drop_first(), p)
    }
}

proof fn lemma_ignore_case_letters(d: Seq<char>, lit: Seq<char>)
    requires
        eq_ignore_ascii_case(d, lit),
        forall|i: int| 0 <= i < lit.len() ==> 'a' <= #[trigger] lit[i] && lit[i] <= 'z',
    ensures
        d.len() == lit.len(),
        forall|i: int| 0 <= i < d.len() ==> #[trigger] d[i] != '/' && d[i] != '.',
{
    reveal(eq_ignore_ascii_case);
    assert forall|i: int| 0 <= i < d.len() implies #[trigger] d[i] != '/' && d[i] != '.' by {
        assert(ascii_lower(d[i]) == ascii_lower(lit[i]));
        assert('a' <= lit[i] && lit[i] <= 'z');
    }
}

proof fn lemma_source_dir_shape(d: Seq<char>)
    requires
        source_dir(d),
    ensures
        d.len() >= 3,
        forall|i: int| 0 <= i < d.len() ==> #[trigger] d[i] != '/' && d[i] != '.',
{
    reveal_strlit("src");
    reveal_strlit("lib");
    reveal_strlit("app");
    reveal_strlit("packages");
    reveal_strlit("source");
    if eq_ignore_ascii_case(d, "src"@) {
        assert("src"@ =~= seq!['s', 'r', 'c']);
        lemma_ignore_case_letters(d, "src"@);
    } else if eq_ignore_ascii_case(d, "lib"@) {
        assert("lib"@ =~= seq!['l', 'i', 'b']);
        lemma_ignore_case_letters(d, "lib"@);
    } else if eq_ignore_ascii_case(d, "app"@) {
        assert("app"@ =~= seq!['a', 'p', 'p']);
        lemma_ignore_case_letters(d, "app"@);
    } else if eq_ignore_ascii_case(d, "packages"@) {
        assert("packages"@ =~= seq!['p', 'a', 'c', 'k', 'a', 'g', 'e', 's']);
        lemma_ignore_case_letters(d, "packages"@);
    } else {
        assert("source"@ =~= seq!['s', 'o', 'u', 'r', 'c', 'e']);
        lemma_ignore_case_letters(d, "source"@);
    }
}

proof fn lemma_raw_dot(p: Seq<char>)
    requires
        !has_root(p),
    ensures
        raw_components(crate::path::dot_name() + seq!['/'] + p) == raw_components(p),
        raw_components(dot_dot_name() + seq!['/'] + p) == raw_components(p),
{
    let normal = |seg: Seq<char>| crate::path::is_normal_segment(seg);
    let not_up = |c: Seq<char>| c != dot_dot_name();
    let a = seq!['.'];
    let b = seq!['.', '.'];
    lemma_no_slash(a);
    lemma_no_slash(b);
    lemma_raw_components_prefix(a, p);
    lemma_raw_components_prefix(b, p);
    lemma_filter_one(a, normal);
    lemma_filter_one(b, normal);
    lemma_filter_one(b, not_up);
    assert(Seq::<Seq<char>>::empty().filter(not_up) =~= Seq::<Seq<char>>::empty());
    assert(root_part(a + seq!['/'] + p) =~= Seq::<Seq<char>>::empty());
    assert(root_part(b + seq!['/'] + p) =~= Seq::<Seq<char>>::empty());
    assert(raw_components(a + seq!['/'] + p) =~= raw_components(p));
    assert(raw_components(b + seq!['/'] + p) =~= raw_components(p));
}

proof fn lemma_raw_source(d: Seq<char>, p: Seq<char>)
    requires
        source_dir(d),
        !has_root(p),
    ensures
        raw_components(d + seq!['/'] + p) == seq![d] + raw_components(p),
{
    let normal = |seg: Seq<char>| crate::path::is_normal_segment(seg);
    let not_up = |c: Seq<char>| c != dot_dot_name();
    lemma_source_dir_shape(d);
    assert(d[0] != '.' && d[0] != '/');
    assert(d != crate::path::dot_name());
    assert(d != dot_dot_name());
    lemma_no_slash(d);
    lemma_raw_components_prefix(d, p);
    lemma_filter_one(d, normal);
    lemma_filter_one(d, not_up);
    assert(root_part(d + seq!['/'] + p) =~= Seq::<Seq<char>>::empty());
    assert(raw_components(d + seq!['/'] + p) =~= seq![d] + raw_components(p));
}

proof fn lemma_strip_leading(d: Seq<char>, cs: Seq<Seq<char>>)
    requires
        source_dir(d),
    ensures
        strip_source_dirs(seq![d] + cs) == strip_source_dirs(cs),
{
    let all = seq![d] + cs;
    assert(all[0] == d);
    assert(all.drop_first() =~= cs);
}

/// A leading `.`, `..` or source directory (`src`, `lib`, `app`, `packages`,
/// `source`, in any ASCII case) does not change the module name of a
/// relative path.
pub proof fn lemma_module_name_leading_dir(d: Seq<char>, p: Seq<char>)
    requires
        absorbed_dir(d),
        !has_root(p),
    ensures
        module_name(d + seq!['/'] + p) == module_name(p),
{
    if d == crate::path::dot_name() || d == dot_dot_name() {
        lemma_raw_dot(p);
    } else {
        lemma_raw_source(d, p);
        lemma_strip_leading(d, raw_components(p));
    }
}

/// Any number of leading `.`, `..` and source directories do not change the
/// module name of a relative path.
pub proof fn lemma_module_name_leading_dirs(ds: Seq<Seq<char>>, p: Seq<char>)
    requires
        forall|i: int| 0 <= i < ds.len() ==> absorbed_dir(#[trigger] ds[i]),
        !has_root(p),
    ensures
        module_name(under_dirs(ds, p)) == module_name(p),
    decreases ds.len(),
{
    if ds.len() > 0 {
        let rest = ds.drop_first();
        assert forall|i: int| 0 <= i < rest.len() implies absorbed_dir(#[trigger] rest[i]) by {
            assert(rest[i] == ds[i + 1]);
        }
        lemma_module_name_leading_dirs(rest, p);
        let q = under_dirs(rest, p);
        if rest.len() > 0 {
            assert(absorbed_dir(rest[0]));
            if source_dir(rest[0]) {
                lemma_source_dir_shape(rest[0]);
            }
            assert(rest[0].len() > 0 && rest[0][0] != '/');
            assert(q[0] == rest[0][0]);
        }
        assert(!has_root(q));
        assert(absorbed_dir(ds[0]));
        lemma_module_name_leading_dir(ds[0], q);
    }
}

/// Where a name `s.e` splits at its first dot, for stems without dots.
proof fn lemma_dot_split(s: Seq<char>, e: Seq<char>, s2: Seq<char>, e2: Seq<char>)
    requires
        forall|i: int| 0 <= i < s.len() ==> #[trigger] s[i] != '.',
        forall|i: int| 0 <= i < s2.len() ==> #[trigger] s2[i] != '.',
        s + seq!['.'] + e == s2 + seq!['.'] + e2,
    ensures
        s == s2,
{
    let x = s + seq!['.'] + e;
    let y = s2 + seq!['.'] + e2;
    if s.len() < s2.len() {
        assert(x[s.len() as int] == '.');
        assert(y[s.len() as int] == s2[s.len() as int]);
    } else if s2.len() < s.len() {
        assert(y[s2.len() as int] == '.');
        assert(x[s2.len() as int] == s[s2.len() as int]);
    }
    assert(s =~= x.take(s.len() as int));
    assert(s2 =~= y.take(s2.len() as int));
}

pub open spec fn source_extension_word(e: Seq<char>) -> bool {
    ||| e == seq!['r', 's']
    ||| e == seq!['t', 's']
    ||| e == seq!['t', 's', 'x']
    ||| e == seq!['j', 's']
    ||| e == seq!['j', 's', 'x']
    ||| e == seq!['p', 'y']
    ||| e == seq!['g', 'o']
}

proof fn lemma_raw_single(x: Seq<char>)
    requires
        x.len() > 0,
        x != crate::path::dot_name(),
        x != dot_dot_name(),
        forall|i: int| 0 <= i < x.len() ==> #[trigger] x[i] != '/',
    ensures
        raw_components(x) == seq![x],
{
    crate::path::lemma_single_component(x);
    let not_up = |c: Seq<char>| c != dot_dot_name();
    lemma_filter_one(x, not_up);
    assert(root_part(x) =~= Seq::<Seq<char>>::empty());
    assert(raw_components(x) =~= seq![x]);
}

proof fn lemma_strip_single(x: Seq<char>, k: int)
    requires
        0 <= k < x.len(),
        x[k] == '.',
    ensures
        strip_source_dirs(seq![x]) == seq![x],
{
    if source_dir(x) {
        lemma_source_dir_shape(x);
        assert(x[k] != '.');
    }
    assert(seq![x][0] == x);
}

proof fn lemma_file_components(s: Seq<char>, e: Seq<char>)
    requires
        s.len() > 0,
        forall|i: int| 0 <= i < s.len() ==> #[trigger] s[i] != '.' && s[i] != '/',
        source_extension_word(e),
    ensures
        strip_source_dirs(raw_components(s + seq!['.'] + e)) == seq![s + seq!['.'] + e],
{
    let x = s + seq!['.'] + e;
    assert forall|i: int| 0 <= i < x.len() implies #[trigger] x[i] != '/' by {
        if i < s.len() {
            assert(x[i] == s[i]);
        } else if i > s.len() {
            assert(x[i] == e[i - s.len() - 1]);
        }
    }
    assert(x.len() > 2);
    assert(x != crate::path::dot_name());
    assert(x != dot_dot_name());
    lemma_raw_single(x);
    lemma_strip_single(x, s.len() as int);
}

proof fn lemma_rename_file(s: Seq<char>, e: Seq<char>)
    requires
        s.len() > 0,
        forall|i: int| 0 <= i < s.len() ==> #[trigger] s[i] != '.' && s[i] != '/',
        s != seq!['m', 'o', 'd'],
        source_extension_word(e),
    ensures
        rename_last(seq![s + seq!['.'] + e]) == seq![s],
{
    let x = s + seq!['.'] + e;
    let cs = seq![x];
    assert(cs.last() == x);
    reveal_strlit("mod.rs");
    reveal_strlit("lib.rs");
    reveal_strlit("main.rs");
    reveal_strlit("lib");
    reveal_strlit("main");
    let mod_rs = seq!['m', 'o', 'd'] + seq!['.'] + seq!['r', 's'];
    let lib_rs = seq!['l', 'i', 'b'] + seq!['.'] + seq!['r', 's'];
    let main_rs = seq!['m', 'a', 'i', 'n'] + seq!['.'] + seq!['r', 's'];
    assert("mod.rs"@ =~= mod_rs);
    assert("lib.rs"@ =~= lib_rs);
    assert("main.rs"@ =~= main_rs);
    if x == mod_rs {
        lemma_dot_split(s, e, seq!['m', 'o', 'd'], seq!['r', 's']);
    } else if x == lib_rs {
        lemma_dot_split(s, e, seq!['l', 'i', 'b'], seq!['r', 's']);
        assert("lib"@ =~= seq!['l', 'i', 'b']);
        assert(cs.drop_last().push("lib"@) =~= seq![s]);
    } else if x == main_rs {
        lemma_dot_split(s, e, seq!['m', 'a', 'i', 'n'], seq!['r', 's']);
        assert("main"@ =~= seq!['m', 'a', 'i', 'n']);
        assert(cs.drop_last().push("main"@) =~= seq![s]);
    } else {
        assert(forall|j: int| s.len() < j < x.len() ==> x[j] == e[j - s.len() - 1]);
        crate::path::lemma_last_index_is(x, '.', Some(s.len() as nat));
        assert(x.skip(s.len() + 1 as int) =~= e);
        reveal_strlit("rs");
        reveal_strlit("ts");
        reveal_strlit("tsx");
        reveal_strlit("js");
        reveal_strlit("jsx");
        reveal_strlit("py");
        reveal_strlit("go");
        assert("rs"@ =~= seq!['r', 's']);
        assert("ts"@ =~= seq!['t', 's']);
        assert("tsx"@ =~= seq!['t', 's', 'x']);
        assert("js"@ =~= seq!['j', 's']);
        assert("jsx"@ =~= seq!['j', 's', 'x']);
        assert("py"@ =~= seq!['p', 'y']);
        assert("go"@ =~= seq!['g', 'o']);
        assert(source_extension(e));
        assert(x.take(s.len() as int) =~= s);
        assert(cs.drop_last().push(x.take(s.len() as int)) =~= seq![s]);
    }
}

/// A file `s.e` with a source extension `e` (`rs`, `ts`, `tsx`, `js`,
/// `jsx`, `py`, `go`) is named by its stem `s`: the extension never appears
/// in its module name.
pub proof fn lemma_module_name_drops_extension(s: Seq<char>, e: Seq<char>)
    requires
        s.len() > 0,
        forall|i: int| 0 <= i < s.len() ==> #[trigger] s[i] != '.' && s[i] != '/',
        s != seq!['m', 'o', 'd'],
        source_extension_word(e),
    ensures
        module_name(s + seq!['.'] + e) == s,
{
    let x = s + seq!['.'] + e;
    lemma_file_components(s, e);
    lemma_rename_file(s, e);
    assert(collapse_inner(seq![x]) == seq![x]);
    assert(join(seq![s], "::"@) == s);
}

/// A first component `a` that is kept: its components are `a` and then
/// those of the rest.
proof fn lemma_raw_keep(a: Seq<char>, p: Seq<char>)
    requires
        a.len() > 0,
        a != crate::path::dot_name(),
        a != dot_dot_name(),
        forall|i: int| 0 <= i < a.len() ==> #[trigger] a[i] != '/',
        !has_root(p),
    ensures
        raw_components(a + seq!['/'] + p) == seq![a] + raw_components(p),
{
    let normal = |seg: Seq<char>| crate::path::is_normal_segment(seg);
    let not_up = |c: Seq<char>| c != dot_dot_name();
    lemma_no_slash(a);
    lemma_raw_components_prefix(a, p);
    lemma_filter_one(a, normal);
    lemma_filter_one(a, not_up);
    assert(root_part(a + seq!['/'] + p) =~= Seq::<Seq<char>>::empty());
    assert(raw_components(a + seq!['/'] + p) =~= seq![a] + raw_components(p));
}

/// A `src` or `lib` directory between an ordinary directory `a` and a file
/// `x` does not change the module name: `packages/ui/src/index.ts` is named
/// like `packages/ui/index.ts`.
pub proof fn lemma_module_name_inner_source_dir(a: Seq<char>, m: Seq<char>, x: Seq<char>)
    requires
        a.len() > 0,
        a != crate::path::dot_name(),
        a != dot_dot_name(),
        forall|i: int| 0 <= i < a.len() ==> #[trigger] a[i] != '/',
        !source_dir(a),
        m == seq!['s', 'r', 'c'] || m == seq!['l', 'i', 'b'],
        x.len() > 0,
        x != crate::path::dot_name(),
        x != dot_dot_name(),
        forall|i: int| 0 <= i < x.len() ==> #[trigger] x[i] != '/',
    ensures
        module_name(a + seq!['/'] + m + seq!['/'] + x) == module_name(a + seq!['/'] + x),
{
    let q = m + seq!['/'] + x;
    assert(a + seq!['/'] + m + seq!['/'] + x =~= a + seq!['/'] + q);
    assert(m.len() == 3 && m[0] != '.');
    lemma_raw_single(x);
    lemma_raw_keep(m, x);
    lemma_raw_keep(a, q);
    lemma_raw_keep(a, x);
    let long = seq![a] + (seq![m] + seq![x]);
    let short = seq![a] + seq![x];
    assert(long =~= seq![a, m, x]);
    assert(short =~= seq![a, x]);
    assert(seq![a, m, x][0] == a);
    assert(seq![a, x][0] == a);
    assert(strip_source_dirs(seq![a, m, x]) == seq![a, m, x]);
    assert(strip_source_dirs(seq![a, x]) == seq![a, x]);
    reveal_strlit("src");
    reveal_strlit("lib");
    assert("src"@ =~= seq!['s', 'r', 'c']);
    assert("lib"@ =~= seq!['l', 'i', 'b']);
    assert(!inner_kept(m));
    assert(inner_kept(a)) by {
        reveal(eq_ignore_ascii_case);
        if a == "src"@ || a == "lib"@ {
            assert(source_dir(a));
        }
    }
    let kept = |c: Seq<char>| inner_kept(c);
    Seq::<Seq<char>>::empty().lemma_filter_push(a, kept);
    seq![a].lemma_filter_push(m, kept);
    assert(Seq::<Seq<char>>::empty().push(a) =~= seq![a]);
    assert(seq![a].push(m) =~= seq![a, m]);
    assert(Seq::<Seq<char>>::empty().filter(kept) =~= Seq::<Seq<char>>::empty());
    assert(seq![a, m].filter(kept) =~= seq![a]);
    assert(seq![a, m, x].drop_last() =~= seq![a, m]);
    assert(seq![a, x].drop_last() =~= seq![a]);
    assert(collapse_inner(seq![a, m, x]) =~= seq![a, x]);
    assert(collapse_inner(seq![a, x]) =~= seq![a, x]);
}

} // verus!
