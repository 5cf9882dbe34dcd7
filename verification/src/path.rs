//! Paths as `/`-separated text: the components, file name and extension that
//! `std::path::Path` reports for them on Unix.
use vstd::prelude::*;
use crate::text::{lemma_ranges_push, range_eq, ranges_view, ranges_within, split_on, split_ranges, to_chars};

verus! {

pub open spec fn dot_name() -> Seq<char> {
    seq!['.']
}

pub open spec fn dot_dot_name() -> Seq<char> {
    seq!['.', '.']
}

pub open spec fn is_normal_segment(seg: Seq<char>) -> bool {
    seg.len() > 0 && seg != dot_name()
}

/// Whether the path starts at the root directory.
pub open spec fn has_root(p: Seq<char>) -> bool {
    p.len() > 0 && p[0] == '/'
}

/// The components of `p` other than its root and `.` entries, in order
/// (`..` entries included), as `Path::components` reports them.
pub open spec fn normal_parts(p: Seq<char>) -> Seq<Seq<char>> {
    split_on(p, '/').filter(|seg: Seq<char>| is_normal_segment(seg))
}

/// A path of one component (no `/`, not `.`) has that component as its only
/// normal part.
pub proof fn lemma_single_component(x: Seq<char>)
    requires
        x.len() > 0,
        x != dot_name(),
        forall|i: int| 0 <= i < x.len() ==> #[trigger] x[i] != '/',
    ensures
        normal_parts(x) == seq![x],
{
    crate::text::lemma_first_index_is(x, crate::text::char_pred('/'), x.len() as int);
    assert(split_on(x, '/') == seq![x]);
    let pred = |seg: Seq<char>| is_normal_segment(seg);
    Seq::<Seq<char>>::empty().lemma_filter_push(x, pred);
    assert(Seq::<Seq<char>>::empty().push(x) =~= seq![x]);
    assert(Seq::<Seq<char>>::empty().filter(pred) =~= Seq::<Seq<char>>::empty());
    assert(seq![x].filter(pred) =~= seq![x]);
}

/// What `Path::file_name` returns.
pub open spec fn file_name(p: Seq<char>) -> Option<Seq<char>> {
    let ns = normal_parts(p);
    if ns.len() > 0 && ns.last() != dot_dot_name() {
        Some(ns.last())
    } else {
        None
    }
}

/// Index of the last occurrence of `c` in `s`.
pub open spec fn last_index(s: Seq<char>, c: char) -> Option<nat>
    decreases s.len(),
{
    if s.len() == 0 {
        None
    } else if s.last() == c {
        Some((s.len() - 1) as nat)
    } else {
        last_index(s.drop_last(), c)
    }
}

pub proof fn lemma_last_index(s: Seq<char>, c: char)
    ensures
        last_index(s, c) matches Some(i) ==> i < s.len() && s[i as int] == c && forall|j: int|
            i < j < s.len() ==> s[j] != c,
        last_index(s, c) is None ==> forall|j: int| 0 <= j < s.len() ==> s[j] != c,
    decreases s.len(),
{
    if s.len() > 0 && s.last() != c {
        lemma_last_index(s.drop_last(), c);
        assert forall|j: int| 0 <= j < s.len() - 1 implies s.drop_last()[j] == s[j] by {}
    }
}

pub proof fn lemma_last_index_is(s: Seq<char>, c: char, i: Option<nat>)
    requires
        i matches Some(k) ==> k < s.len() && s[k as int] == c && forall|j: int|
            k < j < s.len() ==> s[j] != c,
        i is None ==> forall|j: int| 0 <= j < s.len() ==> s[j] != c,
    ensures
        last_index(s, c) == i,
{
    lemma_last_index(s, c);
    match last_index(s, c) {
        Some(a) => match i {
            Some(b) => {
                if a < b {
                    assert(s[b as int] == c);
                } else if b < a {
                    assert(s[a as int] == c);
                }
            },
            None => {
                assert(s[a as int] == c);
            },
        },
        None => match i {
            Some(b) => {
                assert(s[b as int] == c);
            },
            None => {},
        },
    }
}

/// What `Path::extension` returns for a file name: the text after its last
/// `.`, unless there is no `.` or the only one starts the name.
pub open spec fn extension(name: Seq<char>) -> Option<Seq<char>> {
    match last_index(name, '.') {
        Some(i) => if i > 0 {
            Some(name.skip(i + 1 as int))
        } else {
            None
        },
        None => None,
    }
}

/// Index of the last occurrence of `c` in `v[lo..hi]`.
pub fn rfind_char(v: &Vec<char>, lo: usize, hi: usize, c: char) -> (r: Option<usize>)
    requires
        lo <= hi <= v.len(),
    ensures
        r matches Some(i) ==> lo <= i < hi,
        r matches Some(i) ==> last_index(v@.subrange(lo as int, hi as int), c) == Some(
            (i - lo) as nat,
        ),
        r is None ==> last_index(v@.subrange(lo as int, hi as int), c) is None,
{
    let mut e = hi;
    while e > lo && v[e - 1] != c
        invariant
            lo <= e <= hi <= v.len(),
            forall|j: int| e <= j < hi ==> v@[j] != c,
        decreases e,
    {
        e = e - 1;
    }
    let ghost s = v@.subrange(lo as int, hi as int);
    if e > lo {
        proof {
            assert(s[e - 1 - lo] == v@[e - 1]);
            assert forall|j: int| e - 1 - lo < j < s.len() implies s[j] != c by {
                assert(s[j] == v@[lo + j]);
            }
            lemma_last_index_is(s, c, Some((e - 1 - lo) as nat));
        }
        Some(e - 1)
    } else {
        proof {
            assert forall|j: int| 0 <= j < s.len() implies s[j] != c by {
                assert(s[j] == v@[lo + j]);
            }
            lemma_last_index_is(s, c, None);
        }
        None
    }
}

/// The normal components of the path `v` (see `normal_parts`), as ranges.
pub fn normal_part_ranges(v: &Vec<char>) -> (r: Vec<(usize, usize)>)
    ensures
        ranges_within(r@, 0, v@.len() as int),
        ranges_view(v@, r@) == normal_parts(v@),
{
    let segs = split_ranges(v, 0, v.len(), '/');
    let ghost all = ranges_view(v@, segs@);
    let ghost pred = |seg: Seq<char>| is_normal_segment(seg);
    proof {
        assert(v@.subrange(0, v@.len() as int) =~= v@);
    }
    let dot = to_chars(".");
    proof {
        reveal_strlit(".");
        assert(dot@ =~= dot_name());
    }
    let mut r: Vec<(usize, usize)> = Vec::new();
    let mut i: usize = 0;
    while i < segs.len()
        invariant
            i <= segs.len(),
            dot@ == dot_name(),
            all == ranges_view(v@, segs@),
            ranges_within(segs@, 0, v@.len() as int),
            ranges_within(r@, 0, v@.len() as int),
            pred == (|seg: Seq<char>| is_normal_segment(seg)),
            ranges_view(v@, r@) == all.take(i as int).filter(pred),
        decreases segs.len() - i,
    {
        let (a, b) = segs[i];
        let ghost seg = v@.subrange(a as int, b as int);
        proof {
            assert(all[i as int] == seg);
            assert(all.take(i + 1) =~= all.take(i as int).push(seg));
            all.take(i as int).lemma_filter_push(seg, pred);
        }
        if a < b && !range_eq(v, a, b, &dot) {
            proof {
                lemma_ranges_push(v@, r@, (a, b));
            }
            r.push((a, b));
        }
        i = i + 1;
    }
    proof {
        assert(all.take(segs.len() as int) =~= all);
    }
    r
}

} // verus!
