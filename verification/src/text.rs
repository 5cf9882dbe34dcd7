//! Text primitives on sequences of characters: what `str::trim`, `str::lines`,
//! `str::split_whitespace`, `str::split` and `str::find` compute, stated as
//! spec functions and implemented over character vectors.
use vstd::prelude::*;

verus! {

// ---------------------------------------------------------------------------
// Character classes
// ---------------------------------------------------------------------------

/// The Unicode `White_Space` property, which `char::is_whitespace`,
/// `str::trim` and `str::split_whitespace` use.
pub open spec fn is_ws(c: char) -> bool {
    ||| c == '\t'
    ||| c == '\n'
    ||| c == '\x0B'
    ||| c == '\x0C'
    ||| c == '\r'
    ||| c == ' '
    ||| c == '\u{85}'
    ||| c == '\u{A0}'
    ||| c == '\u{1680}'
    ||| ('\u{2000}' <= c && c <= '\u{200A}')
    ||| c == '\u{2028}'
    ||| c == '\u{2029}'
    ||| c == '\u{202F}'
    ||| c == '\u{205F}'
    ||| c == '\u{3000}'
}

pub fn is_whitespace(c: char) -> (r: bool)
    ensures
        r == is_ws(c),
{
    c == '\t' || c == '\n' || c == '\x0B' || c == '\x0C' || c == '\r' || c == ' ' || c
        == '\u{85}' || c == '\u{A0}' || c == '\u{1680}' || ('\u{2000}' <= c && c <= '\u{200A}')
        || c == '\u{2028}' || c == '\u{2029}' || c == '\u{202F}' || c == '\u{205F}' || c
        == '\u{3000}'
}

pub open spec fn ws_pred() -> spec_fn(char) -> bool {
    |c: char| is_ws(c)
}

pub open spec fn non_ws_pred() -> spec_fn(char) -> bool {
    |c: char| !is_ws(c)
}

pub open spec fn char_pred(x: char) -> spec_fn(char) -> bool {
    |c: char| c == x
}

// ---------------------------------------------------------------------------
// First position where a predicate holds
// ---------------------------------------------------------------------------

/// The index of the first character of `s` that satisfies `p`, or `s.len()`
/// when there is none.
pub open spec fn first_index(s: Seq<char>, p: spec_fn(char) -> bool) -> nat
    decreases s.len(),
{
    if s.len() == 0 {
        0
    } else if p(s[0]) {
        0
    } else {
        1 + first_index(s.drop_first(), p)
    }
}

pub proof fn lemma_first_index(s: Seq<char>, p: spec_fn(char) -> bool)
    ensures
        first_index(s, p) <= s.len(),
        forall|j: int| 0 <= j < first_index(s, p) ==> !p(#[trigger] s[j]),
        first_index(s, p) < s.len() ==> p(s[first_index(s, p) as int]),
    decreases s.len(),
{
    if s.len() > 0 && !p(s[0]) {
        lemma_first_index(s.drop_first(), p);
        assert forall|j: int| 0 <= j < first_index(s, p) implies !p(#[trigger] s[j]) by {
            if j > 0 {
                assert(s[j] == s.drop_first()[j - 1]);
            }
        }
    }
}

/// A position that stops before the first match and at a match (or the end)
/// is the first index.
pub proof fn lemma_first_index_is(s: Seq<char>, p: spec_fn(char) -> bool, k: int)
    requires
        0 <= k <= s.len(),
        forall|j: int| 0 <= j < k ==> !p(#[trigger] s[j]),
        k < s.len() ==> p(s[k]),
    ensures
        first_index(s, p) == k,
    decreases s.len(),
{
    if s.len() > 0 && k > 0 {
        assert(!p(s[0]));
        assert forall|j: int| 0 <= j < k - 1 implies !p(#[trigger] s.drop_first()[j]) by {
            assert(s.drop_first()[j] == s[j + 1]);
        }
        lemma_first_index_is(s.drop_first(), p, k - 1);
    }
}

// ---------------------------------------------------------------------------
// Trimming
// ---------------------------------------------------------------------------

pub open spec fn trim_start(s: Seq<char>) -> Seq<char> {
    s.skip(first_index(s, non_ws_pred()) as int)
}

/// Number of whitespace characters at the end of `s`.
pub open spec fn trailing_ws(s: Seq<char>) -> nat
    decreases s.len(),
{
    if s.len() == 0 {
        0
    } else if is_ws(s.last()) {
        1 + trailing_ws(s.drop_last())
    } else {
        0
    }
}

pub proof fn lemma_trailing_ws(s: Seq<char>)
    ensures
        trailing_ws(s) <= s.len(),
    decreases s.len(),
{
    if s.len() > 0 && is_ws(s.last()) {
        lemma_trailing_ws(s.drop_last());
    }
}

pub open spec fn trim_end(s: Seq<char>) -> Seq<char> {
    s.take(s.len() - trailing_ws(s))
}

/// What `str::trim` returns.
pub open spec fn trim(s: Seq<char>) -> Seq<char> {
    trim_end(trim_start(s))
}

/// Index of the first non-whitespace character in `v[lo..hi]`, or `hi`.
pub fn skip_ws(v: &Vec<char>, lo: usize, hi: usize) -> (r: usize)
    requires
        lo <= hi <= v.len(),
    ensures
        lo <= r <= hi,
        r - lo == first_index(v@.subrange(lo as int, hi as int), non_ws_pred()),
        v@.subrange(r as int, hi as int) == trim_start(v@.subrange(lo as int, hi as int)),
{
    let mut i = lo;
    while i < hi && is_whitespace(v[i])
        invariant
            lo <= i <= hi <= v.len(),
            forall|j: int| lo <= j < i ==> is_ws(#[trigger] v@[j]),
        decreases hi - i,
    {
        i = i + 1;
    }
    let ghost s = v@.subrange(lo as int, hi as int);
    proof {
        assert forall|j: int| 0 <= j < i - lo implies !non_ws_pred()(#[trigger] s[j]) by {
            assert(s[j] == v@[lo + j]);
        }
        if i < hi {
            assert(s[i - lo] == v@[i as int]);
        }
        lemma_first_index_is(s, non_ws_pred(), i - lo);
        assert(v@.subrange(i as int, hi as int) =~= s.skip(i - lo));
    }
    i
}

/// Index of the first whitespace character in `v[lo..hi]`, or `hi`.
pub fn skip_non_ws(v: &Vec<char>, lo: usize, hi: usize) -> (r: usize)
    requires
        lo <= hi <= v.len(),
    ensures
        lo <= r <= hi,
        r - lo == first_index(v@.subrange(lo as int, hi as int), ws_pred()),
{
    let mut i = lo;
    while i < hi && !is_whitespace(v[i])
        invariant
            lo <= i <= hi <= v.len(),
            forall|j: int| lo <= j < i ==> !is_ws(#[trigger] v@[j]),
        decreases hi - i,
    {
        i = i + 1;
    }
    let ghost s = v@.subrange(lo as int, hi as int);
    proof {
        assert forall|j: int| 0 <= j < i - lo implies !ws_pred()(#[trigger] s[j]) by {
            assert(s[j] == v@[lo + j]);
        }
        if i < hi {
            assert(s[i - lo] == v@[i as int]);
        }
        lemma_first_index_is(s, ws_pred(), i - lo);
    }
    i
}

/// Index of the first occurrence of `c` in `v[lo..hi]`, or `hi`.
pub fn find_char(v: &Vec<char>, lo: usize, hi: usize, c: char) -> (r: usize)
    requires
        lo <= hi <= v.len(),
    ensures
        lo <= r <= hi,
        r - lo == first_index(v@.subrange(lo as int, hi as int), char_pred(c)),
        forall|j: int| lo <= j < r ==> v@[j] != c,
        r < hi ==> v@[r as int] == c,
{
    let mut i = lo;
    while i < hi && v[i] != c
        invariant
            lo <= i <= hi <= v.len(),
            forall|j: int| lo <= j < i ==> #[trigger] v@[j] != c,
        decreases hi - i,
    {
        i = i + 1;
    }
    let ghost s = v@.subrange(lo as int, hi as int);
    proof {
        assert forall|j: int| 0 <= j < i - lo implies !char_pred(c)(#[trigger] s[j]) by {
            assert(s[j] == v@[lo + j]);
        }
        if i < hi {
            assert(s[i - lo] == v@[i as int]);
        }
        lemma_first_index_is(s, char_pred(c), i - lo);
    }
    i
}

/// End of `v[lo..hi]` once trailing whitespace is removed.
pub fn trim_end_index(v: &Vec<char>, lo: usize, hi: usize) -> (r: usize)
    requires
        lo <= hi <= v.len(),
    ensures
        lo <= r <= hi,
        v@.subrange(lo as int, r as int) == trim_end(v@.subrange(lo as int, hi as int)),
{
    let mut e = hi;
    while e > lo && is_whitespace(v[e - 1])
        invariant
            lo <= e <= hi <= v.len(),
            trim_end(v@.subrange(lo as int, hi as int)) == trim_end(
                v@.subrange(lo as int, e as int),
            ),
        decreases e,
    {
        let ghost s = v@.subrange(lo as int, e as int);
        proof {
            assert(s.drop_last() =~= v@.subrange(lo as int, e - 1));
            assert(s.last() == v@[e - 1]);
            lemma_trailing_ws(s.drop_last());
            assert(trim_end(s) =~= trim_end(s.drop_last()));
        }
        e = e - 1;
    }
    proof {
        let s = v@.subrange(lo as int, e as int);
        if e > lo {
            assert(s.last() == v@[e - 1]);
        }
        assert(trim_end(s) =~= s);
    }
    e
}

/// `str::trim` on `v[lo..hi]`, as a range of `v`.
pub fn trim_range(v: &Vec<char>, lo: usize, hi: usize) -> (r: (usize, usize))
    requires
        lo <= hi <= v.len(),
    ensures
        lo <= r.0 <= r.1 <= hi,
        v@.subrange(r.0 as int, r.1 as int) == trim(v@.subrange(lo as int, hi as int)),
{
    let s = skip_ws(v, lo, hi);
    let e = trim_end_index(v, s, hi);
    (s, e)
}

// ---------------------------------------------------------------------------
// Prefixes and equality
// ---------------------------------------------------------------------------

pub open spec fn starts_with(s: Seq<char>, p: Seq<char>) -> bool {
    p.len() <= s.len() && s.take(p.len() as int) == p
}

/// Whether `v[lo..hi]` starts with `p`.
pub fn range_starts_with(v: &Vec<char>, lo: usize, hi: usize, p: &Vec<char>) -> (r: bool)
    requires
        lo <= hi <= v.len(),
    ensures
        r == starts_with(v@.subrange(lo as int, hi as int), p@),
{
    if p.len() > hi - lo {
        return false;
    }
    let mut i: usize = 0;
    while i < p.len()
        invariant
            lo <= hi <= v.len(),
            p.len() <= hi - lo,
            i <= p.len(),
            forall|j: int| 0 <= j < i ==> v@[lo + j] == p@[j],
        decreases p.len() - i,
    {
        if v[lo + i] != p[i] {
            proof {
                let s = v@.subrange(lo as int, hi as int);
                assert(s.take(p.len() as int)[i as int] == v@[lo + i]);
            }
            return false;
        }
        i = i + 1;
    }
    proof {
        let s = v@.subrange(lo as int, hi as int);
        assert(s.take(p.len() as int) =~= p@);
    }
    true
}

/// Whether `v[lo..hi]` equals `w`.
pub fn range_eq(v: &Vec<char>, lo: usize, hi: usize, w: &Vec<char>) -> (r: bool)
    requires
        lo <= hi <= v.len(),
    ensures
        r == (v@.subrange(lo as int, hi as int) == w@),
{
    if w.len() != hi - lo {
        return false;
    }
    let b = range_starts_with(v, lo, hi, w);
    proof {
        let s = v@.subrange(lo as int, hi as int);
        assert(s.take(w.len() as int) =~= s);
    }
    b
}

/// Whether `v[lo..hi]` is the text of `lit`.
pub fn range_is(v: &Vec<char>, lo: usize, hi: usize, lit: &str) -> (r: bool)
    requires
        lo <= hi <= v.len(),
    ensures
        r == (v@.subrange(lo as int, hi as int) == lit@),
{
    let w = to_chars(lit);
    range_eq(v, lo, hi, &w)
}

/// Whether `v[lo..hi]` contains `c`.
pub fn range_contains(v: &Vec<char>, lo: usize, hi: usize, c: char) -> (r: bool)
    requires
        lo <= hi <= v.len(),
    ensures
        r == v@.subrange(lo as int, hi as int).contains(c),
{
    let i = find_char(v, lo, hi, c);
    proof {
        let s = v@.subrange(lo as int, hi as int);
        if i < hi {
            assert(s[i - lo] == c);
        } else {
            assert forall|j: int| 0 <= j < s.len() implies s[j] != c by {
                assert(s[j] == v@[lo + j]);
            }
        }
    }
    i < hi
}

// ---------------------------------------------------------------------------
// Building strings
// ---------------------------------------------------------------------------

/// Appends one character to a `String` (`String::push`).
#[verifier::external_body]
pub(crate) fn push_char(s: &mut String, c: char)
    ensures
        final(s)@ == old(s)@.push(c),
{
    s.push(c);
}

/// Collects the characters of a string slice into a vector.
pub fn to_chars(s: &str) -> (r: Vec<char>)
    ensures
        r@ == s@,
{
    let mut r: Vec<char> = Vec::new();
    for c in it: s.chars()
        invariant
            r@ == it.seq().take(it.index() as int),
            it.seq() == s@,
    {
        r.push(c);
    }
    r
}

/// The string made of `v[lo..hi]`.
pub fn string_of(v: &Vec<char>, lo: usize, hi: usize) -> (r: String)
    requires
        lo <= hi <= v.len(),
    ensures
        r@ == v@.subrange(lo as int, hi as int),
{
    let mut r = String::new();
    let mut i = lo;
    while i < hi
        invariant
            lo <= i <= hi <= v.len(),
            r@ == v@.subrange(lo as int, i as int),
        decreases hi - i,
    {
        push_char(&mut r, v[i]);
        proof {
            assert(v@.subrange(lo as int, i + 1) =~= v@.subrange(lo as int, i as int).push(v@[i as int]));
        }
        i = i + 1;
    }
    r
}

/// A `String` with the contents of a string slice.
pub fn owned(s: &str) -> (r: String)
    ensures
        r@ == s@,
{
    let v = to_chars(s);
    string_of(&v, 0, v.len())
}

/// The decimal digit `d` (for `d < 10`).
pub open spec fn digit(d: nat) -> char {
    if d == 0 {
        '0'
    } else if d == 1 {
        '1'
    } else if d == 2 {
        '2'
    } else if d == 3 {
        '3'
    } else if d == 4 {
        '4'
    } else if d == 5 {
        '5'
    } else if d == 6 {
        '6'
    } else if d == 7 {
        '7'
    } else if d == 8 {
        '8'
    } else {
        '9'
    }
}

/// The decimal notation of `n`, as `format!("{}", n)` writes it.
pub open spec fn decimal(n: nat) -> Seq<char>
    decreases n,
{
    if n < 10 {
        seq![digit(n)]
    } else {
        decimal(n / 10).push(digit(n % 10))
    }
}

fn digit_char(d: usize) -> (r: char)
    requires
        d < 10,
    ensures
        r == digit(d as nat),
{
    if d == 0 {
        '0'
    } else if d == 1 {
        '1'
    } else if d == 2 {
        '2'
    } else if d == 3 {
        '3'
    } else if d == 4 {
        '4'
    } else if d == 5 {
        '5'
    } else if d == 6 {
        '6'
    } else if d == 7 {
        '7'
    } else if d == 8 {
        '8'
    } else {
        '9'
    }
}

/// Appends the decimal notation of `n` to `s`.
pub fn push_decimal(s: &mut String, n: usize)
    ensures
        final(s)@ == old(s)@ + decimal(n as nat),
    decreases n,
{
    if n < 10 {
        push_char(s, digit_char(n));
        proof {
            assert(old(s)@.push(digit(n as nat)) =~= old(s)@ + decimal(n as nat));
        }
    } else {
        push_decimal(s, n / 10);
        push_char(s, digit_char(n % 10));
        proof {
            assert(old(s)@ + decimal((n / 10) as nat) + seq![digit((n % 10) as nat)] =~= old(s)@
                + decimal(n as nat));
        }
    }
}

/// The pieces of `v` selected by `rs`, joined with `sep` between them.
pub fn join_ranges(v: &Vec<char>, rs: &Vec<(usize, usize)>, sep: &str) -> (r: String)
    requires
        ranges_within(rs@, 0, v@.len() as int),
    ensures
        r@ == join(ranges_view(v@, rs@), sep@),
{
    let ghost all = ranges_view(v@, rs@);
    let sepv = to_chars(sep);
    let mut r = String::new();
    let mut i: usize = 0;
    while i < rs.len()
        invariant
            i <= rs.len(),
            sepv@ == sep@,
            all == ranges_view(v@, rs@),
            ranges_within(rs@, 0, v@.len() as int),
            r@ == join(all.take(i as int), sep@),
        decreases rs.len() - i,
    {
        let ghost before = all.take(i as int);
        let (a, b) = rs[i];
        proof {
            assert(0 <= rs@[i as int].0 <= rs@[i as int].1 <= v@.len());
        }
        if i > 0 {
            let s = string_of(&sepv, 0, sepv.len());
            proof {
                assert(sepv@.subrange(0, sepv@.len() as int) =~= sepv@);
            }
            r.append(s.as_str());
        }
        let piece = string_of(v, a, b);
        r.append(piece.as_str());
        proof {
            let after = all.take(i + 1);
            assert(after.drop_last() =~= before);
            assert(after.last() == v@.subrange(a as int, b as int));
            if i == 0 {
                assert(r@ =~= join(after, sep@));
            }
        }
        i = i + 1;
    }
    proof {
        assert(all.take(rs.len() as int) =~= all);
    }
    r
}

/// `parts` joined with `sep` between consecutive parts (`[..].join(sep)`).
pub open spec fn join(parts: Seq<Seq<char>>, sep: Seq<char>) -> Seq<char>
    decreases parts.len(),
{
    if parts.len() == 0 {
        Seq::empty()
    } else if parts.len() == 1 {
        parts[0]
    } else {
        join(parts.drop_last(), sep) + sep + parts.last()
    }
}

pub open spec fn strings_view(v: Seq<String>) -> Seq<Seq<char>> {
    Seq::new(v.len(), |i: int| v[i]@)
}

/// Joins the strings of `parts` with `sep` between them.
pub fn join_strings(parts: &Vec<String>, sep: &str) -> (r: String)
    ensures
        r@ == join(strings_view(parts@), sep@),
{
    let mut r = String::new();
    let mut i: usize = 0;
    while i < parts.len()
        invariant
            i <= parts.len(),
            r@ == join(strings_view(parts@).take(i as int), sep@),
        decreases parts.len() - i,
    {
        let ghost before = strings_view(parts@).take(i as int);
        if i > 0 {
            r.append(sep);
        }
        r.append(parts[i].as_str());
        proof {
            let after = strings_view(parts@).take(i + 1);
            assert(after.drop_last() =~= before);
            if i == 0 {
                assert(r@ =~= join(after, sep@));
            }
        }
        i = i + 1;
    }
    proof {
        assert(strings_view(parts@).take(parts.len() as int) =~= strings_view(parts@));
    }
    r
}

// ---------------------------------------------------------------------------
// Splitting
// ---------------------------------------------------------------------------

/// A line with the `'\r'` of a `"\r\n"` terminator removed.
pub open spec fn strip_cr(s: Seq<char>) -> Seq<char> {
    if s.len() > 0 && s.last() == '\r' {
        s.drop_last()
    } else {
        s
    }
}

/// What `str::lines` yields: pieces split at `'\n'` (a `'\r'` before it
/// dropped), with no empty piece after a final newline.
pub open spec fn lines(s: Seq<char>) -> Seq<Seq<char>>
    decreases s.len(),
{
    if s.len() == 0 {
        Seq::empty()
    } else {
        let i = first_index(s, char_pred('\n'));
        if i >= s.len() {
            seq![s]
        } else {
            proof {
                lemma_first_index(s, char_pred('\n'));
            }
            seq![strip_cr(s.take(i as int))] + lines(s.skip(i + 1 as int))
        }
    }
}

/// What `str::split_whitespace` yields: the maximal runs of non-whitespace.
pub open spec fn words(s: Seq<char>) -> Seq<Seq<char>>
    decreases s.len(),
{
    let t = trim_start(s);
    if t.len() == 0 || t.len() > s.len() {
        Seq::empty()
    } else {
        let k = first_index(t, ws_pred());
        if k == 0 {
            Seq::empty()
        } else {
            proof {
                lemma_first_index(t, ws_pred());
            }
            seq![t.take(k as int)] + words(t.skip(k as int))
        }
    }
}

/// What `str::split(c)` yields: the pieces between occurrences of `c`.
pub open spec fn split_on(s: Seq<char>, c: char) -> Seq<Seq<char>>
    decreases s.len(),
{
    let i = first_index(s, char_pred(c));
    if i >= s.len() {
        seq![s]
    } else {
        proof {
            lemma_first_index(s, char_pred(c));
        }
        seq![s.take(i as int)] + split_on(s.skip(i + 1 as int), c)
    }
}

/// The pieces of `s` that a list of ranges selects.
pub open spec fn ranges_view(s: Seq<char>, rs: Seq<(usize, usize)>) -> Seq<Seq<char>> {
    Seq::new(rs.len(), |i: int| s.subrange(rs[i].0 as int, rs[i].1 as int))
}

pub open spec fn ranges_within(rs: Seq<(usize, usize)>, lo: int, hi: int) -> bool {
    forall|i: int| 0 <= i < rs.len() ==> lo <= (#[trigger] rs[i]).0 <= rs[i].1 <= hi
}

pub proof fn lemma_ranges_push(s: Seq<char>, rs: Seq<(usize, usize)>, r: (usize, usize))
    ensures
        ranges_view(s, rs.push(r)) == ranges_view(s, rs).push(s.subrange(r.0 as int, r.1 as int)),
{
    assert(ranges_view(s, rs.push(r)) =~= ranges_view(s, rs).push(
        s.subrange(r.0 as int, r.1 as int),
    ));
}

/// The lines of `v` (as `str::lines` splits them), as ranges of `v`.
pub fn line_ranges(v: &Vec<char>) -> (r: Vec<(usize, usize)>)
    ensures
        ranges_within(r@, 0, v@.len() as int),
        ranges_view(v@, r@) == lines(v@),
{
    let mut r: Vec<(usize, usize)> = Vec::new();
    let mut pos: usize = 0;
    let n = v.len();
    proof {
        assert(v@.skip(0) =~= v@);
        assert(ranges_view(v@, r@) + lines(v@) =~= lines(v@));
    }
    while pos < n
        invariant
            n == v.len(),
            pos <= n,
            ranges_within(r@, 0, n as int),
            ranges_view(v@, r@) + lines(v@.skip(pos as int)) == lines(v@),
        decreases n - pos,
    {
        let ghost rest = v@.skip(pos as int);
        let e = find_char(v, pos, n, '\n');
        proof {
            assert(v@.subrange(pos as int, n as int) =~= rest);
        }
        if e == n {
            proof {
                lemma_ranges_push(v@, r@, (pos, n));
                assert(v@.subrange(pos as int, n as int) =~= rest);
                assert(lines(v@.skip(n as int)) =~= Seq::<Seq<char>>::empty());
            }
            r.push((pos, n));
            pos = n;
            proof {
                assert(ranges_view(v@, r@) + lines(v@.skip(pos as int)) =~= ranges_view(v@, r@));
            }
        } else {
            let end = if e > pos && v[e - 1] == '\r' {
                e - 1
            } else {
                e
            };
            proof {
                let line = rest.take(e - pos);
                assert(line =~= v@.subrange(pos as int, e as int));
                assert(strip_cr(line) =~= v@.subrange(pos as int, end as int));
                assert(rest.skip(e - pos + 1) =~= v@.skip(e + 1));
                lemma_ranges_push(v@, r@, (pos, end));
            }
            r.push((pos, end));
            pos = e + 1;
            proof {
                assert(ranges_view(v@, r@) + lines(v@.skip(pos as int)) =~= lines(v@));
            }
        }
    }
    proof {
        assert(lines(v@.skip(pos as int)) =~= Seq::<Seq<char>>::empty());
        assert(ranges_view(v@, r@) + Seq::<Seq<char>>::empty() =~= ranges_view(v@, r@));
    }
    r
}

/// The whitespace-separated words of `v[lo..hi]`, as ranges of `v`.
pub fn word_ranges(v: &Vec<char>, lo: usize, hi: usize) -> (r: Vec<(usize, usize)>)
    requires
        lo <= hi <= v.len(),
    ensures
        ranges_within(r@, lo as int, hi as int),
        ranges_view(v@, r@) == words(v@.subrange(lo as int, hi as int)),
{
    let mut r: Vec<(usize, usize)> = Vec::new();
    let mut pos = lo;
    loop
        invariant
            lo <= pos <= hi <= v.len(),
            ranges_within(r@, lo as int, hi as int),
            ranges_view(v@, r@) + words(v@.subrange(pos as int, hi as int)) == words(
                v@.subrange(lo as int, hi as int),
            ),
        decreases hi - pos,
    {
        let ghost s = v@.subrange(pos as int, hi as int);
        let start = skip_ws(v, pos, hi);
        if start == hi {
            proof {
                assert(words(s) =~= Seq::<Seq<char>>::empty());
                assert(ranges_view(v@, r@) + Seq::<Seq<char>>::empty() =~= ranges_view(v@, r@));
            }
            return r;
        }
        let end = skip_non_ws(v, start, hi);
        proof {
            let t = trim_start(s);
            assert(t =~= v@.subrange(start as int, hi as int));
            assert(t[0] == v@[start as int]);
            lemma_first_index(v@.subrange(start as int, hi as int), ws_pred());
            lemma_first_index(s, non_ws_pred());
            assert(s[start - pos] == v@[start as int]);
            assert(end > start);
            assert(t.take(end - start) =~= v@.subrange(start as int, end as int));
            assert(t.skip(end - start) =~= v@.subrange(end as int, hi as int));
            lemma_ranges_push(v@, r@, (start, end));
        }
        r.push((start, end));
        pos = end;
        proof {
            assert(ranges_view(v@, r@) + words(v@.subrange(pos as int, hi as int)) =~= words(
                v@.subrange(lo as int, hi as int),
            ));
        }
    }
}

/// The pieces of `v[lo..hi]` between occurrences of `c`, as ranges of `v`.
pub fn split_ranges(v: &Vec<char>, lo: usize, hi: usize, c: char) -> (r: Vec<(usize, usize)>)
    requires
        lo <= hi <= v.len(),
    ensures
        ranges_within(r@, lo as int, hi as int),
        ranges_view(v@, r@) == split_on(v@.subrange(lo as int, hi as int), c),
{
    let mut r: Vec<(usize, usize)> = Vec::new();
    let mut pos = lo;
    loop
        invariant
            lo <= pos <= hi <= v.len(),
            ranges_within(r@, lo as int, hi as int),
            ranges_view(v@, r@) + split_on(v@.subrange(pos as int, hi as int), c) == split_on(
                v@.subrange(lo as int, hi as int),
                c,
            ),
        decreases hi - pos,
    {
        let ghost s = v@.subrange(pos as int, hi as int);
        let e = find_char(v, pos, hi, c);
        proof {
            assert(s.take(e - pos) =~= v@.subrange(pos as int, e as int));
            lemma_ranges_push(v@, r@, (pos, e));
        }
        r.push((pos, e));
        if e == hi {
            proof {
                assert(ranges_view(v@, r@) =~= split_on(v@.subrange(lo as int, hi as int), c));
            }
            return r;
        }
        proof {
            assert(s.skip(e - pos + 1) =~= v@.subrange(e + 1, hi as int));
        }
        pos = e + 1;
        proof {
            assert(ranges_view(v@, r@) + split_on(v@.subrange(pos as int, hi as int), c)
                =~= split_on(v@.subrange(lo as int, hi as int), c));
        }
    }
}

} // verus!
