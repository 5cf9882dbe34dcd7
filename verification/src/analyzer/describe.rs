//! One-line descriptions of modules: how many symbols of each kind a file
//! declares at its top level.
use vstd::prelude::*;
use vstd::relations::{sorted_by, total_ordering};
use crate::scanner::{kind_name, symbols_view, Language, Symbol, SymbolKind, SymbolView};
use crate::text::{decimal, join, owned, push_char, push_decimal, strings_view, to_chars, join_strings};
use super::{plural, pluralize};

verus! {

// ---------------------------------------------------------------------------
// Ordering of strings
// ---------------------------------------------------------------------------

/// Lexicographic order of character sequences (the order of `str`).
pub open spec fn str_le(a: Seq<char>, b: Seq<char>) -> bool
    decreases a.len(),
{
    if a.len() == 0 {
        true
    } else if b.len() == 0 {
        false
    } else if a[0] != b[0] {
        a[0] < b[0]
    } else {
        str_le(a.drop_first(), b.drop_first())
    }
}

pub open spec fn str_order() -> spec_fn(Seq<char>, Seq<char>) -> bool {
    |a: Seq<char>, b: Seq<char>| str_le(a, b)
}

proof fn lemma_str_le_reflexive(a: Seq<char>)
    ensures
        str_le(a, a),
    decreases a.len(),
{
    if a.len() > 0 {
        lemma_str_le_reflexive(a.drop_first());
    }
}

proof fn lemma_str_le_antisymmetric(a: Seq<char>, b: Seq<char>)
    requires
        str_le(a, b),
        str_le(b, a),
    ensures
        a == b,
    decreases a.len(),
{
    if a.len() > 0 && b.len() > 0 {
        lemma_str_le_antisymmetric(a.drop_first(), b.drop_first());
        assert(a =~= seq![a[0]] + a.drop_first());
        assert(b =~= seq![b[0]] + b.drop_first());
    } else {
        assert(a =~= b);
    }
}

proof fn lemma_str_le_transitive(a: Seq<char>, b: Seq<char>, c: Seq<char>)
    requires
        str_le(a, b),
        str_le(b, c),
    ensures
        str_le(a, c),
    decreases a.len(),
{
    if a.len() > 0 && b.len() > 0 && c.len() > 0 && a[0] == b[0] && b[0] == c[0] {
        lemma_str_le_transitive(a.drop_first(), b.drop_first(), c.drop_first());
    }
}

proof fn lemma_str_le_total(a: Seq<char>, b: Seq<char>)
    ensures
        str_le(a, b) || str_le(b, a),
    decreases a.len(),
{
    if a.len() > 0 && b.len() > 0 && a[0] == b[0] {
        lemma_str_le_total(a.drop_first(), b.drop_first());
    }
}

/// The order of strings is a total order.
pub proof fn lemma_str_order_total()
    ensures
        total_ordering(str_order()),
{
    assert forall|a: Seq<char>| #[trigger] str_order()(a, a) by {
        lemma_str_le_reflexive(a);
    }
    assert forall|a: Seq<char>, b: Seq<char>|
        #[trigger] str_order()(a, b) && #[trigger] str_order()(b, a) implies a == b by {
        lemma_str_le_antisymmetric(a, b);
    }
    assert forall|a: Seq<char>, b: Seq<char>, c: Seq<char>|
        #[trigger] str_order()(a, b) && #[trigger] str_order()(b, c) implies str_order()(a, c) by {
        lemma_str_le_transitive(a, b, c);
    }
    assert forall|a: Seq<char>, b: Seq<char>|
        #[trigger] str_order()(a, b) || #[trigger] str_order()(b, a) by {
        lemma_str_le_total(a, b);
    }
}

/// Whether `a` comes strictly before `b`.
fn chars_lt(a: &Vec<char>, b: &Vec<char>) -> (r: bool)
    ensures
        r == !str_le(b@, a@),
{
    let mut i: usize = 0;
    proof {
        assert(a@.skip(0) =~= a@);
        assert(b@.skip(0) =~= b@);
    }
    while i < a.len() && i < b.len()
        invariant
            i <= a.len(),
            i <= b.len(),
            forall|j: int| 0 <= j < i ==> a@[j] == b@[j],
            str_le(b@, a@) == str_le(b@.skip(i as int), a@.skip(i as int)),
        decreases a.len() - i,
    {
        proof {
            assert(a@.skip(i as int)[0] == a@[i as int]);
            assert(b@.skip(i as int)[0] == b@[i as int]);
            assert(a@.skip(i as int).drop_first() =~= a@.skip(i + 1));
            assert(b@.skip(i as int).drop_first() =~= b@.skip(i + 1));
        }
        if a[i] != b[i] {
            return a[i] < b[i];
        }
        i = i + 1;
    }
    i < b.len()
}

pub open spec fn chars_view(v: Seq<Vec<char>>) -> Seq<Seq<char>> {
    Seq::new(v.len(), |i: int| v[i]@)
}

/// Sorts character sequences in the order of `str`.
pub fn sort_chars(items: Vec<Vec<char>>) -> (r: Vec<Vec<char>>)
    ensures
        sorted_by(chars_view(r@), str_order()),
        chars_view(r@).to_multiset() == chars_view(items@).to_multiset(),
{
    proof {
        lemma_str_order_total();
    }
    let mut sorted: Vec<Vec<char>> = Vec::new();
    let mut items = items;
    let ghost orig = chars_view(items@);
    proof {
        assert(orig.skip(0) =~= orig);
        assert(chars_view(sorted@) =~= Seq::<Seq<char>>::empty());
        assert(orig.take(0) =~= Seq::<Seq<char>>::empty());
    }
    let n = items.len();
    let mut i: usize = 0;
    while i < n
        invariant
            i <= n,
            n == items.len(),
            orig == chars_view(items@),
            total_ordering(str_order()),
            sorted_by(chars_view(sorted@), str_order()),
            chars_view(sorted@).to_multiset() == orig.take(i as int).to_multiset(),
        decreases n - i,
    {
        let x = items[i].clone();
        // Find where `x` goes: after every element not greater than it.
        let mut p: usize = 0;
        while p < sorted.len() && !chars_lt(&x, &sorted[p])
            invariant
                p <= sorted.len(),
                forall|j: int| 0 <= j < p ==> str_le(chars_view(sorted@)[j], x@),
            decreases sorted.len() - p,
        {
            proof {
                assert(chars_view(sorted@)[p as int] == sorted@[p as int]@);
            }
            p = p + 1;
        }
        let ghost before = chars_view(sorted@);
        proof {
            if p < sorted.len() {
                assert(before[p as int] == sorted@[p as int]@);
            }
        }
        sorted.insert(p, x);
        proof {
            let after = chars_view(sorted@);
            assert(after =~= before.insert(p as int, x@));
            assert(orig[i as int] == x@);
            assert(orig.take(i + 1) =~= orig.take(i as int).push(x@));
            before.insert_ensures(p as int, x@);
            vstd::seq_lib::to_multiset_insert(before, p as int, x@);
            vstd::seq_lib::to_multiset_build(orig.take(i as int), x@);
            assert forall|a: int, b: int| 0 <= a < b < after.len() implies #[trigger] str_order()(
                after[a],
                after[b],
            ) by {
                if b < p {
                    assert(after[a] == before[a] && after[b] == before[b]);
                } else if b == p {
                    assert(after[a] == before[a]);
                } else if a == p {
                    assert(after[b] == before[b - 1]);
                    if p < before.len() {
                        assert(!str_le(before[p as int], x@));
                        lemma_str_le_total(before[p as int], x@);
                        if b - 1 > p {
                            assert(str_order()(before[p as int], before[b - 1]));
                        } else {
                            lemma_str_le_reflexive(before[p as int]);
                        }
                        lemma_str_le_transitive(x@, before[p as int], before[b - 1]);
                    }
                } else if a < p {
                    assert(after[a] == before[a] && after[b] == before[b - 1]);
                    if a < b - 1 {
                        assert(str_order()(before[a], before[b - 1]));
                    }
                } else {
                    assert(after[a] == before[a - 1] && after[b] == before[b - 1]);
                    assert(str_order()(before[a - 1], before[b - 1]));
                }
            }
        }
        i = i + 1;
    }
    proof {
        assert(orig.take(n as int) =~= orig);
    }
    sorted
}

// ---------------------------------------------------------------------------
// Descriptions
// ---------------------------------------------------------------------------

/// How a language is shown (`{:?}`).
pub open spec fn language_title(lang: Language) -> Seq<char> {
    match lang {
        Language::TypeScript => "TypeScript"@,
        Language::JavaScript => "JavaScript"@,
        Language::Python => "Python"@,
        Language::Rust => "Rust"@,
        Language::Go => "Go"@,
        Language::Unknown => "Unknown"@,
    }
}

/// The name of a language in lower case.
pub open spec fn language_key(lang: Language) -> Seq<char> {
    match lang {
        Language::TypeScript => "typescript"@,
        Language::JavaScript => "javascript"@,
        Language::Python => "python"@,
        Language::Rust => "rust"@,
        Language::Go => "go"@,
        Language::Unknown => "unknown"@,
    }
}

pub fn language_title_of(lang: &Language) -> (r: String)
    ensures
        r@ == language_title(*lang),
{
    match lang {
        Language::TypeScript => owned("TypeScript"),
        Language::JavaScript => owned("JavaScript"),
        Language::Python => owned("Python"),
        Language::Rust => owned("Rust"),
        Language::Go => owned("Go"),
        Language::Unknown => owned("Unknown"),
    }
}

pub fn language_key_of(lang: &Language) -> (r: String)
    ensures
        r@ == language_key(*lang),
{
    match lang {
        Language::TypeScript => owned("typescript"),
        Language::JavaScript => owned("javascript"),
        Language::Python => owned("python"),
        Language::Rust => owned("rust"),
        Language::Go => owned("go"),
        Language::Unknown => owned("unknown"),
    }
}

/// Every kind of symbol, once.
pub open spec fn all_kinds() -> Seq<SymbolKind> {
    seq![
        SymbolKind::Function,
        SymbolKind::Class,
        SymbolKind::Struct,
        SymbolKind::Interface,
        SymbolKind::Impl,
        SymbolKind::Enum,
        SymbolKind::TypeAlias,
        SymbolKind::Field,
        SymbolKind::Method,
        SymbolKind::Trait,
        SymbolKind::Macro,
        SymbolKind::Constant,
        SymbolKind::Module,
        SymbolKind::Variable,
    ]
}

pub open spec fn kind_index(k: SymbolKind) -> int {
    match k {
        SymbolKind::Function => 0,
        SymbolKind::Class => 1,
        SymbolKind::Struct => 2,
        SymbolKind::Interface => 3,
        SymbolKind::Impl => 4,
        SymbolKind::Enum => 5,
        SymbolKind::TypeAlias => 6,
        SymbolKind::Field => 7,
        SymbolKind::Method => 8,
        SymbolKind::Trait => 9,
        SymbolKind::Macro => 10,
        SymbolKind::Constant => 11,
        SymbolKind::Module => 12,
        SymbolKind::Variable => 13,
    }
}

fn kind_position(k: &SymbolKind) -> (r: usize)
    ensures
        r == kind_index(*k),
        r < 14,
        all_kinds()[r as int] == *k,
{
    match k {
        SymbolKind::Function => 0,
        SymbolKind::Class => 1,
        SymbolKind::Struct => 2,
        SymbolKind::Interface => 3,
        SymbolKind::Impl => 4,
        SymbolKind::Enum => 5,
        SymbolKind::TypeAlias => 6,
        SymbolKind::Field => 7,
        SymbolKind::Method => 8,
        SymbolKind::Trait => 9,
        SymbolKind::Macro => 10,
        SymbolKind::Constant => 11,
        SymbolKind::Module => 12,
        SymbolKind::Variable => 13,
    }
}

fn kind_at(i: usize) -> (r: SymbolKind)
    requires
        i < 14,
    ensures
        r == all_kinds()[i as int],
{
    if i == 0 {
        SymbolKind::Function
    } else if i == 1 {
        SymbolKind::Class
    } else if i == 2 {
        SymbolKind::Struct
    } else if i == 3 {
        SymbolKind::Interface
    } else if i == 4 {
        SymbolKind::Impl
    } else if i == 5 {
        SymbolKind::Enum
    } else if i == 6 {
        SymbolKind::TypeAlias
    } else if i == 7 {
        SymbolKind::Field
    } else if i == 8 {
        SymbolKind::Method
    } else if i == 9 {
        SymbolKind::Trait
    } else if i == 10 {
        SymbolKind::Macro
    } else if i == 11 {
        SymbolKind::Constant
    } else if i == 12 {
        SymbolKind::Module
    } else {
        SymbolKind::Variable
    }
}

/// Number of symbols of kind `k` in `syms`.
pub open spec fn kind_count(syms: Seq<SymbolView>, k: SymbolKind) -> nat
    decreases syms.len(),
{
    if syms.len() == 0 {
        0
    } else {
        kind_count(syms.drop_last(), k) + if syms.last().kind == k {
            1nat
        } else {
            0nat
        }
    }
}

proof fn lemma_kind_count_bound(syms: Seq<SymbolView>, k: SymbolKind)
    ensures
        kind_count(syms, k) <= syms.len(),
    decreases syms.len(),
{
    if syms.len() > 0 {
        lemma_kind_count_bound(syms.drop_last(), k);
    }
}

/// `"<count> <kind in the plural>"`, as a module description lists it.
pub open spec fn kind_part(k: SymbolKind, count: nat) -> Seq<char> {
    decimal(count) + " "@ + plural(kind_name(k), count)
}

/// One part for each of `ks` that occurs in `syms`.
pub open spec fn parts_for(ks: Seq<SymbolKind>, syms: Seq<SymbolView>) -> Seq<Seq<char>>
    decreases ks.len(),
{
    if ks.len() == 0 {
        Seq::empty()
    } else {
        let rest = parts_for(ks.drop_last(), syms);
        let n = kind_count(syms, ks.last());
        if n > 0 {
            rest.push(kind_part(ks.last(), n))
        } else {
            rest
        }
    }
}

/// The description of a module of language `lang` whose top-level symbols
/// are `syms`: the number of symbols of each kind, sorted as strings.
pub open spec fn module_description(lang: Language, syms: Seq<SymbolView>) -> Seq<char> {
    if syms.len() == 0 {
        language_key(lang) + " source file"@
    } else {
        language_title(lang) + " module with "@ + join(
            parts_for(all_kinds(), syms).sort_by(str_order()),
            ", "@,
        )
    }
}

/// The description of a module of language `lang` whose top-level symbols
/// are `symbols`.
pub fn describe_module(lang: &Language, symbols: &Vec<Symbol>) -> (r: String)
    ensures
        r@ == module_description(*lang, symbols_view(symbols@)),
{
    let ghost sv = symbols_view(symbols@);
    if symbols.len() == 0 {
        let mut r = language_key_of(lang);
        r.append(" source file");
        return r;
    }
    // Count the symbols of each kind.
    let mut counts: Vec<usize> = vec![0, 0, 0, 0, 0, 0, 0, 0, 0, 0, 0, 0, 0, 0];
    let mut i: usize = 0;
    while i < symbols.len()
        invariant
            i <= symbols.len(),
            sv == symbols_view(symbols@),
            counts@.len() == 14,
            forall|j: int| 0 <= j < 14 ==> #[trigger] counts@[j] == kind_count(sv.take(i as int), all_kinds()[j]),
        decreases symbols.len() - i,
    {
        let p = kind_position(&symbols[i].kind);
        proof {
            assert(sv.take(i + 1).drop_last() =~= sv.take(i as int));
            assert(sv.take(i + 1).last() == sv[i as int]);
            assert(sv[i as int].kind == symbols@[i as int].kind);
            assert forall|j: int| 0 <= j < 14 implies kind_count(sv.take(i + 1), all_kinds()[j])
                == kind_count(sv.take(i as int), all_kinds()[j]) + if j == p {
                1nat
            } else {
                0nat
            } by {}
            lemma_kind_count_bound(sv.take(i as int), all_kinds()[p as int]);
        }
        let c = counts[p];
        counts.set(p, c + 1);
        i = i + 1;
    }
    proof {
        assert(sv.take(symbols.len() as int) =~= sv);
    }
    // One part for each kind that occurs.
    let mut parts: Vec<Vec<char>> = Vec::new();
    let mut k: usize = 0;
    while k < 14
        invariant
            k <= 14,
            counts@.len() == 14,
            forall|j: int| 0 <= j < 14 ==> #[trigger] counts@[j] == kind_count(sv, all_kinds()[j]),
            chars_view(parts@) == parts_for(all_kinds().take(k as int), sv),
        decreases 14 - k,
    {
        let kind = kind_at(k);
        proof {
            assert(all_kinds().take(k + 1).drop_last() =~= all_kinds().take(k as int));
            assert(all_kinds().take(k + 1).last() == kind);
        }
        if counts[k] > 0 {
            let n = counts[k];
            let mut s = String::new();
            push_decimal(&mut s, n);
            push_char(&mut s, ' ');
            let word = kind.to_string();
            let pl = pluralize(word.as_str(), n);
            s.append(pl.as_str());
            let part = to_chars(s.as_str());
            proof {
                reveal_strlit(" ");
                assert(part@ =~= kind_part(kind, n as nat));
                assert(chars_view(parts@.push(part)) =~= chars_view(parts@).push(part@));
            }
            parts.push(part);
        }
        k = k + 1;
    }
    proof {
        assert(all_kinds().take(14) =~= all_kinds());
    }
    let ghost unsorted = chars_view(parts@);
    let sorted = sort_chars(parts);
    proof {
        lemma_str_order_total();
        unsorted.lemma_sort_by_ensures(str_order());
        vstd::seq_lib::lemma_sorted_unique(
            chars_view(sorted@),
            unsorted.sort_by(str_order()),
            str_order(),
        );
    }
    // Join the parts.
    let mut strings: Vec<String> = Vec::new();
    let mut j: usize = 0;
    while j < sorted.len()
        invariant
            j <= sorted.len(),
            strings_view(strings@) == chars_view(sorted@).take(j as int),
        decreases sorted.len() - j,
    {
        let s = crate::text::string_of(&sorted[j], 0, sorted[j].len());
        proof {
            assert(sorted@[j as int]@.subrange(0, sorted@[j as int]@.len() as int) =~= sorted@[j as int]@);
            assert(chars_view(sorted@)[j as int] == sorted@[j as int]@);
            assert(chars_view(sorted@).take(j + 1) =~= chars_view(sorted@).take(j as int).push(
                sorted@[j as int]@,
            ));
            assert(strings_view(strings@.push(s)) =~= strings_view(strings@).push(s@));
        }
        strings.push(s);
        j = j + 1;
    }
    proof {
        assert(chars_view(sorted@).take(sorted.len() as int) =~= chars_view(sorted@));
    }
    let joined = join_strings(&strings, ", ");
    let mut r = language_title_of(lang);
    r.append(" module with ");
    r.append(joined.as_str());
    r
}

// ---------------------------------------------------------------------------
// Laws
// ---------------------------------------------------------------------------

proof fn lemma_kind_count_remove(s: Seq<SymbolView>, i: int, k: SymbolKind)
    requires
        0 <= i < s.len(),
    ensures
        kind_count(s, k) == kind_count(s.remove(i), k) + if s[i].kind == k {
            1nat
        } else {
            0nat
        },
    decreases s.len(),
{
    if i == s.len() - 1 {
        assert(s.remove(i) =~= s.drop_last());
    } else {
        lemma_kind_count_remove(s.drop_last(), i, k);
        assert(s.remove(i).drop_last() =~= s.drop_last().remove(i));
        assert(s.remove(i).last() == s.last());
    }
}

proof fn lemma_kind_count_permutation(a: Seq<SymbolView>, b: Seq<SymbolView>, k: SymbolKind)
    requires
        a.to_multiset() == b.to_multiset(),
    ensures
        kind_count(a, k) == kind_count(b, k),
    decreases a.len(),
{
    broadcast use vstd::seq_lib::group_to_multiset_ensures;
    broadcast use vstd::multiset::group_multiset_axioms;

    if a.len() == 0 {
        assert(b.to_multiset().len() == 0);
        assert(b.len() == 0);
        assert(b =~= a);
    } else {
        let x = a.last();
        assert(a.to_multiset().count(x) > 0) by {
            assert(a.contains(x)) by {
                assert(a[a.len() - 1] == x);
            }
        }
        assert(b.contains(x));
        let i = choose|i: int| 0 <= i < b.len() && b[i] == x;
        assert(a =~= a.drop_last().push(x));
        assert(a.drop_last().to_multiset() =~= a.to_multiset().remove(x));
        assert(b.remove(i).to_multiset() =~= b.to_multiset().remove(x));
        lemma_kind_count_permutation(a.drop_last(), b.remove(i), k);
        lemma_kind_count_remove(b, i, k);
    }
}

proof fn lemma_parts_for_permutation(ks: Seq<SymbolKind>, a: Seq<SymbolView>, b: Seq<SymbolView>)
    requires
        a.to_multiset() == b.to_multiset(),
    ensures
        parts_for(ks, a) == parts_for(ks, b),
    decreases ks.len(),
{
    if ks.len() > 0 {
        lemma_parts_for_permutation(ks.drop_last(), a, b);
        lemma_kind_count_permutation(a, b, ks.last());
    }
}

/// The description of a module does not depend on the order of its
/// top-level symbols.
pub proof fn lemma_description_order_free(lang: Language, a: Seq<SymbolView>, b: Seq<SymbolView>)
    requires
        a.to_multiset() == b.to_multiset(),
    ensures
        module_description(lang, a) == module_description(lang, b),
{
    broadcast use vstd::seq_lib::group_to_multiset_ensures;

    assert(a.len() == a.to_multiset().len());
    assert(b.len() == b.to_multiset().len());
    lemma_parts_for_permutation(all_kinds(), a, b);
}

} // verus!
