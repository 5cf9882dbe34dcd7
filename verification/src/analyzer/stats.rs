//! Line counts over the scanned files, in all and per language.
use vstd::prelude::*;
use crate::scanner::{files_view, Language, SourceFile, SourceFileView};
use super::describe::{language_key, language_key_of};

verus! {

/// The number of lines of all files.
pub open spec fn lines_total(fs: Seq<SourceFileView>) -> nat
    decreases fs.len(),
{
    if fs.len() == 0 {
        0
    } else {
        lines_total(fs.drop_last()) + fs.last().line_count
    }
}

/// The languages of the files, each once, in order of first occurrence.
pub open spec fn language_order(fs: Seq<SourceFileView>) -> Seq<Language>
    decreases fs.len(),
{
    if fs.len() == 0 {
        Seq::empty()
    } else {
        let o = language_order(fs.drop_last());
        if o.contains(fs.last().language) {
            o
        } else {
            o.push(fs.last().language)
        }
    }
}

/// The number of lines of the files of language `lang`.
pub open spec fn language_lines(fs: Seq<SourceFileView>, lang: Language) -> nat
    decreases fs.len(),
{
    if fs.len() == 0 {
        0
    } else {
        language_lines(fs.drop_last(), lang) + if fs.last().language == lang {
            fs.last().line_count
        } else {
            0
        }
    }
}

/// The number of lines per language, keyed by the language's lower-case name.
pub open spec fn language_stats(fs: Seq<SourceFileView>) -> Seq<(Seq<char>, nat)> {
    let order = language_order(fs);
    Seq::new(order.len(), |i: int| (language_key(order[i]), language_lines(fs, order[i])))
}

pub open spec fn stats_view(v: Seq<(String, usize)>) -> Seq<(Seq<char>, nat)> {
    Seq::new(v.len(), |i: int| (v[i].0@, v[i].1 as nat))
}

/// The sum of the lines per language over the languages `order`.
pub open spec fn sum_lines(order: Seq<Language>, fs: Seq<SourceFileView>) -> nat
    decreases order.len(),
{
    if order.len() == 0 {
        0
    } else {
        sum_lines(order.drop_last(), fs) + language_lines(fs, order.last())
    }
}

proof fn lemma_language_lines_absent(fs: Seq<SourceFileView>, lang: Language)
    requires
        !language_order(fs).contains(lang),
    ensures
        language_lines(fs, lang) == 0,
    decreases fs.len(),
{
    if fs.len() > 0 {
        let o = language_order(fs.drop_last());
        if o.contains(lang) {
            let k = choose|k: int| 0 <= k < o.len() && o[k] == lang;
            if !o.contains(fs.last().language) {
                assert(o.push(fs.last().language)[k] == lang);
            }
        }
        if fs.last().language == lang {
            if o.contains(lang) {
            } else {
                assert(o.push(lang)[o.len() as int] == lang);
            }
        }
        lemma_language_lines_absent(fs.drop_last(), lang);
    }
}

proof fn lemma_language_order_distinct(fs: Seq<SourceFileView>)
    ensures
        language_order(fs).no_duplicates(),
    decreases fs.len(),
{
    if fs.len() > 0 {
        lemma_language_order_distinct(fs.drop_last());
        let o = language_order(fs.drop_last());
        let l = fs.last().language;
        if !o.contains(l) {
            assert forall|i: int, j: int|
                0 <= i < o.push(l).len() && 0 <= j < o.push(l).len() && i != j implies o.push(l)[i]
                != o.push(l)[j] by {
                if i == o.len() {
                    assert(o.contains(o[j]));
                } else if j == o.len() {
                    assert(o.contains(o[i]));
                }
            }
        }
    }
}

/// Adding the last file to the sum over distinct languages `order`.
proof fn lemma_sum_lines_last(order: Seq<Language>, fs: Seq<SourceFileView>)
    requires
        fs.len() > 0,
        order.no_duplicates(),
    ensures
        sum_lines(order, fs) == sum_lines(order, fs.drop_last()) + if order.contains(
            fs.last().language,
        ) {
            fs.last().line_count
        } else {
            0
        },
    decreases order.len(),
{
    if order.len() > 0 {
        let rest = order.drop_last();
        assert(rest.no_duplicates());
        lemma_sum_lines_last(rest, fs);
        let l = fs.last().language;
        if order.last() == l {
            assert(!rest.contains(l)) by {
                if rest.contains(l) {
                    let k = choose|k: int| 0 <= k < rest.len() && rest[k] == l;
                    assert(order[k] == order[order.len() - 1]);
                }
            }
        } else {
            if order.contains(l) {
                let k = choose|k: int| 0 <= k < order.len() && order[k] == l;
                assert(rest[k] == l);
            }
            if rest.contains(l) {
                let k = choose|k: int| 0 <= k < rest.len() && rest[k] == l;
                assert(order[k] == l);
            }
        }
    }
}

/// The lines per language add up to the lines of all files.
pub proof fn lemma_language_stats_total(fs: Seq<SourceFileView>)
    ensures
        sum_lines(language_order(fs), fs) == lines_total(fs),
    decreases fs.len(),
{
    if fs.len() > 0 {
        let p = fs.drop_last();
        let l = fs.last().language;
        let o = language_order(p);
        lemma_language_stats_total(p);
        lemma_language_order_distinct(p);
        lemma_language_order_distinct(fs);
        lemma_sum_lines_last(language_order(fs), fs);
        if o.contains(l) {
        } else {
            lemma_language_lines_absent(p, l);
            assert(language_order(fs).drop_last() =~= o);
            lemma_sum_lines_last(o, fs);
        }
    }
}

proof fn lemma_language_lines_bound(fs: Seq<SourceFileView>, lang: Language)
    ensures
        language_lines(fs, lang) <= lines_total(fs),
    decreases fs.len(),
{
    if fs.len() > 0 {
        lemma_language_lines_bound(fs.drop_last(), lang);
    }
}

proof fn lemma_lines_total_prefix(fs: Seq<SourceFileView>, i: int)
    requires
        0 <= i <= fs.len(),
    ensures
        lines_total(fs.take(i)) <= lines_total(fs),
    decreases fs.len() - i,
{
    if i < fs.len() {
        lemma_lines_total_prefix(fs, i + 1);
        assert(fs.take(i + 1).drop_last() =~= fs.take(i));
    } else {
        assert(fs.take(i) =~= fs);
    }
}

/// The number of lines of all files, unless it does not fit in `usize`.
pub fn total_line_count(files: &Vec<SourceFile>) -> (r: Option<usize>)
    ensures
        r matches Some(n) ==> n == lines_total(files_view(files@)),
        r is None ==> lines_total(files_view(files@)) > usize::MAX,
{
    let ghost fv = files_view(files@);
    let mut total: usize = 0;
    let mut i: usize = 0;
    while i < files.len()
        invariant
            i <= files.len(),
            fv == files_view(files@),
            total == lines_total(fv.take(i as int)),
        decreases files.len() - i,
    {
        proof {
            assert(fv.take(i + 1).drop_last() =~= fv.take(i as int));
            assert(fv.take(i + 1).last() == files@[i as int]@);
        }
        match total.checked_add(files[i].line_count) {
            Some(t) => {
                total = t;
            },
            None => {
                proof {
                    lemma_lines_total_prefix(fv, i + 1);
                }
                return None;
            },
        }
        i = i + 1;
    }
    proof {
        assert(fv.take(files.len() as int) =~= fv);
    }
    Some(total)
}

/// The number of lines per language, languages in order of first occurrence.
pub fn count_language_lines(files: &Vec<SourceFile>) -> (r: Vec<(String, usize)>)
    requires
        lines_total(files_view(files@)) <= usize::MAX,
    ensures
        stats_view(r@) == language_stats(files_view(files@)),
{
    let ghost fv = files_view(files@);
    let mut acc: Vec<(Language, usize)> = Vec::new();
    let mut i: usize = 0;
    while i < files.len()
        invariant
            i <= files.len(),
            fv == files_view(files@),
            lines_total(fv) <= usize::MAX,
            acc@.len() == language_order(fv.take(i as int)).len(),
            forall|j: int|
                0 <= j < acc@.len() ==> #[trigger] acc@[j].0 == language_order(fv.take(i as int))[j]
                    && acc@[j].1 == language_lines(fv.take(i as int), acc@[j].0),
        decreases files.len() - i,
    {
        let ghost p = fv.take(i as int);
        let ghost q = fv.take(i + 1);
        let lang = files[i].language;
        let lines = files[i].line_count;
        proof {
            assert(q.drop_last() =~= p);
            assert(q.last() == files@[i as int]@);
            lemma_lines_total_prefix(fv, i + 1);
        }
        let mut k: usize = 0;
        while k < acc.len() && acc[k].0 != lang
            invariant
                k <= acc.len(),
                forall|j: int| 0 <= j < k ==> (#[trigger] acc@[j]).0 != lang,
            decreases acc.len() - k,
        {
            k = k + 1;
        }
        let ghost o = language_order(p);
        if k < acc.len() {
            proof {
                assert(o[k as int] == lang);
                assert(o.contains(lang));
                lemma_language_lines_bound(q, lang);
            }
            let (l, c) = acc[k];
            acc.set(k, (l, c + lines));
            proof {
                assert(language_order(q) == o);
                assert forall|j: int| 0 <= j < acc@.len() implies #[trigger] acc@[j].0
                    == language_order(q)[j] && acc@[j].1 == language_lines(q, acc@[j].0) by {
                    assert(language_lines(q, acc@[j].0) == language_lines(p, acc@[j].0) + if acc@[j].0
                        == lang {
                        lines as nat
                    } else {
                        0
                    });
                    if j != k {
                        assert(o[j] != lang) by {
                            lemma_language_order_distinct(p);
                        }
                    }
                }
            }
        } else {
            proof {
                assert(!o.contains(lang)) by {
                    if o.contains(lang) {
                        let j = choose|j: int| 0 <= j < o.len() && o[j] == lang;
                        assert(acc@[j].0 == lang);
                    }
                }
                lemma_language_lines_absent(p, lang);
                lemma_language_lines_bound(q, lang);
            }
            let ghost before = acc@;
            acc.push((lang, lines));
            proof {
                assert(language_order(q) == o.push(lang));
                assert forall|j: int| 0 <= j < acc@.len() implies #[trigger] acc@[j].0
                    == language_order(q)[j] && acc@[j].1 == language_lines(q, acc@[j].0) by {
                    assert(language_lines(q, acc@[j].0) == language_lines(p, acc@[j].0) + if acc@[j].0
                        == lang {
                        lines as nat
                    } else {
                        0
                    });
                    if j < before.len() {
                        assert(acc@[j] == before[j]);
                        assert(o[j] != lang);
                    }
                }
            }
        }
        i = i + 1;
    }
    proof {
        assert(fv.take(files.len() as int) =~= fv);
    }
    let mut r: Vec<(String, usize)> = Vec::new();
    let mut j: usize = 0;
    while j < acc.len()
        invariant
            j <= acc.len(),
            fv == files_view(files@),
            acc@.len() == language_order(fv).len(),
            forall|m: int|
                0 <= m < acc@.len() ==> #[trigger] acc@[m].0 == language_order(fv)[m] && acc@[m].1
                    == language_lines(fv, acc@[m].0),
            stats_view(r@) == language_stats(fv).take(j as int),
        decreases acc.len() - j,
    {
        let key = language_key_of(&acc[j].0);
        proof {
            assert(stats_view(r@.push((key, acc@[j as int].1))) =~= stats_view(r@).push(
                (key@, acc@[j as int].1 as nat),
            ));
            assert(language_stats(fv).take(j + 1) =~= language_stats(fv).take(j as int).push(
                language_stats(fv)[j as int],
            ));
        }
        r.push((key, acc[j].1));
        j = j + 1;
    }
    proof {
        assert(language_stats(fv).take(acc.len() as int) =~= language_stats(fv));
    }
    r
}

} // verus!
