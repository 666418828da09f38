//! Aggregate language statistics over a set of [`FileEntry`] values.
use vstd::prelude::*;

use super::walk::FileEntry;
use crate::domain::types::{Language, LanguageView};

verus! {

/// Lines of code per detected language across the repository, one entry per
/// language, in the order the languages were first met.
#[derive(Debug, Clone, Default)]
pub struct LanguageStats {
    pub language_counts: Vec<(Language, usize)>,
}

/// An entry that counts toward the statistics: classified, and neither
/// binary nor generated.
pub open spec fn is_counted(e: FileEntry) -> bool {
    !e.is_binary && !e.is_generated && e.language is Some
}

/// Lines of code of the counted entries in `language`.
pub open spec fn loc_in(entries: Seq<FileEntry>, language: LanguageView) -> int
    decreases entries.len(),
{
    if entries.len() == 0 {
        0
    } else {
        let e = entries.last();
        loc_in(entries.drop_last(), language) + if is_counted(e) && e.language->0@ == language {
            e.loc as int
        } else {
            0
        }
    }
}

/// Lines of code of all counted entries.
pub open spec fn counted_loc(entries: Seq<FileEntry>) -> int
    decreases entries.len(),
{
    if entries.len() == 0 {
        0
    } else {
        let e = entries.last();
        counted_loc(entries.drop_last()) + if is_counted(e) {
            e.loc as int
        } else {
            0
        }
    }
}

/// The sum of the counts of a statistics list.
pub open spec fn sum_counts(counts: Seq<(Language, usize)>) -> int
    decreases counts.len(),
{
    if counts.len() == 0 {
        0
    } else {
        sum_counts(counts.drop_last()) + counts.last().1 as int
    }
}

/// Some counted entry is in `language`.
pub open spec fn has_language(entries: Seq<FileEntry>, language: LanguageView) -> bool {
    exists|k: int|
        0 <= k < entries.len() && is_counted(entries[k]) && (#[trigger] entries[k]).language->0@
            == language
}

/// What `compute_language_stats` yields for `entries`: one entry per
/// language of a counted file, no language twice, each with the lines of
/// code of the counted files in it, summing to all counted lines.
pub open spec fn stats_of(counts: Seq<(Language, usize)>, entries: Seq<FileEntry>) -> bool {
    &&& forall|i: int, j: int| 0 <= i < j < counts.len() ==> counts[i].0@ != counts[j].0@
    &&& forall|i: int|
        0 <= i < counts.len() ==> (#[trigger] counts[i]).1 as int == loc_in(entries, counts[i].0@)
    &&& forall|l: LanguageView|
        has_language(entries, l) <==> exists|i: int| 0 <= i < counts.len() && (#[trigger] counts[i]).0@ == l
    &&& sum_counts(counts) == counted_loc(entries)
}

pub(crate) proof fn lemma_loc_in_bounded(entries: Seq<FileEntry>, l: LanguageView)
    ensures
        0 <= loc_in(entries, l) <= counted_loc(entries),
    decreases entries.len(),
{
    if entries.len() > 0 {
        lemma_loc_in_bounded(entries.drop_last(), l);
    }
}

proof fn lemma_loc_in_prefix(entries: Seq<FileEntry>, i: int, l: LanguageView)
    requires
        0 <= i <= entries.len(),
    ensures
        0 <= loc_in(entries.subrange(0, i), l) <= loc_in(entries, l),
    decreases entries.len() - i,
{
    if i < entries.len() {
        lemma_loc_in_prefix(entries, i + 1, l);
        assert(entries.subrange(0, i + 1).drop_last() =~= entries.subrange(0, i));
    } else {
        assert(entries.subrange(0, i) =~= entries);
    }
    lemma_loc_in_bounded(entries.subrange(0, i), l);
}

proof fn lemma_sum_update(counts: Seq<(Language, usize)>, u: Seq<(Language, usize)>, k: int)
    requires
        0 <= k < counts.len(),
        u.len() == counts.len(),
        forall|j: int| 0 <= j < counts.len() && j != k ==> u[j].1 == counts[j].1,
    ensures
        sum_counts(u) == sum_counts(counts) - counts[k].1 + u[k].1,
    decreases counts.len(),
{
    if k == counts.len() - 1 {
        lemma_sum_same(counts.drop_last(), u.drop_last());
    } else {
        lemma_sum_update(counts.drop_last(), u.drop_last(), k);
    }
}

proof fn lemma_sum_same(a: Seq<(Language, usize)>, b: Seq<(Language, usize)>)
    requires
        a.len() == b.len(),
        forall|j: int| 0 <= j < a.len() ==> b[j].1 == a[j].1,
    ensures
        sum_counts(a) == sum_counts(b),
    decreases a.len(),
{
    if a.len() > 0 {
        lemma_sum_same(a.drop_last(), b.drop_last());
    }
}

proof fn lemma_sum_nonneg(counts: Seq<(Language, usize)>)
    ensures
        sum_counts(counts) >= 0,
    decreases counts.len(),
{
    if counts.len() > 0 {
        lemma_sum_nonneg(counts.drop_last());
    }
}

impl LanguageStats {
    /// Total lines of code across all languages.
    pub fn total_loc(&self) -> (r: usize)
        requires
            sum_counts(self.language_counts@) <= usize::MAX,
        ensures
            r == sum_counts(self.language_counts@),
    {
        let mut total: usize = 0;
        let mut i: usize = 0;
        while i < self.language_counts.len()
            invariant
                i <= self.language_counts@.len(),
                total == sum_counts(self.language_counts@.subrange(0, i as int)),
                sum_counts(self.language_counts@) <= usize::MAX,
            decreases self.language_counts.len() - i,
        {
            proof {
                let c = self.language_counts@;
                assert(c.subrange(0, i + 1).drop_last() =~= c.subrange(0, i as int));
                lemma_sum_prefix(c, i + 1);
            }
            total = total + self.language_counts[i].1;
            i = i + 1;
        }
        assert(self.language_counts@.subrange(0, i as int) =~= self.language_counts@);
        total
    }
}

proof fn lemma_sum_prefix(counts: Seq<(Language, usize)>, i: int)
    requires
        0 <= i <= counts.len(),
    ensures
        sum_counts(counts.subrange(0, i)) <= sum_counts(counts),
    decreases counts.len() - i,
{
    if i < counts.len() {
        lemma_sum_prefix(counts, i + 1);
        assert(counts.subrange(0, i + 1).drop_last() =~= counts.subrange(0, i));
    } else {
        assert(counts.subrange(0, i) =~= counts);
    }
}

/// Aggregate lines of code per language from the walked file entries.
/// Binary, generated and unclassified files contribute nothing.
pub fn compute_language_stats(entries: &[FileEntry]) -> (r: LanguageStats)
    requires
        forall|l: LanguageView| #[trigger] loc_in(entries@, l) <= usize::MAX,
    ensures
        stats_of(r.language_counts@, entries@),
{
    let mut counts: Vec<(Language, usize)> = Vec::new();
    let mut i: usize = 0;
    assert(entries@.subrange(0, 0) =~= Seq::<FileEntry>::empty());
    while i < entries.len()
        invariant
            i <= entries@.len(),
            forall|l: LanguageView| #[trigger] loc_in(entries@, l) <= usize::MAX,
            stats_of(counts@, entries@.subrange(0, i as int)),
        decreases entries.len() - i,
    {
        let ghost pre = entries@.subrange(0, i as int);
        let ghost nxt = entries@.subrange(0, i + 1);
        assert(nxt.drop_last() =~= pre);
        let e = &entries[i];
        assert(nxt.last() == *e);
        if !e.is_binary && !e.is_generated {
            match &e.language {
                Some(lang) => {
                    let mut k: usize = 0;
                    while k < counts.len()
                        invariant
                            k <= counts@.len(),
                            forall|j: int| 0 <= j < k ==> counts@[j].0@ != lang@,
                        ensures
                            k <= counts@.len(),
                            forall|j: int| 0 <= j < k ==> counts@[j].0@ != lang@,
                            k < counts@.len() ==> counts@[k as int].0@ == lang@,
                        decreases counts.len() - k,
                    {
                        if counts[k].0.same_as(lang) {
                            break;
                        }
                        k = k + 1;
                    }
                    let found = k < counts.len();
                    if found {
                        let ghost old_counts = counts@;
                        let v = counts[k].1;
                        proof {
                            lemma_loc_in_prefix(entries@, i + 1, lang@);
                            assert(loc_in(entries@, lang@) <= usize::MAX);
                            assert(loc_in(nxt, lang@) == loc_in(pre, lang@) + e.loc);
                        }
                        let nl = counts[k].0.duplicate();
                        counts.set(k, (nl, v + e.loc));
                        proof {
                            assert(forall|j: int|
                                0 <= j < counts@.len() ==> (#[trigger] counts@[j]).0@
                                    == old_counts[j].0@);
                            lemma_sum_update(old_counts, counts@, k as int);
                            assert forall|l: LanguageView|
                                has_language(nxt, l) <==> exists|j: int|
                                    0 <= j < counts@.len() && (#[trigger] counts@[j]).0@ == l by {
                                if has_language(nxt, l) {
                                    let w = choose|w: int|
                                        0 <= w < nxt.len() && is_counted(nxt[w]) && (
                                        #[trigger] nxt[w]).language->0@ == l;
                                    if w < pre.len() {
                                        assert(pre[w] == nxt[w]);
                                        assert(has_language(pre, l));
                                        let j = choose|j: int|
                                            0 <= j < old_counts.len() && (
                                            #[trigger] old_counts[j]).0@ == l;
                                        assert(counts@[j].0@ == l);
                                    } else {
                                        assert(counts@[k as int].0@ == l);
                                    }
                                }
                                if exists|j: int|
                                    0 <= j < counts@.len() && (#[trigger] counts@[j]).0@ == l {
                                    let j = choose|j: int|
                                        0 <= j < counts@.len() && (#[trigger] counts@[j]).0@ == l;
                                    assert(old_counts[j].0@ == l);
                                    assert(has_language(pre, l));
                                    let w = choose|w: int|
                                        0 <= w < pre.len() && is_counted(pre[w]) && (
                                        #[trigger] pre[w]).language->0@ == l;
                                    assert(nxt[w] == pre[w]);
                                }
                            }
                            assert forall|j: int| 0 <= j < counts@.len() implies (
                            #[trigger] counts@[j]).1 as int == loc_in(nxt, counts@[j].0@) by {
                                if j != k {
                                    assert(old_counts[j].0@ != lang@);
                                }
                            }
                        }
                    } else {
                        let ghost old_counts = counts@;
                        proof {
                            lemma_loc_in_bounded(nxt, lang@);
                            assert(!has_language(pre, lang@));
                            lemma_loc_zero(pre, lang@);
                        }
                        counts.push((lang.duplicate(), e.loc));
                        proof {
                            assert(counts@.drop_last() =~= old_counts);
                            assert forall|l: LanguageView|
                                has_language(nxt, l) <==> exists|j: int|
                                    0 <= j < counts@.len() && (#[trigger] counts@[j]).0@ == l by {
                                if has_language(nxt, l) {
                                    let w = choose|w: int|
                                        0 <= w < nxt.len() && is_counted(nxt[w]) && (
                                        #[trigger] nxt[w]).language->0@ == l;
                                    if w < pre.len() {
                                        assert(pre[w] == nxt[w]);
                                        assert(has_language(pre, l));
                                        let j = choose|j: int|
                                            0 <= j < old_counts.len() && (
                                            #[trigger] old_counts[j]).0@ == l;
                                        assert(counts@[j].0@ == l);
                                    } else {
                                        assert(counts@[old_counts.len() as int].0@ == l);
                                    }
                                }
                                if exists|j: int|
                                    0 <= j < counts@.len() && (#[trigger] counts@[j]).0@ == l {
                                    let j = choose|j: int|
                                        0 <= j < counts@.len() && (#[trigger] counts@[j]).0@ == l;
                                    if j < old_counts.len() {
                                        assert(old_counts[j].0@ == l);
                                        assert(has_language(pre, l));
                                        let w = choose|w: int|
                                            0 <= w < pre.len() && is_counted(pre[w]) && (
                                            #[trigger] pre[w]).language->0@ == l;
                                        assert(nxt[w] == pre[w]);
                                    } else {
                                        assert(nxt[pre.len() as int] == *e);
                                    }
                                }
                            }
                            assert forall|j: int| 0 <= j < counts@.len() implies (
                            #[trigger] counts@[j]).1 as int == loc_in(nxt, counts@[j].0@) by {
                                if j < old_counts.len() {
                                    assert(old_counts[j].0@ != lang@);
                                }
                            }
                        }
                    }
                },
                None => {
                    proof {
                        lemma_stats_unchanged(counts@, pre, nxt);
                    }
                },
            }
        } else {
            proof {
                lemma_stats_unchanged(counts@, pre, nxt);
            }
        }
        i = i + 1;
    }
    assert(entries@.subrange(0, entries@.len() as int) =~= entries@);
    LanguageStats { language_counts: counts }
}

proof fn lemma_loc_zero(entries: Seq<FileEntry>, l: LanguageView)
    requires
        !has_language(entries, l),
    ensures
        loc_in(entries, l) == 0,
    decreases entries.len(),
{
    if entries.len() > 0 {
        let p = entries.drop_last();
        assert(!has_language(p, l)) by {
            if has_language(p, l) {
                let w = choose|w: int|
                    0 <= w < p.len() && is_counted(p[w]) && (#[trigger] p[w]).language->0@ == l;
                assert(entries[w] == p[w]);
            }
        }
        lemma_loc_zero(p, l);
        assert(!(is_counted(entries.last()) && entries.last().language->0@ == l)) by {
            if is_counted(entries.last()) && entries.last().language->0@ == l {
                assert(entries[entries.len() - 1] == entries.last());
            }
        }
    }
}

proof fn lemma_stats_unchanged(
    counts: Seq<(Language, usize)>,
    pre: Seq<FileEntry>,
    nxt: Seq<FileEntry>,
)
    requires
        nxt.len() == pre.len() + 1,
        nxt.drop_last() == pre,
        !is_counted(nxt.last()),
        stats_of(counts, pre),
    ensures
        stats_of(counts, nxt),
{
    assert forall|l: LanguageView| has_language(nxt, l) <==> has_language(pre, l) by {
        if has_language(nxt, l) {
            let w = choose|w: int|
                0 <= w < nxt.len() && is_counted(nxt[w]) && (#[trigger] nxt[w]).language->0@ == l;
            assert(w != nxt.len() - 1);
            assert(pre[w] == nxt[w]);
        }
        if has_language(pre, l) {
            let w = choose|w: int|
                0 <= w < pre.len() && is_counted(pre[w]) && (#[trigger] pre[w]).language->0@ == l;
            assert(nxt[w] == pre[w]);
        }
    }
}

} // verus!
