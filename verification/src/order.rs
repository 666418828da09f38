//! The order of strings (`String`'s `Ord`: lexicographic by code point,
//! which is also the order of their UTF-8 bytes), its laws, and sorted sets
//! of strings.
use vstd::prelude::*;

use crate::text::{chars_of, seq_eq, string_of};

verus! {

/// `a` sorts strictly before `b`.
pub open spec fn seq_lt(a: Seq<char>, b: Seq<char>) -> bool
    decreases a.len(),
{
    if a.len() == 0 {
        b.len() > 0
    } else if b.len() == 0 {
        false
    } else if a[0] != b[0] {
        a[0] < b[0]
    } else {
        seq_lt(a.drop_first(), b.drop_first())
    }
}

/// No string sorts before itself.
pub proof fn lemma_lt_irreflexive(a: Seq<char>)
    ensures
        !seq_lt(a, a),
    decreases a.len(),
{
    if a.len() > 0 {
        lemma_lt_irreflexive(a.drop_first());
    }
}

/// Of two different strings, one sorts before the other, and never both.
pub proof fn lemma_lt_total(a: Seq<char>, b: Seq<char>)
    ensures
        a != b ==> (seq_lt(a, b) || seq_lt(b, a)),
        !(seq_lt(a, b) && seq_lt(b, a)),
    decreases a.len(),
{
    if a.len() > 0 && b.len() > 0 {
        lemma_lt_total(a.drop_first(), b.drop_first());
        if a[0] == b[0] && a.drop_first() == b.drop_first() {
            assert(a =~= seq![a[0]] + a.drop_first());
            assert(b =~= seq![b[0]] + b.drop_first());
        }
    } else if a.len() == 0 && b.len() == 0 {
        assert(a =~= b);
    }
}

/// The order is transitive.
pub proof fn lemma_lt_transitive(a: Seq<char>, b: Seq<char>, c: Seq<char>)
    requires
        seq_lt(a, b),
        seq_lt(b, c),
    ensures
        seq_lt(a, c),
    decreases a.len(),
{
    if a.len() > 0 && b.len() > 0 && c.len() > 0 {
        if a[0] == b[0] && b[0] == c[0] {
            lemma_lt_transitive(a.drop_first(), b.drop_first(), c.drop_first());
        }
    }
}

/// Whether `a` sorts strictly before `b`.
pub fn lex_less(a: &Vec<char>, b: &Vec<char>) -> (r: bool)
    ensures
        r == seq_lt(a@, b@),
{
    let mut i: usize = 0;
    assert(a@.subrange(0, a@.len() as int) =~= a@);
    assert(b@.subrange(0, b@.len() as int) =~= b@);
    while i < a.len() && i < b.len() && a[i] == b[i]
        invariant
            i <= a@.len(),
            i <= b@.len(),
            seq_lt(a@, b@) == seq_lt(a@.subrange(i as int, a@.len() as int), b@.subrange(
                i as int,
                b@.len() as int,
            )),
        decreases a.len() - i,
    {
        let ghost sa = a@.subrange(i as int, a@.len() as int);
        let ghost sb = b@.subrange(i as int, b@.len() as int);
        assert(sa.drop_first() =~= a@.subrange(i + 1, a@.len() as int));
        assert(sb.drop_first() =~= b@.subrange(i + 1, b@.len() as int));
        i = i + 1;
    }
    if i == a.len() {
        i < b.len()
    } else if i == b.len() {
        false
    } else {
        a[i] < b[i]
    }
}

/// A sequence of strings in strictly increasing order.
pub open spec fn strictly_sorted(s: Seq<Seq<char>>) -> bool {
    forall|i: int, j: int| 0 <= i < j < s.len() ==> seq_lt(#[trigger] s[i], #[trigger] s[j])
}

/// The views of a list of strings.
pub open spec fn views(v: Seq<String>) -> Seq<Seq<char>> {
    v.map_values(|s: String| s@)
}

/// Insert `x` into the strictly sorted `set`, unless it is already there.
pub fn insert_sorted_unique(set: &mut Vec<String>, x: &Vec<char>)
    requires
        strictly_sorted(views(old(set)@)),
    ensures
        strictly_sorted(views(final(set)@)),
        forall|s: Seq<char>|
            views(final(set)@).contains(s) <==> (views(old(set)@).contains(s) || s == x@),
{
    let mut k: usize = 0;
    while k < set.len()
        invariant
            k <= set@.len(),
            strictly_sorted(views(set@)),
            forall|j: int| 0 <= j < k ==> seq_lt(#[trigger] views(set@)[j], x@),
        ensures
            k <= set@.len(),
            forall|j: int| 0 <= j < k ==> seq_lt(#[trigger] views(set@)[j], x@),
            k < set@.len() ==> !seq_lt(views(set@)[k as int], x@),
        decreases set.len() - k,
    {
        let cur = chars_of(set[k].as_str());
        if !lex_less(&cur, x) {
            break;
        }
        k = k + 1;
    }
    let ghost before = views(set@);
    if k < set.len() {
        let cur = chars_of(set[k].as_str());
        if seq_eq(&cur, x) {
            return;
        }
    }
    let ghost oldv = set@;
    proof {
        if k < before.len() {
            lemma_lt_total(before[k as int], x@);
            assert(seq_lt(x@, before[k as int]));
        }
    }
    set.insert(k, string_of(x));
    proof {
        let after = views(set@);
        assert(after =~= before.insert(k as int, x@));
        assert forall|i: int, j: int| 0 <= i < j < after.len() implies seq_lt(
            #[trigger] after[i],
            #[trigger] after[j],
        ) by {
            if j < k {
            } else if i < k && j == k {
            } else if i < k && j > k {
                assert(seq_lt(before[i], x@));
                assert(seq_lt(x@, before[k as int]));
                lemma_lt_transitive(before[i], x@, before[k as int]);
                if j - 1 > k {
                    lemma_lt_transitive(before[i], before[k as int], before[j - 1]);
                }
            } else if i == k {
                if j - 1 > k {
                    lemma_lt_transitive(x@, before[k as int], before[j - 1]);
                }
            } else {
            }
        }
        assert forall|s: Seq<char>| after.contains(s) <==> (before.contains(s) || s == x@) by {
            if after.contains(s) {
                let w = choose|w: int| 0 <= w < after.len() && after[w] == s;
                if w < k {
                    assert(before[w] == s);
                } else if w > k {
                    assert(before[w - 1] == s);
                }
            }
            if before.contains(s) {
                let w = choose|w: int| 0 <= w < before.len() && before[w] == s;
                if w < k {
                    assert(after[w] == s);
                } else {
                    assert(after[w + 1] == s);
                }
            }
            if s == x@ {
                assert(after[k as int] == s);
            }
        }
    }
}

} // verus!
