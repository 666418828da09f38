//! Dependency records and their de-duplication.
use vstd::prelude::*;

use crate::order::{lemma_lt_irreflexive, lemma_lt_total, lemma_lt_transitive, lex_less, seq_lt};
use crate::ingestion::manifest::{PackageFileRef, PackageFileType};
use crate::ingestion::IngestionError;
use crate::text::{chars_of, seq_eq};

verus! {

/// The package ecosystem a dependency belongs to.
#[derive(Debug, Clone, Copy, PartialEq, Eq, Structural)]
pub enum Ecosystem {
    Cargo,
    Npm,
    PyPi,
    Go,
    Maven,
    Gradle,
    Ruby,
    Unknown,
}

/// The position of an ecosystem in its declaration (its discriminant).
pub open spec fn eco_rank(e: Ecosystem) -> u8 {
    match e {
        Ecosystem::Cargo => 0,
        Ecosystem::Npm => 1,
        Ecosystem::PyPi => 2,
        Ecosystem::Go => 3,
        Ecosystem::Maven => 4,
        Ecosystem::Gradle => 5,
        Ecosystem::Ruby => 6,
        Ecosystem::Unknown => 7,
    }
}

fn eco_rank_exec(e: Ecosystem) -> (r: u8)
    ensures
        r == eco_rank(e),
{
    match e {
        Ecosystem::Cargo => 0,
        Ecosystem::Npm => 1,
        Ecosystem::PyPi => 2,
        Ecosystem::Go => 3,
        Ecosystem::Maven => 4,
        Ecosystem::Gradle => 5,
        Ecosystem::Ruby => 6,
        Ecosystem::Unknown => 7,
    }
}

/// A single dependency discovered in a repository.
#[derive(Debug, Clone, PartialEq, Eq)]
pub struct DependencyRecord {
    pub name: String,
    pub version: String,
    pub ecosystem: Ecosystem,
    /// SPDX license string, preserved verbatim.
    pub spdx_license: Option<String>,
    pub is_direct: bool,
    pub is_transitive: bool,
}

/// Best-effort ecosystem inference from a package name: detailed
/// per-ecosystem classification is out of scope, so it is always `Unknown`.
pub fn infer_ecosystem(name: &str) -> (e: Ecosystem)
    ensures
        e == Ecosystem::Unknown,
{
    Ecosystem::Unknown
}

/// Two records with the same `(name, version, ecosystem)`.
pub open spec fn same_key(a: DependencyRecord, b: DependencyRecord) -> bool {
    a.name@ == b.name@ && a.version@ == b.version@ && a.ecosystem == b.ecosystem
}

/// `a` sorts strictly before `b` by `(name, version, ecosystem)`.
pub open spec fn key_lt(a: DependencyRecord, b: DependencyRecord) -> bool {
    seq_lt(a.name@, b.name@) || (a.name@ == b.name@ && (seq_lt(a.version@, b.version@) || (
    a.version@ == b.version@ && eco_rank(a.ecosystem) < eco_rank(b.ecosystem))))
}

/// The first record of each key, in input order.
pub open spec fn first_of_each_key(s: Seq<DependencyRecord>) -> Seq<DependencyRecord>
    decreases s.len(),
{
    if s.len() == 0 {
        Seq::empty()
    } else {
        let before = first_of_each_key(s.drop_last());
        if exists|k: int| 0 <= k < s.len() - 1 && same_key(#[trigger] s[k], s.last()) {
            before
        } else {
            before.push(s.last())
        }
    }
}

/// Some record of `s` has the key of `r`.
pub open spec fn has_key(s: Seq<DependencyRecord>, r: DependencyRecord) -> bool {
    exists|j: int| 0 <= j < s.len() && same_key(#[trigger] s[j], r)
}

/// Records strictly increasing by key.
pub open spec fn key_sorted(s: Seq<DependencyRecord>) -> bool {
    forall|i: int, j: int| 0 <= i < j < s.len() ==> key_lt(#[trigger] s[i], #[trigger] s[j])
}

proof fn lemma_key_order(a: DependencyRecord, b: DependencyRecord, c: DependencyRecord)
    ensures
        !key_lt(a, a),
        !same_key(a, b) ==> (key_lt(a, b) || key_lt(b, a)),
        same_key(a, b) ==> !key_lt(a, b),
        key_lt(a, b) && key_lt(b, c) ==> key_lt(a, c),
{
    lemma_lt_irreflexive(a.name@);
    lemma_lt_irreflexive(a.version@);
    lemma_lt_total(a.name@, b.name@);
    lemma_lt_total(a.version@, b.version@);
    if !same_key(a, b) && a.name@ == b.name@ && a.version@ == b.version@ {
        assert(a.ecosystem != b.ecosystem);
        assert(eco_rank(a.ecosystem) != eco_rank(b.ecosystem));
    }
    if key_lt(a, b) && key_lt(b, c) {
        if seq_lt(a.name@, b.name@) && seq_lt(b.name@, c.name@) {
            lemma_lt_transitive(a.name@, b.name@, c.name@);
        }
        if a.name@ == b.name@ && b.name@ == c.name@ && seq_lt(a.version@, b.version@) && seq_lt(
            b.version@,
            c.version@,
        ) {
            lemma_lt_transitive(a.version@, b.version@, c.version@);
        }
    }
}

proof fn lemma_firsts_from_input(s: Seq<DependencyRecord>, r: DependencyRecord)
    ensures
        first_of_each_key(s).contains(r) ==> s.contains(r),
    decreases s.len(),
{
    if s.len() > 0 {
        lemma_firsts_from_input(s.drop_last(), r);
        if first_of_each_key(s.drop_last()).contains(r) {
            let w = choose|w: int| 0 <= w < s.len() - 1 && s.drop_last()[w] == r;
            assert(s[w] == r);
        }
        if r == s.last() {
            assert(s[s.len() - 1] == r);
        }
    }
}

/// Whether two records have the same key.
fn same_key_exec(a: &DependencyRecord, b: &DependencyRecord) -> (r: bool)
    ensures
        r == same_key(*a, b.clone_spec()),
{
    let an = chars_of(a.name.as_str());
    let bn = chars_of(b.name.as_str());
    let av = chars_of(a.version.as_str());
    let bv = chars_of(b.version.as_str());
    seq_eq(&an, &bn) && seq_eq(&av, &bv) && a.ecosystem == b.ecosystem
}

/// Whether `a` sorts strictly before `b` by key.
fn key_lt_exec(a: &DependencyRecord, b: &DependencyRecord) -> (r: bool)
    ensures
        r == key_lt(*a, *b),
{
    let an = chars_of(a.name.as_str());
    let bn = chars_of(b.name.as_str());
    if lex_less(&an, &bn) {
        return true;
    }
    if !seq_eq(&an, &bn) {
        return false;
    }
    let av = chars_of(a.version.as_str());
    let bv = chars_of(b.version.as_str());
    if lex_less(&av, &bv) {
        return true;
    }
    if !seq_eq(&av, &bv) {
        return false;
    }
    eco_rank_exec(a.ecosystem) < eco_rank_exec(b.ecosystem)
}

impl DependencyRecord {
    /// The record itself, as a spec value.
    pub open spec fn clone_spec(&self) -> DependencyRecord {
        *self
    }

    /// An equal copy of the record.
    pub fn duplicate(&self) -> (r: DependencyRecord)
        ensures
            r == *self,
    {
        DependencyRecord {
            name: self.name.clone(),
            version: self.version.clone(),
            ecosystem: self.ecosystem,
            spdx_license: match &self.spdx_license {
                Some(l) => Some(l.clone()),
                None => None,
            },
            is_direct: self.is_direct,
            is_transitive: self.is_transitive,
        }
    }
}

/// `out` is `input` sorted by key with one record kept per key: the first
/// of that key in `input`.
pub open spec fn is_dedup_of(out: Seq<DependencyRecord>, input: Seq<DependencyRecord>) -> bool {
    key_sorted(out) && forall|r: DependencyRecord|
        out.contains(r) <==> first_of_each_key(input).contains(r)
}

/// Sort records by `(name, version, ecosystem)` and keep one record per key:
/// the first of that key in the input order.
pub fn dedup_dependencies(deps: &mut Vec<DependencyRecord>)
    ensures
        is_dedup_of(final(deps)@, old(deps)@),
{
    let ghost input = deps@;
    let mut out: Vec<DependencyRecord> = Vec::new();
    let mut i: usize = 0;
    assert(input.subrange(0, 0) =~= Seq::<DependencyRecord>::empty());
    while i < deps.len()
        invariant
            deps@ == input,
            i <= input.len(),
            key_sorted(out@),
            forall|r: DependencyRecord|
                out@.contains(r) <==> first_of_each_key(input.subrange(0, i as int)).contains(r),
            forall|k: int| 0 <= k < i ==> #[trigger] has_key(out@, input[k]),
        decreases input.len() - i,
    {
        let ghost pre = input.subrange(0, i as int);
        let ghost nxt = input.subrange(0, i + 1);
        assert(nxt.drop_last() =~= pre);
        let x = deps[i].duplicate();
        assert(nxt.last() == x);
        let mut k: usize = 0;
        while k < out.len()
            invariant
                k <= out@.len(),
                forall|j: int| 0 <= j < k ==> key_lt(#[trigger] out@[j], x),
            ensures
                k <= out@.len(),
                forall|j: int| 0 <= j < k ==> key_lt(#[trigger] out@[j], x),
                k < out@.len() ==> !key_lt(out@[k as int], x),
            decreases out.len() - k,
        {
            if !key_lt_exec(&out[k], &x) {
                break;
            }
            k = k + 1;
        }
        let present = k < out.len() && same_key_exec(&out[k], &x);
        if present {
            proof {
                let rk = out@[k as int];
                assert(first_of_each_key(pre).contains(rk)) by {
                    assert(out@.contains(rk));
                }
                lemma_firsts_from_input(pre, rk);
                let w = choose|w: int| 0 <= w < pre.len() && pre[w] == rk;
                assert(same_key(nxt[w], nxt.last()));
                assert(first_of_each_key(nxt) == first_of_each_key(pre));
                assert forall|q: int| 0 <= q < i + 1 implies #[trigger] has_key(out@, input[q]) by {
                    if q == i {
                        assert(same_key(out@[k as int], input[q]));
                    }
                }
            }
        } else {
            let ghost before = out@;
            proof {
                assert forall|j: int| 0 <= j < before.len() implies !same_key(
                    #[trigger] before[j],
                    x,
                ) by {
                    lemma_key_order(before[j], x, x);
                    if j > k {
                        lemma_key_order(before[k as int], x, x);
                        lemma_key_order(x, before[k as int], before[j]);
                        lemma_key_order(before[j], x, x);
                    }
                }
                assert(!exists|q: int| 0 <= q < nxt.len() - 1 && same_key(#[trigger] nxt[q], nxt.last())) by {
                    if exists|q: int| 0 <= q < nxt.len() - 1 && same_key(#[trigger] nxt[q], nxt.last()) {
                        let q = choose|q: int| 0 <= q < nxt.len() - 1 && same_key(#[trigger] nxt[q], nxt.last());
                        assert(input[q] == nxt[q]);
                        assert(has_key(before, input[q]));
                        let j = choose|j: int| 0 <= j < before.len() && same_key(#[trigger] before[j], input[q]);
                        assert(same_key(before[j], x));
                    }
                }
                assert(first_of_each_key(nxt) == first_of_each_key(pre).push(x));
                if k < before.len() {
                    lemma_key_order(before[k as int], x, x);
                    assert(key_lt(x, before[k as int]));
                }
            }
            out.insert(k, x);
            proof {
                let after = out@;
                assert(after =~= before.insert(k as int, x));
                assert forall|a: int, b: int| 0 <= a < b < after.len() implies key_lt(
                    #[trigger] after[a],
                    #[trigger] after[b],
                ) by {
                    if b < k {
                    } else if a < k && b == k {
                    } else if a < k && b > k {
                        lemma_key_order(before[a], x, before[k as int]);
                        if b - 1 > k {
                            lemma_key_order(before[a], before[k as int], before[b - 1]);
                        }
                    } else if a == k {
                        if b - 1 > k {
                            lemma_key_order(x, before[k as int], before[b - 1]);
                        }
                    }
                }
                assert forall|r: DependencyRecord| after.contains(r) <==> first_of_each_key(
                    nxt,
                ).contains(r) by {
                    let f = first_of_each_key(pre);
                    if after.contains(r) {
                        let w = choose|w: int| 0 <= w < after.len() && after[w] == r;
                        if w < k {
                            assert(before[w] == r);
                            assert(before.contains(r));
                        } else if w > k {
                            assert(before[w - 1] == r);
                            assert(before.contains(r));
                        } else {
                            assert(f.push(x)[f.len() as int] == r);
                        }
                        if before.contains(r) {
                            let v = choose|v: int| 0 <= v < f.len() && f[v] == r;
                            assert(f.push(x)[v] == r);
                        }
                    }
                    if first_of_each_key(nxt).contains(r) {
                        let v = choose|v: int| 0 <= v < f.len() + 1 && f.push(x)[v] == r;
                        if v < f.len() {
                            assert(f[v] == r);
                            assert(f.contains(r));
                            assert(before.contains(r));
                            let w = choose|w: int| 0 <= w < before.len() && before[w] == r;
                            if w < k {
                                assert(after[w] == r);
                            } else {
                                assert(after[w + 1] == r);
                            }
                        } else {
                            assert(after[k as int] == r);
                        }
                    }
                }
                assert forall|q: int| 0 <= q < i + 1 implies #[trigger] has_key(after, input[q]) by {
                    if q == i {
                        assert(same_key(after[k as int], input[q]));
                    } else {
                        assert(has_key(before, input[q]));
                        let j = choose|j: int| 0 <= j < before.len() && same_key(#[trigger] before[j], input[q]);
                        if j < k {
                            assert(after[j] == before[j]);
                        } else {
                            assert(after[j + 1] == before[j]);
                        }
                    }
                }
            }
        }
        i = i + 1;
    }
    assert(input.subrange(0, input.len() as int) =~= input);
    *deps = out;
}

proof fn lemma_sorted_keys_distinct(s: Seq<DependencyRecord>, i: int, j: int)
    requires
        key_sorted(s),
        0 <= i < s.len(),
        0 <= j < s.len(),
        i != j,
    ensures
        !same_key(s[i], s[j]),
{
    if i < j {
        lemma_key_order(s[i], s[j], s[j]);
    } else {
        lemma_key_order(s[j], s[i], s[i]);
    }
}

proof fn lemma_firsts_of_sorted(s: Seq<DependencyRecord>)
    requires
        key_sorted(s),
    ensures
        first_of_each_key(s) == s,
    decreases s.len(),
{
    if s.len() > 0 {
        let t = s.drop_last();
        assert(key_sorted(t)) by {
            assert forall|i: int, j: int| 0 <= i < j < t.len() implies key_lt(
                #[trigger] t[i],
                #[trigger] t[j],
            ) by {
                assert(t[i] == s[i] && t[j] == s[j]);
            }
        }
        lemma_firsts_of_sorted(t);
        assert forall|k: int| 0 <= k < s.len() - 1 implies !same_key(#[trigger] s[k], s.last()) by {
            lemma_sorted_keys_distinct(s, k, s.len() - 1);
        }
        assert(t.push(s.last()) =~= s);
    }
}

proof fn lemma_sorted_same_members(a: Seq<DependencyRecord>, b: Seq<DependencyRecord>)
    requires
        key_sorted(a),
        key_sorted(b),
        forall|r: DependencyRecord| a.contains(r) <==> b.contains(r),
    ensures
        a == b,
    decreases a.len() + b.len(),
{
    if a.len() == 0 {
        if b.len() > 0 {
            assert(b.contains(b[0]));
        }
        assert(b =~= a);
    } else if b.len() == 0 {
        assert(a.contains(a[0]));
    } else {
        let x = a.last();
        let y = b.last();
        assert(a.contains(x));
        assert(b.contains(y));
        let iy = choose|i: int| 0 <= i < a.len() && a[i] == y;
        let ix = choose|i: int| 0 <= i < b.len() && b[i] == x;
        lemma_key_order(x, y, x);
        lemma_key_order(y, x, y);
        if iy < a.len() - 1 {
            assert(key_lt(y, x));
        }
        if ix < b.len() - 1 {
            assert(key_lt(x, y));
        }
        assert(x == y);
        let a2 = a.drop_last();
        let b2 = b.drop_last();
        assert forall|r: DependencyRecord| a2.contains(r) <==> b2.contains(r) by {
            if a2.contains(r) {
                let i = choose|i: int| 0 <= i < a2.len() && a2[i] == r;
                assert(a[i] == r);
                assert(key_lt(r, x));
                lemma_key_order(r, r, r);
                assert(b.contains(r));
                let j = choose|j: int| 0 <= j < b.len() && b[j] == r;
                assert(j != b.len() - 1);
                assert(b2[j] == r);
            }
            if b2.contains(r) {
                let j = choose|j: int| 0 <= j < b2.len() && b2[j] == r;
                assert(b[j] == r);
                assert(key_lt(r, y));
                lemma_key_order(r, r, r);
                assert(a.contains(r));
                let i = choose|i: int| 0 <= i < a.len() && a[i] == r;
                assert(i != a.len() - 1);
                assert(a2[i] == r);
            }
        }
        assert(key_sorted(a2)) by {
            assert forall|i: int, j: int| 0 <= i < j < a2.len() implies key_lt(
                #[trigger] a2[i],
                #[trigger] a2[j],
            ) by {
                assert(a2[i] == a[i] && a2[j] == a[j]);
            }
        }
        assert(key_sorted(b2)) by {
            assert forall|i: int, j: int| 0 <= i < j < b2.len() implies key_lt(
                #[trigger] b2[i],
                #[trigger] b2[j],
            ) by {
                assert(b2[i] == b[i] && b2[j] == b[j]);
            }
        }
        lemma_sorted_same_members(a2, b2);
        assert(a =~= a2.push(x));
        assert(b =~= b2.push(y));
    }
}

/// De-duplicating is idempotent: de-duplicating an already de-duplicated
/// list gives it back unchanged.
pub proof fn lemma_dedup_idempotent(
    input: Seq<DependencyRecord>,
    once: Seq<DependencyRecord>,
    twice: Seq<DependencyRecord>,
)
    requires
        is_dedup_of(once, input),
        is_dedup_of(twice, once),
    ensures
        twice == once,
{
    lemma_firsts_of_sorted(once);
    lemma_sorted_same_members(twice, once);
}

/// The result of de-duplication is determined by its input: two lists that
/// both de-duplicate the same input are equal.
pub proof fn lemma_dedup_unique(input: Seq<DependencyRecord>, a: Seq<DependencyRecord>, b: Seq<DependencyRecord>)
    requires
        is_dedup_of(a, input),
        is_dedup_of(b, input),
    ensures
        a == b,
{
    lemma_sorted_same_members(a, b);
}

proof fn lemma_firsts_are_first(s: Seq<DependencyRecord>, r: DependencyRecord)
    ensures
        first_of_each_key(s).contains(r) ==> exists|i: int|
            #![trigger s[i]]
            0 <= i < s.len() && s[i] == r && forall|j: int|
                0 <= j < i ==> !same_key(#[trigger] s[j], r),
    decreases s.len(),
{
    if s.len() > 0 {
        let t = s.drop_last();
        lemma_firsts_are_first(t, r);
        if first_of_each_key(t).contains(r) {
            let i = choose|i: int|
                #![trigger t[i]]
                0 <= i < t.len() && t[i] == r && forall|j: int|
                    0 <= j < i ==> !same_key(#[trigger] t[j], r);
            assert(s[i] == r);
            assert forall|j: int| 0 <= j < i implies !same_key(#[trigger] s[j], r) by {
                assert(s[j] == t[j]);
            }
        } else if first_of_each_key(s).contains(r) {
            let i = s.len() - 1;
            assert(!exists|k: int| 0 <= k < s.len() - 1 && same_key(#[trigger] s[k], s.last()));
            let f = first_of_each_key(s);
            let w = choose|w: int| 0 <= w < f.len() && f[w] == r;
            assert(w == f.len() - 1);
            assert(s[i] == r);
            assert forall|j: int| 0 <= j < i implies !same_key(#[trigger] s[j], r) by {
                if same_key(s[j], r) {
                    assert(same_key(s[j], s.last()));
                }
            }
        }
    }
}

proof fn lemma_every_key_kept(s: Seq<DependencyRecord>)
    ensures
        forall|k: int| 0 <= k < s.len() ==> has_key(first_of_each_key(s), #[trigger] s[k]),
    decreases s.len(),
{
    if s.len() > 0 {
        let t = s.drop_last();
        lemma_every_key_kept(t);
        let f = first_of_each_key(s);
        let b = first_of_each_key(t);
        assert forall|k: int| 0 <= k < s.len() implies has_key(f, #[trigger] s[k]) by {
            if k < s.len() - 1 {
                assert(s[k] == t[k]);
                assert(has_key(b, t[k]));
                let w = choose|w: int| 0 <= w < b.len() && same_key(#[trigger] b[w], t[k]);
                assert(f[w] == b[w]);
            } else if exists|k2: int| 0 <= k2 < s.len() - 1 && same_key(#[trigger] s[k2], s.last()) {
                let k2 = choose|k2: int|
                    0 <= k2 < s.len() - 1 && same_key(#[trigger] s[k2], s.last());
                assert(t[k2] == s[k2]);
                assert(has_key(b, t[k2]));
                let w = choose|w: int| 0 <= w < b.len() && same_key(#[trigger] b[w], t[k2]);
                assert(f[w] == b[w]);
            } else {
                assert(f[b.len() as int] == s.last());
            }
        }
    }
}

/// What de-duplication keeps: no two kept records share a key; every kept
/// record comes from the input and is the first record of its key there;
/// and every key of the input is kept.
pub proof fn lemma_dedup_keeps_first_of_each_key(
    input: Seq<DependencyRecord>,
    out: Seq<DependencyRecord>,
)
    requires
        is_dedup_of(out, input),
    ensures
        forall|i: int, j: int|
            0 <= i < j < out.len() ==> !same_key(#[trigger] out[i], #[trigger] out[j]),
        forall|r: DependencyRecord| #[trigger] out.contains(r) ==> input.contains(r),
        forall|r: DependencyRecord|
            #[trigger] out.contains(r) ==> exists|i: int|
                #![trigger input[i]]
                0 <= i < input.len() && input[i] == r && forall|j: int|
                    0 <= j < i ==> !same_key(#[trigger] input[j], r),
        forall|k: int| 0 <= k < input.len() ==> has_key(out, #[trigger] input[k]),
{
    assert forall|i: int, j: int| 0 <= i < j < out.len() implies !same_key(
        #[trigger] out[i],
        #[trigger] out[j],
    ) by {
        lemma_sorted_keys_distinct(out, i, j);
    }
    assert forall|r: DependencyRecord| #[trigger] out.contains(r) implies input.contains(r) && exists|i: int|
        #![trigger input[i]]
        0 <= i < input.len() && input[i] == r && forall|j: int|
            0 <= j < i ==> !same_key(#[trigger] input[j], r) by {
        lemma_firsts_from_input(input, r);
        lemma_firsts_are_first(input, r);
    }
    lemma_every_key_kept(input);
    assert forall|k: int| 0 <= k < input.len() implies has_key(out, #[trigger] input[k]) by {
        let f = first_of_each_key(input);
        let w = choose|w: int| 0 <= w < f.len() && same_key(#[trigger] f[w], input[k]);
        assert(f.contains(f[w]));
        assert(out.contains(f[w]));
        let v = choose|v: int| 0 <= v < out.len() && out[v] == f[w];
        assert(same_key(out[v], input[k]));
    }
}

/// The fields read from one package entry of a package listing (the output
/// of `cargo metadata` or an SPDX SBOM); each is absent where the entry lacks
/// it or holds no string there.
#[derive(Debug, Clone, PartialEq, Eq)]
pub struct PackageFields {
    pub name: Option<String>,
    pub version: Option<String>,
    pub license: Option<String>,
}

/// The text of an optional string, empty when absent.
pub open spec fn text_or_empty(o: Option<String>) -> Seq<char> {
    match o {
        Some(s) => s@,
        None => Seq::empty(),
    }
}

/// `r` is the record that a Cargo package entry `p` gives.
pub open spec fn is_cargo_record(p: PackageFields, r: DependencyRecord) -> bool {
    &&& r.name@ == text_or_empty(p.name)
    &&& r.version@ == text_or_empty(p.version)
    &&& r.ecosystem == Ecosystem::Cargo
    &&& r.spdx_license == p.license
    &&& r.is_direct
    &&& !r.is_transitive
}

/// `r` is the record that an SBOM package entry `p` gives.
pub open spec fn is_sbom_record(p: PackageFields, r: DependencyRecord) -> bool {
    &&& r.name@ == text_or_empty(p.name)
    &&& r.version@ == text_or_empty(p.version)
    &&& r.ecosystem == Ecosystem::Unknown
    &&& r.spdx_license == p.license
    &&& !r.is_direct
    &&& r.is_transitive
}

fn string_or_empty(o: &Option<String>) -> (s: String)
    ensures
        s@ == text_or_empty(*o),
{
    match o {
        Some(t) => t.clone(),
        None => String::new(),
    }
}

fn clone_option(o: &Option<String>) -> (r: Option<String>)
    ensures
        r == *o,
{
    match o {
        Some(t) => Some(t.clone()),
        None => None,
    }
}

/// One direct Cargo-ecosystem record per package of `cargo metadata`, in
/// order; a missing name or version becomes the empty string and the
/// license string is kept verbatim.
pub fn cargo_records(packages: &Vec<PackageFields>) -> (r: Vec<DependencyRecord>)
    ensures
        r@.len() == packages@.len(),
        forall|i: int| 0 <= i < r@.len() ==> is_cargo_record(packages@[i], #[trigger] r@[i]),
{
    let mut out: Vec<DependencyRecord> = Vec::new();
    for i in 0..packages.len()
        invariant
            out@.len() == i,
            forall|j: int| 0 <= j < i ==> is_cargo_record(packages@[j], #[trigger] out@[j]),
    {
        let p = &packages[i];
        out.push(
            DependencyRecord {
                name: string_or_empty(&p.name),
                version: string_or_empty(&p.version),
                ecosystem: Ecosystem::Cargo,
                spdx_license: clone_option(&p.license),
                is_direct: true,
                is_transitive: false,
            },
        );
    }
    out
}

/// One transitive record per package of an SPDX SBOM, in order, with the
/// ecosystem inferred from the name; a missing name or version becomes the
/// empty string and the concluded license is kept verbatim.
pub fn sbom_records(packages: &Vec<PackageFields>) -> (r: Vec<DependencyRecord>)
    ensures
        r@.len() == packages@.len(),
        forall|i: int| 0 <= i < r@.len() ==> is_sbom_record(packages@[i], #[trigger] r@[i]),
{
    let mut out: Vec<DependencyRecord> = Vec::new();
    for i in 0..packages.len()
        invariant
            out@.len() == i,
            forall|j: int| 0 <= j < i ==> is_sbom_record(packages@[j], #[trigger] out@[j]),
    {
        let p = &packages[i];
        let name = string_or_empty(&p.name);
        let ecosystem = infer_ecosystem(name.as_str());
        out.push(
            DependencyRecord {
                ecosystem,
                version: string_or_empty(&p.version),
                spdx_license: clone_option(&p.license),
                name,
                is_direct: false,
                is_transitive: true,
            },
        );
    }
    out
}

/// Whether the repository declares a Cargo package.
pub fn has_cargo_package(files: &[PackageFileRef]) -> (r: bool)
    ensures
        r == exists|i: int| 0 <= i < files@.len() && #[trigger] files@[i].file_type == PackageFileType::Cargo,
{
    for i in 0..files.len()
        invariant
            forall|j: int| 0 <= j < i ==> #[trigger] files@[j].file_type != PackageFileType::Cargo,
    {
        if files[i].file_type == PackageFileType::Cargo {
            return true;
        }
    }
    false
}

/// Combine the Cargo records with the outcome of the SBOM extraction and
/// de-duplicate: a missing `syft` binary is not fatal (only the Cargo
/// records are used), any other SBOM failure is returned.
pub fn combine_dependencies(
    cargo: Vec<DependencyRecord>,
    sbom: Result<Vec<DependencyRecord>, IngestionError>,
) -> (r: Result<Vec<DependencyRecord>, IngestionError>)
    ensures
        match sbom {
            Ok(s) => r matches Ok(out) && is_dedup_of(out@, cargo@ + s@),
            Err(IngestionError::SyftNotFound) => r matches Ok(out) && is_dedup_of(out@, cargo@),
            Err(e) => r == Err::<Vec<DependencyRecord>, IngestionError>(e),
        },
{
    let mut all = cargo;
    match sbom {
        Ok(s) => {
            let mut s = s;
            all.append(&mut s);
        },
        Err(IngestionError::SyftNotFound) => {},
        Err(e) => {
            return Err(e);
        },
    }
    dedup_dependencies(&mut all);
    Ok(all)
}

} // verus!
