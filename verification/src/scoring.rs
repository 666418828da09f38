//! Aggregation of module valuations by tier.
use vstd::prelude::*;

use crate::domain::types::GatingTier;

verus! {

/// Errors produced while scoring modules.
#[derive(Debug)]
pub enum ScoringError {
    Failed(String),
}

/// A strong-gate tier: enterprise or managed cloud.
pub open spec fn is_strong_gate(t: GatingTier) -> bool {
    t == GatingTier::EnterpriseTier || t == GatingTier::ManagedCloud
}

/// The number of tiers of `ts` that satisfy `p`.
pub open spec fn count_tiers(ts: Seq<GatingTier>, p: spec_fn(GatingTier) -> bool) -> nat
    decreases ts.len(),
{
    if ts.len() == 0 {
        0
    } else {
        count_tiers(ts.drop_last(), p) + (if p(ts.last()) {
            1nat
        } else {
            0nat
        })
    }
}

/// The tier counts of a valuation: `(strong_gate, open, legal_review)`.
pub fn tier_counts(tiers: &Vec<GatingTier>) -> (r: (usize, usize, usize))
    ensures
        r.0 == count_tiers(tiers@, |t: GatingTier| is_strong_gate(t)),
        r.1 == count_tiers(tiers@, |t: GatingTier| t == GatingTier::Open),
        r.2 == count_tiers(tiers@, |t: GatingTier| t == GatingTier::LegalReview),
{
    let ghost strong = |t: GatingTier| is_strong_gate(t);
    let ghost open = |t: GatingTier| t == GatingTier::Open;
    let ghost legal = |t: GatingTier| t == GatingTier::LegalReview;
    let mut s: usize = 0;
    let mut o: usize = 0;
    let mut l: usize = 0;
    for i in 0..tiers.len()
        invariant
            strong == (|t: GatingTier| is_strong_gate(t)),
            open == (|t: GatingTier| t == GatingTier::Open),
            legal == (|t: GatingTier| t == GatingTier::LegalReview),
            s == count_tiers(tiers@.subrange(0, i as int), strong),
            o == count_tiers(tiers@.subrange(0, i as int), open),
            l == count_tiers(tiers@.subrange(0, i as int), legal),
            s <= i && o <= i && l <= i,
    {
        assert(tiers@.subrange(0, i + 1).drop_last() =~= tiers@.subrange(0, i as int));
        let t = tiers[i];
        if t == GatingTier::EnterpriseTier || t == GatingTier::ManagedCloud {
            s = s + 1;
        }
        if t == GatingTier::Open {
            o = o + 1;
        }
        if t == GatingTier::LegalReview {
            l = l + 1;
        }
    }
    assert(tiers@.subrange(0, tiers@.len() as int) =~= tiers@);
    (s, o, l)
}

} // verus!
