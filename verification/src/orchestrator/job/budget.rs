//! Token-budget tracking for a job.
use vstd::prelude::*;

use crate::domain::types::TokenBudget;

verus! {

/// Result of recording usage against the budget.
#[derive(Debug, Clone, Copy, PartialEq, Eq, Structural)]
pub enum BudgetStatus {
    Normal,
    Warning,
    Exceeded,
}

/// The billed cost of one usage record: cache-read tokens count for a tenth
/// of their nominal number (rounded down).
pub open spec fn usage_cost(input: u64, output: u64, cache_read: u64) -> int {
    input + output + cache_read / 10
}

/// The status of a cumulative total against a budget: exceeded at or above
/// the total limit, a warning at or above the warning fraction of it.
pub open spec fn status_of(total: int, budget: TokenBudget) -> BudgetStatus {
    if total >= budget.total_limit {
        BudgetStatus::Exceeded
    } else if total * 1000 >= budget.total_limit * budget.warn_threshold_permille {
        BudgetStatus::Warning
    } else {
        BudgetStatus::Normal
    }
}

/// Cumulative token tracker for a job.
pub struct BudgetTracker {
    budget: TokenBudget,
    used: u64,
}

impl BudgetTracker {
    /// The budget tracked against.
    pub closed spec fn limits(&self) -> TokenBudget {
        self.budget
    }

    /// The tokens recorded so far.
    pub closed spec fn total(&self) -> u64 {
        self.used
    }

    /// A tracker with nothing recorded.
    pub fn new(budget: TokenBudget) -> (t: Self)
        ensures
            t.limits() == budget,
            t.total() == 0,
    {
        BudgetTracker { budget, used: 0 }
    }

    /// Record token usage and report the resulting status.
    pub fn record_usage(&mut self, input: u64, output: u64, cache_read: u64) -> (s: BudgetStatus)
        requires
            old(self).total() + usage_cost(input, output, cache_read) <= u64::MAX,
        ensures
            final(self).limits() == old(self).limits(),
            final(self).total() == old(self).total() + usage_cost(input, output, cache_read),
            s == status_of(final(self).total() as int, final(self).limits()),
    {
        let cost = input + output + cache_read / 10;
        let new_total = self.used + cost;
        self.used = new_total;
        let limit = self.budget.total_limit;
        let permille = self.budget.warn_threshold_permille;
        assert((limit as u128) * (permille as u128) <= u64::MAX as u128 * u32::MAX as u128)
            by (nonlinear_arith);
        if new_total >= self.budget.total_limit {
            BudgetStatus::Exceeded
        } else if (new_total as u128) * 1000 >= (limit as u128) * (permille as u128) {
            BudgetStatus::Warning
        } else {
            BudgetStatus::Normal
        }
    }

    /// Total tokens recorded so far.
    pub fn used(&self) -> (r: u64)
        ensures
            r == self.total(),
    {
        self.used
    }

    /// True once the recorded usage meets or exceeds the total budget.
    pub fn is_exceeded(&self) -> (r: bool)
        ensures
            r == (self.total() >= self.limits().total_limit),
    {
        self.used >= self.budget.total_limit
    }

    /// Tokens remaining before the total budget is reached.
    pub fn remaining(&self) -> (r: u64)
        ensures
            r == (if self.total() >= self.limits().total_limit {
                0
            } else {
                self.limits().total_limit - self.total()
            }),
    {
        self.budget.total_limit.saturating_sub(self.used)
    }
}

/// Recording usage never lowers the total, and the status a record reports
/// is `Exceeded` exactly when the tracker is exceeded afterwards; once
/// exceeded, every later record reports `Exceeded` again.
pub proof fn lemma_exceeded_is_final(total: u64, cost: int, budget: TokenBudget)
    requires
        0 <= cost,
        total + cost <= u64::MAX,
    ensures
        total + cost >= total,
        (status_of(total + cost, budget) == BudgetStatus::Exceeded) <==> (total + cost
            >= budget.total_limit),
        total >= budget.total_limit ==> status_of(total + cost, budget) == BudgetStatus::Exceeded,
{
}

} // verus!
