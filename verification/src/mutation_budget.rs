//! Mutation budget limiter for fuzz campaign runs.
//!
//! Caps the total number of mutation attempts per run to prevent runaway jobs.
//! When the budget is exhausted, further calls to [`MutationBudget::try_attempt`]
//! return `false` and the skipped count is incremented. Call
//! [`MutationBudget::report`] at any point to get a [`BudgetReport`] suitable
//! for dashboard and CLI output.
use vstd::prelude::*;

use crate::text::{push_decimal, spec_decimal};
use vstd::string::StringExecFns;

verus! {

/// Tracks mutation attempts against a fixed per-run cap.
#[derive(Debug)]
pub struct MutationBudget {
    budget: u64,
    attempts_made: u64,
    skipped: u64,
}

/// The counters of a [`MutationBudget`].
pub struct BudgetView {
    pub budget: u64,
    pub attempts_made: u64,
    pub skipped: u64,
}

impl View for MutationBudget {
    type V = BudgetView;

    closed spec fn view(&self) -> BudgetView {
        BudgetView { budget: self.budget, attempts_made: self.attempts_made, skipped: self.skipped }
    }
}

impl Clone for MutationBudget {
    fn clone(&self) -> (r: Self)
        ensures
            r@ == self@,
    {
        proof {
            use_type_invariant(self);
        }
        MutationBudget { budget: self.budget, attempts_made: self.attempts_made, skipped: self.skipped }
    }
}

impl MutationBudget {
    #[verifier::type_invariant]
    spec fn within_budget(self) -> bool {
        self.attempts_made <= self.budget
    }

    /// Creates a new limiter with the given `budget`.
    ///
    /// A budget of `0` means every attempt is immediately skipped.
    pub fn new(budget: u64) -> (r: Self)
        ensures
            r@ == (BudgetView { budget, attempts_made: 0, skipped: 0 }),
    {
        MutationBudget { budget, attempts_made: 0, skipped: 0 }
    }

    /// Returns `true` and consumes one unit of budget if budget remains.
    /// Returns `false` and increments the skipped counter otherwise.
    pub fn try_attempt(&mut self) -> (r: bool)
        requires
            old(self)@.attempts_made < old(self)@.budget || old(self)@.skipped < u64::MAX,
        ensures
            r == (old(self)@.attempts_made < old(self)@.budget),
            r ==> final(self)@ == (BudgetView {
                attempts_made: (old(self)@.attempts_made + 1) as u64,
                ..old(self)@
            }),
            !r ==> final(self)@ == (BudgetView { skipped: (old(self)@.skipped + 1) as u64, ..old(self)@ }),
            final(self)@ == spec_attempt(old(self)@),
    {
        proof {
            use_type_invariant(&*self);
        }
        if self.attempts_made < self.budget {
            self.attempts_made = self.attempts_made + 1;
            true
        } else {
            self.skipped = self.skipped + 1;
            false
        }
    }

    /// Returns `true` when the budget has been fully consumed.
    pub fn is_exhausted(&self) -> (r: bool)
        ensures
            r == (self@.attempts_made >= self@.budget),
    {
        self.attempts_made >= self.budget
    }

    /// Remaining budget units (saturates at zero).
    pub fn remaining(&self) -> (r: u64)
        ensures
            r == self@.budget - self@.attempts_made,
    {
        proof {
            use_type_invariant(self);
        }
        self.budget.saturating_sub(self.attempts_made)
    }

    /// Snapshot of current counters for reporting.
    pub fn report(&self) -> (r: BudgetReport)
        ensures
            r == (BudgetReport {
                budget: self@.budget,
                attempts_made: self@.attempts_made,
                skipped: self@.skipped,
                exhausted: self@.attempts_made >= self@.budget,
            }),
            r.attempts_made <= r.budget,
    {
        proof {
            use_type_invariant(self);
        }
        BudgetReport {
            budget: self.budget,
            attempts_made: self.attempts_made,
            skipped: self.skipped,
            exhausted: self.is_exhausted(),
        }
    }
}

/// The counters after one call of [`MutationBudget::try_attempt`] on `v`.
pub open spec fn spec_attempt(v: BudgetView) -> BudgetView {
    if v.attempts_made < v.budget {
        BudgetView { attempts_made: (v.attempts_made + 1) as u64, ..v }
    } else {
        BudgetView { skipped: (v.skipped + 1) as u64, ..v }
    }
}

/// The counters after `k` calls of [`MutationBudget::try_attempt`] on
/// [`MutationBudget::new`]`(budget)`.
pub open spec fn spec_attempts_from_new(budget: u64, k: nat) -> BudgetView
    decreases k,
{
    if k == 0 {
        BudgetView { budget, attempts_made: 0, skipped: 0 }
    } else {
        spec_attempt(spec_attempts_from_new(budget, (k - 1) as nat))
    }
}

/// After any number `k` of attempts on a fresh budget, the first
/// `min(k, budget)` went through and every later one was skipped: the budget is
/// never exceeded, every call is counted exactly once, and the budget reads as
/// exhausted exactly when nothing remains.
pub proof fn law_budget_counts_after_attempts(budget: u64, k: nat)
    requires
        k <= budget + u64::MAX,
    ensures
        spec_attempts_from_new(budget, k).budget == budget,
        spec_attempts_from_new(budget, k).attempts_made == (if k <= budget { k } else { budget as nat }),
        spec_attempts_from_new(budget, k).attempts_made + spec_attempts_from_new(budget, k).skipped == k,
        spec_attempts_from_new(budget, k).attempts_made <= budget,
        (spec_attempts_from_new(budget, k).attempts_made >= budget)
            <==> (budget - spec_attempts_from_new(budget, k).attempts_made == 0),
    decreases k,
{
    if k > 0 {
        law_budget_counts_after_attempts(budget, (k - 1) as nat);
    }
}

/// Serialisable snapshot of a [`MutationBudget`] for dashboard and CLI output.
#[derive(Debug, Clone, PartialEq, Eq, Structural)]
pub struct BudgetReport {
    /// Configured cap for this run.
    pub budget: u64,
    /// Mutation attempts that were allowed through.
    pub attempts_made: u64,
    /// Attempts rejected after the budget was exhausted.
    pub skipped: u64,
    /// `true` when `attempts_made >= budget`.
    pub exhausted: bool,
}

impl BudgetReport {
    /// The one-line summary: `budget: B  used: U  skipped: S`, followed by
    /// `  [EXHAUSTED]` when the budget is spent.
    pub open spec fn spec_cli_line(self) -> Seq<char> {
        "budget: "@ + spec_decimal(self.budget as nat) + "  used: "@ + spec_decimal(
            self.attempts_made as nat,
        ) + "  skipped: "@ + spec_decimal(self.skipped as nat) + if self.exhausted {
            "  [EXHAUSTED]"@
        } else {
            ""@
        }
    }

    /// One-line summary for CLI output.
    ///
    /// ```text
    /// budget: 1000  used: 1000  skipped: 42  [EXHAUSTED]
    /// ```
    pub fn to_cli_line(&self) -> (r: String)
        ensures
            r@ == self.spec_cli_line(),
    {
        let mut s = String::from_str("budget: ");
        push_decimal(&mut s, self.budget);
        s.append("  used: ");
        push_decimal(&mut s, self.attempts_made);
        s.append("  skipped: ");
        push_decimal(&mut s, self.skipped);
        let tag = if self.exhausted { "  [EXHAUSTED]" } else { "" };
        s.append(tag);
        s
    }
}

} // verus!
