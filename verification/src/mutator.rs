//! The mutation strategy interface shared by every payload mutator.
use vstd::prelude::*;

use crate::CaseSeed;

verus! {

/// A payload mutation strategy.
///
/// Implementations derive a new seed from `seed` and the caller's generator
/// state `rng_state`, advancing that state so that successive calls explore
/// different mutations. The same `(seed, rng_state)` always gives the same result.
pub trait Mutator {
    /// Whether the strategy's configuration lets it run without fault.
    spec fn is_runnable(&self) -> bool;

    /// Stable name of the strategy, for logs and scheduling reports.
    fn name(&self) -> &'static str;

    /// Derives a mutated seed, advancing `rng_state`.
    fn mutate(&self, seed: &CaseSeed, rng_state: &mut u64) -> CaseSeed
        requires
            self.is_runnable(),
    ;
}

} // verus!
