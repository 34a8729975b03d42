//! Integer rules of the volatility estimator.
use vstd::prelude::*;

verus! {

/// The estimator is warmed up once it holds at least half its lookback of
/// return samples (rounded down).
pub fn is_warmed_up(samples: usize, lookback: usize) -> (r: bool)
    ensures
        r == (samples >= lookback / 2),
{
    samples >= lookback / 2
}

} // verus!
