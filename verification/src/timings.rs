//! Timing of labelled blocks of work. Without measurement the block is just
//! run; measuring and logging the elapsed time is left to the caller.
use vstd::prelude::*;

verus! {

/// Runs `f` and returns what it returns.
pub fn time_block<T, F: FnOnce() -> T>(label: &'static str, f: F) -> (r: T)
    requires
        f.requires(()),
    ensures
        f.ensures((), r),
{
    f()
}

} // verus!
