//! Default values of the integer and flag settings of the market-making
//! strategy, used when the configuration file leaves them out.
use vstd::prelude::*;

verus! {

pub fn default_true() -> (r: bool)
    ensures
        r,
{
    true
}

pub fn default_false() -> (r: bool)
    ensures
        !r,
{
    false
}

/// Inventory age, in seconds, after which a partial exit is considered.
pub fn default_partial_age() -> (r: u64)
    ensures
        r == 8,
{
    8
}

/// Pause between partial exits, in milliseconds.
pub fn default_partial_cooldown_ms() -> (r: u64)
    ensures
        r == 2000,
{
    2000
}

/// How many mid-price direction changes within the window pause quoting.
pub fn default_flip_threshold() -> (r: usize)
    ensures
        r == 8,
{
    8
}

pub fn default_flip_pause_ms() -> (r: u64)
    ensures
        r == 600,
{
    600
}

pub fn default_flip_widen_duration_ms() -> (r: u64)
    ensures
        r == 1200,
{
    1200
}

pub fn default_kill_pause_secs() -> (r: u64)
    ensures
        r == 5,
{
    5
}

pub fn default_global_pause_secs() -> (r: u64)
    ensures
        r == 10,
{
    10
}

/// Ticks a live quote may stray from its target before it is replaced.
pub fn default_refresh_tolerance() -> (r: i64)
    ensures
        r == 2,
{
    2
}

} // verus!
