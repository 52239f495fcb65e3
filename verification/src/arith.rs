//! Saturating counter arithmetic used by diagnostic reports.
use vstd::prelude::*;

verus! {

/// `a + b`, clamped to `usize::MAX`.
pub open spec fn sat_add_spec(a: int, b: int) -> int {
    if a + b > usize::MAX {
        usize::MAX as int
    } else {
        a + b
    }
}

/// `a * b`, clamped to `usize::MAX`.
pub open spec fn sat_mul_spec(a: int, b: int) -> int {
    if a * b > usize::MAX {
        usize::MAX as int
    } else {
        a * b
    }
}

/// Saturating addition of two counters.
pub fn sat_add(a: usize, b: usize) -> (r: usize)
    ensures
        r == sat_add_spec(a as int, b as int),
{
    a.saturating_add(b)
}

/// Saturating multiplication of two counters.
pub fn sat_mul(a: usize, b: usize) -> (r: usize)
    ensures
        r == sat_mul_spec(a as int, b as int),
{
    match a.checked_mul(b) {
        Some(v) => v,
        None => usize::MAX,
    }
}

} // verus!
