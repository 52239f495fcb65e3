//! The seal of statically dispatched prepared solver actions.
use vstd::prelude::*;

verus! {

/// Marker that only this crate's prepared solver owners carry, so that the
/// set of prepared actions stays closed.
pub trait Sealed {}

} // verus!
