//! Fallible growth of caller-owned scratch vectors.
use vstd::prelude::*;
use std::collections::TryReserveError;

verus! {

/// Byte width of one stored coefficient value (an IEEE-754 double).
pub const VALUE_BYTES: usize = 8;

/// Calls `Vec::try_reserve_exact(additional)`.
///
/// Assumed of std: the elements of the vector are never changed by the call,
/// whether it succeeds or fails; and, as std documents, a request whose
/// capacity overflows fails: `len + additional` elements that do not fit in
/// `usize`, or that would take more than `isize::MAX` bytes (no `Vec` ever
/// holds more). A request for no additional element finds the capacity
/// already sufficient (a vector's own elements always fit in `isize::MAX`
/// bytes, which the clause states as its guard) and, as std documents, does
/// nothing and succeeds.
/// Whether any other request succeeds depends on the allocator,
/// so nothing more is claimed of the result, and the capacity (which vstd
/// does not model) is left unsaid.
#[verifier::external_body]
pub(crate) fn try_reserve_exact<T>(vector: &mut Vec<T>, additional: usize) -> (r: Result<
    (),
    TryReserveError,
>)
    ensures
        final(vector)@ == old(vector)@,
        old(vector)@.len() + additional > usize::MAX || (old(vector)@.len() + additional)
            * vstd::layout::size_of::<T>() > isize::MAX ==> r is Err,
        additional == 0 && old(vector)@.len() * vstd::layout::size_of::<T>() <= isize::MAX ==> r is Ok,
{
    vector.try_reserve_exact(additional)
}

} // verus!
