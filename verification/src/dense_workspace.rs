//! Sizing and fallible growth of the modal scratch of rank-revealing dense
//! terminal applications.
use vstd::prelude::*;
use crate::error::MultiwayError;
use crate::scratch::try_reserve_exact;

verus! {

/// The context named by every failure of this module.
pub open spec fn is_dense_context(context: &'static str) -> bool {
    context@ == "DensePseudoinverseWorkspace"@
}

/// Required modal scratch payload of a terminal of `dimension` coefficients,
/// each of `T`'s size.
pub fn modal_required_bytes<T>(dimension: usize) -> (r: Result<usize, MultiwayError>)
    ensures
        r is Ok <==> dimension * vstd::layout::size_of::<T>() <= usize::MAX,
        r matches Ok(v) ==> v == dimension * vstd::layout::size_of::<T>(),
        r matches Err(e) ==> e matches MultiwayError::WorkspaceSizeOverflow { context } && is_dense_context(
            context,
        ),
{
    proof {
        reveal_strlit("DensePseudoinverseWorkspace");
    }
    match dimension.checked_mul(core::mem::size_of::<T>()) {
        Some(v) => Ok(v),
        None => Err(MultiwayError::WorkspaceSizeOverflow { context: "DensePseudoinverseWorkspace" }),
    }
}

/// Resize modal scratch to `dimension` entries, retaining its capacity.
///
/// An unrepresentable byte size is refused before any reservation, and a
/// refused reservation leaves the scratch exactly as it was. Kept entries are
/// unchanged and new ones are `fill`.
pub fn resize_modal<T: Copy>(modal: &mut Vec<T>, dimension: usize, fill: T) -> (r: Result<(), MultiwayError>)
    ensures
        r is Ok ==> final(modal)@ == if dimension <= old(modal)@.len() {
            old(modal)@.take(dimension as int)
        } else {
            old(modal)@ + Seq::new((dimension - old(modal)@.len()) as nat, |i: int| fill)
        },
        r is Err ==> final(modal)@ == old(modal)@,
        dimension * vstd::layout::size_of::<T>() > usize::MAX ==> (r matches Err(
            MultiwayError::WorkspaceSizeOverflow { context },
        ) && is_dense_context(context)),
        r matches Err(MultiwayError::WorkspaceSizeOverflow { .. }) ==> dimension
            * vstd::layout::size_of::<T>() > usize::MAX,
        r matches Err(MultiwayError::WorkspaceAllocation { context, .. }) ==> is_dense_context(
            context,
        ) && dimension > old(modal)@.len() && dimension * vstd::layout::size_of::<T>()
            <= usize::MAX,
        r matches Err(e) ==> e is WorkspaceSizeOverflow || e is WorkspaceAllocation,
        dimension <= old(modal)@.len() && dimension * vstd::layout::size_of::<T>() <= usize::MAX
            ==> r is Ok,
        dimension > old(modal)@.len() && dimension * vstd::layout::size_of::<T>() > isize::MAX
            ==> r is Err,
{
    modal_required_bytes::<T>(dimension)?;
    let current = modal.len();
    if dimension > current {
        match try_reserve_exact(modal, dimension - current) {
            Ok(()) => {},
            Err(source) => {
                return Err(MultiwayError::WorkspaceAllocation { context: "DensePseudoinverseWorkspace", source });
            },
        }
        let ghost start = modal@;
        while modal.len() < dimension
            invariant
                start.len() == current,
                current <= modal@.len() <= dimension,
                modal@ == start + Seq::new((modal@.len() - current) as nat, |i: int| fill),
            decreases dimension - modal@.len(),
        {
            modal.push(fill);
            assert(modal@ =~= start + Seq::new((modal@.len() - current) as nat, |i: int| fill));
        }
    } else {
        modal.truncate(dimension);
        assert(modal@ =~= old(modal)@.take(dimension as int));
    }
    Ok(())
}

} // verus!
