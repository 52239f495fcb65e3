//! Stop reasons, work counting and storage sizing of projected preconditioned
//! conjugate gradients.
use vstd::prelude::*;
use crate::certificate::{bytes, is_certificate_context, value_bytes_spec};
use crate::error::MultiwayError;

verus! {

/// Why a projected PCG solve stopped.
#[derive(Debug, Clone, Copy, PartialEq, Eq, Structural)]
pub enum PcgStopReason {
    /// The projected right-hand side was exactly zero.
    ZeroRightHandSide,
    /// A recomputed residual met the requested tolerance.
    Converged,
    /// The iteration budget was exhausted.
    MaximumIterations,
}

/// Operator applications made by a traced solve that stopped for `stop` after
/// `iterations` completed iterations.
///
/// A zero projected right-hand side is answered without any application. Each
/// completed iteration applies the Gramian twice (search direction and true
/// residual); the preconditioner is applied once up front and once after every
/// iteration that did not converge.
pub open spec fn trace_work_spec(stop: PcgStopReason, iterations: nat) -> (nat, nat) {
    match stop {
        PcgStopReason::ZeroRightHandSide => (0, 0),
        PcgStopReason::Converged => (2 * iterations, iterations),
        PcgStopReason::MaximumIterations => (2 * iterations, iterations + 1),
    }
}

/// Gramian and preconditioner application counts of a traced solve.
///
/// The loop below runs the same counting that the recurrence performs, one
/// iteration at a time, so the counts are exactly those a traced solve reports.
pub fn trace_work(stop: PcgStopReason, iterations: usize) -> (r: (usize, usize))
    requires
        2 * iterations <= usize::MAX,
        stop is ZeroRightHandSide ==> iterations == 0,
        stop is Converged ==> iterations >= 1,
    ensures
        r.0 == trace_work_spec(stop, iterations as nat).0,
        r.1 == trace_work_spec(stop, iterations as nat).1,
{
    if let PcgStopReason::ZeroRightHandSide = stop {
        return (0, 0);
    }
    let mut gramian: usize = 0;
    let mut preconditioner: usize = 1;
    let mut iteration: usize = 1;
    while iteration <= iterations
        invariant
            1 <= iteration <= iterations + 1,
            2 * iterations <= usize::MAX,
            gramian == 2 * (iteration - 1),
            preconditioner == iteration,
            stop !is ZeroRightHandSide,
            stop is Converged ==> iteration <= iterations,
        decreases iterations + 1 - iteration,
    {
        gramian = gramian + 2;
        let converged_here = iteration == iterations && matches!(stop, PcgStopReason::Converged);
        if !converged_here {
            preconditioner = preconditioner + 1;
        }
        if converged_here {
            return (gramian, preconditioner);
        }
        iteration = iteration + 1;
    }
    (gramian, preconditioner)
}

/// Exclusive payload of the six coefficient vectors of the untraced recurrence.
pub open spec fn storage_bytes_spec(dimension: int) -> int {
    dimension * value_bytes_spec() * 6
}

/// Checked payload of the untraced recurrence's six `dimension`-long vectors.
///
/// A vector whose own byte size exceeds `isize::MAX` is refused before the
/// product by six is formed.
pub fn storage_required_bytes(dimension: usize) -> (r: Result<usize, MultiwayError>)
    ensures
        r is Ok <==> (dimension * value_bytes_spec() <= isize::MAX && storage_bytes_spec(
            dimension as int,
        ) <= usize::MAX),
        r matches Ok(v) ==> v == storage_bytes_spec(dimension as int),
        r matches Err(e) ==> e matches MultiwayError::WorkspaceSizeOverflow { context } && (
        is_certificate_context(context) || is_storage_context(context)),
{
    let one = bytes(dimension)?;
    match one.checked_mul(6) {
        Some(v) => Ok(v),
        None => {
            proof {
                reveal_strlit("PCG vector storage");
            }
            Err(MultiwayError::WorkspaceSizeOverflow { context: "PCG vector storage" })
        },
    }
}

/// The context of an overflowing six-vector product.
pub open spec fn is_storage_context(context: &'static str) -> bool {
    context@ == "PCG vector storage"@
}

} // verus!
