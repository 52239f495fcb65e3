//! Typed failures of multilevel construction, accounting and scratch admission.
use vstd::prelude::*;
use std::collections::TryReserveError;

verus! {

/// Failure while building, accounting or preparing a MultiwayMG solver.
///
/// Numerical variants that carry floating-point diagnostics live with the
/// numerical drivers; every variant here carries integers or static text.
#[derive(Debug)]
pub enum MultiwayError {
    /// A prepared working-set payload exceeds the explicitly supplied budget.
    PayloadBudgetExceeded {
        /// Counted retained and declared caller payload.
        required: usize,
        /// Maximum payload admitted by this call.
        budget: usize,
    },
    /// Strict prepared execution found unprepared hierarchy scratch.
    WorkspaceNotPrepared {
        /// Rejected workspace boundary.
        context: &'static str,
    },
    /// The private hierarchy ownership invariant no longer matches its inventory.
    PayloadInventoryMismatch,
    /// A numerical or structural option was invalid.
    InvalidOption {
        /// Option name.
        name: &'static str,
        /// Explanation of the rejected value.
        message: &'static str,
    },
    /// A hard aggregation violated a problem or component invariant.
    InvalidAggregation {
        /// Factor whose aggregate crosses components.
        factor: usize,
        /// Offending coarse aggregate.
        aggregate: usize,
        /// Component already recorded for the aggregate.
        existing: usize,
        /// Component of the level that disagrees.
        component: usize,
    },
    /// An aggregation's coarse offsets or dimension could not be represented.
    AggregationSizeOverflow {
        /// Offset computation that overflowed.
        context: &'static str,
    },
    /// A factor-pair graph component cannot carry a local pair solver.
    PairComponent {
        /// Component label within the factor-pair graph.
        component: usize,
        /// What the component lacks.
        problem: &'static str,
    },
    /// Complete-cycle matrix-free quality screening failed.
    CycleQuality {
        /// Failure description.
        message: &'static str,
    },
    /// A numerical quantity could not be represented.
    NumericalFailure {
        /// Operation that produced the value.
        context: &'static str,
    },
    /// Automatic coarsening stopped while the dense terminal remained too large.
    HierarchyStagnated {
        /// Coefficient dimension at the stalled level.
        dimension: usize,
        /// Unique tuple count at the stalled level.
        tuples: usize,
        /// Maximum coefficient dimension admitted to the dense terminal.
        limit: usize,
    },
    /// A supplied oracle aggregation did not match the current hierarchy level.
    InvalidSuppliedAggregation {
        /// Zero-based hierarchy level.
        level: usize,
    },
    /// A vector had the wrong dimension.
    DimensionMismatch {
        /// Operation that detected the mismatch.
        context: &'static str,
        /// Required vector length.
        expected: usize,
        /// Submitted vector length.
        actual: usize,
    },
    /// A caller-owned workspace size or byte count overflowed.
    WorkspaceSizeOverflow {
        /// Operation whose checked size calculation failed.
        context: &'static str,
    },
    /// A structural index or count could not be represented.
    DimensionOverflow {
        /// Operation whose checked index arithmetic failed.
        context: &'static str,
    },
    /// A caller-owned workspace could not reserve requested storage.
    WorkspaceAllocation {
        /// Operation that attempted the reservation.
        context: &'static str,
        /// Allocation or capacity-overflow error from the standard library.
        source: TryReserveError,
    },
}

/// Dimension-mismatch error for `context`.
pub fn dimension(context: &'static str, expected: usize, actual: usize) -> (e: MultiwayError)
    ensures
        e == (MultiwayError::DimensionMismatch { context, expected, actual }),
{
    MultiwayError::DimensionMismatch { context, expected, actual }
}

/// Check an input and an output length against an operator dimension: the
/// input is checked first.
pub fn validate_dimensions(context: &'static str, dimension: usize, rhs_len: usize, out_len: usize) -> (r: Result<(), MultiwayError>)
    ensures
        r is Ok <==> rhs_len == dimension && out_len == dimension,
        rhs_len != dimension ==> r == Err::<(), MultiwayError>(
            MultiwayError::DimensionMismatch { context, expected: dimension, actual: rhs_len },
        ),
        rhs_len == dimension && out_len != dimension ==> r == Err::<(), MultiwayError>(
            MultiwayError::DimensionMismatch { context, expected: dimension, actual: out_len },
        ),
{
    if rhs_len != dimension {
        return Err(self::dimension(context, dimension, rhs_len));
    }
    if out_len != dimension {
        return Err(self::dimension(context, dimension, out_len));
    }
    Ok(())
}

} // verus!
