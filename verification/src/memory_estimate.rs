//! Principal immutable-state estimates used by research diagnostics.
use vstd::prelude::*;
use crate::arith::{sat_add, sat_add_spec, sat_mul, sat_mul_spec};

verus! {

broadcast use vstd::layout::layout_of_primitives;

/// Accounting attributes of one immutable weighted three-way problem.
///
/// The numerical problem itself lives with the incidence crate; every size
/// query of this library reads only these counts.
#[derive(Debug, Clone, Copy, PartialEq, Eq, Structural)]
pub struct ProblemLayout {
    /// Coefficient-space dimension (sum of the three level counts).
    pub dimension: usize,
    /// Number of unique weighted tuples.
    pub tuple_count: usize,
    /// Number of incidence components.
    pub component_count: usize,
    /// Bytes of the scratch that one structural-range projection requires.
    pub projection_workspace_bytes: usize,
}

/// Bytes of one tuple key: three `u32` level indices.
pub const TUPLE_KEY_BYTES: usize = 12;

/// The estimate of [`estimate_three_way_problem_bytes`], as an integer.
pub open spec fn problem_bytes_spec(problem: ProblemLayout) -> int {
    let word = vstd::layout::size_of::<usize>() as int;
    let tuple_bytes = sat_mul_spec(problem.tuple_count as int, TUPLE_KEY_BYTES + 16);
    let level_bytes = sat_mul_spec(problem.dimension as int, 16);
    let component_bytes = sat_add_spec(
        sat_mul_spec(problem.dimension as int, word),
        sat_mul_spec(problem.component_count as int, 3 * word),
    );
    sat_add_spec(sat_add_spec(tuple_bytes, level_bytes), component_bytes)
}

/// Estimate principal heap bytes in one immutable weighted three-way problem.
///
/// Counts tuple keys, tuple weights, square-root weights, the coefficient
/// diagonal, component labels and component factor-size metadata. Excludes
/// allocator metadata, shared-owner headers and stack fields: an estimate, not
/// a process-memory measurement. Saturates instead of wrapping.
pub fn estimate_three_way_problem_bytes(problem: &ProblemLayout) -> (r: usize)
    ensures
        r == problem_bytes_spec(*problem),
{
    let word = core::mem::size_of::<usize>();
    let tuple_bytes = sat_mul(problem.tuple_count, TUPLE_KEY_BYTES + 16);
    let level_bytes = sat_mul(problem.dimension, 16);
    let component_bytes = sat_add(
        sat_mul(problem.dimension, word),
        sat_mul(problem.component_count, 3 * word),
    );
    sat_add(sat_add(tuple_bytes, level_bytes), component_bytes)
}

} // verus!
