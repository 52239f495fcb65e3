//! Symmetric block Gauss--Seidel/MAP preconditioner: its owner, scratch sizing
//! and scratch-shape validation.
use vstd::prelude::*;
use crate::error::MultiwayError;
use crate::memory_estimate::ProblemLayout;

verus! {

/// A symmetric MAP preconditioner for one weighted three-way problem.
///
/// It owns the problem's accounting layout; the numerical sweeps read the
/// problem itself, which stays with the incidence crate.
#[derive(Debug, Clone, Copy)]
pub struct SymmetricMapPreconditioner {
    problem: ProblemLayout,
}

/// The context named by every failure of this module.
pub open spec fn is_map_context(context: &'static str) -> bool {
    context@ == "SymmetricMapWorkspace"@
}

/// Scratch of one application: four coefficient vectors and the projection
/// scratch of the problem's components.
pub open spec fn map_workspace_bytes_spec(problem: ProblemLayout) -> int {
    problem.dimension * 4 * 8 + problem.projection_workspace_bytes
}

impl SymmetricMapPreconditioner {
    /// The owned problem layout.
    pub closed spec fn layout(self) -> ProblemLayout {
        self.problem
    }

    /// Construct a MAP preconditioner for `problem`.
    pub fn new(problem: ProblemLayout) -> (r: Self)
        ensures
            r.layout() == problem,
    {
        SymmetricMapPreconditioner { problem }
    }

    /// The owned problem layout.
    pub fn problem(&self) -> (r: &ProblemLayout)
        ensures
            *r == self.layout(),
    {
        &self.problem
    }

    /// Coefficient dimension of the operator.
    pub fn dimension(&self) -> (r: usize)
        ensures
            r == self.layout().dimension,
    {
        self.problem.dimension
    }

    /// Minimum exclusive scratch payload bytes for one MAP application: four
    /// coefficient vectors and the component-projection scratch, every product
    /// and sum checked.
    pub fn workspace_required_bytes(&self) -> (r: Result<usize, MultiwayError>)
        ensures
            r is Ok <==> (self.layout().dimension * 4 * 8 <= usize::MAX && map_workspace_bytes_spec(
                self.layout(),
            ) <= usize::MAX),
            r matches Ok(v) ==> v == map_workspace_bytes_spec(self.layout()),
            r matches Err(e) ==> e matches MultiwayError::WorkspaceSizeOverflow { context }
                && is_map_context(context),
    {
        proof {
            reveal_strlit("SymmetricMapWorkspace");
        }
        let four = match self.problem.dimension.checked_mul(4) {
            Some(v) => v,
            None => {
                assert(self.layout().dimension * 4 * 8 > usize::MAX);
                return Err(MultiwayError::WorkspaceSizeOverflow { context: "SymmetricMapWorkspace" });
            },
        };
        let vectors = match four.checked_mul(8) {
            Some(v) => v,
            None => return Err(MultiwayError::WorkspaceSizeOverflow { context: "SymmetricMapWorkspace" }),
        };
        match vectors.checked_add(self.problem.projection_workspace_bytes) {
            Some(v) => Ok(v),
            None => Err(MultiwayError::WorkspaceSizeOverflow { context: "SymmetricMapWorkspace" }),
        }
    }

    /// Check the lengths of the four MAP scratch vectors against the operator
    /// dimension, in order: the first vector of another length is reported.
    pub fn validate_vector_lengths(&self, lengths: &[usize; 4]) -> (r: Result<(), MultiwayError>)
        ensures
            r is Ok <==> forall|i: int| 0 <= i < 4 ==> #[trigger] lengths@[i] == self.layout().dimension,
            r matches Err(e) ==> e matches MultiwayError::DimensionMismatch { context, expected, actual }
                && is_map_context(context) && expected == self.layout().dimension && exists|i: int|
                0 <= i < 4 && #[trigger] lengths@[i] == actual && actual != expected && forall|j: int|
                0 <= j < i ==> lengths@[j] == expected,
    {
        proof {
            reveal_strlit("SymmetricMapWorkspace");
        }
        let dimension = self.problem.dimension;
        let mut i: usize = 0;
        while i < 4
            invariant
                i <= 4,
                dimension == self.layout().dimension,
                forall|j: int| 0 <= j < i ==> #[trigger] lengths@[j] == dimension,
            decreases 4 - i,
        {
            if lengths[i] != dimension {
                assert(lengths@[i as int] == lengths[i as int]);
                return Err(
                    MultiwayError::DimensionMismatch {
                        context: "SymmetricMapWorkspace",
                        expected: dimension,
                        actual: lengths[i],
                    },
                );
            }
            i = i + 1;
        }
        Ok(())
    }
}

} // verus!
