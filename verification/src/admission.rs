//! Strict payload admission for an already built and fully prepared MAP-PCG solve.
use vstd::prelude::*;
use crate::error::MultiwayError;
use crate::payload::{MapHierarchyPayloadReport, is_payload_overflow};

verus! {

/// Explicit payload budget, not a process-RSS limit or an allocator quota.
#[derive(Debug, Clone, Copy, PartialEq, Eq)]
pub struct PcgPayloadBudget {
    /// Maximum counted payload for the prepared solve.
    pub maximum_bytes: usize,
    /// Additional disjoint live payload supplied by the caller.
    pub additional_live_bytes: usize,
}

/// Retained working-set payload for one fully prepared MAP-PCG solve.
#[derive(Debug, Clone, Copy, PartialEq, Eq)]
pub struct MapPcgPayloadReport {
    /// Built fixed MAP hierarchy, with disjoint shared/exclusive categories.
    pub hierarchy: MapHierarchyPayloadReport,
    /// Outer coefficient, projection, solution and trace capacities.
    pub outer_workspace_bytes: usize,
    /// Complete recursive workspace, including inactive retained capacity.
    pub hierarchy_workspace_bytes: usize,
    /// Submitted RHS slice payload; unused owner capacity is caller-declared extra.
    pub rhs_bytes: usize,
    /// Additional disjoint live payload declared by the caller.
    pub additional_live_bytes: usize,
}

/// The admission context named in overflow errors of this module.
pub open spec fn is_admission_overflow(e: MultiwayError) -> bool {
    e matches MultiwayError::WorkspaceSizeOverflow { context }
        && context@ == "prepared MAP-PCG payload"@
}

fn overflow() -> (e: MultiwayError)
    ensures
        is_admission_overflow(e),
        !is_payload_overflow(e),
{
    proof {
        reveal_strlit("prepared MAP-PCG payload");
        reveal_strlit("MAP hierarchy payload");
        assert("prepared MAP-PCG payload"@.len() != "MAP hierarchy payload"@.len());
    }
    MultiwayError::WorkspaceSizeOverflow { context: "prepared MAP-PCG payload" }
}

impl MapPcgPayloadReport {
    /// Complete counted payload as a mathematical integer.
    pub open spec fn total_spec(self) -> int {
        self.hierarchy.total_spec() + self.outer_workspace_bytes + self.hierarchy_workspace_bytes
            + self.rhs_bytes + self.additional_live_bytes
    }

    /// Checked total; this is not a promise about allocator or OS peak memory.
    pub fn total_bytes(self) -> (r: Result<usize, MultiwayError>)
        ensures
            r is Ok <==> self.total_spec() <= usize::MAX,
            r matches Ok(v) ==> v == self.total_spec(),
            r matches Err(e) ==> is_payload_overflow(e) || is_admission_overflow(e),
            r matches Err(e) && is_payload_overflow(e) ==> self.hierarchy.total_spec()
                > usize::MAX,
            self.hierarchy.total_spec() > usize::MAX ==> (r matches Err(e) && is_payload_overflow(e)),
            self.hierarchy.total_spec() <= usize::MAX ==> (r matches Err(e) ==> is_admission_overflow(e)),
    {
        let hierarchy = self.hierarchy.total_bytes()?;
        let parts = [
            hierarchy,
            self.outer_workspace_bytes,
            self.hierarchy_workspace_bytes,
            self.rhs_bytes,
            self.additional_live_bytes,
        ];
        let mut total: usize = 0;
        let mut i: usize = 0;
        while i < 5
            invariant
                0 <= i <= 5,
                parts@.len() == 5,
                parts@[0] == self.hierarchy.total_spec(),
                parts@[1] == self.outer_workspace_bytes,
                parts@[2] == self.hierarchy_workspace_bytes,
                parts@[3] == self.rhs_bytes,
                parts@[4] == self.additional_live_bytes,
                total == crate::payload::seq_sum(parts@.take(i as int)),
            decreases 5 - i,
        {
            assert(parts@.take(i + 1).drop_last() =~= parts@.take(i as int));
            match total.checked_add(parts[i]) {
                Some(v) => {
                    total = v;
                },
                None => {
                    proof {
                        crate::payload::lemma_prefix_sum_bounded(parts@, i + 1);
                        reveal_with_fuel(crate::payload::seq_sum, 6);
                        assert(parts@.take(5) =~= parts@);
                    }
                    return Err(overflow());
                },
            }
            i += 1;
        }
        proof {
            reveal_with_fuel(crate::payload::seq_sum, 6);
            assert(parts@.take(5) =~= parts@);
        }
        Ok(total)
    }

    /// Admit equality and reject a smaller budget without allocation or mutation.
    pub fn check_budget(self, maximum_bytes: usize) -> (r: Result<(), MultiwayError>)
        ensures
            r is Ok <==> self.total_spec() <= maximum_bytes,
            r matches Err(MultiwayError::PayloadBudgetExceeded { required, budget }) ==> required
                == self.total_spec() && budget == maximum_bytes,
            r matches Err(e) ==> (e is PayloadBudgetExceeded <==> self.total_spec()
                <= usize::MAX),
            self.hierarchy.total_spec() > usize::MAX ==> (r matches Err(e) && is_payload_overflow(e)),
            self.hierarchy.total_spec() <= usize::MAX < self.total_spec() ==> (r matches Err(e)
                && is_admission_overflow(e)),
    {
        let required = self.total_bytes()?;
        if required > maximum_bytes {
            return Err(MultiwayError::PayloadBudgetExceeded { required, budget: maximum_bytes });
        }
        Ok(())
    }
}

} // verus!
