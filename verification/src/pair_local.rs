//! Timing and retained-state accounting for pair-local CMG and `within` actions.
use vstd::prelude::*;
use core::time::Duration;
use crate::arith::{sat_add, sat_add_spec, sat_mul, sat_mul_spec};
use crate::scratch::VALUE_BYTES;

verus! {

/// Setup timing for one pair-local fixed CMG action.
#[derive(Debug, Clone, Copy, PartialEq, Eq)]
pub struct PairLocalCmgBuildTiming {
    /// Immutable CMG hierarchy construction time.
    pub cmg_setup: Duration,
    /// Initial reusable workspace construction time.
    pub workspace_setup: Duration,
    /// Complete local-solver construction time.
    pub total: Duration,
}

impl PairLocalCmgBuildTiming {
    /// Immutable CMG hierarchy construction time.
    pub fn cmg_setup(self) -> (r: Duration)
        ensures
            r == self.cmg_setup,
    {
        self.cmg_setup
    }

    /// Initial reusable workspace construction time.
    pub fn workspace_setup(self) -> (r: Duration)
        ensures
            r == self.workspace_setup,
    {
        self.workspace_setup
    }

    /// Complete local-solver construction time.
    pub fn total(self) -> (r: Duration)
        ensures
            r == self.total,
    {
        self.total
    }
}

/// Retained and scratch memory for one pair-local CMG action.
#[derive(Debug, Clone, Copy, PartialEq, Eq)]
pub struct PairLocalCmgMemoryReport {
    /// Canonical pair-domain retained bytes.
    pub domain_retained_bytes_estimate: usize,
    /// Principal immutable bytes reported by CMG.
    pub cmg_preconditioner_bytes: usize,
    /// One retained caller-owned CMG and residual workspace.
    pub workspace_pool_bytes: usize,
    /// Sum of known principal retained categories.
    pub total_retained_bytes_estimate: usize,
}

impl PairLocalCmgMemoryReport {
    /// Report whose total is the saturating sum of the three categories.
    pub fn new(domain: usize, cmg_preconditioner: usize, workspace_pool: usize) -> (r: Self)
        ensures
            r.domain_retained_bytes_estimate == domain,
            r.cmg_preconditioner_bytes == cmg_preconditioner,
            r.workspace_pool_bytes == workspace_pool,
            r.total_retained_bytes_estimate == sat_add_spec(
                sat_add_spec(domain as int, cmg_preconditioner as int),
                workspace_pool as int,
            ),
    {
        PairLocalCmgMemoryReport {
            domain_retained_bytes_estimate: domain,
            cmg_preconditioner_bytes: cmg_preconditioner,
            workspace_pool_bytes: workspace_pool,
            total_retained_bytes_estimate: sat_add(sat_add(domain, cmg_preconditioner), workspace_pool),
        }
    }

    /// Canonical pair-domain retained bytes.
    pub fn domain_retained_bytes_estimate(self) -> (r: usize)
        ensures
            r == self.domain_retained_bytes_estimate,
    {
        self.domain_retained_bytes_estimate
    }

    /// Principal immutable bytes reported by CMG.
    pub fn cmg_preconditioner_bytes(self) -> (r: usize)
        ensures
            r == self.cmg_preconditioner_bytes,
    {
        self.cmg_preconditioner_bytes
    }

    /// One retained caller-owned CMG and residual workspace.
    pub fn workspace_pool_bytes(self) -> (r: usize)
        ensures
            r == self.workspace_pool_bytes,
    {
        self.workspace_pool_bytes
    }

    /// Sum of known principal retained categories.
    pub fn total_retained_bytes_estimate(self) -> (r: usize)
        ensures
            r == self.total_retained_bytes_estimate,
    {
        self.total_retained_bytes_estimate
    }
}

/// Setup timing for the frozen pair-local `within` action.
#[derive(Debug, Clone, Copy, PartialEq, Eq)]
pub struct PairLocalWithinBuildTiming {
    /// Edge-to-observation input conversion time.
    pub design_input_setup: Duration,
    /// Complete public solver construction time.
    pub within_solver_setup: Duration,
    /// Subset reported by the retained public preconditioner.
    pub within_preconditioner_setup: Duration,
    /// Pair-range RHS workspace construction time.
    pub workspace_setup: Duration,
    /// Complete wrapper construction time.
    pub total: Duration,
}

impl PairLocalWithinBuildTiming {
    /// Edge-to-observation input conversion time.
    pub fn design_input_setup(self) -> (r: Duration)
        ensures
            r == self.design_input_setup,
    {
        self.design_input_setup
    }

    /// Complete public solver construction time.
    pub fn within_solver_setup(self) -> (r: Duration)
        ensures
            r == self.within_solver_setup,
    {
        self.within_solver_setup
    }

    /// Subset reported by the retained public preconditioner.
    pub fn within_preconditioner_setup(self) -> (r: Duration)
        ensures
            r == self.within_preconditioner_setup,
    {
        self.within_preconditioner_setup
    }

    /// Pair-range RHS workspace construction time.
    pub fn workspace_setup(self) -> (r: Duration)
        ensures
            r == self.workspace_setup,
    {
        self.workspace_setup
    }

    /// Complete wrapper construction time.
    pub fn total(self) -> (r: Duration)
        ensures
            r == self.total,
    {
        self.total
    }
}

/// Known retained-state accounting for the pair-local `within` action.
#[derive(Debug, Clone, Copy, PartialEq, Eq)]
pub struct PairLocalWithinMemoryReport {
    /// Canonical pair-domain retained bytes.
    pub domain_retained_bytes_estimate: usize,
    /// Retained projected-RHS workspace bytes.
    pub range_workspace_bytes: usize,
    /// Upstream retained bytes, unavailable at the pinned public revision.
    pub within_retained_bytes: Option<usize>,
}

impl PairLocalWithinMemoryReport {
    /// Report for a domain estimate and a pair-range RHS buffer whose capacity
    /// holds `rhs_capacity` values; upstream retained bytes are unknown.
    pub fn new(domain: usize, rhs_capacity: usize) -> (r: Self)
        ensures
            r.domain_retained_bytes_estimate == domain,
            r.range_workspace_bytes == sat_mul_spec(rhs_capacity as int, VALUE_BYTES as int),
            r.within_retained_bytes is None,
    {
        PairLocalWithinMemoryReport {
            domain_retained_bytes_estimate: domain,
            range_workspace_bytes: sat_mul(rhs_capacity, VALUE_BYTES),
            within_retained_bytes: None,
        }
    }

    /// Canonical pair-domain retained bytes.
    pub fn domain_retained_bytes_estimate(self) -> (r: usize)
        ensures
            r == self.domain_retained_bytes_estimate,
    {
        self.domain_retained_bytes_estimate
    }

    /// Retained projected-RHS workspace bytes.
    pub fn range_workspace_bytes(self) -> (r: usize)
        ensures
            r == self.range_workspace_bytes,
    {
        self.range_workspace_bytes
    }

    /// Upstream retained bytes, unavailable at the pinned public revision.
    pub fn within_retained_bytes(self) -> (r: Option<usize>)
        ensures
            r == self.within_retained_bytes,
    {
        self.within_retained_bytes
    }

    /// Sum of retained categories known to this wrapper.
    pub fn known_retained_bytes_estimate(self) -> (r: usize)
        ensures
            r == sat_add_spec(self.domain_retained_bytes_estimate as int, self.range_workspace_bytes as int),
    {
        sat_add(self.domain_retained_bytes_estimate, self.range_workspace_bytes)
    }
}

} // verus!
