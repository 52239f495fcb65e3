//! Work accounting for one modified-LSMR solve and its independent certificate.
use vstd::prelude::*;
use crate::arith::{sat_add, sat_add_spec};

verus! {

/// Stable local copy of the external LSMR stop reason.
#[derive(Debug, Clone, Copy, PartialEq, Eq, Structural)]
pub enum LeastSquaresStopReason {
    /// Submitted weighted RHS was zero.
    ZeroRightHandSide,
    /// Initial normal-equation residual was zero.
    InitialNormalEquationResidualZero,
    /// Weighted least-squares residual tolerance was reached.
    ResidualTolerance,
    /// Relative normal-equation tolerance was reached.
    NormalEquationTolerance,
    /// A warm start was already exact.
    WarmStartExact,
    /// Recurrence convergence was refuted by the true-residual audit.
    FalseConvergence,
    /// Iteration budget was exhausted.
    MaximumIterations,
    /// The external driver requested escalation.
    Escalated,
}

/// Exact matrix-free work counts for one modified-LSMR solve and its certificate.
#[derive(Debug, Clone, Copy, PartialEq, Eq)]
pub struct LeastSquaresWorkReport {
    /// `sqrt(W) B` applications performed inside modified LSMR.
    pub solver_weighted_incidence_applications: usize,
    /// `B' sqrt(W)` applications performed inside modified LSMR.
    pub solver_weighted_adjoint_applications: usize,
    /// Fixed Gram-preconditioner applications performed inside modified LSMR.
    pub preconditioner_applications: usize,
    /// Unweighted `B` applications used by the independent final certificate.
    pub certification_incidence_applications: usize,
    /// Weighted `B'` applications used by the independent final certificate.
    pub certification_adjoint_applications: usize,
}

impl LeastSquaresWorkReport {
    /// Report for a solve whose driver counted the given operator applications;
    /// the certificate always applies `B` once and `B'` twice (residual
    /// gradient and reference right-hand side).
    pub fn from_solver_counts(
        weighted_incidence: usize,
        weighted_adjoint: usize,
        preconditioner: usize,
    ) -> (r: Self)
        ensures
            r.solver_weighted_incidence_applications == weighted_incidence,
            r.solver_weighted_adjoint_applications == weighted_adjoint,
            r.preconditioner_applications == preconditioner,
            r.certification_incidence_applications == 1,
            r.certification_adjoint_applications == 2,
    {
        LeastSquaresWorkReport {
            solver_weighted_incidence_applications: weighted_incidence,
            solver_weighted_adjoint_applications: weighted_adjoint,
            preconditioner_applications: preconditioner,
            certification_incidence_applications: 1,
            certification_adjoint_applications: 2,
        }
    }

    /// `sqrt(W) B` applications performed inside modified LSMR.
    pub fn solver_weighted_incidence_applications(self) -> (r: usize)
        ensures
            r == self.solver_weighted_incidence_applications,
    {
        self.solver_weighted_incidence_applications
    }

    /// `B' sqrt(W)` applications performed inside modified LSMR.
    pub fn solver_weighted_adjoint_applications(self) -> (r: usize)
        ensures
            r == self.solver_weighted_adjoint_applications,
    {
        self.solver_weighted_adjoint_applications
    }

    /// Fixed Gram-preconditioner applications performed inside modified LSMR.
    pub fn preconditioner_applications(self) -> (r: usize)
        ensures
            r == self.preconditioner_applications,
    {
        self.preconditioner_applications
    }

    /// Unweighted `B` applications used by the independent final certificate.
    pub fn certification_incidence_applications(self) -> (r: usize)
        ensures
            r == self.certification_incidence_applications,
    {
        self.certification_incidence_applications
    }

    /// Weighted `B'` applications used by the independent final certificate.
    pub fn certification_adjoint_applications(self) -> (r: usize)
        ensures
            r == self.certification_adjoint_applications,
    {
        self.certification_adjoint_applications
    }

    /// Total rectangular outer-operator applications inside modified LSMR.
    pub open spec fn outer_spec(self) -> int {
        sat_add_spec(
            self.solver_weighted_incidence_applications as int,
            self.solver_weighted_adjoint_applications as int,
        )
    }

    /// Total rectangular outer-operator applications inside modified LSMR.
    pub fn solver_outer_operator_applications(self) -> (r: usize)
        ensures
            r == self.outer_spec(),
    {
        sat_add(self.solver_weighted_incidence_applications, self.solver_weighted_adjoint_applications)
    }

    /// Total incidence/adjoint applications including final certification.
    pub fn complete_incidence_applications(self) -> (r: usize)
        ensures
            r == sat_add_spec(
                sat_add_spec(self.outer_spec(), self.certification_incidence_applications as int),
                self.certification_adjoint_applications as int,
            ),
    {
        sat_add(
            sat_add(self.solver_outer_operator_applications(), self.certification_incidence_applications),
            self.certification_adjoint_applications,
        )
    }
}

} // verus!
