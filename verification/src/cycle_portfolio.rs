//! Selection among structurally admissible candidate maps by complete-cycle quality.
use vstd::prelude::*;
use core::time::Duration;
use crate::arith::{sat_add, sat_add_spec};
use crate::seqsum::{sat_sum, lemma_sat_sum_take_step};

verus! {

/// Phase timing of the primary bootstrap build.
#[derive(Debug, Clone, Copy, PartialEq, Eq)]
pub struct BootstrapAggregationBuildTiming {
    /// Complete bootstrap construction time, including repair.
    pub total: Duration,
}

/// Candidate evaluated by the complete-cycle portfolio.
#[derive(Debug, Clone, Copy, PartialEq, Eq, Structural)]
pub enum CyclePortfolioCandidateSource {
    /// Final map returned by the primary bootstrap/repair procedure.
    BootstrapFinal,
    /// Protected bounded pair-neighborhood map.
    StructuralBaseline,
}

/// Deterministic order of candidate sources.
pub open spec fn cycle_source_rank(source: CyclePortfolioCandidateSource) -> int {
    match source {
        CyclePortfolioCandidateSource::BootstrapFinal => 0,
        CyclePortfolioCandidateSource::StructuralBaseline => 1,
    }
}

fn source_rank(source: CyclePortfolioCandidateSource) -> (r: u8)
    ensures
        r == cycle_source_rank(source),
{
    match source {
        CyclePortfolioCandidateSource::BootstrapFinal => 0,
        CyclePortfolioCandidateSource::StructuralBaseline => 1,
    }
}

/// The candidate list: the primary final map, then the structural baseline
/// only when it differs from it.
pub fn cycle_candidate_sources(baseline_differs: bool) -> (r: Vec<CyclePortfolioCandidateSource>)
    ensures
        !baseline_differs ==> r@ == seq![CyclePortfolioCandidateSource::BootstrapFinal],
        baseline_differs ==> r@ == seq![
            CyclePortfolioCandidateSource::BootstrapFinal,
            CyclePortfolioCandidateSource::StructuralBaseline,
        ],
{
    let mut r = vec![CyclePortfolioCandidateSource::BootstrapFinal];
    if baseline_differs {
        r.push(CyclePortfolioCandidateSource::StructuralBaseline);
    }
    r
}

/// What happened to one candidate map.
#[derive(Debug, Clone, Copy, PartialEq, Eq, Structural)]
pub enum CycleOutcome {
    /// A hard structural gate rejected the map; no cycle was built.
    StructurallyRejected,
    /// The caller's cycle constructor failed.
    BuildFailed,
    /// The complete cycle was built and probed.
    Probed {
        /// Gramian applications of the probe.
        gramian_applications: usize,
        /// Preconditioner applications of the probe.
        preconditioner_applications: usize,
        /// Energy evaluations of the probe.
        energy_evaluations: usize,
        /// Principal bytes retained by the probe report.
        retained_bytes_estimate: usize,
        /// Whether the declared criteria accepted the cycle.
        accepted: bool,
        /// Order key of the largest estimated energy factor: smaller keys are
        /// better, in the order of the probe's total comparison.
        energy_factor_key: u64,
    },
}

/// One evaluated candidate.
#[derive(Debug, Clone, Copy, PartialEq, Eq)]
pub struct CycleEvaluation {
    /// Where the candidate map came from.
    pub source: CyclePortfolioCandidateSource,
    /// Unique coarse tuple count of the map.
    pub coarse_tuple_count: usize,
    /// Coarse coefficient dimension of the map.
    pub coarse_dimension: usize,
    /// Build and probe outcome.
    pub outcome: CycleOutcome,
}

/// Whether the candidate passed every gate.
pub open spec fn cycle_accepted(e: CycleEvaluation) -> bool {
    e.outcome matches CycleOutcome::Probed { accepted, .. } && accepted
}

/// Energy-factor key of a probed candidate (zero otherwise).
pub open spec fn energy_key(e: CycleEvaluation) -> int {
    match e.outcome {
        CycleOutcome::Probed { energy_factor_key, .. } => energy_factor_key as int,
        _ => 0,
    }
}

/// `a` ranks strictly before `b`: smaller energy factor, then fewer coarse
/// tuples, then smaller coarse dimension, then source order.
pub open spec fn cycle_better(a: CycleEvaluation, b: CycleEvaluation) -> bool {
    if energy_key(a) != energy_key(b) {
        energy_key(a) < energy_key(b)
    } else if a.coarse_tuple_count != b.coarse_tuple_count {
        a.coarse_tuple_count < b.coarse_tuple_count
    } else if a.coarse_dimension != b.coarse_dimension {
        a.coarse_dimension < b.coarse_dimension
    } else {
        cycle_source_rank(a.source) < cycle_source_rank(b.source)
    }
}

fn better(a: &CycleEvaluation, b: &CycleEvaluation) -> (r: bool)
    ensures
        r == cycle_better(*a, *b),
{
    let ka = match a.outcome {
        CycleOutcome::Probed { energy_factor_key, .. } => energy_factor_key,
        _ => 0,
    };
    let kb = match b.outcome {
        CycleOutcome::Probed { energy_factor_key, .. } => energy_factor_key,
        _ => 0,
    };
    if ka != kb {
        ka < kb
    } else if a.coarse_tuple_count != b.coarse_tuple_count {
        a.coarse_tuple_count < b.coarse_tuple_count
    } else if a.coarse_dimension != b.coarse_dimension {
        a.coarse_dimension < b.coarse_dimension
    } else {
        source_rank(a.source) < source_rank(b.source)
    }
}

/// The selection of candidate `i` is lexicographically least among the
/// accepted candidates: it is accepted; no accepted candidate has a smaller
/// energy-factor key; among those with its key none has fewer coarse tuples;
/// among those also with its tuple count none has a smaller coarse dimension;
/// among those also with its dimension none comes from an earlier source; and
/// no earlier accepted candidate agrees with it on all four.
pub proof fn lemma_cycle_selection_is_least(evaluations: Seq<CycleEvaluation>, i: int)
    requires
        0 <= i < evaluations.len(),
        cycle_accepted(evaluations[i]),
        forall|j: int| 0 <= j < evaluations.len() && cycle_accepted(#[trigger] evaluations[j]) ==> !cycle_better(evaluations[j], evaluations[i]),
        forall|j: int| 0 <= j < i && cycle_accepted(#[trigger] evaluations[j]) ==> cycle_better(evaluations[i], evaluations[j]),
    ensures
        evaluations[i].outcome is Probed && evaluations[i].outcome->accepted,
        forall|j: int|
            0 <= j < evaluations.len() && #[trigger] evaluations[j].outcome is Probed && evaluations[j].outcome->accepted
                ==> evaluations[i].outcome->energy_factor_key <= evaluations[j].outcome->energy_factor_key,
        forall|j: int|
            0 <= j < evaluations.len() && #[trigger] evaluations[j].outcome is Probed && evaluations[j].outcome->accepted
                && evaluations[j].outcome->energy_factor_key == evaluations[i].outcome->energy_factor_key
                ==> evaluations[i].coarse_tuple_count <= evaluations[j].coarse_tuple_count,
        forall|j: int|
            0 <= j < evaluations.len() && #[trigger] evaluations[j].outcome is Probed && evaluations[j].outcome->accepted
                && evaluations[j].outcome->energy_factor_key == evaluations[i].outcome->energy_factor_key
                && evaluations[j].coarse_tuple_count == evaluations[i].coarse_tuple_count
                ==> evaluations[i].coarse_dimension <= evaluations[j].coarse_dimension,
        forall|j: int|
            0 <= j < evaluations.len() && #[trigger] evaluations[j].outcome is Probed && evaluations[j].outcome->accepted
                && evaluations[j].outcome->energy_factor_key == evaluations[i].outcome->energy_factor_key
                && evaluations[j].coarse_tuple_count == evaluations[i].coarse_tuple_count
                && evaluations[j].coarse_dimension == evaluations[i].coarse_dimension
                && evaluations[j].source is BootstrapFinal ==> evaluations[i].source is BootstrapFinal,
        forall|j: int|
            0 <= j < i && #[trigger] evaluations[j].outcome is Probed && evaluations[j].outcome->accepted
                ==> !(evaluations[j].outcome->energy_factor_key == evaluations[i].outcome->energy_factor_key
                && evaluations[j].coarse_tuple_count == evaluations[i].coarse_tuple_count
                && evaluations[j].coarse_dimension == evaluations[i].coarse_dimension
                && evaluations[j].source == evaluations[i].source),
{
    assert forall|j: int|
        0 <= j < evaluations.len() && #[trigger] evaluations[j].outcome is Probed && evaluations[j].outcome->accepted
            implies !cycle_better(evaluations[j], evaluations[i]) by {
        assert(cycle_accepted(evaluations[j]));
    }
    assert forall|j: int|
        0 <= j < i && #[trigger] evaluations[j].outcome is Probed && evaluations[j].outcome->accepted
            implies cycle_better(evaluations[i], evaluations[j]) by {
        assert(cycle_accepted(evaluations[j]));
    }
}

/// The accepted candidate that ranks first; the earliest one among equals.
///
/// Candidates are ranked by energy-factor key, then coarse tuple count, then
/// coarse dimension, then source order, each smaller first; the field-wise
/// statement is [`lemma_cycle_selection_is_least`], restated here.
pub fn select_cycle_candidate(evaluations: &Vec<CycleEvaluation>) -> (r: Option<usize>)
    ensures
        r is None <==> forall|j: int| 0 <= j < evaluations@.len() ==> !cycle_accepted(#[trigger] evaluations@[j]),
        r is None <==> forall|j: int|
            0 <= j < evaluations@.len() ==> !(#[trigger] evaluations@[j].outcome is Probed && evaluations@[j].outcome->accepted),
        r matches Some(i) ==> {
            &&& i < evaluations@.len()
            &&& cycle_accepted(evaluations@[i as int])
            &&& forall|j: int| 0 <= j < evaluations@.len() && cycle_accepted(#[trigger] evaluations@[j]) ==> !cycle_better(evaluations@[j], evaluations@[i as int])
            &&& forall|j: int| 0 <= j < i && cycle_accepted(#[trigger] evaluations@[j]) ==> cycle_better(evaluations@[i as int], evaluations@[j])
        },
        r matches Some(i) ==> {
            let e = evaluations@;
            &&& e[i as int].outcome is Probed && e[i as int].outcome->accepted
            &&& forall|j: int|
                0 <= j < e.len() && #[trigger] e[j].outcome is Probed && e[j].outcome->accepted
                    ==> e[i as int].outcome->energy_factor_key <= e[j].outcome->energy_factor_key
            &&& forall|j: int|
                0 <= j < e.len() && #[trigger] e[j].outcome is Probed && e[j].outcome->accepted
                    && e[j].outcome->energy_factor_key == e[i as int].outcome->energy_factor_key
                    ==> e[i as int].coarse_tuple_count <= e[j].coarse_tuple_count
            &&& forall|j: int|
                0 <= j < e.len() && #[trigger] e[j].outcome is Probed && e[j].outcome->accepted
                    && e[j].outcome->energy_factor_key == e[i as int].outcome->energy_factor_key
                    && e[j].coarse_tuple_count == e[i as int].coarse_tuple_count
                    ==> e[i as int].coarse_dimension <= e[j].coarse_dimension
            &&& forall|j: int|
                0 <= j < e.len() && #[trigger] e[j].outcome is Probed && e[j].outcome->accepted
                    && e[j].outcome->energy_factor_key == e[i as int].outcome->energy_factor_key
                    && e[j].coarse_tuple_count == e[i as int].coarse_tuple_count
                    && e[j].coarse_dimension == e[i as int].coarse_dimension
                    && e[j].source is BootstrapFinal ==> e[i as int].source is BootstrapFinal
            &&& forall|j: int|
                0 <= j < i && #[trigger] e[j].outcome is Probed && e[j].outcome->accepted
                    ==> !(e[j].outcome->energy_factor_key == e[i as int].outcome->energy_factor_key
                    && e[j].coarse_tuple_count == e[i as int].coarse_tuple_count
                    && e[j].coarse_dimension == e[i as int].coarse_dimension
                    && e[j].source == e[i as int].source)
        },
{
    let mut best: Option<usize> = None;
    let mut k: usize = 0;
    while k < evaluations.len()
        invariant
            k <= evaluations.len(),
            best is None <==> forall|j: int| 0 <= j < k ==> !cycle_accepted(#[trigger] evaluations@[j]),
            best matches Some(i) ==> {
                &&& i < k
                &&& cycle_accepted(evaluations@[i as int])
                &&& forall|j: int| 0 <= j < k && cycle_accepted(#[trigger] evaluations@[j]) ==> !cycle_better(evaluations@[j], evaluations@[i as int])
                &&& forall|j: int| 0 <= j < i && cycle_accepted(#[trigger] evaluations@[j]) ==> cycle_better(evaluations@[i as int], evaluations@[j])
            },
        decreases evaluations.len() - k,
    {
        let accepted = match evaluations[k].outcome {
            CycleOutcome::Probed { accepted, .. } => accepted,
            _ => false,
        };
        if accepted {
            match best {
                None => {
                    best = Some(k);
                },
                Some(i) => {
                    if better(&evaluations[k], &evaluations[i]) {
                        best = Some(k);
                    }
                },
            }
        }
        k += 1;
    }
    proof {
        if let Some(i) = best {
            lemma_cycle_selection_is_least(evaluations@, i as int);
        }
        assert forall|j: int| 0 <= j < evaluations@.len() implies (cycle_accepted(#[trigger] evaluations@[j])
            <==> (evaluations@[j].outcome is Probed && evaluations@[j].outcome->accepted)) by {}
    }
    best
}

/// Work charged to the complete-cycle screen.
#[derive(Debug, Clone, Copy, PartialEq, Eq)]
pub struct CyclePortfolioWorkReport {
    /// Distinct maps considered.
    pub candidate_maps_considered: usize,
    /// Eligible candidate cycles whose construction was attempted.
    pub cycle_builds_attempted: usize,
    /// Eligible candidate cycles whose construction failed.
    pub cycle_build_failures: usize,
    /// Gramian applications used by complete-cycle probes.
    pub probe_gramian_applications: usize,
    /// Candidate-cycle applications used by complete-cycle probes.
    pub probe_preconditioner_applications: usize,
    /// Energy evaluations used by complete-cycle probes.
    pub probe_energy_evaluations: usize,
    /// Principal retained bytes in probe reports.
    pub retained_probe_bytes_estimate: usize,
}

/// One count per candidate, selected by `which` from its outcome.
pub open spec fn outcome_terms(evaluations: Seq<CycleEvaluation>, which: int) -> Seq<int> {
    Seq::new(
        evaluations.len(),
        |i: int|
            match evaluations[i].outcome {
                CycleOutcome::StructurallyRejected => 0,
                CycleOutcome::BuildFailed => if which == 0 || which == 1 { 1 } else { 0 },
                CycleOutcome::Probed {
                    gramian_applications,
                    preconditioner_applications,
                    energy_evaluations,
                    retained_bytes_estimate,
                    ..
                } => if which == 0 {
                    1
                } else if which == 1 {
                    0
                } else if which == 2 {
                    gramian_applications as int
                } else if which == 3 {
                    preconditioner_applications as int
                } else if which == 4 {
                    energy_evaluations as int
                } else {
                    retained_bytes_estimate as int
                },
            },
    )
}

impl CyclePortfolioWorkReport {
    /// Saturating work counts over the evaluated candidates.
    pub fn from_evaluations(evaluations: &Vec<CycleEvaluation>) -> (r: Self)
        ensures
            r.candidate_maps_considered == evaluations@.len(),
            r.cycle_builds_attempted == sat_sum(outcome_terms(evaluations@, 0)),
            r.cycle_build_failures == sat_sum(outcome_terms(evaluations@, 1)),
            r.probe_gramian_applications == sat_sum(outcome_terms(evaluations@, 2)),
            r.probe_preconditioner_applications == sat_sum(outcome_terms(evaluations@, 3)),
            r.probe_energy_evaluations == sat_sum(outcome_terms(evaluations@, 4)),
            r.retained_probe_bytes_estimate == sat_sum(outcome_terms(evaluations@, 5)),
    {
        let ghost t0 = outcome_terms(evaluations@, 0);
        let ghost t1 = outcome_terms(evaluations@, 1);
        let ghost t2 = outcome_terms(evaluations@, 2);
        let ghost t3 = outcome_terms(evaluations@, 3);
        let ghost t4 = outcome_terms(evaluations@, 4);
        let ghost t5 = outcome_terms(evaluations@, 5);
        let mut attempted: usize = 0;
        let mut failures: usize = 0;
        let mut gramian: usize = 0;
        let mut applications: usize = 0;
        let mut energy: usize = 0;
        let mut bytes: usize = 0;
        let mut i: usize = 0;
        while i < evaluations.len()
            invariant
                i <= evaluations.len(),
                t0 == outcome_terms(evaluations@, 0),
                t1 == outcome_terms(evaluations@, 1),
                t2 == outcome_terms(evaluations@, 2),
                t3 == outcome_terms(evaluations@, 3),
                t4 == outcome_terms(evaluations@, 4),
                t5 == outcome_terms(evaluations@, 5),
                attempted == sat_sum(t0.take(i as int)),
                failures == sat_sum(t1.take(i as int)),
                gramian == sat_sum(t2.take(i as int)),
                applications == sat_sum(t3.take(i as int)),
                energy == sat_sum(t4.take(i as int)),
                bytes == sat_sum(t5.take(i as int)),
            decreases evaluations.len() - i,
        {
            proof {
                lemma_sat_sum_take_step(t0, i as int);
                lemma_sat_sum_take_step(t1, i as int);
                lemma_sat_sum_take_step(t2, i as int);
                lemma_sat_sum_take_step(t3, i as int);
                lemma_sat_sum_take_step(t4, i as int);
                lemma_sat_sum_take_step(t5, i as int);
            }
            match evaluations[i].outcome {
                CycleOutcome::StructurallyRejected => {
                    attempted = sat_add(attempted, 0);
                    failures = sat_add(failures, 0);
                    gramian = sat_add(gramian, 0);
                    applications = sat_add(applications, 0);
                    energy = sat_add(energy, 0);
                    bytes = sat_add(bytes, 0);
                },
                CycleOutcome::BuildFailed => {
                    attempted = sat_add(attempted, 1);
                    failures = sat_add(failures, 1);
                    gramian = sat_add(gramian, 0);
                    applications = sat_add(applications, 0);
                    energy = sat_add(energy, 0);
                    bytes = sat_add(bytes, 0);
                },
                CycleOutcome::Probed {
                    gramian_applications,
                    preconditioner_applications,
                    energy_evaluations,
                    retained_bytes_estimate,
                    ..
                } => {
                    attempted = sat_add(attempted, 1);
                    failures = sat_add(failures, 0);
                    gramian = sat_add(gramian, gramian_applications);
                    applications = sat_add(applications, preconditioner_applications);
                    energy = sat_add(energy, energy_evaluations);
                    bytes = sat_add(bytes, retained_bytes_estimate);
                },
            }
            i += 1;
        }
        proof {
            assert(t0.take(i as int) =~= t0);
            assert(t1.take(i as int) =~= t1);
            assert(t2.take(i as int) =~= t2);
            assert(t3.take(i as int) =~= t3);
            assert(t4.take(i as int) =~= t4);
            assert(t5.take(i as int) =~= t5);
        }
        CyclePortfolioWorkReport {
            candidate_maps_considered: evaluations.len(),
            cycle_builds_attempted: attempted,
            cycle_build_failures: failures,
            probe_gramian_applications: gramian,
            probe_preconditioner_applications: applications,
            probe_energy_evaluations: energy,
            retained_probe_bytes_estimate: bytes,
        }
    }

    /// Distinct maps considered.
    pub fn candidate_maps_considered(self) -> (r: usize)
        ensures
            r == self.candidate_maps_considered,
    {
        self.candidate_maps_considered
    }

    /// Eligible candidate cycles whose construction was attempted.
    pub fn cycle_builds_attempted(self) -> (r: usize)
        ensures
            r == self.cycle_builds_attempted,
    {
        self.cycle_builds_attempted
    }

    /// Eligible candidate cycles whose construction failed.
    pub fn cycle_build_failures(self) -> (r: usize)
        ensures
            r == self.cycle_build_failures,
    {
        self.cycle_build_failures
    }

    /// Gramian applications used by complete-cycle probes.
    pub fn probe_gramian_applications(self) -> (r: usize)
        ensures
            r == self.probe_gramian_applications,
    {
        self.probe_gramian_applications
    }

    /// Candidate-cycle applications used by complete-cycle probes.
    pub fn probe_preconditioner_applications(self) -> (r: usize)
        ensures
            r == self.probe_preconditioner_applications,
    {
        self.probe_preconditioner_applications
    }

    /// Energy evaluations used by complete-cycle probes.
    pub fn probe_energy_evaluations(self) -> (r: usize)
        ensures
            r == self.probe_energy_evaluations,
    {
        self.probe_energy_evaluations
    }

    /// Principal retained bytes in probe reports.
    pub fn retained_probe_bytes_estimate(self) -> (r: usize)
        ensures
            r == self.retained_probe_bytes_estimate,
    {
        self.retained_probe_bytes_estimate
    }
}

/// Phase-separated timing for the complete-cycle portfolio.
#[derive(Debug, Clone, Copy, PartialEq, Eq)]
pub struct CyclePortfolioBuildTiming {
    /// Primary bootstrap and repair timing.
    pub primary: BootstrapAggregationBuildTiming,
    /// Candidate cycle construction and probing.
    pub cycle_screen: Duration,
    /// Complete portfolio construction time.
    pub total: Duration,
}

impl CyclePortfolioBuildTiming {
    /// Primary bootstrap and repair timing.
    pub fn primary(self) -> (r: BootstrapAggregationBuildTiming)
        ensures
            r == self.primary,
    {
        self.primary
    }

    /// Candidate cycle construction and probing.
    pub fn cycle_screen(self) -> (r: Duration)
        ensures
            r == self.cycle_screen,
    {
        self.cycle_screen
    }

    /// Complete portfolio construction time.
    pub fn total(self) -> (r: Duration)
        ensures
            r == self.total,
    {
        self.total
    }
}

} // verus!
