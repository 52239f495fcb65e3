//! Two-stage acceptance portfolio for bootstrap aggregation.
//!
//! The primary builder remains the witness authority; a secondary screen may
//! rescue only an already constructed, structurally valid candidate.
//! Dimension and tuple budgets are never relaxed.
use vstd::prelude::*;
use core::time::Duration;
use crate::arith::sat_add;
use crate::cycle_portfolio::BootstrapAggregationBuildTiming;
use crate::seqsum::{sat_sum, lemma_sat_sum_take_step};

verus! {

/// Candidate evaluated by the secondary compatible-relaxation screen.
#[derive(Debug, Clone, Copy, PartialEq, Eq, Structural)]
pub enum SecondaryScreenCandidateSource {
    /// Final map returned by the primary bootstrap/repair procedure.
    BootstrapFinal,
    /// Protected bounded pair-neighborhood map.
    StructuralBaseline,
}

/// How the final portfolio map was accepted.
#[derive(Debug, Clone, Copy, PartialEq, Eq, Structural)]
pub enum BootstrapAcceptanceScreen {
    /// The ordinary conservative bootstrap path accepted the map.
    Primary,
    /// The secondary smoother accepted the primary bootstrap final map.
    SecondaryBootstrapFinal,
    /// The secondary smoother accepted the protected structural baseline.
    SecondaryStructuralBaseline,
    /// No structurally admissible candidate passed either screen.
    Rejected,
}

/// Deterministic order of candidate sources.
pub open spec fn secondary_source_rank(source: SecondaryScreenCandidateSource) -> int {
    match source {
        SecondaryScreenCandidateSource::BootstrapFinal => 0,
        SecondaryScreenCandidateSource::StructuralBaseline => 1,
    }
}

fn source_rank(source: SecondaryScreenCandidateSource) -> (r: u8)
    ensures
        r == secondary_source_rank(source),
{
    match source {
        SecondaryScreenCandidateSource::BootstrapFinal => 0,
        SecondaryScreenCandidateSource::StructuralBaseline => 1,
    }
}

/// The secondary candidate list: the primary final map, then the structural
/// baseline only when it differs from it.
pub fn secondary_candidate_sources(baseline_differs: bool) -> (r: Vec<SecondaryScreenCandidateSource>)
    ensures
        !baseline_differs ==> r@ == seq![SecondaryScreenCandidateSource::BootstrapFinal],
        baseline_differs ==> r@ == seq![
            SecondaryScreenCandidateSource::BootstrapFinal,
            SecondaryScreenCandidateSource::StructuralBaseline,
        ],
{
    let mut r = vec![SecondaryScreenCandidateSource::BootstrapFinal];
    if baseline_differs {
        r.push(SecondaryScreenCandidateSource::StructuralBaseline);
    }
    r
}

/// The compatible-relaxation screen of one structurally admitted candidate.
#[derive(Debug, Clone, Copy, PartialEq, Eq)]
pub struct SecondaryScreenOutcome {
    /// Gramian applications of the screen.
    pub gramian_applications: usize,
    /// Secondary-smoother applications of the screen.
    pub smoother_applications: usize,
    /// Principal bytes retained by the report and its witnesses.
    pub retained_bytes_estimate: usize,
    /// Whether the secondary criteria accepted the map.
    pub accepted: bool,
    /// Order key of the largest diagonal factor per sweep: smaller is better,
    /// in the order of the screen's total comparison.
    pub diagonal_factor_key: u64,
}

/// One evaluated secondary candidate.
#[derive(Debug, Clone, Copy, PartialEq, Eq)]
pub struct SecondaryEvaluation {
    /// Where the candidate map came from.
    pub source: SecondaryScreenCandidateSource,
    /// Unique coarse tuple count of the map.
    pub coarse_tuple_count: usize,
    /// Coarse coefficient dimension of the map.
    pub coarse_dimension: usize,
    /// The screen, absent when a structural gate rejected the map.
    pub screen: Option<SecondaryScreenOutcome>,
}

/// Whether the candidate passed the structural gates and the secondary screen.
pub open spec fn secondary_accepted(e: SecondaryEvaluation) -> bool {
    e.screen matches Some(s) && s.accepted
}

/// Diagonal-factor key of a screened candidate (zero otherwise).
pub open spec fn factor_key(e: SecondaryEvaluation) -> int {
    match e.screen {
        Some(s) => s.diagonal_factor_key as int,
        None => 0,
    }
}

/// `a` ranks strictly before `b`: fewer coarse tuples, then smaller coarse
/// dimension, then smaller diagonal factor, then source order.
pub open spec fn secondary_better(a: SecondaryEvaluation, b: SecondaryEvaluation) -> bool {
    if a.coarse_tuple_count != b.coarse_tuple_count {
        a.coarse_tuple_count < b.coarse_tuple_count
    } else if a.coarse_dimension != b.coarse_dimension {
        a.coarse_dimension < b.coarse_dimension
    } else if factor_key(a) != factor_key(b) {
        factor_key(a) < factor_key(b)
    } else {
        secondary_source_rank(a.source) < secondary_source_rank(b.source)
    }
}

fn better(a: &SecondaryEvaluation, b: &SecondaryEvaluation) -> (r: bool)
    ensures
        r == secondary_better(*a, *b),
{
    let ka = match a.screen {
        Some(s) => s.diagonal_factor_key,
        None => 0,
    };
    let kb = match b.screen {
        Some(s) => s.diagonal_factor_key,
        None => 0,
    };
    if a.coarse_tuple_count != b.coarse_tuple_count {
        a.coarse_tuple_count < b.coarse_tuple_count
    } else if a.coarse_dimension != b.coarse_dimension {
        a.coarse_dimension < b.coarse_dimension
    } else if ka != kb {
        ka < kb
    } else {
        source_rank(a.source) < source_rank(b.source)
    }
}

/// The selection of candidate `i` is lexicographically least among the
/// accepted candidates: it is accepted; no accepted candidate has fewer coarse
/// tuples; among those with its tuple count none has a smaller coarse
/// dimension; among those also with its dimension none has a smaller
/// diagonal-factor key; among those also with its key none comes from an
/// earlier source; and no earlier accepted candidate agrees with it on all four.
pub proof fn lemma_secondary_selection_is_least(evaluations: Seq<SecondaryEvaluation>, i: int)
    requires
        0 <= i < evaluations.len(),
        secondary_accepted(evaluations[i]),
        forall|j: int| 0 <= j < evaluations.len() && secondary_accepted(#[trigger] evaluations[j]) ==> !secondary_better(evaluations[j], evaluations[i]),
        forall|j: int| 0 <= j < i && secondary_accepted(#[trigger] evaluations[j]) ==> secondary_better(evaluations[i], evaluations[j]),
    ensures
        evaluations[i].screen is Some && evaluations[i].screen->0.accepted,
        forall|j: int|
            0 <= j < evaluations.len() && #[trigger] evaluations[j].screen is Some && evaluations[j].screen->0.accepted
                ==> evaluations[i].coarse_tuple_count <= evaluations[j].coarse_tuple_count,
        forall|j: int|
            0 <= j < evaluations.len() && #[trigger] evaluations[j].screen is Some && evaluations[j].screen->0.accepted
                && evaluations[j].coarse_tuple_count == evaluations[i].coarse_tuple_count
                ==> evaluations[i].coarse_dimension <= evaluations[j].coarse_dimension,
        forall|j: int|
            0 <= j < evaluations.len() && #[trigger] evaluations[j].screen is Some && evaluations[j].screen->0.accepted
                && evaluations[j].coarse_tuple_count == evaluations[i].coarse_tuple_count
                && evaluations[j].coarse_dimension == evaluations[i].coarse_dimension
                ==> evaluations[i].screen->0.diagonal_factor_key <= evaluations[j].screen->0.diagonal_factor_key,
        forall|j: int|
            0 <= j < evaluations.len() && #[trigger] evaluations[j].screen is Some && evaluations[j].screen->0.accepted
                && evaluations[j].coarse_tuple_count == evaluations[i].coarse_tuple_count
                && evaluations[j].coarse_dimension == evaluations[i].coarse_dimension
                && evaluations[j].screen->0.diagonal_factor_key == evaluations[i].screen->0.diagonal_factor_key
                && evaluations[j].source is BootstrapFinal ==> evaluations[i].source is BootstrapFinal,
        forall|j: int|
            0 <= j < i && #[trigger] evaluations[j].screen is Some && evaluations[j].screen->0.accepted
                ==> !(evaluations[j].coarse_tuple_count == evaluations[i].coarse_tuple_count
                && evaluations[j].coarse_dimension == evaluations[i].coarse_dimension
                && evaluations[j].screen->0.diagonal_factor_key == evaluations[i].screen->0.diagonal_factor_key
                && evaluations[j].source == evaluations[i].source),
{
    assert forall|j: int|
        0 <= j < evaluations.len() && #[trigger] evaluations[j].screen is Some && evaluations[j].screen->0.accepted
            implies !secondary_better(evaluations[j], evaluations[i]) by {
        assert(secondary_accepted(evaluations[j]));
    }
    assert forall|j: int|
        0 <= j < i && #[trigger] evaluations[j].screen is Some && evaluations[j].screen->0.accepted
            implies secondary_better(evaluations[i], evaluations[j]) by {
        assert(secondary_accepted(evaluations[j]));
    }
}

/// The accepted candidate that ranks first (the earliest among equals) and
/// how the portfolio accepted it.
///
/// Candidates are ranked by coarse tuple count, then coarse dimension, then
/// diagonal-factor key, then source order, each smaller first; the field-wise
/// statement is [`lemma_secondary_selection_is_least`], restated here.
pub fn select_secondary_candidate(evaluations: &Vec<SecondaryEvaluation>) -> (r: (Option<usize>, BootstrapAcceptanceScreen))
    ensures
        r.0 is None <==> forall|j: int| 0 <= j < evaluations@.len() ==> !secondary_accepted(#[trigger] evaluations@[j]),
        r.0 is None <==> forall|j: int|
            0 <= j < evaluations@.len() ==> !(#[trigger] evaluations@[j].screen is Some && evaluations@[j].screen->0.accepted),
        r.0 matches Some(i) ==> {
            let e = evaluations@;
            &&& e[i as int].screen is Some && e[i as int].screen->0.accepted
            &&& forall|j: int|
                0 <= j < e.len() && #[trigger] e[j].screen is Some && e[j].screen->0.accepted
                    ==> e[i as int].coarse_tuple_count <= e[j].coarse_tuple_count
            &&& forall|j: int|
                0 <= j < e.len() && #[trigger] e[j].screen is Some && e[j].screen->0.accepted
                    && e[j].coarse_tuple_count == e[i as int].coarse_tuple_count
                    ==> e[i as int].coarse_dimension <= e[j].coarse_dimension
            &&& forall|j: int|
                0 <= j < e.len() && #[trigger] e[j].screen is Some && e[j].screen->0.accepted
                    && e[j].coarse_tuple_count == e[i as int].coarse_tuple_count
                    && e[j].coarse_dimension == e[i as int].coarse_dimension
                    ==> e[i as int].screen->0.diagonal_factor_key <= e[j].screen->0.diagonal_factor_key
            &&& forall|j: int|
                0 <= j < e.len() && #[trigger] e[j].screen is Some && e[j].screen->0.accepted
                    && e[j].coarse_tuple_count == e[i as int].coarse_tuple_count
                    && e[j].coarse_dimension == e[i as int].coarse_dimension
                    && e[j].screen->0.diagonal_factor_key == e[i as int].screen->0.diagonal_factor_key
                    && e[j].source is BootstrapFinal ==> e[i as int].source is BootstrapFinal
            &&& forall|j: int|
                0 <= j < i && #[trigger] e[j].screen is Some && e[j].screen->0.accepted
                    ==> !(e[j].coarse_tuple_count == e[i as int].coarse_tuple_count
                    && e[j].coarse_dimension == e[i as int].coarse_dimension
                    && e[j].screen->0.diagonal_factor_key == e[i as int].screen->0.diagonal_factor_key
                    && e[j].source == e[i as int].source)
        },
        r.0 is None ==> r.1 == BootstrapAcceptanceScreen::Rejected,
        r.0 matches Some(i) ==> {
            &&& i < evaluations@.len()
            &&& secondary_accepted(evaluations@[i as int])
            &&& forall|j: int| 0 <= j < evaluations@.len() && secondary_accepted(#[trigger] evaluations@[j]) ==> !secondary_better(evaluations@[j], evaluations@[i as int])
            &&& forall|j: int| 0 <= j < i && secondary_accepted(#[trigger] evaluations@[j]) ==> secondary_better(evaluations@[i as int], evaluations@[j])
            &&& evaluations@[i as int].source is BootstrapFinal ==> r.1 == BootstrapAcceptanceScreen::SecondaryBootstrapFinal
            &&& evaluations@[i as int].source is StructuralBaseline ==> r.1 == BootstrapAcceptanceScreen::SecondaryStructuralBaseline
        },
{
    let mut best: Option<usize> = None;
    let mut k: usize = 0;
    while k < evaluations.len()
        invariant
            k <= evaluations.len(),
            best is None <==> forall|j: int| 0 <= j < k ==> !secondary_accepted(#[trigger] evaluations@[j]),
            best matches Some(i) ==> {
                &&& i < k
                &&& secondary_accepted(evaluations@[i as int])
                &&& forall|j: int| 0 <= j < k && secondary_accepted(#[trigger] evaluations@[j]) ==> !secondary_better(evaluations@[j], evaluations@[i as int])
                &&& forall|j: int| 0 <= j < i && secondary_accepted(#[trigger] evaluations@[j]) ==> secondary_better(evaluations@[i as int], evaluations@[j])
            },
        decreases evaluations.len() - k,
    {
        let accepted = match evaluations[k].screen {
            Some(s) => s.accepted,
            None => false,
        };
        if accepted {
            match best {
                None => {
                    best = Some(k);
                },
                Some(i) => {
                    if better(&evaluations[k], &evaluations[i]) {
                        best = Some(k);
                    }
                },
            }
        }
        k += 1;
    }
    proof {
        if let Some(i) = best {
            lemma_secondary_selection_is_least(evaluations@, i as int);
        }
        assert forall|j: int| 0 <= j < evaluations@.len() implies (secondary_accepted(#[trigger] evaluations@[j])
            <==> (evaluations@[j].screen is Some && evaluations@[j].screen->0.accepted)) by {}
    }
    match best {
        None => (None, BootstrapAcceptanceScreen::Rejected),
        Some(i) => match evaluations[i].source {
            SecondaryScreenCandidateSource::BootstrapFinal => (Some(i), BootstrapAcceptanceScreen::SecondaryBootstrapFinal),
            SecondaryScreenCandidateSource::StructuralBaseline => (Some(i), BootstrapAcceptanceScreen::SecondaryStructuralBaseline),
        },
    }
}

/// Additional deterministic work charged to the secondary portfolio screen.
#[derive(Debug, Clone, Copy, PartialEq, Eq)]
pub struct SecondaryScreenWorkReport {
    /// Distinct candidate maps considered.
    pub candidate_maps_considered: usize,
    /// Additional Gramian applications.
    pub compatible_gramian_applications: usize,
    /// Additional secondary-smoother applications.
    pub compatible_smoother_applications: usize,
    /// Principal retained bytes in secondary reports and witnesses.
    pub retained_report_bytes_estimate: usize,
}

/// One count per candidate, selected by `which` from its screen.
pub open spec fn screen_terms(evaluations: Seq<SecondaryEvaluation>, which: int) -> Seq<int> {
    Seq::new(
        evaluations.len(),
        |i: int|
            match evaluations[i].screen {
                None => 0,
                Some(s) => if which == 0 {
                    s.gramian_applications as int
                } else if which == 1 {
                    s.smoother_applications as int
                } else {
                    s.retained_bytes_estimate as int
                },
            },
    )
}

impl SecondaryScreenWorkReport {
    /// The report when the primary path accepted and no secondary work ran.
    pub fn none() -> (r: Self)
        ensures
            r.candidate_maps_considered == 0,
            r.compatible_gramian_applications == 0,
            r.compatible_smoother_applications == 0,
            r.retained_report_bytes_estimate == 0,
    {
        SecondaryScreenWorkReport {
            candidate_maps_considered: 0,
            compatible_gramian_applications: 0,
            compatible_smoother_applications: 0,
            retained_report_bytes_estimate: 0,
        }
    }

    /// Saturating work counts over the evaluated secondary candidates.
    pub fn from_evaluations(evaluations: &Vec<SecondaryEvaluation>) -> (r: Self)
        ensures
            r.candidate_maps_considered == evaluations@.len(),
            r.compatible_gramian_applications == sat_sum(screen_terms(evaluations@, 0)),
            r.compatible_smoother_applications == sat_sum(screen_terms(evaluations@, 1)),
            r.retained_report_bytes_estimate == sat_sum(screen_terms(evaluations@, 2)),
    {
        let ghost t0 = screen_terms(evaluations@, 0);
        let ghost t1 = screen_terms(evaluations@, 1);
        let ghost t2 = screen_terms(evaluations@, 2);
        let mut gramian: usize = 0;
        let mut smoother: usize = 0;
        let mut bytes: usize = 0;
        let mut i: usize = 0;
        while i < evaluations.len()
            invariant
                i <= evaluations.len(),
                t0 == screen_terms(evaluations@, 0),
                t1 == screen_terms(evaluations@, 1),
                t2 == screen_terms(evaluations@, 2),
                gramian == sat_sum(t0.take(i as int)),
                smoother == sat_sum(t1.take(i as int)),
                bytes == sat_sum(t2.take(i as int)),
            decreases evaluations.len() - i,
        {
            proof {
                lemma_sat_sum_take_step(t0, i as int);
                lemma_sat_sum_take_step(t1, i as int);
                lemma_sat_sum_take_step(t2, i as int);
            }
            match evaluations[i].screen {
                None => {
                    gramian = sat_add(gramian, 0);
                    smoother = sat_add(smoother, 0);
                    bytes = sat_add(bytes, 0);
                },
                Some(s) => {
                    gramian = sat_add(gramian, s.gramian_applications);
                    smoother = sat_add(smoother, s.smoother_applications);
                    bytes = sat_add(bytes, s.retained_bytes_estimate);
                },
            }
            i += 1;
        }
        proof {
            assert(t0.take(i as int) =~= t0);
            assert(t1.take(i as int) =~= t1);
            assert(t2.take(i as int) =~= t2);
        }
        SecondaryScreenWorkReport {
            candidate_maps_considered: evaluations.len(),
            compatible_gramian_applications: gramian,
            compatible_smoother_applications: smoother,
            retained_report_bytes_estimate: bytes,
        }
    }

    /// Distinct candidate maps considered.
    pub fn candidate_maps_considered(self) -> (r: usize)
        ensures
            r == self.candidate_maps_considered,
    {
        self.candidate_maps_considered
    }

    /// Additional Gramian applications.
    pub fn compatible_gramian_applications(self) -> (r: usize)
        ensures
            r == self.compatible_gramian_applications,
    {
        self.compatible_gramian_applications
    }

    /// Additional secondary-smoother applications.
    pub fn compatible_smoother_applications(self) -> (r: usize)
        ensures
            r == self.compatible_smoother_applications,
    {
        self.compatible_smoother_applications
    }

    /// Principal retained bytes in secondary reports and witnesses.
    pub fn retained_report_bytes_estimate(self) -> (r: usize)
        ensures
            r == self.retained_report_bytes_estimate,
    {
        self.retained_report_bytes_estimate
    }
}

/// Phase-separated timing for the complete two-stage builder.
#[derive(Debug, Clone, Copy, PartialEq, Eq)]
pub struct ScreenedBootstrapBuildTiming {
    /// Primary bootstrap, repair, and protected-baseline timing.
    pub primary: BootstrapAggregationBuildTiming,
    /// Secondary candidate construction and compatible screening.
    pub secondary_screen: Duration,
    /// Complete portfolio construction time.
    pub total: Duration,
}

impl ScreenedBootstrapBuildTiming {
    /// Primary bootstrap, repair, and protected-baseline timing.
    pub fn primary(self) -> (r: BootstrapAggregationBuildTiming)
        ensures
            r == self.primary,
    {
        self.primary
    }

    /// Secondary candidate construction and compatible screening.
    pub fn secondary_screen(self) -> (r: Duration)
        ensures
            r == self.secondary_screen,
    {
        self.secondary_screen
    }

    /// Complete portfolio construction time.
    pub fn total(self) -> (r: Duration)
        ensures
            r == self.total,
    {
        self.total
    }
}

} // verus!
