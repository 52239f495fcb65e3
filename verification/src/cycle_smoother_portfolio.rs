//! MAP-first, pair-CMG-fallback selection of the complete-cycle smoother.
//!
//! The cheaper symmetric-MAP cycle is screened first; all-pair CMG is built
//! and screened only when no MAP candidate passes. When neither tier passes,
//! the result is an explicit rejection, never a silent fallback.
use vstd::prelude::*;
use core::time::Duration;
use crate::cycle_portfolio::{CyclePortfolioBuildTiming, CyclePortfolioCandidateSource};
use crate::error::MultiwayError;

verus! {

/// Complete-cycle smoother selected by the deterministic portfolio.
#[derive(Debug, Clone, Copy, PartialEq, Eq, Structural)]
pub enum CycleSmootherKind {
    /// One fixed symmetric-MAP sweep before and after coarse correction.
    SymmetricMap,
    /// One fixed all-pair CMG correction before and after coarse correction.
    AllPairsCmg,
}

/// Why the smoother portfolio stopped.
#[derive(Debug, Clone, Copy, PartialEq, Eq, Structural)]
pub enum CycleSmootherPortfolioStopReason {
    /// At least one MAP cycle passed and the best MAP candidate was selected.
    AcceptedSymmetricMap,
    /// Every MAP candidate failed, but at least one pair-CMG cycle passed.
    AcceptedAllPairsCmg,
    /// Neither smoother tier produced an admissible complete cycle.
    NoAcceptedCycle,
}

/// The portfolio's decision.
#[derive(Debug, Clone, Copy, PartialEq, Eq, Structural)]
pub struct SmootherSelection {
    /// Selected cycle smoother, absent after a declared rejection.
    pub selected_smoother: Option<CycleSmootherKind>,
    /// Deterministic stop reason.
    pub stop_reason: CycleSmootherPortfolioStopReason,
}

/// Outcome of the MAP pass: the selection if it is final, or `None` when
/// the pair-CMG pass must run.
pub fn after_map_pass(map_accepted: bool) -> (r: Option<SmootherSelection>)
    ensures
        map_accepted <==> r is Some,
        r matches Some(s) ==> s.selected_smoother == Some(CycleSmootherKind::SymmetricMap)
            && s.stop_reason == CycleSmootherPortfolioStopReason::AcceptedSymmetricMap,
{
    if map_accepted {
        Some(SmootherSelection {
            selected_smoother: Some(CycleSmootherKind::SymmetricMap),
            stop_reason: CycleSmootherPortfolioStopReason::AcceptedSymmetricMap,
        })
    } else {
        None
    }
}

/// Final selection after a pair-CMG pass that followed a rejected MAP pass.
pub fn after_pair_pass(pair_accepted: bool) -> (r: SmootherSelection)
    ensures
        pair_accepted ==> r.selected_smoother == Some(CycleSmootherKind::AllPairsCmg)
            && r.stop_reason == CycleSmootherPortfolioStopReason::AcceptedAllPairsCmg,
        !pair_accepted ==> r.selected_smoother is None
            && r.stop_reason == CycleSmootherPortfolioStopReason::NoAcceptedCycle,
{
    if pair_accepted {
        SmootherSelection {
            selected_smoother: Some(CycleSmootherKind::AllPairsCmg),
            stop_reason: CycleSmootherPortfolioStopReason::AcceptedAllPairsCmg,
        }
    } else {
        SmootherSelection {
            selected_smoother: None,
            stop_reason: CycleSmootherPortfolioStopReason::NoAcceptedCycle,
        }
    }
}

impl SmootherSelection {
    /// Whether either complete-cycle tier accepted a candidate.
    pub fn accepted(self) -> (r: bool)
        ensures
            r == self.selected_smoother is Some,
    {
        self.selected_smoother.is_some()
    }

    /// Candidate source selected inside the accepted tier, from the sources
    /// selected by the MAP pass and by the pair pass (if it ran).
    pub fn selected_source(
        self,
        map_selected: Option<CyclePortfolioCandidateSource>,
        pair_selected: Option<Option<CyclePortfolioCandidateSource>>,
    ) -> (r: Option<CyclePortfolioCandidateSource>)
        ensures
            self.selected_smoother == Some(CycleSmootherKind::SymmetricMap) ==> r == map_selected,
            self.selected_smoother == Some(CycleSmootherKind::AllPairsCmg) ==> r == (match pair_selected {
                Some(s) => s,
                None => None,
            }),
            self.selected_smoother is None ==> r is None,
    {
        match self.selected_smoother {
            Some(CycleSmootherKind::SymmetricMap) => map_selected,
            Some(CycleSmootherKind::AllPairsCmg) => match pair_selected {
                Some(s) => s,
                None => None,
            },
            None => None,
        }
    }
}

/// Law: the portfolio never accepts without a passing tier, prefers MAP, and
/// reports exactly one of the three stop reasons consistently with its choice.
pub proof fn lemma_portfolio_prefers_map(map_accepted: bool, pair_accepted: bool)
    ensures
        ({
            let s = if map_accepted {
                SmootherSelection {
                    selected_smoother: Some(CycleSmootherKind::SymmetricMap),
                    stop_reason: CycleSmootherPortfolioStopReason::AcceptedSymmetricMap,
                }
            } else if pair_accepted {
                SmootherSelection {
                    selected_smoother: Some(CycleSmootherKind::AllPairsCmg),
                    stop_reason: CycleSmootherPortfolioStopReason::AcceptedAllPairsCmg,
                }
            } else {
                SmootherSelection {
                    selected_smoother: None,
                    stop_reason: CycleSmootherPortfolioStopReason::NoAcceptedCycle,
                }
            };
            &&& (s.selected_smoother is Some <==> (map_accepted || pair_accepted))
            &&& (map_accepted ==> s.selected_smoother == Some(CycleSmootherKind::SymmetricMap))
            &&& (s.stop_reason is NoAcceptedCycle <==> s.selected_smoother is None)
        }),
{
}

fn mismatch() -> (e: MultiwayError)
    ensures
        e is CycleQuality,
{
    MultiwayError::CycleQuality {
        message: "MAP and pair-CMG passes produced different deterministic map portfolios",
    }
}

/// Both passes must screen the same deterministic candidate portfolio: the
/// same number of candidates, with equal sources and (by `maps_equal`) equal
/// maps at every position.
pub fn verify_identical_candidate_maps(
    map_sources: &Vec<CyclePortfolioCandidateSource>,
    pair_sources: &Vec<CyclePortfolioCandidateSource>,
    maps_equal: &Vec<bool>,
) -> (r: Result<(), MultiwayError>)
    requires
        maps_equal@.len() == if map_sources@.len() <= pair_sources@.len() { map_sources@.len() } else { pair_sources@.len() },
    ensures
        r is Ok <==> map_sources@.len() == pair_sources@.len() && forall|i: int|
            0 <= i < map_sources@.len() ==> #[trigger] map_sources@[i] == pair_sources@[i] && maps_equal@[i],
        r matches Err(e) ==> e is CycleQuality,
{
    if map_sources.len() != pair_sources.len() {
        return Err(mismatch());
    }
    let mut i: usize = 0;
    while i < map_sources.len()
        invariant
            i <= map_sources.len(),
            map_sources@.len() == pair_sources@.len(),
            maps_equal@.len() == map_sources@.len(),
            forall|j: int| 0 <= j < i ==> #[trigger] map_sources@[j] == pair_sources@[j] && maps_equal@[j],
        decreases map_sources.len() - i,
    {
        if map_sources[i] != pair_sources[i] || !maps_equal[i] {
            return Err(mismatch());
        }
        i += 1;
    }
    Ok(())
}

/// Phase-separated descriptive timing for the selective portfolio.
#[derive(Debug, Clone, Copy, PartialEq, Eq)]
pub struct CycleSmootherPortfolioBuildTiming {
    /// MAP cycle-screening pass, including its automatic aggregation build.
    pub map_pass: CyclePortfolioBuildTiming,
    /// One-time setup of the all-pair CMG smoother, zero when MAP succeeded.
    pub pair_smoother_setup: Duration,
    /// Pair-CMG cycle-screening pass, absent when MAP succeeded.
    pub pair_pass: Option<CyclePortfolioBuildTiming>,
    /// Total portfolio construction and screening time.
    pub total: Duration,
}

impl CycleSmootherPortfolioBuildTiming {
    /// MAP cycle-screening pass, including its automatic aggregation build.
    pub fn map_pass(self) -> (r: CyclePortfolioBuildTiming)
        ensures
            r == self.map_pass,
    {
        self.map_pass
    }

    /// One-time setup of the all-pair CMG smoother, zero when MAP succeeded.
    pub fn pair_smoother_setup(self) -> (r: Duration)
        ensures
            r == self.pair_smoother_setup,
    {
        self.pair_smoother_setup
    }

    /// Pair-CMG cycle-screening pass, absent when MAP succeeded.
    pub fn pair_pass(self) -> (r: Option<CyclePortfolioBuildTiming>)
        ensures
            r == self.pair_pass,
    {
        self.pair_pass
    }

    /// Total portfolio construction and screening time.
    pub fn total(self) -> (r: Duration)
        ensures
            r == self.total,
    {
        self.total
    }
}

} // verus!
