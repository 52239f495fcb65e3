//! Round decisions of the bootstrap aggregation builder.
//!
//! Each round builds a matching from the current test vectors, screens its
//! structure, runs a compatible-relaxation screen and either stops or appends
//! the slowest witness. The numerical work of a round stays with the caller;
//! this module decides, from what the round observed, what happens next.
use vstd::prelude::*;

verus! {

/// Why the bootstrap rounds, and the optional split repair after them, stopped.
#[derive(Debug, Clone, Copy, PartialEq, Eq, Structural)]
pub enum BootstrapRoundStop {
    /// The first matching passed every gate.
    AcceptedInitial,
    /// A matching rebuilt after appending witnesses passed every gate.
    AcceptedAfterBootstrap {
        /// Number of appended witnesses.
        witnesses: usize,
    },
    /// Monotone split repair accepted the final bootstrap map.
    AcceptedAfterSplitRepair {
        /// Number of appended bootstrap witnesses.
        witnesses: usize,
        /// Number of admitted aggregate splits.
        splits: usize,
    },
    /// The matching left no compatible complement.
    NoCompatibleComplement,
    /// The matching exceeded the coarse-dimension budget.
    CoarseDimensionBudget {
        /// Observed coarse dimension.
        observed: usize,
        /// Maximum admitted coarse dimension.
        maximum: usize,
    },
    /// The matching fell short of the fractional tuple-reduction budget; the
    /// observed and required fractions stay with the caller.
    TupleReductionBudget,
    /// The matching exceeded the two-level tuple-complexity budget; the
    /// observed and admitted complexities stay with the caller.
    TupleComplexityBudget,
    /// Appending slow witnesses no longer changed the matching.
    MatchingStagnated {
        /// Number of witnesses available at stagnation.
        witnesses: usize,
    },
    /// The configured witness budget was exhausted.
    WitnessBudget {
        /// Maximum number of appended witnesses.
        maximum: usize,
    },
    /// The optional split repair also rejected the map.
    SplitRepairRejected,
}

/// What one round observed, in the order the round observes it.
#[derive(Debug, Clone, Copy, PartialEq, Eq, Structural)]
pub enum BootstrapRoundEvent {
    /// Structural sizes of the round's matching.
    Structure {
        /// Coarse coefficient dimension of the matching.
        coarse_dimension: usize,
        /// Largest admitted coarse dimension.
        maximum_coarse_dimension: usize,
        /// Whether the tuple reduction fell below its required fraction.
        tuple_reduction_short: bool,
        /// Whether the two-level tuple complexity exceeded its maximum.
        tuple_complexity_exceeded: bool,
        /// Fine coefficient dimension.
        fine_dimension: usize,
    },
    /// Outcome of the compatible-relaxation screen of the round's matching.
    Compatible {
        /// Whether the screen accepted the matching.
        accepted: bool,
        /// Whether the matching differs from the previous round's.
        matching_changed: bool,
    },
}

/// What the caller does next.
#[derive(Debug, Clone, Copy, PartialEq, Eq, Structural)]
pub enum BootstrapRoundAction {
    /// Run the compatible-relaxation screen on the round's matching.
    RunCompatibleScreen,
    /// Append the slowest witness and build the next round's matching.
    AppendWitness,
    /// Stop the rounds for the given reason.
    Stop(BootstrapRoundStop),
}

/// Position of the round loop: the current round index (also the number of
/// witnesses appended so far) and the witness budget.
#[derive(Debug, Clone, Copy, PartialEq, Eq, Structural)]
pub struct BootstrapRoundState {
    /// Index of the current round.
    pub round: usize,
    /// Maximum number of appended witnesses.
    pub maximum_witnesses: usize,
}

/// Whether a round state is reachable: the round never passes the budget.
pub open spec fn state_valid(state: BootstrapRoundState) -> bool {
    state.round <= state.maximum_witnesses
}

/// The decision for `event` in `state`, and the next state.
pub open spec fn step_spec(state: BootstrapRoundState, event: BootstrapRoundEvent) -> (BootstrapRoundState, BootstrapRoundAction) {
    match event {
        BootstrapRoundEvent::Structure {
            coarse_dimension,
            maximum_coarse_dimension,
            tuple_reduction_short,
            tuple_complexity_exceeded,
            fine_dimension,
        } => {
            if coarse_dimension > maximum_coarse_dimension {
                (state, BootstrapRoundAction::Stop(BootstrapRoundStop::CoarseDimensionBudget {
                    observed: coarse_dimension,
                    maximum: maximum_coarse_dimension,
                }))
            } else if tuple_reduction_short {
                (state, BootstrapRoundAction::Stop(BootstrapRoundStop::TupleReductionBudget))
            } else if tuple_complexity_exceeded {
                (state, BootstrapRoundAction::Stop(BootstrapRoundStop::TupleComplexityBudget))
            } else if coarse_dimension >= fine_dimension {
                (state, BootstrapRoundAction::Stop(BootstrapRoundStop::NoCompatibleComplement))
            } else {
                (state, BootstrapRoundAction::RunCompatibleScreen)
            }
        },
        BootstrapRoundEvent::Compatible { accepted, matching_changed } => {
            if accepted {
                if state.round == 0 {
                    (state, BootstrapRoundAction::Stop(BootstrapRoundStop::AcceptedInitial))
                } else {
                    (state, BootstrapRoundAction::Stop(BootstrapRoundStop::AcceptedAfterBootstrap {
                        witnesses: state.round,
                    }))
                }
            } else if state.round >= state.maximum_witnesses {
                (state, BootstrapRoundAction::Stop(BootstrapRoundStop::WitnessBudget {
                    maximum: state.maximum_witnesses,
                }))
            } else if !matching_changed && state.round > 0 {
                (state, BootstrapRoundAction::Stop(BootstrapRoundStop::MatchingStagnated {
                    witnesses: state.round,
                }))
            } else {
                (
                    BootstrapRoundState { round: (state.round + 1) as usize, ..state },
                    BootstrapRoundAction::AppendWitness,
                )
            }
        },
    }
}

/// Decide what follows `event` in `state`.
///
/// A structure event screens the coarse-dimension budget, then the tuple
/// reduction, then the two-level tuple complexity, then the existence of a compatible complement. A compatible event
/// accepts, or stops at the witness budget, or stops when a later round's
/// matching did not change, or appends a witness and moves to the next round.
pub fn bootstrap_step(state: BootstrapRoundState, event: BootstrapRoundEvent) -> (r: (BootstrapRoundState, BootstrapRoundAction))
    requires
        state_valid(state),
    ensures
        r == step_spec(state, event),
        state_valid(r.0),
        event matches BootstrapRoundEvent::Structure {
            coarse_dimension,
            maximum_coarse_dimension,
            tuple_reduction_short,
            tuple_complexity_exceeded,
            ..
        } ==> (r.1 == BootstrapRoundAction::RunCompatibleScreen ==> coarse_dimension <= maximum_coarse_dimension
            && !tuple_reduction_short && !tuple_complexity_exceeded),
        event matches BootstrapRoundEvent::Compatible { accepted, .. } ==> (r.1 == BootstrapRoundAction::AppendWitness
            ==> !accepted && r.0.round == state.round + 1),
{
    proof {
        lemma_round_decision(state, event);
    }
    match event {
        BootstrapRoundEvent::Structure {
            coarse_dimension,
            maximum_coarse_dimension,
            tuple_reduction_short,
            tuple_complexity_exceeded,
            fine_dimension,
        } => {
            if coarse_dimension > maximum_coarse_dimension {
                (state, BootstrapRoundAction::Stop(BootstrapRoundStop::CoarseDimensionBudget {
                    observed: coarse_dimension,
                    maximum: maximum_coarse_dimension,
                }))
            } else if tuple_reduction_short {
                (state, BootstrapRoundAction::Stop(BootstrapRoundStop::TupleReductionBudget))
            } else if tuple_complexity_exceeded {
                (state, BootstrapRoundAction::Stop(BootstrapRoundStop::TupleComplexityBudget))
            } else if coarse_dimension >= fine_dimension {
                (state, BootstrapRoundAction::Stop(BootstrapRoundStop::NoCompatibleComplement))
            } else {
                (state, BootstrapRoundAction::RunCompatibleScreen)
            }
        },
        BootstrapRoundEvent::Compatible { accepted, matching_changed } => {
            if accepted {
                if state.round == 0 {
                    (state, BootstrapRoundAction::Stop(BootstrapRoundStop::AcceptedInitial))
                } else {
                    (state, BootstrapRoundAction::Stop(BootstrapRoundStop::AcceptedAfterBootstrap {
                        witnesses: state.round,
                    }))
                }
            } else if state.round >= state.maximum_witnesses {
                (state, BootstrapRoundAction::Stop(BootstrapRoundStop::WitnessBudget {
                    maximum: state.maximum_witnesses,
                }))
            } else if !matching_changed && state.round > 0 {
                (state, BootstrapRoundAction::Stop(BootstrapRoundStop::MatchingStagnated {
                    witnesses: state.round,
                }))
            } else {
                (
                    BootstrapRoundState { round: state.round + 1, maximum_witnesses: state.maximum_witnesses },
                    BootstrapRoundAction::AppendWitness,
                )
            }
        },
    }
}

/// Law: the decision of a round, stated over what it observed. A structure
/// event never moves the round; it stops at the first broken gate (coarse
/// dimension above its maximum, then tuple reduction, then tuple complexity,
/// then no compatible complement when the coarse dimension reaches the fine
/// one) and otherwise asks for the compatible screen. A compatible event
/// stops on acceptance (naming the appended witnesses after the first round),
/// then on a spent witness budget, then on an unchanged matching after the
/// first round; otherwise it appends a witness and moves to the next round.
pub proof fn lemma_round_decision(state: BootstrapRoundState, event: BootstrapRoundEvent)
    requires
        state_valid(state),
    ensures
        ({
            let (next, action) = step_spec(state, event);
            match event {
                BootstrapRoundEvent::Structure {
                    coarse_dimension,
                    maximum_coarse_dimension,
                    tuple_reduction_short,
                    tuple_complexity_exceeded,
                    fine_dimension,
                } => {
                    &&& next == state
                    &&& coarse_dimension > maximum_coarse_dimension ==> action == BootstrapRoundAction::Stop(
                        BootstrapRoundStop::CoarseDimensionBudget {
                            observed: coarse_dimension,
                            maximum: maximum_coarse_dimension,
                        },
                    )
                    &&& coarse_dimension <= maximum_coarse_dimension && tuple_reduction_short ==> action
                        == BootstrapRoundAction::Stop(BootstrapRoundStop::TupleReductionBudget)
                    &&& coarse_dimension <= maximum_coarse_dimension && !tuple_reduction_short
                        && tuple_complexity_exceeded ==> action == BootstrapRoundAction::Stop(
                        BootstrapRoundStop::TupleComplexityBudget,
                    )
                    &&& coarse_dimension <= maximum_coarse_dimension && !tuple_reduction_short
                        && !tuple_complexity_exceeded && coarse_dimension >= fine_dimension ==> action
                        == BootstrapRoundAction::Stop(BootstrapRoundStop::NoCompatibleComplement)
                    &&& coarse_dimension <= maximum_coarse_dimension && !tuple_reduction_short
                        && !tuple_complexity_exceeded && coarse_dimension < fine_dimension ==> action
                        == BootstrapRoundAction::RunCompatibleScreen
                },
                BootstrapRoundEvent::Compatible { accepted, matching_changed } => {
                    &&& accepted && state.round == 0 ==> next == state && action == BootstrapRoundAction::Stop(
                        BootstrapRoundStop::AcceptedInitial,
                    )
                    &&& accepted && state.round > 0 ==> next == state && action == BootstrapRoundAction::Stop(
                        BootstrapRoundStop::AcceptedAfterBootstrap { witnesses: state.round },
                    )
                    &&& !accepted && state.round >= state.maximum_witnesses ==> next == state && action
                        == BootstrapRoundAction::Stop(
                        BootstrapRoundStop::WitnessBudget { maximum: state.maximum_witnesses },
                    )
                    &&& !accepted && state.round < state.maximum_witnesses && !matching_changed && state.round > 0
                        ==> next == state && action == BootstrapRoundAction::Stop(
                        BootstrapRoundStop::MatchingStagnated { witnesses: state.round },
                    )
                    &&& !accepted && state.round < state.maximum_witnesses && (matching_changed || state.round
                        == 0) ==> action == BootstrapRoundAction::AppendWitness && next.round == state.round + 1
                        && next.maximum_witnesses == state.maximum_witnesses
                },
            }
        }),
{
}

/// Number of witnesses appended while the rounds run over `events` from
/// `state`, up to the first stop.
pub open spec fn appended_witnesses(state: BootstrapRoundState, events: Seq<BootstrapRoundEvent>) -> nat
    decreases events.len(),
{
    if events.len() == 0 {
        0
    } else {
        let (next, action) = step_spec(state, events[0]);
        match action {
            BootstrapRoundAction::Stop(_) => 0,
            BootstrapRoundAction::AppendWitness => 1 + appended_witnesses(next, events.drop_first()),
            BootstrapRoundAction::RunCompatibleScreen => appended_witnesses(next, events.drop_first()),
        }
    }
}

/// Law: whatever the rounds observe, they append at most the witness budget
/// beyond the current round, so the builder runs at most `maximum + 1` rounds.
pub proof fn lemma_witness_budget_bounds_rounds(state: BootstrapRoundState, events: Seq<BootstrapRoundEvent>)
    requires
        state_valid(state),
    ensures
        state.round + appended_witnesses(state, events) <= state.maximum_witnesses,
    decreases events.len(),
{
    if events.len() > 0 {
        let (next, action) = step_spec(state, events[0]);
        lemma_witness_budget_bounds_rounds(next, events.drop_first());
    }
}

/// Law: the rounds accept exactly when the compatible screen accepts, and an
/// acceptance or a stagnation names the witnesses appended so far; stagnation
/// is never reported before a witness was appended.
pub proof fn lemma_stop_reasons_name_the_round(state: BootstrapRoundState, event: BootstrapRoundEvent)
    requires
        state_valid(state),
    ensures
        (step_spec(state, event).1 matches BootstrapRoundAction::Stop(stop) && (stop is AcceptedInitial
            || stop is AcceptedAfterBootstrap)) <==> (event matches BootstrapRoundEvent::Compatible { accepted, .. }
            && accepted),
        step_spec(state, event).1 matches BootstrapRoundAction::Stop(BootstrapRoundStop::AcceptedAfterBootstrap { witnesses })
            ==> witnesses == state.round && witnesses > 0,
        step_spec(state, event).1 matches BootstrapRoundAction::Stop(BootstrapRoundStop::MatchingStagnated { witnesses })
            ==> witnesses == state.round && witnesses > 0,
{
}

/// Final acceptance and stop reason once the rounds stopped with `stop`
/// (`accepted` telling whether they accepted) after appending `witnesses`.
///
/// When the rounds did not accept and a split repair ran, its outcome
/// (`Some((accepted, splits))`) decides; otherwise the rounds' result stands.
pub fn finish_with_split_repair(
    stop: BootstrapRoundStop,
    accepted: bool,
    witnesses: usize,
    repair: Option<(bool, usize)>,
) -> (r: (bool, BootstrapRoundStop))
    ensures
        accepted ==> r == (accepted, stop),
        !accepted && repair is None ==> r == (accepted, stop),
        !accepted ==> (repair matches Some((true, splits)) ==> r == (true, BootstrapRoundStop::AcceptedAfterSplitRepair {
            witnesses,
            splits,
        })),
        !accepted ==> (repair matches Some((false, _)) ==> r == (false, BootstrapRoundStop::SplitRepairRejected)),
{
    if accepted {
        return (accepted, stop);
    }
    match repair {
        Some((true, splits)) => (true, BootstrapRoundStop::AcceptedAfterSplitRepair { witnesses, splits }),
        Some((false, _)) => (false, BootstrapRoundStop::SplitRepairRejected),
        None => (accepted, stop),
    }
}

/// Parent arrays of an aggregation, one per factor, as sequences.
pub open spec fn parents_view(parents: Seq<Vec<u32>>) -> Seq<Seq<u32>> {
    parents.map_values(|v: Vec<u32>| v@)
}

/// Whether a round's matching differs from the previous round's: always
/// true in the first round.
#[verifier::loop_isolation(false)]
pub fn matching_changed(previous: &Option<Vec<Vec<u32>>>, current: &Vec<Vec<u32>>) -> (r: bool)
    ensures
        r == !(previous matches Some(p) && parents_view(p@) == parents_view(current@)),
{
    match previous {
        None => true,
        Some(p) => {
            if p.len() != current.len() {
                assert(parents_view(p@).len() != parents_view(current@).len());
                return true;
            }
            let mut f: usize = 0;
            while f < p.len()
                invariant
                    f <= p@.len(),
                    p@.len() == current@.len(),
                    forall|g: int| 0 <= g < f ==> #[trigger] p@[g]@ == current@[g]@,
                decreases p@.len() - f,
            {
                let a = &p[f];
                let b = &current[f];
                if a.len() != b.len() {
                    assert(parents_view(p@)[f as int].len() != parents_view(current@)[f as int].len());
                    assert(parents_view(p@) != parents_view(current@));
                    return true;
                }
                let mut i: usize = 0;
                while i < a.len()
                    invariant
                        i <= a@.len(),
                        a@.len() == b@.len(),
                        f < p@.len(),
                        p@.len() == current@.len(),
                        a@ == p@[f as int]@,
                        b@ == current@[f as int]@,
                        forall|j: int| 0 <= j < i ==> #[trigger] a@[j] == b@[j],
                    decreases a@.len() - i,
                {
                    if a[i] != b[i] {
                        assert(parents_view(p@)[f as int][i as int] != parents_view(current@)[f as int][i as int]);
                        assert(parents_view(p@) != parents_view(current@));
                        return true;
                    }
                    i = i + 1;
                }
                assert(a@ =~= b@);
                f = f + 1;
            }
            assert(parents_view(p@) =~= parents_view(current@));
            false
        },
    }
}

} // verus!
