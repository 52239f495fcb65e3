//! Aggregate membership, monotone aggregate splitting and the stop decisions
//! of bounded complete-cycle witness repair.
//!
//! The repair splits one aggregate at a time. The probe of the complete cycle,
//! the choice of the split and the fractional tuple budgets are floating-point
//! work that stays with the caller; the caller reports what it observed and
//! [`split_repair_step`] decides what follows.
use vstd::prelude::*;

verus! {

/// New parent of a level whose parent was `old` after aggregate `parent` is
/// split: lower aggregates keep their ids, higher ones move up by one, and the
/// split aggregate keeps its id for its left part and takes the next id for its
/// right part.
pub open spec fn split_parent(old: u32, parent: u32, right: bool) -> int {
    if old < parent {
        old as int
    } else if old > parent {
        old + 1
    } else if right {
        parent + 1
    } else {
        parent as int
    }
}

/// Whether level `l` is listed in `members`.
pub open spec fn listed(members: Seq<u32>, l: int) -> bool {
    exists|k: int| 0 <= k < members.len() && #[trigger] members[k] as int == l
}

/// Split aggregate `parent` of one factor, sending the levels listed in
/// `right_members` to a new aggregate `parent + 1` and renumbering every
/// higher aggregate up by one.
pub fn apply_split(parents: &[u32], coarse_count: usize, parent: u32, right_members: &[u32]) -> (r: Vec<u32>)
    requires
        coarse_count <= u32::MAX,
        parent < coarse_count,
        forall|l: int| 0 <= l < parents@.len() ==> #[trigger] parents@[l] < coarse_count,
        forall|k: int| 0 <= k < right_members@.len() ==> #[trigger] right_members@[k] < parents@.len(),
    ensures
        r@.len() == parents@.len(),
        forall|l: int|
            0 <= l < parents@.len() ==> #[trigger] r@[l] == split_parent(
                parents@[l],
                parent,
                listed(right_members@, l),
            ),
        forall|l: int| 0 <= l < r@.len() ==> #[trigger] r@[l] < coarse_count + 1,
{
    let n = parents.len();
    let mut right: Vec<bool> = Vec::new();
    let mut i: usize = 0;
    while i < n
        invariant
            i <= n,
            right@.len() == i,
            forall|j: int| 0 <= j < i ==> !#[trigger] right@[j],
        decreases n - i,
    {
        right.push(false);
        i = i + 1;
    }
    let mut k: usize = 0;
    while k < right_members.len()
        invariant
            k <= right_members@.len(),
            n == parents@.len(),
            right@.len() == n,
            forall|m: int| 0 <= m < right_members@.len() ==> #[trigger] right_members@[m] < parents@.len(),
            forall|j: int| 0 <= j < n ==> #[trigger] right@[j] == listed(right_members@.take(k as int), j),
        decreases right_members@.len() - k,
    {
        let level = right_members[k] as usize;
        right.set(level, true);
        assert forall|j: int| 0 <= j < n implies #[trigger] right@[j] == listed(right_members@.take(k as int + 1), j) by {
            let next = right_members@.take(k as int + 1);
            let prev = right_members@.take(k as int);
            assert(next =~= prev.push(right_members@[k as int]));
            if listed(next, j) {
                let m = choose|m: int| 0 <= m < next.len() && #[trigger] next[m] as int == j;
                if m < k {
                    assert(prev[m] as int == j);
                }
            }
            if listed(prev, j) {
                let m = choose|m: int| 0 <= m < prev.len() && #[trigger] prev[m] as int == j;
                assert(next[m] as int == j);
            }
            if j == level {
                assert(next[k as int] as int == j);
            }
        }
        k = k + 1;
    }
    assert(right_members@.take(right_members@.len() as int) =~= right_members@);
    let mut out: Vec<u32> = Vec::new();
    let mut level: usize = 0;
    while level < n
        invariant
            level <= n,
            n == parents@.len(),
            right@.len() == n,
            coarse_count <= u32::MAX,
            parent < coarse_count,
            forall|l: int| 0 <= l < parents@.len() ==> #[trigger] parents@[l] < coarse_count,
            forall|j: int| 0 <= j < n ==> #[trigger] right@[j] == listed(right_members@, j),
            out@.len() == level,
            forall|l: int| 0 <= l < level ==> #[trigger] out@[l] == split_parent(parents@[l], parent, listed(right_members@, l)),
            forall|l: int| 0 <= l < level ==> #[trigger] out@[l] < coarse_count + 1,
        decreases n - level,
    {
        let old = parents[level];
        let new = if old < parent {
            old
        } else if old > parent {
            old + 1
        } else if right[level] {
            parent + 1
        } else {
            parent
        };
        out.push(new);
        level = level + 1;
    }
    out
}

/// Law: splitting refines the aggregation by exactly one aggregate.
///
/// Two levels share a new aggregate exactly when they shared the old one and,
/// if that was the split aggregate, lie on the same side of the split.
pub proof fn lemma_split_refines(old_a: u32, old_b: u32, parent: u32, right_a: bool, right_b: bool)
    ensures
        split_parent(old_a, parent, right_a) == split_parent(old_b, parent, right_b) <==> (old_a == old_b
            && (old_a != parent || right_a == right_b)),
        split_parent(old_a, parent, right_a) == old_a || split_parent(old_a, parent, right_a) == old_a + 1,
{
}

/// Levels of each aggregate: `members[p]` lists, in increasing order, the
/// levels whose parent is `p`.
pub fn aggregate_members(parents: &[u32], coarse_count: usize) -> (members: Vec<Vec<usize>>)
    requires
        forall|l: int| 0 <= l < parents@.len() ==> #[trigger] parents@[l] < coarse_count,
    ensures
        members@.len() == coarse_count,
        forall|p: int, k: int|
            0 <= p < coarse_count && 0 <= k < members@[p]@.len() ==> #[trigger] members@[p]@[k] < parents@.len()
                && parents@[members@[p]@[k] as int] == p,
        forall|p: int, a: int, b: int|
            0 <= p < coarse_count && 0 <= a < b < members@[p]@.len() ==> #[trigger] members@[p]@[a] < #[trigger] members@[p]@[b],
        forall|l: int| 0 <= l < parents@.len() ==> #[trigger] members@[parents@[l] as int]@.contains(l as usize),
{
    let mut members: Vec<Vec<usize>> = Vec::new();
    let mut p: usize = 0;
    while p < coarse_count
        invariant
            p <= coarse_count,
            members@.len() == p,
            forall|q: int| 0 <= q < p ==> #[trigger] members@[q]@.len() == 0,
        decreases coarse_count - p,
    {
        members.push(Vec::new());
        p = p + 1;
    }
    let n = parents.len();
    let mut level: usize = 0;
    while level < n
        invariant
            level <= n,
            n == parents@.len(),
            members@.len() == coarse_count,
            forall|l: int| 0 <= l < parents@.len() ==> #[trigger] parents@[l] < coarse_count,
            forall|q: int, k: int|
                0 <= q < coarse_count && 0 <= k < members@[q]@.len() ==> #[trigger] members@[q]@[k] < level
                    && parents@[members@[q]@[k] as int] == q,
            forall|q: int, a: int, b: int|
                0 <= q < coarse_count && 0 <= a < b < members@[q]@.len() ==> #[trigger] members@[q]@[a] < #[trigger] members@[q]@[b],
            forall|l: int| 0 <= l < level ==> #[trigger] members@[parents@[l] as int]@.contains(l as usize),
        decreases n - level,
    {
        let parent = parents[level] as usize;
        let ghost before = members@;
        let ghost old_list = members@[parent as int]@;
        members[parent].push(level);
        assert(members@[parent as int]@ == old_list.push(level));
        assert(forall|q: int| 0 <= q < coarse_count && q != parent ==> members@[q] == before[q]);
        assert forall|l: int| 0 <= l < level + 1 implies #[trigger] members@[parents@[l] as int]@.contains(l as usize) by {
            if l < level {
                assert(before[parents@[l] as int]@.contains(l as usize));
                if parents@[l] as int == parent as int {
                    let k = choose|k: int| 0 <= k < old_list.len() && old_list[k] == l as usize;
                    assert(members@[parent as int]@[k] == l as usize);
                }
            } else {
                assert(members@[parent as int]@[old_list.len() as int] == level);
            }
        }
        level = level + 1;
    }
    members
}

/// Why complete-cycle split repair stopped. Fractional quantities (tuple
/// reduction, complexity, cycle factors, score fractions) stay with the caller.
#[derive(Debug, Clone, Copy, PartialEq, Eq, Structural)]
pub enum SplitRepairStop {
    /// No admissible aggregate carried enough slow-witness energy.
    NoSplittableAggregate,
    /// The map exceeds the coarse-dimension budget.
    CoarseDimensionBudget {
        /// Coarse dimension of the offending map.
        attempted_dimension: usize,
        /// Maximum admitted coarse dimension.
        maximum_dimension: usize,
    },
    /// The map leaves insufficient tuple reduction.
    TupleReductionBudget,
    /// The map exceeds the two-level tuple-complexity budget.
    TupleComplexityBudget,
    /// The proposed split did not improve the complete-cycle factor enough.
    InsufficientCycleImprovement,
    /// The configured split budget was exhausted.
    MaximumRounds {
        /// Configured maximum admitted splits.
        maximum_rounds: usize,
    },
}

/// What the repair waits for next.
#[derive(Debug, Clone, Copy, PartialEq, Eq, Structural)]
pub enum SplitRepairPhase {
    /// The structural metrics of the initial map.
    InitialMetrics,
    /// Whether the slowest witness names an aggregate to split.
    SplitChoice,
    /// The structural metrics of the split candidate.
    CandidateMetrics,
    /// Whether the candidate's complete-cycle factor improved enough.
    CandidateImprovement,
    /// Nothing: the repair stopped for the given reason.
    Stopped(SplitRepairStop),
}

/// Position of a split repair: the phase, the splits admitted so far and the
/// split budget.
#[derive(Debug, Clone, Copy, PartialEq, Eq, Structural)]
pub struct SplitRepairState {
    /// What the repair waits for.
    pub phase: SplitRepairPhase,
    /// Splits admitted so far.
    pub accepted_splits: usize,
    /// Maximum number of admitted splits.
    pub maximum_rounds: usize,
}

/// What the caller observed.
#[derive(Debug, Clone, Copy, PartialEq, Eq, Structural)]
pub enum SplitRepairEvent {
    /// Structural metrics of a map (the initial one or a candidate).
    Metrics {
        /// Coarse coefficient dimension of the map.
        coarse_dimension: usize,
        /// Largest admitted coarse dimension.
        maximum_coarse_dimension: usize,
        /// Whether the tuple reduction fell below its required fraction.
        tuple_reduction_short: bool,
        /// Whether the two-level tuple complexity exceeded its maximum.
        tuple_complexity_exceeded: bool,
    },
    /// Whether the slowest witness named an aggregate to split.
    SplitChosen {
        /// True where an admissible aggregate was found.
        found: bool,
    },
    /// Whether the candidate's factor is at most the current factor times
    /// the admitted ratio.
    Improvement {
        /// True where the candidate improved enough.
        sufficient: bool,
    },
}

/// What the caller does next.
#[derive(Debug, Clone, Copy, PartialEq, Eq, Structural)]
pub enum SplitRepairAction {
    /// Choose a split of the current map from its slowest witness.
    ChooseSplit,
    /// Apply the chosen split and measure the candidate's structure.
    MeasureCandidate,
    /// Build and probe the candidate's complete cycle.
    ProbeCandidate,
    /// Record the round, make the candidate current and choose the next split.
    AcceptAndContinue,
    /// Record the round, make the candidate current and stop.
    AcceptAndStop(SplitRepairStop),
    /// Stop for the given reason, keeping the current map.
    Stop(SplitRepairStop),
}

/// The first structural budget that a map breaks, in the order they are
/// checked: coarse dimension, tuple reduction, tuple complexity.
pub open spec fn metrics_rejection(
    coarse_dimension: usize,
    maximum_coarse_dimension: usize,
    tuple_reduction_short: bool,
    tuple_complexity_exceeded: bool,
) -> Option<SplitRepairStop> {
    if coarse_dimension > maximum_coarse_dimension {
        Some(SplitRepairStop::CoarseDimensionBudget {
            attempted_dimension: coarse_dimension,
            maximum_dimension: maximum_coarse_dimension,
        })
    } else if tuple_reduction_short {
        Some(SplitRepairStop::TupleReductionBudget)
    } else if tuple_complexity_exceeded {
        Some(SplitRepairStop::TupleComplexityBudget)
    } else {
        None
    }
}

/// The state in which a repair with the given split budget begins.
pub open spec fn split_repair_start(maximum_rounds: usize) -> SplitRepairState {
    SplitRepairState { phase: SplitRepairPhase::InitialMetrics, accepted_splits: 0, maximum_rounds }
}

/// Whether a repair state is reachable: never more splits than the budget,
/// and a round in progress only while the budget has room for its split.
pub open spec fn split_repair_valid(state: SplitRepairState) -> bool {
    &&& state.accepted_splits <= state.maximum_rounds
    &&& (state.phase is SplitChoice || state.phase is CandidateMetrics
        || state.phase is CandidateImprovement) ==> state.accepted_splits < state.maximum_rounds
}

/// The action that a state waits to follow up, repeated when an event does
/// not belong to its phase.
pub open spec fn pending_action(state: SplitRepairState) -> SplitRepairAction {
    match state.phase {
        SplitRepairPhase::InitialMetrics => SplitRepairAction::ChooseSplit,
        SplitRepairPhase::SplitChoice => SplitRepairAction::ChooseSplit,
        SplitRepairPhase::CandidateMetrics => SplitRepairAction::MeasureCandidate,
        SplitRepairPhase::CandidateImprovement => SplitRepairAction::ProbeCandidate,
        SplitRepairPhase::Stopped(reason) => SplitRepairAction::Stop(reason),
    }
}

/// With `s` splits admitted out of `state.maximum_rounds`, stop at the budget
/// or choose another split.
pub open spec fn next_round(state: SplitRepairState, s: usize) -> (SplitRepairState, SplitRepairAction) {
    if s >= state.maximum_rounds {
        let reason = SplitRepairStop::MaximumRounds { maximum_rounds: state.maximum_rounds };
        (
            SplitRepairState { phase: SplitRepairPhase::Stopped(reason), accepted_splits: s, ..state },
            SplitRepairAction::Stop(reason),
        )
    } else {
        (
            SplitRepairState { phase: SplitRepairPhase::SplitChoice, accepted_splits: s, ..state },
            SplitRepairAction::ChooseSplit,
        )
    }
}

/// The decision for `event` in `state`, and the next state.
pub open spec fn split_repair_step_spec(state: SplitRepairState, event: SplitRepairEvent) -> (
    SplitRepairState,
    SplitRepairAction,
) {
    match (state.phase, event) {
        (
            SplitRepairPhase::InitialMetrics,
            SplitRepairEvent::Metrics {
                coarse_dimension,
                maximum_coarse_dimension,
                tuple_reduction_short,
                tuple_complexity_exceeded,
            },
        ) => match metrics_rejection(
            coarse_dimension,
            maximum_coarse_dimension,
            tuple_reduction_short,
            tuple_complexity_exceeded,
        ) {
            Some(reason) => (
                SplitRepairState { phase: SplitRepairPhase::Stopped(reason), ..state },
                SplitRepairAction::Stop(reason),
            ),
            None => next_round(state, state.accepted_splits),
        },
        (SplitRepairPhase::SplitChoice, SplitRepairEvent::SplitChosen { found }) => {
            if found {
                (
                    SplitRepairState { phase: SplitRepairPhase::CandidateMetrics, ..state },
                    SplitRepairAction::MeasureCandidate,
                )
            } else {
                let reason = SplitRepairStop::NoSplittableAggregate;
                (
                    SplitRepairState { phase: SplitRepairPhase::Stopped(reason), ..state },
                    SplitRepairAction::Stop(reason),
                )
            }
        },
        (
            SplitRepairPhase::CandidateMetrics,
            SplitRepairEvent::Metrics {
                coarse_dimension,
                maximum_coarse_dimension,
                tuple_reduction_short,
                tuple_complexity_exceeded,
            },
        ) => match metrics_rejection(
            coarse_dimension,
            maximum_coarse_dimension,
            tuple_reduction_short,
            tuple_complexity_exceeded,
        ) {
            Some(reason) => (
                SplitRepairState { phase: SplitRepairPhase::Stopped(reason), ..state },
                SplitRepairAction::Stop(reason),
            ),
            None => (
                SplitRepairState { phase: SplitRepairPhase::CandidateImprovement, ..state },
                SplitRepairAction::ProbeCandidate,
            ),
        },
        (SplitRepairPhase::CandidateImprovement, SplitRepairEvent::Improvement { sufficient }) => {
            if !sufficient {
                let reason = SplitRepairStop::InsufficientCycleImprovement;
                (
                    SplitRepairState { phase: SplitRepairPhase::Stopped(reason), ..state },
                    SplitRepairAction::Stop(reason),
                )
            } else {
                let (next, action) = next_round(state, (state.accepted_splits + 1) as usize);
                (
                    next,
                    match action {
                        SplitRepairAction::Stop(reason) => SplitRepairAction::AcceptAndStop(reason),
                        _ => SplitRepairAction::AcceptAndContinue,
                    },
                )
            }
        },
        _ => (state, pending_action(state)),
    }
}

/// Law: the structural screen of a map. Whenever the repair waits for the
/// metrics of the initial map or of a candidate, a map passes only when its
/// coarse dimension is within the maximum and neither tuple budget is broken;
/// otherwise the repair stops with the first broken budget (coarse dimension,
/// then tuple reduction, then tuple complexity), admits nothing, and keeps
/// its count. A candidate that passes goes on to its cycle probe.
pub proof fn lemma_split_repair_metrics_gate(
    state: SplitRepairState,
    coarse_dimension: usize,
    maximum_coarse_dimension: usize,
    tuple_reduction_short: bool,
    tuple_complexity_exceeded: bool,
)
    requires
        state.phase is InitialMetrics || state.phase is CandidateMetrics,
    ensures
        ({
            let (next, action) = split_repair_step_spec(
                state,
                SplitRepairEvent::Metrics {
                    coarse_dimension,
                    maximum_coarse_dimension,
                    tuple_reduction_short,
                    tuple_complexity_exceeded,
                },
            );
            let passes = coarse_dimension <= maximum_coarse_dimension && !tuple_reduction_short
                && !tuple_complexity_exceeded;
            &&& coarse_dimension > maximum_coarse_dimension ==> action == SplitRepairAction::Stop(
                SplitRepairStop::CoarseDimensionBudget {
                    attempted_dimension: coarse_dimension,
                    maximum_dimension: maximum_coarse_dimension,
                },
            )
            &&& coarse_dimension <= maximum_coarse_dimension && tuple_reduction_short ==> action
                == SplitRepairAction::Stop(SplitRepairStop::TupleReductionBudget)
            &&& coarse_dimension <= maximum_coarse_dimension && !tuple_reduction_short
                && tuple_complexity_exceeded ==> action == SplitRepairAction::Stop(
                SplitRepairStop::TupleComplexityBudget,
            )
            &&& !passes ==> next.phase == SplitRepairPhase::Stopped(action->Stop_0)
                && next.accepted_splits == state.accepted_splits
            &&& passes && state.phase is CandidateMetrics ==> action == SplitRepairAction::ProbeCandidate
                && next.phase == SplitRepairPhase::CandidateImprovement
                && next.accepted_splits == state.accepted_splits
            &&& passes && state.phase is InitialMetrics ==> next.accepted_splits == state.accepted_splits
                && (action == SplitRepairAction::ChooseSplit || action == SplitRepairAction::Stop(
                SplitRepairStop::MaximumRounds { maximum_rounds: state.maximum_rounds },
            ))
            &&& next.maximum_rounds == state.maximum_rounds
        }),
{
}

/// Law: the rest of a round. Without a splittable aggregate the repair stops
/// and admits nothing; a candidate whose cycle did not improve enough stops it
/// and admits nothing; a candidate that improved enough is admitted, the count
/// grows by one, and the repair stops exactly when the count reaches the
/// budget.
pub proof fn lemma_split_repair_round(state: SplitRepairState, found: bool, sufficient: bool)
    requires
        split_repair_valid(state),
    ensures
        state.phase is SplitChoice ==> ({
            let (next, action) = split_repair_step_spec(state, SplitRepairEvent::SplitChosen { found });
            &&& !found ==> action == SplitRepairAction::Stop(SplitRepairStop::NoSplittableAggregate)
                && next.accepted_splits == state.accepted_splits
            &&& found ==> action == SplitRepairAction::MeasureCandidate && next.phase is CandidateMetrics
                && next.accepted_splits == state.accepted_splits
        }),
        state.phase is CandidateImprovement ==> ({
            let (next, action) = split_repair_step_spec(state, SplitRepairEvent::Improvement { sufficient });
            &&& !sufficient ==> action == SplitRepairAction::Stop(SplitRepairStop::InsufficientCycleImprovement)
                && next.accepted_splits == state.accepted_splits
            &&& sufficient ==> next.accepted_splits == state.accepted_splits + 1
            &&& sufficient && state.accepted_splits + 1 < state.maximum_rounds ==> action
                == SplitRepairAction::AcceptAndContinue && next.phase is SplitChoice
            &&& sufficient && state.accepted_splits + 1 >= state.maximum_rounds ==> action
                == SplitRepairAction::AcceptAndStop(SplitRepairStop::MaximumRounds { maximum_rounds: state.maximum_rounds })
        }),
{
}

/// Begin a split repair with a positive split budget.
pub fn split_repair_begin(maximum_rounds: usize) -> (r: SplitRepairState)
    ensures
        r == split_repair_start(maximum_rounds),
        split_repair_valid(r),
{
    SplitRepairState { phase: SplitRepairPhase::InitialMetrics, accepted_splits: 0, maximum_rounds }
}

fn metrics_stop(
    coarse_dimension: usize,
    maximum_coarse_dimension: usize,
    tuple_reduction_short: bool,
    tuple_complexity_exceeded: bool,
) -> (r: Option<SplitRepairStop>)
    ensures
        r == metrics_rejection(
            coarse_dimension,
            maximum_coarse_dimension,
            tuple_reduction_short,
            tuple_complexity_exceeded,
        ),
{
    if coarse_dimension > maximum_coarse_dimension {
        Some(SplitRepairStop::CoarseDimensionBudget {
            attempted_dimension: coarse_dimension,
            maximum_dimension: maximum_coarse_dimension,
        })
    } else if tuple_reduction_short {
        Some(SplitRepairStop::TupleReductionBudget)
    } else if tuple_complexity_exceeded {
        Some(SplitRepairStop::TupleComplexityBudget)
    } else {
        None
    }
}

fn advance(state: SplitRepairState, s: usize) -> (r: (SplitRepairState, SplitRepairAction))
    ensures
        r == next_round(state, s),
{
    if s >= state.maximum_rounds {
        let reason = SplitRepairStop::MaximumRounds { maximum_rounds: state.maximum_rounds };
        (
            SplitRepairState {
                phase: SplitRepairPhase::Stopped(reason),
                accepted_splits: s,
                maximum_rounds: state.maximum_rounds,
            },
            SplitRepairAction::Stop(reason),
        )
    } else {
        (
            SplitRepairState {
                phase: SplitRepairPhase::SplitChoice,
                accepted_splits: s,
                maximum_rounds: state.maximum_rounds,
            },
            SplitRepairAction::ChooseSplit,
        )
    }
}

/// Decide what follows `event` in `state`.
///
/// The initial map's structure is screened first (coarse dimension, tuple
/// reduction, tuple complexity); a failure stops the repair with the initial
/// map. Each round then chooses a split (none: stop), screens the candidate's
/// structure (a failure stops and keeps the current map), and probes its cycle:
/// an insufficient improvement stops, otherwise the split is admitted, and the
/// repair stops once `maximum_rounds` splits are admitted. An event that does
/// not belong to the phase changes nothing and repeats the pending action.
pub fn split_repair_step(state: SplitRepairState, event: SplitRepairEvent) -> (r: (SplitRepairState, SplitRepairAction))
    requires
        split_repair_valid(state),
    ensures
        r == split_repair_step_spec(state, event),
        split_repair_valid(r.0),
        r.0.maximum_rounds == state.maximum_rounds,
        (state.phase is InitialMetrics || state.phase is CandidateMetrics) ==> (event matches SplitRepairEvent::Metrics {
            coarse_dimension,
            maximum_coarse_dimension,
            tuple_reduction_short,
            tuple_complexity_exceeded,
        } ==> {
            &&& !(coarse_dimension <= maximum_coarse_dimension && !tuple_reduction_short
                && !tuple_complexity_exceeded) ==> r.1 is Stop && r.0.phase is Stopped
                && r.0.accepted_splits == state.accepted_splits
            &&& coarse_dimension <= maximum_coarse_dimension && !tuple_reduction_short
                && !tuple_complexity_exceeded && state.phase is CandidateMetrics ==> r.1
                == SplitRepairAction::ProbeCandidate
        }),
        state.phase is CandidateImprovement && event == (SplitRepairEvent::Improvement { sufficient: false })
            ==> r.1 == SplitRepairAction::Stop(SplitRepairStop::InsufficientCycleImprovement)
            && r.0.accepted_splits == state.accepted_splits,
        state.phase is SplitChoice && event == (SplitRepairEvent::SplitChosen { found: false })
            ==> r.1 == SplitRepairAction::Stop(SplitRepairStop::NoSplittableAggregate),
{
    proof {
        match event {
            SplitRepairEvent::Metrics { coarse_dimension, maximum_coarse_dimension, tuple_reduction_short, tuple_complexity_exceeded } => {
                if state.phase is InitialMetrics || state.phase is CandidateMetrics {
                    lemma_split_repair_metrics_gate(
                        state,
                        coarse_dimension,
                        maximum_coarse_dimension,
                        tuple_reduction_short,
                        tuple_complexity_exceeded,
                    );
                }
            },
            SplitRepairEvent::SplitChosen { found } => {
                lemma_split_repair_round(state, found, false);
            },
            SplitRepairEvent::Improvement { sufficient } => {
                lemma_split_repair_round(state, false, sufficient);
            },
        }
    }
    let phase = state.phase;
    match (phase, event) {
        (
            SplitRepairPhase::InitialMetrics,
            SplitRepairEvent::Metrics {
                coarse_dimension,
                maximum_coarse_dimension,
                tuple_reduction_short,
                tuple_complexity_exceeded,
            },
        ) => match metrics_stop(
            coarse_dimension,
            maximum_coarse_dimension,
            tuple_reduction_short,
            tuple_complexity_exceeded,
        ) {
            Some(reason) => (
                SplitRepairState {
                    phase: SplitRepairPhase::Stopped(reason),
                    accepted_splits: state.accepted_splits,
                    maximum_rounds: state.maximum_rounds,
                },
                SplitRepairAction::Stop(reason),
            ),
            None => advance(state, state.accepted_splits),
        },
        (SplitRepairPhase::SplitChoice, SplitRepairEvent::SplitChosen { found }) => {
            if found {
                (
                    SplitRepairState {
                        phase: SplitRepairPhase::CandidateMetrics,
                        accepted_splits: state.accepted_splits,
                        maximum_rounds: state.maximum_rounds,
                    },
                    SplitRepairAction::MeasureCandidate,
                )
            } else {
                let reason = SplitRepairStop::NoSplittableAggregate;
                (
                    SplitRepairState {
                        phase: SplitRepairPhase::Stopped(reason),
                        accepted_splits: state.accepted_splits,
                        maximum_rounds: state.maximum_rounds,
                    },
                    SplitRepairAction::Stop(reason),
                )
            }
        },
        (
            SplitRepairPhase::CandidateMetrics,
            SplitRepairEvent::Metrics {
                coarse_dimension,
                maximum_coarse_dimension,
                tuple_reduction_short,
                tuple_complexity_exceeded,
            },
        ) => match metrics_stop(
            coarse_dimension,
            maximum_coarse_dimension,
            tuple_reduction_short,
            tuple_complexity_exceeded,
        ) {
            Some(reason) => (
                SplitRepairState {
                    phase: SplitRepairPhase::Stopped(reason),
                    accepted_splits: state.accepted_splits,
                    maximum_rounds: state.maximum_rounds,
                },
                SplitRepairAction::Stop(reason),
            ),
            None => (
                SplitRepairState {
                    phase: SplitRepairPhase::CandidateImprovement,
                    accepted_splits: state.accepted_splits,
                    maximum_rounds: state.maximum_rounds,
                },
                SplitRepairAction::ProbeCandidate,
            ),
        },
        (SplitRepairPhase::CandidateImprovement, SplitRepairEvent::Improvement { sufficient }) => {
            if !sufficient {
                let reason = SplitRepairStop::InsufficientCycleImprovement;
                (
                    SplitRepairState {
                        phase: SplitRepairPhase::Stopped(reason),
                        accepted_splits: state.accepted_splits,
                        maximum_rounds: state.maximum_rounds,
                    },
                    SplitRepairAction::Stop(reason),
                )
            } else {
                let (next, action) = advance(state, state.accepted_splits + 1);
                let accepted = match action {
                    SplitRepairAction::Stop(reason) => SplitRepairAction::AcceptAndStop(reason),
                    _ => SplitRepairAction::AcceptAndContinue,
                };
                (next, accepted)
            }
        },
        _ => {
            let pending = match phase {
                SplitRepairPhase::InitialMetrics => SplitRepairAction::ChooseSplit,
                SplitRepairPhase::SplitChoice => SplitRepairAction::ChooseSplit,
                SplitRepairPhase::CandidateMetrics => SplitRepairAction::MeasureCandidate,
                SplitRepairPhase::CandidateImprovement => SplitRepairAction::ProbeCandidate,
                SplitRepairPhase::Stopped(reason) => SplitRepairAction::Stop(reason),
            };
            (state, pending)
        },
    }
}

/// Whether an action admits the candidate's split.
pub open spec fn admits_split(action: SplitRepairAction) -> bool {
    action is AcceptAndContinue || action is AcceptAndStop
}

/// The state reached by following `events` from `state`.
pub open spec fn split_repair_run(state: SplitRepairState, events: Seq<SplitRepairEvent>) -> SplitRepairState
    decreases events.len(),
{
    if events.len() == 0 {
        state
    } else {
        split_repair_run(split_repair_step_spec(state, events[0]).0, events.drop_first())
    }
}

/// How many actions along the run from `state` admit a split.
pub open spec fn split_repair_admissions(state: SplitRepairState, events: Seq<SplitRepairEvent>) -> nat
    decreases events.len(),
{
    if events.len() == 0 {
        0
    } else {
        let (next, action) = split_repair_step_spec(state, events[0]);
        (if admits_split(action) { 1nat } else { 0nat }) + split_repair_admissions(next, events.drop_first())
    }
}

proof fn lemma_split_repair_step_valid(state: SplitRepairState, event: SplitRepairEvent)
    requires
        split_repair_valid(state),
    ensures
        split_repair_valid(split_repair_step_spec(state, event).0),
        split_repair_step_spec(state, event).0.maximum_rounds == state.maximum_rounds,
        split_repair_step_spec(state, event).0.accepted_splits == state.accepted_splits + (if admits_split(
            split_repair_step_spec(state, event).1,
        ) {
            1int
        } else {
            0int
        }),
{
}

/// Along any sequence of observations, a valid repair state stays valid, keeps
/// its budget, and its admitted splits grow by exactly the actions that admit
/// a split: so a repair begun by [`split_repair_begin`] never admits more
/// splits than `maximum_rounds`, and its count is the number of rounds it
/// recorded.
pub proof fn lemma_split_repair_run(state: SplitRepairState, events: Seq<SplitRepairEvent>)
    requires
        split_repair_valid(state),
    ensures
        split_repair_valid(split_repair_run(state, events)),
        split_repair_run(state, events).maximum_rounds == state.maximum_rounds,
        split_repair_run(state, events).accepted_splits == state.accepted_splits + split_repair_admissions(
            state,
            events,
        ),
        split_repair_run(state, events).accepted_splits <= state.maximum_rounds,
    decreases events.len(),
{
    if events.len() > 0 {
        lemma_split_repair_step_valid(state, events[0]);
        lemma_split_repair_run(split_repair_step_spec(state, events[0]).0, events.drop_first());
    }
}

/// A stopped repair stays stopped: every later observation leaves the state
/// unchanged and repeats the stop with its reason.
pub proof fn lemma_split_repair_stopped(state: SplitRepairState, event: SplitRepairEvent)
    requires
        state.phase is Stopped,
    ensures
        split_repair_step_spec(state, event) == (state, SplitRepairAction::Stop(state.phase->Stopped_0)),
{
}

} // verus!
