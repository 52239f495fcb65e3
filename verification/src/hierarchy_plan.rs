//! Level decisions of the automatic hierarchy planners.
//!
//! A planner coarsens level after level: it builds a candidate map for the
//! current level, measures it, and either admits the coarse level or stops.
//! The candidate maps and the fractional reductions and complexities are
//! computed by the caller; this module decides, from integer sizes and the
//! outcomes of those fractional budget tests, when to stop and why, and keeps
//! the saturating cumulative sizes.
use vstd::prelude::*;
use crate::arith::{sat_add, sat_add_spec};
use crate::error::MultiwayError;

verus! {

/// Where a planner stands: the finest sizes, the current level and the
/// cumulative sizes of every admitted level.
#[derive(Debug, Clone, Copy, PartialEq, Eq, Structural)]
pub struct PlanState {
    /// Number of admitted coarse levels, which is also the current level index.
    pub level: usize,
    /// Maximum number of coarse levels.
    pub maximum_levels: usize,
    /// Largest dimension a dense terminal admits.
    pub terminal_dimension: usize,
    /// Coefficient dimension of the current (coarsest admitted) level.
    pub current_dimension: usize,
    /// Saturating sum of the coefficient dimensions of all admitted levels.
    pub cumulative_dimensions: usize,
    /// Saturating sum of the tuple counts of all admitted levels.
    pub cumulative_tuples: usize,
}

/// The state before any coarsening of a finest level with the given sizes.
pub fn plan_start(finest_dimension: usize, finest_tuples: usize, maximum_levels: usize, terminal_dimension: usize) -> (s: PlanState)
    ensures
        s == (PlanState {
            level: 0,
            maximum_levels,
            terminal_dimension,
            current_dimension: finest_dimension,
            cumulative_dimensions: finest_dimension,
            cumulative_tuples: finest_tuples,
        }),
{
    PlanState {
        level: 0,
        maximum_levels,
        terminal_dimension,
        current_dimension: finest_dimension,
        cumulative_dimensions: finest_dimension,
        cumulative_tuples: finest_tuples,
    }
}

/// Cumulative sizes if a coarse level of the given sizes were admitted.
pub open spec fn attempted_spec(state: PlanState, coarse_dimension: usize, coarse_tuples: usize) -> (int, int) {
    (
        sat_add_spec(state.cumulative_dimensions as int, coarse_dimension as int),
        sat_add_spec(state.cumulative_tuples as int, coarse_tuples as int),
    )
}

/// Saturating cumulative sizes if a coarse level of the given sizes were
/// admitted; the caller divides them by the finest sizes to test the
/// complexity budgets.
pub fn attempted_cumulative(state: PlanState, coarse_dimension: usize, coarse_tuples: usize) -> (r: (usize, usize))
    ensures
        r.0 == attempted_spec(state, coarse_dimension, coarse_tuples).0,
        r.1 == attempted_spec(state, coarse_dimension, coarse_tuples).1,
{
    (sat_add(state.cumulative_dimensions, coarse_dimension), sat_add(state.cumulative_tuples, coarse_tuples))
}

/// The state after admitting a coarse level of the given sizes.
pub open spec fn admitted_spec(state: PlanState, coarse_dimension: usize, coarse_tuples: usize) -> PlanState {
    PlanState {
        level: (state.level + 1) as usize,
        current_dimension: coarse_dimension,
        cumulative_dimensions: attempted_spec(state, coarse_dimension, coarse_tuples).0 as usize,
        cumulative_tuples: attempted_spec(state, coarse_dimension, coarse_tuples).1 as usize,
        ..state
    }
}

/// Whether a planner state is reachable: the level never passes the budget.
pub open spec fn plan_valid(state: PlanState) -> bool {
    state.level <= state.maximum_levels
}

/// Why the cycle-screened planner stopped.
#[derive(Debug, Clone, Copy, PartialEq, Eq, Structural)]
pub enum CyclePlanStop {
    /// The current level is small enough for the dense terminal.
    ReachedTerminal,
    /// The level budget ran out above the terminal size.
    MaximumLevels {
        /// Configured maximum number of coarse levels.
        maximum_levels: usize,
        /// Dimension still above the terminal size.
        remaining_dimension: usize,
    },
    /// The level's portfolio rejected every candidate map.
    LevelRejected {
        /// Rejected level.
        level: usize,
    },
    /// The accepted map did not reduce the dimension.
    NoDimensionProgress {
        /// Rejected level.
        level: usize,
        /// Fine dimension at that level.
        fine_dimension: usize,
        /// Coarse dimension of the candidate map.
        coarse_dimension: usize,
    },
    /// The cumulative dimension complexity would exceed its budget.
    DimensionComplexityBudget {
        /// Rejected level.
        level: usize,
    },
    /// The cumulative tuple complexity would exceed its budget.
    TupleComplexityBudget {
        /// Rejected level.
        level: usize,
    },
}

/// What the cycle-screened planner observed about one level's candidate map.
#[derive(Debug, Clone, Copy, PartialEq, Eq, Structural)]
pub struct CycleLevelObservation {
    /// Whether the level's portfolio accepted its map.
    pub accepted: bool,
    /// Coarse dimension of the candidate map.
    pub coarse_dimension: usize,
    /// Coarse tuple count of the candidate map.
    pub coarse_tuples: usize,
    /// Whether the attempted cumulative dimension complexity exceeds its budget.
    pub dimension_budget_exceeded: bool,
    /// Whether the attempted cumulative tuple complexity exceeds its budget.
    pub tuple_budget_exceeded: bool,
}

/// Whether the cycle-screened planner stops before building a map for the
/// current level, and why.
pub open spec fn cycle_before_level_spec(state: PlanState) -> Option<CyclePlanStop> {
    if state.current_dimension <= state.terminal_dimension {
        Some(CyclePlanStop::ReachedTerminal)
    } else if state.level >= state.maximum_levels {
        Some(CyclePlanStop::MaximumLevels {
            maximum_levels: state.maximum_levels,
            remaining_dimension: state.current_dimension,
        })
    } else {
        None
    }
}

/// Check, before a level is built, whether the current level is terminal or
/// the level budget is spent.
pub fn cycle_before_level(state: PlanState) -> (r: Option<CyclePlanStop>)
    ensures
        r == cycle_before_level_spec(state),
        r is None <==> (state.current_dimension > state.terminal_dimension && state.level < state.maximum_levels),
        state.current_dimension <= state.terminal_dimension ==> r == Some(CyclePlanStop::ReachedTerminal),
{
    proof {
        lemma_cycle_before_level_decision(state);
    }
    if state.current_dimension <= state.terminal_dimension {
        Some(CyclePlanStop::ReachedTerminal)
    } else if state.level >= state.maximum_levels {
        Some(CyclePlanStop::MaximumLevels {
            maximum_levels: state.maximum_levels,
            remaining_dimension: state.current_dimension,
        })
    } else {
        None
    }
}

/// The cycle-screened planner's decision on one built level.
pub open spec fn cycle_level_spec(state: PlanState, seen: CycleLevelObservation) -> Result<PlanState, CyclePlanStop> {
    if !seen.accepted {
        Err(CyclePlanStop::LevelRejected { level: state.level })
    } else if seen.coarse_dimension >= state.current_dimension {
        Err(CyclePlanStop::NoDimensionProgress {
            level: state.level,
            fine_dimension: state.current_dimension,
            coarse_dimension: seen.coarse_dimension,
        })
    } else if seen.dimension_budget_exceeded {
        Err(CyclePlanStop::DimensionComplexityBudget { level: state.level })
    } else if seen.tuple_budget_exceeded {
        Err(CyclePlanStop::TupleComplexityBudget { level: state.level })
    } else {
        Ok(admitted_spec(state, seen.coarse_dimension, seen.coarse_tuples))
    }
}

/// Admit the level's map, or stop: a rejected portfolio, then a map without
/// dimension progress, then the dimension and tuple complexity budgets.
pub fn cycle_level(state: PlanState, seen: CycleLevelObservation) -> (r: Result<PlanState, CyclePlanStop>)
    requires
        cycle_before_level_spec(state) is None,
    ensures
        r == cycle_level_spec(state, seen),
        r matches Ok(next) ==> plan_valid(next) && next.current_dimension < state.current_dimension,
        r is Ok <==> (seen.accepted && seen.coarse_dimension < state.current_dimension
            && !seen.dimension_budget_exceeded && !seen.tuple_budget_exceeded),
        r matches Ok(next) ==> next.level == state.level + 1 && next.current_dimension == seen.coarse_dimension,
{
    proof {
        lemma_cycle_level_admits_only_clear_levels(state, seen);
    }
    if !seen.accepted {
        Err(CyclePlanStop::LevelRejected { level: state.level })
    } else if seen.coarse_dimension >= state.current_dimension {
        Err(CyclePlanStop::NoDimensionProgress {
            level: state.level,
            fine_dimension: state.current_dimension,
            coarse_dimension: seen.coarse_dimension,
        })
    } else if seen.dimension_budget_exceeded {
        Err(CyclePlanStop::DimensionComplexityBudget { level: state.level })
    } else if seen.tuple_budget_exceeded {
        Err(CyclePlanStop::TupleComplexityBudget { level: state.level })
    } else {
        let (dimensions, tuples) = attempted_cumulative(state, seen.coarse_dimension, seen.coarse_tuples);
        Ok(
            PlanState {
                level: state.level + 1,
                maximum_levels: state.maximum_levels,
                terminal_dimension: state.terminal_dimension,
                current_dimension: seen.coarse_dimension,
                cumulative_dimensions: dimensions,
                cumulative_tuples: tuples,
            },
        )
    }
}

/// Law: the checks before a cycle-screened level. The planner stops at a
/// current dimension within the terminal size, otherwise when the level
/// budget is spent (naming the remaining dimension), and builds a level only
/// when neither holds.
pub proof fn lemma_cycle_before_level_decision(state: PlanState)
    ensures
        state.current_dimension <= state.terminal_dimension ==> cycle_before_level_spec(state) == Some(
            CyclePlanStop::ReachedTerminal,
        ),
        state.current_dimension > state.terminal_dimension && state.level >= state.maximum_levels
            ==> cycle_before_level_spec(state) == Some(
            CyclePlanStop::MaximumLevels {
                maximum_levels: state.maximum_levels,
                remaining_dimension: state.current_dimension,
            },
        ),
        cycle_before_level_spec(state) is None <==> (state.current_dimension > state.terminal_dimension
            && state.level < state.maximum_levels),
{
}

/// Law: the cycle-screened planner admits a level only when its portfolio
/// accepted a map that shrinks the dimension and neither complexity budget
/// is exceeded; otherwise it stops at the first failing test (rejection, no
/// dimension progress, dimension complexity, tuple complexity), naming the
/// current level. An admitted level advances the level by one, makes the
/// coarse dimension current and adds the coarse sizes to the cumulative sizes
/// (saturating), keeping the budgets.
pub proof fn lemma_cycle_level_admits_only_clear_levels(state: PlanState, seen: CycleLevelObservation)
    requires
        state.level < state.maximum_levels,
    ensures
        ({
            let r = cycle_level_spec(state, seen);
            &&& !seen.accepted ==> r == Err::<PlanState, CyclePlanStop>(
                CyclePlanStop::LevelRejected { level: state.level },
            )
            &&& seen.accepted && seen.coarse_dimension >= state.current_dimension ==> r == Err::<
                PlanState,
                CyclePlanStop,
            >(
                CyclePlanStop::NoDimensionProgress {
                    level: state.level,
                    fine_dimension: state.current_dimension,
                    coarse_dimension: seen.coarse_dimension,
                },
            )
            &&& seen.accepted && seen.coarse_dimension < state.current_dimension && seen.dimension_budget_exceeded
                ==> r == Err::<PlanState, CyclePlanStop>(
                CyclePlanStop::DimensionComplexityBudget { level: state.level },
            )
            &&& seen.accepted && seen.coarse_dimension < state.current_dimension && !seen.dimension_budget_exceeded
                && seen.tuple_budget_exceeded ==> r == Err::<PlanState, CyclePlanStop>(
                CyclePlanStop::TupleComplexityBudget { level: state.level },
            )
            &&& r is Ok <==> (seen.accepted && seen.coarse_dimension < state.current_dimension
                && !seen.dimension_budget_exceeded && !seen.tuple_budget_exceeded)
            &&& r matches Ok(next) ==> {
                &&& next.level == state.level + 1
                &&& next.maximum_levels == state.maximum_levels
                &&& next.terminal_dimension == state.terminal_dimension
                &&& next.current_dimension == seen.coarse_dimension
                &&& next.cumulative_dimensions == (if state.cumulative_dimensions + seen.coarse_dimension
                    > usize::MAX {
                    usize::MAX as int
                } else {
                    state.cumulative_dimensions + seen.coarse_dimension
                })
                &&& next.cumulative_tuples == (if state.cumulative_tuples + seen.coarse_tuples > usize::MAX {
                    usize::MAX as int
                } else {
                    state.cumulative_tuples + seen.coarse_tuples
                })
            }
        }),
{
}

/// Outcome of running the cycle-screened planner from `state` over the level
/// observations `levels`: the final state and the stop, if it stopped.
pub open spec fn cycle_run(state: PlanState, levels: Seq<CycleLevelObservation>) -> (PlanState, Option<CyclePlanStop>)
    decreases levels.len(),
{
    match cycle_before_level_spec(state) {
        Some(stop) => (state, Some(stop)),
        None => if levels.len() == 0 {
            (state, None)
        } else {
            match cycle_level_spec(state, levels[0]) {
                Err(stop) => (state, Some(stop)),
                Ok(next) => cycle_run(next, levels.drop_first()),
            }
        },
    }
}

/// Law: the cycle-screened planner admits at most its level budget, every
/// admitted level strictly shrinks the dimension, and once it has seen more
/// observations than its budget it has stopped.
pub proof fn lemma_cycle_plan_bounded(state: PlanState, levels: Seq<CycleLevelObservation>)
    requires
        plan_valid(state),
    ensures
        plan_valid(cycle_run(state, levels).0),
        cycle_run(state, levels).0.current_dimension <= state.current_dimension,
        cycle_run(state, levels).0.level >= state.level,
        levels.len() > state.maximum_levels - state.level ==> cycle_run(state, levels).1 is Some,
    decreases levels.len(),
{
    if cycle_before_level_spec(state) is None && levels.len() > 0 {
        if let Ok(next) = cycle_level_spec(state, levels[0]) {
            lemma_cycle_plan_bounded(next, levels.drop_first());
        }
    }
}

/// Why the bootstrap hierarchy planner stopped.
#[derive(Debug, Clone, Copy, PartialEq, Eq, Structural)]
pub enum BootstrapPlanStop {
    /// The finest level was already small enough for the dense terminal.
    FinestAlreadyTerminal,
    /// An admitted coarse level reached the terminal size.
    ReachedTerminal,
    /// The level budget ran out above the terminal size.
    MaximumLevels {
        /// Configured maximum number of coarse levels.
        maximum_levels: usize,
        /// Dimension still above the terminal size.
        remaining_dimension: usize,
    },
    /// The level's bootstrap aggregation rejected its map.
    AggregationRejected {
        /// Rejected level.
        level: usize,
    },
    /// The map reduced the dimension by less than the required fraction.
    InsufficientDimensionReduction {
        /// Rejected level.
        level: usize,
    },
    /// The map reduced the tuple count by less than the required fraction.
    InsufficientTupleReduction {
        /// Rejected level.
        level: usize,
    },
    /// The cumulative dimension complexity would exceed its budget.
    DimensionComplexityBudget {
        /// Rejected level.
        level: usize,
    },
    /// The cumulative tuple complexity would exceed its budget.
    TupleComplexityBudget {
        /// Rejected level.
        level: usize,
    },
}

/// What the bootstrap planner observed about one level's aggregation.
#[derive(Debug, Clone, Copy, PartialEq, Eq, Structural)]
pub struct BootstrapLevelObservation {
    /// Whether the bootstrap aggregation accepted its map.
    pub accepted: bool,
    /// Coarse dimension of the map.
    pub coarse_dimension: usize,
    /// Coarse tuple count of the map.
    pub coarse_tuples: usize,
    /// Whether the fractional dimension reduction fell below its minimum.
    pub dimension_reduction_short: bool,
    /// Whether the fractional tuple reduction fell below its minimum.
    pub tuple_reduction_short: bool,
    /// Whether the attempted cumulative dimension complexity exceeds its budget.
    pub dimension_budget_exceeded: bool,
    /// Whether the attempted cumulative tuple complexity exceeds its budget.
    pub tuple_budget_exceeded: bool,
}

/// What the bootstrap planner does after one level.
#[derive(Debug, Clone, Copy, PartialEq, Eq, Structural)]
pub enum BootstrapPlanStep {
    /// The level was admitted; continue with the returned state.
    Continue(PlanState),
    /// The plan stopped; the state holds every admitted level.
    Stop(PlanState, BootstrapPlanStop),
}

/// Whether the bootstrap planner has nothing to coarsen at all.
pub fn bootstrap_plan_begin(state: PlanState) -> (r: Option<BootstrapPlanStop>)
    ensures
        r == if state.current_dimension <= state.terminal_dimension {
            Some(BootstrapPlanStop::FinestAlreadyTerminal)
        } else {
            None::<BootstrapPlanStop>
        },
{
    if state.current_dimension <= state.terminal_dimension {
        Some(BootstrapPlanStop::FinestAlreadyTerminal)
    } else {
        None
    }
}

/// The bootstrap planner's decision on one built level.
pub open spec fn bootstrap_level_spec(state: PlanState, seen: BootstrapLevelObservation) -> BootstrapPlanStep {
    if !seen.accepted {
        BootstrapPlanStep::Stop(state, BootstrapPlanStop::AggregationRejected { level: state.level })
    } else if seen.dimension_reduction_short {
        BootstrapPlanStep::Stop(state, BootstrapPlanStop::InsufficientDimensionReduction { level: state.level })
    } else if seen.tuple_reduction_short {
        BootstrapPlanStep::Stop(state, BootstrapPlanStop::InsufficientTupleReduction { level: state.level })
    } else if seen.dimension_budget_exceeded {
        BootstrapPlanStep::Stop(state, BootstrapPlanStop::DimensionComplexityBudget { level: state.level })
    } else if seen.tuple_budget_exceeded {
        BootstrapPlanStep::Stop(state, BootstrapPlanStop::TupleComplexityBudget { level: state.level })
    } else {
        let next = admitted_spec(state, seen.coarse_dimension, seen.coarse_tuples);
        if seen.coarse_dimension <= state.terminal_dimension {
            BootstrapPlanStep::Stop(next, BootstrapPlanStop::ReachedTerminal)
        } else if next.level >= state.maximum_levels {
            BootstrapPlanStep::Stop(
                next,
                BootstrapPlanStop::MaximumLevels {
                    maximum_levels: state.maximum_levels,
                    remaining_dimension: seen.coarse_dimension,
                },
            )
        } else {
            BootstrapPlanStep::Continue(next)
        }
    }
}

/// Admit the level's aggregation or stop: a rejected aggregation, then the
/// dimension and tuple reductions, then the dimension and tuple complexity
/// budgets; an admitted level ends the plan when it reaches the terminal size
/// or spends the last level of the budget.
pub fn bootstrap_level(state: PlanState, seen: BootstrapLevelObservation) -> (r: BootstrapPlanStep)
    requires
        state.level < state.maximum_levels,
    ensures
        r == bootstrap_level_spec(state, seen),
        r matches BootstrapPlanStep::Continue(next) ==> next.level < next.maximum_levels,
        !(seen.accepted && !seen.dimension_reduction_short && !seen.tuple_reduction_short
            && !seen.dimension_budget_exceeded && !seen.tuple_budget_exceeded) ==> (r matches BootstrapPlanStep::Stop(
            next,
            stop,
        ) && next == state && !bootstrap_plan_completed(stop)),
        seen.accepted && !seen.dimension_reduction_short && !seen.tuple_reduction_short
            && !seen.dimension_budget_exceeded && seen.tuple_budget_exceeded ==> r == BootstrapPlanStep::Stop(
            state,
            BootstrapPlanStop::TupleComplexityBudget { level: state.level },
        ),
{
    proof {
        lemma_bootstrap_level_admits_only_clear_levels(state, seen);
    }
    if !seen.accepted {
        BootstrapPlanStep::Stop(state, BootstrapPlanStop::AggregationRejected { level: state.level })
    } else if seen.dimension_reduction_short {
        BootstrapPlanStep::Stop(state, BootstrapPlanStop::InsufficientDimensionReduction { level: state.level })
    } else if seen.tuple_reduction_short {
        BootstrapPlanStep::Stop(state, BootstrapPlanStop::InsufficientTupleReduction { level: state.level })
    } else if seen.dimension_budget_exceeded {
        BootstrapPlanStep::Stop(state, BootstrapPlanStop::DimensionComplexityBudget { level: state.level })
    } else if seen.tuple_budget_exceeded {
        BootstrapPlanStep::Stop(state, BootstrapPlanStop::TupleComplexityBudget { level: state.level })
    } else {
        let (dimensions, tuples) = attempted_cumulative(state, seen.coarse_dimension, seen.coarse_tuples);
        let next = PlanState {
            level: state.level + 1,
            maximum_levels: state.maximum_levels,
            terminal_dimension: state.terminal_dimension,
            current_dimension: seen.coarse_dimension,
            cumulative_dimensions: dimensions,
            cumulative_tuples: tuples,
        };
        if seen.coarse_dimension <= state.terminal_dimension {
            BootstrapPlanStep::Stop(next, BootstrapPlanStop::ReachedTerminal)
        } else if next.level >= state.maximum_levels {
            BootstrapPlanStep::Stop(
                next,
                BootstrapPlanStop::MaximumLevels {
                    maximum_levels: state.maximum_levels,
                    remaining_dimension: seen.coarse_dimension,
                },
            )
        } else {
            BootstrapPlanStep::Continue(next)
        }
    }
}

/// Whether a bootstrap plan that stopped for `stop` completed.
pub open spec fn bootstrap_plan_completed(stop: BootstrapPlanStop) -> bool {
    stop is FinestAlreadyTerminal || stop is ReachedTerminal
}

/// Law: the bootstrap planner never admits more levels than its budget, and
/// it completes exactly when a stop reports a terminal-sized level.
pub proof fn lemma_bootstrap_level_respects_budget(state: PlanState, seen: BootstrapLevelObservation)
    requires
        state.level < state.maximum_levels,
    ensures
        bootstrap_level_spec(state, seen) matches BootstrapPlanStep::Stop(next, stop) ==> next.level
            <= state.maximum_levels && (bootstrap_plan_completed(stop) <==> (seen.accepted
            && !seen.dimension_reduction_short && !seen.tuple_reduction_short
            && !seen.dimension_budget_exceeded && !seen.tuple_budget_exceeded && seen.coarse_dimension
            <= state.terminal_dimension)),
        bootstrap_level_spec(state, seen) matches BootstrapPlanStep::Continue(next) ==> next.level
            == state.level + 1 && next.level < state.maximum_levels,
{
}

/// Law: the bootstrap planner admits a level only when the aggregation
/// accepted its map and no reduction or complexity test failed. Any failing
/// test stops the plan with the state unchanged, naming the current level and
/// the first failing test (rejection, dimension reduction, tuple reduction,
/// dimension complexity, tuple complexity). An admitted level advances the
/// level by one, makes the coarse dimension current and adds the coarse sizes
/// to the cumulative sizes (saturating); the plan then stops at a
/// terminal-sized level, or when the level budget is spent, and otherwise
/// continues.
pub proof fn lemma_bootstrap_level_admits_only_clear_levels(state: PlanState, seen: BootstrapLevelObservation)
    requires
        state.level < state.maximum_levels,
    ensures
        ({
            let r = bootstrap_level_spec(state, seen);
            let clear = seen.accepted && !seen.dimension_reduction_short && !seen.tuple_reduction_short
                && !seen.dimension_budget_exceeded && !seen.tuple_budget_exceeded;
            &&& !seen.accepted ==> r == BootstrapPlanStep::Stop(
                state,
                BootstrapPlanStop::AggregationRejected { level: state.level },
            )
            &&& seen.accepted && seen.dimension_reduction_short ==> r == BootstrapPlanStep::Stop(
                state,
                BootstrapPlanStop::InsufficientDimensionReduction { level: state.level },
            )
            &&& seen.accepted && !seen.dimension_reduction_short && seen.tuple_reduction_short ==> r
                == BootstrapPlanStep::Stop(state, BootstrapPlanStop::InsufficientTupleReduction { level: state.level })
            &&& seen.accepted && !seen.dimension_reduction_short && !seen.tuple_reduction_short
                && seen.dimension_budget_exceeded ==> r == BootstrapPlanStep::Stop(
                state,
                BootstrapPlanStop::DimensionComplexityBudget { level: state.level },
            )
            &&& seen.accepted && !seen.dimension_reduction_short && !seen.tuple_reduction_short
                && !seen.dimension_budget_exceeded && seen.tuple_budget_exceeded ==> r == BootstrapPlanStep::Stop(
                state,
                BootstrapPlanStop::TupleComplexityBudget { level: state.level },
            )
            &&& clear ==> {
                let next = match r {
                    BootstrapPlanStep::Continue(n) => n,
                    BootstrapPlanStep::Stop(n, _) => n,
                };
                &&& next.level == state.level + 1
                &&& next.maximum_levels == state.maximum_levels
                &&& next.terminal_dimension == state.terminal_dimension
                &&& next.current_dimension == seen.coarse_dimension
                &&& next.cumulative_dimensions == (if state.cumulative_dimensions + seen.coarse_dimension
                    > usize::MAX {
                    usize::MAX as int
                } else {
                    state.cumulative_dimensions + seen.coarse_dimension
                })
                &&& next.cumulative_tuples == (if state.cumulative_tuples + seen.coarse_tuples > usize::MAX {
                    usize::MAX as int
                } else {
                    state.cumulative_tuples + seen.coarse_tuples
                })
                &&& seen.coarse_dimension <= state.terminal_dimension ==> r == BootstrapPlanStep::Stop(
                    next,
                    BootstrapPlanStop::ReachedTerminal,
                )
                &&& seen.coarse_dimension > state.terminal_dimension && state.level + 1 >= state.maximum_levels
                    ==> r == BootstrapPlanStep::Stop(
                    next,
                    BootstrapPlanStop::MaximumLevels {
                        maximum_levels: state.maximum_levels,
                        remaining_dimension: seen.coarse_dimension,
                    },
                )
                &&& seen.coarse_dimension > state.terminal_dimension && state.level + 1 < state.maximum_levels
                    ==> r == BootstrapPlanStep::Continue(next)
            }
        }),
{
}

/// Whether the basic hierarchy builder coarsens another level: the current
/// level is above the terminal size and the level budget is not spent.
pub fn basic_level_needed(state: PlanState) -> (r: bool)
    ensures
        r == (state.current_dimension > state.terminal_dimension && state.level < state.maximum_levels),
{
    state.current_dimension > state.terminal_dimension && state.level < state.maximum_levels
}

/// Whether a basic-hierarchy map made progress: it must shrink the dimension
/// and meet at least one of the fractional reduction minimums.
pub fn basic_made_progress(
    fine_dimension: usize,
    coarse_dimension: usize,
    dimension_reduction_met: bool,
    tuple_reduction_met: bool,
) -> (r: bool)
    ensures
        r == (coarse_dimension < fine_dimension && (dimension_reduction_met || tuple_reduction_met)),
{
    coarse_dimension < fine_dimension && (dimension_reduction_met || tuple_reduction_met)
}

/// Admit the basic hierarchy's last level as its dense terminal, or report
/// that coarsening stagnated above the terminal size.
pub fn basic_terminal_admitted(dimension: usize, tuples: usize, terminal_dimension: usize) -> (r: Result<(), MultiwayError>)
    ensures
        r is Ok <==> dimension <= terminal_dimension,
        r is Err ==> r == Err::<(), MultiwayError>(
            MultiwayError::HierarchyStagnated { dimension, tuples, limit: terminal_dimension },
        ),
{
    if dimension > terminal_dimension {
        return Err(MultiwayError::HierarchyStagnated { dimension, tuples, limit: terminal_dimension });
    }
    Ok(())
}

} // verus!
