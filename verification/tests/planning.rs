use multiway_mg::bootstrap_rounds::{
    bootstrap_step, finish_with_split_repair, matching_changed, BootstrapRoundAction,
    BootstrapRoundEvent, BootstrapRoundState, BootstrapRoundStop,
};
use multiway_mg::error::{validate_dimensions, MultiwayError};
use multiway_mg::oracle_schedule::{validate_first_aggregation, validate_schedule_shape};
use multiway_mg::hierarchy_plan::{
    attempted_cumulative, basic_level_needed, basic_made_progress, basic_terminal_admitted, bootstrap_level, bootstrap_plan_begin, cycle_before_level, cycle_level,
    plan_start, BootstrapLevelObservation, BootstrapPlanStep, BootstrapPlanStop,
    CycleLevelObservation, CyclePlanStop,
};

fn structure_with(
    coarse: usize,
    maximum: usize,
    reduction_short: bool,
    complexity_exceeded: bool,
    fine: usize,
) -> BootstrapRoundEvent {
    BootstrapRoundEvent::Structure {
        coarse_dimension: coarse,
        maximum_coarse_dimension: maximum,
        tuple_reduction_short: reduction_short,
        tuple_complexity_exceeded: complexity_exceeded,
        fine_dimension: fine,
    }
}

fn structure(coarse: usize, maximum: usize, tuple_rejected: bool, fine: usize) -> BootstrapRoundEvent {
    structure_with(coarse, maximum, tuple_rejected, tuple_rejected, fine)
}

fn compatible(accepted: bool, changed: bool) -> BootstrapRoundEvent {
    BootstrapRoundEvent::Compatible { accepted, matching_changed: changed }
}

#[test]
fn structure_screens_run_in_order() {
    let state = BootstrapRoundState { round: 0, maximum_witnesses: 2 };
    assert_eq!(
        bootstrap_step(state, structure(9, 8, true, 12)).1,
        BootstrapRoundAction::Stop(BootstrapRoundStop::CoarseDimensionBudget { observed: 9, maximum: 8 })
    );
    assert_eq!(
        bootstrap_step(state, structure(6, 8, true, 12)).1,
        BootstrapRoundAction::Stop(BootstrapRoundStop::TupleReductionBudget)
    );
    assert_eq!(
        bootstrap_step(state, structure_with(6, 8, false, true, 12)).1,
        BootstrapRoundAction::Stop(BootstrapRoundStop::TupleComplexityBudget)
    );
    assert_eq!(
        bootstrap_step(state, structure_with(12, 12, false, true, 12)).1,
        BootstrapRoundAction::Stop(BootstrapRoundStop::TupleComplexityBudget)
    );
    assert_eq!(
        bootstrap_step(state, structure(12, 12, false, 12)).1,
        BootstrapRoundAction::Stop(BootstrapRoundStop::NoCompatibleComplement)
    );
    assert_eq!(bootstrap_step(state, structure(6, 8, false, 12)).1, BootstrapRoundAction::RunCompatibleScreen);
}

#[test]
fn rounds_accept_stagnate_or_spend_the_witness_budget() {
    let start = BootstrapRoundState { round: 0, maximum_witnesses: 2 };
    assert_eq!(
        bootstrap_step(start, compatible(true, true)).1,
        BootstrapRoundAction::Stop(BootstrapRoundStop::AcceptedInitial)
    );
    let (second, action) = bootstrap_step(start, compatible(false, true));
    assert_eq!(action, BootstrapRoundAction::AppendWitness);
    assert_eq!(second.round, 1);
    assert_eq!(
        bootstrap_step(second, compatible(true, false)).1,
        BootstrapRoundAction::Stop(BootstrapRoundStop::AcceptedAfterBootstrap { witnesses: 1 })
    );
    assert_eq!(
        bootstrap_step(second, compatible(false, false)).1,
        BootstrapRoundAction::Stop(BootstrapRoundStop::MatchingStagnated { witnesses: 1 })
    );
    // An unchanged first matching is not stagnation.
    assert_eq!(bootstrap_step(start, compatible(false, false)).1, BootstrapRoundAction::AppendWitness);
    let (third, _) = bootstrap_step(second, compatible(false, true));
    assert_eq!(
        bootstrap_step(third, compatible(false, true)).1,
        BootstrapRoundAction::Stop(BootstrapRoundStop::WitnessBudget { maximum: 2 })
    );
}

#[test]
fn split_repair_decides_only_after_rejection() {
    let budget = BootstrapRoundStop::WitnessBudget { maximum: 2 };
    assert_eq!(
        finish_with_split_repair(budget, false, 2, Some((true, 3))),
        (true, BootstrapRoundStop::AcceptedAfterSplitRepair { witnesses: 2, splits: 3 })
    );
    assert_eq!(
        finish_with_split_repair(budget, false, 2, Some((false, 0))),
        (false, BootstrapRoundStop::SplitRepairRejected)
    );
    assert_eq!(finish_with_split_repair(budget, false, 2, None), (false, budget));
    let accepted = BootstrapRoundStop::AcceptedInitial;
    assert_eq!(finish_with_split_repair(accepted, true, 0, Some((false, 0))), (true, accepted));
}

#[test]
fn matching_change_compares_every_parent_array() {
    let current = vec![vec![0, 0, 1], vec![0], vec![0, 1]];
    assert!(matching_changed(&None, &current));
    assert!(!matching_changed(&Some(current.clone()), &current));
    assert!(matching_changed(&Some(vec![vec![0, 1, 1], vec![0], vec![0, 1]]), &current));
    assert!(matching_changed(&Some(vec![vec![0, 0, 1], vec![0]]), &current));
}

#[test]
fn cycle_planner_stops_for_each_reason() {
    let state = plan_start(100, 1000, 2, 10);
    assert_eq!(cycle_before_level(state), None);
    let seen = |accepted, coarse, dims, tuples| CycleLevelObservation {
        accepted,
        coarse_dimension: coarse,
        coarse_tuples: 300,
        dimension_budget_exceeded: dims,
        tuple_budget_exceeded: tuples,
    };
    assert_eq!(cycle_level(state, seen(false, 40, false, false)), Err(CyclePlanStop::LevelRejected { level: 0 }));
    assert_eq!(
        cycle_level(state, seen(true, 100, false, false)),
        Err(CyclePlanStop::NoDimensionProgress { level: 0, fine_dimension: 100, coarse_dimension: 100 })
    );
    assert_eq!(
        cycle_level(state, seen(true, 40, true, true)),
        Err(CyclePlanStop::DimensionComplexityBudget { level: 0 })
    );
    assert_eq!(
        cycle_level(state, seen(true, 40, false, true)),
        Err(CyclePlanStop::TupleComplexityBudget { level: 0 })
    );
    let next = cycle_level(state, seen(true, 40, false, false)).unwrap();
    assert_eq!((next.level, next.current_dimension), (1, 40));
    assert_eq!((next.cumulative_dimensions, next.cumulative_tuples), (140, 1300));
    let last = cycle_level(next, seen(true, 20, false, false)).unwrap();
    assert_eq!(
        cycle_before_level(last),
        Some(CyclePlanStop::MaximumLevels { maximum_levels: 2, remaining_dimension: 20 })
    );
    let terminal = cycle_level(next, seen(true, 8, false, false)).unwrap();
    assert_eq!(cycle_before_level(terminal), Some(CyclePlanStop::ReachedTerminal));
}

#[test]
fn cumulative_sizes_saturate() {
    let state = plan_start(usize::MAX - 1, 5, 3, 1);
    assert_eq!(attempted_cumulative(state, 10, 2), (usize::MAX, 7));
}

#[test]
fn bootstrap_planner_completes_at_the_terminal() {
    assert_eq!(bootstrap_plan_begin(plan_start(8, 20, 3, 10)), Some(BootstrapPlanStop::FinestAlreadyTerminal));
    let state = plan_start(100, 1000, 2, 10);
    assert_eq!(bootstrap_plan_begin(state), None);
    let seen = |accepted, coarse, short| BootstrapLevelObservation {
        accepted,
        coarse_dimension: coarse,
        coarse_tuples: 100,
        dimension_reduction_short: short,
        tuple_reduction_short: false,
        dimension_budget_exceeded: false,
        tuple_budget_exceeded: false,
    };
    assert_eq!(
        bootstrap_level(state, seen(false, 40, false)),
        BootstrapPlanStep::Stop(state, BootstrapPlanStop::AggregationRejected { level: 0 })
    );
    assert_eq!(
        bootstrap_level(state, seen(true, 40, true)),
        BootstrapPlanStep::Stop(state, BootstrapPlanStop::InsufficientDimensionReduction { level: 0 })
    );
    let next = match bootstrap_level(state, seen(true, 40, false)) {
        BootstrapPlanStep::Continue(next) => next,
        other => panic!("unexpected {other:?}"),
    };
    assert_eq!((next.level, next.cumulative_dimensions, next.cumulative_tuples), (1, 140, 1100));
    match bootstrap_level(next, seen(true, 9, false)) {
        BootstrapPlanStep::Stop(last, BootstrapPlanStop::ReachedTerminal) => assert_eq!(last.level, 2),
        other => panic!("unexpected {other:?}"),
    }
    assert!(matches!(
        bootstrap_level(next, seen(true, 20, false)),
        BootstrapPlanStep::Stop(_, BootstrapPlanStop::MaximumLevels { maximum_levels: 2, remaining_dimension: 20 })
    ));
}

#[test]
fn basic_hierarchy_needs_progress_and_a_small_terminal() {
    let state = plan_start(100, 1000, 1, 10);
    assert!(basic_level_needed(state));
    assert!(!basic_level_needed(plan_start(10, 1000, 1, 10)));
    assert!(!basic_level_needed(plan_start(100, 1000, 0, 10)));
    assert!(basic_made_progress(100, 60, false, true));
    assert!(!basic_made_progress(100, 60, false, false));
    assert!(!basic_made_progress(100, 100, true, true));
    assert!(basic_terminal_admitted(10, 30, 10).is_ok());
    assert!(matches!(
        basic_terminal_admitted(11, 30, 10),
        Err(MultiwayError::HierarchyStagnated { dimension: 11, tuples: 30, limit: 10 })
    ));
}

#[test]
fn input_is_checked_before_output() {
    assert!(validate_dimensions("apply", 4, 4, 4).is_ok());
    assert!(matches!(
        validate_dimensions("apply", 4, 3, 2),
        Err(MultiwayError::DimensionMismatch { context: "apply", expected: 4, actual: 3 })
    ));
    assert!(matches!(
        validate_dimensions("apply", 4, 4, 2),
        Err(MultiwayError::DimensionMismatch { context: "apply", expected: 4, actual: 2 })
    ));
}

#[test]
fn oracle_schedule_shape_is_checked_in_order() {
    use_oracle_checks();
}

fn use_oracle_checks() {
    assert!(validate_schedule_shape(2, 2, 1).is_ok());
    assert!(matches!(
        validate_schedule_shape(0, 3, 0),
        Err(MultiwayError::InvalidOption { name: "oracle_aggregations", .. })
    ));
    assert!(matches!(
        validate_schedule_shape(2, 3, 0),
        Err(MultiwayError::DimensionMismatch {
            context: "ScheduledOracleHierarchyOptions smoothers",
            expected: 2,
            actual: 3
        })
    ));
    assert!(matches!(
        validate_schedule_shape(2, 2, 0),
        Err(MultiwayError::InvalidOption { name: "oracle_sweeps", .. })
    ));
    assert!(validate_first_aggregation([4, 3, 2], [4, 3, 2]).is_ok());
    assert!(matches!(
        validate_first_aggregation([4, 3, 2], [4, 2, 2]),
        Err(MultiwayError::InvalidSuppliedAggregation { level: 0 })
    ));
}
