use multiway_mg::cycle_repair::{
    split_repair_begin, split_repair_step, SplitRepairAction, SplitRepairEvent, SplitRepairPhase,
    SplitRepairStop,
};

fn metrics(coarse: usize, maximum: usize, short: bool, exceeded: bool) -> SplitRepairEvent {
    SplitRepairEvent::Metrics {
        coarse_dimension: coarse,
        maximum_coarse_dimension: maximum,
        tuple_reduction_short: short,
        tuple_complexity_exceeded: exceeded,
    }
}

#[test]
fn initial_map_budgets_are_screened_in_order() {
    let start = split_repair_begin(3);
    assert_eq!(start.accepted_splits, 0);
    assert_eq!(
        split_repair_step(start, metrics(9, 8, true, true)).1,
        SplitRepairAction::Stop(SplitRepairStop::CoarseDimensionBudget {
            attempted_dimension: 9,
            maximum_dimension: 8
        })
    );
    assert_eq!(
        split_repair_step(start, metrics(8, 8, true, true)).1,
        SplitRepairAction::Stop(SplitRepairStop::TupleReductionBudget)
    );
    assert_eq!(
        split_repair_step(start, metrics(8, 8, false, true)).1,
        SplitRepairAction::Stop(SplitRepairStop::TupleComplexityBudget)
    );
    assert_eq!(split_repair_step(start, metrics(8, 8, false, false)).1, SplitRepairAction::ChooseSplit);
}

#[test]
fn rounds_admit_splits_until_the_budget() {
    let (state, action) = split_repair_step(split_repair_begin(2), metrics(4, 8, false, false));
    assert_eq!(action, SplitRepairAction::ChooseSplit);
    let (state, action) = split_repair_step(state, SplitRepairEvent::SplitChosen { found: true });
    assert_eq!(action, SplitRepairAction::MeasureCandidate);
    let (state, action) = split_repair_step(state, metrics(5, 8, false, false));
    assert_eq!(action, SplitRepairAction::ProbeCandidate);
    let (state, action) = split_repair_step(state, SplitRepairEvent::Improvement { sufficient: true });
    assert_eq!(action, SplitRepairAction::AcceptAndContinue);
    assert_eq!(state.accepted_splits, 1);
    let (state, _) = split_repair_step(state, SplitRepairEvent::SplitChosen { found: true });
    let (state, _) = split_repair_step(state, metrics(6, 8, false, false));
    let (state, action) = split_repair_step(state, SplitRepairEvent::Improvement { sufficient: true });
    let reason = SplitRepairStop::MaximumRounds { maximum_rounds: 2 };
    assert_eq!(action, SplitRepairAction::AcceptAndStop(reason));
    assert_eq!(state.accepted_splits, 2);
    assert_eq!(state.phase, SplitRepairPhase::Stopped(reason));
    let (after, again) = split_repair_step(state, SplitRepairEvent::SplitChosen { found: true });
    assert_eq!(after, state);
    assert_eq!(again, SplitRepairAction::Stop(reason));
}

#[test]
fn rounds_stop_without_split_structure_or_improvement() {
    let (choice, _) = split_repair_step(split_repair_begin(4), metrics(4, 8, false, false));
    assert_eq!(
        split_repair_step(choice, SplitRepairEvent::SplitChosen { found: false }).1,
        SplitRepairAction::Stop(SplitRepairStop::NoSplittableAggregate)
    );
    let (measure, _) = split_repair_step(choice, SplitRepairEvent::SplitChosen { found: true });
    assert_eq!(
        split_repair_step(measure, metrics(9, 8, false, false)).1,
        SplitRepairAction::Stop(SplitRepairStop::CoarseDimensionBudget {
            attempted_dimension: 9,
            maximum_dimension: 8
        })
    );
    let (probe, _) = split_repair_step(measure, metrics(5, 8, false, false));
    let (stopped, action) = split_repair_step(probe, SplitRepairEvent::Improvement { sufficient: false });
    assert_eq!(action, SplitRepairAction::Stop(SplitRepairStop::InsufficientCycleImprovement));
    assert_eq!(stopped.accepted_splits, 0);
    // An observation out of turn changes nothing.
    assert_eq!(
        split_repair_step(probe, SplitRepairEvent::SplitChosen { found: true }),
        (probe, SplitRepairAction::ProbeCandidate)
    );
}
