use multiway_mg::profiling::{
    collect, end_span, phases, span, thread_local_payload_bytes, CollectError, Phase,
    ProfilerState, Region, Report, PHASE_COUNT,
};

const EMPTY: Region = Region {
    calls: 0,
    elapsed_ns: 0,
};

fn accounted(r: Report) {
    assert!(r.valid);
    assert_eq!(
        r.elapsed_ns,
        r.unattributed_ns + r.regions.iter().map(|r| r.elapsed_ns).sum::<u128>()
    );
}

#[test]
fn disjoint_regions_errors_and_inactive_spans() {
    let mut state = ProfilerState::new();
    let inactive = span(&mut state, Phase::GlobalSolve);
    let (result, r) = collect(&mut state, |mut s| {
        {
            let sp = span(&mut s, Phase::Partition);
            end_span(&mut s, sp);
        }
        {
            let sp = span(&mut s, Phase::Partition);
            end_span(&mut s, sp);
        }
        let sp = span(&mut s, Phase::LocalSolve);
        end_span(&mut s, sp);
        (Err::<(), ()>(()), s)
    })
    .unwrap();
    assert!(result.is_err());
    accounted(r);
    assert_eq!(r.regions[Phase::Partition.index()].calls, 2);
    assert_eq!(r.regions[Phase::LocalSolve.index()].calls, 1);
    end_span(&mut state, inactive);
    let (_, r) = collect(&mut state, |s| ((), s)).unwrap();
    accounted(r);
    assert!(r.regions.iter().all(|r| *r == EMPTY));
}

#[test]
fn overlap_and_open_spans_fail_closed_and_stale_guards_are_ignored() {
    let mut state = ProfilerState::new();
    let (_, r) = collect(&mut state, |mut s| {
        let a = span(&mut s, Phase::Screening);
        let b = span(&mut s, Phase::Screening);
        end_span(&mut s, b);
        end_span(&mut s, a);
        ((), s)
    })
    .unwrap();
    assert!(!r.valid);
    let (stale, r) = collect(&mut state, |mut s| {
        let live = span(&mut s, Phase::LocalSolve);
        (live, s)
    })
    .unwrap();
    assert!(!r.valid);
    let (_, r) = collect(&mut state, |mut s| {
        let sp = span(&mut s, Phase::LocalSolve);
        end_span(&mut s, stale);
        end_span(&mut s, sp);
        ((), s)
    })
    .unwrap();
    accounted(r);
    assert_eq!(r.regions[Phase::LocalSolve.index()].calls, 1);
}

#[test]
fn nested_collection_never_runs_and_outer_collection_survives() {
    let mut state = ProfilerState::new();
    let (_, r) = collect(&mut state, |mut s| {
        let nested = collect(&mut s, |_| -> ((), ProfilerState) { panic!("must not run") });
        assert!(matches!(nested, Err(CollectError::NestedCollection)));
        let sp = span(&mut s, Phase::DirectSolve);
        end_span(&mut s, sp);
        ((), s)
    })
    .unwrap();
    accounted(r);
    assert_eq!(r.regions[Phase::DirectSolve.index()].calls, 1);
}

#[test]
fn counter_overflow_invalidates_and_generation_overflow_refuses() {
    let mut state = ProfilerState::new();
    let (_, r) = collect(&mut state, |mut s| {
        s.regions[Phase::Partition.index()].calls = u64::MAX;
        let sp = span(&mut s, Phase::Partition);
        end_span(&mut s, sp);
        ((), s)
    })
    .unwrap();
    assert!(!r.valid);
    let (_, r) = collect(&mut state, |mut s| {
        s.regions[Phase::Partition.index()].elapsed_ns = u128::MAX;
        let sp = span(&mut s, Phase::Partition);
        end_span(&mut s, sp);
        ((), s)
    })
    .unwrap();
    assert!(!r.valid);
    let old = state.generation;
    state.generation = u64::MAX;
    assert!(matches!(
        collect(&mut state, |_| -> ((), ProfilerState) { panic!("must not run") }),
        Err(CollectError::GenerationOverflow)
    ));
    state.generation = old;
    accounted(collect(&mut state, |s| ((), s)).unwrap().1);
}

#[test]
fn inventory_names_and_indices_are_stable() {
    let all = phases();
    assert_eq!(all.len(), PHASE_COUNT);
    for (i, phase) in all.iter().enumerate() {
        assert_eq!(phase.index(), i);
    }
    assert_eq!(Phase::Partition.name(), "partition");
    assert_eq!(Phase::StructuralPreparation.name(), "structural_preparation");
    assert_eq!(Phase::GlobalSolve.name(), "global_solve");
    assert_eq!(CollectError::NestedCollection.message(), "NestedCollection");
}

#[test]
fn report_rejects_unattributable_time() {
    let mut state = ProfilerState::new();
    state.begin().unwrap();
    state.regions[0].elapsed_ns = 10;
    let r = state.report(5);
    assert!(!r.valid);
    assert_eq!(r.unattributed_ns, 0);
    let r = state.report(15);
    assert!(r.valid);
    assert_eq!(r.unattributed_ns, 5);
}

#[test]
fn thread_local_payload_is_the_cell_holding_every_region() {
    let bytes = thread_local_payload_bytes();
    assert_eq!(bytes, std::mem::size_of::<std::cell::RefCell<ProfilerState>>());
    assert!(bytes > std::mem::size_of::<ProfilerState>());
    assert!(bytes >= PHASE_COUNT * std::mem::size_of::<Region>());
    assert_eq!(thread_local_payload_bytes(), bytes);
}
