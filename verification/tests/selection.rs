use multiway_mg::bootstrap::{
    build_matching, select_factor, splitmix64, splitmix_states, vector_seed,
    BootstrapAggregationWorkReport, RoundWork,
};
use multiway_mg::bootstrap_portfolio::{
    secondary_candidate_sources, select_secondary_candidate, BootstrapAcceptanceScreen,
    SecondaryEvaluation, SecondaryScreenCandidateSource, SecondaryScreenOutcome,
    SecondaryScreenWorkReport,
};
use multiway_mg::cycle_portfolio::{
    cycle_candidate_sources, select_cycle_candidate, CycleEvaluation, CycleOutcome,
    CyclePortfolioCandidateSource, CyclePortfolioWorkReport,
};
use multiway_mg::cycle_smoother_portfolio::{
    after_map_pass, after_pair_pass, verify_identical_candidate_maps, CycleSmootherKind,
    CycleSmootherPortfolioStopReason,
};
use multiway_mg::error::MultiwayError;
use multiway_mg::least_squares::LeastSquaresWorkReport;
use multiway_mg::matching::{canonical_parents, greedy_matching, maximum_count, retain_by_degree};
use multiway_mg::memory_estimate::{estimate_three_way_problem_bytes, ProblemLayout};
use multiway_mg::oracle_schedule::{memory_report, LevelSmootherAccounting};
use multiway_mg::pair_local::{PairLocalCmgMemoryReport, PairLocalWithinMemoryReport};
use multiway_mg::pair_schwarz::{
    canonical_selected_pairs, schwarz_accounting, FactorPair, PairComponentAccounting,
};

#[test]
fn greedy_matching_takes_candidates_in_order() {
    let mates = greedy_matching(5, &vec![(0, 1), (1, 2), (2, 3), (3, 4)]);
    assert_eq!(mates, vec![Some(1), Some(0), Some(3), Some(2), None]);
    assert_eq!(canonical_parents(&mates), vec![0, 0, 1, 1, 2]);
    let crossed = greedy_matching(4, &vec![(0, 3), (1, 2)]);
    assert_eq!(canonical_parents(&crossed), vec![0, 1, 1, 0]);
}

#[test]
fn retention_caps_every_level_degree() {
    let (kept, degrees) = retain_by_degree(3, 1, &vec![(0, 1), (1, 2), (0, 2)]);
    assert_eq!(kept, vec![(0, 1)]);
    assert_eq!(degrees, vec![1, 1, 0]);
    assert_eq!(maximum_count(&degrees), 1);
    assert_eq!(maximum_count(&vec![]), 0);
}

#[test]
fn splitmix_matches_the_reference_stream() {
    assert_eq!(splitmix64(0), 0xe220_a839_7b1d_cdaf);
    let states = splitmix_states(0, 3);
    assert_eq!(states[0], splitmix64(0));
    assert_eq!(states[1], splitmix64(states[0]));
    assert_eq!(states[2], splitmix64(states[1]));
    assert_eq!(vector_seed(7, 0), 7);
    assert_eq!(vector_seed(0, 1), 0x9e37_79b9_7f4a_7c15);
}

#[test]
fn bootstrap_matching_is_built_per_factor() {
    let scored = vec![(0, 0, 1), (1, 0, 1), (0, 1, 2)];
    assert_eq!(select_factor(&scored, 0), vec![(0, 1), (1, 2)]);
    let matching = build_matching([3, 2, 1], 2, &scored);
    assert_eq!(matching.parents, vec![vec![0, 0, 1], vec![0, 0], vec![0]]);
    assert_eq!(matching.retained, 3);
    assert_eq!(matching.maximum_degree, 2);
    let capped = build_matching([3, 2, 1], 1, &scored);
    assert_eq!(capped.retained, 2);
    assert_eq!(capped.maximum_degree, 1);
}

#[test]
fn bootstrap_work_report_sums_rounds_and_vectors() {
    let rounds = vec![RoundWork {
        gramian_applications: 10,
        smoother_applications: 4,
        retained_bytes_estimate: 100,
    }];
    let report = BootstrapAggregationWorkReport::from_build(3, 2, &vec![(5, 3), (4, 2)], &rounds, &vec![8, 8]);
    assert_eq!(report.setup_gramian_applications(), 9);
    assert_eq!(report.setup_smoother_applications(), 6);
    assert_eq!(report.compatible_gramian_applications(), 10);
    assert_eq!(report.compatible_smoother_applications(), 4);
    assert_eq!(report.candidate_pairs_generated(), 9);
    assert_eq!(report.candidate_pairs_retained(), 5);
    assert_eq!(report.retained_test_vector_bytes(), 128);
    assert_eq!(report.retained_round_report_bytes_estimate(), 100);
    let saturated = BootstrapAggregationWorkReport::from_build(usize::MAX, 1, &vec![(usize::MAX, 0), (1, 0)], &vec![], &vec![]);
    assert_eq!(saturated.setup_gramian_applications(), usize::MAX);
    assert_eq!(saturated.candidate_pairs_generated(), usize::MAX);
}

fn probed(source: CyclePortfolioCandidateSource, key: u64, tuples: usize, accepted: bool) -> CycleEvaluation {
    CycleEvaluation {
        source,
        coarse_tuple_count: tuples,
        coarse_dimension: 6,
        outcome: CycleOutcome::Probed {
            gramian_applications: 3,
            preconditioner_applications: 2,
            energy_evaluations: 1,
            retained_bytes_estimate: 64,
            accepted,
            energy_factor_key: key,
        },
    }
}

#[test]
fn cycle_portfolio_selects_the_best_accepted_cycle() {
    assert_eq!(cycle_candidate_sources(false), vec![CyclePortfolioCandidateSource::BootstrapFinal]);
    let evaluations = vec![
        probed(CyclePortfolioCandidateSource::BootstrapFinal, 5, 10, true),
        probed(CyclePortfolioCandidateSource::StructuralBaseline, 3, 12, true),
    ];
    assert_eq!(select_cycle_candidate(&evaluations), Some(1));
    let tied = vec![
        probed(CyclePortfolioCandidateSource::BootstrapFinal, 3, 12, true),
        probed(CyclePortfolioCandidateSource::StructuralBaseline, 3, 12, true),
    ];
    assert_eq!(select_cycle_candidate(&tied), Some(0));
    let rejected = vec![probed(CyclePortfolioCandidateSource::BootstrapFinal, 1, 1, false)];
    assert_eq!(select_cycle_candidate(&rejected), None);
    let mixed = vec![
        CycleEvaluation {
            source: CyclePortfolioCandidateSource::BootstrapFinal,
            coarse_tuple_count: 1,
            coarse_dimension: 1,
            outcome: CycleOutcome::BuildFailed,
        },
        probed(CyclePortfolioCandidateSource::StructuralBaseline, 3, 12, true),
    ];
    let work = CyclePortfolioWorkReport::from_evaluations(&mixed);
    assert_eq!(work.candidate_maps_considered(), 2);
    assert_eq!(work.cycle_builds_attempted(), 2);
    assert_eq!(work.cycle_build_failures(), 1);
    assert_eq!(work.probe_gramian_applications(), 3);
    assert_eq!(work.probe_preconditioner_applications(), 2);
    assert_eq!(work.probe_energy_evaluations(), 1);
    assert_eq!(work.retained_probe_bytes_estimate(), 64);
}

fn screened(source: SecondaryScreenCandidateSource, tuples: usize, accepted: bool) -> SecondaryEvaluation {
    SecondaryEvaluation {
        source,
        coarse_tuple_count: tuples,
        coarse_dimension: 6,
        screen: Some(SecondaryScreenOutcome {
            gramian_applications: 7,
            smoother_applications: 5,
            retained_bytes_estimate: 32,
            accepted,
            diagonal_factor_key: 1,
        }),
    }
}

#[test]
fn secondary_screen_prefers_fewer_coarse_tuples() {
    assert_eq!(secondary_candidate_sources(true).len(), 2);
    let evaluations = vec![
        screened(SecondaryScreenCandidateSource::BootstrapFinal, 20, true),
        screened(SecondaryScreenCandidateSource::StructuralBaseline, 15, true),
    ];
    let (index, screen) = select_secondary_candidate(&evaluations);
    assert_eq!(index, Some(1));
    assert_eq!(screen, BootstrapAcceptanceScreen::SecondaryStructuralBaseline);
    let (none, rejected) = select_secondary_candidate(&vec![screened(SecondaryScreenCandidateSource::BootstrapFinal, 1, false)]);
    assert_eq!(none, None);
    assert_eq!(rejected, BootstrapAcceptanceScreen::Rejected);
    let work = SecondaryScreenWorkReport::from_evaluations(&evaluations);
    assert_eq!(work.candidate_maps_considered(), 2);
    assert_eq!(work.compatible_gramian_applications(), 14);
    assert_eq!(work.compatible_smoother_applications(), 10);
    assert_eq!(work.retained_report_bytes_estimate(), 64);
    assert_eq!(SecondaryScreenWorkReport::none().candidate_maps_considered(), 0);
}

#[test]
fn smoother_portfolio_prefers_the_map_pass() {
    let map = after_map_pass(true).unwrap();
    assert_eq!(map.selected_smoother, Some(CycleSmootherKind::SymmetricMap));
    assert_eq!(map.stop_reason, CycleSmootherPortfolioStopReason::AcceptedSymmetricMap);
    assert!(after_map_pass(false).is_none());
    assert_eq!(after_pair_pass(true).selected_smoother, Some(CycleSmootherKind::AllPairsCmg));
    let none = after_pair_pass(false);
    assert!(!none.accepted());
    assert_eq!(none.stop_reason, CycleSmootherPortfolioStopReason::NoAcceptedCycle);
    let sources = vec![CyclePortfolioCandidateSource::BootstrapFinal];
    assert!(verify_identical_candidate_maps(&sources, &sources, &vec![true]).is_ok());
    assert!(matches!(
        verify_identical_candidate_maps(&sources, &sources, &vec![false]),
        Err(MultiwayError::CycleQuality { .. })
    ));
    assert!(matches!(
        verify_identical_candidate_maps(&sources, &vec![], &vec![]),
        Err(MultiwayError::CycleQuality { .. })
    ));
}

#[test]
fn least_squares_work_counts_the_certificate() {
    let work = LeastSquaresWorkReport::from_solver_counts(4, 5, 6);
    assert_eq!(work.solver_outer_operator_applications(), 9);
    assert_eq!(work.certification_incidence_applications(), 1);
    assert_eq!(work.certification_adjoint_applications(), 2);
    assert_eq!(work.complete_incidence_applications(), 12);
    assert_eq!(LeastSquaresWorkReport::from_solver_counts(usize::MAX, 1, 0).solver_outer_operator_applications(), usize::MAX);
}

#[test]
fn pair_local_memory_reports_saturate() {
    let cmg = PairLocalCmgMemoryReport::new(100, 200, 300);
    assert_eq!(cmg.total_retained_bytes_estimate(), 600);
    assert_eq!(PairLocalCmgMemoryReport::new(usize::MAX, 1, 0).total_retained_bytes_estimate(), usize::MAX);
    let within = PairLocalWithinMemoryReport::new(50, 4);
    assert_eq!(within.range_workspace_bytes(), 32);
    assert_eq!(within.within_retained_bytes(), None);
    assert_eq!(within.known_retained_bytes_estimate(), 82);
}

fn layout(dimension: usize, tuples: usize) -> ProblemLayout {
    ProblemLayout { dimension, tuple_count: tuples, component_count: 1, projection_workspace_bytes: 0 }
}

#[test]
fn problem_and_oracle_memory_estimates_are_exact() {
    let word = std::mem::size_of::<usize>();
    assert_eq!(estimate_three_way_problem_bytes(&layout(10, 30)), 30 * 28 + 160 + 10 * word + 3 * word);
    let fine = estimate_three_way_problem_bytes(&layout(10, 30));
    let coarse = estimate_three_way_problem_bytes(&layout(4, 8));
    let report = memory_report(&vec![layout(10, 30), layout(4, 8)], &vec![40], &vec![LevelSmootherAccounting::Jacobi]);
    assert_eq!(report.problem_state_bytes_estimate(), fine + coarse);
    assert_eq!(report.aggregation_bytes(), 40);
    assert_eq!(report.smoother_bytes_estimate(), 80);
    assert_eq!(report.pair_cmg_preconditioner_bytes(), 0);
    assert_eq!(report.terminal_bytes_estimate(), 4 * 5 * 8);
    assert_eq!(report.total_retained_bytes_estimate(), fine + coarse + 40 + 80 + 160);
    assert_eq!(report.maximum_apply_scratch_bytes_estimate(), (10 + 4) * 7 * 8);
    let cmg = memory_report(
        &vec![layout(10, 30), layout(4, 8)],
        &vec![40],
        &vec![LevelSmootherAccounting::AllPairsCmg { cmg_preconditioner_bytes: 500, pair_workspace_bytes: 70 }],
    );
    assert_eq!(cmg.smoother_bytes_estimate(), 0);
    assert_eq!(cmg.pair_cmg_preconditioner_bytes(), 500);
    assert_eq!(cmg.pair_cmg_workspace_bytes(), 70);
}

#[test]
fn schwarz_pairs_and_accounting() {
    assert_eq!(
        canonical_selected_pairs(&[FactorPair::OneTwo, FactorPair::ZeroOne, FactorPair::OneTwo]).unwrap(),
        vec![FactorPair::ZeroOne, FactorPair::OneTwo]
    );
    assert!(matches!(
        canonical_selected_pairs(&[]),
        Err(MultiwayError::InvalidOption { name: "selected_pairs", .. })
    ));
    assert_eq!(FactorPair::ZeroTwo.factors(), (0, 2));
    let components = vec![
        PairComponentAccounting {
            pair: FactorPair::ZeroOne,
            component: 0,
            vertices: 5,
            edges: 7,
            cmg_levels: 2,
            cmg_retained_bytes: 100,
            cmg_workspace_bytes: 40,
        },
        PairComponentAccounting {
            pair: FactorPair::OneTwo,
            component: 0,
            vertices: 3,
            edges: 2,
            cmg_levels: 1,
            cmg_retained_bytes: 50,
            cmg_workspace_bytes: 20,
        },
    ];
    let (reports, memory) = schwarz_accounting(1000, 16, 2, &components).unwrap();
    assert_eq!(reports[0].cycle_excess(), 3);
    assert_eq!(reports[1].cycle_excess(), 0);
    assert_eq!(reports[0].local_scratch_values(), 10);
    assert_eq!(memory.cmg_preconditioner_bytes(), 150);
    assert_eq!(memory.cmg_workspace_pool_bytes(), 60);
    assert_eq!(memory.subdomain_metadata_bytes_estimate(), 8 * 12);
    assert_eq!(memory.total_retained_bytes_estimate(), 1000 + 150 + 60 + 96 + 16);
    assert_eq!(memory.maximum_local_scratch_bytes_per_worker(), 10 * 2 * 8);
    let (single, _) = schwarz_accounting(0, 0, 1, &components).unwrap();
    assert_eq!(single[0].local_scratch_values(), 5);
}

#[test]
fn accounting_refuses_components_without_both_blocks_or_connectivity() {
    let good = PairComponentAccounting {
        pair: FactorPair::ZeroOne,
        component: 0,
        vertices: 2,
        edges: 1,
        cmg_levels: 1,
        cmg_retained_bytes: 8,
        cmg_workspace_bytes: 8,
    };
    let (reports, _) = schwarz_accounting(0, 0, 1, &vec![good]).unwrap();
    assert_eq!(reports[0].cycle_excess(), 0);
    let single_vertex = PairComponentAccounting { component: 4, vertices: 1, edges: 0, ..good };
    assert!(matches!(
        schwarz_accounting(0, 0, 1, &vec![good, single_vertex]),
        Err(MultiwayError::PairComponent { component: 4, problem: "does not contain both factor blocks" })
    ));
    let disconnected = PairComponentAccounting { component: 2, vertices: 5, edges: 3, ..good };
    assert!(matches!(
        schwarz_accounting(0, 0, 1, &vec![disconnected, single_vertex]),
        Err(MultiwayError::PairComponent { component: 2, problem: "is not connected" })
    ));
    let huge = PairComponentAccounting { vertices: usize::MAX, edges: usize::MAX, ..good };
    assert!(matches!(
        schwarz_accounting(0, 0, 2, &vec![huge]),
        Err(MultiwayError::InvalidOption { name: "pair_cmg_fixed_cycles", .. })
    ));
}
