use multiway_mg::error::MultiwayError;
use multiway_mg::prepared_aggregation::{
    match_ordered_proposals, neighbor_bound, neighbor_proposals, proposal_bound, setup_payload_report,
    AggregationFrameSizes, PreparedAggregationWork, SourceIds,
};

#[test]
fn per_neighbor_proposal_bound_covers_all_small_ragged_degree_lists() {
    for k in 1usize..=8 {
        for a in 0usize..=7 {
            for b in 0usize..=7 {
                for c in 0usize..=7 {
                    let actual = [a, b, c]
                        .into_iter()
                        .map(|n| {
                            let n = n.min(k);
                            n * n.saturating_sub(1) / 2
                        })
                        .sum::<usize>();
                    let entries = a + b + c;
                    let bound = (3 * k * k.saturating_sub(1) / 2)
                        .min(entries * k.saturating_sub(1) / 2);
                    assert!(actual <= bound);
                    assert_eq!(neighbor_proposals(&[a, b, c], k), Some(actual));
                    assert_eq!(neighbor_bound(3, k, entries, k).unwrap(), bound);
                }
            }
        }
    }
}

fn ids_of(ids: &SourceIds) -> Vec<usize> {
    ids.order()
}

#[test]
fn compact_and_wide_source_orders_match_at_all_factor_pairs() {
    assert!(SourceIds::compact(u32::MAX as usize));
    if let Some(first_wide) = (u32::MAX as usize).checked_add(2) {
        assert!(SourceIds::compact(first_wide - 1));
        assert!(!SourceIds::compact(first_wide));
        assert_eq!(
            SourceIds::index_bytes(first_wide),
            std::mem::size_of::<usize>()
        );
    }
    let tuples: Vec<[u32; 3]> = (0..3)
        .flat_map(|i| (0..2).flat_map(move |j| (0..4).map(move |k| [i, j, k])))
        .collect();
    let mut compact = SourceIds::Compact((0..tuples.len()).rev().map(|i| i as u32).collect());
    let mut wide = SourceIds::Wide((0..tuples.len()).rev().collect());
    for factor in 0..3 {
        for neighbor in 0..3 {
            if factor != neighbor {
                compact.sort(&tuples, factor, neighbor);
                wide.sort(&tuples, factor, neighbor);
                let a = ids_of(&compact);
                let b = ids_of(&wide);
                assert_eq!(a, b);
                assert!(a.windows(2).all(|w| (
                    tuples[w[0]][neighbor],
                    tuples[w[0]][factor],
                    w[0]
                ) < (
                    tuples[w[1]][neighbor],
                    tuples[w[1]][factor],
                    w[1]
                )));
            }
        }
    }
    assert!(SourceIds::try_new(usize::MAX).is_err());
}

#[test]
fn fresh_source_ids_count_up_in_the_narrowest_width() {
    let ids = SourceIds::try_new(5).unwrap();
    assert!(matches!(ids, SourceIds::Compact(_)));
    assert_eq!(ids.order(), vec![0, 1, 2, 3, 4]);
    assert_eq!(SourceIds::index_bytes(5), 4);
    assert_eq!(SourceIds::try_new(0).unwrap().order(), Vec::<usize>::new());
    assert!(matches!(
        SourceIds::try_new(usize::MAX),
        Err(MultiwayError::DimensionOverflow { context: "prepared aggregation" })
    ));
}

#[test]
fn proposal_bound_takes_the_largest_factor_capacity() {
    // Factor 0 (4 levels, k = 4, 6 pairs): neighbors of 3 and 2 levels, 24 entries
    // give min(18, 36) + min(12, 36) = 30.
    // Factor 1 (3 levels, k = 3, 3 pairs): min(12, 24) + min(6, 24) = 18.
    // Factor 2 (2 levels, k = 2, 1 pair): min(4, 12) + min(3, 12) = 7.
    assert_eq!(proposal_bound(&[4, 3, 2], 24, 16).unwrap(), 30);
    // A degree cap of two keeps one pair per neighbor list.
    assert_eq!(proposal_bound(&[4, 3, 2], 24, 2).unwrap(), 7);
    assert!(matches!(
        proposal_bound(&[usize::MAX, 3, 2], 24, usize::MAX),
        Err(MultiwayError::DimensionOverflow { .. })
    ));
}

#[test]
fn setup_report_sums_every_requested_array() {
    let sizes = AggregationFrameSizes {
        level_counts: [4, 3, 2],
        tuple_count: 24,
        coefficient_count: 9,
        topology_payload_bytes: 100,
        frame_payload_bytes: 50,
    };
    let report = setup_payload_report(sizes, 16, 7).unwrap();
    assert_eq!(report.maximum_proposals, 30);
    assert_eq!(report.source_index_bytes, 4);
    // ids 96 + masses 384 + proposals 720 + mates 16.
    assert_eq!(report.scratch_payload_bound, 1216);
    assert_eq!(report.parent_payload_bytes, 36);
    assert_eq!(report.borrowed_payload_bytes, 150);
    assert_eq!(report.additional_live_payload_bytes, 7);
    assert_eq!(report.total_payload_bound, 150 + 7 + 36 + 1216);
    assert!(matches!(
        setup_payload_report(sizes, 1, 0),
        Err(MultiwayError::InvalidOption { name: "prepared_pair_neighborhood", .. })
    ));
    assert!(matches!(
        setup_payload_report(sizes, 16, usize::MAX),
        Err(MultiwayError::DimensionOverflow { context: "prepared aggregation" })
    ));
}

#[test]
fn fresh_work_report_is_zero() {
    let work = PreparedAggregationWork::default();
    assert_eq!(work.tuple_visits + work.pair_entries + work.proposals, 0);
    assert_eq!(work.unique_candidates + work.truncated_neighbors + work.accepted_pairs, 0);
}

#[test]
fn ordered_proposals_are_matched_greedily_and_numbered_by_first_level() {
    assert_eq!(
        match_ordered_proposals(4, &vec![(0, 1), (1, 2), (2, 3)]),
        (vec![0, 0, 1, 1], 2)
    );
    assert_eq!(
        match_ordered_proposals(4, &vec![(1, 2), (0, 1), (0, 3)]),
        (vec![0, 1, 1, 0], 2)
    );
    assert_eq!(match_ordered_proposals(3, &vec![(0, 2)]), (vec![0, 1, 0], 1));
    assert_eq!(match_ordered_proposals(2, &vec![]), (vec![0, 1], 0));
}
