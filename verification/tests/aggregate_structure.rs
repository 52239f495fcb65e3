use multiway_mg::candidates::same_component_pairs;
use multiway_mg::compatible::{factor_components_agree, validate_component_preservation};
use multiway_mg::cycle_repair::{aggregate_members, apply_split};
use multiway_mg::error::MultiwayError;
use multiway_mg::pair_schwarz::pair_component_layouts;
use multiway_mg::projector::global_parents;

#[test]
fn aggregates_inside_one_component_are_admitted() {
    let parents = vec![vec![0, 0, 1], vec![0, 1], vec![0]];
    let components = vec![vec![0, 0, 1], vec![5, 5], vec![2]];
    assert!(validate_component_preservation(&parents, &components, &[2, 2, 1]).is_ok());
}

#[test]
fn the_first_crossing_is_reported_with_its_components() {
    assert_eq!(factor_components_agree(&[0, 1, 0, 1], &[3, 4, 3, 7], 2), Err((3, 1, 4, 7)));
    let parents = vec![vec![0, 0], vec![0, 0, 1, 1], vec![0]];
    let components = vec![vec![1, 1], vec![0, 0, 2, 5], vec![0]];
    assert!(matches!(
        validate_component_preservation(&parents, &components, &[1, 2, 1]),
        Err(MultiwayError::InvalidAggregation { factor: 1, aggregate: 1, existing: 2, component: 5 })
    ));
}

#[test]
fn splitting_refines_by_one_aggregate() {
    // Aggregates 0 = {0, 1}, 1 = {2, 3, 4}, 2 = {5}; split aggregate 1 sending level 4 right.
    let parents = [0, 0, 1, 1, 1, 2];
    let split = apply_split(&parents, 3, 1, &[4]);
    assert_eq!(split, vec![0, 0, 1, 1, 2, 3]);
    let members = aggregate_members(&split, 4);
    assert_eq!(members, vec![vec![0, 1], vec![2, 3], vec![4], vec![5]]);
}

#[test]
fn members_list_levels_in_increasing_order() {
    let members = aggregate_members(&[2, 0, 2, 1, 0], 3);
    assert_eq!(members, vec![vec![1, 4], vec![3], vec![0, 2]]);
}

#[test]
fn global_parents_follow_factor_blocks() {
    // Fine blocks of 3, 2, 2 levels; coarse blocks of 2, 1, 2 aggregates.
    let parents = vec![vec![0, 0, 1], vec![0, 0], vec![1, 0]];
    let global = global_parents(&[3, 2, 2], &[2, 1, 2], &parents).unwrap();
    assert_eq!(global, vec![0, 0, 1, 2, 2, 4, 3]);
    assert!(matches!(
        global_parents(&[0, 0, 0], &[usize::MAX, 1, 0], &vec![vec![], vec![], vec![]]),
        Err(MultiwayError::AggregationSizeOverflow { context: "coarse offset arithmetic overflowed" })
    ));
    assert!(matches!(
        global_parents(&[0, 0, 0], &[usize::MAX - 1, 1, 1], &vec![vec![], vec![], vec![]]),
        Err(MultiwayError::AggregationSizeOverflow { context: "coarse dimension arithmetic overflowed" })
    ));
}

#[test]
fn candidate_pairs_never_cross_components() {
    // Levels 1, 3, 4, 6 retained; components: level 1 -> 0, 3 -> 1, 4 -> 0, 6 -> 0.
    let components = [9, 0, 9, 1, 0, 9, 0];
    assert_eq!(
        same_component_pairs(&[1, 3, 4, 6], &components),
        vec![(1, 4), (1, 6), (4, 6)]
    );
    let one = [0; 5];
    assert_eq!(same_component_pairs(&[0, 1, 2, 3, 4], &one).len(), 10);
    assert!(same_component_pairs(&[2], &one).is_empty());
}

#[test]
fn pair_components_are_laid_out_by_label() {
    use_pair_layouts();
}

fn use_pair_layouts() {
    // Two first-factor levels (vertices 0, 1) and three second-factor levels (2, 3, 4).
    let labels = [0, 1, 0, 1, 0];
    let layouts = pair_component_layouts(&labels, &[2, 1], 2, 0, 10).unwrap();
    assert_eq!(layouts.len(), 2);
    assert_eq!(layouts[0].vertices, vec![0, 2, 4]);
    assert_eq!(layouts[0].second_start, 1);
    assert_eq!(layouts[0].global_indices, vec![0, 10, 12]);
    assert_eq!(layouts[1].vertices, vec![1, 3]);
    assert_eq!(layouts[1].global_indices, vec![1, 11]);
    assert!(matches!(
        pair_component_layouts(&labels, &[2, 0], 2, 0, 10),
        Err(MultiwayError::PairComponent { component: 1, problem: "has no positive edge" })
    ));
    assert!(matches!(
        pair_component_layouts(&[0, 0, 1, 1, 1], &[1, 1], 2, 0, 10),
        Err(MultiwayError::PairComponent { component: 0, problem: "does not contain both factor blocks" })
    ));
    assert!(matches!(
        pair_component_layouts(&labels, &[2, 1], 2, 0, u32::MAX as usize),
        Err(MultiwayError::PairComponent { component: 0, problem: "global coefficient index exceeds u32" })
    ));
}
