use multiway_mg::admission::{MapPcgPayloadReport, PcgPayloadBudget};
use multiway_mg::error::MultiwayError;
use multiway_mg::payload::{bytes, retained_payload_report, sum, HierarchyInventory, MapHierarchyPayloadReport};
use multiway_mg::trace_workspace::{required_bytes, required_samples, reserve};

#[test]
fn report_arithmetic_never_wraps() {
    assert!(bytes::<f64>(usize::MAX).is_err());
    assert!(sum(&[usize::MAX, 1]).is_err());
    let report = MapHierarchyPayloadReport {
        shared_problem_bytes: usize::MAX,
        descriptor_bytes: 1,
        aggregation_bytes: 0,
        terminal_bytes: 0,
    };
    assert!(report.total_bytes().is_err());
}

#[test]
fn counter_and_capacity_overflow_preserve_existing_storage() {
    assert!(required_samples(usize::MAX).is_err());
    assert!(required_samples(usize::MAX / 2 + 1).is_err());
    let mut values = vec![1.0, -2.0];
    let pointer = values.as_ptr();
    let capacity = values.capacity();
    assert!(reserve(&mut values, usize::MAX).is_err());
    assert!(reserve(&mut values, isize::MAX as usize / 8 + 1).is_err());
    assert_eq!(values, [1.0, -2.0]);
    assert_eq!(values.as_ptr(), pointer);
    assert_eq!(values.capacity(), capacity);
}

#[test]
fn payload_totals_are_exact() {
    let report = MapHierarchyPayloadReport {
        shared_problem_bytes: 100,
        descriptor_bytes: 24,
        aggregation_bytes: 36,
        terminal_bytes: 80,
    };
    assert_eq!(report.exclusive_bytes().unwrap(), 140);
    assert_eq!(report.total_bytes().unwrap(), 240);
    assert_eq!(bytes::<u32>(5).unwrap(), 20);
    assert_eq!(sum(&[1, 2, 3]).unwrap(), 6);
    assert_eq!(sum(&[]).unwrap(), 0);
}

#[test]
fn budget_admits_equality_and_rejects_one_byte_less() {
    let report = MapPcgPayloadReport {
        hierarchy: MapHierarchyPayloadReport {
            shared_problem_bytes: 10,
            descriptor_bytes: 1,
            aggregation_bytes: 2,
            terminal_bytes: 3,
        },
        outer_workspace_bytes: 4,
        hierarchy_workspace_bytes: 5,
        rhs_bytes: 6,
        additional_live_bytes: 7,
    };
    assert_eq!(report.total_bytes().unwrap(), 38);
    assert!(report.check_budget(38).is_ok());
    match report.check_budget(37) {
        Err(MultiwayError::PayloadBudgetExceeded { required, budget }) => {
            assert_eq!(required, 38);
            assert_eq!(budget, 37);
        }
        other => panic!("unexpected {other:?}"),
    }
    let overflowing = MapPcgPayloadReport {
        additional_live_bytes: usize::MAX,
        ..report
    };
    assert!(matches!(
        overflowing.check_budget(usize::MAX),
        Err(MultiwayError::WorkspaceSizeOverflow { .. })
    ));
    let budget = PcgPayloadBudget {
        maximum_bytes: 38,
        additional_live_bytes: 7,
    };
    assert!(report.check_budget(budget.maximum_bytes).is_ok());
}

#[test]
fn trace_sizes_count_the_initial_sample() {
    assert_eq!(required_samples(0).unwrap(), 1);
    assert_eq!(required_samples(2000).unwrap(), 2001);
    assert_eq!(required_bytes(6, 2, 24, 16).unwrap(), 6 * 8 * 6 + 3 * 24 + 16);
    assert!(matches!(
        required_bytes(usize::MAX, 1, 1, 0),
        Err(MultiwayError::WorkspaceSizeOverflow { context: "PcgTraceWorkspace" })
    ));
    let mut v: Vec<u8> = vec![1, 2, 3];
    assert!(reserve(&mut v, 2).is_ok());
    assert!(reserve(&mut v, 64).is_ok());
    assert_eq!(v, [1, 2, 3]);
}

fn inventory() -> HierarchyInventory {
    HierarchyInventory {
        problem_dimensions: vec![48, 24, 12],
        problem_payload_bytes: vec![1000, 400, 100],
        aggregation_payload_bytes: vec![192, 96],
        smoother_count: 2,
        smoothers_share_problems: true,
        descriptor_arrays: [(3, 40), (2, 24), (2, 16)],
        terminal_bytes: 1152,
    }
}

#[test]
fn hierarchy_inventory_counts_each_category_once() {
    let report = retained_payload_report(&inventory()).unwrap();
    assert_eq!(report.shared_problem_bytes, 1500);
    assert_eq!(report.descriptor_bytes, 120 + 48 + 32);
    assert_eq!(report.aggregation_bytes, 288);
    assert_eq!(report.terminal_bytes, 1152);
    assert_eq!(report.total_bytes().unwrap(), 1500 + 200 + 288 + 1152);
}

#[test]
fn inconsistent_inventories_fail_closed() {
    let mut rebuilt = inventory();
    rebuilt.smoothers_share_problems = false;
    assert!(matches!(retained_payload_report(&rebuilt), Err(MultiwayError::PayloadInventoryMismatch)));
    let mut flat = inventory();
    flat.problem_dimensions = vec![48, 48, 12];
    assert!(matches!(retained_payload_report(&flat), Err(MultiwayError::PayloadInventoryMismatch)));
    let mut short = inventory();
    short.smoother_count = 1;
    assert!(matches!(retained_payload_report(&short), Err(MultiwayError::PayloadInventoryMismatch)));
    let mut huge = inventory();
    huge.terminal_bytes = usize::MAX;
    assert!(matches!(
        retained_payload_report(&huge),
        Err(MultiwayError::WorkspaceSizeOverflow { context: "MAP hierarchy payload" })
    ));
}

#[test]
fn inventory_rejects_an_independently_rebuilt_smoother_problem() {
    // A 2 x 2 x 2 problem with one consecutive-halving map: dimensions 6 and 3.
    let shared = HierarchyInventory {
        problem_dimensions: vec![6, 3],
        problem_payload_bytes: vec![200, 80],
        aggregation_payload_bytes: vec![24],
        smoother_count: 1,
        smoothers_share_problems: true,
        descriptor_arrays: [(2, 40), (1, 24), (1, 16)],
        terminal_bytes: 72,
    };
    assert!(retained_payload_report(&shared).is_ok());
    let independent = HierarchyInventory { smoothers_share_problems: false, ..shared };
    assert!(matches!(
        retained_payload_report(&independent),
        Err(MultiwayError::PayloadInventoryMismatch)
    ));
}
