use multiway_mg::certificate::{bytes, required_payload_bytes, vector, CertificateWorkReport};
use multiway_mg::dense_workspace::{modal_required_bytes, resize_modal};
use multiway_mg::error::MultiwayError;
use multiway_mg::hierarchy_workspace::{
    buffer_lengths, prepare_vectors, required_buffer_count, resize_buffer, traversal_retained_bytes,
    traversal_value_count,
    workspace_required_bytes, FRAME_BUFFERS,
};
use multiway_mg::map::SymmetricMapPreconditioner;
use multiway_mg::memory_estimate::ProblemLayout;
use multiway_mg::trace_workspace::prepare_storage;
use multiway_mg::pcg::{storage_required_bytes, trace_work, PcgStopReason};

#[test]
fn impossible_size_preserves_existing_modal_values_and_capacity() {
    let mut modal = vec![1.0, -2.0];
    let capacity = modal.capacity();
    assert!(resize_modal(&mut modal, usize::MAX, 0.0).is_err());
    assert!(resize_modal(&mut modal, isize::MAX as usize / 8 + 1, 0.0).is_err());
    assert_eq!(modal, [1.0, -2.0]);
    assert_eq!(modal.capacity(), capacity);
}

#[test]
fn modal_resize_keeps_prefix_and_zero_fills() {
    let mut modal = vec![3.0, 4.0];
    resize_modal(&mut modal, 4, 0.0).unwrap();
    assert_eq!(modal, [3.0, 4.0, 0.0, 0.0]);
    resize_modal(&mut modal, 1, 0.0).unwrap();
    assert_eq!(modal, [3.0]);
    assert_eq!(modal_required_bytes::<f64>(5).unwrap(), 40);
    assert!(matches!(
        modal_required_bytes::<f64>(usize::MAX),
        Err(MultiwayError::WorkspaceSizeOverflow { context: "DensePseudoinverseWorkspace" })
    ));
}

#[test]
fn hierarchy_buffer_schedule_and_growth_is_checked() {
    assert!(required_buffer_count(usize::MAX).is_err());
    assert_eq!(required_buffer_count(2).unwrap(), 1 + 2 * FRAME_BUFFERS);
    assert_eq!(
        buffer_lengths(&[12, 6, 3]).unwrap(),
        vec![12, 12, 12, 6, 6, 12, 12, 12, 6, 6, 3, 3, 6, 6, 6]
    );
    // 12 + (5 * 12 + 2 * 6) + (5 * 6 + 2 * 3).
    assert_eq!(traversal_value_count(&[12, 6, 3]).unwrap(), 120);
    let descriptors = 15 * std::mem::size_of::<Vec<u64>>();
    assert_eq!(
        workspace_required_bytes(&[12, 6, 3], 100).unwrap(),
        descriptors + 120 * 8 + 100
    );
    assert!(workspace_required_bytes(&[usize::MAX, 1], 0).is_err());
    let mut buffer = vec![1.0, 2.0];
    let capacity = buffer.capacity();
    assert!(resize_buffer(&mut buffer, usize::MAX, 0.0).is_err());
    assert_eq!(buffer, [1.0, 2.0]);
    assert_eq!(buffer.capacity(), capacity);

    let mut buffers: Vec<Vec<f64>> = vec![vec![9.0; 40]; 20];
    prepare_vectors(&mut buffers, &[12, 6, 3], 0.0).unwrap();
    assert_eq!(buffers.len(), 20);
    let lengths: Vec<usize> = buffers.iter().map(Vec::len).collect();
    assert_eq!(
        lengths,
        vec![12, 12, 12, 6, 6, 12, 12, 12, 6, 6, 3, 3, 6, 6, 6, 40, 40, 40, 40, 40]
    );
    let mut fresh: Vec<Vec<f64>> = Vec::new();
    prepare_vectors(&mut fresh, &[4], 0.0).unwrap();
    assert_eq!(fresh, vec![vec![0.0; 4]]);
}

#[test]
fn map_scratch_counts_four_vectors_and_projection() {
    let problem = ProblemLayout {
        dimension: 10,
        tuple_count: 30,
        component_count: 1,
        projection_workspace_bytes: 24,
    };
    let map = SymmetricMapPreconditioner::new(problem);
    assert_eq!(map.problem().dimension, 10);
    assert_eq!(map.workspace_required_bytes().unwrap(), 10 * 4 * 8 + 24);
    assert!(map.validate_vector_lengths(&[10, 10, 10, 10]).is_ok());
    assert!(matches!(
        map.validate_vector_lengths(&[10, 9, 8, 10]),
        Err(MultiwayError::DimensionMismatch {
            context: "SymmetricMapWorkspace",
            expected: 10,
            actual: 9
        })
    ));
    let huge = SymmetricMapPreconditioner::new(ProblemLayout {
        dimension: usize::MAX / 4,
        tuple_count: 0,
        component_count: 0,
        projection_workspace_bytes: 0,
    });
    assert!(matches!(
        huge.workspace_required_bytes(),
        Err(MultiwayError::WorkspaceSizeOverflow { context: "SymmetricMapWorkspace" })
    ));
}

#[test]
fn certificate_scratch_is_one_residual_and_two_coefficient_vectors() {
    assert_eq!(bytes(3).unwrap(), 24);
    assert!(bytes(isize::MAX as usize / 8 + 1).is_err());
    assert_eq!(required_payload_bytes(10, 4).unwrap(), 80 + 64);
    assert!(matches!(
        required_payload_bytes(usize::MAX, 1),
        Err(MultiwayError::WorkspaceSizeOverflow { context: "certificate workspace" })
    ));
    assert_eq!(vector(3, 0.0f64).unwrap(), vec![0.0; 3]);
    assert!(vector(usize::MAX, 0.0f64).is_err());
    let work = CertificateWorkReport::default();
    assert_eq!((work.incidence_applications, work.adjoint_applications), (0, 0));
}

#[test]
fn traced_pcg_work_counts_two_gramians_per_iteration() {
    assert_eq!(trace_work(PcgStopReason::ZeroRightHandSide, 0), (0, 0));
    assert_eq!(trace_work(PcgStopReason::Converged, 1), (2, 1));
    assert_eq!(trace_work(PcgStopReason::Converged, 5), (10, 5));
    assert_eq!(trace_work(PcgStopReason::MaximumIterations, 5), (10, 6));
    assert_eq!(storage_required_bytes(10).unwrap(), 480);
    assert!(storage_required_bytes(usize::MAX).is_err());
    assert!(matches!(
        storage_required_bytes(isize::MAX as usize / 8),
        Err(MultiwayError::WorkspaceSizeOverflow { context: "PCG vector storage" })
    ));
}

#[test]
fn trace_storage_reserves_everything_before_resizing() {
    let mut vectors: Vec<Vec<f64>> = vec![vec![7.0; 2]; 6];
    let mut samples: Vec<(usize, f64)> = vec![(0, 1.0)];
    assert!(prepare_storage(&mut vectors, &mut samples, 4, usize::MAX, 0.0).is_err());
    assert_eq!(vectors, vec![vec![7.0; 2]; 6]);
    assert_eq!(samples, vec![(0, 1.0)]);
    assert!(prepare_storage(&mut vectors, &mut samples, usize::MAX, 3, 0.0).is_err());
    assert_eq!(vectors, vec![vec![7.0; 2]; 6]);
    prepare_storage(&mut vectors, &mut samples, 3, 5, 0.0).unwrap();
    assert_eq!(vectors, vec![vec![7.0, 7.0, 0.0]; 6]);
    assert!(samples.is_empty());
    assert!(samples.capacity() >= 5);
}

#[test]
fn trace_storage_without_growth_shrinks_and_clears() {
    let mut vectors: Vec<Vec<u64>> = vec![vec![4, 5, 6]; 2];
    let mut samples: Vec<u32> = vec![1, 2];
    prepare_storage(&mut vectors, &mut samples, 2, 2, 0).unwrap();
    assert_eq!(vectors, vec![vec![4, 5]; 2]);
    assert!(samples.is_empty());
    assert!(matches!(
        prepare_storage(&mut vectors, &mut samples, usize::MAX, 0, 0),
        Err(MultiwayError::WorkspaceSizeOverflow { context: "PcgTraceWorkspace" })
    ));
    assert!(matches!(
        prepare_storage(&mut vectors, &mut samples, 1, usize::MAX, 0),
        Err(MultiwayError::WorkspaceSizeOverflow { context: "PcgTraceWorkspace" })
    ));
    assert_eq!(vectors, vec![vec![4, 5]; 2]);
    assert_eq!(vector(0, 0u64).unwrap(), Vec::<u64>::new());
}

#[test]
fn traversal_payload_counts_capacities_and_descriptors() {
    let descriptor = std::mem::size_of::<Vec<u64>>();
    assert_eq!(traversal_retained_bytes(15, &[12, 12, 6]).unwrap(), 15 * descriptor + 30 * 8);
    assert_eq!(traversal_retained_bytes(0, &[]).unwrap(), 0);
    assert!(traversal_retained_bytes(usize::MAX, &[]).is_err());
    assert!(matches!(
        traversal_retained_bytes(1, &[usize::MAX / 8, 1]),
        Err(MultiwayError::WorkspaceSizeOverflow { context: "CycleScreenedMapHierarchyWorkspace" })
    ));
}

#[test]
fn accounting_includes_descriptors_and_growth_is_checked() {
    // A 4 x 4 x 4 problem halved twice: dimensions 12, 6 and 3.
    let dims = [12, 6, 3];
    let operator_bytes = 512;
    let mut buffers: Vec<Vec<f64>> = Vec::new();
    prepare_vectors(&mut buffers, &dims, 0.0).unwrap();
    let capacities: Vec<usize> = buffers.iter().map(Vec::capacity).collect();
    let traversal = buffers.capacity() * std::mem::size_of::<Vec<f64>>()
        + capacities.iter().map(|c| c * 8).sum::<usize>();
    assert_eq!(traversal_retained_bytes(buffers.capacity(), &capacities).unwrap(), traversal);
    let retained = traversal + operator_bytes;
    assert_eq!(retained, traversal_retained_bytes(buffers.capacity(), &capacities).unwrap() + operator_bytes);
    assert!(retained >= workspace_required_bytes(&dims, operator_bytes).unwrap());
    assert_eq!(buffers.len(), 1 + 2 * FRAME_BUFFERS);
    assert!(required_buffer_count(usize::MAX).is_err());
    let mut buffer = vec![1.0, 2.0];
    let capacity = buffer.capacity();
    assert!(resize_buffer(&mut buffer, usize::MAX, 0.0).is_err());
    assert_eq!(buffer, [1.0, 2.0]);
    assert_eq!(buffer.capacity(), capacity);
}
