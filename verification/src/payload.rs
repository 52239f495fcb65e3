//! Retained ownership inventory arithmetic for one fixed MAP hierarchy.
use vstd::prelude::*;
use crate::error::MultiwayError;

verus! {

/// Sum of a sequence of byte counts, as a mathematical integer.
pub open spec fn seq_sum(parts: Seq<usize>) -> int
    decreases parts.len(),
{
    if parts.len() == 0 {
        0
    } else {
        seq_sum(parts.drop_last()) + parts.last()
    }
}

/// Every prefix sum of a sequence of nonnegative counts is bounded by the total.
pub proof fn lemma_prefix_sum_bounded(parts: Seq<usize>, k: int)
    requires
        0 <= k <= parts.len(),
    ensures
        seq_sum(parts.take(k)) <= seq_sum(parts),
    decreases parts.len(),
{
    if k < parts.len() {
        assert(parts.drop_last().take(k) =~= parts.take(k));
        lemma_prefix_sum_bounded(parts.drop_last(), k);
    } else {
        assert(parts.take(k) =~= parts);
    }
}

/// The payload context named in overflow errors of this module.
pub open spec fn is_payload_overflow(e: MultiwayError) -> bool {
    e matches MultiwayError::WorkspaceSizeOverflow { context } && context@ == "MAP hierarchy payload"@
}

fn overflow() -> (e: MultiwayError)
    ensures
        is_payload_overflow(e),
{
    proof {
        reveal_strlit("MAP hierarchy payload");
    }
    MultiwayError::WorkspaceSizeOverflow { context: "MAP hierarchy payload" }
}

/// Checked byte size of `count` values of `T`.
pub fn bytes<T>(count: usize) -> (r: Result<usize, MultiwayError>)
    ensures
        r is Ok <==> count * vstd::layout::size_of::<T>() <= usize::MAX,
        r matches Ok(v) ==> v == count * vstd::layout::size_of::<T>(),
        r matches Err(e) ==> is_payload_overflow(e),
{
    match count.checked_mul(core::mem::size_of::<T>()) {
        Some(v) => Ok(v),
        None => Err(overflow()),
    }
}

/// Checked sum of disjoint payload parts; never wraps.
pub fn sum(parts: &[usize]) -> (r: Result<usize, MultiwayError>)
    ensures
        r is Ok <==> seq_sum(parts@) <= usize::MAX,
        r matches Ok(v) ==> v == seq_sum(parts@),
        r matches Err(e) ==> is_payload_overflow(e),
{
    let mut total: usize = 0;
    let mut i: usize = 0;
    while i < parts.len()
        invariant
            i <= parts.len(),
            total == seq_sum(parts@.take(i as int)),
        decreases parts.len() - i,
    {
        assert(parts@.take(i + 1).drop_last() =~= parts@.take(i as int));
        match total.checked_add(parts[i]) {
            Some(v) => {
                total = v;
            },
            None => {
                proof {
                    lemma_prefix_sum_bounded(parts@, i + 1);
                }
                return Err(overflow());
            },
        }
        i += 1;
    }
    assert(parts@.take(i as int) =~= parts@);
    Ok(total)
}

/// Disjoint payload categories reachable from one built MAP hierarchy.
///
/// Shared level problems are counted once, not again through smoother clones.
/// Reports for two hierarchies cannot simply be summed when they share problem
/// allocations.
#[derive(Debug, Clone, Copy, PartialEq, Eq)]
pub struct MapHierarchyPayloadReport {
    /// Immutable fine/coarse problem payload, potentially shared with other owners.
    pub shared_problem_bytes: usize,
    /// Heap descriptor arrays for problems, aggregations and smoothers.
    pub descriptor_bytes: usize,
    /// Exclusively owned factor-parent array capacities.
    pub aggregation_bytes: usize,
    /// Exclusively owned terminal matrix and inverse-eigenvalue capacities.
    pub terminal_bytes: usize,
}

impl MapHierarchyPayloadReport {
    /// Exclusive payload as a mathematical integer.
    pub open spec fn exclusive_spec(self) -> int {
        self.descriptor_bytes + self.aggregation_bytes + self.terminal_bytes
    }

    /// Total payload as a mathematical integer.
    pub open spec fn total_spec(self) -> int {
        self.shared_problem_bytes + self.exclusive_spec()
    }

    /// Disjoint exclusive payload, excluding shared problem state.
    pub fn exclusive_bytes(self) -> (r: Result<usize, MultiwayError>)
        ensures
            r is Ok <==> self.exclusive_spec() <= usize::MAX,
            r matches Ok(v) ==> v == self.exclusive_spec(),
            r matches Err(e) ==> is_payload_overflow(e),
    {
        let parts = [self.descriptor_bytes, self.aggregation_bytes, self.terminal_bytes];
        let r = sum(&parts);
        proof {
            reveal_with_fuel(seq_sum, 4);
            assert(parts@.drop_last().drop_last().drop_last() =~= Seq::<usize>::empty());
        }
        r
    }

    /// Total retained payload for this ownership boundary.
    pub fn total_bytes(self) -> (r: Result<usize, MultiwayError>)
        ensures
            r is Ok <==> self.total_spec() <= usize::MAX,
            r matches Ok(v) ==> v == self.total_spec(),
            r matches Err(e) ==> is_payload_overflow(e),
    {
        let exclusive = self.exclusive_bytes()?;
        let parts = [self.shared_problem_bytes, exclusive];
        let r = sum(&parts);
        proof {
            reveal_with_fuel(seq_sum, 3);
            assert(parts@.drop_last().drop_last() =~= Seq::<usize>::empty());
        }
        r
    }
}

/// What one built MAP hierarchy holds, as plain sizes, finest level first.
#[derive(Debug, Clone)]
pub struct HierarchyInventory {
    /// Coefficient dimension of every level problem.
    pub problem_dimensions: Vec<usize>,
    /// Retained payload of every level problem.
    pub problem_payload_bytes: Vec<usize>,
    /// Retained parent-array payload of every aggregation.
    pub aggregation_payload_bytes: Vec<usize>,
    /// Number of level smoothers.
    pub smoother_count: usize,
    /// Whether every smoother shares the immutable state of its level problem.
    pub smoothers_share_problems: bool,
    /// Capacity and element size of the problem, aggregation and smoother
    /// descriptor arrays.
    pub descriptor_arrays: [(usize, usize); 3],
    /// Retained payload of the dense terminal.
    pub terminal_bytes: usize,
}

/// Whether the inventory has the shape of a built hierarchy: one smoother and
/// one aggregation per coarsening step, one more problem than aggregations,
/// smoothers sharing their problems, and strictly shrinking dimensions.
pub open spec fn inventory_consistent(inventory: HierarchyInventory) -> bool {
    let dims = inventory.problem_dimensions@;
    &&& inventory.smoother_count == inventory.aggregation_payload_bytes@.len()
    &&& dims.len() == inventory.aggregation_payload_bytes@.len() + 1
    &&& inventory.smoothers_share_problems
    &&& forall|i: int| 0 <= i < dims.len() - 1 ==> #[trigger] dims[i + 1] < dims[i]
}

/// Descriptor-array payload as a mathematical integer.
pub open spec fn descriptor_spec(arrays: Seq<(usize, usize)>) -> int {
    arrays[0].0 * arrays[0].1 + arrays[1].0 * arrays[1].1 + arrays[2].0 * arrays[2].1
}

/// The report of a consistent inventory whose sums are representable.
pub open spec fn inventory_report_spec(inventory: HierarchyInventory) -> MapHierarchyPayloadReport {
    MapHierarchyPayloadReport {
        shared_problem_bytes: seq_sum(inventory.problem_payload_bytes@) as usize,
        descriptor_bytes: descriptor_spec(inventory.descriptor_arrays@) as usize,
        aggregation_bytes: seq_sum(inventory.aggregation_payload_bytes@) as usize,
        terminal_bytes: inventory.terminal_bytes,
    }
}

/// Whether every checked step of [`retained_payload_report`] is representable.
pub open spec fn inventory_fits(inventory: HierarchyInventory) -> bool {
    let a = inventory.descriptor_arrays@;
    &&& seq_sum(inventory.problem_payload_bytes@) <= usize::MAX
    &&& a[0].0 * a[0].1 <= usize::MAX
    &&& a[1].0 * a[1].1 <= usize::MAX
    &&& a[2].0 * a[2].1 <= usize::MAX
    &&& descriptor_spec(a) <= usize::MAX
    &&& seq_sum(inventory.aggregation_payload_bytes@) <= usize::MAX
    &&& inventory_report_spec(inventory).total_spec() <= usize::MAX
}

proof fn lemma_seq_sum_nonnegative(parts: Seq<usize>)
    ensures
        seq_sum(parts) >= 0,
    decreases parts.len(),
{
    if parts.len() > 0 {
        lemma_seq_sum_nonnegative(parts.drop_last());
    }
}

/// Inventory one built hierarchy without allocating.
///
/// An inventory without the shape of a built hierarchy fails closed as an
/// ownership mismatch. Otherwise the level problems are counted once, the
/// descriptor arrays by capacity, the aggregations and the terminal, every
/// product and sum checked, and the total must be representable too.
pub fn retained_payload_report(inventory: &HierarchyInventory) -> (r: Result<MapHierarchyPayloadReport, MultiwayError>)
    requires
        inventory.problem_payload_bytes@.len() == inventory.problem_dimensions@.len(),
    ensures
        !inventory_consistent(*inventory) ==> r == Err::<MapHierarchyPayloadReport, MultiwayError>(
            MultiwayError::PayloadInventoryMismatch,
        ),
        inventory_consistent(*inventory) ==> (r is Ok <==> inventory_fits(*inventory)),
        r matches Ok(report) ==> report == inventory_report_spec(*inventory),
        inventory_consistent(*inventory) ==> (r matches Err(e) ==> is_payload_overflow(e)),
{
    let dims = &inventory.problem_dimensions;
    let levels = inventory.aggregation_payload_bytes.len();
    if inventory.smoother_count != levels || dims.len() == 0 || dims.len() - 1 != levels
        || !inventory.smoothers_share_problems {
        return Err(MultiwayError::PayloadInventoryMismatch);
    }
    let mut i: usize = 0;
    while i < levels
        invariant
            dims@ == inventory.problem_dimensions@,
            levels == inventory.aggregation_payload_bytes@.len(),
            inventory.smoother_count == levels,
            inventory.smoothers_share_problems,
            dims@.len() == levels + 1,
            i <= levels,
            forall|j: int| 0 <= j < i ==> #[trigger] dims@[j + 1] < dims@[j],
        decreases levels - i,
    {
        if dims[i + 1] >= dims[i] {
            assert(!inventory_consistent(*inventory)) by {
                assert(dims@[i as int + 1] >= dims@[i as int]);
            }
            return Err(MultiwayError::PayloadInventoryMismatch);
        }
        i = i + 1;
    }
    assert(inventory_consistent(*inventory));
    proof {
        lemma_seq_sum_nonnegative(inventory.problem_payload_bytes@);
        lemma_seq_sum_nonnegative(inventory.aggregation_payload_bytes@);
    }
    let shared_problem_bytes = sum(inventory.problem_payload_bytes.as_slice())?;
    let arrays = inventory.descriptor_arrays;
    let first = bytes_of(arrays[0].0, arrays[0].1)?;
    let second = bytes_of(arrays[1].0, arrays[1].1)?;
    let third = bytes_of(arrays[2].0, arrays[2].1)?;
    let parts = [first, second, third];
    let descriptor_bytes = sum(&parts);
    proof {
        reveal_with_fuel(seq_sum, 4);
        assert(parts@.drop_last().drop_last().drop_last() =~= Seq::<usize>::empty());
    }
    let descriptor_bytes = descriptor_bytes?;
    let aggregation_bytes = sum(inventory.aggregation_payload_bytes.as_slice())?;
    let report = MapHierarchyPayloadReport {
        shared_problem_bytes,
        descriptor_bytes,
        aggregation_bytes,
        terminal_bytes: inventory.terminal_bytes,
    };
    report.total_bytes()?;
    Ok(report)
}

fn bytes_of(count: usize, width: usize) -> (r: Result<usize, MultiwayError>)
    ensures
        r is Ok <==> count * width <= usize::MAX,
        r matches Ok(v) ==> v == count * width,
        r matches Err(e) ==> is_payload_overflow(e),
{
    match count.checked_mul(width) {
        Some(v) => Ok(v),
        None => Err(overflow()),
    }
}

} // verus!
