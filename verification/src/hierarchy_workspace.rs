//! Traversal-buffer schedule and sizing of the recursive MAP hierarchy
//! application workspace.
use vstd::prelude::*;
use crate::error::MultiwayError;
use crate::scratch::try_reserve_exact;

verus! {

/// Buffers lent to one nonterminal recursion frame.
pub const FRAME_BUFFERS: usize = 7;

/// The context named by every failure of this module.
pub open spec fn is_workspace_context(context: &'static str) -> bool {
    context@ == "CycleScreenedMapHierarchyWorkspace"@
}

/// Whether `e` is this module's size overflow.
pub open spec fn is_workspace_overflow(e: MultiwayError) -> bool {
    e matches MultiwayError::WorkspaceSizeOverflow { context } && is_workspace_context(context)
}

fn size_overflow() -> (e: MultiwayError)
    ensures
        is_workspace_overflow(e),
{
    proof {
        reveal_strlit("CycleScreenedMapHierarchyWorkspace");
    }
    MultiwayError::WorkspaceSizeOverflow { context: "CycleScreenedMapHierarchyWorkspace" }
}

/// Traversal buffers of a hierarchy with `depth` coarsening steps: the result
/// buffer and seven per nonterminal frame.
pub fn required_buffer_count(depth: usize) -> (r: Result<usize, MultiwayError>)
    ensures
        r is Ok <==> depth * 7 + 1 <= usize::MAX,
        r matches Ok(v) ==> v == depth * 7 + 1,
        r matches Err(e) ==> is_workspace_overflow(e),
{
    match depth.checked_mul(FRAME_BUFFERS) {
        Some(n) => match n.checked_add(1) {
            Some(v) => Ok(v),
            None => Err(size_overflow()),
        },
        None => Err(size_overflow()),
    }
}

/// Active length of traversal buffer `i` for level dimensions `dims`: the
/// result buffer has the finest dimension; in frame `l` the coarse right-hand
/// side and coarse solution (slots two and three) have the coarse dimension
/// `dims[l + 1]` and the other five slots the fine dimension `dims[l]`.
pub open spec fn buffer_length(dims: Seq<usize>, i: int) -> int {
    if i == 0 {
        dims[0] as int
    } else {
        let level = (i - 1) / 7;
        let slot = (i - 1) % 7;
        if slot == 2 || slot == 3 {
            dims[level + 1] as int
        } else {
            dims[level] as int
        }
    }
}

/// Active lengths of every traversal buffer of a hierarchy whose levels have
/// the coefficient dimensions `dims`, finest first.
pub fn buffer_lengths(dims: &[usize]) -> (r: Result<Vec<usize>, MultiwayError>)
    requires
        dims@.len() >= 1,
    ensures
        r is Ok <==> (dims@.len() - 1) * 7 + 1 <= usize::MAX,
        r matches Ok(v) ==> v@.len() == (dims@.len() - 1) * 7 + 1 && forall|i: int|
            0 <= i < v@.len() ==> #[trigger] v@[i] == buffer_length(dims@, i),
        r matches Err(e) ==> is_workspace_overflow(e),
{
    let depth = dims.len() - 1;
    let count = required_buffer_count(depth)?;
    let mut lengths: Vec<usize> = Vec::new();
    lengths.push(dims[0]);
    let mut level: usize = 0;
    while level < depth
        invariant
            level <= depth,
            depth == dims@.len() - 1,
            count == depth * 7 + 1,
            lengths@.len() == level * 7 + 1,
            forall|i: int| 0 <= i < lengths@.len() ==> #[trigger] lengths@[i] == buffer_length(dims@, i),
        decreases depth - level,
    {
        let fine = dims[level];
        let coarse = dims[level + 1];
        let base = level * 7 + 1;
        lengths.push(fine);
        lengths.push(fine);
        lengths.push(coarse);
        lengths.push(coarse);
        lengths.push(fine);
        lengths.push(fine);
        lengths.push(fine);
        assert forall|i: int| 0 <= i < lengths@.len() implies #[trigger] lengths@[i] == buffer_length(dims@, i) by {
            if i >= base {
                assert((i - 1) / 7 == level) by (nonlinear_arith)
                    requires
                        base == level * 7 + 1,
                        base <= i < base + 7,
                ;
                assert((i - 1) % 7 == i - base) by (nonlinear_arith)
                    requires
                        base == level * 7 + 1,
                        base <= i < base + 7,
                ;
            }
        }
        level = level + 1;
    }
    Ok(lengths)
}

/// Traversal values over the first `k` coarsening steps: the finest result
/// vector plus five fine and two coarse vectors per step.
pub open spec fn traversal_values(dims: Seq<usize>, k: int) -> int
    decreases k,
{
    if k <= 0 {
        dims[0] as int
    } else {
        traversal_values(dims, k - 1) + dims[k - 1] * 5 + dims[k] * 2
    }
}

/// Whether every checked step of the first `k` coarsening steps of
/// [`traversal_value_count`] is representable.
pub open spec fn traversal_values_fit(dims: Seq<usize>, k: int) -> bool
    decreases k,
{
    if k <= 0 {
        true
    } else {
        &&& traversal_values_fit(dims, k - 1)
        &&& dims[k - 1] * 5 <= usize::MAX
        &&& dims[k] * 2 <= usize::MAX
        &&& traversal_values(dims, k) <= usize::MAX
    }
}

/// Checked count of traversal values of a hierarchy whose levels have the
/// coefficient dimensions `dims`.
pub fn traversal_value_count(dims: &[usize]) -> (r: Result<usize, MultiwayError>)
    requires
        dims@.len() >= 1,
    ensures
        r is Ok <==> traversal_values_fit(dims@, dims@.len() - 1),
        r matches Ok(v) ==> v == traversal_values(dims@, dims@.len() - 1),
        r matches Err(e) ==> is_workspace_overflow(e),
{
    let depth = dims.len() - 1;
    let mut total: usize = dims[0];
    let mut level: usize = 0;
    while level < depth
        invariant
            level <= depth,
            depth == dims@.len() - 1,
            traversal_values_fit(dims@, level as int),
            total == traversal_values(dims@, level as int),
        decreases depth - level,
    {
        proof {
            lemma_fit_prefix(dims@, depth as int, level as int + 1);
        }
        let fine = match dims[level].checked_mul(5) {
            Some(v) => v,
            None => return Err(size_overflow()),
        };
        let coarse = match dims[level + 1].checked_mul(2) {
            Some(v) => v,
            None => return Err(size_overflow()),
        };
        total = match total.checked_add(fine) {
            Some(v) => match v.checked_add(coarse) {
                Some(w) => w,
                None => return Err(size_overflow()),
            },
            None => return Err(size_overflow()),
        };
        level = level + 1;
    }
    Ok(total)
}

proof fn lemma_fit_prefix(dims: Seq<usize>, k: int, j: int)
    requires
        0 <= j <= k,
    ensures
        traversal_values_fit(dims, k) ==> traversal_values_fit(dims, j),
    decreases k,
{
    if j < k {
        lemma_fit_prefix(dims, k - 1, j);
    }
}

/// Minimum exclusive payload of a fresh application workspace: the buffer
/// descriptors, the traversal values, and the nested operator scratch
/// `operator_bytes`.
pub open spec fn workspace_bytes_spec(dims: Seq<usize>, descriptor_bytes: int, operator_bytes: int) -> int {
    ((dims.len() - 1) * 7 + 1) * descriptor_bytes + traversal_values(dims, dims.len() - 1) * 8
        + operator_bytes
}

/// Checked minimum exclusive payload of a fresh application workspace.
pub fn workspace_required_bytes(dims: &[usize], operator_bytes: usize) -> (r: Result<usize, MultiwayError>)
    requires
        dims@.len() >= 1,
    ensures
        r is Ok <==> {
            let count = (dims@.len() - 1) * 7 + 1;
            let descriptor = vstd::layout::size_of::<Vec<u64>>() as int;
            &&& count <= usize::MAX
            &&& count * descriptor <= usize::MAX
            &&& traversal_values_fit(dims@, dims@.len() - 1)
            &&& traversal_values(dims@, dims@.len() - 1) * 8 <= usize::MAX
            &&& workspace_bytes_spec(dims@, descriptor, operator_bytes as int) <= usize::MAX
        },
        r matches Ok(v) ==> v == workspace_bytes_spec(
            dims@,
            vstd::layout::size_of::<Vec<u64>>() as int,
            operator_bytes as int,
        ),
        r matches Err(e) ==> is_workspace_overflow(e),
{
    let count = required_buffer_count(dims.len() - 1)?;
    let descriptors = match count.checked_mul(core::mem::size_of::<Vec<u64>>()) {
        Some(v) => v,
        None => return Err(size_overflow()),
    };
    let values = traversal_value_count(dims)?;
    let vectors = match values.checked_mul(8) {
        Some(v) => v,
        None => return Err(size_overflow()),
    };
    match descriptors.checked_add(vectors) {
        Some(v) => match v.checked_add(operator_bytes) {
            Some(w) => Ok(w),
            None => Err(size_overflow()),
        },
        None => Err(size_overflow()),
    }
}

/// Resize `buffer` to `length` elements, reserving any growth fallibly first.
///
/// Kept elements are unchanged and new ones are `fill`. A refused reservation
/// leaves the buffer exactly as it was.
pub fn resize_buffer<T: Copy>(buffer: &mut Vec<T>, length: usize, fill: T) -> (r: Result<(), MultiwayError>)
    ensures
        r is Ok ==> final(buffer)@ == if length <= old(buffer)@.len() {
            old(buffer)@.take(length as int)
        } else {
            old(buffer)@ + Seq::new((length - old(buffer)@.len()) as nat, |i: int| fill)
        },
        r is Err ==> final(buffer)@ == old(buffer)@,
        r matches Err(e) ==> e matches MultiwayError::WorkspaceAllocation { context, .. } && is_workspace_context(context),
        length <= old(buffer)@.len() ==> r is Ok,
        length > old(buffer)@.len() && length * vstd::layout::size_of::<T>() > isize::MAX ==> r is Err,
{
    let current = buffer.len();
    if length > current {
        match try_reserve_exact(buffer, length - current) {
            Ok(()) => {},
            Err(source) => {
                proof {
                    reveal_strlit("CycleScreenedMapHierarchyWorkspace");
                }
                return Err(MultiwayError::WorkspaceAllocation { context: "CycleScreenedMapHierarchyWorkspace", source });
            },
        }
        let ghost start = buffer@;
        while buffer.len() < length
            invariant
                start.len() == current,
                current <= buffer@.len() <= length,
                buffer@ == start + Seq::new((buffer@.len() - current) as nat, |i: int| fill),
            decreases length - buffer@.len(),
        {
            buffer.push(fill);
            assert(buffer@ =~= start + Seq::new((buffer@.len() - current) as nat, |i: int| fill));
        }
    } else {
        buffer.truncate(length);
        assert(buffer@ =~= old(buffer)@.take(length as int));
    }
    Ok(())
}

/// Prepare the traversal buffers for a hierarchy whose levels have the
/// coefficient dimensions `dims`: grow the buffer list to the required count
/// (fallibly), then resize every active buffer to its scheduled length.
///
/// Inactive buffers beyond the required count are retained unchanged.
pub fn prepare_vectors<T: Copy>(buffers: &mut Vec<Vec<T>>, dims: &[usize], fill: T) -> (r: Result<(), MultiwayError>)
    requires
        dims@.len() >= 1,
    ensures
        (dims@.len() - 1) * 7 + 1 > usize::MAX ==> (r matches Err(e) && is_workspace_overflow(e)),
        r matches Err(e) ==> is_workspace_overflow(e) || e is WorkspaceAllocation,
        r matches Err(e) && is_workspace_overflow(e) ==> (dims@.len() - 1) * 7 + 1 > usize::MAX,
        r matches Err(MultiwayError::WorkspaceAllocation { .. }) ==> {
            let count = (dims@.len() - 1) * 7 + 1;
            ||| count > old(buffers)@.len()
            ||| exists|i: int| 0 <= i < count && buffer_length(dims@, i) > #[trigger] old(buffers)@[i]@.len()
        },
        r is Ok ==> {
            let count = (dims@.len() - 1) * 7 + 1;
            &&& final(buffers)@.len() == if old(buffers)@.len() >= count {
                old(buffers)@.len() as int
            } else {
                count
            }
            &&& forall|i: int| 0 <= i < count ==> #[trigger] final(buffers)@[i]@.len() == buffer_length(dims@, i)
            &&& forall|i: int| count <= i < final(buffers)@.len() ==> #[trigger] final(buffers)@[i] == old(buffers)@[i]
        },
{
    let lengths = buffer_lengths(dims)?;
    let count = lengths.len();
    let current = buffers.len();
    if count > current {
        match try_reserve_exact(buffers, count - current) {
            Ok(()) => {},
            Err(source) => {
                return Err(MultiwayError::WorkspaceAllocation { context: "CycleScreenedMapHierarchyWorkspace", source });
            },
        }
        while buffers.len() < count
            invariant
                current <= buffers@.len() <= count,
                forall|i: int| 0 <= i < current ==> #[trigger] buffers@[i] == old(buffers)@[i],
            decreases count - buffers@.len(),
        {
            buffers.push(Vec::new());
        }
    }
    let ghost grown = buffers@;
    let total = buffers.len();
    let mut i: usize = 0;
    while i < count
        invariant
            i <= count,
            count <= total,
            total == buffers@.len(),
            count == lengths@.len(),
            count == (dims@.len() - 1) * 7 + 1,
            total == if current >= count { current as int } else { count as int },
            current == old(buffers)@.len(),
            grown.len() == total,
            forall|j: int| 0 <= j < current ==> #[trigger] grown[j] == old(buffers)@[j],
            forall|j: int| 0 <= j < lengths@.len() ==> #[trigger] lengths@[j] == buffer_length(dims@, j),
            forall|j: int| 0 <= j < i ==> #[trigger] buffers@[j]@.len() == lengths@[j],
            forall|j: int| i <= j < total ==> #[trigger] buffers@[j] == grown[j],
        decreases count - i,
    {
        let resized = resize_buffer(&mut buffers[i], lengths[i], fill);
        if let Err(e) = resized {
            proof {
                if count <= current {
                    assert(buffer_length(dims@, i as int) > old(buffers)@[i as int]@.len());
                }
            }
            return Err(e);
        }
        i = i + 1;
    }
    Ok(())
}

/// Descriptor payload plus the payload of the first `k` buffer capacities.
pub open spec fn retained_upto(descriptors: int, capacities: Seq<usize>, k: int) -> int
    decreases k,
{
    if k <= 0 {
        descriptors
    } else {
        retained_upto(descriptors, capacities, k - 1) + capacities[k - 1] * 8
    }
}

/// Whether every checked step over the first `k` capacities is representable.
pub open spec fn retained_fits(descriptors: int, capacities: Seq<usize>, k: int) -> bool
    decreases k,
{
    if k <= 0 {
        true
    } else {
        &&& retained_fits(descriptors, capacities, k - 1)
        &&& capacities[k - 1] * 8 <= usize::MAX
        &&& retained_upto(descriptors, capacities, k) <= usize::MAX
    }
}

proof fn lemma_retained_fits_prefix(descriptors: int, capacities: Seq<usize>, k: int, j: int)
    requires
        0 <= j <= k,
    ensures
        retained_fits(descriptors, capacities, k) ==> retained_fits(descriptors, capacities, j),
    decreases k,
{
    if j < k {
        lemma_retained_fits_prefix(descriptors, capacities, k - 1, j);
    }
}

/// Retained traversal payload: the descriptor array (by its capacity) plus
/// every buffer's capacity, all checked. Capacities, not lengths, are counted,
/// so inactive and spare storage is included.
pub fn traversal_retained_bytes(descriptor_capacity: usize, capacities: &[usize]) -> (r: Result<usize, MultiwayError>)
    ensures
        r is Ok <==> descriptor_capacity * vstd::layout::size_of::<Vec<u64>>() <= usize::MAX && retained_fits(
            descriptor_capacity * vstd::layout::size_of::<Vec<u64>>(),
            capacities@,
            capacities@.len() as int,
        ),
        r matches Ok(v) ==> v == retained_upto(
            descriptor_capacity * vstd::layout::size_of::<Vec<u64>>(),
            capacities@,
            capacities@.len() as int,
        ),
        r matches Err(e) ==> is_workspace_overflow(e),
{
    let descriptors = match descriptor_capacity.checked_mul(core::mem::size_of::<Vec<u64>>()) {
        Some(v) => v,
        None => return Err(size_overflow()),
    };
    let ghost d = descriptors as int;
    let mut total: usize = descriptors;
    let mut i: usize = 0;
    while i < capacities.len()
        invariant
            i <= capacities@.len(),
            d == descriptor_capacity * vstd::layout::size_of::<Vec<u64>>(),
            retained_fits(d, capacities@, i as int),
            total == retained_upto(d, capacities@, i as int),
        decreases capacities@.len() - i,
    {
        proof {
            lemma_retained_fits_prefix(d, capacities@, capacities@.len() as int, i as int + 1);
        }
        let bytes = match capacities[i].checked_mul(8) {
            Some(v) => v,
            None => return Err(size_overflow()),
        };
        total = match total.checked_add(bytes) {
            Some(v) => v,
            None => return Err(size_overflow()),
        };
        i = i + 1;
    }
    Ok(total)
}

} // verus!
