//! Sizing and fallible reservation for traced-PCG coefficient and trace storage.
use vstd::prelude::*;
use crate::error::MultiwayError;
use crate::scratch::{VALUE_BYTES, try_reserve_exact};

verus! {

/// The context named in every error of this module.
pub open spec fn is_trace_context(context: &'static str) -> bool {
    context@ == "PcgTraceWorkspace"@
}

fn overflow() -> (e: MultiwayError)
    ensures
        e matches MultiwayError::WorkspaceSizeOverflow { context } && is_trace_context(context),
{
    proof {
        reveal_strlit("PcgTraceWorkspace");
    }
    MultiwayError::WorkspaceSizeOverflow { context: "PcgTraceWorkspace" }
}

/// Trace records needed for `iterations` iterations: one per iteration plus the
/// initial sample. The two Gramian calls per completed iteration must also be
/// countable without wrapping.
pub fn required_samples(iterations: usize) -> (r: Result<usize, MultiwayError>)
    ensures
        r is Ok <==> 2 * iterations <= usize::MAX,
        r matches Ok(v) ==> v == iterations + 1,
        r matches Err(e) ==> e matches MultiwayError::WorkspaceSizeOverflow { context }
            && is_trace_context(context),
{
    if iterations.checked_mul(2).is_none() {
        return Err(overflow());
    }
    match iterations.checked_add(1) {
        Some(v) => Ok(v),
        None => Err(overflow()),
    }
}

/// Checked byte size of `count` values of `T`.
pub fn bytes<T>(count: usize) -> (r: Result<usize, MultiwayError>)
    ensures
        r is Ok <==> count * vstd::layout::size_of::<T>() <= usize::MAX,
        r matches Ok(v) ==> v == count * vstd::layout::size_of::<T>(),
        r matches Err(e) ==> e matches MultiwayError::WorkspaceSizeOverflow { context }
            && is_trace_context(context),
{
    match count.checked_mul(core::mem::size_of::<T>()) {
        Some(v) => Ok(v),
        None => Err(overflow()),
    }
}

/// Reserve room for `length` elements without changing any stored element.
///
/// An unrepresentable byte size is rejected before any reservation. The
/// elements are never changed, on success or on failure.
pub fn reserve<T>(vector: &mut Vec<T>, length: usize) -> (r: Result<(), MultiwayError>)
    ensures
        final(vector)@ == old(vector)@,
        length * vstd::layout::size_of::<T>() > usize::MAX ==> (r matches Err(
            MultiwayError::WorkspaceSizeOverflow { context },
        ) && is_trace_context(context)),
        r matches Err(MultiwayError::WorkspaceAllocation { context, .. }) ==> (is_trace_context(
            context,
        ) && length > old(vector)@.len() && length * vstd::layout::size_of::<T>()
            <= usize::MAX),
        r matches Err(MultiwayError::WorkspaceSizeOverflow { .. }) ==> length
            * vstd::layout::size_of::<T>() > usize::MAX,
        r matches Err(e) ==> e is WorkspaceSizeOverflow || e is WorkspaceAllocation,
        length <= old(vector)@.len() && length * vstd::layout::size_of::<T>() <= usize::MAX
            ==> r is Ok,
        length > old(vector)@.len() && length * vstd::layout::size_of::<T>() > isize::MAX
            ==> r is Err,
{
    bytes::<T>(length)?;
    if length > vector.len() {
        let additional = length - vector.len();
        match try_reserve_exact(vector, additional) {
            Ok(()) => {},
            Err(source) => {
                proof {
                    reveal_strlit("PcgTraceWorkspace");
                }
                return Err(MultiwayError::WorkspaceAllocation { context: "PcgTraceWorkspace", source });
            },
        }
    }
    Ok(())
}

/// Minimum exclusive heap payload for a traced-PCG workspace, as an integer.
pub open spec fn required_bytes_spec(
    dimension: int,
    max_iterations: int,
    sample_bytes: int,
    projection_bytes: int,
) -> int {
    dimension * VALUE_BYTES * 6 + (max_iterations + 1) * sample_bytes + projection_bytes
}

/// Minimum exclusive heap payload for `dimension` coefficients and
/// `max_iterations` iterations: six coefficient vectors, `max_iterations + 1`
/// trace records of `sample_bytes` each, and the component-projection scratch.
pub fn required_bytes(
    dimension: usize,
    max_iterations: usize,
    sample_bytes: usize,
    projection_bytes: usize,
) -> (r: Result<usize, MultiwayError>)
    ensures
        r is Ok <==> {
            &&& dimension * VALUE_BYTES * 6 <= usize::MAX
            &&& 2 * max_iterations <= usize::MAX
            &&& (max_iterations + 1) * sample_bytes <= usize::MAX
            &&& required_bytes_spec(
                dimension as int,
                max_iterations as int,
                sample_bytes as int,
                projection_bytes as int,
            ) <= usize::MAX
        },
        r matches Ok(v) ==> v == required_bytes_spec(
            dimension as int,
            max_iterations as int,
            sample_bytes as int,
            projection_bytes as int,
        ),
        r matches Err(e) ==> e matches MultiwayError::WorkspaceSizeOverflow { context }
            && is_trace_context(context),
{
    let vector = match dimension.checked_mul(VALUE_BYTES) {
        Some(v) => v,
        None => {
            assert(dimension * VALUE_BYTES * 6 > usize::MAX) by (nonlinear_arith)
                requires
                    dimension * VALUE_BYTES > usize::MAX,
            ;
            return Err(overflow());
        },
    };
    let vectors = match vector.checked_mul(6) {
        Some(v) => v,
        None => return Err(overflow()),
    };
    let samples = required_samples(max_iterations)?;
    let trace = match samples.checked_mul(sample_bytes) {
        Some(v) => v,
        None => return Err(overflow()),
    };
    match vectors.checked_add(trace) {
        Some(partial) => match partial.checked_add(projection_bytes) {
            Some(total) => Ok(total),
            None => Err(overflow()),
        },
        None => Err(overflow()),
    }
}

/// The coefficient vector `v` after resizing it to `length` with `fill`.
pub open spec fn resized<T>(v: Seq<T>, length: int, fill: T) -> Seq<T> {
    if length <= v.len() {
        v.take(length)
    } else {
        v + Seq::new((length - v.len()) as nat, |i: int| fill)
    }
}

fn resize_in_place<T: Copy>(vector: &mut Vec<T>, length: usize, fill: T)
    ensures
        final(vector)@ == resized(old(vector)@, length as int, fill),
{
    if length <= vector.len() {
        vector.truncate(length);
        assert(vector@ =~= old(vector)@.take(length as int));
    } else {
        let start = vector.len();
        let ghost initial = vector@;
        while vector.len() < length
            invariant
                initial.len() == start,
                start <= vector@.len() <= length,
                vector@ == initial + Seq::new((vector@.len() - start) as nat, |i: int| fill),
            decreases length - vector@.len(),
        {
            vector.push(fill);
            assert(vector@ =~= initial + Seq::new((vector@.len() - start) as nat, |i: int| fill));
        }
    }
}

/// Prepare the coefficient vectors and the trace storage of a traced solve.
///
/// Every reservation precedes every change of length: a failed reservation
/// leaves all vectors and the trace exactly as they were. On success each
/// vector has `dimension` entries (kept entries unchanged, new ones `fill`)
/// and the trace is empty with room reserved for `sample_count` records.
pub fn prepare_storage<T: Copy, S>(
    vectors: &mut Vec<Vec<T>>,
    samples: &mut Vec<S>,
    dimension: usize,
    sample_count: usize,
    fill: T,
) -> (r: Result<(), MultiwayError>)
    ensures
        final(vectors)@.len() == old(vectors)@.len(),
        r is Err ==> (forall|i: int| 0 <= i < old(vectors)@.len() ==> #[trigger] final(vectors)@[i]@ == old(
            vectors,
        )@[i]@) && final(samples)@ == old(samples)@,
        r is Ok ==> (forall|i: int| 0 <= i < old(vectors)@.len() ==> #[trigger] final(vectors)@[i]@ == resized(
            old(vectors)@[i]@,
            dimension as int,
            fill,
        )) && final(samples)@.len() == 0,
        r matches Err(e) ==> e is WorkspaceSizeOverflow || e is WorkspaceAllocation,
        dimension * vstd::layout::size_of::<T>() > usize::MAX ==> r is Err,
        sample_count * vstd::layout::size_of::<S>() > usize::MAX ==> r is Err,
        r matches Err(MultiwayError::WorkspaceSizeOverflow { .. }) ==> dimension
            * vstd::layout::size_of::<T>() > usize::MAX || sample_count
            * vstd::layout::size_of::<S>() > usize::MAX,
        dimension * vstd::layout::size_of::<T>() > usize::MAX ==> (r matches Err(
            MultiwayError::WorkspaceSizeOverflow { context },
        ) && is_trace_context(context)),
        dimension * vstd::layout::size_of::<T>() <= usize::MAX && (forall|i: int|
            0 <= i < old(vectors)@.len() ==> dimension <= #[trigger] old(vectors)@[i]@.len())
            && sample_count * vstd::layout::size_of::<S>() > usize::MAX ==> (r matches Err(
            MultiwayError::WorkspaceSizeOverflow { context },
        ) && is_trace_context(context)),
        r matches Err(MultiwayError::WorkspaceAllocation { .. }) ==> (exists|i: int|
            0 <= i < old(vectors)@.len() && dimension > #[trigger] old(vectors)@[i]@.len())
            || sample_count > old(samples)@.len(),
        dimension * vstd::layout::size_of::<T>() <= usize::MAX && sample_count
            * vstd::layout::size_of::<S>() <= usize::MAX && (forall|i: int|
            0 <= i < old(vectors)@.len() ==> dimension <= #[trigger] old(vectors)@[i]@.len())
            && sample_count <= old(samples)@.len() ==> r is Ok,
{
    let n = vectors.len();
    let mut i: usize = 0;
    while i < n
        invariant
            i <= n,
            n == vectors@.len(),
            n == old(vectors)@.len(),
            forall|j: int| 0 <= j < n ==> #[trigger] vectors@[j]@ == old(vectors)@[j]@,
            samples@ == old(samples)@,
            n > 0 ==> (dimension * vstd::layout::size_of::<T>() > usize::MAX ==> i == 0),
        decreases n - i,
    {
        let reserved = reserve(&mut vectors[i], dimension);
        assert(vectors@.len() == n);
        assert(forall|j: int| 0 <= j < n ==> #[trigger] vectors@[j]@ == old(vectors)@[j]@);
        if let Err(e) = reserved {
            proof {
                if e is WorkspaceAllocation {
                    assert(dimension > old(vectors)@[i as int]@.len());
                }
            }
            return Err(e);
        }
        i = i + 1;
    }
    if n == 0 {
        bytes::<T>(dimension)?;
    }
    reserve(samples, sample_count)?;
    let mut k: usize = 0;
    while k < n
        invariant
            k <= n,
            n == vectors@.len(),
            n == old(vectors)@.len(),
            forall|j: int| 0 <= j < k ==> #[trigger] vectors@[j]@ == resized(old(vectors)@[j]@, dimension as int, fill),
            forall|j: int| k <= j < n ==> #[trigger] vectors@[j]@ == old(vectors)@[j]@,
        decreases n - k,
    {
        resize_in_place(&mut vectors[k], dimension, fill);
        k = k + 1;
    }
    samples.clear();
    Ok(())
}

} // verus!
