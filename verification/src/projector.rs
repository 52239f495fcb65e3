//! Global coarse numbering of a hard factor aggregation, as the diagonal
//! aggregation projector lays it out.
use vstd::prelude::*;
use crate::error::MultiwayError;

verus! {

/// Start of each factor block and the end of the last, for block sizes `sizes`.
pub open spec fn block_offsets(sizes: Seq<usize>) -> Seq<int> {
    seq![0, sizes[0] as int, sizes[0] + sizes[1], sizes[0] + sizes[1] + sizes[2]]
}

/// Global coarse index of level `level` of factor `factor`.
pub open spec fn global_parent_spec(coarse_counts: Seq<usize>, parents: Seq<Vec<u32>>, factor: int, level: int) -> int {
    block_offsets(coarse_counts)[factor] + parents[factor]@[level]
}

/// Whether parent arrays describe an aggregation of `fine_counts` levels into
/// `coarse_counts` aggregates per factor.
pub open spec fn parents_fit(fine_counts: Seq<usize>, coarse_counts: Seq<usize>, parents: Seq<Vec<u32>>) -> bool {
    &&& parents.len() == 3
    &&& forall|f: int| 0 <= f < 3 ==> #[trigger] parents[f]@.len() == fine_counts[f]
    &&& forall|f: int, l: int| 0 <= f < 3 && 0 <= l < fine_counts[f] ==> #[trigger] parents[f]@[l] < coarse_counts[f]
}

fn offset_overflow(context: &'static str) -> (e: MultiwayError)
    ensures
        e == (MultiwayError::AggregationSizeOverflow { context }),
{
    MultiwayError::AggregationSizeOverflow { context }
}

/// Map every fine coefficient to its global coarse coefficient.
///
/// Fine coefficients are numbered factor by factor (`fine_counts` blocks) and
/// coarse coefficients likewise (`coarse_counts` blocks); level `l` of factor
/// `f` maps to the start of coarse block `f` plus its parent. The coarse
/// offsets are checked: an unrepresentable offset or dimension is refused.
pub fn global_parents(
    fine_counts: &[usize; 3],
    coarse_counts: &[usize; 3],
    parents: &Vec<Vec<u32>>,
) -> (r: Result<Vec<usize>, MultiwayError>)
    requires
        parents_fit(fine_counts@, coarse_counts@, parents@),
        fine_counts[0] + fine_counts[1] + fine_counts[2] <= usize::MAX,
    ensures
        r is Ok <==> coarse_counts[0] + coarse_counts[1] + coarse_counts[2] <= usize::MAX,
        r matches Err(e) ==> e is AggregationSizeOverflow,
        r matches Ok(g) ==> {
            &&& g@.len() == fine_counts[0] + fine_counts[1] + fine_counts[2]
            &&& forall|f: int, l: int|
                0 <= f < 3 && 0 <= l < fine_counts[f] ==> #[trigger] g@[block_offsets(fine_counts@)[f] + l]
                    == global_parent_spec(coarse_counts@, parents@, f, l)
        },
{
    let first = coarse_counts[0];
    let second = match first.checked_add(coarse_counts[1]) {
        Some(v) => v,
        None => return Err(offset_overflow("coarse offset arithmetic overflowed")),
    };
    let total = match second.checked_add(coarse_counts[2]) {
        Some(v) => v,
        None => return Err(offset_overflow("coarse dimension arithmetic overflowed")),
    };
    let coarse_offsets: [usize; 3] = [0, first, second];
    let mut global: Vec<usize> = Vec::new();
    let mut factor: usize = 0;
    while factor < 3
        invariant
            factor <= 3,
            parents_fit(fine_counts@, coarse_counts@, parents@),
            fine_counts[0] + fine_counts[1] + fine_counts[2] <= usize::MAX,
            coarse_offsets@ == seq![0usize, first, second],
            first == coarse_counts[0],
            second == coarse_counts[0] + coarse_counts[1],
            total == second + coarse_counts[2],
            global@.len() == block_offsets(fine_counts@)[factor as int],
            forall|f: int, l: int|
                0 <= f < factor && 0 <= l < fine_counts[f] ==> #[trigger] global@[block_offsets(fine_counts@)[f] + l]
                    == global_parent_spec(coarse_counts@, parents@, f, l),
        decreases 3 - factor,
    {
        let level_parents = &parents[factor];
        let base = coarse_offsets[factor];
        let start = global.len();
        let mut level: usize = 0;
        while level < fine_counts[factor]
            invariant
                factor < 3,
                level <= fine_counts[factor as int],
                parents_fit(fine_counts@, coarse_counts@, parents@),
                fine_counts[0] + fine_counts[1] + fine_counts[2] <= usize::MAX,
                level_parents@ == parents@[factor as int]@,
                base == block_offsets(coarse_counts@)[factor as int],
                total == coarse_counts[0] + coarse_counts[1] + coarse_counts[2],
                start == block_offsets(fine_counts@)[factor as int],
                global@.len() == start + level,
                forall|f: int, l: int|
                    0 <= f < factor && 0 <= l < fine_counts[f] ==> #[trigger] global@[block_offsets(fine_counts@)[f] + l]
                        == global_parent_spec(coarse_counts@, parents@, f, l),
                forall|l: int| 0 <= l < level ==> #[trigger] global@[start + l] == global_parent_spec(
                    coarse_counts@,
                    parents@,
                    factor as int,
                    l,
                ),
            decreases fine_counts[factor as int] - level,
        {
            assert(level_parents@[level as int] < coarse_counts[factor as int]);
            global.push(base + level_parents[level] as usize);
            level = level + 1;
        }
        factor = factor + 1;
    }
    Ok(global)
}

/// Law: every fine coefficient maps into its own factor's coarse block, so the
/// projector never mixes factors.
pub proof fn lemma_global_parent_in_block(
    fine_counts: Seq<usize>,
    coarse_counts: Seq<usize>,
    parents: Seq<Vec<u32>>,
    factor: int,
    level: int,
)
    requires
        fine_counts.len() == 3,
        coarse_counts.len() == 3,
        parents_fit(fine_counts, coarse_counts, parents),
        0 <= factor < 3,
        0 <= level < fine_counts[factor],
    ensures
        block_offsets(coarse_counts)[factor] <= global_parent_spec(coarse_counts, parents, factor, level)
            < block_offsets(coarse_counts)[factor + 1],
{
}

} // verus!
