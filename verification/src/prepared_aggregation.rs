//! Work reports, admission sizing, proposal bounds and source-tuple ordering
//! of bounded flat-array pair-neighborhood proposals.
use vstd::prelude::*;
use crate::error::MultiwayError;
use crate::scratch::try_reserve_exact;
use crate::matching::{
    canonical_parents, canonical_parents_spec, candidates_in_range, greedy_matching, greedy_spec,
};

verus! {

/// Work actually completed while proposing one factor-respecting map.
#[derive(Debug, Clone, Copy, PartialEq, Eq, Structural)]
pub struct PreparedAggregationWork {
    /// Fine-frame tuple entries visited while constructing pair marginals.
    pub tuple_visits: usize,
    /// Distinct entries in the six directed pair marginals.
    pub pair_entries: usize,
    /// Shared-neighbor pair contributions emitted before duplicate collapse.
    pub proposals: usize,
    /// Distinct factor-local candidate pairs after duplicate collapse.
    pub unique_candidates: usize,
    /// Neighbor lists exceeding the explicit degree cap.
    pub truncated_neighbors: usize,
    /// Disjoint pairs selected by deterministic greedy matching.
    pub accepted_pairs: usize,
}

impl Default for PreparedAggregationWork {
    fn default() -> (r: Self)
        ensures
            r.tuple_visits == 0,
            r.pair_entries == 0,
            r.proposals == 0,
            r.unique_candidates == 0,
            r.truncated_neighbors == 0,
            r.accepted_pairs == 0,
    {
        PreparedAggregationWork {
            tuple_visits: 0,
            pair_entries: 0,
            proposals: 0,
            unique_candidates: 0,
            truncated_neighbors: 0,
            accepted_pairs: 0,
        }
    }
}

/// Conservative live requested-array admission, not an allocator or RSS quota.
#[derive(Debug, Clone, Copy, PartialEq, Eq, Structural)]
pub struct PreparedAggregationSetup {
    /// Borrowed fine topology and current weight-frame capacities, counted once.
    pub borrowed_payload_bytes: usize,
    /// Caller-declared old hierarchies, input arrays or other live owners.
    pub additional_live_payload_bytes: usize,
    /// New retained parent arrays, one u32 per fine coefficient.
    pub parent_payload_bytes: usize,
    /// Maximum flat scratch or subsequent dense-parent validation scratch.
    pub scratch_payload_bound: usize,
    /// Bytes per source tuple ID: u32 when the maximum ID fits, otherwise usize.
    pub source_index_bytes: usize,
    /// Largest proposal capacity needed by any of the three factors.
    pub maximum_proposals: usize,
    /// Checked sum of borrowed, additional, parent and scratch payload.
    pub total_payload_bound: usize,
}

/// The context named by every overflow of this module.
pub open spec fn is_aggregation_context(context: &'static str) -> bool {
    context@ == "prepared aggregation"@
}

/// Whether `e` is the structural-overflow failure of this module.
pub open spec fn is_aggregation_overflow(e: MultiwayError) -> bool {
    e matches MultiwayError::DimensionOverflow { context } && is_aggregation_context(context)
}

fn overflow() -> (e: MultiwayError)
    ensures
        is_aggregation_overflow(e),
{
    proof {
        reveal_strlit("prepared aggregation");
    }
    MultiwayError::DimensionOverflow { context: "prepared aggregation" }
}

fn product(a: usize, b: usize) -> (r: Result<usize, MultiwayError>)
    ensures
        r is Ok <==> a * b <= usize::MAX,
        r matches Ok(v) ==> v == a * b,
        r matches Err(e) ==> is_aggregation_overflow(e),
{
    match a.checked_mul(b) {
        Some(v) => Ok(v),
        None => Err(overflow()),
    }
}

fn total_of(a: usize, b: usize) -> (r: Result<usize, MultiwayError>)
    ensures
        r is Ok <==> a + b <= usize::MAX,
        r matches Ok(v) ==> v == a + b,
        r matches Err(e) ==> is_aggregation_overflow(e),
{
    match a.checked_add(b) {
        Some(v) => Ok(v),
        None => Err(overflow()),
    }
}

/// `k - 1`, or zero for an empty list.
pub open spec fn sub1(k: int) -> int {
    if k >= 1 {
        k - 1
    } else {
        0
    }
}

/// The smaller of two integers.
pub open spec fn min_int(a: int, b: int) -> int {
    if a <= b {
        a
    } else {
        b
    }
}

/// Unordered pairs among `k` retained levels.
pub open spec fn pair_count(k: int) -> int {
    k * sub1(k) / 2
}

/// Levels kept at one neighbor: the degree cap, or all levels of the factor.
pub open spec fn kept_levels(degree: int, level_count: int) -> int {
    min_int(degree, level_count)
}

/// Bound on the pairs one neighbor pass emits for a factor with
/// `level_count` levels when the neighbor factor has `neighbor_count` levels
/// and the frame has `entries` tuples: every neighbor contributes at most the
/// pairs of a full retained list, and every tuple entry at most `k - 1` halves.
pub open spec fn neighbor_bound_spec(neighbor_count: int, level_count: int, entries: int, degree: int) -> int {
    let k = kept_levels(degree, level_count);
    min_int(neighbor_count * pair_count(k), entries * sub1(k) / 2)
}

/// Whether every checked product of [`neighbor_bound`] is representable.
pub open spec fn neighbor_bound_fits(neighbor_count: int, level_count: int, entries: int, degree: int) -> bool {
    let k = kept_levels(degree, level_count);
    &&& k * sub1(k) <= usize::MAX
    &&& entries * sub1(k) <= usize::MAX
    &&& neighbor_count * pair_count(k) <= usize::MAX
}

proof fn lemma_pair_count_bounds(k: int)
    requires
        k >= 0,
    ensures
        0 <= pair_count(k) <= k * sub1(k),
        2 * pair_count(k) <= k * sub1(k),
{
    assert(k * sub1(k) >= 0) by (nonlinear_arith)
        requires
            k >= 0,
            sub1(k) >= 0,
    ;
}

/// Checked proposal bound of one neighbor pass (see [`neighbor_bound_spec`]).
pub fn neighbor_bound(neighbor_count: usize, level_count: usize, entries: usize, degree: usize) -> (r: Result<usize, MultiwayError>)
    ensures
        r is Ok <==> neighbor_bound_fits(neighbor_count as int, level_count as int, entries as int, degree as int),
        r matches Ok(v) ==> v == neighbor_bound_spec(neighbor_count as int, level_count as int, entries as int, degree as int),
        r matches Err(e) ==> is_aggregation_overflow(e),
{
    let k = if degree <= level_count { degree } else { level_count };
    let k1 = k.saturating_sub(1);
    proof {
        lemma_pair_count_bounds(k as int);
    }
    let pairs = product(k, k1)? / 2;
    let edge_bound = product(entries, k1)? / 2;
    let per_neighbor = product(neighbor_count, pairs)?;
    Ok(if per_neighbor <= edge_bound { per_neighbor } else { edge_bound })
}

/// The two factors other than `factor`, in increasing order.
pub open spec fn other_factors(factor: int) -> (int, int) {
    if factor == 0 {
        (1, 2)
    } else if factor == 1 {
        (0, 2)
    } else {
        (0, 1)
    }
}

/// Proposal capacity of one factor: the bounds of its two neighbor passes.
pub open spec fn factor_bound_spec(counts: Seq<usize>, entries: int, degree: int, factor: int) -> int {
    let (a, b) = other_factors(factor);
    neighbor_bound_spec(counts[a] as int, counts[factor] as int, entries, degree)
        + neighbor_bound_spec(counts[b] as int, counts[factor] as int, entries, degree)
}

/// Whether the checked arithmetic of one factor's capacity is representable.
pub open spec fn factor_bound_fits(counts: Seq<usize>, entries: int, degree: int, factor: int) -> bool {
    let (a, b) = other_factors(factor);
    &&& neighbor_bound_fits(counts[a] as int, counts[factor] as int, entries, degree)
    &&& neighbor_bound_fits(counts[b] as int, counts[factor] as int, entries, degree)
    &&& factor_bound_spec(counts, entries, degree, factor) <= usize::MAX
}

/// Largest proposal capacity over the three factors.
pub open spec fn proposal_bound_spec(counts: Seq<usize>, entries: int, degree: int) -> int {
    let b0 = factor_bound_spec(counts, entries, degree, 0);
    let b1 = factor_bound_spec(counts, entries, degree, 1);
    let b2 = factor_bound_spec(counts, entries, degree, 2);
    if b0 >= b1 && b0 >= b2 {
        b0
    } else if b1 >= b2 {
        b1
    } else {
        b2
    }
}

/// Whether every factor's capacity is representable.
pub open spec fn proposal_bound_fits(counts: Seq<usize>, entries: int, degree: int) -> bool {
    &&& factor_bound_fits(counts, entries, degree, 0)
    &&& factor_bound_fits(counts, entries, degree, 1)
    &&& factor_bound_fits(counts, entries, degree, 2)
}

fn factor_bound(counts: &[usize; 3], entries: usize, degree: usize, factor: usize) -> (r: Result<usize, MultiwayError>)
    requires
        factor < 3,
    ensures
        r is Ok <==> factor_bound_fits(counts@, entries as int, degree as int, factor as int),
        r matches Ok(v) ==> v == factor_bound_spec(counts@, entries as int, degree as int, factor as int),
        r matches Err(e) ==> is_aggregation_overflow(e),
{
    let (a, b): (usize, usize) = if factor == 0 {
        (1, 2)
    } else if factor == 1 {
        (0, 2)
    } else {
        (0, 1)
    };
    let first = neighbor_bound(counts[a], counts[factor], entries, degree)?;
    let second = neighbor_bound(counts[b], counts[factor], entries, degree)?;
    total_of(first, second)
}

/// Largest proposal capacity needed by any factor of a frame with
/// `counts` levels per factor and `entries` tuples, under the neighbor-degree
/// cap `degree`; every intermediate product and sum is checked.
pub fn proposal_bound(counts: &[usize; 3], entries: usize, degree: usize) -> (r: Result<usize, MultiwayError>)
    ensures
        r is Ok <==> proposal_bound_fits(counts@, entries as int, degree as int),
        r matches Ok(v) ==> v == proposal_bound_spec(counts@, entries as int, degree as int),
        r matches Err(e) ==> is_aggregation_overflow(e),
{
    let b0 = factor_bound(counts, entries, degree, 0)?;
    let b1 = factor_bound(counts, entries, degree, 1)?;
    let b2 = factor_bound(counts, entries, degree, 2)?;
    Ok(if b0 >= b1 && b0 >= b2 {
        b0
    } else if b1 >= b2 {
        b1
    } else {
        b2
    })
}

/// Pairs a neighbor pass emits when its neighbors carry lists of `rows[i]`
/// distinct levels: each list keeps at most `degree` levels and proposes all
/// pairs of them.
pub open spec fn row_proposals(rows: Seq<usize>, degree: int) -> int
    decreases rows.len(),
{
    if rows.len() == 0 {
        0
    } else {
        row_proposals(rows.drop_last(), degree) + pair_count(min_int(rows.last() as int, degree))
    }
}

/// Number of distinct (neighbor, level) entries behind the lists.
pub open spec fn row_total(rows: Seq<usize>) -> int
    decreases rows.len(),
{
    if rows.len() == 0 {
        0
    } else {
        row_total(rows.drop_last()) + rows.last()
    }
}

proof fn lemma_rows_doubled(rows: Seq<usize>, degree: int, k: int)
    requires
        degree >= 0,
        k >= 0,
        forall|i: int| 0 <= i < rows.len() ==> min_int(#[trigger] rows[i] as int, degree) <= k,
    ensures
        0 <= row_proposals(rows, degree) <= rows.len() * pair_count(k),
        2 * row_proposals(rows, degree) <= row_total(rows) * sub1(k),
        row_total(rows) >= 0,
    decreases rows.len(),
{
    if rows.len() > 0 {
        let init = rows.drop_last();
        assert forall|i: int| 0 <= i < init.len() implies min_int(#[trigger] init[i] as int, degree) <= k by {
            assert(init[i] == rows[i]);
        }
        lemma_rows_doubled(init, degree, k);
        let r = rows.last() as int;
        let m = min_int(r, degree);
        assert(min_int(rows[rows.len() - 1] as int, degree) <= k);
        lemma_pair_count_bounds(m);
        lemma_pair_count_bounds(k);
        assert(m * sub1(m) <= r * sub1(k)) by (nonlinear_arith)
            requires
                0 <= m <= r,
                m <= k,
                sub1(m) <= sub1(k),
                0 <= sub1(m),
        ;
        assert(pair_count(m) <= pair_count(k)) by (nonlinear_arith)
            requires
                0 <= m <= k,
                0 <= sub1(m) <= sub1(k),
                pair_count(m) == m * sub1(m) / 2,
                pair_count(k) == k * sub1(k) / 2,
        ;
        assert(init.len() * pair_count(k) + pair_count(k) == rows.len() * pair_count(k)) by (nonlinear_arith)
            requires
                rows.len() == init.len() + 1,
        ;
        assert(row_total(init) * sub1(k) + r * sub1(k) == row_total(rows) * sub1(k)) by (nonlinear_arith)
            requires
                row_total(rows) == row_total(init) + r,
        ;
    }
}

/// Law: one neighbor pass never emits more pairs than its bound.
///
/// For any lists of distinct levels (at most `neighbor_count` lists, each of
/// whose retained length is at most the factor's `level_count`, and at most
/// `entries` entries in all), the emitted pairs are within
/// [`neighbor_bound_spec`]. So the flat proposal array admitted from that
/// bound is never overrun.
pub proof fn lemma_neighbor_pass_within_bound(
    rows: Seq<usize>,
    neighbor_count: int,
    level_count: int,
    entries: int,
    degree: int,
)
    requires
        degree >= 0,
        level_count >= 0,
        rows.len() <= neighbor_count,
        row_total(rows) <= entries,
        forall|i: int| 0 <= i < rows.len() ==> min_int(#[trigger] rows[i] as int, degree) <= level_count,
    ensures
        row_proposals(rows, degree) <= neighbor_bound_spec(neighbor_count, level_count, entries, degree),
{
    let k = kept_levels(degree, level_count);
    assert forall|i: int| 0 <= i < rows.len() implies min_int(#[trigger] rows[i] as int, degree) <= k by {
        assert(min_int(rows[i] as int, degree) <= level_count);
    }
    lemma_rows_doubled(rows, degree, k);
    lemma_pair_count_bounds(k);
    let p = row_proposals(rows, degree);
    assert(rows.len() * pair_count(k) <= neighbor_count * pair_count(k)) by (nonlinear_arith)
        requires
            rows.len() <= neighbor_count,
            pair_count(k) >= 0,
    ;
    assert(row_total(rows) * sub1(k) <= entries * sub1(k)) by (nonlinear_arith)
        requires
            row_total(rows) <= entries,
            sub1(k) >= 0,
    ;
    assert(p <= entries * sub1(k) / 2) by (nonlinear_arith)
        requires
            2 * p <= entries * sub1(k),
    ;
}

/// Law: one factor's proposals, over both of its neighbor passes, stay within
/// the capacity that [`proposal_bound`] reserves.
pub proof fn lemma_factor_proposals_within_bound(
    counts: Seq<usize>,
    entries: int,
    degree: int,
    factor: int,
    first_rows: Seq<usize>,
    second_rows: Seq<usize>,
)
    requires
        counts.len() == 3,
        0 <= factor < 3,
        degree >= 0,
        first_rows.len() <= counts[other_factors(factor).0],
        second_rows.len() <= counts[other_factors(factor).1],
        row_total(first_rows) <= entries,
        row_total(second_rows) <= entries,
        forall|i: int| 0 <= i < first_rows.len() ==> min_int(#[trigger] first_rows[i] as int, degree) <= counts[factor],
        forall|i: int| 0 <= i < second_rows.len() ==> min_int(#[trigger] second_rows[i] as int, degree) <= counts[factor],
    ensures
        row_proposals(first_rows, degree) + row_proposals(second_rows, degree) <= factor_bound_spec(counts, entries, degree, factor),
        factor_bound_spec(counts, entries, degree, factor) <= proposal_bound_spec(counts, entries, degree),
{
    let (a, b) = other_factors(factor);
    lemma_neighbor_pass_within_bound(first_rows, counts[a] as int, counts[factor] as int, entries, degree);
    lemma_neighbor_pass_within_bound(second_rows, counts[b] as int, counts[factor] as int, entries, degree);
}

/// Pairs emitted by one neighbor pass whose lists hold `rows[i]` levels, or
/// `None` when a product or the total is not representable.
pub fn neighbor_proposals(rows: &[usize], degree: usize) -> (r: Option<usize>)
    ensures
        r matches Some(v) ==> v == row_proposals(rows@, degree as int),
        r is None ==> row_proposals(rows@, degree as int) > usize::MAX || exists|i: int|
            0 <= i < rows@.len() && min_int(#[trigger] rows@[i] as int, degree as int) * sub1(
                min_int(rows@[i] as int, degree as int),
            ) > usize::MAX,
{
    let mut total: usize = 0;
    let mut i: usize = 0;
    while i < rows.len()
        invariant
            i <= rows@.len(),
            total == row_proposals(rows@.take(i as int), degree as int),
        decreases rows@.len() - i,
    {
        assert(rows@.take(i as int + 1).drop_last() =~= rows@.take(i as int));
        let n = rows[i];
        let m = if n <= degree { n } else { degree };
        let product = match m.checked_mul(m.saturating_sub(1)) {
            Some(v) => v,
            None => {
                assert(min_int(rows@[i as int] as int, degree as int) * sub1(min_int(rows@[i as int] as int, degree as int)) > usize::MAX);
                return None;
            },
        };
        total = match total.checked_add(product / 2) {
            Some(v) => v,
            None => {
                proof {
                    lemma_row_proposals_monotone(rows@, degree as int, i as int + 1);
                }
                return None;
            },
        };
        i = i + 1;
    }
    assert(rows@.take(rows@.len() as int) =~= rows@);
    Some(total)
}

proof fn lemma_row_proposals_monotone(rows: Seq<usize>, degree: int, k: int)
    requires
        0 <= k <= rows.len(),
        degree >= 0,
    ensures
        row_proposals(rows.take(k), degree) <= row_proposals(rows, degree),
    decreases rows.len(),
{
    if k < rows.len() {
        assert(rows.drop_last().take(k) =~= rows.take(k));
        lemma_row_proposals_monotone(rows.drop_last(), degree, k);
        let m = min_int(rows.last() as int, degree);
        lemma_pair_count_bounds(m);
    } else {
        assert(rows.take(k) =~= rows);
    }
}

/// Plain sizes of the prepared frame that a proposal stage is sized for.
#[derive(Debug, Clone, Copy)]
pub struct AggregationFrameSizes {
    /// Levels per factor.
    pub level_counts: [usize; 3],
    /// Unique tuples of the frame.
    pub tuple_count: usize,
    /// Coefficients of the frame (the length of its Gramian diagonal).
    pub coefficient_count: usize,
    /// Retained payload of the borrowed fine topology.
    pub topology_payload_bytes: usize,
    /// Retained payload of the borrowed weight frame.
    pub frame_payload_bytes: usize,
}

/// Bytes of one pair-marginal record (two u32 ids and an f64 mass).
pub const PAIR_MASS_BYTES: usize = 16;

/// Bytes of one proposal record (two u32 levels, an f64 value and an ordinal),
/// as laid out on 64-bit targets.
pub const PROPOSAL_BYTES: usize = 24;

/// Whether source tuple ids below `count` all fit in a u32.
pub open spec fn compact_spec(count: int) -> bool {
    sub1(count) <= u32::MAX
}

/// Bytes per stored source tuple id.
pub open spec fn index_bytes_spec(count: int) -> int {
    if compact_spec(count) {
        4
    } else {
        vstd::layout::size_of::<usize>() as int
    }
}

/// The largest of three level counts.
pub open spec fn max_count_spec(counts: Seq<usize>) -> int {
    if counts[0] >= counts[1] && counts[0] >= counts[2] {
        counts[0] as int
    } else if counts[1] >= counts[2] {
        counts[1] as int
    } else {
        counts[2] as int
    }
}

/// Flat proposal scratch: source ids, pair masses, proposals and mates.
pub open spec fn flat_scratch_spec(sizes: AggregationFrameSizes, proposals: int) -> int {
    let e = sizes.tuple_count as int;
    index_bytes_spec(e) * e + e * PAIR_MASS_BYTES + proposals * PROPOSAL_BYTES + max_count_spec(
        sizes.level_counts@,
    ) * 4
}

/// Scratch bound: the flat scratch, or the later dense-label validation flags
/// if those are larger.
pub open spec fn scratch_bound_spec(sizes: AggregationFrameSizes, proposals: int) -> int {
    let flat = flat_scratch_spec(sizes, proposals);
    let flags = max_count_spec(sizes.level_counts@);
    if flat >= flags {
        flat
    } else {
        flags
    }
}

/// Whether every checked step of [`setup_payload_report`] is representable.
pub open spec fn setup_fits(sizes: AggregationFrameSizes, degree: int, additional: int) -> bool {
    let c = sizes.level_counts@;
    let e = sizes.tuple_count as int;
    let p = proposal_bound_spec(c, e, degree);
    let borrowed = sizes.topology_payload_bytes + sizes.frame_payload_bytes;
    &&& proposal_bound_fits(c, e, degree)
    &&& index_bytes_spec(e) * e <= usize::MAX
    &&& e * PAIR_MASS_BYTES <= isize::MAX
    &&& p * PROPOSAL_BYTES <= isize::MAX
    &&& max_count_spec(c) * 4 <= isize::MAX
    &&& flat_scratch_spec(sizes, p) <= usize::MAX
    &&& sizes.coefficient_count * 4 <= isize::MAX
    &&& borrowed <= usize::MAX
    &&& borrowed + additional + sizes.coefficient_count * 4 + scratch_bound_spec(sizes, p) <= usize::MAX
}

/// The admission report of a frame whose checked steps are all representable.
pub open spec fn setup_value(sizes: AggregationFrameSizes, degree: int, additional: int) -> PreparedAggregationSetup {
    let c = sizes.level_counts@;
    let e = sizes.tuple_count as int;
    let p = proposal_bound_spec(c, e, degree);
    let borrowed = sizes.topology_payload_bytes + sizes.frame_payload_bytes;
    PreparedAggregationSetup {
        borrowed_payload_bytes: borrowed as usize,
        additional_live_payload_bytes: additional as usize,
        parent_payload_bytes: (sizes.coefficient_count * 4) as usize,
        scratch_payload_bound: scratch_bound_spec(sizes, p) as usize,
        source_index_bytes: index_bytes_spec(e) as usize,
        maximum_proposals: p as usize,
        total_payload_bound: (borrowed + additional + sizes.coefficient_count * 4 + scratch_bound_spec(
            sizes,
            p,
        )) as usize,
    }
}

/// The option named when the neighbor degree is refused.
pub open spec fn is_neighborhood_option(name: &'static str) -> bool {
    name@ == "prepared_pair_neighborhood"@
}

/// Checked byte size of `count` records of `width` bytes; sizes past
/// `isize::MAX` cannot be allocated and are refused.
fn array_bytes(count: usize, width: usize) -> (r: Result<usize, MultiwayError>)
    ensures
        r is Ok <==> count * width <= isize::MAX,
        r matches Ok(v) ==> v == count * width,
        r matches Err(e) ==> is_aggregation_overflow(e),
{
    let n = product(count, width)?;
    if n <= isize::MAX as usize {
        Ok(n)
    } else {
        Err(overflow())
    }
}

/// Size the entire proposal stage before its first array reservation.
///
/// A neighbor degree below two is refused as an invalid option. Otherwise
/// every product and sum is checked and the first unrepresentable one is a
/// structural overflow. The minimum-affinity option is a float and is
/// validated by the caller before this sizing.
pub fn setup_payload_report(
    sizes: AggregationFrameSizes,
    maximum_neighbor_degree: usize,
    additional_live_payload_bytes: usize,
) -> (r: Result<PreparedAggregationSetup, MultiwayError>)
    ensures
        maximum_neighbor_degree < 2 ==> (r matches Err(MultiwayError::InvalidOption { name, .. })
            && is_neighborhood_option(name)),
        maximum_neighbor_degree >= 2 ==> (r is Ok <==> setup_fits(
            sizes,
            maximum_neighbor_degree as int,
            additional_live_payload_bytes as int,
        )),
        r matches Ok(s) ==> s == setup_value(
            sizes,
            maximum_neighbor_degree as int,
            additional_live_payload_bytes as int,
        ),
        maximum_neighbor_degree >= 2 ==> (r matches Err(e) ==> is_aggregation_overflow(e)),
{
    if maximum_neighbor_degree < 2 {
        proof {
            reveal_strlit("prepared_pair_neighborhood");
        }
        return Err(
            MultiwayError::InvalidOption {
                name: "prepared_pair_neighborhood",
                message: "affinity must be finite in [0,1] and neighbor degree at least two",
            },
        );
    }
    let counts = sizes.level_counts;
    let e = sizes.tuple_count;
    let maximum_proposals = proposal_bound(&counts, e, maximum_neighbor_degree)?;
    let max_count = if counts[0] >= counts[1] && counts[0] >= counts[2] {
        counts[0]
    } else if counts[1] >= counts[2] {
        counts[1]
    } else {
        counts[2]
    };
    let ids = product(SourceIds::index_bytes(e), e)?;
    let masses = array_bytes(e, PAIR_MASS_BYTES)?;
    let proposals = array_bytes(maximum_proposals, PROPOSAL_BYTES)?;
    let mates = array_bytes(max_count, 4)?;
    let flat = total_of(total_of(total_of(ids, masses)?, proposals)?, mates)?;
    let flags = array_bytes(max_count, 1)?;
    let scratch_payload_bound = if flat >= flags { flat } else { flags };
    let parent_payload_bytes = array_bytes(sizes.coefficient_count, 4)?;
    let borrowed_payload_bytes = total_of(sizes.topology_payload_bytes, sizes.frame_payload_bytes)?;
    let total_payload_bound = total_of(
        total_of(total_of(borrowed_payload_bytes, additional_live_payload_bytes)?, parent_payload_bytes)?,
        scratch_payload_bound,
    )?;
    Ok(
        PreparedAggregationSetup {
            borrowed_payload_bytes,
            additional_live_payload_bytes,
            parent_payload_bytes,
            scratch_payload_bound,
            source_index_bytes: SourceIds::index_bytes(e),
            maximum_proposals,
            total_payload_bound,
        },
    )
}

/// Source tuple ids of one frame, stored as u32 when every id fits and as
/// usize otherwise.
pub enum SourceIds {
    /// Ids that fit in 32 bits.
    Compact(Vec<u32>),
    /// Ids that need the full index width.
    Wide(Vec<usize>),
}

/// Sort key of a source tuple: its neighbor level, its factor level, its id.
pub open spec fn source_key(tuples: Seq<[u32; 3]>, factor: int, neighbor: int, id: int) -> (int, int, int) {
    (tuples[id][neighbor] as int, tuples[id][factor] as int, id)
}

/// Lexicographic order of sort keys.
pub open spec fn key_le(a: (int, int, int), b: (int, int, int)) -> bool {
    a.0 < b.0 || (a.0 == b.0 && (a.1 < b.1 || (a.1 == b.1 && a.2 <= b.2)))
}

/// Whether `ids` are in nondecreasing key order.
pub open spec fn sorted_by_key(tuples: Seq<[u32; 3]>, factor: int, neighbor: int, ids: Seq<int>) -> bool {
    forall|i: int, j: int|
        0 <= i < j < ids.len() ==> key_le(
            source_key(tuples, factor, neighbor, #[trigger] ids[i]),
            source_key(tuples, factor, neighbor, #[trigger] ids[j]),
        )
}

/// Compact ids as integers.
pub open spec fn compact_ints(v: Seq<u32>) -> Seq<int> {
    v.map_values(|x: u32| x as int)
}

/// Wide ids as integers.
pub open spec fn wide_ints(v: Seq<usize>) -> Seq<int> {
    v.map_values(|x: usize| x as int)
}

/// Whether every id names a tuple.
pub open spec fn ids_in_range(tuples: Seq<[u32; 3]>, ids: Seq<int>) -> bool {
    forall|i: int| 0 <= i < ids.len() ==> 0 <= #[trigger] ids[i] < tuples.len()
}

impl SourceIds {
    /// The stored ids as integers, in storage order.
    pub open spec fn ids(self) -> Seq<int> {
        match self {
            SourceIds::Compact(v) => compact_ints(v@),
            SourceIds::Wide(v) => wide_ints(v@),
        }
    }

    /// Whether ids below `count` all fit in a u32.
    pub fn compact(count: usize) -> (r: bool)
        ensures
            r == compact_spec(count as int),
    {
        count.saturating_sub(1) <= u32::MAX as usize
    }

    /// Bytes per stored id for `count` source tuples.
    pub fn index_bytes(count: usize) -> (r: usize)
        ensures
            r == index_bytes_spec(count as int),
    {
        if Self::compact(count) {
            4
        } else {
            core::mem::size_of::<usize>()
        }
    }

    /// The ids `0..count` in increasing order, reserved fallibly in the
    /// narrowest width that holds them. A byte size past `isize::MAX` is
    /// refused before any reservation.
    pub fn try_new(count: usize) -> (r: Result<Self, MultiwayError>)
        ensures
            count * index_bytes_spec(count as int) > isize::MAX ==> (r matches Err(e) && is_aggregation_overflow(e)),
            r matches Ok(s) ==> s.ids() == Seq::new(count as nat, |i: int| i) && (s is Compact
                <==> compact_spec(count as int)),
            r matches Err(e) ==> is_aggregation_overflow(e) || e is WorkspaceAllocation,
            r matches Err(e) && is_aggregation_overflow(e) ==> count * index_bytes_spec(count as int)
                > isize::MAX,
            r matches Err(MultiwayError::WorkspaceAllocation { .. }) ==> count * index_bytes_spec(
                count as int,
            ) <= isize::MAX,
            count == 0 ==> r is Ok,
    {
        array_bytes(count, Self::index_bytes(count))?;
        if Self::compact(count) {
            let mut ids: Vec<u32> = Vec::new();
            match try_reserve_exact(&mut ids, count) {
                Ok(()) => {},
                Err(source) => {
                    return Err(MultiwayError::WorkspaceAllocation { context: "candidate source IDs", source });
                },
            }
            let mut i: usize = 0;
            while i < count
                invariant
                    i <= count,
                    compact_spec(count as int),
                    ids@.len() == i,
                    forall|j: int| 0 <= j < i ==> ids@[j] == j,
                decreases count - i,
            {
                ids.push(i as u32);
                i = i + 1;
            }
            let r = SourceIds::Compact(ids);
            assert(r.ids() =~= Seq::new(count as nat, |i: int| i));
            Ok(r)
        } else {
            let mut ids: Vec<usize> = Vec::new();
            match try_reserve_exact(&mut ids, count) {
                Ok(()) => {},
                Err(source) => {
                    return Err(MultiwayError::WorkspaceAllocation { context: "candidate source IDs", source });
                },
            }
            let mut i: usize = 0;
            while i < count
                invariant
                    i <= count,
                    ids@.len() == i,
                    forall|j: int| 0 <= j < i ==> ids@[j] == j,
                decreases count - i,
            {
                ids.push(i);
                i = i + 1;
            }
            let r = SourceIds::Wide(ids);
            assert(r.ids() =~= Seq::new(count as nat, |i: int| i));
            Ok(r)
        }
    }

    /// The ids in storage order, each widened to usize.
    pub fn order(&self) -> (r: Vec<usize>)
        ensures
            wide_ints(r@) == self.ids(),
    {
        let mut out: Vec<usize> = Vec::new();
        match self {
            SourceIds::Compact(v) => {
                let mut i: usize = 0;
                while i < v.len()
                    invariant
                        i <= v@.len(),
                        out@.len() == i,
                        forall|j: int| 0 <= j < i ==> out@[j] == v@[j],
                    decreases v@.len() - i,
                {
                    out.push(v[i] as usize);
                    i = i + 1;
                }
                assert(wide_ints(out@) =~= self.ids());
            },
            SourceIds::Wide(v) => {
                let mut i: usize = 0;
                while i < v.len()
                    invariant
                        i <= v@.len(),
                        out@.len() == i,
                        forall|j: int| 0 <= j < i ==> out@[j] == v@[j],
                    decreases v@.len() - i,
                {
                    out.push(v[i]);
                    i = i + 1;
                }
                assert(wide_ints(out@) =~= self.ids());
            },
        }
        out
    }
}


fn key_le_exec(tuples: &[[u32; 3]], factor: usize, neighbor: usize, a: usize, b: usize) -> (r: bool)
    requires
        a < tuples@.len(),
        b < tuples@.len(),
        factor < 3,
        neighbor < 3,
    ensures
        r == key_le(
            source_key(tuples@, factor as int, neighbor as int, a as int),
            source_key(tuples@, factor as int, neighbor as int, b as int),
        ),
{
    let an = tuples[a][neighbor];
    let af = tuples[a][factor];
    let bn = tuples[b][neighbor];
    let bf = tuples[b][factor];
    an < bn || (an == bn && (af < bf || (af == bf && a <= b)))
}

proof fn lemma_swap_to_multiset<A>(s: Seq<A>, a: int, b: int)
    requires
        0 <= a < s.len(),
        0 <= b < s.len(),
    ensures
        s.update(a, s[b]).update(b, s[a]).to_multiset() =~= s.to_multiset(),
{
    broadcast use vstd::seq_lib::group_to_multiset_ensures, vstd::seq_lib::to_multiset_update;

    let m = s.to_multiset();
    let s1 = s.update(a, s[b]);
    assert(s1.to_multiset() == m.insert(s[b]).remove(s[a]));
    assert(s1[b] == s[b]);
    assert(s1.update(b, s[a]).to_multiset() == s1.to_multiset().insert(s[a]).remove(s[b]));
    assert(s.contains(s[a]));
    assert(m.count(s[a]) > 0);
    assert(m.insert(s[b]).remove(s[a]).insert(s[a]).remove(s[b]) =~= m);
}

/// Whether `s[lo..hi]` is in nondecreasing key order.
pub open spec fn wide_sorted(tuples: Seq<[u32; 3]>, factor: int, neighbor: int, s: Seq<usize>, lo: int, hi: int) -> bool {
    forall|a: int, b: int|
        lo <= a < b < hi ==> key_le(
            source_key(tuples, factor, neighbor, #[trigger] s[a] as int),
            source_key(tuples, factor, neighbor, #[trigger] s[b] as int),
        )
}

/// Whether `s[lo..hi]` is in nondecreasing key order.
pub open spec fn compact_sorted(tuples: Seq<[u32; 3]>, factor: int, neighbor: int, s: Seq<u32>, lo: int, hi: int) -> bool {
    forall|a: int, b: int|
        lo <= a < b < hi ==> key_le(
            source_key(tuples, factor, neighbor, #[trigger] s[a] as int),
            source_key(tuples, factor, neighbor, #[trigger] s[b] as int),
        )
}

fn sort_wide(ids: &mut Vec<usize>, tuples: &[[u32; 3]], factor: usize, neighbor: usize)
    requires
        factor < 3,
        neighbor < 3,
        forall|i: int| 0 <= i < old(ids)@.len() ==> #[trigger] old(ids)@[i] < tuples@.len(),
    ensures
        final(ids)@.to_multiset() == old(ids)@.to_multiset(),
        final(ids)@.len() == old(ids)@.len(),
        forall|i: int| 0 <= i < final(ids)@.len() ==> #[trigger] final(ids)@[i] < tuples@.len(),
        wide_sorted(tuples@, factor as int, neighbor as int, final(ids)@, 0, final(ids)@.len() as int),
        wide_ints(final(ids)@).to_multiset() == wide_ints(old(ids)@).to_multiset(),
{
    let ghost initial = ids@;
    let ghost f = factor as int;
    let ghost g = neighbor as int;
    let n = ids.len();
    let mut i: usize = 1;
    if n == 0 {
        return;
    }
    while i < n
        invariant
            1 <= i <= n,
            n == ids@.len(),
            factor < 3,
            neighbor < 3,
            f == factor,
            g == neighbor,
            ids@.to_multiset() == initial.to_multiset(),
            wide_ints(ids@).to_multiset() == wide_ints(initial).to_multiset(),
            forall|k: int| 0 <= k < ids@.len() ==> #[trigger] ids@[k] < tuples@.len(),
            wide_sorted(tuples@, f, g, ids@, 0, i as int),
        decreases n - i,
    {
        let mut j: usize = i;
        while j > 0 && !key_le_exec(tuples, factor, neighbor, ids[j - 1], ids[j])
            invariant
                0 <= j <= i < n,
                n == ids@.len(),
                factor < 3,
                neighbor < 3,
                f == factor,
                g == neighbor,
                ids@.to_multiset() == initial.to_multiset(),
                wide_ints(ids@).to_multiset() == wide_ints(initial).to_multiset(),
                forall|k: int| 0 <= k < ids@.len() ==> #[trigger] ids@[k] < tuples@.len(),
                wide_sorted(tuples@, f, g, ids@, 0, j as int),
                wide_sorted(tuples@, f, g, ids@, j as int + 1, i as int + 1),
                forall|a: int, b: int|
                    0 <= a < j && j < b <= i ==> key_le(
                        source_key(tuples@, f, g, #[trigger] ids@[a] as int),
                        source_key(tuples@, f, g, #[trigger] ids@[b] as int),
                    ),
                forall|b: int|
                    j < b <= i ==> key_le(
                        source_key(tuples@, f, g, ids@[j as int] as int),
                        source_key(tuples@, f, g, #[trigger] ids@[b] as int),
                    ),
            decreases j,
        {
            let left = ids[j - 1];
            let right = ids[j];
            proof {
                lemma_swap_to_multiset(ids@, j as int - 1, j as int);
                lemma_swap_to_multiset(wide_ints(ids@), j as int - 1, j as int);
                let m = wide_ints(ids@);
                assert(wide_ints(ids@.update(j as int - 1, right).update(j as int, left)) =~= m.update(
                    j as int - 1,
                    m[j as int],
                ).update(j as int, m[j as int - 1]));
            }
            ids.set(j - 1, right);
            ids.set(j, left);
            j = j - 1;
        }
        i = i + 1;
    }
}

fn sort_compact(ids: &mut Vec<u32>, tuples: &[[u32; 3]], factor: usize, neighbor: usize)
    requires
        factor < 3,
        neighbor < 3,
        forall|i: int| 0 <= i < old(ids)@.len() ==> #[trigger] old(ids)@[i] < tuples@.len(),
    ensures
        final(ids)@.to_multiset() == old(ids)@.to_multiset(),
        final(ids)@.len() == old(ids)@.len(),
        forall|i: int| 0 <= i < final(ids)@.len() ==> #[trigger] final(ids)@[i] < tuples@.len(),
        compact_sorted(tuples@, factor as int, neighbor as int, final(ids)@, 0, final(ids)@.len() as int),
        compact_ints(final(ids)@).to_multiset() == compact_ints(old(ids)@).to_multiset(),
{
    let ghost initial = ids@;
    let ghost f = factor as int;
    let ghost g = neighbor as int;
    let n = ids.len();
    let mut i: usize = 1;
    if n == 0 {
        return;
    }
    while i < n
        invariant
            1 <= i <= n,
            n == ids@.len(),
            factor < 3,
            neighbor < 3,
            f == factor,
            g == neighbor,
            ids@.to_multiset() == initial.to_multiset(),
            compact_ints(ids@).to_multiset() == compact_ints(initial).to_multiset(),
            forall|k: int| 0 <= k < ids@.len() ==> #[trigger] ids@[k] < tuples@.len(),
            compact_sorted(tuples@, f, g, ids@, 0, i as int),
        decreases n - i,
    {
        let mut j: usize = i;
        while j > 0 && !key_le_exec(tuples, factor, neighbor, ids[j - 1] as usize, ids[j] as usize)
            invariant
                0 <= j <= i < n,
                n == ids@.len(),
                factor < 3,
                neighbor < 3,
                f == factor,
                g == neighbor,
                ids@.to_multiset() == initial.to_multiset(),
                compact_ints(ids@).to_multiset() == compact_ints(initial).to_multiset(),
                forall|k: int| 0 <= k < ids@.len() ==> #[trigger] ids@[k] < tuples@.len(),
                compact_sorted(tuples@, f, g, ids@, 0, j as int),
                compact_sorted(tuples@, f, g, ids@, j as int + 1, i as int + 1),
                forall|a: int, b: int|
                    0 <= a < j && j < b <= i ==> key_le(
                        source_key(tuples@, f, g, #[trigger] ids@[a] as int),
                        source_key(tuples@, f, g, #[trigger] ids@[b] as int),
                    ),
                forall|b: int|
                    j < b <= i ==> key_le(
                        source_key(tuples@, f, g, ids@[j as int] as int),
                        source_key(tuples@, f, g, #[trigger] ids@[b] as int),
                    ),
            decreases j,
        {
            let left = ids[j - 1];
            let right = ids[j];
            proof {
                lemma_swap_to_multiset(ids@, j as int - 1, j as int);
                lemma_swap_to_multiset(compact_ints(ids@), j as int - 1, j as int);
                let m = compact_ints(ids@);
                assert(compact_ints(ids@.update(j as int - 1, right).update(j as int, left)) =~= m.update(
                    j as int - 1,
                    m[j as int],
                ).update(j as int, m[j as int - 1]));
            }
            ids.set(j - 1, right);
            ids.set(j, left);
            j = j - 1;
        }
        i = i + 1;
    }
}

impl SourceIds {
    /// Order the ids by (neighbor level, factor level, id), in place.
    ///
    /// The stored width is kept and the ids are permuted, never changed.
    pub fn sort(&mut self, tuples: &[[u32; 3]], factor: usize, neighbor: usize)
        requires
            factor < 3,
            neighbor < 3,
            ids_in_range(tuples@, old(self).ids()),
        ensures
            *old(self) matches SourceIds::Compact(before) ==> (*final(self) matches SourceIds::Compact(
                after,
            ) && after@.to_multiset() == before@.to_multiset()),
            *old(self) matches SourceIds::Wide(before) ==> (*final(self) matches SourceIds::Wide(after)
                && after@.to_multiset() == before@.to_multiset()),
            final(self).ids().len() == old(self).ids().len(),
            final(self).ids().to_multiset() == old(self).ids().to_multiset(),
            ids_in_range(tuples@, final(self).ids()),
            sorted_by_key(tuples@, factor as int, neighbor as int, final(self).ids()),
    {
        let mut taken = SourceIds::Wide(Vec::new());
        core::mem::swap(self, &mut taken);
        let sorted = match taken {
            SourceIds::Compact(mut v) => {
                assert forall|i: int| 0 <= i < v@.len() implies #[trigger] v@[i] < tuples@.len() by {
                    assert(old(self).ids()[i] == v@[i] as int);
                }
                sort_compact(&mut v, tuples, factor, neighbor);
                let r = SourceIds::Compact(v);
                assert forall|a: int, b: int| 0 <= a < b < r.ids().len() implies key_le(
                    source_key(tuples@, factor as int, neighbor as int, #[trigger] r.ids()[a]),
                    source_key(tuples@, factor as int, neighbor as int, #[trigger] r.ids()[b]),
                ) by {
                    assert(r.ids()[a] == v@[a] as int);
                    assert(r.ids()[b] == v@[b] as int);
                }
                assert forall|i: int| 0 <= i < r.ids().len() implies 0 <= #[trigger] r.ids()[i] < tuples@.len() by {
                    assert(r.ids()[i] == v@[i] as int);
                }
                r
            },
            SourceIds::Wide(mut v) => {
                assert forall|i: int| 0 <= i < v@.len() implies #[trigger] v@[i] < tuples@.len() by {
                    assert(old(self).ids()[i] == v@[i] as int);
                }
                sort_wide(&mut v, tuples, factor, neighbor);
                let r = SourceIds::Wide(v);
                assert forall|a: int, b: int| 0 <= a < b < r.ids().len() implies key_le(
                    source_key(tuples@, factor as int, neighbor as int, #[trigger] r.ids()[a]),
                    source_key(tuples@, factor as int, neighbor as int, #[trigger] r.ids()[b]),
                ) by {
                    assert(r.ids()[a] == v@[a] as int);
                    assert(r.ids()[b] == v@[b] as int);
                }
                assert forall|i: int| 0 <= i < r.ids().len() implies 0 <= #[trigger] r.ids()[i] < tuples@.len() by {
                    assert(r.ids()[i] == v@[i] as int);
                }
                r
            },
        };
        *self = sorted;
    }
}

/// Law: the sort key fixes the order. Two arrangements of the same ids that
/// are both sorted by (neighbor level, factor level, id) coincide, so compact
/// and wide storage visit the tuples of a frame in the same order.
pub proof fn lemma_sorted_arrangement_unique(
    tuples: Seq<[u32; 3]>,
    factor: int,
    neighbor: int,
    a: Seq<int>,
    b: Seq<int>,
)
    requires
        a.to_multiset() == b.to_multiset(),
        sorted_by_key(tuples, factor, neighbor, a),
        sorted_by_key(tuples, factor, neighbor, b),
    ensures
        a == b,
    decreases a.len(),
{
    broadcast use vstd::seq_lib::group_to_multiset_ensures;

    if a.len() == 0 {
        assert(b.to_multiset().len() == 0);
        assert(a =~= b);
    } else {
        assert(a.contains(a[0]));
        assert(b.to_multiset().count(a[0]) > 0);
        assert(b.contains(a[0]));
        let j = choose|j: int| 0 <= j < b.len() && b[j] == a[0];
        assert(b.len() > 0);
        assert(b.contains(b[0]));
        assert(a.to_multiset().count(b[0]) > 0);
        assert(a.contains(b[0]));
        let k = choose|k: int| 0 <= k < a.len() && a[k] == b[0];
        if j > 0 {
            assert(key_le(source_key(tuples, factor, neighbor, b[0]), source_key(tuples, factor, neighbor, b[j])));
        }
        if k > 0 {
            assert(key_le(source_key(tuples, factor, neighbor, a[0]), source_key(tuples, factor, neighbor, a[k])));
        }
        assert(a[0] == b[0]);
        let ra = a.drop_first();
        let rb = b.drop_first();
        assert(a.remove(0) =~= ra);
        assert(b.remove(0) =~= rb);
        assert(ra.to_multiset() =~= rb.to_multiset());
        assert(sorted_by_key(tuples, factor, neighbor, ra)) by {
            assert forall|x: int, y: int| 0 <= x < y < ra.len() implies key_le(
                source_key(tuples, factor, neighbor, #[trigger] ra[x]),
                source_key(tuples, factor, neighbor, #[trigger] ra[y]),
            ) by {
                assert(ra[x] == a[x + 1]);
                assert(ra[y] == a[y + 1]);
            }
        }
        assert(sorted_by_key(tuples, factor, neighbor, rb)) by {
            assert forall|x: int, y: int| 0 <= x < y < rb.len() implies key_le(
                source_key(tuples, factor, neighbor, #[trigger] rb[x]),
                source_key(tuples, factor, neighbor, #[trigger] rb[y]),
            ) by {
                assert(rb[x] == b[x + 1]);
                assert(rb[y] == b[y + 1]);
            }
        }
        lemma_sorted_arrangement_unique(tuples, factor, neighbor, ra, rb);
        assert(a =~= b) by {
            assert forall|i: int| 0 <= i < a.len() implies a[i] == b[i] by {
                if i > 0 {
                    assert(a[i] == ra[i - 1]);
                    assert(b[i] == rb[i - 1]);
                }
            }
            assert(a.len() == a.to_multiset().len());
            assert(b.len() == b.to_multiset().len());
        }
    }
}

/// Number of matched levels of a matching.
pub open spec fn matched_levels(mates: Seq<Option<usize>>) -> nat
    decreases mates.len(),
{
    if mates.len() == 0 {
        0
    } else {
        matched_levels(mates.drop_last()) + (if mates.last() is Some { 1nat } else { 0nat })
    }
}

/// Match one factor's screened proposals and number its aggregates.
///
/// `ordered` holds the proposals that passed the affinity screen, already in
/// their final order (descending affinity, then left and right level); the
/// ordering is floating-point work of the caller. Pairs are accepted greedily
/// while both levels are unmatched, and aggregates are numbered in order of
/// their first level. Returns the parents and the number of accepted pairs.
pub fn match_ordered_proposals(count: usize, ordered: &Vec<(u32, u32)>) -> (r: (Vec<u32>, usize))
    requires
        candidates_in_range(count as nat, ordered@),
        count <= u32::MAX,
    ensures
        r.0@ == canonical_parents_spec(greedy_spec(count as nat, ordered@)),
        r.1 == matched_levels(greedy_spec(count as nat, ordered@)) / 2,
{
    let mates = greedy_matching(count, ordered);
    let parents = canonical_parents(&mates);
    let mut matched: usize = 0;
    let mut i: usize = 0;
    while i < mates.len()
        invariant
            i <= mates@.len(),
            matched <= i,
            matched == matched_levels(mates@.take(i as int)),
        decreases mates@.len() - i,
    {
        proof {
            assert(mates@.take(i + 1).drop_last() =~= mates@.take(i as int));
        }
        if mates[i].is_some() {
            matched = matched + 1;
        }
        i = i + 1;
    }
    proof {
        assert(mates@.take(i as int) =~= mates@);
    }
    (parents, matched / 2)
}

} // verus!
