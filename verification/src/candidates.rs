//! Candidate pairs among the levels retained at one shared neighbor.
//!
//! Levels that share a neighbor (a tuple context or a pair-graph neighbor)
//! become candidate pairs, but never across incidence components. The
//! retained levels are listed in increasing order and pairs are emitted by
//! left position, then right position.
use vstd::prelude::*;

verus! {

/// Pairs `(levels[i], levels[j])` for `i < j' < j` in increasing `j'`, kept
/// when both levels lie in the same component.
pub open spec fn row_pairs(levels: Seq<u32>, components: Seq<usize>, i: int, j: int) -> Seq<(u32, u32)>
    decreases j - i,
{
    if j <= i + 1 {
        seq![]
    } else {
        let prev = row_pairs(levels, components, i, j - 1);
        if components[levels[i] as int] == components[levels[j - 1] as int] {
            prev.push((levels[i], levels[j - 1]))
        } else {
            prev
        }
    }
}

/// Every same-component pair whose left position is below `i`, in emission
/// order.
pub open spec fn pairs_upto(levels: Seq<u32>, components: Seq<usize>, i: int) -> Seq<(u32, u32)>
    decreases i,
{
    if i <= 0 {
        seq![]
    } else {
        pairs_upto(levels, components, i - 1) + row_pairs(levels, components, i - 1, levels.len() as int)
    }
}

/// The candidate pairs of a retained level list.
pub open spec fn same_component_pairs_spec(levels: Seq<u32>, components: Seq<usize>) -> Seq<(u32, u32)> {
    pairs_upto(levels, components, levels.len() as int)
}

/// Emit every pair of retained levels that lie in the same component.
pub fn same_component_pairs(levels: &[u32], components: &[usize]) -> (r: Vec<(u32, u32)>)
    requires
        forall|i: int| 0 <= i < levels@.len() ==> (#[trigger] levels@[i] as int) < components@.len(),
    ensures
        r@ == same_component_pairs_spec(levels@, components@),
        forall|x: (u32, u32)| #[trigger] r@.contains(x) <==> exists|a: int, b: int|
            #[trigger] same_component_pair_at(levels@, components@, x, a, b),
{
    let n = levels.len();
    let mut out: Vec<(u32, u32)> = Vec::new();
    let mut left: usize = 0;
    while left < n
        invariant
            left <= n,
            n == levels@.len(),
            forall|i: int| 0 <= i < levels@.len() ==> (#[trigger] levels@[i] as int) < components@.len(),
            out@ == pairs_upto(levels@, components@, left as int),
        decreases n - left,
    {
        let a = levels[left];
        let mut right: usize = left + 1;
        while right < n
            invariant
                left < n,
                left + 1 <= right <= n,
                n == levels@.len(),
                a == levels@[left as int],
                forall|i: int| 0 <= i < levels@.len() ==> (#[trigger] levels@[i] as int) < components@.len(),
                out@ == pairs_upto(levels@, components@, left as int) + row_pairs(levels@, components@, left as int, right as int),
            decreases n - right,
        {
            let b = levels[right];
            assert((levels@[left as int] as int) < components@.len());
            assert((levels@[right as int] as int) < components@.len());
            if components[a as usize] == components[b as usize] {
                out.push((a, b));
            }
            assert(row_pairs(levels@, components@, left as int, right as int + 1) == if components@[a as int] == components@[b as int] {
                row_pairs(levels@, components@, left as int, right as int).push((a, b))
            } else {
                row_pairs(levels@, components@, left as int, right as int)
            });
            right = right + 1;
        }
        left = left + 1;
    }
    proof {
        assert forall|x: (u32, u32)| #[trigger] out@.contains(x) <==> exists|a: int, b: int|
            #[trigger] same_component_pair_at(levels@, components@, x, a, b) by {
            lemma_same_component_pairs_members(levels@, components@, x);
        }
    }
    out
}

proof fn lemma_row_pairs_len(levels: Seq<u32>, components: Seq<usize>, i: int, j: int)
    requires
        0 <= i,
    ensures
        row_pairs(levels, components, i, j).len() <= if j > i + 1 { j - i - 1 } else { 0 },
        (forall|k: int| 0 <= k < levels.len() ==> #[trigger] components[levels[k] as int] == components[levels[i] as int])
            && i < j <= levels.len() ==> row_pairs(levels, components, i, j).len() == j - i - 1,
    decreases j - i,
{
    if j > i + 1 {
        lemma_row_pairs_len(levels, components, i, j - 1);
    }
}

proof fn lemma_pairs_upto_len(levels: Seq<u32>, components: Seq<usize>, i: int)
    requires
        0 <= i <= levels.len(),
    ensures
        2 * pairs_upto(levels, components, i).len() <= i * (2 * levels.len() - i - 1),
        (forall|a: int, b: int| 0 <= a < levels.len() && 0 <= b < levels.len() ==> #[trigger] components[levels[a] as int]
            == #[trigger] components[levels[b] as int]) ==> 2 * pairs_upto(levels, components, i).len() == i * (2
            * levels.len() - i - 1),
    decreases i,
{
    if i > 0 {
        let n = levels.len() as int;
        lemma_pairs_upto_len(levels, components, i - 1);
        lemma_row_pairs_len(levels, components, i - 1, n);
        assert((i - 1) * (2 * n - (i - 1) - 1) + 2 * (n - i) == i * (2 * n - i - 1)) by (nonlinear_arith);
        if forall|a: int, b: int| 0 <= a < levels.len() && 0 <= b < levels.len() ==> #[trigger] components[levels[a] as int]
            == #[trigger] components[levels[b] as int] {
            assert forall|k: int| 0 <= k < levels.len() implies #[trigger] components[levels[k] as int] == components[levels[i - 1] as int] by {
                assert(components[levels[k] as int] == components[levels[i - 1] as int]);
            }
        }
    }
}

/// Law: a list of `k` retained levels emits at most `k (k - 1) / 2`
/// candidate pairs, exactly that many when all lie in one component.
pub proof fn lemma_pair_count_of_retained_list(levels: Seq<u32>, components: Seq<usize>)
    ensures
        2 * same_component_pairs_spec(levels, components).len() <= levels.len() * (levels.len() - 1),
        (forall|a: int, b: int| 0 <= a < levels.len() && 0 <= b < levels.len() ==> #[trigger] components[levels[a] as int]
            == #[trigger] components[levels[b] as int]) ==> 2 * same_component_pairs_spec(levels, components).len()
            == levels.len() * (levels.len() - 1),
{
    lemma_pairs_upto_len(levels, components, levels.len() as int);
    let n = levels.len() as int;
    assert(n * (2 * n - n - 1) == n * (n - 1)) by (nonlinear_arith);
}

/// Whether `x` is the pair of positions `a < b` of `levels` whose levels lie in
/// one component.
pub open spec fn same_component_pair_at(levels: Seq<u32>, components: Seq<usize>, x: (u32, u32), a: int, b: int) -> bool {
    &&& 0 <= a < b < levels.len()
    &&& x == (levels[a], levels[b])
    &&& components[levels[a] as int] == components[levels[b] as int]
}

proof fn lemma_row_pairs_members(levels: Seq<u32>, components: Seq<usize>, i: int, j: int, x: (u32, u32))
    requires
        0 <= i,
        j <= levels.len(),
    ensures
        row_pairs(levels, components, i, j).contains(x) <==> exists|b: int|
            i < b < j && #[trigger] same_component_pair_at(levels, components, x, i, b),
    decreases j - i,
{
    if j > i + 1 {
        lemma_row_pairs_members(levels, components, i, j - 1, x);
        let prev = row_pairs(levels, components, i, j - 1);
        if components[levels[i] as int] == components[levels[j - 1] as int] {
            let now = prev.push((levels[i], levels[j - 1]));
            if now.contains(x) {
                let k = choose|k: int| 0 <= k < now.len() && now[k] == x;
                if k < prev.len() {
                    assert(prev[k] == x);
                    assert(prev.contains(x));
                } else {
                    assert(same_component_pair_at(levels, components, x, i, j - 1));
                }
            }
            if exists|b: int| i < b < j && #[trigger] same_component_pair_at(levels, components, x, i, b) {
                let b = choose|b: int| i < b < j && #[trigger] same_component_pair_at(levels, components, x, i, b);
                if b < j - 1 {
                    let k = choose|k: int| 0 <= k < prev.len() && prev[k] == x;
                    assert(now[k] == x);
                } else {
                    assert(now[prev.len() as int] == x);
                }
            }
        } else {
            if exists|b: int| i < b < j && #[trigger] same_component_pair_at(levels, components, x, i, b) {
                let b = choose|b: int| i < b < j && #[trigger] same_component_pair_at(levels, components, x, i, b);
                assert(b != j - 1);
            }
        }
    }
}

proof fn lemma_pairs_upto_members(levels: Seq<u32>, components: Seq<usize>, i: int, x: (u32, u32))
    requires
        0 <= i <= levels.len(),
    ensures
        pairs_upto(levels, components, i).contains(x) <==> exists|a: int, b: int|
            0 <= a < i && #[trigger] same_component_pair_at(levels, components, x, a, b),
    decreases i,
{
    if i > 0 {
        let n = levels.len() as int;
        lemma_pairs_upto_members(levels, components, i - 1, x);
        lemma_row_pairs_members(levels, components, i - 1, n, x);
        let prev = pairs_upto(levels, components, i - 1);
        let row = row_pairs(levels, components, i - 1, n);
        let all = prev + row;
        if all.contains(x) {
            let k = choose|k: int| 0 <= k < all.len() && all[k] == x;
            if k < prev.len() {
                assert(prev[k] == x);
                assert(prev.contains(x));
            } else {
                assert(row[k - prev.len()] == x);
                assert(row.contains(x));
            }
        }
        if exists|a: int, b: int| 0 <= a < i && #[trigger] same_component_pair_at(levels, components, x, a, b) {
            let (a, b) = choose|a: int, b: int| 0 <= a < i && #[trigger] same_component_pair_at(levels, components, x, a, b);
            if a < i - 1 {
                assert(prev.contains(x));
                let k = choose|k: int| 0 <= k < prev.len() && prev[k] == x;
                assert(all[k] == x);
            } else {
                assert(same_component_pair_at(levels, components, x, i - 1, b));
                assert(row.contains(x));
                let k = choose|k: int| 0 <= k < row.len() && row[k] == x;
                assert(all[prev.len() + k] == x);
            }
        }
    }
}

/// Law: the candidate pairs are exactly the pairs of retained levels, left
/// position before right position, that lie in one component: each emitted
/// pair is such a pair, and each such pair is emitted.
pub proof fn lemma_same_component_pairs_members(levels: Seq<u32>, components: Seq<usize>, x: (u32, u32))
    ensures
        same_component_pairs_spec(levels, components).contains(x) <==> exists|a: int, b: int|
            #[trigger] same_component_pair_at(levels, components, x, a, b),
{
    lemma_pairs_upto_members(levels, components, levels.len() as int, x);
}

} // verus!
