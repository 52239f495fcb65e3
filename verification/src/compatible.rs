//! Component preservation of hard factor aggregations.
use vstd::prelude::*;
use crate::error::MultiwayError;

verus! {

/// Component of the first level below `k` whose parent is `p`, if any.
pub open spec fn first_component(parents: Seq<u32>, components: Seq<usize>, p: int, k: int) -> Option<usize>
    decreases k,
{
    if k <= 0 {
        None
    } else {
        match first_component(parents, components, p, k - 1) {
            Some(c) => Some(c),
            None => if parents[k - 1] == p {
                Some(components[k - 1])
            } else {
                None
            },
        }
    }
}

/// Whether the levels below `k` that share a parent also share a component.
pub open spec fn uniform_upto(parents: Seq<u32>, components: Seq<usize>, k: int) -> bool {
    forall|i: int, j: int|
        0 <= i < k && 0 <= j < k && #[trigger] parents[i] == #[trigger] parents[j] ==> components[i]
            == components[j]
}

/// Whether level `level` is the first crossing: every earlier level agrees
/// with its aggregate, and `level` lies in `component` while the first level
/// of its aggregate `aggregate` lies in `existing`.
pub open spec fn first_crossing_at(
    parents: Seq<u32>,
    components: Seq<usize>,
    level: int,
    aggregate: usize,
    existing: usize,
    component: usize,
) -> bool {
    &&& 0 <= level < parents.len()
    &&& uniform_upto(parents, components, level)
    &&& parents[level] == aggregate
    &&& components[level] == component
    &&& first_component(parents, components, aggregate as int, level) == Some(existing)
    &&& existing != component
}

/// Whether some level of the factor is the first crossing of `aggregate`
/// between `existing` and `component`.
pub open spec fn crosses_first(parents: Seq<u32>, components: Seq<usize>, aggregate: usize, existing: usize, component: usize) -> bool {
    exists|level: int| #[trigger] first_crossing_at(parents, components, level, aggregate, existing, component)
}

proof fn lemma_first_component(parents: Seq<u32>, components: Seq<usize>, p: int, k: int)
    requires
        0 <= k <= parents.len(),
        parents.len() == components.len(),
    ensures
        first_component(parents, components, p, k) is None <==> (forall|i: int| 0 <= i < k ==> parents[i] != p),
        uniform_upto(parents, components, k) ==> (first_component(parents, components, p, k) matches Some(c)
            ==> (forall|i: int| 0 <= i < k && parents[i] == p ==> components[i] == c)),
    decreases k,
{
    if k > 0 {
        lemma_first_component(parents, components, p, k - 1);
        if first_component(parents, components, p, k - 1) is None && parents[k - 1] == p {
            assert(first_component(parents, components, p, k) == Some(components[k - 1]));
            if uniform_upto(parents, components, k) {
                assert forall|i: int| 0 <= i < k && parents[i] == p implies components[i] == components[k - 1] by {
                    assert(parents[i] == parents[k - 1]);
                }
            }
        }
        if first_component(parents, components, p, k - 1) is None && parents[k - 1] != p {
            assert forall|i: int| 0 <= i < k implies parents[i] != p by {
                if i < k - 1 {
                } else {
                }
            }
        }
        if first_component(parents, components, p, k - 1) is Some {
            let j = choose|j: int| 0 <= j < k - 1 && parents[j] == p;
            assert(0 <= j < k - 1 && parents[j] == p);
        }
    }
}

/// Check that every aggregate of one factor stays inside one incidence
/// component.
///
/// `parents[l]` is the aggregate of level `l`, below `coarse_count`, and
/// `components[l]` its component. Levels are scanned in order and each
/// aggregate remembers the component of its first level. The result is `Ok`
/// exactly when levels that share an aggregate share a component; otherwise it
/// names the first crossing level, its aggregate, the component remembered
/// for that aggregate, and the crossing level's component.
pub fn factor_components_agree(parents: &[u32], components: &[usize], coarse_count: usize) -> (r: Result<(), (usize, usize, usize, usize)>)
    requires
        parents@.len() == components@.len(),
        forall|l: int| 0 <= l < parents@.len() ==> #[trigger] parents@[l] < coarse_count,
    ensures
        r is Ok <==> uniform_upto(parents@, components@, parents@.len() as int),
        r matches Err(t) ==> first_crossing_at(parents@, components@, t.0 as int, t.1, t.2, t.3),
{
    let mut table: Vec<Option<usize>> = Vec::new();
    let mut p: usize = 0;
    while p < coarse_count
        invariant
            p <= coarse_count,
            table@.len() == p,
            forall|q: int| 0 <= q < p ==> #[trigger] table@[q] is None,
        decreases coarse_count - p,
    {
        table.push(None);
        p = p + 1;
    }
    let n = parents.len();
    let mut level: usize = 0;
    while level < n
        invariant
            level <= n,
            n == parents@.len(),
            parents@.len() == components@.len(),
            table@.len() == coarse_count,
            forall|l: int| 0 <= l < parents@.len() ==> #[trigger] parents@[l] < coarse_count,
            forall|q: int| 0 <= q < coarse_count ==> #[trigger] table@[q] == first_component(parents@, components@, q, level as int),
            uniform_upto(parents@, components@, level as int),
        decreases n - level,
    {
        let parent = parents[level] as usize;
        let component = components[level];
        proof {
            lemma_first_component(parents@, components@, parent as int, level as int);
        }
        match table[parent] {
            None => {
                table.set(parent, Some(component));
                assert forall|i: int, j: int|
                    0 <= i < level + 1 && 0 <= j < level + 1 && #[trigger] parents@[i] == #[trigger] parents@[j] implies components@[i]
                        == components@[j] by {
                    if i == level as int && j < level {
                        assert(parents@[j] == parent);
                    }
                    if j == level as int && i < level {
                        assert(parents@[i] == parent);
                    }
                }
            },
            Some(existing) => {
                if existing != component {
                    assert(first_crossing_at(parents@, components@, level as int, parent, existing, component));
                    assert(!uniform_upto(parents@, components@, n as int)) by {
                        let j = choose|j: int| 0 <= j < level && parents@[j] == parent as u32;
                        assert(components@[j] == existing);
                        assert(parents@[j] == parents@[level as int]);
                    }
                    return Err((level, parent, existing, component));
                }
                assert forall|i: int, j: int|
                    0 <= i < level + 1 && 0 <= j < level + 1 && #[trigger] parents@[i] == #[trigger] parents@[j] implies components@[i]
                        == components@[j] by {
                    if i == level as int && j < level {
                        assert(parents@[j] == parent);
                    }
                    if j == level as int && i < level {
                        assert(parents@[i] == parent);
                    }
                }
            },
        }
        level = level + 1;
    }
    Ok(())
}

/// Check every factor of a hard aggregation for component preservation.
///
/// Factors are checked in order; the first crossing of the first failing
/// factor is reported as [`MultiwayError::InvalidAggregation`].
pub fn validate_component_preservation(
    parents: &Vec<Vec<u32>>,
    components: &Vec<Vec<usize>>,
    coarse_counts: &[usize; 3],
) -> (r: Result<(), MultiwayError>)
    requires
        parents@.len() == 3,
        components@.len() == 3,
        forall|f: int| 0 <= f < 3 ==> #[trigger] parents@[f]@.len() == components@[f]@.len(),
        forall|f: int, l: int| 0 <= f < 3 && 0 <= l < parents@[f]@.len() ==> #[trigger] parents@[f]@[l] < coarse_counts[f],
    ensures
        r is Ok <==> forall|f: int| 0 <= f < 3 ==> #[trigger] uniform_upto(parents@[f]@, components@[f]@, parents@[f]@.len() as int),
        r matches Err(e) ==> e matches MultiwayError::InvalidAggregation { factor, aggregate, existing, component }
            && factor < 3
            && (forall|f: int| 0 <= f < factor ==> #[trigger] uniform_upto(parents@[f]@, components@[f]@, parents@[f]@.len() as int))
            && crosses_first(parents@[factor as int]@, components@[factor as int]@, aggregate, existing, component),
{
    let mut factor: usize = 0;
    while factor < 3
        invariant
            factor <= 3,
            parents@.len() == 3,
            components@.len() == 3,
            forall|f: int| 0 <= f < 3 ==> #[trigger] parents@[f]@.len() == components@[f]@.len(),
            forall|f: int, l: int| 0 <= f < 3 && 0 <= l < parents@[f]@.len() ==> #[trigger] parents@[f]@[l] < coarse_counts[f],
            forall|f: int| 0 <= f < factor ==> #[trigger] uniform_upto(parents@[f]@, components@[f]@, parents@[f]@.len() as int),
        decreases 3 - factor,
    {
        let level_parents = &parents[factor];
        let level_components = &components[factor];
        assert forall|l: int| 0 <= l < level_parents@.len() implies #[trigger] level_parents@[l] < coarse_counts[factor as int] by {
            assert(parents@[factor as int]@[l] < coarse_counts[factor as int]);
        }
        match factor_components_agree(level_parents.as_slice(), level_components.as_slice(), coarse_counts[factor]) {
            Ok(()) => {},
            Err((level, aggregate, existing, component)) => {
                assert(first_crossing_at(parents@[factor as int]@, components@[factor as int]@, level as int, aggregate, existing, component));
                assert(crosses_first(parents@[factor as int]@, components@[factor as int]@, aggregate, existing, component));
                return Err(MultiwayError::InvalidAggregation { factor, aggregate, existing, component });
            },
        }
        factor = factor + 1;
    }
    Ok(())
}

} // verus!
