//! Deterministic greedy pair matching and canonical parent numbering.
//!
//! Every aggregation builder of the library proposes candidate level pairs in
//! a deterministic order, keeps at most a bounded number per level, matches
//! them greedily and numbers the resulting aggregates canonically. The
//! numerical scoring that orders candidates happens before these steps.
use vstd::prelude::*;

verus! {

/// Whether every candidate names two distinct levels below `count`.
pub open spec fn candidates_in_range(count: nat, candidates: Seq<(u32, u32)>) -> bool {
    forall|k: int|
        0 <= k < candidates.len() ==> {
            &&& (#[trigger] candidates[k]).0 < count
            &&& candidates[k].1 < count
            &&& candidates[k].0 != candidates[k].1
        }
}

/// Greedy matching: scan candidates in order and join two levels when both
/// are still unmatched.
pub open spec fn greedy_spec(count: nat, candidates: Seq<(u32, u32)>) -> Seq<Option<usize>>
    decreases candidates.len(),
{
    if candidates.len() == 0 {
        Seq::new(count, |i: int| None::<usize>)
    } else {
        let m = greedy_spec(count, candidates.drop_last());
        let (l, r) = candidates.last();
        if m[l as int] is None && m[r as int] is None {
            m.update(l as int, Some(r as usize)).update(r as int, Some(l as usize))
        } else {
            m
        }
    }
}

/// `mates` is a symmetric, irreflexive partial matching of levels below its length.
pub open spec fn is_matching(mates: Seq<Option<usize>>) -> bool {
    forall|a: int|
        0 <= a < mates.len() ==> match #[trigger] mates[a] {
            Some(b) => b < mates.len() && b != a && mates[b as int] == Some(a as usize),
            None => true,
        }
}

/// Every matched pair was proposed as a candidate.
pub open spec fn matched_pairs_proposed(mates: Seq<Option<usize>>, candidates: Seq<(u32, u32)>) -> bool {
    forall|a: int|
        0 <= a < mates.len() ==> match #[trigger] mates[a] {
            Some(b) => exists|k: int|
                0 <= k < candidates.len() && ((#[trigger] candidates[k]) == (a as u32, b as u32)
                    || candidates[k] == (b as u32, a as u32)),
            None => true,
        }
}

/// No candidate joins two levels that both remain unmatched.
pub open spec fn is_maximal(mates: Seq<Option<usize>>, candidates: Seq<(u32, u32)>) -> bool {
    forall|k: int|
        0 <= k < candidates.len() ==> (mates[(#[trigger] candidates[k]).0 as int] is Some
            || mates[candidates[k].1 as int] is Some)
}

/// Law: the greedy scan yields a maximal matching made only of proposed pairs.
pub proof fn lemma_greedy_is_maximal_matching(count: nat, candidates: Seq<(u32, u32)>)
    requires
        candidates_in_range(count, candidates),
    ensures
        greedy_spec(count, candidates).len() == count,
        is_matching(greedy_spec(count, candidates)),
        matched_pairs_proposed(greedy_spec(count, candidates), candidates),
        is_maximal(greedy_spec(count, candidates), candidates),
    decreases candidates.len(),
{
    if candidates.len() > 0 {
        let prefix = candidates.drop_last();
        assert(candidates_in_range(count, prefix)) by {
            assert forall|k: int| 0 <= k < prefix.len() implies {
                &&& (#[trigger] prefix[k]).0 < count
                &&& prefix[k].1 < count
                &&& prefix[k].0 != prefix[k].1
            } by {
                assert(prefix[k] == candidates[k]);
            }
        }
        lemma_greedy_is_maximal_matching(count, prefix);
        let m = greedy_spec(count, prefix);
        let last = candidates.last();
        let (l, r) = last;
        assert(last == candidates[candidates.len() - 1]);
        let m2 = greedy_spec(count, candidates);
        assert forall|a: int| 0 <= a < m2.len() implies match #[trigger] m2[a] {
            Some(b) => b < m2.len() && b != a && m2[b as int] == Some(a as usize),
            None => true,
        } by {
            if m[l as int] is None && m[r as int] is None {
                if a != l && a != r {
                    assert(m2[a] == m[a]);
                    if let Some(b) = m[a] {
                        assert(b != l && b != r);
                    }
                }
            }
        }
        assert forall|a: int| 0 <= a < m2.len() implies match #[trigger] m2[a] {
            Some(b) => exists|k: int|
                0 <= k < candidates.len() && ((#[trigger] candidates[k]) == (a as u32, b as u32)
                    || candidates[k] == (b as u32, a as u32)),
            None => true,
        } by {
            let kl = candidates.len() - 1;
            if m[l as int] is None && m[r as int] is None && (a == l || a == r) {
                assert(candidates[kl] == (l, r));
                assert(l as usize as u32 == l && r as usize as u32 == r);
            } else {
                assert(m2[a] == m[a]);
                if let Some(b) = m[a] {
                    let k = choose|k: int|
                        0 <= k < prefix.len() && ((#[trigger] prefix[k]) == (a as u32, b as u32)
                            || prefix[k] == (b as u32, a as u32));
                    assert(candidates[k] == prefix[k]);
                }
            }
        }
        assert forall|k: int| 0 <= k < candidates.len() implies (m2[(#[trigger] candidates[k]).0 as int] is Some
            || m2[candidates[k].1 as int] is Some) by {
            if k < prefix.len() {
                assert(candidates[k] == prefix[k]);
                let (x, y) = prefix[k];
                if m[x as int] is Some {
                    assert(m2[x as int] is Some);
                } else {
                    assert(m[y as int] is Some);
                    assert(m2[y as int] is Some);
                }
            }
        }
    }
}

proof fn lemma_greedy_matches_persist(count: nat, candidates: Seq<(u32, u32)>, k: int, v: int)
    requires
        candidates_in_range(count, candidates),
        0 <= k <= candidates.len(),
        0 <= v < count,
        greedy_spec(count, candidates.take(k))[v] is Some,
    ensures
        greedy_spec(count, candidates)[v] == greedy_spec(count, candidates.take(k))[v],
    decreases candidates.len() - k,
{
    if k < candidates.len() {
        lemma_prefix_in_range(count, candidates, k + 1);
        lemma_prefix_in_range(count, candidates, k);
        let next = candidates.take(k + 1);
        assert(next.drop_last() =~= candidates.take(k));
        assert(next.last() == candidates[k]);
        lemma_greedy_is_maximal_matching(count, candidates.take(k));
        let m = greedy_spec(count, candidates.take(k));
        let (l, r) = candidates[k];
        if m[l as int] is None && m[r as int] is None {
            assert(v != l && v != r);
        }
        assert(greedy_spec(count, next)[v] == m[v]);
        lemma_greedy_matches_persist(count, candidates, k + 1, v);
        assert(greedy_spec(count, candidates.take(k + 1))[v] == m[v]);
    } else {
        assert(candidates.take(k) =~= candidates);
    }
}

/// Law: the greedy matching respects the candidates' order. A level matched
/// by the first `k` candidates keeps its mate in the final matching; and
/// candidate `k` is a matched pair of the final matching whenever both of its
/// levels are still unmatched after the candidates before it, while otherwise
/// it changes nothing.
pub proof fn lemma_greedy_respects_order(count: nat, candidates: Seq<(u32, u32)>, k: int)
    requires
        candidates_in_range(count, candidates),
        0 <= k < candidates.len(),
    ensures
        forall|v: int|
            0 <= v < count && (#[trigger] greedy_spec(count, candidates.take(k))[v]) is Some ==> greedy_spec(
                count,
                candidates,
            )[v] == greedy_spec(count, candidates.take(k))[v],
        ({
            let before = greedy_spec(count, candidates.take(k));
            let l = candidates[k].0 as int;
            let r = candidates[k].1 as int;
            &&& before[l] is None && before[r] is None ==> greedy_spec(count, candidates)[l] == Some(r as usize)
                && greedy_spec(count, candidates)[r] == Some(l as usize)
            &&& !(before[l] is None && before[r] is None) ==> greedy_spec(count, candidates.take(k + 1))
                == before
        }),
{
    lemma_prefix_in_range(count, candidates, k);
    lemma_prefix_in_range(count, candidates, k + 1);
    lemma_greedy_is_maximal_matching(count, candidates.take(k));
    assert forall|v: int|
        0 <= v < count && (#[trigger] greedy_spec(count, candidates.take(k))[v]) is Some implies greedy_spec(
            count,
            candidates,
        )[v] == greedy_spec(count, candidates.take(k))[v] by {
        lemma_greedy_matches_persist(count, candidates, k, v);
    }
    let next = candidates.take(k + 1);
    assert(next.drop_last() =~= candidates.take(k));
    assert(next.last() == candidates[k]);
    let before = greedy_spec(count, candidates.take(k));
    let l = candidates[k].0 as int;
    let r = candidates[k].1 as int;
    if before[l] is None && before[r] is None {
        assert(greedy_spec(count, next)[l] == Some(r as usize));
        assert(greedy_spec(count, next)[r] == Some(l as usize));
        lemma_greedy_matches_persist(count, candidates, k + 1, l);
        lemma_greedy_matches_persist(count, candidates, k + 1, r);
    }
}

/// Greedy matching of `count` levels over candidates in their given order.
pub fn greedy_matching(count: usize, candidates: &Vec<(u32, u32)>) -> (mates: Vec<Option<usize>>)
    requires
        candidates_in_range(count as nat, candidates@),
    ensures
        mates@ == greedy_spec(count as nat, candidates@),
        mates@.len() == count,
        is_matching(mates@),
        is_maximal(mates@, candidates@),
        matched_pairs_proposed(mates@, candidates@),
{
    let mut mates: Vec<Option<usize>> = Vec::new();
    let mut i: usize = 0;
    while i < count
        invariant
            i <= count,
            mates@.len() == i,
            forall|j: int| 0 <= j < i ==> mates@[j] is None,
        decreases count - i,
    {
        mates.push(None);
        i += 1;
    }
    assert(mates@ =~= greedy_spec(count as nat, candidates@.take(0)));
    let mut k: usize = 0;
    while k < candidates.len()
        invariant
            k <= candidates.len(),
            candidates_in_range(count as nat, candidates@),
            mates@ == greedy_spec(count as nat, candidates@.take(k as int)),
        decreases candidates.len() - k,
    {
        proof {
            assert(candidates@.take(k + 1).drop_last() =~= candidates@.take(k as int));
            assert(candidates@.take(k + 1).last() == candidates@[k as int]);
            let prefix = candidates@.take(k as int);
            assert forall|j: int| 0 <= j < prefix.len() implies {
                &&& (#[trigger] prefix[j]).0 < count
                &&& prefix[j].1 < count
                &&& prefix[j].0 != prefix[j].1
            } by {
                assert(prefix[j] == candidates@[j]);
            }
            lemma_greedy_is_maximal_matching(count as nat, prefix);
        }
        let (l, r) = candidates[k];
        let left = l as usize;
        let right = r as usize;
        if mates[left].is_none() && mates[right].is_none() {
            mates.set(left, Some(right));
            mates.set(right, Some(left));
        }
        k += 1;
    }
    proof {
        assert(candidates@.take(k as int) =~= candidates@);
        lemma_greedy_is_maximal_matching(count as nat, candidates@);
    }
    mates
}


/// Sentinel for a level whose parent is not yet assigned.
pub open spec fn unassigned() -> u32 {
    u32::MAX
}

/// Parents and next aggregate id after numbering levels `0..k` in order: an
/// unnumbered level opens the next aggregate, together with its mate.
pub open spec fn parents_after(mates: Seq<Option<usize>>, k: nat) -> (Seq<u32>, nat)
    decreases k,
{
    if k == 0 {
        (Seq::new(mates.len(), |i: int| unassigned()), 0)
    } else {
        let (p, next) = parents_after(mates, (k - 1) as nat);
        let level = k - 1;
        if p[level] != unassigned() {
            (p, next)
        } else {
            let p1 = p.update(level, next as u32);
            match mates[level] {
                Some(other) => (p1.update(other as int, next as u32), next + 1),
                None => (p1, next + 1),
            }
        }
    }
}

/// Canonical parent numbering of a complete matching.
pub open spec fn canonical_parents_spec(mates: Seq<Option<usize>>) -> Seq<u32> {
    parents_after(mates, mates.len()).0
}

/// Number of aggregates of a matching: one per matched pair and per singleton.
pub open spec fn aggregate_count_spec(mates: Seq<Option<usize>>) -> nat {
    parents_after(mates, mates.len()).1
}

/// Whether aggregate id `a` is the parent of some level below `bound`.
pub open spec fn id_used(p: Seq<u32>, bound: int, a: int) -> bool {
    exists|i: int| 0 <= i < bound && #[trigger] p[i] == a
}

/// Whether level `i` has received a parent after numbering levels `0..k`.
pub open spec fn assigned_by(mates: Seq<Option<usize>>, k: int, i: int) -> bool {
    i < k || (mates[i] matches Some(o) && o < k)
}

/// The invariant of canonical numbering after `k` levels.
pub open spec fn numbering_invariant(mates: Seq<Option<usize>>, k: int, p: Seq<u32>, next: nat) -> bool {
    &&& p.len() == mates.len()
    &&& next <= k
    &&& forall|i: int| 0 <= i < mates.len() ==> (assigned_by(mates, k, i) <==> #[trigger] p[i] != unassigned())
    &&& forall|i: int| 0 <= i < mates.len() && assigned_by(mates, k, i) ==> #[trigger] p[i] < next
    &&& forall|i: int, j: int|
        0 <= i < mates.len() && 0 <= j < mates.len() && assigned_by(mates, k, i) && assigned_by(mates, k, j)
            ==> (#[trigger] p[i] == #[trigger] p[j] <==> (i == j || mates[i] == Some(j as usize)))
    &&& forall|a: int| 0 <= a < next ==> #[trigger] id_used(p, k, a)
}

proof fn lemma_numbering_step(mates: Seq<Option<usize>>, k: nat)
    requires
        is_matching(mates),
        mates.len() <= u32::MAX,
        k <= mates.len(),
    ensures
        numbering_invariant(mates, k as int, parents_after(mates, k).0, parents_after(mates, k).1),
    decreases k,
{
    if k == 0 {
    } else {
        lemma_numbering_step(mates, (k - 1) as nat);
        let (p, next) = parents_after(mates, (k - 1) as nat);
        let level = k - 1;
        let (q, next2) = parents_after(mates, k);
        if p[level] != unassigned() {
            assert forall|i: int| 0 <= i < mates.len() implies (assigned_by(mates, k as int, i) <==> #[trigger] q[i] != unassigned()) by {
                if i == level {
                } else if let Some(o) = mates[i] {
                    if o == level {
                        assert(mates[level] == Some(i as usize));
                    }
                }
            }
            assert forall|a: int| 0 <= a < next2 implies #[trigger] id_used(q, k as int, a) by {
                assert(id_used(p, k - 1, a));
                let i = choose|i: int| 0 <= i < k - 1 && #[trigger] p[i] == a;
                assert(q[i] == a);
            }
        } else {
            assert(next < u32::MAX);
            match mates[level] {
                Some(other) => {
                    assert(other > level) by {
                        assert(mates[other as int] == Some(level as usize));
                    }
                },
                None => {},
            }
            assert forall|i: int| 0 <= i < mates.len() implies (assigned_by(mates, k as int, i) <==> #[trigger] q[i] != unassigned()) by {
                if i != level {
                    if let Some(o) = mates[i] {
                        if o == level {
                            assert(mates[level] == Some(i as usize));
                        }
                    }
                }
            }
            assert forall|i: int| 0 <= i < mates.len() && assigned_by(mates, k as int, i) implies #[trigger] q[i] < next2 by {
                if i != level && mates[level] != Some(i as usize) {
                    if let Some(o) = mates[i] {
                        if o == level {
                            assert(mates[level] == Some(i as usize));
                        }
                    }
                    assert(assigned_by(mates, k - 1, i));
                }
            }
            assert forall|i: int, j: int|
                0 <= i < mates.len() && 0 <= j < mates.len() && assigned_by(mates, k as int, i) && assigned_by(mates, k as int, j)
                    implies (#[trigger] q[i] == #[trigger] q[j] <==> (i == j || mates[i] == Some(j as usize))) by {
                let new_i = i == level || mates[level] == Some(i as usize);
                let new_j = j == level || mates[level] == Some(j as usize);
                if !new_i {
                    if let Some(o) = mates[i] {
                        if o == level {
                            assert(mates[level] == Some(i as usize));
                        }
                    }
                    assert(assigned_by(mates, k - 1, i));
                }
                if !new_j {
                    if let Some(o) = mates[j] {
                        if o == level {
                            assert(mates[level] == Some(j as usize));
                        }
                    }
                    assert(assigned_by(mates, k - 1, j));
                }
                if new_i && !new_j {
                    assert(q[j] < next);
                    if mates[i] == Some(j as usize) {
                        if i == level {
                        } else {
                            assert(mates[i] == Some(level as usize));
                        }
                    }
                }
                if new_j && !new_i {
                    assert(q[i] < next);
                    if mates[i] == Some(j as usize) {
                        assert(mates[j] == Some(i as usize));
                        if j == level {
                        } else {
                            assert(mates[j] == Some(level as usize));
                        }
                    }
                }
                if new_i && new_j && i != j {
                    if i == level {
                    } else {
                        assert(j == level);
                        assert(mates[j] == Some(i as usize));
                    }
                }
            }
            assert forall|a: int| 0 <= a < next2 implies #[trigger] id_used(q, k as int, a) by {
                if a == next {
                    assert(q[level] == a);
                } else {
                    assert(id_used(p, k - 1, a));
                    let i = choose|i: int| 0 <= i < k - 1 && #[trigger] p[i] == a;
                    assert(q[i] == a);
                }
            }
        }
    }
}

/// Law: canonical numbering of a matching joins exactly the matched pairs.
///
/// Every level gets an aggregate id below the aggregate count, two levels
/// share an id exactly when they are the same level or mates, and every id is
/// used.
pub proof fn lemma_canonical_parents_join_exactly_mates(mates: Seq<Option<usize>>)
    requires
        is_matching(mates),
        mates.len() <= u32::MAX,
    ensures
        canonical_parents_spec(mates).len() == mates.len(),
        aggregate_count_spec(mates) <= mates.len(),
        forall|i: int| 0 <= i < mates.len() ==> #[trigger] canonical_parents_spec(mates)[i] < aggregate_count_spec(mates),
        forall|i: int, j: int|
            0 <= i < mates.len() && 0 <= j < mates.len() ==> (#[trigger] canonical_parents_spec(mates)[i]
                == #[trigger] canonical_parents_spec(mates)[j] <==> (i == j || mates[i] == Some(j as usize))),
        forall|a: int| 0 <= a < aggregate_count_spec(mates) ==> #[trigger] id_used(canonical_parents_spec(mates), mates.len() as int, a),
{
    lemma_numbering_step(mates, mates.len());
    let p = canonical_parents_spec(mates);
    assert forall|i: int| 0 <= i < mates.len() implies #[trigger] p[i] < aggregate_count_spec(mates) by {
        assert(assigned_by(mates, mates.len() as int, i));
    }
    assert forall|i: int, j: int|
        0 <= i < mates.len() && 0 <= j < mates.len() implies (#[trigger] p[i] == #[trigger] p[j] <==> (i == j || mates[i] == Some(j as usize))) by {
        assert(assigned_by(mates, mates.len() as int, i));
        assert(assigned_by(mates, mates.len() as int, j));
    }
}

proof fn lemma_numbering_first_use(mates: Seq<Option<usize>>, k: nat)
    requires
        is_matching(mates),
        mates.len() <= u32::MAX,
        k <= mates.len(),
    ensures
        forall|i: int, a: int|
            0 <= i < mates.len() && parents_after(mates, k).0[i] != unassigned() && 0 <= a
                < #[trigger] parents_after(mates, k).0[i] ==> #[trigger] id_used(parents_after(mates, k).0, i, a),
    decreases k,
{
    if k > 0 {
        lemma_numbering_first_use(mates, (k - 1) as nat);
        lemma_numbering_step(mates, (k - 1) as nat);
        lemma_numbering_step(mates, k);
        let (p, next) = parents_after(mates, (k - 1) as nat);
        let level = k - 1;
        let (q, next2) = parents_after(mates, k);
        if p[level] == unassigned() {
            assert(next < u32::MAX);
            if let Some(other) = mates[level] {
                assert(mates[other as int] == Some(level as usize));
                if other < level {
                    assert(assigned_by(mates, k - 1, level));
                }
            }
            assert forall|i: int, a: int|
                0 <= i < mates.len() && q[i] != unassigned() && 0 <= a < #[trigger] q[i] implies #[trigger] id_used(q, i, a) by {
                let new_i = i == level || mates[level] == Some(i as usize);
                if new_i {
                    assert(q[i] == next);
                    assert(id_used(p, k - 1, a));
                    let j = choose|j: int| 0 <= j < k - 1 && #[trigger] p[j] == a;
                    assert(p[j] != unassigned());
                    assert(j != level);
                    if mates[level] == Some(j as usize) {
                        assert(assigned_by(mates, k - 1, j));
                        assert(mates[j] == Some(level as usize));
                        assert(assigned_by(mates, k - 1, level));
                    }
                    assert(q[j] == a);
                } else {
                    assert(q[i] == p[i]);
                    assert(id_used(p, i, a));
                    let j = choose|j: int| 0 <= j < i && #[trigger] p[j] == a;
                    assert(p[j] != unassigned());
                    assert(j != level);
                    if mates[level] == Some(j as usize) {
                        assert(mates[j] == Some(level as usize));
                        assert(assigned_by(mates, k - 1, j));
                        assert(assigned_by(mates, k - 1, level));
                    }
                    assert(q[j] == a);
                }
            }
        }
    }
}

/// Law: canonical numbering gives aggregate ids in order of first use: the
/// first level gets id 0, and every id below a level's id already belongs to
/// an earlier level. Together with
/// [`lemma_canonical_parents_join_exactly_mates`] this fixes the numbering.
pub proof fn lemma_canonical_parents_first_use_order(mates: Seq<Option<usize>>)
    requires
        is_matching(mates),
        mates.len() <= u32::MAX,
    ensures
        forall|i: int, a: int|
            0 <= i < mates.len() && 0 <= a < canonical_parents_spec(mates)[i] ==> #[trigger] id_used(
                canonical_parents_spec(mates),
                i,
                a,
            ),
        mates.len() > 0 ==> canonical_parents_spec(mates)[0] == 0,
{
    lemma_numbering_first_use(mates, mates.len());
    lemma_numbering_step(mates, mates.len());
    let p = canonical_parents_spec(mates);
    assert forall|i: int, a: int|
        0 <= i < mates.len() && 0 <= a < p[i] implies #[trigger] id_used(p, i, a) by {
        assert(assigned_by(mates, mates.len() as int, i));
    }
    if mates.len() > 0 {
        assert(assigned_by(mates, mates.len() as int, 0));
        if p[0] > 0 {
            assert(id_used(p, 0, 0));
        }
    }
}

/// Number levels into aggregates: each level joins its mate, if any, and
/// aggregate ids follow the first level of each aggregate.
pub fn canonical_parents(mates: &Vec<Option<usize>>) -> (parents: Vec<u32>)
    requires
        is_matching(mates@),
        mates@.len() <= u32::MAX,
    ensures
        parents@ == canonical_parents_spec(mates@),
        parents@.len() == mates@.len(),
        forall|i: int, j: int|
            0 <= i < mates@.len() && 0 <= j < mates@.len() ==> (#[trigger] parents@[i] == #[trigger] parents@[j]
                <==> (i == j || mates@[i] == Some(j as usize))),
        forall|i: int, a: int| 0 <= i < mates@.len() && 0 <= a < parents@[i] ==> #[trigger] id_used(parents@, i, a),
        mates@.len() > 0 ==> parents@[0] == 0,
{
    let n = mates.len();
    let mut parents: Vec<u32> = Vec::new();
    let mut i: usize = 0;
    while i < n
        invariant
            i <= n,
            n == mates@.len(),
            parents@.len() == i,
            forall|j: int| 0 <= j < i ==> parents@[j] == unassigned(),
        decreases n - i,
    {
        parents.push(u32::MAX);
        i += 1;
    }
    assert(parents@ =~= parents_after(mates@, 0).0);
    let mut next: u32 = 0;
    let mut level: usize = 0;
    while level < n
        invariant
            level <= n,
            n == mates@.len(),
            n <= u32::MAX,
            is_matching(mates@),
            parents@ == parents_after(mates@, level as nat).0,
            next == parents_after(mates@, level as nat).1,
        decreases n - level,
    {
        proof {
            lemma_numbering_step(mates@, level as nat);
        }
        if parents[level] == u32::MAX {
            parents.set(level, next);
            match mates[level] {
                Some(other) => {
                    parents.set(other, next);
                },
                None => {},
            }
            next = next + 1;
        }
        level += 1;
    }
    proof {
        lemma_canonical_parents_join_exactly_mates(mates@);
        lemma_canonical_parents_first_use_order(mates@);
    }
    parents
}


/// Degree-capped retention: scan candidates in order and keep one when both
/// of its levels still have fewer than `cap` kept candidates. Returns the kept
/// candidates and every level's final degree.
pub open spec fn retain_spec(count: nat, cap: nat, candidates: Seq<(u32, u32)>) -> (Seq<(u32, u32)>, Seq<nat>)
    decreases candidates.len(),
{
    if candidates.len() == 0 {
        (Seq::empty(), Seq::new(count, |i: int| 0nat))
    } else {
        let (kept, degrees) = retain_spec(count, cap, candidates.drop_last());
        let (l, r) = candidates.last();
        if degrees[l as int] >= cap || degrees[r as int] >= cap {
            (kept, degrees)
        } else {
            (
                kept.push((l, r)),
                degrees.update(l as int, degrees[l as int] + 1).update(r as int, degrees[r as int] + 1),
            )
        }
    }
}

/// Law: retention never lets a level exceed the degree cap, and keeps only
/// candidates, so the kept list is again a valid candidate list.
pub proof fn lemma_retention_respects_cap(count: nat, cap: nat, candidates: Seq<(u32, u32)>)
    requires
        candidates_in_range(count, candidates),
    ensures
        retain_spec(count, cap, candidates).1.len() == count,
        forall|i: int| 0 <= i < count ==> #[trigger] retain_spec(count, cap, candidates).1[i] <= cap,
        candidates_in_range(count, retain_spec(count, cap, candidates).0),
        retain_spec(count, cap, candidates).0.len() <= candidates.len(),
        forall|k: int| 0 <= k < retain_spec(count, cap, candidates).0.len() ==> candidates.contains(#[trigger] retain_spec(count, cap, candidates).0[k]),
    decreases candidates.len(),
{
    if candidates.len() > 0 {
        let prefix = candidates.drop_last();
        assert forall|k: int| 0 <= k < prefix.len() implies {
            &&& (#[trigger] prefix[k]).0 < count
            &&& prefix[k].1 < count
            &&& prefix[k].0 != prefix[k].1
        } by {
            assert(prefix[k] == candidates[k]);
        }
        lemma_retention_respects_cap(count, cap, prefix);
        let (kept, degrees) = retain_spec(count, cap, prefix);
        let last = candidates.last();
        assert(last == candidates[candidates.len() - 1]);
        let (kept2, degrees2) = retain_spec(count, cap, candidates);
        assert forall|k: int| 0 <= k < kept2.len() implies candidates.contains(#[trigger] kept2[k]) by {
            if k < kept.len() {
                assert(kept2[k] == kept[k]);
                assert(prefix.contains(kept[k]));
                let j = choose|j: int| 0 <= j < prefix.len() && prefix[j] == kept[k];
                assert(candidates[j] == prefix[j]);
            } else {
                assert(kept2[k] == last);
            }
        }
        assert forall|k: int| 0 <= k < kept2.len() implies {
            &&& (#[trigger] kept2[k]).0 < count
            &&& kept2[k].1 < count
            &&& kept2[k].0 != kept2[k].1
        } by {
            if k < kept.len() {
                assert(kept2[k] == kept[k]);
            } else {
                assert(kept2[k] == last);
            }
        }
    }
}

/// Number of pairs of `pairs` that have level `v` as an endpoint.
pub open spec fn level_occurrences(pairs: Seq<(u32, u32)>, v: int) -> nat
    decreases pairs.len(),
{
    if pairs.len() == 0 {
        0
    } else {
        level_occurrences(pairs.drop_last(), v) + (if pairs.last().0 as int == v || pairs.last().1 as int
            == v {
            1nat
        } else {
            0nat
        })
    }
}

proof fn lemma_prefix_in_range(count: nat, candidates: Seq<(u32, u32)>, k: int)
    requires
        candidates_in_range(count, candidates),
        0 <= k <= candidates.len(),
    ensures
        candidates_in_range(count, candidates.take(k)),
{
    assert forall|j: int| 0 <= j < candidates.take(k).len() implies {
        &&& (#[trigger] candidates.take(k)[j]).0 < count
        &&& candidates.take(k)[j].1 < count
        &&& candidates.take(k)[j].0 != candidates.take(k)[j].1
    } by {
        assert(candidates.take(k)[j] == candidates[j]);
    }
}

/// Law: every level's retained degree is the number of kept candidates that
/// touch it.
pub proof fn lemma_retention_degree_counts_kept(count: nat, cap: nat, candidates: Seq<(u32, u32)>, v: int)
    requires
        candidates_in_range(count, candidates),
        0 <= v < count,
    ensures
        retain_spec(count, cap, candidates).1[v] == level_occurrences(retain_spec(count, cap, candidates).0, v),
    decreases candidates.len(),
{
    if candidates.len() > 0 {
        let prefix = candidates.drop_last();
        assert(prefix =~= candidates.take(candidates.len() - 1));
        lemma_prefix_in_range(count, candidates, candidates.len() - 1);
        lemma_retention_degree_counts_kept(count, cap, prefix, v);
        lemma_retention_respects_cap(count, cap, prefix);
        let (kept, degrees) = retain_spec(count, cap, prefix);
        let (l, r) = candidates.last();
        assert(candidates.last() == candidates[candidates.len() - 1]);
        if !(degrees[l as int] >= cap || degrees[r as int] >= cap) {
            assert(kept.push((l, r)).drop_last() =~= kept);
        }
    }
}

/// Law: candidates are retained in their given order, each exactly when, at
/// its turn, both of its levels are endpoints of fewer than `cap` of the
/// candidates kept before it; a candidate that is dropped leaves the kept
/// list unchanged.
pub proof fn lemma_retention_keeps_exactly_below_cap(count: nat, cap: nat, candidates: Seq<(u32, u32)>, k: int)
    requires
        candidates_in_range(count, candidates),
        0 <= k < candidates.len(),
    ensures
        ({
            let before = retain_spec(count, cap, candidates.take(k)).0;
            let after = retain_spec(count, cap, candidates.take(k + 1)).0;
            let l = candidates[k].0 as int;
            let r = candidates[k].1 as int;
            &&& (level_occurrences(before, l) < cap && level_occurrences(before, r) < cap) ==> after
                == before.push(candidates[k])
            &&& !(level_occurrences(before, l) < cap && level_occurrences(before, r) < cap) ==> after
                == before
        }),
{
    lemma_prefix_in_range(count, candidates, k);
    lemma_prefix_in_range(count, candidates, k + 1);
    let prefix = candidates.take(k);
    assert(candidates.take(k + 1).drop_last() =~= prefix);
    assert(candidates.take(k + 1).last() == candidates[k]);
    lemma_retention_degree_counts_kept(count, cap, prefix, candidates[k].0 as int);
    lemma_retention_degree_counts_kept(count, cap, prefix, candidates[k].1 as int);
}

/// Keep candidates in order while both levels have fewer than `cap` kept
/// candidates; returns the kept list and the final per-level degrees.
pub fn retain_by_degree(count: usize, cap: usize, candidates: &Vec<(u32, u32)>) -> (r: (Vec<(u32, u32)>, Vec<usize>))
    requires
        candidates_in_range(count as nat, candidates@),
    ensures
        r.0@ == retain_spec(count as nat, cap as nat, candidates@).0,
        r.1@.len() == count,
        forall|i: int| 0 <= i < count ==> #[trigger] r.1@[i] == retain_spec(count as nat, cap as nat, candidates@).1[i],
        forall|i: int| 0 <= i < count ==> #[trigger] r.1@[i] <= cap,
        forall|i: int| 0 <= i < count ==> #[trigger] r.1@[i] == level_occurrences(r.0@, i),
        candidates_in_range(count as nat, r.0@),
{
    let mut degrees: Vec<usize> = Vec::new();
    let mut i: usize = 0;
    while i < count
        invariant
            i <= count,
            degrees@.len() == i,
            forall|j: int| 0 <= j < i ==> degrees@[j] == 0,
        decreases count - i,
    {
        degrees.push(0);
        i += 1;
    }
    let mut kept: Vec<(u32, u32)> = Vec::new();
    let mut k: usize = 0;
    while k < candidates.len()
        invariant
            k <= candidates.len(),
            candidates_in_range(count as nat, candidates@),
            degrees@.len() == count,
            kept@ == retain_spec(count as nat, cap as nat, candidates@.take(k as int)).0,
            forall|j: int| 0 <= j < count ==> #[trigger] degrees@[j] == retain_spec(count as nat, cap as nat, candidates@.take(k as int)).1[j],
        decreases candidates.len() - k,
    {
        proof {
            let prefix = candidates@.take(k as int);
            assert(candidates@.take(k + 1).drop_last() =~= prefix);
            assert(candidates@.take(k + 1).last() == candidates@[k as int]);
            assert forall|j: int| 0 <= j < prefix.len() implies {
                &&& (#[trigger] prefix[j]).0 < count
                &&& prefix[j].1 < count
                &&& prefix[j].0 != prefix[j].1
            } by {
                assert(prefix[j] == candidates@[j]);
            }
            lemma_retention_respects_cap(count as nat, cap as nat, prefix);
        }
        let (l, r) = candidates[k];
        let left = l as usize;
        let right = r as usize;
        if !(degrees[left] >= cap || degrees[right] >= cap) {
            let dl = degrees[left] + 1;
            degrees.set(left, dl);
            let dr = degrees[right] + 1;
            degrees.set(right, dr);
            kept.push((l, r));
        }
        k += 1;
    }
    proof {
        assert(candidates@.take(k as int) =~= candidates@);
        lemma_retention_respects_cap(count as nat, cap as nat, candidates@);
        assert forall|i: int| 0 <= i < count implies #[trigger] degrees@[i] == level_occurrences(kept@, i) by {
            lemma_retention_degree_counts_kept(count as nat, cap as nat, candidates@, i);
        }
    }
    (kept, degrees)
}

/// Largest entry of a list of counts, or zero when it is empty.
pub fn maximum_count(values: &Vec<usize>) -> (r: usize)
    ensures
        forall|i: int| 0 <= i < values@.len() ==> #[trigger] values@[i] <= r,
        values@.len() == 0 ==> r == 0,
        values@.len() > 0 ==> exists|i: int| 0 <= i < values@.len() && #[trigger] values@[i] == r,
{
    let mut best: usize = 0;
    let mut i: usize = 0;
    while i < values.len()
        invariant
            i <= values.len(),
            forall|j: int| 0 <= j < i ==> #[trigger] values@[j] <= best,
            i == 0 ==> best == 0,
            i > 0 ==> exists|j: int| 0 <= j < i && #[trigger] values@[j] == best,
        decreases values.len() - i,
    {
        if i == 0 || values[i] > best {
            best = values[i];
        }
        i += 1;
    }
    best
}

} // verus!
