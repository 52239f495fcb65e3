//! Deterministic bootstrap aggregation: candidate retention, matching,
//! canonical parents, setup-vector seeding and work accounting.
use vstd::prelude::*;
use vstd::wrapping::u64_specs::{wrapping_add, wrapping_mul};
use crate::arith::{sat_add, sat_add_spec, sat_mul, sat_mul_spec};
use crate::matching::{
    candidates_in_range, canonical_parents, canonical_parents_spec, greedy_matching, greedy_spec,
    maximum_count, retain_by_degree, retain_spec,
};
use crate::scratch::VALUE_BYTES;
use crate::seqsum::{
    sum_seq, sat_sum, nonnegative, lemma_sum_take_step, lemma_sum_prefix_le, lemma_sat_sum_take_step,
    lemma_sat_sum_le,
};

verus! {

/// The SplitMix64 output function, over wrapping 64-bit arithmetic.
pub open spec fn splitmix64_spec(value: u64) -> u64 {
    let a = wrapping_add(value, 0x9e37_79b9_7f4a_7c15u64);
    let b = wrapping_mul(a ^ (a >> 30u64), 0xbf58_476d_1ce4_e5b9u64);
    let c = wrapping_mul(b ^ (b >> 27u64), 0x94d0_49bb_1331_11ebu64);
    c ^ (c >> 31u64)
}

/// One step of the SplitMix64 generator that seeds deterministic setup vectors.
pub fn splitmix64(value: u64) -> (r: u64)
    ensures
        r == splitmix64_spec(value),
{
    let a = value.wrapping_add(0x9e37_79b9_7f4a_7c15);
    let b = (a ^ (a >> 30)).wrapping_mul(0xbf58_476d_1ce4_e5b9);
    let c = (b ^ (b >> 27)).wrapping_mul(0x94d0_49bb_1331_11eb);
    c ^ (c >> 31)
}

/// The seed of setup vector `index`: the base seed mixed with a Weyl step.
pub open spec fn vector_seed_spec(seed: u64, index: u64) -> u64 {
    seed ^ wrapping_mul(index, 0x9e37_79b9_7f4a_7c15u64)
}

/// Seed of the deterministic setup vector `index` for base seed `seed`.
pub fn vector_seed(seed: u64, index: u64) -> (r: u64)
    ensures
        r == vector_seed_spec(seed, index),
{
    seed ^ index.wrapping_mul(0x9e37_79b9_7f4a_7c15)
}

/// The states a setup vector of `length` values draws from: `length`
/// successive SplitMix64 outputs starting from `seed`.
pub open spec fn splitmix_stream(seed: u64, length: nat) -> Seq<u64>
    decreases length,
{
    if length == 0 {
        Seq::empty()
    } else {
        let prefix = splitmix_stream(seed, (length - 1) as nat);
        let previous = if length == 1 { seed } else { prefix.last() };
        prefix.push(splitmix64_spec(previous))
    }
}

/// The successive generator states used to fill `length` deterministic values.
pub fn splitmix_states(seed: u64, length: usize) -> (r: Vec<u64>)
    ensures
        r@ == splitmix_stream(seed, length as nat),
{
    let mut out: Vec<u64> = Vec::new();
    let mut state = seed;
    let mut i: usize = 0;
    while i < length
        invariant
            i <= length,
            out@ == splitmix_stream(seed, i as nat),
            i == 0 ==> state == seed,
            i > 0 ==> state == out@.last(),
        decreases length - i,
    {
        state = splitmix64(state);
        out.push(state);
        i += 1;
    }
    out
}

/// Hard maps proposed by one matching round, one parent array per factor.
pub struct FactorMatching {
    /// Parent ids of the three factors' levels.
    pub parents: Vec<Vec<u32>>,
    /// Candidates kept after degree pruning, over all factors.
    pub retained: usize,
    /// Largest kept same-factor candidate degree.
    pub maximum_degree: usize,
}

/// The candidates of one factor, in their scored order.
pub open spec fn factor_candidates(scored: Seq<(usize, u32, u32)>, factor: int) -> Seq<(u32, u32)>
    decreases scored.len(),
{
    if scored.len() == 0 {
        Seq::empty()
    } else {
        let rest = factor_candidates(scored.drop_last(), factor);
        let (f, l, r) = scored.last();
        if f == factor { rest.push((l, r)) } else { rest }
    }
}

/// Parents of one factor: degree-capped retention, greedy matching, canonical numbering.
pub open spec fn factor_parents_spec(count: nat, cap: nat, candidates: Seq<(u32, u32)>) -> Seq<u32> {
    canonical_parents_spec(greedy_spec(count, retain_spec(count, cap, candidates).0))
}

/// Whether every scored candidate names a factor below three and two distinct
/// levels of that factor.
pub open spec fn scored_in_range(counts: Seq<usize>, scored: Seq<(usize, u32, u32)>) -> bool {
    forall|k: int|
        0 <= k < scored.len() ==> {
            &&& (#[trigger] scored[k]).0 < 3
            &&& scored[k].1 < counts[scored[k].0 as int]
            &&& scored[k].2 < counts[scored[k].0 as int]
            &&& scored[k].1 != scored[k].2
        }
}

proof fn lemma_factor_candidates_in_range(counts: Seq<usize>, scored: Seq<(usize, u32, u32)>, factor: int)
    requires
        counts.len() == 3,
        0 <= factor < 3,
        scored_in_range(counts, scored),
    ensures
        candidates_in_range(counts[factor] as nat, factor_candidates(scored, factor)),
        factor_candidates(scored, factor).len() <= scored.len(),
    decreases scored.len(),
{
    if scored.len() > 0 {
        let prefix = scored.drop_last();
        assert forall|k: int| 0 <= k < prefix.len() implies {
            &&& (#[trigger] prefix[k]).0 < 3
            &&& prefix[k].1 < counts[prefix[k].0 as int]
            &&& prefix[k].2 < counts[prefix[k].0 as int]
            &&& prefix[k].1 != prefix[k].2
        } by {
            assert(prefix[k] == scored[k]);
        }
        lemma_factor_candidates_in_range(counts, prefix, factor);
        assert(scored.last() == scored[scored.len() - 1]);
    }
}

proof fn lemma_factor_candidates_partition(scored: Seq<(usize, u32, u32)>)
    requires
        forall|k: int| 0 <= k < scored.len() ==> (#[trigger] scored[k]).0 < 3,
    ensures
        factor_candidates(scored, 0).len() + factor_candidates(scored, 1).len()
            + factor_candidates(scored, 2).len() == scored.len(),
    decreases scored.len(),
{
    if scored.len() > 0 {
        let prefix = scored.drop_last();
        assert forall|k: int| 0 <= k < prefix.len() implies (#[trigger] prefix[k]).0 < 3 by {
            assert(prefix[k] == scored[k]);
        }
        lemma_factor_candidates_partition(prefix);
        assert(scored.last() == scored[scored.len() - 1]);
    }
}

/// Candidates kept for factor `g`.
pub open spec fn kept_len(counts: Seq<usize>, cap: nat, scored: Seq<(usize, u32, u32)>, g: int) -> nat {
    retain_spec(counts[g] as nat, cap, factor_candidates(scored, g)).0.len()
}

/// Candidates kept for factors below `f`.
pub open spec fn kept_upto(counts: Seq<usize>, cap: nat, scored: Seq<(usize, u32, u32)>, f: int) -> nat
    decreases f,
{
    if f <= 0 { 0 } else { kept_upto(counts, cap, scored, f - 1) + kept_len(counts, cap, scored, f - 1) }
}

/// Candidates of factors `f..3`.
pub open spec fn candidates_from(scored: Seq<(usize, u32, u32)>, f: int) -> nat
    decreases 3 - f,
{
    if f >= 3 { 0 } else { factor_candidates(scored, f).len() + candidates_from(scored, f + 1) }
}

/// Split the scored list into one factor's candidates, keeping their order.
pub fn select_factor(scored: &Vec<(usize, u32, u32)>, factor: usize) -> (r: Vec<(u32, u32)>)
    ensures
        r@ == factor_candidates(scored@, factor as int),
{
    let mut out: Vec<(u32, u32)> = Vec::new();
    let mut k: usize = 0;
    while k < scored.len()
        invariant
            k <= scored.len(),
            out@ == factor_candidates(scored@.take(k as int), factor as int),
        decreases scored.len() - k,
    {
        proof {
            assert(scored@.take(k + 1).drop_last() =~= scored@.take(k as int));
            assert(scored@.take(k + 1).last() == scored@[k as int]);
        }
        let (f, l, r) = scored[k];
        if f == factor {
            out.push((l, r));
        }
        k += 1;
    }
    assert(scored@.take(k as int) =~= scored@);
    out
}

/// Build the hard maps of one round from candidates sorted by descending
/// score (ties broken by factor and level ids).
///
/// Per factor, candidates are kept while both levels have fewer than
/// `maximum_candidate_degree` kept candidates, matched greedily and numbered
/// canonically. Retention depends only on same-factor degrees, so the scored
/// list is processed factor by factor in its given order. The reported
/// maximum degree is the largest kept degree of any level (zero when nothing
/// is kept), and the retained count never exceeds the scored candidates.
pub fn build_matching(
    counts: [usize; 3],
    maximum_candidate_degree: usize,
    scored: &Vec<(usize, u32, u32)>,
) -> (r: FactorMatching)
    requires
        scored_in_range(counts@, scored@),
        forall|f: int| 0 <= f < 3 ==> counts@[f] <= u32::MAX,
    ensures
        r.parents@.len() == 3,
        forall|f: int| 0 <= f < 3 ==> (#[trigger] r.parents@[f])@ == factor_parents_spec(
            counts@[f] as nat,
            maximum_candidate_degree as nat,
            factor_candidates(scored@, f),
        ),
        r.retained == kept_upto(counts@, maximum_candidate_degree as nat, scored@, 3),
        r.retained <= scored@.len(),
        r.maximum_degree <= maximum_candidate_degree,
        forall|f: int, i: int| 0 <= f < 3 && 0 <= i < counts@[f] ==> #[trigger] retain_spec(
            counts@[f] as nat,
            maximum_candidate_degree as nat,
            factor_candidates(scored@, f),
        ).1[i] <= r.maximum_degree,
        r.maximum_degree == 0 || exists|f: int, i: int|
            0 <= f < 3 && 0 <= i < counts@[f] && #[trigger] retain_spec(
                counts@[f] as nat,
                maximum_candidate_degree as nat,
                factor_candidates(scored@, f),
            ).1[i] == r.maximum_degree,
{
    proof {
        assert forall|k: int| 0 <= k < scored@.len() implies (#[trigger] scored@[k]).0 < 3 by {}
        lemma_factor_candidates_partition(scored@);
        reveal_with_fuel(candidates_from, 4);
    }
    let mut parents: Vec<Vec<u32>> = Vec::new();
    let mut retained: usize = 0;
    let mut maximum_degree: usize = 0;
    let mut f: usize = 0;
    while f < 3
        invariant
            f <= 3,
            scored_in_range(counts@, scored@),
            forall|g: int| 0 <= g < 3 ==> counts@[g] <= u32::MAX,
            parents@.len() == f,
            forall|g: int| 0 <= g < f ==> (#[trigger] parents@[g])@ == factor_parents_spec(
                counts@[g] as nat,
                maximum_candidate_degree as nat,
                factor_candidates(scored@, g),
            ),
            retained + candidates_from(scored@, f as int) <= scored@.len(),
            retained == kept_upto(counts@, maximum_candidate_degree as nat, scored@, f as int),
            maximum_degree <= maximum_candidate_degree,
            forall|g: int, i: int| 0 <= g < f && 0 <= i < counts@[g] ==> #[trigger] retain_spec(
                counts@[g] as nat,
                maximum_candidate_degree as nat,
                factor_candidates(scored@, g),
            ).1[i] <= maximum_degree,
            maximum_degree == 0 || exists|g: int, i: int|
                0 <= g < f && 0 <= i < counts@[g] && #[trigger] retain_spec(
                    counts@[g] as nat,
                    maximum_candidate_degree as nat,
                    factor_candidates(scored@, g),
                ).1[i] == maximum_degree,
        decreases 3 - f,
    {
        let count = counts[f];
        proof {
            lemma_factor_candidates_in_range(counts@, scored@, f as int);
        }
        let candidates = select_factor(scored, f);
        let (kept, degrees) = retain_by_degree(count, maximum_candidate_degree, &candidates);
        proof {
            crate::matching::lemma_retention_respects_cap(count as nat, maximum_candidate_degree as nat, candidates@);
        }
        let mates = greedy_matching(count, &kept);
        let factor_parents = canonical_parents(&mates);
        let degree = maximum_count(&degrees);
        let ghost previous_maximum = maximum_degree;
        if degree > maximum_degree {
            maximum_degree = degree;
        }
        proof {
            if degrees@.len() > 0 {
                let j = choose|j: int| 0 <= j < degrees@.len() && #[trigger] degrees@[j] == degree;
                assert(degrees@[j] <= maximum_candidate_degree);
                if degree > previous_maximum {
                    assert(retain_spec(
                        counts@[f as int] as nat,
                        maximum_candidate_degree as nat,
                        factor_candidates(scored@, f as int),
                    ).1[j] == maximum_degree);
                }
            }
            if maximum_degree != 0 && maximum_degree == previous_maximum {
                let (g, i) = choose|g: int, i: int|
                    0 <= g < f && 0 <= i < counts@[g] && #[trigger] retain_spec(
                        counts@[g] as nat,
                        maximum_candidate_degree as nat,
                        factor_candidates(scored@, g),
                    ).1[i] == previous_maximum;
                assert(0 <= g < f + 1 && 0 <= i < counts@[g] && retain_spec(
                    counts@[g] as nat,
                    maximum_candidate_degree as nat,
                    factor_candidates(scored@, g),
                ).1[i] == maximum_degree);
            }
            assert forall|g: int, i: int| 0 <= g < f + 1 && 0 <= i < counts@[g] implies #[trigger] retain_spec(
                counts@[g] as nat,
                maximum_candidate_degree as nat,
                factor_candidates(scored@, g),
            ).1[i] <= maximum_degree by {
                if g == f {
                    assert(degrees@[i] <= degree);
                } else {
                    assert(retain_spec(
                        counts@[g] as nat,
                        maximum_candidate_degree as nat,
                        factor_candidates(scored@, g),
                    ).1[i] <= previous_maximum);
                }
            }
        }
        proof {
            reveal_with_fuel(candidates_from, 2);
            assert(candidates_from(scored@, f as int) == candidates@.len() + candidates_from(scored@, f + 1));
            assert(kept@.len() <= candidates@.len());
            assert(retained + kept@.len() <= scored@.len());
        }
        let total_scored = scored.len();
        assert(retained + kept@.len() <= total_scored);
        retained = retained + kept.len();
        parents.push(factor_parents);
        f += 1;
    }
    FactorMatching { parents, retained, maximum_degree }
}

/// Work counted by one compatible-relaxation screen of a bootstrap round.
#[derive(Debug, Clone, Copy, PartialEq, Eq)]
pub struct RoundWork {
    /// Gramian applications of the screen.
    pub gramian_applications: usize,
    /// Smoother applications of the screen.
    pub smoother_applications: usize,
    /// Principal bytes retained by the round report and its witnesses.
    pub retained_bytes_estimate: usize,
}

/// Work and retained-state diagnostics for a complete bootstrap build.
#[derive(Debug, Clone, Copy, PartialEq, Eq)]
pub struct BootstrapAggregationWorkReport {
    /// Gramian applications used to generate initial range test vectors.
    pub setup_gramian_applications: usize,
    /// Weighted-Jacobi applications used for setup-vector relaxation.
    pub setup_smoother_applications: usize,
    /// Gramian applications used by compatible-relaxation screens.
    pub compatible_gramian_applications: usize,
    /// Smoother applications used by compatible-relaxation screens.
    pub compatible_smoother_applications: usize,
    /// Sum of generated candidate-pair counts across rounds (one matching is
    /// built per round, a final round stopped before its screen included).
    pub candidate_pairs_generated: usize,
    /// Sum of retained candidate-pair counts across rounds, counted alike.
    pub candidate_pairs_retained: usize,
    /// Bytes retained by setup and appended witness vectors.
    pub retained_test_vector_bytes: usize,
    /// Principal bytes retained by round reports and compatible witnesses.
    pub retained_round_report_bytes_estimate: usize,
}

/// Gramian applications of the screened rounds.
pub open spec fn round_gramian_terms(rounds: Seq<RoundWork>) -> Seq<int> {
    Seq::new(rounds.len(), |i: int| rounds[i].gramian_applications as int)
}

/// Smoother applications of the screened rounds.
pub open spec fn round_smoother_terms(rounds: Seq<RoundWork>) -> Seq<int> {
    Seq::new(rounds.len(), |i: int| rounds[i].smoother_applications as int)
}

/// Report bytes of the screened rounds.
pub open spec fn round_bytes_terms(rounds: Seq<RoundWork>) -> Seq<int> {
    Seq::new(rounds.len(), |i: int| rounds[i].retained_bytes_estimate as int)
}

/// Bytes of the retained test vectors with the given capacities.
pub open spec fn vector_bytes_terms(capacities: Seq<usize>) -> Seq<int> {
    Seq::new(capacities.len(), |i: int| sat_mul_spec(capacities[i] as int, VALUE_BYTES as int))
}

/// Generated and retained candidate counts of every matching built, one per
/// round.
pub open spec fn matching_terms(matchings: Seq<(usize, usize)>, retained: bool) -> Seq<int> {
    Seq::new(matchings.len(), |i: int| if retained { matchings[i].1 as int } else { matchings[i].0 as int })
}

/// Whether the plain (non-saturating) sums of the report are representable.
pub open spec fn work_sums_fit(rounds: Seq<RoundWork>, capacities: Seq<usize>) -> bool {
    &&& sum_seq(round_gramian_terms(rounds)) <= usize::MAX
    &&& sum_seq(round_smoother_terms(rounds)) <= usize::MAX
    &&& sum_seq(round_bytes_terms(rounds)) <= usize::MAX
    &&& sum_seq(vector_bytes_terms(capacities)) <= usize::MAX
}

impl BootstrapAggregationWorkReport {
    /// Report of a build with `setup_test_vectors` setup vectors relaxed by
    /// `setup_sweeps` sweeps each, the `(generated, retained)` candidate counts
    /// of every matching built (one per round, the last round included even
    /// where it stopped before its screen), the work of every screened round and the
    /// capacities of all retained test vectors.
    pub fn from_build(
        setup_test_vectors: usize,
        setup_sweeps: usize,
        matchings: &Vec<(usize, usize)>,
        rounds: &Vec<RoundWork>,
        test_vector_capacities: &Vec<usize>,
    ) -> (r: Self)
        requires
            work_sums_fit(rounds@, test_vector_capacities@),
        ensures
            r.setup_gramian_applications == sat_mul_spec(
                setup_test_vectors as int,
                sat_add_spec(setup_sweeps as int, 1),
            ),
            r.setup_smoother_applications == sat_mul_spec(setup_test_vectors as int, setup_sweeps as int),
            r.compatible_gramian_applications == sum_seq(round_gramian_terms(rounds@)),
            r.compatible_smoother_applications == sum_seq(round_smoother_terms(rounds@)),
            r.candidate_pairs_generated == sat_sum(matching_terms(matchings@, false)),
            r.candidate_pairs_retained == sat_sum(matching_terms(matchings@, true)),
            (forall|i: int| 0 <= i < matchings@.len() ==> #[trigger] matchings@[i].1 <= matchings@[i].0)
                ==> r.candidate_pairs_retained <= r.candidate_pairs_generated,
            r.retained_test_vector_bytes == sum_seq(vector_bytes_terms(test_vector_capacities@)),
            r.retained_round_report_bytes_estimate == sum_seq(round_bytes_terms(rounds@)),
    {
        let ghost gen_t = matching_terms(matchings@, false);
        let ghost ret_t = matching_terms(matchings@, true);
        let mut generated: usize = 0;
        let mut retained: usize = 0;
        let mut i: usize = 0;
        while i < matchings.len()
            invariant
                i <= matchings.len(),
                gen_t == matching_terms(matchings@, false),
                ret_t == matching_terms(matchings@, true),
                generated == sat_sum(gen_t.take(i as int)),
                retained == sat_sum(ret_t.take(i as int)),
            decreases matchings.len() - i,
        {
            proof {
                lemma_sat_sum_take_step(gen_t, i as int);
                lemma_sat_sum_take_step(ret_t, i as int);
            }
            generated = sat_add(generated, matchings[i].0);
            retained = sat_add(retained, matchings[i].1);
            i += 1;
        }
        proof {
            assert(gen_t.take(i as int) =~= gen_t);
            assert(ret_t.take(i as int) =~= ret_t);
            if forall|k: int| 0 <= k < matchings@.len() ==> #[trigger] matchings@[k].1 <= matchings@[k].0 {
                assert forall|k: int| 0 <= k < ret_t.len() implies #[trigger] ret_t[k] <= gen_t[k] by {
                    assert(matchings@[k].1 <= matchings@[k].0);
                }
                lemma_sat_sum_le(ret_t, gen_t);
            }
        }
        let ghost g_t = round_gramian_terms(rounds@);
        let ghost s_t = round_smoother_terms(rounds@);
        let ghost b_t = round_bytes_terms(rounds@);
        let mut gramian: usize = 0;
        let mut smoother: usize = 0;
        let mut report_bytes: usize = 0;
        let mut j: usize = 0;
        while j < rounds.len()
            invariant
                j <= rounds.len(),
                g_t == round_gramian_terms(rounds@),
                s_t == round_smoother_terms(rounds@),
                b_t == round_bytes_terms(rounds@),
                work_sums_fit(rounds@, test_vector_capacities@),
                gramian == sum_seq(g_t.take(j as int)),
                smoother == sum_seq(s_t.take(j as int)),
                report_bytes == sum_seq(b_t.take(j as int)),
            decreases rounds.len() - j,
        {
            proof {
                lemma_sum_take_step(g_t, j as int);
                lemma_sum_take_step(s_t, j as int);
                lemma_sum_take_step(b_t, j as int);
                assert(nonnegative(g_t));
                assert(nonnegative(s_t));
                assert(nonnegative(b_t));
                lemma_sum_prefix_le(g_t, j + 1);
                lemma_sum_prefix_le(s_t, j + 1);
                lemma_sum_prefix_le(b_t, j + 1);
            }
            gramian = gramian + rounds[j].gramian_applications;
            smoother = smoother + rounds[j].smoother_applications;
            report_bytes = report_bytes + rounds[j].retained_bytes_estimate;
            j += 1;
        }
        proof {
            assert(g_t.take(j as int) =~= g_t);
            assert(s_t.take(j as int) =~= s_t);
            assert(b_t.take(j as int) =~= b_t);
        }
        let ghost v_t = vector_bytes_terms(test_vector_capacities@);
        let mut vector_bytes: usize = 0;
        let mut k: usize = 0;
        while k < test_vector_capacities.len()
            invariant
                k <= test_vector_capacities.len(),
                v_t == vector_bytes_terms(test_vector_capacities@),
                work_sums_fit(rounds@, test_vector_capacities@),
                vector_bytes == sum_seq(v_t.take(k as int)),
            decreases test_vector_capacities.len() - k,
        {
            proof {
                lemma_sum_take_step(v_t, k as int);
                assert(nonnegative(v_t));
                lemma_sum_prefix_le(v_t, k + 1);
            }
            vector_bytes = vector_bytes + sat_mul(test_vector_capacities[k], VALUE_BYTES);
            k += 1;
        }
        proof {
            assert(v_t.take(k as int) =~= v_t);
        }
        BootstrapAggregationWorkReport {
            setup_gramian_applications: sat_mul(setup_test_vectors, sat_add(setup_sweeps, 1)),
            setup_smoother_applications: sat_mul(setup_test_vectors, setup_sweeps),
            compatible_gramian_applications: gramian,
            compatible_smoother_applications: smoother,
            candidate_pairs_generated: generated,
            candidate_pairs_retained: retained,
            retained_test_vector_bytes: vector_bytes,
            retained_round_report_bytes_estimate: report_bytes,
        }
    }

    /// Gramian applications used to generate initial range test vectors.
    pub fn setup_gramian_applications(self) -> (r: usize)
        ensures
            r == self.setup_gramian_applications,
    {
        self.setup_gramian_applications
    }

    /// Weighted-Jacobi applications used for setup-vector relaxation.
    pub fn setup_smoother_applications(self) -> (r: usize)
        ensures
            r == self.setup_smoother_applications,
    {
        self.setup_smoother_applications
    }

    /// Gramian applications used by compatible-relaxation screens.
    pub fn compatible_gramian_applications(self) -> (r: usize)
        ensures
            r == self.compatible_gramian_applications,
    {
        self.compatible_gramian_applications
    }

    /// Smoother applications used by compatible-relaxation screens.
    pub fn compatible_smoother_applications(self) -> (r: usize)
        ensures
            r == self.compatible_smoother_applications,
    {
        self.compatible_smoother_applications
    }

    /// Sum of generated candidate-pair counts across rounds.
    pub fn candidate_pairs_generated(self) -> (r: usize)
        ensures
            r == self.candidate_pairs_generated,
    {
        self.candidate_pairs_generated
    }

    /// Sum of retained candidate-pair counts across rounds.
    pub fn candidate_pairs_retained(self) -> (r: usize)
        ensures
            r == self.candidate_pairs_retained,
    {
        self.candidate_pairs_retained
    }

    /// Bytes retained by setup and appended witness vectors.
    pub fn retained_test_vector_bytes(self) -> (r: usize)
        ensures
            r == self.retained_test_vector_bytes,
    {
        self.retained_test_vector_bytes
    }

    /// Principal bytes retained by round reports and compatible witnesses.
    pub fn retained_round_report_bytes_estimate(self) -> (r: usize)
        ensures
            r == self.retained_round_report_bytes_estimate,
    {
        self.retained_round_report_bytes_estimate
    }
}

} // verus!
