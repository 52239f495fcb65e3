//! Timing and principal memory accounting for a supplied-map scheduled hierarchy.
use vstd::prelude::*;
use core::time::Duration;
use crate::error::MultiwayError;
use crate::arith::{sat_add, sat_add_spec, sat_mul, sat_mul_spec};
use crate::memory_estimate::{ProblemLayout, estimate_three_way_problem_bytes, problem_bytes_spec};
use crate::seqsum::{sum_seq, nonnegative, lemma_sum_take_step, lemma_sum_take_all, lemma_sum_prefix_le};

verus! {

/// Build-phase timing for a supplied-map scheduled oracle hierarchy.
///
/// Timings are diagnostics only and are never consumed by routing logic.
#[derive(Debug, Clone, Copy, PartialEq, Eq)]
pub struct ScheduledOracleBuildTiming {
    /// Exact tuple mapping, duplicate collapse, and coarse-problem construction.
    pub coarsening_setup: Duration,
    /// Complete construction time for all level smoothers.
    pub smoother_setup: Duration,
    /// Pair marginal, graph, and component construction within CMG levels.
    pub pair_graph_setup: Duration,
    /// CMG hierarchy/preconditioner construction within CMG levels.
    pub cmg_setup: Duration,
    /// Retained pair RHS, solution, and CMG workspace construction.
    pub pair_workspace_setup: Duration,
    /// Rank-revealing dense terminal construction.
    pub terminal_setup: Duration,
    /// Complete constructor time, including validation and bookkeeping.
    pub total: Duration,
}

impl ScheduledOracleBuildTiming {
    /// Exact tuple mapping, duplicate collapse, and coarse-problem construction.
    pub fn coarsening_setup(self) -> (r: Duration)
        ensures
            r == self.coarsening_setup,
    {
        self.coarsening_setup
    }

    /// Complete construction time for all level smoothers.
    pub fn smoother_setup(self) -> (r: Duration)
        ensures
            r == self.smoother_setup,
    {
        self.smoother_setup
    }

    /// Pair marginal, graph, and component construction within CMG levels.
    pub fn pair_graph_setup(self) -> (r: Duration)
        ensures
            r == self.pair_graph_setup,
    {
        self.pair_graph_setup
    }

    /// CMG hierarchy/preconditioner construction within CMG levels.
    pub fn cmg_setup(self) -> (r: Duration)
        ensures
            r == self.cmg_setup,
    {
        self.cmg_setup
    }

    /// Retained pair RHS, solution, and CMG workspace construction.
    pub fn pair_workspace_setup(self) -> (r: Duration)
        ensures
            r == self.pair_workspace_setup,
    {
        self.pair_workspace_setup
    }

    /// Rank-revealing dense terminal construction.
    pub fn terminal_setup(self) -> (r: Duration)
        ensures
            r == self.terminal_setup,
    {
        self.terminal_setup
    }

    /// Complete constructor time, including validation and bookkeeping.
    pub fn total(self) -> (r: Duration)
        ensures
            r == self.total,
    {
        self.total
    }
}

/// Principal retained and apply-scratch memory accounting for a scheduled
/// oracle hierarchy.
#[derive(Debug, Clone, Copy, PartialEq, Eq)]
pub struct ScheduledOracleMemoryReport {
    /// Estimated immutable weighted-problem bytes across all levels.
    pub problem_state_bytes_estimate: usize,
    /// Exact retained bytes in hard parent maps.
    pub aggregation_bytes: usize,
    /// Estimated non-CMG smoother bytes.
    pub smoother_bytes_estimate: usize,
    /// Exact principal immutable bytes reported by retained CMG pair solvers.
    pub pair_cmg_preconditioner_bytes: usize,
    /// Exact CMG workspace bytes plus explicit pair RHS/solution buffers.
    pub pair_cmg_workspace_bytes: usize,
    /// Dense terminal eigenvector/eigenvalue estimate.
    pub terminal_bytes_estimate: usize,
    /// Sum of principal retained categories.
    pub total_retained_bytes_estimate: usize,
    /// Conservative peak temporary vector bytes for one serial application.
    pub maximum_apply_scratch_bytes_estimate: usize,
}

impl ScheduledOracleMemoryReport {
    /// Estimated immutable weighted-problem bytes across all levels.
    pub fn problem_state_bytes_estimate(self) -> (r: usize)
        ensures
            r == self.problem_state_bytes_estimate,
    {
        self.problem_state_bytes_estimate
    }

    /// Exact retained bytes in hard parent maps.
    pub fn aggregation_bytes(self) -> (r: usize)
        ensures
            r == self.aggregation_bytes,
    {
        self.aggregation_bytes
    }

    /// Estimated non-CMG smoother bytes.
    pub fn smoother_bytes_estimate(self) -> (r: usize)
        ensures
            r == self.smoother_bytes_estimate,
    {
        self.smoother_bytes_estimate
    }

    /// Exact principal immutable bytes reported by retained CMG pair solvers.
    pub fn pair_cmg_preconditioner_bytes(self) -> (r: usize)
        ensures
            r == self.pair_cmg_preconditioner_bytes,
    {
        self.pair_cmg_preconditioner_bytes
    }

    /// Exact CMG workspace bytes plus explicit pair RHS/solution buffers.
    pub fn pair_cmg_workspace_bytes(self) -> (r: usize)
        ensures
            r == self.pair_cmg_workspace_bytes,
    {
        self.pair_cmg_workspace_bytes
    }

    /// Dense terminal eigenvector/eigenvalue estimate.
    pub fn terminal_bytes_estimate(self) -> (r: usize)
        ensures
            r == self.terminal_bytes_estimate,
    {
        self.terminal_bytes_estimate
    }

    /// Sum of principal retained categories.
    pub fn total_retained_bytes_estimate(self) -> (r: usize)
        ensures
            r == self.total_retained_bytes_estimate,
    {
        self.total_retained_bytes_estimate
    }

    /// Conservative peak temporary vector bytes for one serial application.
    pub fn maximum_apply_scratch_bytes_estimate(self) -> (r: usize)
        ensures
            r == self.maximum_apply_scratch_bytes_estimate,
    {
        self.maximum_apply_scratch_bytes_estimate
    }
}

/// The memory-relevant description of one level's fixed smoother.
#[derive(Debug, Clone, Copy, PartialEq, Eq, Structural)]
pub enum LevelSmootherAccounting {
    /// Weighted Jacobi: one retained inverse diagonal of the level dimension.
    Jacobi,
    /// Symmetric MAP: shares the level problem, retains nothing of its own.
    SymmetricMap,
    /// All-pair CMG with the byte counts its pair solvers report.
    AllPairsCmg {
        /// Principal immutable CMG preconditioner bytes.
        cmg_preconditioner_bytes: usize,
        /// CMG workspace plus pair RHS/solution buffer bytes.
        pair_workspace_bytes: usize,
    },
}

/// Per-level problem-state estimates.
pub open spec fn problem_state_terms(problems: Seq<ProblemLayout>) -> Seq<int> {
    Seq::new(problems.len(), |i: int| problem_bytes_spec(problems[i]))
}

/// Per-level non-CMG smoother estimates.
pub open spec fn smoother_terms(problems: Seq<ProblemLayout>, smoothers: Seq<LevelSmootherAccounting>) -> Seq<int> {
    Seq::new(
        smoothers.len(),
        |i: int|
            match smoothers[i] {
                LevelSmootherAccounting::Jacobi => sat_mul_spec(problems[i].dimension as int, 8),
                _ => 0,
            },
    )
}

/// Per-level CMG preconditioner bytes.
pub open spec fn cmg_preconditioner_terms(smoothers: Seq<LevelSmootherAccounting>) -> Seq<int> {
    Seq::new(
        smoothers.len(),
        |i: int|
            match smoothers[i] {
                LevelSmootherAccounting::AllPairsCmg { cmg_preconditioner_bytes, .. } => cmg_preconditioner_bytes as int,
                _ => 0,
            },
    )
}

/// Per-level CMG workspace bytes.
pub open spec fn cmg_workspace_terms(smoothers: Seq<LevelSmootherAccounting>) -> Seq<int> {
    Seq::new(
        smoothers.len(),
        |i: int|
            match smoothers[i] {
                LevelSmootherAccounting::AllPairsCmg { pair_workspace_bytes, .. } => pair_workspace_bytes as int,
                _ => 0,
            },
    )
}

/// Per-level serial-application scratch: seven vectors of eight-byte values.
pub open spec fn scratch_terms(problems: Seq<ProblemLayout>) -> Seq<int> {
    Seq::new(problems.len(), |i: int| sat_mul_spec(sat_mul_spec(problems[i].dimension as int, 7), 8))
}

/// Retained parent-map bytes of each aggregation.
pub open spec fn usize_terms(values: Seq<usize>) -> Seq<int> {
    Seq::new(values.len(), |i: int| values[i] as int)
}

/// Dense terminal estimate: `d (d + 1)` eight-byte values for terminal dimension `d`.
pub open spec fn terminal_spec(problems: Seq<ProblemLayout>) -> int {
    let d = if problems.len() == 0 { 0 } else { problems.last().dimension as int };
    sat_mul_spec(sat_mul_spec(d, sat_add_spec(d, 1)), 8)
}

/// Whether the plain (non-saturating) category sums are representable.
pub open spec fn memory_sums_fit(
    problems: Seq<ProblemLayout>,
    aggregation_bytes: Seq<usize>,
    smoothers: Seq<LevelSmootherAccounting>,
) -> bool {
    &&& sum_seq(problem_state_terms(problems)) <= usize::MAX
    &&& sum_seq(usize_terms(aggregation_bytes)) <= usize::MAX
    &&& sum_seq(smoother_terms(problems, smoothers)) <= usize::MAX
    &&& sum_seq(cmg_preconditioner_terms(smoothers)) <= usize::MAX
    &&& sum_seq(cmg_workspace_terms(smoothers)) <= usize::MAX
    &&& sum_seq(scratch_terms(problems)) <= usize::MAX
}

/// Principal retained and apply-scratch accounting for levels `problems`, hard
/// maps with `aggregation_bytes` each, and one smoother per nonterminal level.
///
/// Categories are plain sums; the total and the per-level terms saturate.
pub fn memory_report(
    problems: &Vec<ProblemLayout>,
    aggregation_bytes: &Vec<usize>,
    smoothers: &Vec<LevelSmootherAccounting>,
) -> (r: ScheduledOracleMemoryReport)
    requires
        smoothers.len() <= problems.len(),
        memory_sums_fit(problems@, aggregation_bytes@, smoothers@),
    ensures
        r.problem_state_bytes_estimate == sum_seq(problem_state_terms(problems@)),
        r.aggregation_bytes == sum_seq(usize_terms(aggregation_bytes@)),
        r.smoother_bytes_estimate == sum_seq(smoother_terms(problems@, smoothers@)),
        r.pair_cmg_preconditioner_bytes == sum_seq(cmg_preconditioner_terms(smoothers@)),
        r.pair_cmg_workspace_bytes == sum_seq(cmg_workspace_terms(smoothers@)),
        r.terminal_bytes_estimate == terminal_spec(problems@),
        r.total_retained_bytes_estimate == sat_add_spec(
            sat_add_spec(
                sat_add_spec(
                    sat_add_spec(
                        sat_add_spec(r.problem_state_bytes_estimate as int, r.aggregation_bytes as int),
                        r.smoother_bytes_estimate as int,
                    ),
                    r.pair_cmg_preconditioner_bytes as int,
                ),
                r.pair_cmg_workspace_bytes as int,
            ),
            r.terminal_bytes_estimate as int,
        ),
        r.maximum_apply_scratch_bytes_estimate == sum_seq(scratch_terms(problems@)),
{
    let ghost state_terms = problem_state_terms(problems@);
    let ghost scratch = scratch_terms(problems@);
    let mut problem_state: usize = 0;
    let mut apply_scratch: usize = 0;
    let mut i: usize = 0;
    while i < problems.len()
        invariant
            i <= problems.len(),
            state_terms == problem_state_terms(problems@),
            scratch == scratch_terms(problems@),
            sum_seq(state_terms) <= usize::MAX,
            sum_seq(scratch) <= usize::MAX,
            problem_state == sum_seq(state_terms.take(i as int)),
            apply_scratch == sum_seq(scratch.take(i as int)),
        decreases problems.len() - i,
    {
        proof {
            lemma_sum_take_step(state_terms, i as int);
            lemma_sum_take_step(scratch, i as int);
            assert(nonnegative(state_terms));
            assert(nonnegative(scratch));
            lemma_sum_prefix_le(state_terms, i + 1);
            lemma_sum_prefix_le(scratch, i + 1);
        }
        problem_state = problem_state + estimate_three_way_problem_bytes(&problems[i]);
        apply_scratch = apply_scratch + sat_mul(sat_mul(problems[i].dimension, 7), 8);
        i += 1;
    }
    proof {
        lemma_sum_take_all(state_terms);
        lemma_sum_take_all(scratch);
    }
    let ghost map_terms = usize_terms(aggregation_bytes@);
    let mut maps: usize = 0;
    let mut j: usize = 0;
    while j < aggregation_bytes.len()
        invariant
            j <= aggregation_bytes.len(),
            map_terms == usize_terms(aggregation_bytes@),
            sum_seq(map_terms) <= usize::MAX,
            maps == sum_seq(map_terms.take(j as int)),
        decreases aggregation_bytes.len() - j,
    {
        proof {
            lemma_sum_take_step(map_terms, j as int);
            assert(nonnegative(map_terms));
            lemma_sum_prefix_le(map_terms, j + 1);
        }
        maps = maps + aggregation_bytes[j];
        j += 1;
    }
    proof {
        lemma_sum_take_all(map_terms);
    }
    let ghost smoother_t = smoother_terms(problems@, smoothers@);
    let ghost pre_t = cmg_preconditioner_terms(smoothers@);
    let ghost ws_t = cmg_workspace_terms(smoothers@);
    let mut smoother_bytes: usize = 0;
    let mut pre_bytes: usize = 0;
    let mut ws_bytes: usize = 0;
    let mut k: usize = 0;
    while k < smoothers.len()
        invariant
            k <= smoothers.len(),
            smoothers.len() <= problems.len(),
            smoother_t == smoother_terms(problems@, smoothers@),
            pre_t == cmg_preconditioner_terms(smoothers@),
            ws_t == cmg_workspace_terms(smoothers@),
            sum_seq(smoother_t) <= usize::MAX,
            sum_seq(pre_t) <= usize::MAX,
            sum_seq(ws_t) <= usize::MAX,
            smoother_bytes == sum_seq(smoother_t.take(k as int)),
            pre_bytes == sum_seq(pre_t.take(k as int)),
            ws_bytes == sum_seq(ws_t.take(k as int)),
        decreases smoothers.len() - k,
    {
        proof {
            lemma_sum_take_step(smoother_t, k as int);
            lemma_sum_take_step(pre_t, k as int);
            lemma_sum_take_step(ws_t, k as int);
            assert(nonnegative(smoother_t));
            assert(nonnegative(pre_t));
            assert(nonnegative(ws_t));
            lemma_sum_prefix_le(smoother_t, k + 1);
            lemma_sum_prefix_le(pre_t, k + 1);
            lemma_sum_prefix_le(ws_t, k + 1);
        }
        match smoothers[k] {
            LevelSmootherAccounting::Jacobi => {
                smoother_bytes = smoother_bytes + sat_mul(problems[k].dimension, 8);
            },
            LevelSmootherAccounting::SymmetricMap => {},
            LevelSmootherAccounting::AllPairsCmg { cmg_preconditioner_bytes, pair_workspace_bytes } => {
                pre_bytes = pre_bytes + cmg_preconditioner_bytes;
                ws_bytes = ws_bytes + pair_workspace_bytes;
            },
        }
        k += 1;
    }
    proof {
        lemma_sum_take_all(smoother_t);
        lemma_sum_take_all(pre_t);
        lemma_sum_take_all(ws_t);
    }
    let terminal_dimension = if problems.len() == 0 {
        0
    } else {
        problems[problems.len() - 1].dimension
    };
    let terminal = sat_mul(sat_mul(terminal_dimension, sat_add(terminal_dimension, 1)), 8);
    let total = sat_add(
        sat_add(sat_add(sat_add(sat_add(problem_state, maps), smoother_bytes), pre_bytes), ws_bytes),
        terminal,
    );
    ScheduledOracleMemoryReport {
        problem_state_bytes_estimate: problem_state,
        aggregation_bytes: maps,
        smoother_bytes_estimate: smoother_bytes,
        pair_cmg_preconditioner_bytes: pre_bytes,
        pair_cmg_workspace_bytes: ws_bytes,
        terminal_bytes_estimate: terminal,
        total_retained_bytes_estimate: total,
        maximum_apply_scratch_bytes_estimate: apply_scratch,
    }
}

/// Check the integer shape of a scheduled oracle hierarchy, in order: at least
/// one supplied aggregation, one smoother per aggregation, and a positive
/// sweep count. (The terminal tolerance, a float, is checked after these.)
pub fn validate_schedule_shape(aggregations: usize, smoothers: usize, sweeps: usize) -> (r: Result<(), MultiwayError>)
    ensures
        r is Ok <==> aggregations > 0 && smoothers == aggregations && sweeps > 0,
        aggregations == 0 ==> (r matches Err(MultiwayError::InvalidOption { name, .. }) && name@
            == "oracle_aggregations"@),
        aggregations > 0 && smoothers != aggregations ==> r == Err::<(), MultiwayError>(
            MultiwayError::DimensionMismatch {
                context: "ScheduledOracleHierarchyOptions smoothers",
                expected: aggregations,
                actual: smoothers,
            },
        ),
        aggregations > 0 && smoothers == aggregations && sweeps == 0 ==> (r matches Err(
            MultiwayError::InvalidOption { name, .. },
        ) && name@ == "oracle_sweeps"@),
{
    proof {
        reveal_strlit("oracle_aggregations");
        reveal_strlit("oracle_sweeps");
    }
    if aggregations == 0 {
        return Err(
            MultiwayError::InvalidOption {
                name: "oracle_aggregations",
                message: "at least one supplied aggregation is required",
            },
        );
    }
    if smoothers != aggregations {
        return Err(
            MultiwayError::DimensionMismatch {
                context: "ScheduledOracleHierarchyOptions smoothers",
                expected: aggregations,
                actual: smoothers,
            },
        );
    }
    if sweeps == 0 {
        return Err(MultiwayError::InvalidOption { name: "oracle_sweeps", message: "must be positive" });
    }
    Ok(())
}

/// The first supplied aggregation must coarsen the finest problem: its fine
/// level counts must be the problem's.
pub fn validate_first_aggregation(fine_counts: [usize; 3], level_counts: [usize; 3]) -> (r: Result<(), MultiwayError>)
    ensures
        r is Ok <==> fine_counts@ == level_counts@,
        r is Err ==> r == Err::<(), MultiwayError>(MultiwayError::InvalidSuppliedAggregation { level: 0 }),
{
    if fine_counts[0] != level_counts[0] || fine_counts[1] != level_counts[1] || fine_counts[2] != level_counts[2] {
        assert(fine_counts@ != level_counts@);
        return Err(MultiwayError::InvalidSuppliedAggregation { level: 0 });
    }
    assert(fine_counts@ =~= level_counts@);
    Ok(())
}

} // verus!
