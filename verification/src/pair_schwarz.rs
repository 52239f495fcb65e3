//! Canonical pair selection and accounting for component-local pair-CMG Schwarz.
use vstd::prelude::*;
use core::time::Duration;
use crate::arith::{sat_add, sat_add_spec, sat_mul, sat_mul_spec};
use crate::error::MultiwayError;
use crate::scratch::VALUE_BYTES;
use crate::seqsum::{sat_sum, max_seq, lemma_sat_sum_take_step, lemma_sum_take_all};

verus! {

/// One of the three factor pairs of a three-way problem.
#[derive(Debug, Clone, Copy, PartialEq, Eq, Structural)]
pub enum FactorPair {
    /// Factors zero and one.
    ZeroOne,
    /// Factors zero and two.
    ZeroTwo,
    /// Factors one and two.
    OneTwo,
}

impl FactorPair {
    /// The two factors of the pair, in increasing order.
    pub fn factors(self) -> (r: (usize, usize))
        ensures
            r.0 < r.1 < 3,
            self is ZeroOne ==> r == (0usize, 1usize),
            self is ZeroTwo ==> r == (0usize, 2usize),
            self is OneTwo ==> r == (1usize, 2usize),
    {
        match self {
            FactorPair::ZeroOne => (0, 1),
            FactorPair::ZeroTwo => (0, 2),
            FactorPair::OneTwo => (1, 2),
        }
    }

    /// All three pairs in canonical order.
    pub fn all() -> (r: Vec<FactorPair>)
        ensures
            r@ == seq![FactorPair::ZeroOne, FactorPair::ZeroTwo, FactorPair::OneTwo],
    {
        vec![FactorPair::ZeroOne, FactorPair::ZeroTwo, FactorPair::OneTwo]
    }
}

/// The pairs of `selected`, once each, in canonical order.
pub open spec fn canonical_pairs_spec(selected: Seq<FactorPair>) -> Seq<FactorPair> {
    seq![FactorPair::ZeroOne, FactorPair::ZeroTwo, FactorPair::OneTwo].filter(
        |p: FactorPair| selected.contains(p),
    )
}

fn contains_pair(selected: &[FactorPair], pair: FactorPair) -> (r: bool)
    ensures
        r == selected@.contains(pair),
{
    let mut i: usize = 0;
    while i < selected.len()
        invariant
            i <= selected.len(),
            forall|j: int| 0 <= j < i ==> selected@[j] != pair,
        decreases selected.len() - i,
    {
        if selected[i] == pair {
            return true;
        }
        i += 1;
    }
    false
}

/// Select pairs in canonical order without duplicates; an empty selection is
/// rejected.
pub fn canonical_selected_pairs(selected: &[FactorPair]) -> (r: Result<Vec<FactorPair>, MultiwayError>)
    ensures
        r matches Ok(v) ==> v@ == canonical_pairs_spec(selected@) && v@.len() > 0,
        r is Err <==> selected@.len() == 0,
        r matches Err(e) ==> e matches MultiwayError::InvalidOption { name, .. } && name@ == "selected_pairs"@,
{
    let all = FactorPair::all();
    let mut out: Vec<FactorPair> = Vec::new();
    let mut i: usize = 0;
    while i < 3
        invariant
            i <= 3,
            all@ == seq![FactorPair::ZeroOne, FactorPair::ZeroTwo, FactorPair::OneTwo],
            out@ == all@.take(i as int).filter(|p: FactorPair| selected@.contains(p)),
        decreases 3 - i,
    {
        let pair = all[i];
        proof {
            reveal_with_fuel(Seq::<_>::filter, 1);
            assert(all@.take(i + 1).drop_last() =~= all@.take(i as int));
        }
        if contains_pair(selected, pair) {
            out.push(pair);
        }
        i += 1;
    }
    proof {
        assert(all@.take(3) =~= all@);
    }
    if out.len() == 0 {
        proof {
            if selected@.len() > 0 {
                let p = selected@[0];
                assert(selected@.contains(p));
                reveal_with_fuel(Seq::<_>::filter, 4);
                assert(all@.drop_last().drop_last().drop_last() =~= Seq::<FactorPair>::empty());
                match p {
                    FactorPair::ZeroOne => {},
                    FactorPair::ZeroTwo => {},
                    FactorPair::OneTwo => {},
                }
                assert(canonical_pairs_spec(selected@).len() > 0);
            }
            reveal_strlit("selected_pairs");
        }
        return Err(MultiwayError::InvalidOption {
            name: "selected_pairs",
            message: "at least one factor pair must be selected",
        });
    }
    proof {
        if selected@.len() == 0 {
            reveal_with_fuel(Seq::<_>::filter, 4);
            assert(all@.drop_last().drop_last().drop_last() =~= Seq::<FactorPair>::empty());
        }
    }
    Ok(out)
}

/// Phase-separated setup time for a component-local pair-CMG Schwarz build.
#[derive(Debug, Clone, Copy, PartialEq, Eq)]
pub struct PairCmgSchwarzBuildTiming {
    /// Pair marginal accumulation, graph construction, and component splitting.
    pub pair_graph_setup: Duration,
    /// Sum of immutable CMG hierarchy construction times.
    pub cmg_setup: Duration,
    /// Sum of retained CMG workspace construction times.
    pub workspace_setup: Duration,
    /// Subdomain-entry validation and generic Schwarz executor construction.
    pub schwarz_setup: Duration,
    /// Complete constructor wall time, including validation and bookkeeping.
    pub total: Duration,
}

impl PairCmgSchwarzBuildTiming {
    /// Pair marginal accumulation, graph construction, and component splitting.
    pub fn pair_graph_setup(self) -> (r: Duration)
        ensures
            r == self.pair_graph_setup,
    {
        self.pair_graph_setup
    }

    /// Sum of immutable CMG hierarchy construction times.
    pub fn cmg_setup(self) -> (r: Duration)
        ensures
            r == self.cmg_setup,
    {
        self.cmg_setup
    }

    /// Sum of retained CMG workspace construction times.
    pub fn workspace_setup(self) -> (r: Duration)
        ensures
            r == self.workspace_setup,
    {
        self.workspace_setup
    }

    /// Subdomain-entry validation and generic Schwarz executor construction.
    pub fn schwarz_setup(self) -> (r: Duration)
        ensures
            r == self.schwarz_setup,
    {
        self.schwarz_setup
    }

    /// Complete constructor wall time, including validation and bookkeeping.
    pub fn total(self) -> (r: Duration)
        ensures
            r == self.total,
    {
        self.total
    }
}

/// What the CMG backend reports for one connected pair component.
#[derive(Debug, Clone, Copy, PartialEq, Eq)]
pub struct PairComponentAccounting {
    /// Factor pair containing this component.
    pub pair: FactorPair,
    /// Zero-based component label within the factor-pair graph.
    pub component: usize,
    /// Number of local coefficient vertices.
    pub vertices: usize,
    /// Number of unique positive-weight pair edges.
    pub edges: usize,
    /// Number of retained CMG hierarchy levels.
    pub cmg_levels: usize,
    /// Principal immutable bytes reported by CMG.
    pub cmg_retained_bytes: usize,
    /// Bytes in the preallocated reusable CMG workspace.
    pub cmg_workspace_bytes: usize,
}

/// Structural description of one connected pair component.
#[derive(Debug, Clone, Copy, PartialEq, Eq)]
pub struct PairComponentReport {
    /// Factor pair containing this component.
    pub pair: FactorPair,
    /// Zero-based component label within the factor-pair graph.
    pub component: usize,
    /// Number of local coefficient vertices.
    pub vertices: usize,
    /// Number of unique positive-weight pair edges.
    pub edges: usize,
    /// Graph cycle excess `edges - vertices + 1` for this connected component.
    pub cycle_excess: usize,
    /// Number of retained CMG hierarchy levels.
    pub cmg_levels: usize,
    /// Principal immutable bytes reported by CMG.
    pub cmg_retained_bytes: usize,
    /// Bytes in the preallocated reusable CMG workspace.
    pub cmg_workspace_bytes: usize,
    /// Length required for each of the two generic Schwarz local scratch arrays.
    pub local_scratch_values: usize,
}

impl PairComponentReport {
    /// Factor pair containing this component.
    pub fn pair(self) -> (r: FactorPair)
        ensures
            r == self.pair,
    {
        self.pair
    }

    /// Zero-based component label within the factor-pair graph.
    pub fn component(self) -> (r: usize)
        ensures
            r == self.component,
    {
        self.component
    }

    /// Number of local coefficient vertices.
    pub fn vertices(self) -> (r: usize)
        ensures
            r == self.vertices,
    {
        self.vertices
    }

    /// Number of unique positive-weight pair edges.
    pub fn edges(self) -> (r: usize)
        ensures
            r == self.edges,
    {
        self.edges
    }

    /// Graph cycle excess `edges - vertices + 1` for this connected component.
    pub fn cycle_excess(self) -> (r: usize)
        ensures
            r == self.cycle_excess,
    {
        self.cycle_excess
    }

    /// Number of retained CMG hierarchy levels.
    pub fn cmg_levels(self) -> (r: usize)
        ensures
            r == self.cmg_levels,
    {
        self.cmg_levels
    }

    /// Principal immutable bytes reported by CMG.
    pub fn cmg_retained_bytes(self) -> (r: usize)
        ensures
            r == self.cmg_retained_bytes,
    {
        self.cmg_retained_bytes
    }

    /// Bytes in the preallocated reusable CMG workspace.
    pub fn cmg_workspace_bytes(self) -> (r: usize)
        ensures
            r == self.cmg_workspace_bytes,
    {
        self.cmg_workspace_bytes
    }

    /// Length required for each of the two generic Schwarz local scratch arrays.
    pub fn local_scratch_values(self) -> (r: usize)
        ensures
            r == self.local_scratch_values,
    {
        self.local_scratch_values
    }
}

/// Principal retained-state and scratch accounting for pair-CMG Schwarz.
#[derive(Debug, Clone, Copy, PartialEq, Eq)]
pub struct PairCmgSchwarzMemoryReport {
    /// Estimated immutable three-way problem bytes shared by the adapter.
    pub problem_state_bytes_estimate: usize,
    /// Sum of principal immutable bytes reported by component CMG objects.
    pub cmg_preconditioner_bytes: usize,
    /// Sum of bytes in one preallocated CMG workspace per component.
    pub cmg_workspace_pool_bytes: usize,
    /// Conservative estimate for global indices and partition weights.
    pub subdomain_metadata_bytes_estimate: usize,
    /// Retained allocation-free structural-range projection workspace.
    pub projection_workspace_bytes: usize,
    /// Sum of the reported principal retained categories.
    pub total_retained_bytes_estimate: usize,
    /// Two local value scratch arrays at the largest component size.
    pub maximum_local_scratch_bytes_per_worker: usize,
}

impl PairCmgSchwarzMemoryReport {
    /// Estimated immutable three-way problem bytes shared by the adapter.
    pub fn problem_state_bytes_estimate(self) -> (r: usize)
        ensures
            r == self.problem_state_bytes_estimate,
    {
        self.problem_state_bytes_estimate
    }

    /// Sum of principal immutable bytes reported by component CMG objects.
    pub fn cmg_preconditioner_bytes(self) -> (r: usize)
        ensures
            r == self.cmg_preconditioner_bytes,
    {
        self.cmg_preconditioner_bytes
    }

    /// Sum of bytes in one preallocated CMG workspace per component.
    pub fn cmg_workspace_pool_bytes(self) -> (r: usize)
        ensures
            r == self.cmg_workspace_pool_bytes,
    {
        self.cmg_workspace_pool_bytes
    }

    /// Conservative estimate for global indices and partition weights.
    pub fn subdomain_metadata_bytes_estimate(self) -> (r: usize)
        ensures
            r == self.subdomain_metadata_bytes_estimate,
    {
        self.subdomain_metadata_bytes_estimate
    }

    /// Retained allocation-free structural-range projection workspace.
    pub fn projection_workspace_bytes(self) -> (r: usize)
        ensures
            r == self.projection_workspace_bytes,
    {
        self.projection_workspace_bytes
    }

    /// Sum of the reported principal retained categories.
    pub fn total_retained_bytes_estimate(self) -> (r: usize)
        ensures
            r == self.total_retained_bytes_estimate,
    {
        self.total_retained_bytes_estimate
    }

    /// Two local value scratch arrays at the largest component size.
    pub fn maximum_local_scratch_bytes_per_worker(self) -> (r: usize)
        ensures
            r == self.maximum_local_scratch_bytes_per_worker,
    {
        self.maximum_local_scratch_bytes_per_worker
    }
}

/// Scratch values one component needs: its vertex count, doubled when more
/// than one fixed cycle saves the right-hand side.
pub open spec fn scratch_values_spec(c: PairComponentAccounting, fixed_cycles: usize) -> int {
    if fixed_cycles == 1 { c.vertices as int } else { 2 * c.vertices }
}

/// The report of one component.
pub open spec fn component_report_spec(c: PairComponentAccounting, fixed_cycles: usize) -> PairComponentReport {
    PairComponentReport {
        pair: c.pair,
        component: c.component,
        vertices: c.vertices,
        edges: c.edges,
        cycle_excess: (if c.vertices == 0 {
            c.edges as int
        } else if c.edges >= c.vertices - 1 {
            c.edges - (c.vertices - 1)
        } else {
            0
        }) as usize,
        cmg_levels: c.cmg_levels,
        cmg_retained_bytes: c.cmg_retained_bytes,
        cmg_workspace_bytes: c.cmg_workspace_bytes,
        local_scratch_values: scratch_values_spec(c, fixed_cycles) as usize,
    }
}

/// What a reported component lacks, or `None`: both factor blocks (so at
/// least two vertices), then connectedness (at least `vertices - 1` edges).
pub open spec fn accounting_problem(c: PairComponentAccounting) -> Option<Seq<char>> {
    if c.vertices < 2 {
        Some("does not contain both factor blocks"@)
    } else if c.edges + 1 < c.vertices {
        Some("is not connected"@)
    } else {
        None
    }
}

/// Whether a component can be reported: it lacks nothing and its local
/// scratch length is representable.
pub open spec fn accounting_ok(c: PairComponentAccounting, fixed_cycles: usize) -> bool {
    accounting_problem(c) is None && scratch_values_spec(c, fixed_cycles) <= usize::MAX
}

/// Component `i` is the first that cannot be reported.
pub open spec fn first_unreported(
    components: Seq<PairComponentAccounting>,
    fixed_cycles: usize,
    i: int,
) -> bool {
    &&& 0 <= i < components.len()
    &&& forall|j: int| 0 <= j < i ==> accounting_ok(#[trigger] components[j], fixed_cycles)
    &&& !accounting_ok(components[i], fixed_cycles)
}

/// The error that refuses component `c`: what it lacks, or else its
/// unrepresentable scratch.
pub open spec fn refuses(e: MultiwayError, c: PairComponentAccounting) -> bool {
    match accounting_problem(c) {
        Some(p) => e matches MultiwayError::PairComponent { component, problem }
            && component == c.component && problem@ == p,
        None => e matches MultiwayError::InvalidOption { name, .. } && name@ == "pair_cmg_fixed_cycles"@,
    }
}

/// The memory report for a problem estimate, projection scratch and the
/// reported components.
pub open spec fn schwarz_memory_spec(
    problem_state_bytes: usize,
    projection_workspace_bytes: usize,
    fixed_cycles: usize,
    components: Seq<PairComponentAccounting>,
) -> PairCmgSchwarzMemoryReport {
    let pre = sat_sum(Seq::new(components.len(), |i: int| components[i].cmg_retained_bytes as int));
    let pool = sat_sum(Seq::new(components.len(), |i: int| components[i].cmg_workspace_bytes as int));
    let meta = sat_sum(Seq::new(components.len(), |i: int| sat_mul_spec(components[i].vertices as int, 12)));
    let scratch = max_seq(Seq::new(components.len(), |i: int| scratch_values_spec(components[i], fixed_cycles)));
    PairCmgSchwarzMemoryReport {
        problem_state_bytes_estimate: problem_state_bytes,
        cmg_preconditioner_bytes: pre as usize,
        cmg_workspace_pool_bytes: pool as usize,
        subdomain_metadata_bytes_estimate: meta as usize,
        projection_workspace_bytes,
        total_retained_bytes_estimate: sat_add_spec(
            sat_add_spec(sat_add_spec(sat_add_spec(problem_state_bytes as int, pre), pool), meta),
            projection_workspace_bytes as int,
        ) as usize,
        maximum_local_scratch_bytes_per_worker: sat_mul_spec(sat_mul_spec(scratch, 2), VALUE_BYTES as int) as usize,
    }
}

/// Component reports and the memory report of one pair-CMG Schwarz build.
///
/// Components are reported in the given (canonical pair/component) order.
/// Each component must span both factor blocks and be connected, so its cycle
/// excess `edges + 1 - vertices` never saturates; the first that does not is
/// refused. A local scratch length that cannot be represented is rejected, as
/// the builder rejects it.
pub fn schwarz_accounting(
    problem_state_bytes: usize,
    projection_workspace_bytes: usize,
    fixed_cycles: usize,
    components: &Vec<PairComponentAccounting>,
) -> (r: Result<(Vec<PairComponentReport>, PairCmgSchwarzMemoryReport), MultiwayError>)
    ensures
        r is Ok <==> forall|i: int| 0 <= i < components@.len() ==> accounting_ok(#[trigger] components@[i], fixed_cycles),
        r matches Ok((reports, memory)) ==> {
            &&& reports@.len() == components@.len()
            &&& forall|i: int| 0 <= i < components@.len() ==> #[trigger] reports@[i] == component_report_spec(components@[i], fixed_cycles)
            &&& forall|i: int| 0 <= i < components@.len() ==> #[trigger] reports@[i].vertices >= 2
                && reports@[i].cycle_excess == reports@[i].edges + 1 - reports@[i].vertices
            &&& memory == schwarz_memory_spec(problem_state_bytes, projection_workspace_bytes, fixed_cycles, components@)
        },
        r matches Err(e) ==> exists|i: int| #[trigger] first_unreported(components@, fixed_cycles, i) && refuses(e, components@[i]),
{
    let ghost pre_t = Seq::new(components@.len(), |i: int| components@[i].cmg_retained_bytes as int);
    let ghost pool_t = Seq::new(components@.len(), |i: int| components@[i].cmg_workspace_bytes as int);
    let ghost meta_t = Seq::new(components@.len(), |i: int| sat_mul_spec(components@[i].vertices as int, 12));
    let ghost scratch_t = Seq::new(components@.len(), |i: int| scratch_values_spec(components@[i], fixed_cycles));
    let mut reports: Vec<PairComponentReport> = Vec::new();
    let mut pre: usize = 0;
    let mut pool: usize = 0;
    let mut meta: usize = 0;
    let mut scratch: usize = 0;
    let mut i: usize = 0;
    while i < components.len()
        invariant
            i <= components.len(),
            pre_t == Seq::new(components@.len(), |i: int| components@[i].cmg_retained_bytes as int),
            pool_t == Seq::new(components@.len(), |i: int| components@[i].cmg_workspace_bytes as int),
            meta_t == Seq::new(components@.len(), |i: int| sat_mul_spec(components@[i].vertices as int, 12)),
            scratch_t == Seq::new(components@.len(), |i: int| scratch_values_spec(components@[i], fixed_cycles)),
            reports@.len() == i,
            forall|j: int| 0 <= j < i ==> #[trigger] reports@[j] == component_report_spec(components@[j], fixed_cycles),
            forall|j: int| 0 <= j < i ==> accounting_ok(#[trigger] components@[j], fixed_cycles),
            pre == sat_sum(pre_t.take(i as int)),
            pool == sat_sum(pool_t.take(i as int)),
            meta == sat_sum(meta_t.take(i as int)),
            scratch == max_seq(scratch_t.take(i as int)),
        decreases components.len() - i,
    {
        let c = components[i];
        if c.vertices < 2 || c.edges < c.vertices - 1 {
            let problem = if c.vertices < 2 {
                "does not contain both factor blocks"
            } else {
                "is not connected"
            };
            let e = MultiwayError::PairComponent { component: c.component, problem };
            proof {
                reveal_strlit("does not contain both factor blocks");
                reveal_strlit("is not connected");
                assert(first_unreported(components@, fixed_cycles, i as int));
            }
            return Err(e);
        }
        let local = if fixed_cycles == 1 {
            c.vertices
        } else {
            match c.vertices.checked_mul(2) {
                Some(v) => v,
                None => {
                    proof {
                        reveal_strlit("pair_cmg_fixed_cycles");
                        assert(scratch_values_spec(components@[i as int], fixed_cycles) > usize::MAX);
                        assert(first_unreported(components@, fixed_cycles, i as int));
                    }
                    return Err(MultiwayError::InvalidOption {
                        name: "pair_cmg_fixed_cycles",
                        message: "local scratch dimension overflow",
                    });
                },
            }
        };
        proof {
            lemma_sat_sum_take_step(pre_t, i as int);
            lemma_sat_sum_take_step(pool_t, i as int);
            lemma_sat_sum_take_step(meta_t, i as int);
            lemma_sat_sum_take_step(scratch_t, i as int);
        }
        if local > scratch {
            scratch = local;
        }
        pre = sat_add(pre, c.cmg_retained_bytes);
        pool = sat_add(pool, c.cmg_workspace_bytes);
        meta = sat_add(meta, sat_mul(c.vertices, 12));
        let excess = c.edges.saturating_sub(c.vertices.saturating_sub(1));
        reports.push(PairComponentReport {
            pair: c.pair,
            component: c.component,
            vertices: c.vertices,
            edges: c.edges,
            cycle_excess: excess,
            cmg_levels: c.cmg_levels,
            cmg_retained_bytes: c.cmg_retained_bytes,
            cmg_workspace_bytes: c.cmg_workspace_bytes,
            local_scratch_values: local,
        });
        i += 1;
    }
    proof {
        assert(pre_t.take(i as int) =~= pre_t);
        assert(pool_t.take(i as int) =~= pool_t);
        assert(meta_t.take(i as int) =~= meta_t);
        assert(scratch_t.take(i as int) =~= scratch_t);
    }
    let total = sat_add(
        sat_add(sat_add(sat_add(problem_state_bytes, pre), pool), meta),
        projection_workspace_bytes,
    );
    let memory = PairCmgSchwarzMemoryReport {
        problem_state_bytes_estimate: problem_state_bytes,
        cmg_preconditioner_bytes: pre,
        cmg_workspace_pool_bytes: pool,
        subdomain_metadata_bytes_estimate: meta,
        projection_workspace_bytes,
        total_retained_bytes_estimate: total,
        maximum_local_scratch_bytes_per_worker: sat_mul(sat_mul(scratch, 2), VALUE_BYTES),
    };
    Ok((reports, memory))
}

/// Vertices of one connected component of a factor-pair graph.
#[derive(Debug, Clone, PartialEq, Eq)]
pub struct PairComponentLayout {
    /// Pair-graph vertices of the component, in increasing order: first-factor
    /// levels `0..first_count`, then second-factor levels shifted by `first_count`.
    pub vertices: Vec<usize>,
    /// Position of the first second-factor vertex.
    pub second_start: usize,
    /// Global coefficient index of every vertex.
    pub global_indices: Vec<u32>,
}

/// Global coefficient index of pair-graph vertex `v`.
pub open spec fn pair_global_index(v: int, first_count: int, first_offset: int, second_offset: int) -> int {
    if v < first_count {
        first_offset + v
    } else {
        second_offset + (v - first_count)
    }
}

/// Whether `layout` is the layout of component `c` of the labelled graph.
pub open spec fn layout_of(
    layout: PairComponentLayout,
    labels: Seq<usize>,
    c: int,
    first_count: int,
    first_offset: int,
    second_offset: int,
) -> bool {
    let vs = layout.vertices@;
    &&& forall|k: int| 0 <= k < vs.len() ==> #[trigger] vs[k] < labels.len() && labels[vs[k] as int] == c
    &&& forall|a: int, b: int| 0 <= a < b < vs.len() ==> #[trigger] vs[a] < #[trigger] vs[b]
    &&& forall|v: int| 0 <= v < labels.len() && labels[v] == c ==> #[trigger] vs.contains(v as usize)
    &&& 0 < layout.second_start < vs.len()
    &&& forall|k: int| 0 <= k < vs.len() ==> (k < layout.second_start <==> #[trigger] vs[k] < first_count)
    &&& layout.global_indices@.len() == vs.len()
    &&& forall|k: int| 0 <= k < vs.len() ==> #[trigger] layout.global_indices@[k] == pair_global_index(
        vs[k] as int,
        first_count,
        first_offset,
        second_offset,
    )
}

fn group_vertices(labels: &[usize], component_count: usize) -> (groups: Vec<Vec<usize>>)
    requires
        forall|v: int| 0 <= v < labels@.len() ==> #[trigger] labels@[v] < component_count,
    ensures
        groups@.len() == component_count,
        forall|c: int, k: int|
            0 <= c < component_count && 0 <= k < groups@[c]@.len() ==> #[trigger] groups@[c]@[k] < labels@.len()
                && labels@[groups@[c]@[k] as int] == c,
        forall|c: int, a: int, b: int|
            0 <= c < component_count && 0 <= a < b < groups@[c]@.len() ==> #[trigger] groups@[c]@[a] < #[trigger] groups@[c]@[b],
        forall|v: int| 0 <= v < labels@.len() ==> #[trigger] groups@[labels@[v] as int]@.contains(v as usize),
{
    let mut groups: Vec<Vec<usize>> = Vec::new();
    let mut c: usize = 0;
    while c < component_count
        invariant
            c <= component_count,
            groups@.len() == c,
            forall|q: int| 0 <= q < c ==> #[trigger] groups@[q]@.len() == 0,
        decreases component_count - c,
    {
        groups.push(Vec::new());
        c = c + 1;
    }
    let n = labels.len();
    let mut v: usize = 0;
    while v < n
        invariant
            v <= n,
            n == labels@.len(),
            groups@.len() == component_count,
            forall|u: int| 0 <= u < labels@.len() ==> #[trigger] labels@[u] < component_count,
            forall|q: int, k: int|
                0 <= q < component_count && 0 <= k < groups@[q]@.len() ==> #[trigger] groups@[q]@[k] < v
                    && labels@[groups@[q]@[k] as int] == q,
            forall|q: int, a: int, b: int|
                0 <= q < component_count && 0 <= a < b < groups@[q]@.len() ==> #[trigger] groups@[q]@[a] < #[trigger] groups@[q]@[b],
            forall|u: int| 0 <= u < v ==> #[trigger] groups@[labels@[u] as int]@.contains(u as usize),
        decreases n - v,
    {
        let label = labels[v];
        let ghost before = groups@;
        let ghost old_list = groups@[label as int]@;
        groups[label].push(v);
        assert(groups@[label as int]@ == old_list.push(v));
        assert(forall|q: int| 0 <= q < component_count && q != label ==> groups@[q] == before[q]);
        assert forall|u: int| 0 <= u < v + 1 implies #[trigger] groups@[labels@[u] as int]@.contains(u as usize) by {
            if u < v {
                assert(before[labels@[u] as int]@.contains(u as usize));
                if labels@[u] as int == label as int {
                    let k = choose|k: int| 0 <= k < old_list.len() && old_list[k] == u as usize;
                    assert(groups@[label as int]@[k] == u as usize);
                }
            } else {
                assert(groups@[label as int]@[old_list.len() as int] == v);
            }
        }
        v = v + 1;
    }
    groups
}

/// Whether component `c` has a vertex in each factor block.
pub open spec fn spans_both_blocks(labels: Seq<usize>, c: int, first_count: int) -> bool {
    exists|v: int, w: int|
        0 <= v < first_count <= w < labels.len() && #[trigger] labels[v] == c && #[trigger] labels[w] == c
}

/// Whether every vertex of component `c` has a global coefficient index that
/// fits a u32.
pub open spec fn component_indices_fit(
    labels: Seq<usize>,
    c: int,
    first_count: int,
    first_offset: int,
    second_offset: int,
) -> bool {
    forall|v: int|
        0 <= v < labels.len() && #[trigger] labels[v] == c ==> pair_global_index(
            v,
            first_count,
            first_offset,
            second_offset,
        ) <= u32::MAX
}

/// What component `c` lacks to carry a local pair solver, checked in this
/// order, or `None` where it lacks nothing.
pub open spec fn component_problem(
    labels: Seq<usize>,
    edge_counts: Seq<usize>,
    c: int,
    first_count: int,
    first_offset: int,
    second_offset: int,
) -> Option<Seq<char>> {
    if edge_counts[c] == 0 {
        Some("has no positive edge"@)
    } else if !spans_both_blocks(labels, c, first_count) {
        Some("does not contain both factor blocks"@)
    } else if !component_indices_fit(labels, c, first_count, first_offset, second_offset) {
        Some("global coefficient index exceeds u32"@)
    } else {
        None
    }
}

/// Lay out the connected components of one factor-pair graph.
///
/// `labels[v]` is the component of pair-graph vertex `v` (below
/// `component_count`) and `edge_counts[c]` the number of edges of component
/// `c`. Components are laid out in label order; the first that has no edge,
/// or that lacks a vertex of either factor block, or whose global coefficient
/// index does not fit a u32, is refused.
pub fn pair_component_layouts(
    labels: &[usize],
    edge_counts: &[usize],
    first_count: usize,
    first_offset: usize,
    second_offset: usize,
) -> (r: Result<Vec<PairComponentLayout>, MultiwayError>)
    requires
        forall|v: int| 0 <= v < labels@.len() ==> #[trigger] labels@[v] < edge_counts@.len(),
        first_count <= labels@.len(),
        first_offset + first_count <= usize::MAX,
        second_offset + labels@.len() - first_count <= usize::MAX,
    ensures
        r matches Ok(layouts) ==> layouts@.len() == edge_counts@.len() && forall|c: int|
            0 <= c < layouts@.len() ==> #[trigger] layout_of(
                layouts@[c],
                labels@,
                c,
                first_count as int,
                first_offset as int,
                second_offset as int,
            ),
        r matches Err(e) ==> e is PairComponent,
        r is Ok <==> forall|c: int|
            0 <= c < edge_counts@.len() ==> #[trigger] component_problem(
                labels@,
                edge_counts@,
                c,
                first_count as int,
                first_offset as int,
                second_offset as int,
            ) is None,
        r matches Err(MultiwayError::PairComponent { component, problem }) ==> {
            &&& component < edge_counts@.len()
            &&& forall|q: int|
                0 <= q < component ==> #[trigger] component_problem(
                    labels@,
                    edge_counts@,
                    q,
                    first_count as int,
                    first_offset as int,
                    second_offset as int,
                ) is None
            &&& component_problem(
                labels@,
                edge_counts@,
                component as int,
                first_count as int,
                first_offset as int,
                second_offset as int,
            ) == Some(problem@)
        },
{
    let count = edge_counts.len();
    let total_vertices = labels.len();
    let groups = group_vertices(labels, count);
    let mut layouts: Vec<PairComponentLayout> = Vec::new();
    let mut c: usize = 0;
    while c < count
        invariant
            c <= count,
            count == edge_counts@.len(),
            total_vertices == labels@.len(),
            groups@.len() == count,
            first_count <= labels@.len(),
            first_offset + first_count <= usize::MAX,
            second_offset + labels@.len() - first_count <= usize::MAX,
            forall|q: int, k: int|
                0 <= q < count && 0 <= k < groups@[q]@.len() ==> #[trigger] groups@[q]@[k] < labels@.len()
                    && labels@[groups@[q]@[k] as int] == q,
            forall|q: int, a: int, b: int|
                0 <= q < count && 0 <= a < b < groups@[q]@.len() ==> #[trigger] groups@[q]@[a] < #[trigger] groups@[q]@[b],
            forall|u: int| 0 <= u < labels@.len() ==> #[trigger] groups@[labels@[u] as int]@.contains(u as usize),
            forall|u: int| 0 <= u < labels@.len() ==> #[trigger] labels@[u] < count,
            layouts@.len() == c,
            forall|q: int|
                0 <= q < c ==> #[trigger] layout_of(
                    layouts@[q],
                    labels@,
                    q,
                    first_count as int,
                    first_offset as int,
                    second_offset as int,
                ),
            forall|q: int|
                0 <= q < c ==> #[trigger] component_problem(
                    labels@,
                    edge_counts@,
                    q,
                    first_count as int,
                    first_offset as int,
                    second_offset as int,
                ) is None,
        decreases count - c,
    {
        proof {
            reveal_strlit("has no positive edge");
            reveal_strlit("does not contain both factor blocks");
            reveal_strlit("global coefficient index exceeds u32");
        }
        if edge_counts[c] == 0 {
            return Err(MultiwayError::PairComponent { component: c, problem: "has no positive edge" });
        }
        let vertices = &groups[c];
        let m = vertices.len();
        let mut second_start: usize = 0;
        while second_start < m && vertices[second_start] < first_count
            invariant
                second_start <= m,
                m == vertices@.len(),
                vertices@ == groups@[c as int]@,
                forall|k: int| 0 <= k < second_start ==> #[trigger] vertices@[k] < first_count,
            decreases m - second_start,
        {
            second_start = second_start + 1;
        }
        if second_start == 0 || second_start == m {
            proof {
                if spans_both_blocks(labels@, c as int, first_count as int) {
                    let (v, w) = choose|v: int, w: int|
                        0 <= v < first_count <= w < labels@.len() && #[trigger] labels@[v] == c && #[trigger] labels@[w] == c;
                    assert(groups@[labels@[v] as int]@.contains(v as usize));
                    assert(groups@[labels@[w] as int]@.contains(w as usize));
                    assert(labels@[w] as int == c as int);
                    assert(vertices@.contains(v as usize));
                    assert(vertices@.contains(w as usize));
                    let kv = choose|kv: int| 0 <= kv < vertices@.len() && vertices@[kv] == v as usize;
                    let kw = choose|kw: int| 0 <= kw < vertices@.len() && vertices@[kw] == w as usize;
                    if second_start == 0 {
                        if kv > 0 {
                            assert(vertices@[0] < vertices@[kv]);
                        }
                    } else {
                        assert(vertices@[kw] < first_count);
                    }
                }
            }
            return Err(MultiwayError::PairComponent { component: c, problem: "does not contain both factor blocks" });
        }
        let mut global_indices: Vec<u32> = Vec::new();
        proof {
            let v0 = vertices@[0] as int;
            let w0 = vertices@[second_start as int] as int;
            assert(labels@[v0] == c && labels@[w0] == c);
            assert(spans_both_blocks(labels@, c as int, first_count as int));
        }
        let mut k: usize = 0;
        while k < m
            invariant
                k <= m,
                m == vertices@.len(),
                vertices@ == groups@[c as int]@,
                c < count,
                count == edge_counts@.len(),
                first_count <= labels@.len(),
                first_offset + first_count <= usize::MAX,
                second_offset + labels@.len() - first_count <= usize::MAX,
                forall|j: int| 0 <= j < m ==> #[trigger] vertices@[j] < labels@.len(),
                forall|j: int| 0 <= j < m ==> labels@[#[trigger] vertices@[j] as int] == c,
                edge_counts@[c as int] > 0,
                spans_both_blocks(labels@, c as int, first_count as int),
                forall|q: int|
                    0 <= q < c ==> #[trigger] component_problem(
                        labels@,
                        edge_counts@,
                        q,
                        first_count as int,
                        first_offset as int,
                        second_offset as int,
                    ) is None,
                global_indices@.len() == k,
                forall|j: int| 0 <= j < k ==> #[trigger] global_indices@[j] == pair_global_index(
                    vertices@[j] as int,
                    first_count as int,
                    first_offset as int,
                    second_offset as int,
                ),
            decreases m - k,
        {
            let v = vertices[k];
            let global = if v < first_count {
                first_offset + v
            } else {
                second_offset + (v - first_count)
            };
            if global > u32::MAX as usize {
                assert(pair_global_index(v as int, first_count as int, first_offset as int, second_offset as int) > u32::MAX);
                assert(labels@[v as int] == c);
                assert(!component_indices_fit(labels@, c as int, first_count as int, first_offset as int, second_offset as int));
                return Err(MultiwayError::PairComponent { component: c, problem: "global coefficient index exceeds u32" });
            }
            global_indices.push(global as u32);
            k = k + 1;
        }
        let layout = PairComponentLayout { vertices: vertices.clone(), second_start, global_indices };
        assert(layout.vertices@ == groups@[c as int]@);
        assert forall|j: int| 0 <= j < m implies (j < second_start <==> #[trigger] groups@[c as int]@[j] < first_count) by {
            if j >= second_start && groups@[c as int]@[j] < first_count {
                assert(groups@[c as int]@[second_start as int] < groups@[c as int]@[j]);
            }
        }
        proof {
            assert forall|v: int| 0 <= v < labels@.len() && #[trigger] labels@[v] == c implies pair_global_index(
                v,
                first_count as int,
                first_offset as int,
                second_offset as int,
            ) <= u32::MAX by {
                assert(groups@[labels@[v] as int]@.contains(v as usize));
                let kv = choose|kv: int| 0 <= kv < vertices@.len() && vertices@[kv] == v as usize;
                assert(global_indices@[kv] == pair_global_index(
                    vertices@[kv] as int,
                    first_count as int,
                    first_offset as int,
                    second_offset as int,
                ));
            }
            assert(component_problem(
                labels@,
                edge_counts@,
                c as int,
                first_count as int,
                first_offset as int,
                second_offset as int,
            ) is None);
        }
        layouts.push(layout);
        c = c + 1;
    }
    Ok(layouts)
}

} // verus!
