//! Opt-in, single-owner, disjoint automatic-driver diagnostics.
//!
//! Timers perturb execution; these records are never authoritative speed
//! samples. The collector state is an explicit value owned by one driver, so
//! it never propagates to worker threads. Spans may not overlap.
use vstd::prelude::*;
use std::time::Instant;
use core::time::Duration;

verus! {

/// Disjoint coarse regions. Calls include failed attempts, not just accepted work.
#[derive(Debug, Clone, Copy, PartialEq, Eq, Structural)]
pub enum Phase {
    /// Original component layout and recoding construction.
    Partition,
    /// Local canonical component topology construction.
    LocalRoot,
    /// Local current-weight numerical frame construction.
    LocalFrame,
    /// Small-component dense assembly and factorization.
    DirectFactor,
    /// Singleton or small-component direct column solves.
    DirectSolve,
    /// Hierarchy candidates, structural admission and provisional weight replay.
    StructuralPreparation,
    /// Selected nonterminal hierarchy grouping construction.
    HierarchyGrouping,
    /// Large-component baseline grouping construction.
    ComponentGrouping,
    /// Whole-original baseline grouping construction.
    GlobalGrouping,
    /// Complete current-weight hierarchy replay after structure is prepared.
    NumericalReplay,
    /// Coarse terminal assembly, factorization and numerical owner construction.
    CoarseFactor,
    /// Screen setup, all actual-tail checks, bookkeeping and scratch destruction.
    Screening,
    /// Gathered-target and complete local Krylov workspace preparation.
    LocalWorkspace,
    /// All local Krylov columns, including gather/scatter and rejected work.
    LocalSolve,
    /// Original whole-problem certificate, including its scratch lifecycle.
    OriginalCertificate,
    /// Whole-original baseline Krylov workspace preparation.
    GlobalWorkspace,
    /// Whole-original baseline columns, including rejected certificates.
    GlobalSolve,
}

/// Number of phases in the fixed inventory.
pub const PHASE_COUNT: usize = 17;

/// Position of a phase in the fixed inventory.
pub open spec fn phase_index(phase: Phase) -> int {
    match phase {
        Phase::Partition => 0,
        Phase::LocalRoot => 1,
        Phase::LocalFrame => 2,
        Phase::DirectFactor => 3,
        Phase::DirectSolve => 4,
        Phase::StructuralPreparation => 5,
        Phase::HierarchyGrouping => 6,
        Phase::ComponentGrouping => 7,
        Phase::GlobalGrouping => 8,
        Phase::NumericalReplay => 9,
        Phase::CoarseFactor => 10,
        Phase::Screening => 11,
        Phase::LocalWorkspace => 12,
        Phase::LocalSolve => 13,
        Phase::OriginalCertificate => 14,
        Phase::GlobalWorkspace => 15,
        Phase::GlobalSolve => 16,
    }
}

/// Stable diagnostic name of a phase.
pub open spec fn phase_name(phase: Phase) -> Seq<char> {
    match phase {
        Phase::Partition => "partition"@,
        Phase::LocalRoot => "local_root"@,
        Phase::LocalFrame => "local_frame"@,
        Phase::DirectFactor => "direct_factor"@,
        Phase::DirectSolve => "direct_solve"@,
        Phase::StructuralPreparation => "structural_preparation"@,
        Phase::HierarchyGrouping => "hierarchy_grouping"@,
        Phase::ComponentGrouping => "component_grouping"@,
        Phase::GlobalGrouping => "global_grouping"@,
        Phase::NumericalReplay => "numerical_replay"@,
        Phase::CoarseFactor => "coarse_factor"@,
        Phase::Screening => "screening"@,
        Phase::LocalWorkspace => "local_workspace"@,
        Phase::LocalSolve => "local_solve"@,
        Phase::OriginalCertificate => "original_certificate"@,
        Phase::GlobalWorkspace => "global_workspace"@,
        Phase::GlobalSolve => "global_solve"@,
    }
}

impl Phase {
    /// Stable diagnostic name; distinct from the frozen kernel inventory.
    pub fn name(self) -> (r: &'static str)
        ensures
            r@ == phase_name(self),
    {
        match self {
            Phase::Partition => "partition",
            Phase::LocalRoot => "local_root",
            Phase::LocalFrame => "local_frame",
            Phase::DirectFactor => "direct_factor",
            Phase::DirectSolve => "direct_solve",
            Phase::StructuralPreparation => "structural_preparation",
            Phase::HierarchyGrouping => "hierarchy_grouping",
            Phase::ComponentGrouping => "component_grouping",
            Phase::GlobalGrouping => "global_grouping",
            Phase::NumericalReplay => "numerical_replay",
            Phase::CoarseFactor => "coarse_factor",
            Phase::Screening => "screening",
            Phase::LocalWorkspace => "local_workspace",
            Phase::LocalSolve => "local_solve",
            Phase::OriginalCertificate => "original_certificate",
            Phase::GlobalWorkspace => "global_workspace",
            Phase::GlobalSolve => "global_solve",
        }
    }

    /// Position of this phase in [`phases`] and in every report.
    pub fn index(self) -> (r: usize)
        ensures
            r == phase_index(self),
            r < PHASE_COUNT,
    {
        match self {
            Phase::Partition => 0,
            Phase::LocalRoot => 1,
            Phase::LocalFrame => 2,
            Phase::DirectFactor => 3,
            Phase::DirectSolve => 4,
            Phase::StructuralPreparation => 5,
            Phase::HierarchyGrouping => 6,
            Phase::ComponentGrouping => 7,
            Phase::GlobalGrouping => 8,
            Phase::NumericalReplay => 9,
            Phase::CoarseFactor => 10,
            Phase::Screening => 11,
            Phase::LocalWorkspace => 12,
            Phase::LocalSolve => 13,
            Phase::OriginalCertificate => 14,
            Phase::GlobalWorkspace => 15,
            Phase::GlobalSolve => 16,
        }
    }
}


/// Declares `std::time::Instant`, a monotonic clock reading; it is opaque here.
#[verifier::external_type_specification]
#[verifier::external_body]
pub struct ExInstant(Instant);

/// Declares `std::cell::RefCell`, the interior-mutability cell in which a
/// driver thread keeps its collector state; it is opaque here and only its
/// size is read.
#[verifier::external_type_specification]
#[verifier::external_body]
#[verifier::reject_recursive_types(T)]
pub struct ExRefCell<T: ?Sized>(core::cell::RefCell<T>);

/// `Instant::now`: a reading of the monotonic clock. Nothing is claimed of it.
pub assume_specification[ Instant::now ]() -> Instant;

/// `Instant::elapsed`: time since the reading. Nothing is claimed of it, as it
/// depends on the clock.
pub assume_specification[ Instant::elapsed ](start: &Instant) -> Duration;

/// `Duration::as_nanos`: whole nanoseconds in a duration. Nothing is claimed of
/// it, since `Duration` is opaque here.
pub assume_specification[ Duration::as_nanos ](duration: &Duration) -> u128;

/// Complete fixed inventory, including unvisited regions, in report order.
pub fn phases() -> (r: [Phase; 17])
    ensures
        forall|i: int| 0 <= i < 17 ==> phase_index(#[trigger] r@[i]) == i,
{
    [
        Phase::Partition,
        Phase::LocalRoot,
        Phase::LocalFrame,
        Phase::DirectFactor,
        Phase::DirectSolve,
        Phase::StructuralPreparation,
        Phase::HierarchyGrouping,
        Phase::ComponentGrouping,
        Phase::GlobalGrouping,
        Phase::NumericalReplay,
        Phase::CoarseFactor,
        Phase::Screening,
        Phase::LocalWorkspace,
        Phase::LocalSolve,
        Phase::OriginalCertificate,
        Phase::GlobalWorkspace,
        Phase::GlobalSolve,
    ]
}

/// Aggregate for one nonoverlapping region; no event history is retained.
#[derive(Debug, Clone, Copy, PartialEq, Eq, Structural)]
pub struct Region {
    /// Completed span count, including spans exited through errors.
    pub calls: u64,
    /// Sum of complete span durations, including observer overhead within them.
    pub elapsed_ns: u128,
}

/// A region that was never entered.
pub open spec fn empty_region() -> Region {
    Region { calls: 0, elapsed_ns: 0 }
}

fn empty() -> (r: Region)
    ensures
        r == empty_region(),
{
    Region { calls: 0, elapsed_ns: 0 }
}

fn empty_regions() -> (r: [Region; 17])
    ensures
        forall|i: int| 0 <= i < 17 ==> #[trigger] r@[i] == empty_region(),
{
    [
        empty(), empty(), empty(), empty(), empty(), empty(), empty(), empty(), empty(),
        empty(), empty(), empty(), empty(), empty(), empty(), empty(), empty(),
    ]
}

/// A bounded diagnostic result. Invalid records are rejected rather than summed.
#[derive(Debug, Clone, Copy)]
pub struct Report {
    /// False for overlap, unfinished spans, counter overflow or inconsistent time.
    pub valid: bool,
    /// Whole callback time, excluding collector initialization/extraction.
    pub elapsed_ns: u128,
    /// Whole callback less disjoint regions; meaningful only when `valid` is true.
    pub unattributed_ns: u128,
    /// Complete inventory in [`phases`] order.
    pub regions: [Region; 17],
}

/// Starting a nested collection never invokes its callback or resets its parent.
#[derive(Debug, Clone, Copy, PartialEq, Eq, Structural)]
pub enum CollectError {
    /// An explicit collection is already active on this collector.
    NestedCollection,
    /// The monotone generation counter cannot be represented.
    GenerationOverflow,
}

impl CollectError {
    /// Stable diagnostic text of the error.
    pub fn message(self) -> (r: &'static str)
        ensures
            self is NestedCollection ==> r@ == "NestedCollection"@,
            self is GenerationOverflow ==> r@ == "GenerationOverflow"@,
    {
        match self {
            CollectError::NestedCollection => "NestedCollection",
            CollectError::GenerationOverflow => "GenerationOverflow",
        }
    }
}

/// Sum of the region durations, as a mathematical integer.
pub open spec fn regions_elapsed(regions: Seq<Region>) -> int
    decreases regions.len(),
{
    if regions.len() == 0 {
        0
    } else {
        regions_elapsed(regions.drop_last()) + regions.last().elapsed_ns
    }
}

proof fn lemma_regions_prefix_bounded(regions: Seq<Region>, k: int)
    requires
        0 <= k <= regions.len(),
    ensures
        regions_elapsed(regions.take(k)) <= regions_elapsed(regions),
    decreases regions.len(),
{
    if k < regions.len() {
        assert(regions.drop_last().take(k) =~= regions.take(k));
        lemma_regions_prefix_bounded(regions.drop_last(), k);
    } else {
        assert(regions.take(k) =~= regions);
    }
}

/// The report that the collector state yields for a callback of `elapsed_ns`.
pub open spec fn report_spec(state: ProfilerState, elapsed_ns: u128) -> Report {
    let sum = regions_elapsed(state.regions@);
    let attributable = sum <= u128::MAX && sum <= elapsed_ns;
    Report {
        valid: state.valid && state.open is None && attributable,
        elapsed_ns,
        unattributed_ns: if attributable { (elapsed_ns - sum) as u128 } else { 0 },
        regions: state.regions,
    }
}

/// Collector state owned by one driver; every field is plain data.
#[derive(Debug, Clone, Copy)]
pub struct ProfilerState {
    /// Whether a collection is in progress.
    pub active: bool,
    /// Cleared by overlap, unfinished spans or counter overflow.
    pub valid: bool,
    /// Monotone collection counter; stale spans carry an older value.
    pub generation: u64,
    /// The single span that is currently open, if any.
    pub open: Option<Phase>,
    /// Aggregates in [`phases`] order.
    pub regions: [Region; 17],
}

/// A region guard. Inactive spans never read the clock.
pub struct Span {
    phase: Phase,
    generation: u64,
    start: Option<Instant>,
}

impl Span {
    /// Region this span is charged to.
    pub closed spec fn phase_of(&self) -> Phase {
        self.phase
    }

    /// Collection generation observed when the span began.
    pub closed spec fn generation_of(&self) -> u64 {
        self.generation
    }

    /// Region this span is charged to.
    pub fn phase(&self) -> (r: Phase)
        ensures
            r == self.phase_of(),
    {
        self.phase
    }

    /// Collection generation observed when the span began.
    pub fn generation(&self) -> (r: u64)
        ensures
            r == self.generation_of(),
    {
        self.generation
    }

    /// Whether this span is timed and will be charged when it ends.
    pub closed spec fn timed(&self) -> bool {
        self.start is Some
    }

    /// Whether this span reads the clock when it ends.
    pub fn is_timed(&self) -> (r: bool)
        ensures
            r == self.timed(),
    {
        self.start.is_some()
    }
}

impl ProfilerState {
    /// An idle collector that has never collected.
    pub fn new() -> (r: Self)
        ensures
            !r.active,
            r.valid,
            r.generation == 0,
            r.open is None,
            forall|i: int| 0 <= i < 17 ==> #[trigger] r.regions@[i] == empty_region(),
    {
        ProfilerState {
            active: false,
            valid: true,
            generation: 0,
            open: None,
            regions: empty_regions(),
        }
    }

    /// Start a collection: a nested or unrepresentable one changes nothing.
    pub fn begin(&mut self) -> (r: Result<u64, CollectError>)
        ensures
            old(self).active ==> r == Err::<u64, CollectError>(CollectError::NestedCollection)
                && *final(self) == *old(self),
            !old(self).active && old(self).generation == u64::MAX ==> r == Err::<
                u64,
                CollectError,
            >(CollectError::GenerationOverflow) && *final(self) == *old(self),
            !old(self).active && old(self).generation < u64::MAX ==> {
                &&& r == Ok::<u64, CollectError>((old(self).generation + 1) as u64)
                &&& final(self).active
                &&& final(self).valid
                &&& final(self).generation == old(self).generation + 1
                &&& final(self).open is None
                &&& forall|i: int| 0 <= i < 17 ==> #[trigger] final(self).regions@[i] == empty_region()
            },
    {
        if self.active {
            return Err(CollectError::NestedCollection);
        }
        let generation = match self.generation.checked_add(1) {
            Some(g) => g,
            None => return Err(CollectError::GenerationOverflow),
        };
        self.generation = generation;
        self.active = true;
        self.valid = true;
        self.open = None;
        self.regions = empty_regions();
        Ok(generation)
    }

    /// Open a region: overlap invalidates the collection, and an inactive
    /// collector is left untouched. Returns whether the span is timed.
    pub fn enter(&mut self, phase: Phase) -> (timed: bool)
        ensures
            timed == (old(self).active && old(self).open is None),
            final(self).active == old(self).active,
            final(self).generation == old(self).generation,
            final(self).regions == old(self).regions,
            timed ==> final(self).open == Some(phase) && final(self).valid == old(self).valid,
            !timed ==> final(self).open == old(self).open,
            !timed && old(self).active ==> !final(self).valid,
            !old(self).active ==> final(self).valid == old(self).valid,
    {
        if self.active {
            if self.open.is_some() {
                self.valid = false;
                false
            } else {
                self.open = Some(phase);
                true
            }
        } else {
            false
        }
    }

    /// Charge a completed timed span of `phase` begun in `generation`.
    ///
    /// Stale or inactive spans are ignored; a span that is not the open one
    /// invalidates the collection; counter overflow invalidates it too.
    pub fn record(&mut self, phase: Phase, generation: u64, elapsed_ns: u128)
        ensures
            !old(self).active || old(self).generation != generation ==> *final(self)
                == *old(self),
            old(self).active && old(self).generation == generation && old(self).open != Some(
                phase,
            ) ==> *final(self) == (ProfilerState { valid: false, ..*old(self) }),
            old(self).active && old(self).generation == generation && old(self).open == Some(
                phase,
            ) ==> {
                let r = old(self).regions@[phase_index(phase)];
                let fits = r.calls < u64::MAX && r.elapsed_ns + elapsed_ns <= u128::MAX;
                &&& final(self).open is None
                &&& final(self).active
                &&& final(self).generation == generation
                &&& fits ==> final(self).valid == old(self).valid && final(self).regions@
                    == old(self).regions@.update(
                    phase_index(phase),
                    Region {
                        calls: (r.calls + 1) as u64,
                        elapsed_ns: (r.elapsed_ns + elapsed_ns) as u128,
                    },
                )
                &&& !fits ==> !final(self).valid && final(self).regions == old(self).regions
            },
    {
        if !self.active || self.generation != generation {
            return;
        }
        if self.open != Some(phase) {
            self.valid = false;
            return;
        }
        self.open = None;
        let index = phase.index();
        let r = self.regions[index];
        match (r.calls.checked_add(1), r.elapsed_ns.checked_add(elapsed_ns)) {
            (Some(calls), Some(total)) => {
                self.regions[index] = Region { calls, elapsed_ns: total };
            },
            _ => {
                self.valid = false;
            },
        }
    }

    /// The report for a callback that took `elapsed_ns`, without changing state.
    pub fn report(&self, elapsed_ns: u128) -> (r: Report)
        ensures
            r == report_spec(*self, elapsed_ns),
    {
        let mut sum: u128 = 0;
        let mut i: usize = 0;
        let mut fits = true;
        while i < 17
            invariant
                0 <= i <= 17,
                self.regions@.len() == 17,
                fits ==> sum == regions_elapsed(self.regions@.take(i as int)),
                !fits ==> regions_elapsed(self.regions@) > u128::MAX,
            decreases 17 - i,
        {
            if fits {
                assert(self.regions@.take(i + 1).drop_last() =~= self.regions@.take(i as int));
                match sum.checked_add(self.regions[i].elapsed_ns) {
                    Some(v) => {
                        sum = v;
                    },
                    None => {
                        proof {
                            lemma_regions_prefix_bounded(self.regions@, i + 1);
                        }
                        fits = false;
                    },
                }
            }
            i += 1;
        }
        assert(self.regions@.take(17) =~= self.regions@);
        let unattributed = if fits {
            elapsed_ns.checked_sub(sum)
        } else {
            None
        };
        Report {
            valid: self.valid && self.open.is_none() && unattributed.is_some(),
            elapsed_ns,
            unattributed_ns: match unattributed {
                Some(u) => u,
                None => 0,
            },
            regions: self.regions,
        }
    }

    /// End the collection begun in `generation`; a superseded one changes nothing.
    pub fn finish(&mut self, generation: u64)
        ensures
            old(self).generation == generation ==> *final(self) == (ProfilerState {
                active: false,
                open: None,
                ..*old(self)
            }),
            old(self).generation != generation ==> *final(self) == *old(self),
    {
        if self.generation == generation {
            self.active = false;
            self.open = None;
        }
    }
}


/// Fixed inline current-thread state: the size of the `RefCell` that holds a
/// thread's [`ProfilerState`], borrow flag included; not heap or allocator
/// metadata. The same constant on every call and every thread.
pub fn thread_local_payload_bytes() -> (r: usize)
    ensures
        r == vstd::layout::size_of::<core::cell::RefCell<ProfilerState>>(),
{
    core::mem::size_of::<core::cell::RefCell<ProfilerState>>()
}

/// Begin a disjoint region. Overlap invalidates the collection; nothing is
/// silently counted twice. Inactive spans do not read the clock.
pub fn span(state: &mut ProfilerState, phase: Phase) -> (r: Span)
    ensures
        r.phase_of() == phase,
        r.generation_of() == old(state).generation,
        r.timed() == (old(state).active && old(state).open is None),
        final(state).active == old(state).active,
        final(state).generation == old(state).generation,
        final(state).regions == old(state).regions,
        r.timed() ==> final(state).open == Some(phase) && final(state).valid == old(state).valid,
        !r.timed() ==> final(state).open == old(state).open,
        !r.timed() && old(state).active ==> !final(state).valid,
        !old(state).active ==> final(state).valid == old(state).valid,
{
    let generation = state.generation;
    let timed = state.enter(phase);
    let start = if timed {
        Some(Instant::now())
    } else {
        None
    };
    Span { phase, generation, start }
}

/// End a span: an untimed span changes nothing; a timed one is charged with
/// the clock time since it began, exactly as [`ProfilerState::record`] states.
pub fn end_span(state: &mut ProfilerState, span: Span)
    ensures
        !span.timed() ==> *final(state) == *old(state),
        span.timed() ==> exists|elapsed_ns: u128|
            #[trigger] recorded(
                *old(state),
                span.phase_of(),
                span.generation_of(),
                elapsed_ns,
                *final(state),
            ),
{
    match span.start {
        None => {},
        Some(start) => {
            let elapsed = start.elapsed();
            let nanos = elapsed.as_nanos();
            let ghost before = *state;
            state.record(span.phase, span.generation, nanos);
            assert(recorded(before, span.phase, span.generation, nanos, *state));
            assert(before == *old(state));
            assert(span.phase == span.phase_of());
            assert(recorded(*old(state), span.phase_of(), span.generation_of(), nanos, *state));
        },
    }
}

/// `after` is the state that recording a span of `phase`, begun in
/// `generation` and lasting `elapsed_ns`, leaves behind `before`.
pub open spec fn recorded(
    before: ProfilerState,
    phase: Phase,
    generation: u64,
    elapsed_ns: u128,
    after: ProfilerState,
) -> bool {
    &&& !before.active || before.generation != generation ==> after == before
    &&& before.active && before.generation == generation && before.open != Some(phase) ==> after
        == (ProfilerState { valid: false, ..before })
    &&& before.active && before.generation == generation && before.open == Some(phase) ==> {
        let r = before.regions@[phase_index(phase)];
        let fits = r.calls < u64::MAX && r.elapsed_ns + elapsed_ns <= u128::MAX;
        &&& after.open is None
        &&& after.active
        &&& after.generation == generation
        &&& fits ==> after.valid == before.valid && after.regions@ == before.regions@.update(
            phase_index(phase),
            Region {
                calls: (r.calls + 1) as u64,
                elapsed_ns: (r.elapsed_ns + elapsed_ns) as u128,
            },
        )
        &&& !fits ==> !after.valid && after.regions == before.regions
    }
}

/// Collect one serial callback with fixed inline state.
///
/// A nested collection or an exhausted generation counter never invokes the
/// callback. Failed callbacks keep all completed regions. A returned live span
/// invalidates the report. After the callback, the collection it began is
/// ended unless the callback itself superseded it. The callback receives the
/// collector state and hands it back together with its value.
pub fn collect<T, F: FnOnce(ProfilerState) -> (T, ProfilerState)>(state: &mut ProfilerState, f: F) -> (r: Result<(T, Report), CollectError>)
    requires
        forall|s: ProfilerState| call_requires(f, (s,)),
    ensures
        old(state).active ==> r == Err::<(T, Report), CollectError>(CollectError::NestedCollection) && *final(state) == *old(state),
        !old(state).active && old(state).generation == u64::MAX ==> r == Err::<(T, Report), CollectError>(CollectError::GenerationOverflow) && *final(state) == *old(state),
        !old(state).active && old(state).generation < u64::MAX ==> r is Ok,
        r matches Ok((value, report)) ==> collect_outcome(*old(state), f, value, report, *final(state)),
{
    let generation = state.begin()?;
    let ghost began = *state;
    let start = Instant::now();
    let (value, after) = f(*state);
    *state = after;
    let elapsed = start.elapsed();
    let nanos = elapsed.as_nanos();
    let report = state.report(nanos);
    state.finish(generation);
    assert(collected(*old(state), f, began, value, after, nanos));
    assert(report == report_spec(after, nanos));
    assert(*state == finished(after, (old(state).generation + 1) as u64));
    assert(collect_outcome(*old(state), f, value, report, *state));
    Ok((value, report))
}

/// A collection begun from `before` handed the callback `f` the fresh state
/// `began` and got back `value` and `after`, taking `elapsed_ns` on the clock.
pub open spec fn collected<T, F: FnOnce(ProfilerState) -> (T, ProfilerState)>(
    before: ProfilerState,
    f: F,
    began: ProfilerState,
    value: T,
    after: ProfilerState,
    elapsed_ns: u128,
) -> bool {
    &&& began.active
    &&& began.valid
    &&& began.generation == before.generation + 1
    &&& began.open is None
    &&& forall|i: int| 0 <= i < 17 ==> #[trigger] began.regions@[i] == empty_region()
    &&& call_ensures(f, (began,), (value, after))
}

/// What a successful collection from `before` produced: the callback ran on a
/// fresh collection, the report describes the state it handed back, and the
/// collector then ended that collection.
pub open spec fn collect_outcome<T, F: FnOnce(ProfilerState) -> (T, ProfilerState)>(
    before: ProfilerState,
    f: F,
    value: T,
    report: Report,
    end: ProfilerState,
) -> bool {
    exists|began: ProfilerState, after: ProfilerState, elapsed_ns: u128|
        #[trigger] collected(before, f, began, value, after, elapsed_ns) && report == report_spec(after, elapsed_ns)
            && end == finished(after, (before.generation + 1) as u64)
}

/// The collector after ending collection `generation` in `state`: a
/// superseded collection is left as it is.
pub open spec fn finished(state: ProfilerState, generation: u64) -> ProfilerState {
    if state.generation == generation {
        ProfilerState { active: false, open: None, ..state }
    } else {
        state
    }
}

} // verus!
