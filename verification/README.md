# multiway_mg

Verified accounting, combinatorial and control cores of MultiwayMG, a family of
multilevel preconditioners for the singular Gramians of weighted three-way
incidence problems.

The library in `src/` is written in Verus. Every function states its behaviour
in `requires`/`ensures` contracts over mathematical models and is proved;
properties that relate several calls are stated and proved as public lemmas.
It covers:

- payload, workspace, inventory and admission arithmetic (checked, never
  wrapping), and fallible scratch growth that leaves storage untouched on
  failure;
- aggregation structure: greedy maximal matchings, canonical aggregate
  numbering, degree-capped candidate retention, same-component candidate
  pairs, component preservation, aggregate membership and splitting, global
  coarse numbering, factor-pair component layouts, bounded pair-neighborhood
  proposal capacities and source-tuple ordering;
- the decisions of the bootstrap rounds, the complete-cycle split repair, the
  hierarchy planners, the candidate portfolios and the traced PCG work counts;
- the automatic profiling collector.

The floating-point numerics (smoothers, cycles, Krylov solvers, dense
terminals, energy probes, split scores) are not in this crate, neither in
`src/` nor in `app/`: a caller that runs them hands the verified decisions its
observations as integers and booleans.

`app/` holds ordinary Rust around the library: a `std::error::Error` copy of the
error type, the thread-local profiling front end, and floating-point option
checks. `tests/` exercises the library on concrete values.
