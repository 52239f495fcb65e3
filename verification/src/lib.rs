//! Verified accounting, combinatorial and control cores of the MultiwayMG
//! multilevel solvers for weighted three-way incidence Gramians.
#![allow(unused_imports)]

pub mod error;
pub mod payload;
pub mod admission;
pub mod scratch;
pub mod trace_workspace;
pub mod profiling;
pub mod arith;
pub mod least_squares;
pub mod memory_estimate;
pub mod seqsum;
pub mod oracle_schedule;
pub mod pair_local;
pub mod pair_schwarz;
pub mod matching;
pub mod bootstrap;
pub mod bootstrap_rounds;
pub mod cycle_portfolio;
pub mod bootstrap_portfolio;
pub mod cycle_smoother_portfolio;
pub mod candidates;
pub mod certificate;
pub mod compatible;
pub mod cycle_repair;
pub mod dense_workspace;
pub mod hierarchy_plan;
pub mod hierarchy_workspace;
pub mod map;
pub mod pcg;
pub mod prepared_action;
pub mod projector;
pub mod prepared_aggregation;
