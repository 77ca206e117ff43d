//! Harness core for sweeping a GPU collective-communication benchmark across
//! a combinatorial parameter space: deterministic artifact naming, a tolerant
//! line classifier for the benchmark's tabular output, a permutation
//! generator constrained by per-algorithm validity tables, and the append-only
//! manifest of per-attempt outcomes.

pub mod text;
pub mod types;
pub mod naming;
pub mod manifest;
pub mod parse;
pub mod permutation;
pub mod command;
pub mod report;
