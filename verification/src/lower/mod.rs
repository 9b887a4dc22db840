//! Lowering: typed syntax tree to MIR.
//!
//! Lowering maps types and operators onto those of the backend, fills defaulted
//! arguments at call sites, turns method calls on primitive values into runtime
//! operations, and rejects with a diagnostic what no backend supports.

pub mod check;
pub mod exec;
pub mod laws;
pub mod rules;
