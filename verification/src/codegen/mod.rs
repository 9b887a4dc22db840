//! Code generation: from MIR to a linear sequence of builder commands.

pub mod code;
pub mod value;
pub mod ops;
pub mod plan;
pub mod scheme;
pub mod expr;
pub mod safepoint;
pub mod sound;
pub mod handlers;
pub mod stmt;
pub mod function;
pub mod wrapper;
pub mod layout;
pub mod module;
pub mod opts;
pub mod laws;
