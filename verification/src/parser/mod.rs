//! The parser: tokens to syntax tree.
//!
//! Recursive descent. Syntax errors are collected, and the parser goes on at
//! the next place where a statement may start.

pub mod control;
pub mod decl;
pub mod expr;
pub mod forms;
pub mod func;
pub mod grammar;
pub mod laws;
pub mod order;
pub mod parse;
pub mod state;
pub mod stmt;
pub mod types;
pub mod writing;
