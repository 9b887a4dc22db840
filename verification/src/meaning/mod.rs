//! What programs mean: how expressions and statements run.
//!
//! The meaning is stated once for each form of a program, independently of how one
//! form is made from another, so that the stages can be held to it: lowering keeps
//! it, the facts that bounds-check elimination relies on hold in it, and the code
//! follows it.

pub mod code;
pub mod facts;
pub mod lowered;
pub mod numbers;
pub mod run;
pub mod switches;
pub mod tree;
