//! The syntax tree.

pub mod dump;
pub mod laws;
pub mod names;
pub mod nodes;
pub mod rows;
pub mod view;
