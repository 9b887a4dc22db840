//! A verified core for an ahead-of-time compiler of an ActionScript-like
//! language.
//!
//! A source text is lexed and parsed into a syntax tree, a checked tree is
//! lowered to a mid-level IR, bounds checks are hoisted out of counted loops,
//! and the IR is turned into the commands of a code builder.

pub mod ast;
pub mod bce;
pub mod binarytrees;
pub mod codegen;
pub mod diagnostics;
pub mod driver;
pub mod lexer;
pub mod lower;
pub mod meaning;
pub mod mir;
pub mod parser;
pub mod render;
pub mod sema;
pub mod source;
pub mod span;
pub mod text;
