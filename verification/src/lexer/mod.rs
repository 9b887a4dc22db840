//! The lexer: text to tokens.

pub mod chars;
pub mod laws;
pub mod literal;
pub mod scan;
pub mod spelling;
pub mod token;
