//! Front end of a small language toolchain: source text is turned into a
//! stream of classified tokens, each carrying its location, and every
//! malformed stretch of input becomes a structured diagnostic.

pub mod ast;
pub mod driver;
pub mod error;
pub mod grammar;
pub mod laws;
pub mod lexer;
pub mod parser;
pub mod span;
pub mod text;
pub mod token;
