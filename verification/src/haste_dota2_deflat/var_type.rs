//! A tokenizer that reads a type declaration from either end, and a parser that reads it from
//! the end.

pub mod parser;
pub mod tokenizer;

pub use parser::{parse, ArrayLength, Decl};
pub use tokenizer::{Token, Tokenizer};
