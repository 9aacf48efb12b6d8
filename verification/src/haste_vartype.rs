//! Variable types of entity fields (such as `CHandle< CBaseEntity >[24]`): tokens and
//! expressions.

pub mod error;
pub mod parser;
pub mod span;
pub mod tokenizer;

pub use error::Error;
pub use parser::{parse, Expr, Lit};
pub use span::Span;
pub use tokenizer::{Token, TokenKind, Tokenizer};
