//! What the run loop does with each command, and the visitor that does nothing.

pub use crate::haste_core::parser::{ControlFlow, NopVisitor};
