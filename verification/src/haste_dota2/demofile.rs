//! The header of a Dota 2 demo file.

pub use crate::haste_core::demofile::{read_demo_header, DemoHeader, ReadDemoHeaderError};
