//! The first generation of the replay parser: field paths whose operation codes are matched
//! against a table, hashing of field keys.

pub mod entities;
pub mod fieldmetadata;
pub mod fieldpath;
pub mod flattenedserializers;
pub mod fxhash;
pub mod parser;
