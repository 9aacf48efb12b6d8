//! The Dota 2 replay parser: field paths of 32 bit components read with a failing bit reader,
//! entity update headers, field keys, instance baselines and the demo header.

pub mod demofile;
pub mod entities;
pub mod fieldmetadata;
pub mod fieldops;
pub mod fieldpath;
pub mod flattenedserializers;
pub mod instancebaseline;
pub mod parser;
