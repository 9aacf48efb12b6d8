//! Replay parsing core: bit reader, field paths, field metadata, hashing, demo file and TV
//! broadcast framing, protobuf tags.

pub mod bitreader;
pub mod demofile;
pub mod entityclasses;
pub mod fieldmetadata;
pub mod fieldops;
pub mod fieldpath;
pub mod fieldvalue;
pub mod flattenedserializers;
pub mod fxhash;
pub mod parser;
pub mod protobuf;
pub mod serializersmsg;
pub mod tvbroadcast;
