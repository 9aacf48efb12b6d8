//! Recorded and streamed broadcasts: command headers of fixed size, uncompressed bodies.

pub mod broadcast;
pub mod broadcastfile;
pub mod broadcasthttp;
pub mod demostream;
pub mod httpbroadcast;
pub mod requests;
