//! Verified building blocks of a Source 2 replay (demo) parser: bit readers, varints, hashes,
//! field path decoding, variable type parsers and demo/broadcast framing.

pub mod haste_base;
pub mod haste_common;
pub mod haste_core;
pub mod haste_dota2;
pub mod haste_dota2_deflat;
pub mod haste_vartype;
pub mod haste_broadcast;
