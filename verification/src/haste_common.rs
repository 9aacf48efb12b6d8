//! Shared primitives: varints, bit buffers and non-cryptographic hashes.

pub mod bitbuf;
pub mod bits;
pub mod fnv1ahash;
pub mod varint;
