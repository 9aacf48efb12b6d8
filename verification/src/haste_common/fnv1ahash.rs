//! FNV-1a hashes of byte and word slices.

use vstd::prelude::*;

verus! {

/// The FNV-1a offset basis.
pub const BASIS: u64 = 14695981039346656037;

/// The FNV-1a prime.
pub const PRIME: u64 = 1099511628211;

/// FNV-1a of a sequence of words: xor each word in, multiply by the prime (modulo `2^64`).
pub open spec fn fnv1a(s: Seq<u64>) -> u64
    decreases s.len(),
{
    if s.len() == 0 {
        BASIS
    } else {
        (fnv1a(s.drop_last()) ^ s.last()).wrapping_mul(PRIME)
    }
}

/// FNV-1a of bytes.
pub fn hash_u8(values: &[u8]) -> (r: u64)
    ensures
        r == fnv1a(values@.map_values(|b: u8| b as u64)),
{
    let ghost w = values@.map_values(|b: u8| b as u64);
    let mut hash: u64 = BASIS;
    let mut i: usize = 0;
    while i < values.len()
        invariant
            i <= values.len(),
            w == values@.map_values(|b: u8| b as u64),
            hash == fnv1a(w.subrange(0, i as int)),
        decreases values.len() - i,
    {
        proof {
            assert(w.subrange(0, i + 1).drop_last() =~= w.subrange(0, i as int));
        }
        hash = (hash ^ values[i] as u64).wrapping_mul(PRIME);
        i = i + 1;
    }
    proof {
        assert(w.subrange(0, i as int) =~= w);
    }
    hash
}

/// FNV-1a of 32 bit words.
pub fn hash_u32(values: &[u32]) -> (r: u64)
    ensures
        r == fnv1a(values@.map_values(|b: u32| b as u64)),
{
    let ghost w = values@.map_values(|b: u32| b as u64);
    let mut hash: u64 = BASIS;
    let mut i: usize = 0;
    while i < values.len()
        invariant
            i <= values.len(),
            w == values@.map_values(|b: u32| b as u64),
            hash == fnv1a(w.subrange(0, i as int)),
        decreases values.len() - i,
    {
        proof {
            assert(w.subrange(0, i + 1).drop_last() =~= w.subrange(0, i as int));
        }
        hash = (hash ^ values[i] as u64).wrapping_mul(PRIME);
        i = i + 1;
    }
    proof {
        assert(w.subrange(0, i as int) =~= w);
    }
    hash
}

} // verus!
