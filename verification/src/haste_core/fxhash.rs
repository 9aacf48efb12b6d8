//! FxHash (the hash function of Firefox and rustc): rotate the state left by five bits, xor in
//! the next word, multiply by a constant derived from the golden ratio.

use vstd::prelude::*;

verus! {

/// The multiplier (`2^64` divided by the golden ratio, made odd).
pub const GOLDEN_RATIO: u64 = 0x517cc1b727220a95;

/// The state rotated left by five bits.
pub open spec fn rotl5(h: u64) -> u64 {
    (h << 5u64) | (h >> 59u64)
}

/// One step of FxHash: `(rotl5(hash) ^ value) * GOLDEN_RATIO`, modulo `2^64`.
pub open spec fn fx_add(hash: u64, value: u64) -> u64 {
    (rotl5(hash) ^ value).wrapping_mul(GOLDEN_RATIO)
}

/// FxHash of bytes, one byte per step, from the state 0.
pub open spec fn fx_hash_bytes(s: Seq<u8>) -> u64
    decreases s.len(),
{
    fx_hash_bytes_from(0, s)
}

/// FxHash of bytes, one byte per step, from the state `h`.
pub open spec fn fx_hash_bytes_from(h: u64, s: Seq<u8>) -> u64
    decreases s.len(),
{
    if s.len() == 0 {
        h
    } else {
        fx_add(fx_hash_bytes_from(h, s.drop_last()), s.last() as u64)
    }
}

/// Rotation left by five bits.
pub(crate) fn rotate_left5(h: u64) -> (r: u64)
    ensures
        r == rotl5(h),
{
    (h << 5u64) | (h >> 59u64)
}

/// Adds `value` to `hash`: see [`fx_add`].
pub fn add_u64_to_hash(hash: u64, value: u64) -> (r: u64)
    ensures
        r == fx_add(hash, value),
{
    (rotate_left5(hash) ^ value).wrapping_mul(GOLDEN_RATIO)
}

/// Hashes bytes, one at a time: see [`fx_hash_bytes`].
pub fn hash_bytes(bytes: &[u8]) -> (r: u64)
    ensures
        r == fx_hash_bytes(bytes@),
{
    let mut hash: u64 = 0;
    let mut i: usize = 0;
    while i < bytes.len()
        invariant
            i <= bytes.len(),
            hash == fx_hash_bytes_from(0, bytes@.subrange(0, i as int)),
        decreases bytes.len() - i,
    {
        proof {
            assert(bytes@.subrange(0, i + 1).drop_last() =~= bytes@.subrange(0, i as int));
        }
        hash = add_u64_to_hash(hash, bytes[i] as u64);
        i = i + 1;
    }
    proof {
        assert(bytes@.subrange(0, i as int) =~= bytes@);
    }
    hash
}

/// Hashing a concatenation continues from the hash of its first part.
pub proof fn lemma_hash_bytes_concat(h: u64, a: Seq<u8>, b: Seq<u8>)
    ensures
        fx_hash_bytes_from(h, a + b) == fx_hash_bytes_from(fx_hash_bytes_from(h, a), b),
    decreases b.len(),
{
    if b.len() == 0 {
        assert(a + b =~= a);
    } else {
        lemma_hash_bytes_concat(h, a, b.drop_last());
        assert((a + b).drop_last() =~= a + b.drop_last());
        assert((a + b).last() == b.last());
    }
}

} // verus!
