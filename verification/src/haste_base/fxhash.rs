//! FxHash as a hasher object.

use crate::haste_core::fxhash::{fx_add, fx_hash_bytes, fx_hash_bytes_from, rotate_left5, GOLDEN_RATIO};
use vstd::prelude::*;

verus! {

/// An FxHash state.
pub struct Hasher {
    state: u64,
}

impl Hasher {
    /// The current state.
    pub closed spec fn state(&self) -> u64 {
        self.state
    }

    /// A hasher in the state 0.
    pub fn default() -> (r: Self)
        ensures
            r.state() == 0,
    {
        Self { state: 0 }
    }

    /// A hasher in the state `seed`.
    pub fn with_seed(seed: u64) -> (r: Self)
        ensures
            r.state() == seed,
    {
        Self { state: seed }
    }

    /// The hash: the current state.
    pub fn finish(&self) -> (r: u64)
        ensures
            r == self.state(),
    {
        self.state
    }

    /// Adds a word to the hash: see [`fx_add`].
    pub fn write_u64(&mut self, i: u64)
        ensures
            final(self).state() == fx_add(old(self).state(), i),
    {
        self.state = (rotate_left5(self.state) ^ i).wrapping_mul(GOLDEN_RATIO);
    }
}

/// Hashes bytes, one at a time: see [`fx_hash_bytes`].
pub fn hash_u8(values: &[u8]) -> (r: u64)
    ensures
        r == fx_hash_bytes(values@),
{
    let mut hasher = Hasher::default();
    let mut i: usize = 0;
    while i < values.len()
        invariant
            i <= values.len(),
            hasher.state() == fx_hash_bytes_from(0, values@.subrange(0, i as int)),
        decreases values.len() - i,
    {
        proof {
            assert(values@.subrange(0, i + 1).drop_last() =~= values@.subrange(0, i as int));
        }
        hasher.write_u64(values[i] as u64);
        i = i + 1;
    }
    proof {
        assert(values@.subrange(0, i as int) =~= values@);
    }
    hasher.finish()
}

} // verus!
