//! A bit buffer reader that never fails: bits past the end of the buffer read as zero.
//!
//! The reader keeps a position that never leaves the buffer; its specification counts the bits
//! read so far (the position it would have on an endless buffer of zero bits).

use crate::haste_common::bits::{
    bit_at, bits_value, clamp_pos, get_bit, lemma_bits_clamped, lemma_bits_past_end,
    lemma_bits_value_bound, lemma_uvarint32_mod, peek_bits, total_bits, ubitvar_spec,
    ubitvarfp_spec, uvarint32_from, uvarint32_spec,
};
use crate::haste_common::varint::spec_zigzag_decode;
use vstd::arithmetic::power2::pow2;
use vstd::prelude::*;

verus! {

/// Reads a byte buffer bit by bit, least significant bit of each byte first.
pub struct BitReader {
    data: Vec<u8>,
    pos: usize,
    read: Ghost<int>,
}

impl BitReader {
    /// The bytes being read.
    pub closed spec fn bytes(&self) -> Seq<u8> {
        self.data@
    }

    /// The number of bits read so far, counting those read past the end of the buffer.
    pub closed spec fn pos(&self) -> int {
        self.read@
    }

    /// The position inside the buffer is the count of bits read, stopped at the end; every bit
    /// index fits in `usize`.
    pub closed spec fn wf(&self) -> bool {
        &&& 0 <= self.read@
        &&& self.pos as int == clamp_pos(self.data@, self.read@)
        &&& total_bits(self.data@) <= usize::MAX
    }

    /// The state of `self` after reading `n` bits from `old`.
    pub open spec fn advanced(self, old: Self, n: int) -> bool {
        &&& self.bytes() == old.bytes()
        &&& self.pos() == old.pos() + n
        &&& self.wf()
    }

    /// A well formed reader has read a nonnegative number of bits.
    pub proof fn lemma_wf(&self)
        requires
            self.wf(),
        ensures
            self.pos() >= 0,
            total_bits(self.bytes()) <= usize::MAX,
    {
    }

    /// A reader at the first bit of `data`.
    pub fn new(data: Vec<u8>) -> (r: Self)
        requires
            total_bits(data@) <= usize::MAX,
        ensures
            r.wf(),
            r.bytes() == data@,
            r.pos() == 0,
    {
        BitReader { data, pos: 0, read: Ghost(0) }
    }

    /// Number of bits left to read.
    pub fn num_bits_left(&self) -> (n: usize)
        requires
            self.wf(),
        ensures
            n == total_bits(self.bytes()) - clamp_pos(self.bytes(), self.pos()),
    {
        self.data.len() * 8 - self.pos
    }

    /// Whether every bit has been read.
    pub fn is_exhausted(&self) -> (b: bool)
        requires
            self.wf(),
        ensures
            b == (self.pos() >= total_bits(self.bytes())),
    {
        self.pos == self.data.len() * 8
    }

    /// Reads `n` bits as an unsigned integer, least significant bit first.
    pub fn read_ubit64(&mut self, n: usize) -> (v: u64)
        requires
            old(self).wf(),
            n <= 64,
        ensures
            v == bits_value(old(self).bytes(), old(self).pos(), n as nat),
            final(self).advanced(*old(self), n as int),
    {
        let ghost q = self.read@;
        proof {
            lemma_bits_clamped(self.data@, q, n as nat);
        }
        let left = self.data.len() * 8 - self.pos;
        if n <= left {
            let v = peek_bits(self.data.as_slice(), self.pos, n);
            self.pos = self.pos + n;
            self.read = Ghost(q + n);
            v
        } else {
            let v = peek_bits(self.data.as_slice(), self.pos, left);
            proof {
                lemma_bits_past_end(self.data@, self.pos as int, n as nat);
            }
            self.pos = self.data.len() * 8;
            self.read = Ghost(q + n);
            v
        }
    }

    /// Reads one bit.
    pub fn read_bool(&mut self) -> (b: bool)
        requires
            old(self).wf(),
        ensures
            b == bit_at(old(self).bytes(), old(self).pos()),
            final(self).advanced(*old(self), 1),
    {
        let ghost q = self.read@;
        proof {
            lemma_bits_clamped(self.data@, q, 1);
        }
        if self.pos < self.data.len() * 8 {
            let b = get_bit(self.data.as_slice(), self.pos);
            self.pos = self.pos + 1;
            self.read = Ghost(q + 1);
            b
        } else {
            self.read = Ghost(q + 1);
            false
        }
    }

    /// Reads `n <= 32` bits.
    fn read_ubit32(&mut self, n: usize) -> (v: u32)
        requires
            old(self).wf(),
            n <= 32,
        ensures
            v == bits_value(old(self).bytes(), old(self).pos(), n as nat),
            final(self).advanced(*old(self), n as int),
    {
        proof {
            lemma_bits_value_bound(self.bytes(), self.pos(), n as nat);
            vstd::arithmetic::power2::lemma_pow2_strictly_increases(n as nat, 33);
            vstd::arithmetic::power2::lemma2_to64();
            vstd::arithmetic::power2::lemma2_to64_rest();
        }
        self.read_ubit64(n) as u32
    }

    /// Reads a `UBitVar`: see [`ubitvar_spec`].
    pub fn read_ubitvar(&mut self) -> (v: u32)
        requires
            old(self).wf(),
        ensures
            v == ubitvar_spec(old(self).bytes(), old(self).pos()).0,
            final(self).advanced(
                *old(self),
                ubitvar_spec(old(self).bytes(), old(self).pos()).1 as int,
            ),
    {
        let ghost d = self.bytes();
        let ghost p = self.pos();
        let head = self.read_ubit32(6);
        proof {
            lemma_bits_value_bound(d, p, 6);
            vstd::arithmetic::power2::lemma2_to64();
            assert(head & 48u32 == ((head / 16) % 4) * 16) by (bit_vector)
                requires
                    head < 64,
            ;
            assert(head & 15u32 == head % 16) by (bit_vector);
            lemma_bits_clamped(d, p + 6, 4);
            lemma_bits_clamped(d, p + 6, 8);
            lemma_bits_clamped(d, p + 6, 28);
            lemma_bits_value_bound(d, p + 6, 4);
            lemma_bits_value_bound(d, p + 6, 8);
            lemma_bits_value_bound(d, p + 6, 28);
        }
        let sel = head & 48u32;
        if sel == 16 {
            let tail = self.read_ubit32(4);
            (head & 15) + tail * 16
        } else if sel == 32 {
            let tail = self.read_ubit32(8);
            (head & 15) + tail * 16
        } else if sel == 48 {
            let tail = self.read_ubit32(28);
            (head & 15) + tail * 16
        } else {
            head
        }
    }

    /// Reads a field path `UBitVarFP`: see [`ubitvarfp_spec`].
    pub fn read_ubitvarfp(&mut self) -> (v: u32)
        requires
            old(self).wf(),
        ensures
            v == ubitvarfp_spec(old(self).bytes(), old(self).pos()).0,
            final(self).advanced(
                *old(self),
                ubitvarfp_spec(old(self).bytes(), old(self).pos()).1 as int,
            ),
    {
        let ghost d = self.bytes();
        let ghost p = self.pos();
        proof {
            vstd::arithmetic::power2::lemma2_to64();
            lemma_bits_value_bound(d, p + 1, 2);
            lemma_bits_value_bound(d, p + 2, 4);
            lemma_bits_value_bound(d, p + 3, 10);
            lemma_bits_value_bound(d, p + 4, 17);
            lemma_bits_value_bound(d, p + 4, 31);
            lemma_bits_clamped(d, p + 1, 2);
            lemma_bits_clamped(d, p + 2, 4);
            lemma_bits_clamped(d, p + 3, 10);
            lemma_bits_clamped(d, p + 4, 17);
            lemma_bits_clamped(d, p + 4, 31);
        }
        if self.read_bool() {
            self.read_ubit32(2)
        } else if self.read_bool() {
            self.read_ubit32(4)
        } else if self.read_bool() {
            self.read_ubit32(10)
        } else if self.read_bool() {
            self.read_ubit32(17)
        } else {
            self.read_ubit32(31)
        }
    }

    /// Reads a base-128 varint of at most five bytes: see [`uvarint32_spec`].
    pub fn read_uvarint32(&mut self) -> (v: u32)
        requires
            old(self).wf(),
        ensures
            v == uvarint32_spec(old(self).bytes(), old(self).pos()).0,
            final(self).advanced(
                *old(self),
                uvarint32_spec(old(self).bytes(), old(self).pos()).1 as int,
            ),
    {
        let ghost d = self.bytes();
        let ghost p0 = self.pos();
        let mut acc: u64 = 0;
        let mut count: usize = 0;
        let mut pow: u64 = 1;
        proof {
            vstd::arithmetic::power2::lemma2_to64();
        }
        loop
            invariant
                self.wf(),
                self.bytes() == d,
                d == old(self).bytes(),
                p0 == old(self).pos(),
                0 <= p0,
                count <= 5,
                self.pos() == p0 + 8 * count,
                pow as nat == pow2(7 * count as nat),
                acc < pow,
                uvarint32_from(d, p0, 0, 0) == ({
                    let rest = uvarint32_from(d, p0 + 8 * count, count as nat, acc as nat);
                    (rest.0, (rest.1 + 8 * count) as nat)
                }),
            decreases 5 - count,
        {
            if count == 5 {
                proof {
                    lemma_uvarint32_mod(acc as nat);
                    assert(uvarint32_from(d, p0 + 8 * count, count as nat, acc as nat) == (
                    acc as nat, 0nat));
                }
                return (acc % 0x1_0000_0000u64) as u32;
            }
            let ghost q = p0 + 8 * count;
            assert(pow <= 0x1000_0000) by {
                vstd::arithmetic::power2::lemma2_to64();
                if count == 4 {
                    assert(7 * count == 28);
                }
            }
            proof {
                lemma_bits_clamped(d, q, 8);
            }
            let b = self.read_ubit32(8);
            proof {
                lemma_bits_value_bound(d, q, 8);
                vstd::arithmetic::power2::lemma2_to64();
                vstd::arithmetic::power2::lemma_pow2_adds(7 * count as nat, 7);
                assert(b & 0x7fu32 == b % 128) by (bit_vector);
                assert(b & 0x80u32 == 0 <==> b < 128) by (bit_vector)
                    requires
                        b < 256,
                ;
            }
            let payload = (b & 0x7fu32) as u64;
            assert(payload * pow <= 127 * 0x1000_0000) by (nonlinear_arith)
                requires
                    payload <= 127,
                    pow <= 0x1000_0000,
            ;
            assert(acc + payload * pow < pow * 128) by (nonlinear_arith)
                requires
                    payload <= 127,
                    acc < pow,
            ;
            acc = acc + payload * pow;
            count = count + 1;
            if b & 0x80u32 == 0 {
                proof {
                    lemma_uvarint32_mod(acc as nat);
                }
                return (acc % 0x1_0000_0000u64) as u32;
            }
            pow = pow * 128;
        }
    }

    /// Reads a ZigZag encoded varint.
    pub fn read_varint32(&mut self) -> (v: i32)
        requires
            old(self).wf(),
        ensures
            v == spec_zigzag_decode(uvarint32_spec(old(self).bytes(), old(self).pos()).0 as int),
            final(self).advanced(
                *old(self),
                uvarint32_spec(old(self).bytes(), old(self).pos()).1 as int,
            ),
    {
        proof {
            vstd::arithmetic::power2::lemma2_to64();
        }
        let v = self.read_uvarint32();
        crate::haste_common::varint::zigzag_decode32(v)
    }
}

} // verus!
