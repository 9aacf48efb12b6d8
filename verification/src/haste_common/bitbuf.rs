//! A bit buffer reader whose reads fail once they would run past the end of the buffer.

use crate::haste_common::bits::{
    bit_at, bits_value, get_bit, lemma_bits_value_bound, lemma_uvarint32_mod, peek_bits, total_bits,
    ubitvar_spec, ubitvarfp_spec, uvarint32_from, uvarint32_spec,
};
use crate::haste_common::varint::spec_zigzag_decode;
use vstd::arithmetic::power2::pow2;
use vstd::prelude::*;

verus! {

/// Error of a read that needs more bits than the buffer has left.
#[derive(Debug, Clone, Copy, PartialEq, Eq, Structural)]
pub enum BitBufError {
    Overflow,
}

/// Reads a byte buffer bit by bit, least significant bit of each byte first.
pub struct BitReader {
    data: Vec<u8>,
    pos: usize,
}

impl BitReader {
    /// The bytes being read.
    pub closed spec fn bytes(&self) -> Seq<u8> {
        self.data@
    }

    /// The index of the next bit to read.
    pub closed spec fn pos(&self) -> int {
        self.pos as int
    }

    /// The position is inside the buffer and every bit index fits in `usize`.
    pub open spec fn wf(&self) -> bool {
        &&& 0 <= self.pos() <= total_bits(self.bytes())
        &&& total_bits(self.bytes()) <= usize::MAX
    }

    /// The state of `self` after reading `n` bits from `old`.
    pub open spec fn advanced(self, old: Self, n: int) -> bool {
        &&& self.bytes() == old.bytes()
        &&& self.pos() == old.pos() + n
        &&& self.wf()
    }

    /// A reader at the first bit of `data`.
    pub fn new(data: Vec<u8>) -> (r: Self)
        requires
            total_bits(data@) <= usize::MAX,
        ensures
            r.wf(),
            r.bytes() == data@,
            r.pos() == 0,
    {
        BitReader { data, pos: 0 }
    }

    /// Number of bits left to read.
    pub fn num_bits_left(&self) -> (n: usize)
        requires
            self.wf(),
        ensures
            n == total_bits(self.bytes()) - self.pos(),
    {
        self.data.len() * 8 - self.pos
    }

    /// Reads `n` bits as an unsigned integer, least significant bit first.
    pub fn read_ubitlong(&mut self, n: usize) -> (r: Result<u32, BitBufError>)
        requires
            old(self).wf(),
            n <= 32,
        ensures
            old(self).pos() + n <= total_bits(old(self).bytes()) ==> r == Ok::<u32, BitBufError>(
                bits_value(old(self).bytes(), old(self).pos(), n as nat) as u32,
            ) && final(self).advanced(*old(self), n as int),
            old(self).pos() + n > total_bits(old(self).bytes()) ==> r == Err::<u32, BitBufError>(
                BitBufError::Overflow,
            ) && *final(self) == *old(self),
    {
        if n > self.data.len() * 8 - self.pos {
            return Err(BitBufError::Overflow);
        }
        let v = peek_bits(self.data.as_slice(), self.pos, n);
        proof {
            lemma_bits_value_bound(self.data@, self.pos as int, n as nat);
            vstd::arithmetic::power2::lemma_pow2_strictly_increases(n as nat, 33);
            vstd::arithmetic::power2::lemma2_to64();
            vstd::arithmetic::power2::lemma2_to64_rest();
        }
        self.pos = self.pos + n;
        Ok(v as u32)
    }

    /// Reads one bit.
    pub fn read_bool(&mut self) -> (r: Result<bool, BitBufError>)
        requires
            old(self).wf(),
        ensures
            old(self).pos() < total_bits(old(self).bytes()) ==> r == Ok::<bool, BitBufError>(
                bit_at(old(self).bytes(), old(self).pos()),
            ) && final(self).advanced(*old(self), 1),
            old(self).pos() >= total_bits(old(self).bytes()) ==> r == Err::<bool, BitBufError>(
                BitBufError::Overflow,
            ) && *final(self) == *old(self),
    {
        if self.pos >= self.data.len() * 8 {
            return Err(BitBufError::Overflow);
        }
        let b = get_bit(self.data.as_slice(), self.pos);
        self.pos = self.pos + 1;
        Ok(b)
    }

    /// Reads a `UBitVar`: see [`ubitvar_spec`].
    pub fn read_ubitvar(&mut self) -> (r: Result<u32, BitBufError>)
        requires
            old(self).wf(),
        ensures
            ({
                let (v, c) = ubitvar_spec(old(self).bytes(), old(self).pos());
                &&& old(self).pos() + c <= total_bits(old(self).bytes()) ==> r == Ok::<
                    u32,
                    BitBufError,
                >(v as u32) && final(self).advanced(*old(self), c as int)
                &&& old(self).pos() + c > total_bits(old(self).bytes()) ==> r == Err::<
                    u32,
                    BitBufError,
                >(BitBufError::Overflow) && final(self).wf() && final(self).bytes() == old(
                    self,
                ).bytes()
            }),
    {
        let ghost d = self.data@;
        let ghost p = self.pos as int;
        let head = self.read_ubitlong(6)?;
        proof {
            lemma_bits_value_bound(d, p, 6);
            vstd::arithmetic::power2::lemma2_to64();
            assert(head & 48u32 == ((head / 16) % 4) * 16) by (bit_vector)
                requires
                    head < 64,
            ;
            assert(head & 15u32 == head % 16) by (bit_vector);
        }
        let sel = head & 48u32;
        if sel == 16 {
            let tail = self.read_ubitlong(4)?;
            proof {
                lemma_bits_value_bound(d, p + 6, 4);
            }
            Ok((head & 15) + tail * 16)
        } else if sel == 32 {
            let tail = self.read_ubitlong(8)?;
            proof {
                lemma_bits_value_bound(d, p + 6, 8);
            }
            Ok((head & 15) + tail * 16)
        } else if sel == 48 {
            let tail = self.read_ubitlong(28)?;
            proof {
                lemma_bits_value_bound(d, p + 6, 28);
            }
            Ok((head & 15) + tail * 16)
        } else {
            Ok(head)
        }
    }

    /// Reads a field path `UBitVarFP`: see [`ubitvarfp_spec`].
    pub fn read_ubitvarfp(&mut self) -> (r: Result<u32, BitBufError>)
        requires
            old(self).wf(),
        ensures
            ({
                let (v, c) = ubitvarfp_spec(old(self).bytes(), old(self).pos());
                &&& old(self).pos() + c <= total_bits(old(self).bytes()) ==> r == Ok::<
                    u32,
                    BitBufError,
                >(v as u32) && final(self).advanced(*old(self), c as int)
                &&& old(self).pos() + c > total_bits(old(self).bytes()) ==> r == Err::<
                    u32,
                    BitBufError,
                >(BitBufError::Overflow) && final(self).wf() && final(self).bytes() == old(
                    self,
                ).bytes()
            }),
    {
        let ghost d = self.data@;
        let ghost p = self.pos as int;
        proof {
            vstd::arithmetic::power2::lemma2_to64();
            lemma_bits_value_bound(d, p + 1, 2);
            lemma_bits_value_bound(d, p + 2, 4);
            lemma_bits_value_bound(d, p + 3, 10);
            lemma_bits_value_bound(d, p + 4, 17);
            lemma_bits_value_bound(d, p + 4, 31);
        }
        if self.read_bool()? {
            self.read_ubitlong(2)
        } else if self.read_bool()? {
            self.read_ubitlong(4)
        } else if self.read_bool()? {
            self.read_ubitlong(10)
        } else if self.read_bool()? {
            self.read_ubitlong(17)
        } else {
            self.read_ubitlong(31)
        }
    }

    /// Reads a base-128 varint of at most five bytes: see [`uvarint32_spec`].
    pub fn read_uvarint32(&mut self) -> (r: Result<u32, BitBufError>)
        requires
            old(self).wf(),
        ensures
            ({
                let (v, c) = uvarint32_spec(old(self).bytes(), old(self).pos());
                &&& old(self).pos() + c <= total_bits(old(self).bytes()) ==> r == Ok::<
                    u32,
                    BitBufError,
                >(v as u32) && final(self).advanced(*old(self), c as int)
                &&& old(self).pos() + c > total_bits(old(self).bytes()) ==> r == Err::<
                    u32,
                    BitBufError,
                >(BitBufError::Overflow) && final(self).wf() && final(self).bytes() == old(
                    self,
                ).bytes()
            }),
    {
        let ghost d = self.bytes();
        let ghost p0 = self.pos();
        let mut acc: u64 = 0;
        let mut count: usize = 0;
        let mut pow: u64 = 1;
        proof {
            vstd::arithmetic::power2::lemma2_to64();
        }
        loop
            invariant
                self.wf(),
                self.bytes() == d,
                d == old(self).bytes(),
                p0 == old(self).pos(),
                count <= 5,
                self.pos() == p0 + 8 * count,
                pow as nat == pow2(7 * count as nat),
                acc < pow,
                uvarint32_from(d, p0, 0, 0) == ({
                    let rest = uvarint32_from(d, self.pos(), count as nat, acc as nat);
                    (rest.0, (rest.1 + 8 * count) as nat)
                }),
            decreases 5 - count,
        {
            if count == 5 {
                proof {
                    lemma_uvarint32_mod(acc as nat);
                    assert(uvarint32_from(d, self.pos(), count as nat, acc as nat) == (acc as nat, 0nat));
                    assert(uvarint32_from(d, p0, 0, 0) == (acc as nat, 40nat));
                    assert(uvarint32_spec(d, p0) == (acc as nat % pow2(32), 40nat));
                }
                return Ok((acc % 0x1_0000_0000u64) as u32);
            }
            let ghost pos_before = self.pos();
            assert(uvarint32_from(d, pos_before, count as nat, acc as nat).1 >= 8);
            assert(pow <= 0x1000_0000) by {
                vstd::arithmetic::power2::lemma2_to64();
                if count == 0 {
                } else if count == 1 {
                } else if count == 2 {
                } else if count == 3 {
                } else {
                    assert(7 * count == 28);
                }
            }
            let b = self.read_ubitlong(8)?;
            proof {
                lemma_bits_value_bound(d, pos_before, 8);
                vstd::arithmetic::power2::lemma2_to64();
                vstd::arithmetic::power2::lemma2_to64_rest();
                vstd::arithmetic::power2::lemma_pow2_adds(7 * count as nat, 7);
                assert(b & 0x7fu32 == b % 128) by (bit_vector);
                assert(b & 0x80u32 == 0 <==> b < 128) by (bit_vector)
                    requires
                        b < 256,
                ;
                assert(pow * (b % 128) as u64 <= pow * 127) by (nonlinear_arith)
                    requires b % 128 <= 127;
                vstd::arithmetic::power2::lemma_pow2_strictly_increases(7 * count as nat, 35);
            }
            let payload = (b & 0x7fu32) as u64;
            assert(payload * pow <= 127 * 0x1000_0000) by (nonlinear_arith)
                requires
                    payload <= 127,
                    pow <= 0x1000_0000,
            ;
            assert(acc + payload * pow < pow * 128) by (nonlinear_arith)
                requires
                    payload <= 127,
                    acc < pow,
            ;
            acc = acc + payload * pow;
            count = count + 1;
            if b & 0x80u32 == 0 {
                proof {
                    lemma_uvarint32_mod(acc as nat);
                }
                return Ok((acc % 0x1_0000_0000u64) as u32);
            }
            pow = pow * 128;
        }
    }

    /// Reads a ZigZag encoded varint.
    pub fn read_varint32(&mut self) -> (r: Result<i32, BitBufError>)
        requires
            old(self).wf(),
        ensures
            ({
                let (v, c) = uvarint32_spec(old(self).bytes(), old(self).pos());
                &&& old(self).pos() + c <= total_bits(old(self).bytes()) ==> r == Ok::<
                    i32,
                    BitBufError,
                >(spec_zigzag_decode(v as int) as i32) && final(self).advanced(
                    *old(self),
                    c as int,
                )
                &&& old(self).pos() + c > total_bits(old(self).bytes()) ==> r == Err::<
                    i32,
                    BitBufError,
                >(BitBufError::Overflow) && final(self).wf() && final(self).bytes() == old(
                    self,
                ).bytes()
            }),
    {
        proof {
            vstd::arithmetic::power2::lemma2_to64();
        }
        let v = self.read_uvarint32()?;
        Ok(crate::haste_common::varint::zigzag_decode32(v))
    }
}

} // verus!
