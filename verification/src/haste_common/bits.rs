use vstd::arithmetic::power2::{lemma_pow2_unfold, pow2};
use vstd::prelude::*;

verus! {

/// Number of bits in a byte buffer.
pub open spec fn total_bits(data: Seq<u8>) -> nat {
    8 * data.len()
}

/// Bit `i` of a buffer, counting from the least significant bit of the first byte (the order in
/// which Source engine bit buffers are read). Bits outside of the buffer read as zero.
pub open spec fn bit_at(data: Seq<u8>, i: int) -> bool {
    0 <= i < total_bits(data) && (data[i / 8] as nat / pow2((i % 8) as nat)) % 2 == 1
}

/// The unsigned integer made of the `n` bits that start at bit `pos`, least significant first.
pub open spec fn bits_value(data: Seq<u8>, pos: int, n: nat) -> nat
    decreases n,
{
    if n == 0 {
        0
    } else {
        bits_value(data, pos, (n - 1) as nat) + (if bit_at(data, pos + n - 1) {
            pow2((n - 1) as nat)
        } else {
            0
        })
    }
}

/// A value of `n` bits is below `2^n`.
pub proof fn lemma_bits_value_bound(data: Seq<u8>, pos: int, n: nat)
    ensures
        bits_value(data, pos, n) < pow2(n),
    decreases n,
{
    if n == 0 {
        vstd::arithmetic::power2::lemma2_to64();
    } else {
        lemma_bits_value_bound(data, pos, (n - 1) as nat);
        lemma_pow2_unfold(n);
    }
}

/// Reading `a + b` bits is reading `a` bits, then `b` more bits above them.
pub proof fn lemma_bits_value_split(data: Seq<u8>, pos: int, a: nat, b: nat)
    ensures
        bits_value(data, pos, a + b) == bits_value(data, pos, a) + pow2(a) * bits_value(
            data,
            pos + a,
            b,
        ),
    decreases b,
{
    if b == 0 {
        assert(a + b == a);
        assert(pow2(a) * bits_value(data, pos + a, b) == 0) by (nonlinear_arith)
            requires
                bits_value(data, pos + a, b) == 0,
        ;
    } else {
        let b1 = (b - 1) as nat;
        lemma_bits_value_split(data, pos, a, b1);
        vstd::arithmetic::power2::lemma_pow2_adds(a, b1);
        let bit = bit_at(data, pos + a + b1);
        assert((a + b - 1) as nat == a + b1);
        assert(bits_value(data, pos, a + b) == bits_value(data, pos, a + b1) + (if bit {
            pow2(a + b1)
        } else {
            0
        }));
        assert(bits_value(data, pos + a, b) == bits_value(data, pos + a, b1) + (if bit {
            pow2(b1)
        } else {
            0
        }));
        let x = bits_value(data, pos + a, b1);
        let y: nat = if bit {
            pow2(b1)
        } else {
            0
        };
        assert(pow2(a) * (x + y) == pow2(a) * x + pow2(a) * y) by (nonlinear_arith);
        assert(pow2(a) * y == (if bit {
            pow2(a + b1)
        } else {
            0
        }));
    }
}

/// The value read by a Source engine `UBitVar`: six bits whose two highest select how many more
/// bits (none, 4, 8 or 28) extend the low four; also the number of bits it takes.
pub open spec fn ubitvar_spec(data: Seq<u8>, pos: int) -> (nat, nat) {
    let head = bits_value(data, pos, 6);
    let sel = (head / 16) % 4;
    if sel == 0 {
        (head, 6)
    } else if sel == 1 {
        (head % 16 + 16 * bits_value(data, pos + 6, 4), 10)
    } else if sel == 2 {
        (head % 16 + 16 * bits_value(data, pos + 6, 8), 14)
    } else {
        (head % 16 + 16 * bits_value(data, pos + 6, 28), 34)
    }
}

/// The value read by a field path `UBitVarFP`: up to four flag bits choose a width of 2, 4, 10,
/// 17 or 31 bits; also the number of bits it takes.
pub open spec fn ubitvarfp_spec(data: Seq<u8>, pos: int) -> (nat, nat) {
    if bit_at(data, pos) {
        (bits_value(data, pos + 1, 2), 3)
    } else if bit_at(data, pos + 1) {
        (bits_value(data, pos + 2, 4), 6)
    } else if bit_at(data, pos + 2) {
        (bits_value(data, pos + 3, 10), 13)
    } else if bit_at(data, pos + 3) {
        (bits_value(data, pos + 4, 17), 21)
    } else {
        (bits_value(data, pos + 4, 31), 35)
    }
}

/// How the `UBitVar` writer lays out `v`: the six head bits (the low four bits of `v` under a
/// selector of 0, 16, 32 or 48), the rest of `v` above its low four bits, and the number of bits
/// that rest takes (none, 4, 8 or 28) — the smallest that holds it.
pub open spec fn ubitvar_layout(v: nat) -> (nat, nat, nat) {
    if v < 16 {
        (v, 0, 0)
    } else if v < 256 {
        (v % 16 + 16, v / 16, 4)
    } else if v < 4096 {
        (v % 16 + 32, v / 16, 8)
    } else {
        (v % 16 + 48, v / 16, 28)
    }
}

/// A `UBitVar` reads back the value its writer laid out, taking the six head bits and the bits
/// of the rest.
pub proof fn lemma_ubitvar_reads_back(data: Seq<u8>, pos: int, v: nat)
    requires
        v < 0x1_0000_0000,
        bits_value(data, pos, 6) == ubitvar_layout(v).0,
        bits_value(data, pos + 6, ubitvar_layout(v).2) == ubitvar_layout(v).1,
    ensures
        ubitvar_spec(data, pos) == (v, 6 + ubitvar_layout(v).2),
{
}

/// How the field path `UBitVarFP` writer lays out `v`: how many leading flag bits come first
/// (the last of them set, except for the widest form, whose four flags are all clear) and the
/// width of the value after them (2, 4, 10, 17 or 31 bits) — the smallest that holds it.
pub open spec fn ubitvarfp_layout(v: nat) -> (nat, nat) {
    if v < 4 {
        (1, 2)
    } else if v < 16 {
        (2, 4)
    } else if v < 1024 {
        (3, 10)
    } else if v < 0x20000 {
        (4, 17)
    } else {
        (4, 31)
    }
}

/// A `UBitVarFP` reads back the value its writer laid out, taking the flag bits and the value
/// bits.
pub proof fn lemma_ubitvarfp_reads_back(data: Seq<u8>, pos: int, v: nat)
    requires
        v < 0x8000_0000,
        ubitvarfp_layout(v).0 > 1 ==> !bit_at(data, pos),
        ubitvarfp_layout(v).0 > 2 ==> !bit_at(data, pos + 1),
        ubitvarfp_layout(v).0 > 3 ==> !bit_at(data, pos + 2),
        v < 0x20000 ==> bit_at(data, pos + ubitvarfp_layout(v).0 - 1),
        v >= 0x20000 ==> !bit_at(data, pos + 3),
        bits_value(data, pos + ubitvarfp_layout(v).0, ubitvarfp_layout(v).1) == v,
    ensures
        ubitvarfp_spec(data, pos) == (v, ubitvarfp_layout(v).0 + ubitvarfp_layout(v).1),
{
}

/// Base-128 varint of at most five bytes read out of a bit stream, each byte taking eight bits:
/// the payloads of the bytes read so far (starting with `count` of them, summing to `acc`) and
/// the bits taken. A sixth byte is never read.
pub open spec fn uvarint32_from(data: Seq<u8>, pos: int, count: nat, acc: nat) -> (nat, nat)
    decreases 5 - count,
{
    if count >= 5 {
        (acc, 0)
    } else {
        let b = bits_value(data, pos, 8);
        let acc2 = acc + (b % 128) * pow2(7 * count);
        if b >= 128 {
            let rest = uvarint32_from(data, pos + 8, count + 1, acc2);
            (rest.0, rest.1 + 8)
        } else {
            (acc2, 8)
        }
    }
}

/// Value (truncated to 32 bits) and bit count of a varint read out of a bit stream.
pub open spec fn uvarint32_spec(data: Seq<u8>, pos: int) -> (nat, nat) {
    let r = uvarint32_from(data, pos, 0, 0);
    (r.0 % pow2(32), r.1)
}

/// A varint byte below 128 ends the varint: one such byte is the whole value and takes eight
/// bits; after a byte of 128 or more, the next byte's value counts 128 times, above the first
/// byte's low seven bits.
pub proof fn lemma_uvarint32_first_bytes(data: Seq<u8>, pos: int)
    ensures
        bits_value(data, pos, 8) < 128 ==> uvarint32_spec(data, pos) == (bits_value(data, pos, 8), 8nat),
        bits_value(data, pos, 8) >= 128 && bits_value(data, pos + 8, 8) < 128 ==> uvarint32_spec(
            data,
            pos,
        ) == ((bits_value(data, pos, 8) - 128 + 128 * bits_value(data, pos + 8, 8)) as nat, 16nat),
{
    vstd::arithmetic::power2::lemma2_to64();
    lemma_bits_value_bound(data, pos, 8);
    lemma_bits_value_bound(data, pos + 8, 8);
    assert(pow2(7 * 0) == 1);
    assert(pow2(7 * 1) == 128);
    let b0 = bits_value(data, pos, 8);
    let b1 = bits_value(data, pos + 8, 8);
    if b0 >= 128 && b1 < 128 {
        assert(b0 % 128 == b0 - 128);
        let acc1 = b0 % 128 * pow2(0);
        assert(acc1 == b0 - 128);
        assert(uvarint32_from(data, pos + 8, 1, acc1) == (acc1 + (b1 % 128) * pow2(7), 8nat));
        assert((b0 - 128 + 128 * b1) < pow2(32));
        vstd::arithmetic::div_mod::lemma_small_mod((b0 - 128 + 128 * b1) as nat, pow2(32));
    }
    if b0 < 128 {
        vstd::arithmetic::div_mod::lemma_small_mod(b0, pow2(32));
    }
}

} // verus!

verus! {

/// Bit `i` of `data`, computed with shifts.
pub(crate) fn get_bit(data: &[u8], i: usize) -> (b: bool)
    requires
        i < total_bits(data@),
    ensures
        b == bit_at(data@, i as int),
{
    let byte = data[i / 8];
    let shift = (i % 8) as u8;
    let shifted = byte >> shift;
    proof {
        vstd::bits::lemma_u8_shr_is_div(byte, shift);
        assert(shifted & 1u8 == shifted % 2) by (bit_vector);
    }
    (shifted & 1u8) == 1u8
}

/// The `n` bits of `data` that start at bit `pos`, least significant first.
pub(crate) fn peek_bits(data: &[u8], pos: usize, n: usize) -> (v: u64)
    requires
        n <= 64,
        pos + n <= total_bits(data@),
        total_bits(data@) <= usize::MAX,
    ensures
        v as nat == bits_value(data@, pos as int, n as nat),
{
    proof {
        vstd::arithmetic::power2::lemma2_to64();
    }
    let mut v: u64 = 0;
    let mut pow: u128 = 1;
    let mut k: usize = 0;
    while k < n
        invariant
            k <= n <= 64,
            pos + n <= total_bits(data@),
            total_bits(data@) <= usize::MAX,
            pow as nat == pow2(k as nat),
            v as nat == bits_value(data@, pos as int, k as nat),
        decreases n - k,
    {
        proof {
            lemma_bits_value_bound(data@, pos as int, k as nat);
            vstd::arithmetic::power2::lemma_pow2_unfold((k + 1) as nat);
            vstd::arithmetic::power2::lemma_pow2_strictly_increases(k as nat, 64);
            vstd::arithmetic::power2::lemma2_to64();
            vstd::arithmetic::power2::lemma2_to64_rest();
        }
        let b = get_bit(data, pos + k);
        proof {
            if k + 1 < 64 {
                vstd::arithmetic::power2::lemma_pow2_strictly_increases((k + 1) as nat, 64);
            }
            assert((v as nat) + (pow as nat) < pow2((k + 1) as nat));
            assert(pow2((k + 1) as nat) <= pow2(64));
            assert(pow2(64) == 0x1_0000_0000_0000_0000nat);
        }
        if b {
            v = v + pow as u64;
        }
        pow = pow * 2;
        k = k + 1;
    }
    v
}

} // verus!

verus! {

/// Reducing modulo `2^32` with the `%` of `u64`.
pub proof fn lemma_uvarint32_mod(acc: nat)
    ensures
        acc % pow2(32) == acc % 0x1_0000_0000,
{
    vstd::arithmetic::power2::lemma2_to64();
}

} // verus!

verus! {

/// Bits at or past the end of the buffer read as zero.
pub proof fn lemma_bits_zero_beyond(data: Seq<u8>, q: int, m: nat)
    requires
        q >= total_bits(data),
    ensures
        bits_value(data, q, m) == 0,
    decreases m,
{
    if m > 0 {
        lemma_bits_zero_beyond(data, q, (m - 1) as nat);
    }
}

/// Reading from a position clamped to the end of the buffer gives the same bits.
pub proof fn lemma_bits_clamped(data: Seq<u8>, q: int, m: nat)
    requires
        q >= 0,
    ensures
        bits_value(data, clamp_pos(data, q), m) == bits_value(data, q, m),
        bit_at(data, clamp_pos(data, q)) == bit_at(data, q),
{
    if q > total_bits(data) {
        lemma_bits_zero_beyond(data, q, m);
        lemma_bits_zero_beyond(data, total_bits(data) as int, m);
    }
}

/// A bit position moved back to the end of the buffer if it lies past it.
pub open spec fn clamp_pos(data: Seq<u8>, q: int) -> int {
    if q <= total_bits(data) {
        q
    } else {
        total_bits(data) as int
    }
}

/// `n` bits read from `pos` are the bits left before the end, zero above them.
pub proof fn lemma_bits_past_end(data: Seq<u8>, pos: int, n: nat)
    requires
        0 <= pos <= total_bits(data) < pos + n,
    ensures
        bits_value(data, pos, n) == bits_value(data, pos, (total_bits(data) - pos) as nat),
{
    let k = (total_bits(data) - pos) as nat;
    let m = (n - k) as nat;
    lemma_bits_value_split(data, pos, k, m);
    lemma_bits_zero_beyond(data, pos + k, m);
    assert(k + m == n);
}

} // verus!

verus! {

/// Values of `UBitVar`, `UBitVarFP` and varints fit their integer types.
pub proof fn lemma_var_bounds(data: Seq<u8>, pos: int)
    ensures
        ubitvar_spec(data, pos).0 < 0x1_0000_0000,
        ubitvarfp_spec(data, pos).0 < 0x8000_0000,
        uvarint32_spec(data, pos).0 < 0x1_0000_0000,
{
    vstd::arithmetic::power2::lemma2_to64();
    lemma_bits_value_bound(data, pos, 6);
    lemma_bits_value_bound(data, pos + 6, 4);
    lemma_bits_value_bound(data, pos + 6, 8);
    lemma_bits_value_bound(data, pos + 6, 28);
    lemma_bits_value_bound(data, pos + 1, 2);
    lemma_bits_value_bound(data, pos + 2, 4);
    lemma_bits_value_bound(data, pos + 3, 10);
    lemma_bits_value_bound(data, pos + 4, 17);
    lemma_bits_value_bound(data, pos + 4, 31);
}

} // verus!
