use vstd::prelude::*;

verus! {

/// Bit set in every byte of a varint that is followed by another byte.
pub const CONTINUE_BIT: u8 = 0x80;

/// Mask of the seven payload bits of a varint byte.
pub const PAYLOAD_BITS: u8 = 0x7f;

/// The longest encoding of a 32 bit varint, in bytes.
pub const MAX_VARINT32_BYTES: usize = 5;

/// The longest encoding of a 64 bit varint, in bytes.
pub const MAX_VARINT64_BYTES: usize = 10;

/// Why a varint could not be read.
#[derive(Debug, Clone, Copy, PartialEq, Eq, Structural)]
pub enum Error {
    /// The input ended inside the varint.
    Io,
    /// A sixth byte still carries the continuation bit. Reading a sixth byte shifts its payload
    /// past 32 bits, so [`read_uvarint32`] leaves such inputs out by its `requires` and never
    /// gives this.
    MalformedVarint,
}

/// The first five bytes from `p` all carry the continuation bit and a sixth byte follows: the
/// reader would read the sixth byte and shift its payload by 35 bits, which overflows `u32`.
pub open spec fn reads_sixth_byte(d: Seq<u8>, p: int) -> bool {
    &&& p + 5 < d.len()
    &&& forall|k: int| 0 <= k < 5 ==> #[trigger] d[p + k] >= 0x80
}

/// The value of the first `k` bytes of the varint at `p`: each byte's payload, shifted by seven
/// bits more than the byte before.
pub open spec fn uvarint32_acc(d: Seq<u8>, p: int, k: nat) -> u32
    decreases k,
{
    if k == 0 {
        0
    } else {
        uvarint32_acc(d, p, (k - 1) as nat) | (((d[p + k - 1] & PAYLOAD_BITS) as u32) << (7 * (k
            - 1)) as u32)
    }
}

/// How many bytes the varint at `p` takes, from its `k`-th byte on: the first byte without the
/// continuation bit ends it; the input ending first is an error.
pub open spec fn uvarint32_len(d: Seq<u8>, p: int, k: nat) -> Result<nat, Error>
    decreases 6 - k,
{
    if k > MAX_VARINT32_BYTES {
        Err(Error::MalformedVarint)
    } else if p + k >= d.len() {
        Err(Error::Io)
    } else if d[p + k] < 0x80 {
        Ok(k + 1)
    } else {
        uvarint32_len(d, p, k + 1)
    }
}

/// The varint at byte `p` of `d`: its value and the index, counted from 0, of its last byte.
pub open spec fn uvarint32_at(d: Seq<u8>, p: int) -> Result<(u32, nat), Error> {
    match uvarint32_len(d, p, 0) {
        Ok(n) => Ok((uvarint32_acc(d, p, n), (n - 1) as nat)),
        Err(e) => Err(e),
    }
}

/// Reads the unsigned 32 bit varint at byte `p` of `d`: its value and the index of its last
/// byte (see [`uvarint32_at`]).
pub fn read_uvarint32(d: &[u8], p: usize) -> (r: Result<(u32, usize), Error>)
    requires
        p <= d@.len(),
        !reads_sixth_byte(d@, p as int),
    ensures
        match uvarint32_at(d@, p as int) {
            Ok((v, c)) => r == Ok::<(u32, usize), Error>((v, c as usize)),
            Err(e) => r == Err::<(u32, usize), Error>(e),
        },
        uvarint32_at(d@, p as int) matches Ok((_, c)) ==> c < MAX_VARINT32_BYTES,
{
    let mut result: u32 = 0;
    let mut count: usize = 0;
    while count <= MAX_VARINT32_BYTES
        invariant
            count <= 6,
            p <= d@.len(),
            !reads_sixth_byte(d@, p as int),
            result == uvarint32_acc(d@, p as int, count as nat),
            uvarint32_len(d@, p as int, 0) == uvarint32_len(d@, p as int, count as nat),
            forall|k: int| 0 <= k < count ==> #[trigger] d@[p + k] >= 0x80,
        decreases 6 - count,
    {
        if count >= d.len() - p {
            return Err(Error::Io);
        }
        let byte = d[p + count];
        if count == 5 {
            assert(d@[p + count as int] == byte);
            assert(reads_sixth_byte(d@, p as int));
        }
        let shift: u32 = (count * 7) as u32;
        result = result | (((byte & PAYLOAD_BITS) as u32) << shift);
        assert((byte & CONTINUE_BIT == 0) == (byte < 0x80)) by (bit_vector);
        if (byte & CONTINUE_BIT) == 0 {
            return Ok((result, count));
        }
        count = count + 1;
    }
    assert(d@[p + 5] >= 0x80);
    Err(Error::MalformedVarint)
}

/// The integer that the ZigZag transform maps `n` back to.
pub open spec fn spec_zigzag_decode(n: int) -> int {
    if n % 2 == 0 {
        n / 2
    } else {
        -(n / 2) - 1
    }
}

/// Undoes the ZigZag transform on 32 bit integers: 0 -> 0, 1 -> -1, 2 -> 1, 3 -> -2, ...
pub fn zigzag_decode32(n: u32) -> (r: i32)
    ensures
        r as int == spec_zigzag_decode(n as int),
{
    assert(n >> 1u32 == n / 2) by (bit_vector);
    assert(n & 1u32 == n % 2) by (bit_vector);
    assert((n >> 1u32) <= 0x7fff_ffffu32) by (bit_vector);
    let half: i32 = (n >> 1u32) as i32;
    let sign: i32 = -((n & 1u32) as i32);
    let r = half ^ sign;
    assert(half ^ 0i32 == half) by (bit_vector);
    assert(half ^ -1i32 == -half - 1) by (bit_vector);
    r
}

/// Undoes the ZigZag transform on 64 bit integers: 0 -> 0, 1 -> -1, 2 -> 1, 3 -> -2, ...
pub fn zigzag_decode64(n: u64) -> (r: i64)
    ensures
        r as int == spec_zigzag_decode(n as int),
{
    assert(n >> 1u64 == n / 2) by (bit_vector);
    assert(n & 1u64 == n % 2) by (bit_vector);
    assert((n >> 1u64) <= 0x7fff_ffff_ffff_ffffu64) by (bit_vector);
    let half: i64 = (n >> 1u64) as i64;
    let sign: i64 = -((n & 1u64) as i64);
    let r = half ^ sign;
    assert(half ^ 0i64 == half) by (bit_vector);
    assert(half ^ -1i64 == -half - 1) by (bit_vector);
    r
}

/// The ZigZag transform maps distinct unsigned integers to distinct integers.
pub proof fn lemma_zigzag_decode_injective(a: nat, b: nat)
    requires
        spec_zigzag_decode(a as int) == spec_zigzag_decode(b as int),
    ensures
        a == b,
{
}

/// Decoding undoes the ZigZag encoding `2v` of `v >= 0` and `-2v - 1` of `v < 0`.
pub proof fn lemma_zigzag_decode_of_encoding(v: int)
    ensures
        spec_zigzag_decode(if v >= 0 {
            2 * v
        } else {
            -2 * v - 1
        }) == v,
{
}

} // verus!
