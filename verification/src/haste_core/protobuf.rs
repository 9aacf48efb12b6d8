//! Reading the tag of a protobuf field without copying: for simple messages whose one field is
//! a length-delimited blob.

use vstd::prelude::*;

verus! {

/// Why a protobuf field could not be read.
#[derive(Debug, Clone, Copy, PartialEq, Eq, Structural)]
pub enum DecodeError {
    /// The input ends inside a varint, or a tenth byte still has its continuation bit.
    InvalidVarint,
    /// The wire type of the tag is not one that is read here.
    InvalidWireType(u64),
}

/// The wire types read here.
#[derive(Debug, Clone, Copy, PartialEq, Eq, Structural)]
pub enum WireType {
    LengthDelimited,
}

/// The tag of a field: its wire type and number.
#[derive(Debug, Clone, Copy, PartialEq, Eq, Structural)]
pub struct Tag {
    pub wire_type: WireType,
    pub field_number: u64,
}

/// The value of the first `k` bytes of a varint at `p`: each byte's low seven bits, shifted
/// by seven bits more than the byte before.
pub open spec fn varint64_acc(d: Seq<u8>, p: int, k: nat) -> u64
    decreases k,
{
    if k == 0 {
        0
    } else {
        varint64_acc(d, p, (k - 1) as nat) | (((d[p + k - 1] & 0x7f) as u64) << (7 * (k - 1)) as u64)
    }
}

/// The length of the varint at `p` from its `k`-th byte on, or `None` where the input ends
/// first or a tenth byte has the continuation bit.
pub open spec fn varint64_len(d: Seq<u8>, p: int, k: nat) -> Option<nat>
    decreases 10 - k,
{
    if k >= 10 {
        None
    } else if p + k >= d.len() {
        None
    } else if d[p + k] < 0x80 {
        Some(k + 1)
    } else {
        varint64_len(d, p, k + 1)
    }
}

/// Reads the unsigned 64 bit varint at byte `p`: its value and length.
pub fn read_uvarint64(d: &[u8], p: usize) -> (r: Result<(u64, usize), DecodeError>)
    requires
        p <= d@.len(),
    ensures
        match varint64_len(d@, p as int, 0) {
            Some(n) => r == Ok::<(u64, usize), DecodeError>((varint64_acc(d@, p as int, n), n as usize)),
            None => r == Err::<(u64, usize), DecodeError>(DecodeError::InvalidVarint),
        },
{
    let mut result: u64 = 0;
    let mut k: usize = 0;
    while k < 10
        invariant
            k <= 10,
            p <= d@.len(),
            result == varint64_acc(d@, p as int, k as nat),
            varint64_len(d@, p as int, 0) == varint64_len(d@, p as int, k as nat),
        decreases 10 - k,
    {
        if k >= d.len() - p {
            return Err(DecodeError::InvalidVarint);
        }
        let byte = d[p + k];
        let shift: u64 = (7 * k) as u64;
        result = result | (((byte & 0x7f) as u64) << shift);
        k = k + 1;
        if byte < 0x80 {
            return Ok((result, k));
        }
    }
    Err(DecodeError::InvalidVarint)
}

/// Reads the tag at the start of `data`: a varint key whose low three bits are the wire type
/// (only length-delimited, 2, is read) and whose other bits are the field number. Gives the tag
/// and the key's length.
pub fn read_tag(data: &[u8]) -> (r: Result<(Tag, usize), DecodeError>)
    ensures
        match varint64_len(data@, 0, 0) {
            None => r == Err::<(Tag, usize), DecodeError>(DecodeError::InvalidVarint),
            Some(n) => {
                let key = varint64_acc(data@, 0, n);
                if key & 7 == 2 {
                    r == Ok::<(Tag, usize), DecodeError>(
                        (Tag { wire_type: WireType::LengthDelimited, field_number: key >> 3 }, n as usize),
                    )
                } else {
                    r == Err::<(Tag, usize), DecodeError>(DecodeError::InvalidWireType(key & 7))
                }
            },
        },
{
    let (key, n) = match read_uvarint64(data, 0) {
        Ok(x) => x,
        Err(e) => return Err(e),
    };
    let wire = key & 7;
    if wire != 2 {
        return Err(DecodeError::InvalidWireType(wire));
    }
    Ok((Tag { wire_type: WireType::LengthDelimited, field_number: key >> 3 }, n))
}

} // verus!
