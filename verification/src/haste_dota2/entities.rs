//! Entity update headers and field keys of the Dota 2 parser.

use crate::haste_base::entities::{
    delta_header_spec, field_key, parse_delta_header as read_delta_header, path_bytes,
};
pub use crate::haste_base::entities::{
    determine_update_type, update_type_spec, UpdateType, FHDR_DELETE, FHDR_ENTERPVS,
    FHDR_LEAVEPVS, FHDR_ZERO,
};
use crate::haste_base::fxhash::{hash_u8, Hasher};
use crate::haste_base::entities::Error as HeaderError;
use crate::haste_common::bitbuf::{BitBufError, BitReader};
use crate::haste_common::bits::total_bits;
use crate::haste_dota2::fieldpath;
use vstd::prelude::*;

verus! {

/// Error of entity parsing.
#[derive(Debug, Clone, Copy, PartialEq, Eq, Structural)]
pub enum Error {
    BitBuf(BitBufError),
    FieldPath(fieldpath::Error),
}

/// Reads the update flags of an entity delta (`CL_ParseDeltaHeader`): two bits, see
/// [`delta_header_spec`].
pub fn parse_delta_header(br: &mut BitReader) -> (r: Result<usize, Error>)
    requires
        old(br).wf(),
    ensures
        final(br).wf(),
        final(br).bytes() == old(br).bytes(),
        old(br).pos() + 2 <= total_bits(old(br).bytes()) ==> r == Ok::<usize, Error>(
            delta_header_spec(old(br).bytes(), old(br).pos()),
        ) && final(br).pos() == old(br).pos() + 2,
        old(br).pos() + 2 > total_bits(old(br).bytes()) ==> r == Err::<usize, Error>(
            Error::BitBuf(BitBufError::Overflow),
        ),
{
    match read_delta_header(br) {
        Ok(flags) => Ok(flags),
        Err(HeaderError::BitBuf(e)) => Err(Error::BitBuf(e)),
    }
}

/// The key of the field that the names of `path` lead to: the hash of the first name's bytes
/// seeds a hasher, into which the hash of each further name is written (see [`field_key`]).
pub fn make_field_key(path: &[&str]) -> (r: u64)
    requires
        path@.len() > 0,
    ensures
        r == field_key(path_bytes(path@)),
{
    let first = hash_u8(path[0].as_bytes());
    let mut hasher = Hasher::with_seed(first);
    let mut i: usize = 1;
    proof {
        assert(path_bytes(path@).subrange(0, 1).len() == 1);
    }
    while i < path.len()
        invariant
            1 <= i <= path.len(),
            hasher.state() == field_key(path_bytes(path@).subrange(0, i as int)),
        decreases path.len() - i,
    {
        let part = hash_u8(path[i].as_bytes());
        proof {
            assert(path_bytes(path@).subrange(0, i + 1).drop_last() =~= path_bytes(path@).subrange(
                0,
                i as int,
            ));
        }
        hasher.write_u64(part);
        i = i + 1;
    }
    proof {
        assert(path_bytes(path@).subrange(0, i as int) =~= path_bytes(path@));
    }
    hasher.finish()
}

} // verus!
