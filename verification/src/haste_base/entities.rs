//! Entity update headers and field keys.

use crate::haste_common::bitbuf::{BitBufError, BitReader};
use crate::haste_common::bits::{bit_at, total_bits, ubitvar_spec};
use crate::haste_core::fxhash::{add_u64_to_hash, fx_add, fx_hash_bytes, hash_bytes};
use vstd::prelude::*;
use vstd::string::StringSliceAdditionalSpecFns;

verus! {

/// Error of entity parsing.
#[derive(Debug, Clone, Copy, PartialEq, Eq, Structural)]
pub enum Error {
    BitBuf(BitBufError),
}

/// No flag: a delta for an entity that stays.
pub const FHDR_ZERO: usize = 0x0000;

/// The entity left the potentially visible set.
pub const FHDR_LEAVEPVS: usize = 0x0001;

/// The entity is deleted.
pub const FHDR_DELETE: usize = 0x0002;

/// The entity entered the potentially visible set.
pub const FHDR_ENTERPVS: usize = 0x0004;

/// The flags of an entity delta header at bit `q`: a first bit set means the entity leaves the
/// potentially visible set (and a second bit set that it is deleted); a first bit clear and a
/// second bit set that it enters it. Two bits in every case.
pub open spec fn delta_header_spec(d: Seq<u8>, q: int) -> usize {
    if !bit_at(d, q) {
        if bit_at(d, q + 1) {
            FHDR_ENTERPVS
        } else {
            FHDR_ZERO
        }
    } else if bit_at(d, q + 1) {
        FHDR_LEAVEPVS | FHDR_DELETE
    } else {
        FHDR_LEAVEPVS
    }
}

/// Reads the update flags of an entity delta (`CL_ParseDeltaHeader`).
pub fn parse_delta_header(br: &mut BitReader) -> (r: Result<usize, Error>)
    requires
        old(br).wf(),
    ensures
        final(br).wf(),
        final(br).bytes() == old(br).bytes(),
        old(br).pos() + 2 <= total_bits(old(br).bytes()) ==> r == Ok::<usize, Error>(
            delta_header_spec(old(br).bytes(), old(br).pos()),
        ) && final(br).pos() == old(br).pos() + 2,
        old(br).pos() + 2 > total_bits(old(br).bytes()) ==> r == Err::<usize, Error>(
            Error::BitBuf(BitBufError::Overflow),
        ),
{
    let mut update_flags = FHDR_ZERO;
    let first = match br.read_bool() {
        Ok(b) => b,
        Err(e) => return Err(Error::BitBuf(e)),
    };
    if !first {
        let second = match br.read_bool() {
            Ok(b) => b,
            Err(e) => return Err(Error::BitBuf(e)),
        };
        if second {
            update_flags = update_flags | FHDR_ENTERPVS;
            assert(0usize | 4usize == 4usize) by (bit_vector);
        }
    } else {
        update_flags = update_flags | FHDR_LEAVEPVS;
        assert(0usize | 1usize == 1usize) by (bit_vector);
        let second = match br.read_bool() {
            Ok(b) => b,
            Err(e) => return Err(Error::BitBuf(e)),
        };
        if second {
            update_flags = update_flags | FHDR_DELETE;
        }
    }
    Ok(update_flags)
}

/// How an entity changes in a packet of entity deltas.
#[derive(Debug, Clone, Copy, PartialEq, Eq, Structural)]
pub enum UpdateType {
    /// The entity came (back) into the potentially visible set.
    EnterPVS,
    /// The entity left the potentially visible set.
    LeavePVS,
    /// The entity has a delta.
    DeltaEnt,
}

/// The update type that delta header flags stand for (`DetermineUpdateType`).
pub open spec fn update_type_spec(update_flags: usize) -> UpdateType {
    if update_flags & FHDR_ENTERPVS != 0 {
        UpdateType::EnterPVS
    } else if update_flags & FHDR_LEAVEPVS != 0 {
        UpdateType::LeavePVS
    } else {
        UpdateType::DeltaEnt
    }
}

/// Classifies delta header flags: entering wins over leaving, no flag is a delta.
pub fn determine_update_type(update_flags: usize) -> (r: UpdateType)
    ensures
        r == update_type_spec(update_flags),
{
    if update_flags & FHDR_ENTERPVS != 0 {
        UpdateType::EnterPVS
    } else if update_flags & FHDR_LEAVEPVS != 0 {
        UpdateType::LeavePVS
    } else {
        UpdateType::DeltaEnt
    }
}

/// What the parser does with an entity of a packet of entity deltas.
#[derive(Debug, Clone, Copy, PartialEq, Eq, Structural)]
pub enum EntityAction {
    /// The entity entered the potentially visible set: it is created from its class baseline
    /// and its delta.
    Create,
    /// The entity left the potentially visible set and is deleted.
    Delete,
    /// The entity left the potentially visible set and stays: nothing is done.
    Leave,
    /// The entity's delta is applied.
    Update,
}

/// The action that delta header flags call for.
pub open spec fn entity_action_spec(update_flags: usize) -> EntityAction {
    match update_type_spec(update_flags) {
        UpdateType::EnterPVS => EntityAction::Create,
        UpdateType::LeavePVS => if update_flags & FHDR_DELETE != 0 {
            EntityAction::Delete
        } else {
            EntityAction::Leave
        },
        UpdateType::DeltaEnt => EntityAction::Update,
    }
}

/// The next entity of a packet of entity deltas.
#[derive(Debug, Clone, Copy, PartialEq, Eq, Structural)]
pub struct EntityUpdate {
    pub index: i32,
    pub update_flags: usize,
    pub update_type: UpdateType,
    pub action: EntityAction,
}

/// The header of the next entity of a packet of entity deltas at bit `q`, after the entity of
/// index `entity_index`: a `UBitVar` step (the index moves on by the step and one, in 32 bit
/// wrapping arithmetic) and a delta header; and how many bits it takes.
pub open spec fn entity_update_spec(d: Seq<u8>, q: int, entity_index: i32) -> (EntityUpdate, int) {
    let (step, c) = ubitvar_spec(d, q);
    let flags = delta_header_spec(d, q + c);
    (
        EntityUpdate {
            index: entity_index.wrapping_add(step as u32 as i32).wrapping_add(1),
            update_flags: flags,
            update_type: update_type_spec(flags),
            action: entity_action_spec(flags),
        },
        c + 2int,
    )
}

/// Reads the header of the next entity of a packet of entity deltas, after the entity of index
/// `entity_index` (-1 before the first): see [`entity_update_spec`]. Running out of bits is an
/// overflow error.
pub fn read_entity_update(br: &mut BitReader, entity_index: i32) -> (r: Result<EntityUpdate, Error>)
    requires
        old(br).wf(),
    ensures
        final(br).wf(),
        final(br).bytes() == old(br).bytes(),
        ({
            let (u, n) = entity_update_spec(old(br).bytes(), old(br).pos(), entity_index);
            &&& old(br).pos() + n <= total_bits(old(br).bytes()) ==> r == Ok::<EntityUpdate, Error>(u)
                && final(br).pos() == old(br).pos() + n
            &&& old(br).pos() + n > total_bits(old(br).bytes()) ==> r == Err::<EntityUpdate, Error>(
                Error::BitBuf(BitBufError::Overflow),
            )
        }),
{
    let step = match br.read_ubitvar() {
        Ok(v) => v,
        Err(e) => return Err(Error::BitBuf(e)),
    };
    let update_flags = parse_delta_header(br)?;
    let update_type = determine_update_type(update_flags);
    let action = match update_type {
        UpdateType::EnterPVS => EntityAction::Create,
        UpdateType::LeavePVS => if update_flags & FHDR_DELETE != 0 {
            EntityAction::Delete
        } else {
            EntityAction::Leave
        },
        UpdateType::DeltaEnt => EntityAction::Update,
    };
    #[verifier::truncate]
    let step_i32 = step as i32;
    Ok(EntityUpdate { index: entity_index.wrapping_add(step_i32).wrapping_add(1), update_flags, update_type, action })
}

/// The key of a nested field: the FxHash of the first name's bytes, then each further name's
/// hash added in.
pub open spec fn field_key(parts: Seq<Seq<u8>>) -> u64
    decreases parts.len(),
{
    if parts.len() <= 1 {
        fx_hash_bytes(parts[0])
    } else {
        fx_add(field_key(parts.drop_last()), fx_hash_bytes(parts.last()))
    }
}

/// The bytes of each name of a path.
pub open spec fn path_bytes(path: Seq<&str>) -> Seq<Seq<u8>> {
    path.map_values(|s: &str| s.spec_bytes())
}

/// The key of the field that the names of `path` lead to (for example
/// `["m_vecOrigin", "x"]`): see [`field_key`].
pub fn make_field_key(path: &[&str]) -> (r: u64)
    requires
        path@.len() > 0,
    ensures
        r == field_key(path_bytes(path@)),
{
    let seed = hash_bytes(path[0].as_bytes());
    let mut hash = seed;
    let mut i: usize = 1;
    proof {
        assert(path_bytes(path@).subrange(0, 1).len() == 1);
    }
    while i < path.len()
        invariant
            1 <= i <= path.len(),
            hash == field_key(path_bytes(path@).subrange(0, i as int)),
        decreases path.len() - i,
    {
        let part = hash_bytes(path[i].as_bytes());
        proof {
            assert(path_bytes(path@).subrange(0, i + 1).drop_last() =~= path_bytes(path@).subrange(
                0,
                i as int,
            ));
        }
        hash = add_u64_to_hash(hash, part);
        i = i + 1;
    }
    proof {
        assert(path_bytes(path@).subrange(0, i as int) =~= path_bytes(path@));
    }
    hash
}

/// A delta header never says both that an entity enters and that it leaves the potentially
/// visible set, and says it is deleted only when it leaves; so its update type is entering
/// exactly when the first bit is clear and the second set, and leaving exactly when the first
/// bit is set.
pub proof fn lemma_delta_header_flags(d: Seq<u8>, q: int)
    ensures
        ({
            let f = delta_header_spec(d, q);
            &&& !(f & FHDR_ENTERPVS != 0 && f & FHDR_LEAVEPVS != 0)
            &&& f & FHDR_DELETE != 0 ==> f & FHDR_LEAVEPVS != 0
            &&& (update_type_spec(f) == UpdateType::EnterPVS) == (!bit_at(d, q) && bit_at(d, q + 1))
            &&& (update_type_spec(f) == UpdateType::LeavePVS) == bit_at(d, q)
        }),
{
    assert(0usize & 4usize == 0 && 0usize & 1usize == 0 && 0usize & 2usize == 0) by (bit_vector);
    assert(4usize & 4usize != 0 && 4usize & 1usize == 0 && 4usize & 2usize == 0) by (bit_vector);
    assert(1usize & 4usize == 0 && 1usize & 1usize != 0 && 1usize & 2usize == 0) by (bit_vector);
    assert((1usize | 2usize) & 4usize == 0 && (1usize | 2usize) & 1usize != 0 && (1usize | 2usize)
        & 2usize != 0) by (bit_vector);
}

/// The two header bits decide what happens to the entity: a clear bit then a set bit create
/// it, two set bits delete it, a set bit then a clear bit leave it as it is, and two clear bits
/// apply its delta. The header follows the index step and takes two bits.
pub proof fn lemma_entity_action_bits(d: Seq<u8>, q: int, entity_index: i32)
    ensures
        ({
            let (u, n) = entity_update_spec(d, q, entity_index);
            let c = ubitvar_spec(d, q).1 as int;
            let b0 = bit_at(d, q + c);
            let b1 = bit_at(d, q + c + 1);
            &&& (u.action == EntityAction::Create) == (!b0 && b1)
            &&& (u.action == EntityAction::Delete) == (b0 && b1)
            &&& (u.action == EntityAction::Leave) == (b0 && !b1)
            &&& (u.action == EntityAction::Update) == (!b0 && !b1)
            &&& n == c + 2
        }),
{
    assert(0usize & 4usize == 0 && 0usize & 1usize == 0 && 0usize & 2usize == 0) by (bit_vector);
    assert(4usize & 4usize != 0 && 4usize & 1usize == 0 && 4usize & 2usize == 0) by (bit_vector);
    assert(1usize & 4usize == 0 && 1usize & 1usize != 0 && 1usize & 2usize == 0) by (bit_vector);
    assert((1usize | 2usize) & 4usize == 0 && (1usize | 2usize) & 1usize != 0 && (1usize | 2usize)
        & 2usize != 0) by (bit_vector);
}

} // verus!
