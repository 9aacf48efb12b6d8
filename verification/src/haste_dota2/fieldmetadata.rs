//! What a field's declared type says of how the field is decoded. Names are compared by their
//! FxHash.

use crate::haste_base::fieldmetadata::{built_from_settings, DecoderKind};
use crate::haste_base::fxhash::hash_u8;
use crate::haste_core::fxhash::fx_hash_bytes;
use crate::haste_dota2_deflat::var_type::parser::{decl_is, SpecDecl};
use crate::haste_dota2_deflat::var_type::{ArrayLength, Decl};
use vstd::prelude::*;
use vstd::string::{StringExecFns, StringSliceAdditionalSpecFns};

verus! {

/// How a field differs from a plain value.
#[derive(Debug, Clone, Copy, PartialEq, Eq, Structural)]
pub enum FieldSpecialDescriptor {
    /// An array of a fixed length.
    Array { length: usize },
    /// An array of variable length of plain values.
    VariableLengthArray,
    /// An array of variable length of values of another serializer.
    VariableLengthSerializerArray,
    /// A pointer to another serializer.
    Pointer,
}

/// How a field is decoded.
#[derive(Debug, Clone, Copy, PartialEq, Eq, Structural)]
pub struct FieldMetadata {
    pub special_descriptor: Option<FieldSpecialDescriptor>,
    pub decoder: DecoderKind,
}

impl FieldMetadata {
    /// No special kind, and the decoder that decodes nothing.
    pub fn default() -> (r: Self)
        ensures
            r == (FieldMetadata { special_descriptor: None, decoder: DecoderKind::Nop }),
    {
        FieldMetadata { special_descriptor: None, decoder: DecoderKind::Nop }
    }
}

/// Why a field's metadata could not be found.
#[derive(Debug)]
pub enum Error {
    /// An array's length is a name that is not known.
    UnknownArrayLengthIdent(String),
    /// A decoder could not be built from the field's encoding settings.
    FieldDecoder,
}

/// The FxHash of the bytes of `s`.
pub open spec fn name_hash(s: &str) -> u64 {
    fx_hash_bytes(s.spec_bytes())
}

/// Plain metadata: no special kind.
pub open spec fn plain(decoder: DecoderKind) -> FieldMetadata {
    FieldMetadata { special_descriptor: None, decoder }
}

/// Metadata of a special kind.
pub open spec fn special(s: FieldSpecialDescriptor, decoder: DecoderKind) -> FieldMetadata {
    FieldMetadata { special_descriptor: Some(s), decoder }
}

/// The metadata of a field whose type is a name of hash `h`: the first name in the table with
/// that hash decides.
#[verifier::opaque]
pub open spec fn ident_metadata(h: u64) -> FieldMetadata {
    if h == name_hash("int8") {
        plain(DecoderKind::I8)
    } else if h == name_hash("int16") {
        plain(DecoderKind::I16)
    } else if h == name_hash("int32") {
        plain(DecoderKind::I32)
    } else if h == name_hash("int64") {
        plain(DecoderKind::I64)
    } else if h == name_hash("uint8") {
        plain(DecoderKind::U8)
    } else if h == name_hash("uint16") {
        plain(DecoderKind::U16)
    } else if h == name_hash("uint32") {
        plain(DecoderKind::U32)
    } else if h == name_hash("uint64") {
        plain(DecoderKind::U64ForField)
    } else if h == name_hash("bool") {
        plain(DecoderKind::Bool)
    } else if h == name_hash("float32") {
        plain(DecoderKind::F32ForField)
    } else if h == name_hash("CHandle") {
        plain(DecoderKind::U32)
    } else if h == name_hash("CStrongHandle") {
        plain(DecoderKind::U64ForField)
    } else if h == name_hash("CBodyComponent") || h == name_hash("CLightComponent") || h
        == name_hash("CRenderComponent") {
        special(FieldSpecialDescriptor::Pointer, DecoderKind::Bool)
    } else if h == name_hash("CUtlSymbolLarge") || h == name_hash("CUtlString") {
        plain(DecoderKind::String)
    } else if h == name_hash("QAngle") {
        plain(DecoderKind::QAngleForField)
    } else if h == name_hash("CNetworkedQuantizedFloat") {
        plain(DecoderKind::QuantizedFloatForField)
    } else if h == name_hash("GameTime_t") {
        plain(DecoderKind::F32ForField)
    } else if h == name_hash("MatchID_t") {
        plain(DecoderKind::U64ForField)
    } else if h == name_hash("Vector") {
        plain(DecoderKind::VectorForField)
    } else if h == name_hash("Vector2D") {
        plain(DecoderKind::Vector2DForField)
    } else if h == name_hash("Vector4D") {
        plain(DecoderKind::Vector4DForField)
    } else if h == name_hash("itemid_t") {
        plain(DecoderKind::U64ForField)
    } else if h == name_hash("m_SpeechBubbles") || h == name_hash("DOTA_CombatLogQueryProgress") {
        special(FieldSpecialDescriptor::VariableLengthSerializerArray, DecoderKind::U32)
    } else {
        plain(DecoderKind::U32)
    }
}

/// The hashes of the type names that the metadata table lists, in its order.
pub open spec fn table_name_hashes() -> Seq<u64> {
    seq![
        name_hash("int8"),
        name_hash("int16"),
        name_hash("int32"),
        name_hash("int64"),
        name_hash("uint8"),
        name_hash("uint16"),
        name_hash("uint32"),
        name_hash("uint64"),
        name_hash("bool"),
        name_hash("float32"),
        name_hash("CHandle"),
        name_hash("CStrongHandle"),
        name_hash("CBodyComponent"),
        name_hash("CLightComponent"),
        name_hash("CRenderComponent"),
        name_hash("CUtlSymbolLarge"),
        name_hash("CUtlString"),
        name_hash("QAngle"),
        name_hash("CNetworkedQuantizedFloat"),
        name_hash("GameTime_t"),
        name_hash("MatchID_t"),
        name_hash("Vector"),
        name_hash("Vector2D"),
        name_hash("Vector4D"),
        name_hash("itemid_t"),
        name_hash("m_SpeechBubbles"),
        name_hash("DOTA_CombatLogQueryProgress"),
    ]
}

/// No two type names of the metadata table hash alike.
pub open spec fn table_hashes_distinct() -> bool {
    forall|i: int, j: int|
        0 <= i < j < table_name_hashes().len() ==> #[trigger] table_name_hashes()[i]
            != #[trigger] table_name_hashes()[j]
}

/// Names of floating point types: their values decode as floats.
pub open spec fn is_float_type_name(s: &str) -> bool {
    s@ == "float32"@ || s@ == "GameTime_t"@
}

/// Names of types whose values are unsigned 32 bit integers (handles among them).
pub open spec fn is_u32_type_name(s: &str) -> bool {
    s@ == "uint32"@ || s@ == "CHandle"@
}

/// Names of types whose values are unsigned 64 bit integers (strong handles and ids among them).
pub open spec fn is_u64_type_name(s: &str) -> bool {
    s@ == "uint64"@ || s@ == "CStrongHandle"@ || s@ == "MatchID_t"@ || s@ == "itemid_t"@
}

/// Names of string types.
pub open spec fn is_string_type_name(s: &str) -> bool {
    s@ == "CUtlSymbolLarge"@ || s@ == "CUtlString"@
}

/// Names of entity components, which a field holds as a pointer to another serializer.
pub open spec fn is_component_type_name(s: &str) -> bool {
    s@ == "CBodyComponent"@ || s@ == "CLightComponent"@ || s@ == "CRenderComponent"@
}

/// Names of fields that are always variable length arrays of serializers.
pub open spec fn is_serializer_array_type_name(s: &str) -> bool {
    s@ == "m_SpeechBubbles"@ || s@ == "DOTA_CombatLogQueryProgress"@
}

/// Where no two names of the table hash alike, each kind of type name gets the decoder of its
/// kind: floats decode as floats, quantized floats as quantized floats, each sized integer at
/// its size, handles and ids as unsigned integers of their width, `bool` as a flag, strings as
/// strings, the angle and vector types as their vectors, components as pointers, and the
/// serializer array names as variable length arrays of serializers.
pub proof fn lemma_type_name_metadata(s: &str)
    requires
        table_hashes_distinct(),
    ensures
        is_float_type_name(s) ==> ident_metadata(name_hash(s)) == plain(DecoderKind::F32ForField),
        s@ == "CNetworkedQuantizedFloat"@ ==> ident_metadata(name_hash(s)) == plain(DecoderKind::QuantizedFloatForField),
        s@ == "int8"@ ==> ident_metadata(name_hash(s)) == plain(DecoderKind::I8),
        s@ == "int16"@ ==> ident_metadata(name_hash(s)) == plain(DecoderKind::I16),
        s@ == "int32"@ ==> ident_metadata(name_hash(s)) == plain(DecoderKind::I32),
        s@ == "int64"@ ==> ident_metadata(name_hash(s)) == plain(DecoderKind::I64),
        s@ == "uint8"@ ==> ident_metadata(name_hash(s)) == plain(DecoderKind::U8),
        s@ == "uint16"@ ==> ident_metadata(name_hash(s)) == plain(DecoderKind::U16),
        is_u32_type_name(s) ==> ident_metadata(name_hash(s)) == plain(DecoderKind::U32),
        is_u64_type_name(s) ==> ident_metadata(name_hash(s)) == plain(DecoderKind::U64ForField),
        s@ == "bool"@ ==> ident_metadata(name_hash(s)) == plain(DecoderKind::Bool),
        is_string_type_name(s) ==> ident_metadata(name_hash(s)) == plain(DecoderKind::String),
        s@ == "QAngle"@ ==> ident_metadata(name_hash(s)) == plain(DecoderKind::QAngleForField),
        s@ == "Vector"@ ==> ident_metadata(name_hash(s)) == plain(DecoderKind::VectorForField),
        s@ == "Vector2D"@ ==> ident_metadata(name_hash(s)) == plain(DecoderKind::Vector2DForField),
        s@ == "Vector4D"@ ==> ident_metadata(name_hash(s)) == plain(DecoderKind::Vector4DForField),
        is_component_type_name(s) ==> ident_metadata(name_hash(s)) == special(FieldSpecialDescriptor::Pointer, DecoderKind::Bool),
        is_serializer_array_type_name(s) ==> ident_metadata(name_hash(s)) == special(FieldSpecialDescriptor::VariableLengthSerializerArray, DecoderKind::U32),
{
    reveal(ident_metadata);
    let h = table_name_hashes();
    assert(h[0] == name_hash("int8"));
    assert(h[1] == name_hash("int16"));
    assert(h[2] == name_hash("int32"));
    assert(h[3] == name_hash("int64"));
    assert(h[4] == name_hash("uint8"));
    assert(h[5] == name_hash("uint16"));
    assert(h[6] == name_hash("uint32"));
    assert(h[7] == name_hash("uint64"));
    assert(h[8] == name_hash("bool"));
    assert(h[9] == name_hash("float32"));
    assert(h[10] == name_hash("CHandle"));
    assert(h[11] == name_hash("CStrongHandle"));
    assert(h[12] == name_hash("CBodyComponent"));
    assert(h[13] == name_hash("CLightComponent"));
    assert(h[14] == name_hash("CRenderComponent"));
    assert(h[15] == name_hash("CUtlSymbolLarge"));
    assert(h[16] == name_hash("CUtlString"));
    assert(h[17] == name_hash("QAngle"));
    assert(h[18] == name_hash("CNetworkedQuantizedFloat"));
    assert(h[19] == name_hash("GameTime_t"));
    assert(h[20] == name_hash("MatchID_t"));
    assert(h[21] == name_hash("Vector"));
    assert(h[22] == name_hash("Vector2D"));
    assert(h[23] == name_hash("Vector4D"));
    assert(h[24] == name_hash("itemid_t"));
    assert(h[25] == name_hash("m_SpeechBubbles"));
    assert(h[26] == name_hash("DOTA_CombatLogQueryProgress"));
    if s@ == "float32"@ {
        assert(s.spec_bytes() == "float32".spec_bytes());
            assert(h[0] != h[9]);
            assert(h[1] != h[9]);
            assert(h[2] != h[9]);
            assert(h[3] != h[9]);
            assert(h[4] != h[9]);
            assert(h[5] != h[9]);
            assert(h[6] != h[9]);
            assert(h[7] != h[9]);
            assert(h[8] != h[9]);
    }
    if s@ == "GameTime_t"@ {
        assert(s.spec_bytes() == "GameTime_t".spec_bytes());
            assert(h[0] != h[19]);
            assert(h[1] != h[19]);
            assert(h[2] != h[19]);
            assert(h[3] != h[19]);
            assert(h[4] != h[19]);
            assert(h[5] != h[19]);
            assert(h[6] != h[19]);
            assert(h[7] != h[19]);
            assert(h[8] != h[19]);
            assert(h[9] != h[19]);
            assert(h[10] != h[19]);
            assert(h[11] != h[19]);
            assert(h[12] != h[19]);
            assert(h[13] != h[19]);
            assert(h[14] != h[19]);
            assert(h[15] != h[19]);
            assert(h[16] != h[19]);
            assert(h[17] != h[19]);
            assert(h[18] != h[19]);
    }
    if s@ == "CNetworkedQuantizedFloat"@ {
        assert(s.spec_bytes() == "CNetworkedQuantizedFloat".spec_bytes());
            assert(h[0] != h[18]);
            assert(h[1] != h[18]);
            assert(h[2] != h[18]);
            assert(h[3] != h[18]);
            assert(h[4] != h[18]);
            assert(h[5] != h[18]);
            assert(h[6] != h[18]);
            assert(h[7] != h[18]);
            assert(h[8] != h[18]);
            assert(h[9] != h[18]);
            assert(h[10] != h[18]);
            assert(h[11] != h[18]);
            assert(h[12] != h[18]);
            assert(h[13] != h[18]);
            assert(h[14] != h[18]);
            assert(h[15] != h[18]);
            assert(h[16] != h[18]);
            assert(h[17] != h[18]);
    }
    if s@ == "int8"@ {
        assert(s.spec_bytes() == "int8".spec_bytes());

    }
    if s@ == "int16"@ {
        assert(s.spec_bytes() == "int16".spec_bytes());
            assert(h[0] != h[1]);
    }
    if s@ == "int32"@ {
        assert(s.spec_bytes() == "int32".spec_bytes());
            assert(h[0] != h[2]);
            assert(h[1] != h[2]);
    }
    if s@ == "int64"@ {
        assert(s.spec_bytes() == "int64".spec_bytes());
            assert(h[0] != h[3]);
            assert(h[1] != h[3]);
            assert(h[2] != h[3]);
    }
    if s@ == "uint8"@ {
        assert(s.spec_bytes() == "uint8".spec_bytes());
            assert(h[0] != h[4]);
            assert(h[1] != h[4]);
            assert(h[2] != h[4]);
            assert(h[3] != h[4]);
    }
    if s@ == "uint16"@ {
        assert(s.spec_bytes() == "uint16".spec_bytes());
            assert(h[0] != h[5]);
            assert(h[1] != h[5]);
            assert(h[2] != h[5]);
            assert(h[3] != h[5]);
            assert(h[4] != h[5]);
    }
    if s@ == "uint32"@ {
        assert(s.spec_bytes() == "uint32".spec_bytes());
            assert(h[0] != h[6]);
            assert(h[1] != h[6]);
            assert(h[2] != h[6]);
            assert(h[3] != h[6]);
            assert(h[4] != h[6]);
            assert(h[5] != h[6]);
    }
    if s@ == "CHandle"@ {
        assert(s.spec_bytes() == "CHandle".spec_bytes());
            assert(h[0] != h[10]);
            assert(h[1] != h[10]);
            assert(h[2] != h[10]);
            assert(h[3] != h[10]);
            assert(h[4] != h[10]);
            assert(h[5] != h[10]);
            assert(h[6] != h[10]);
            assert(h[7] != h[10]);
            assert(h[8] != h[10]);
            assert(h[9] != h[10]);
    }
    if s@ == "uint64"@ {
        assert(s.spec_bytes() == "uint64".spec_bytes());
            assert(h[0] != h[7]);
            assert(h[1] != h[7]);
            assert(h[2] != h[7]);
            assert(h[3] != h[7]);
            assert(h[4] != h[7]);
            assert(h[5] != h[7]);
            assert(h[6] != h[7]);
    }
    if s@ == "CStrongHandle"@ {
        assert(s.spec_bytes() == "CStrongHandle".spec_bytes());
            assert(h[0] != h[11]);
            assert(h[1] != h[11]);
            assert(h[2] != h[11]);
            assert(h[3] != h[11]);
            assert(h[4] != h[11]);
            assert(h[5] != h[11]);
            assert(h[6] != h[11]);
            assert(h[7] != h[11]);
            assert(h[8] != h[11]);
            assert(h[9] != h[11]);
            assert(h[10] != h[11]);
    }
    if s@ == "MatchID_t"@ {
        assert(s.spec_bytes() == "MatchID_t".spec_bytes());
            assert(h[0] != h[20]);
            assert(h[1] != h[20]);
            assert(h[2] != h[20]);
            assert(h[3] != h[20]);
            assert(h[4] != h[20]);
            assert(h[5] != h[20]);
            assert(h[6] != h[20]);
            assert(h[7] != h[20]);
            assert(h[8] != h[20]);
            assert(h[9] != h[20]);
            assert(h[10] != h[20]);
            assert(h[11] != h[20]);
            assert(h[12] != h[20]);
            assert(h[13] != h[20]);
            assert(h[14] != h[20]);
            assert(h[15] != h[20]);
            assert(h[16] != h[20]);
            assert(h[17] != h[20]);
            assert(h[18] != h[20]);
            assert(h[19] != h[20]);
    }
    if s@ == "itemid_t"@ {
        assert(s.spec_bytes() == "itemid_t".spec_bytes());
            assert(h[0] != h[24]);
            assert(h[1] != h[24]);
            assert(h[2] != h[24]);
            assert(h[3] != h[24]);
            assert(h[4] != h[24]);
            assert(h[5] != h[24]);
            assert(h[6] != h[24]);
            assert(h[7] != h[24]);
            assert(h[8] != h[24]);
            assert(h[9] != h[24]);
            assert(h[10] != h[24]);
            assert(h[11] != h[24]);
            assert(h[12] != h[24]);
            assert(h[13] != h[24]);
            assert(h[14] != h[24]);
            assert(h[15] != h[24]);
            assert(h[16] != h[24]);
            assert(h[17] != h[24]);
            assert(h[18] != h[24]);
            assert(h[19] != h[24]);
            assert(h[20] != h[24]);
            assert(h[21] != h[24]);
            assert(h[22] != h[24]);
            assert(h[23] != h[24]);
    }
    if s@ == "bool"@ {
        assert(s.spec_bytes() == "bool".spec_bytes());
            assert(h[0] != h[8]);
            assert(h[1] != h[8]);
            assert(h[2] != h[8]);
            assert(h[3] != h[8]);
            assert(h[4] != h[8]);
            assert(h[5] != h[8]);
            assert(h[6] != h[8]);
            assert(h[7] != h[8]);
    }
    if s@ == "CUtlSymbolLarge"@ {
        assert(s.spec_bytes() == "CUtlSymbolLarge".spec_bytes());
            assert(h[0] != h[15]);
            assert(h[1] != h[15]);
            assert(h[2] != h[15]);
            assert(h[3] != h[15]);
            assert(h[4] != h[15]);
            assert(h[5] != h[15]);
            assert(h[6] != h[15]);
            assert(h[7] != h[15]);
            assert(h[8] != h[15]);
            assert(h[9] != h[15]);
            assert(h[10] != h[15]);
            assert(h[11] != h[15]);
            assert(h[12] != h[15]);
            assert(h[13] != h[15]);
            assert(h[14] != h[15]);
    }
    if s@ == "CUtlString"@ {
        assert(s.spec_bytes() == "CUtlString".spec_bytes());
            assert(h[0] != h[16]);
            assert(h[1] != h[16]);
            assert(h[2] != h[16]);
            assert(h[3] != h[16]);
            assert(h[4] != h[16]);
            assert(h[5] != h[16]);
            assert(h[6] != h[16]);
            assert(h[7] != h[16]);
            assert(h[8] != h[16]);
            assert(h[9] != h[16]);
            assert(h[10] != h[16]);
            assert(h[11] != h[16]);
            assert(h[12] != h[16]);
            assert(h[13] != h[16]);
            assert(h[14] != h[16]);
            assert(h[15] != h[16]);
    }
    if s@ == "QAngle"@ {
        assert(s.spec_bytes() == "QAngle".spec_bytes());
            assert(h[0] != h[17]);
            assert(h[1] != h[17]);
            assert(h[2] != h[17]);
            assert(h[3] != h[17]);
            assert(h[4] != h[17]);
            assert(h[5] != h[17]);
            assert(h[6] != h[17]);
            assert(h[7] != h[17]);
            assert(h[8] != h[17]);
            assert(h[9] != h[17]);
            assert(h[10] != h[17]);
            assert(h[11] != h[17]);
            assert(h[12] != h[17]);
            assert(h[13] != h[17]);
            assert(h[14] != h[17]);
            assert(h[15] != h[17]);
            assert(h[16] != h[17]);
    }
    if s@ == "Vector"@ {
        assert(s.spec_bytes() == "Vector".spec_bytes());
            assert(h[0] != h[21]);
            assert(h[1] != h[21]);
            assert(h[2] != h[21]);
            assert(h[3] != h[21]);
            assert(h[4] != h[21]);
            assert(h[5] != h[21]);
            assert(h[6] != h[21]);
            assert(h[7] != h[21]);
            assert(h[8] != h[21]);
            assert(h[9] != h[21]);
            assert(h[10] != h[21]);
            assert(h[11] != h[21]);
            assert(h[12] != h[21]);
            assert(h[13] != h[21]);
            assert(h[14] != h[21]);
            assert(h[15] != h[21]);
            assert(h[16] != h[21]);
            assert(h[17] != h[21]);
            assert(h[18] != h[21]);
            assert(h[19] != h[21]);
            assert(h[20] != h[21]);
    }
    if s@ == "Vector2D"@ {
        assert(s.spec_bytes() == "Vector2D".spec_bytes());
            assert(h[0] != h[22]);
            assert(h[1] != h[22]);
            assert(h[2] != h[22]);
            assert(h[3] != h[22]);
            assert(h[4] != h[22]);
            assert(h[5] != h[22]);
            assert(h[6] != h[22]);
            assert(h[7] != h[22]);
            assert(h[8] != h[22]);
            assert(h[9] != h[22]);
            assert(h[10] != h[22]);
            assert(h[11] != h[22]);
            assert(h[12] != h[22]);
            assert(h[13] != h[22]);
            assert(h[14] != h[22]);
            assert(h[15] != h[22]);
            assert(h[16] != h[22]);
            assert(h[17] != h[22]);
            assert(h[18] != h[22]);
            assert(h[19] != h[22]);
            assert(h[20] != h[22]);
            assert(h[21] != h[22]);
    }
    if s@ == "Vector4D"@ {
        assert(s.spec_bytes() == "Vector4D".spec_bytes());
            assert(h[0] != h[23]);
            assert(h[1] != h[23]);
            assert(h[2] != h[23]);
            assert(h[3] != h[23]);
            assert(h[4] != h[23]);
            assert(h[5] != h[23]);
            assert(h[6] != h[23]);
            assert(h[7] != h[23]);
            assert(h[8] != h[23]);
            assert(h[9] != h[23]);
            assert(h[10] != h[23]);
            assert(h[11] != h[23]);
            assert(h[12] != h[23]);
            assert(h[13] != h[23]);
            assert(h[14] != h[23]);
            assert(h[15] != h[23]);
            assert(h[16] != h[23]);
            assert(h[17] != h[23]);
            assert(h[18] != h[23]);
            assert(h[19] != h[23]);
            assert(h[20] != h[23]);
            assert(h[21] != h[23]);
            assert(h[22] != h[23]);
    }
    if s@ == "CBodyComponent"@ {
        assert(s.spec_bytes() == "CBodyComponent".spec_bytes());
            assert(h[0] != h[12]);
            assert(h[1] != h[12]);
            assert(h[2] != h[12]);
            assert(h[3] != h[12]);
            assert(h[4] != h[12]);
            assert(h[5] != h[12]);
            assert(h[6] != h[12]);
            assert(h[7] != h[12]);
            assert(h[8] != h[12]);
            assert(h[9] != h[12]);
            assert(h[10] != h[12]);
            assert(h[11] != h[12]);
    }
    if s@ == "CLightComponent"@ {
        assert(s.spec_bytes() == "CLightComponent".spec_bytes());
            assert(h[0] != h[13]);
            assert(h[1] != h[13]);
            assert(h[2] != h[13]);
            assert(h[3] != h[13]);
            assert(h[4] != h[13]);
            assert(h[5] != h[13]);
            assert(h[6] != h[13]);
            assert(h[7] != h[13]);
            assert(h[8] != h[13]);
            assert(h[9] != h[13]);
            assert(h[10] != h[13]);
            assert(h[11] != h[13]);
            assert(h[12] != h[13]);
    }
    if s@ == "CRenderComponent"@ {
        assert(s.spec_bytes() == "CRenderComponent".spec_bytes());
            assert(h[0] != h[14]);
            assert(h[1] != h[14]);
            assert(h[2] != h[14]);
            assert(h[3] != h[14]);
            assert(h[4] != h[14]);
            assert(h[5] != h[14]);
            assert(h[6] != h[14]);
            assert(h[7] != h[14]);
            assert(h[8] != h[14]);
            assert(h[9] != h[14]);
            assert(h[10] != h[14]);
            assert(h[11] != h[14]);
            assert(h[12] != h[14]);
            assert(h[13] != h[14]);
    }
    if s@ == "m_SpeechBubbles"@ {
        assert(s.spec_bytes() == "m_SpeechBubbles".spec_bytes());
            assert(h[0] != h[25]);
            assert(h[1] != h[25]);
            assert(h[2] != h[25]);
            assert(h[3] != h[25]);
            assert(h[4] != h[25]);
            assert(h[5] != h[25]);
            assert(h[6] != h[25]);
            assert(h[7] != h[25]);
            assert(h[8] != h[25]);
            assert(h[9] != h[25]);
            assert(h[10] != h[25]);
            assert(h[11] != h[25]);
            assert(h[12] != h[25]);
            assert(h[13] != h[25]);
            assert(h[14] != h[25]);
            assert(h[15] != h[25]);
            assert(h[16] != h[25]);
            assert(h[17] != h[25]);
            assert(h[18] != h[25]);
            assert(h[19] != h[25]);
            assert(h[20] != h[25]);
            assert(h[21] != h[25]);
            assert(h[22] != h[25]);
            assert(h[23] != h[25]);
            assert(h[24] != h[25]);
    }
    if s@ == "DOTA_CombatLogQueryProgress"@ {
        assert(s.spec_bytes() == "DOTA_CombatLogQueryProgress".spec_bytes());
            assert(h[0] != h[26]);
            assert(h[1] != h[26]);
            assert(h[2] != h[26]);
            assert(h[3] != h[26]);
            assert(h[4] != h[26]);
            assert(h[5] != h[26]);
            assert(h[6] != h[26]);
            assert(h[7] != h[26]);
            assert(h[8] != h[26]);
            assert(h[9] != h[26]);
            assert(h[10] != h[26]);
            assert(h[11] != h[26]);
            assert(h[12] != h[26]);
            assert(h[13] != h[26]);
            assert(h[14] != h[26]);
            assert(h[15] != h[26]);
            assert(h[16] != h[26]);
            assert(h[17] != h[26]);
            assert(h[18] != h[26]);
            assert(h[19] != h[26]);
            assert(h[20] != h[26]);
            assert(h[21] != h[26]);
            assert(h[22] != h[26]);
            assert(h[23] != h[26]);
            assert(h[24] != h[26]);
            assert(h[25] != h[26]);
    }
}

/// The metadata of a field of declared type `d`, or the unknown array length name that stops
/// it.
pub open spec fn metadata_spec(d: Decl, has_serializer: bool) -> Result<FieldMetadata, Seq<char>>
    decreases d,
{
    match d {
        Decl::Ident(x) => Ok(ident_metadata(name_hash(x))),
        Decl::Pointer(_) => Ok(special(FieldSpecialDescriptor::Pointer, DecoderKind::Bool)),
        Decl::Template { ident, argument } => {
            let h = name_hash(ident);
            if h == name_hash("CNetworkUtlVectorBase") {
                if has_serializer {
                    Ok(special(FieldSpecialDescriptor::VariableLengthSerializerArray, DecoderKind::U32))
                } else {
                    match metadata_spec(*argument, has_serializer) {
                        Ok(m) => Ok(special(FieldSpecialDescriptor::VariableLengthArray, m.decoder)),
                        Err(s) => Err(s),
                    }
                }
            } else if h == name_hash("CUtlVectorEmbeddedNetworkVar") || h == name_hash("CUtlVector") {
                Ok(special(FieldSpecialDescriptor::VariableLengthSerializerArray, DecoderKind::U32))
            } else {
                Ok(ident_metadata(h))
            }
        },
        Decl::Array { decl, length } => if *decl matches Decl::Ident(x) && name_hash(x)
            == name_hash("char") {
            Ok(plain(DecoderKind::String))
        } else {
            let n = match length {
                ArrayLength::Ident(x) => if name_hash(x) == name_hash("MAX_ABILITY_DRAFT_ABILITIES") {
                    Ok(48usize)
                } else {
                    Err(x@)
                },
                ArrayLength::Number(n) => Ok(n),
            };
            match n {
                Err(s) => Err(s),
                Ok(n) => match metadata_spec(*decl, has_serializer) {
                    Ok(m) => Ok(special(FieldSpecialDescriptor::Array { length: n }, m.decoder)),
                    Err(s) => Err(s),
                },
            }
        },
    }
}

/// Two declarations read from the same text as the same declaration have the same metadata.
pub proof fn lemma_metadata_of_same_decl(d1: Decl, d2: Decl, sd: SpecDecl, text: Seq<char>, has_serializer: bool)
    requires
        decl_is(d1, sd, text),
        decl_is(d2, sd, text),
    ensures
        metadata_spec(d1, has_serializer) == metadata_spec(d2, has_serializer),
    decreases sd,
{
    match sd {
        SpecDecl::Ident(_, _) => {
            lemma_same_ident(d1, d2, sd, text);
            lemma_ident_case(d1, d2, has_serializer);
        },
        SpecDecl::Pointer(_) => {
            lemma_pointer_case(d1, d2, sd, text, has_serializer);
        },
        SpecDecl::Template(_, _, y) => {
            lemma_template_shape(d1, d2, sd, text);
            lemma_metadata_of_same_decl(*(d1->argument), *(d2->argument), *y, text, has_serializer);
            lemma_template_case(d1, d2, has_serializer);
        },
        SpecDecl::Array(y, _) => {
            lemma_array_shape(d1, d2, sd, text);
            lemma_metadata_of_same_decl(*(d1->decl), *(d2->decl), *y, text, has_serializer);
            if *(d1->decl) is Ident {
                lemma_same_ident(*(d1->decl), *(d2->decl), *y, text);
            }
            lemma_array_case(d1, d2, has_serializer);
        },
    }
}

proof fn lemma_pointer_case(d1: Decl, d2: Decl, sd: SpecDecl, text: Seq<char>, has_serializer: bool)
    requires
        decl_is(d1, sd, text),
        decl_is(d2, sd, text),
        sd is Pointer,
    ensures
        metadata_spec(d1, has_serializer) == metadata_spec(d2, has_serializer),
{
}

proof fn lemma_ident_case(d1: Decl, d2: Decl, has_serializer: bool)
    requires
        d1 is Ident,
        d2 is Ident,
        name_hash(d1->Ident_0) == name_hash(d2->Ident_0),
    ensures
        metadata_spec(d1, has_serializer) == metadata_spec(d2, has_serializer),
{
}

proof fn lemma_template_shape(d1: Decl, d2: Decl, sd: SpecDecl, text: Seq<char>)
    requires
        decl_is(d1, sd, text),
        decl_is(d2, sd, text),
        sd is Template,
    ensures
        d1 is Template,
        d2 is Template,
        name_hash(d1->ident) == name_hash(d2->ident),
        decl_is(*(d1->argument), *(sd->Template_2), text),
        decl_is(*(d2->argument), *(sd->Template_2), text),
{
}

proof fn lemma_template_case(d1: Decl, d2: Decl, has_serializer: bool)
    requires
        d1 is Template,
        d2 is Template,
        name_hash(d1->ident) == name_hash(d2->ident),
        metadata_spec(*(d1->argument), has_serializer) == metadata_spec(*(d2->argument), has_serializer),
    ensures
        metadata_spec(d1, has_serializer) == metadata_spec(d2, has_serializer),
{
}

proof fn lemma_array_shape(d1: Decl, d2: Decl, sd: SpecDecl, text: Seq<char>)
    requires
        decl_is(d1, sd, text),
        decl_is(d2, sd, text),
        sd is Array,
    ensures
        d1 is Array,
        d2 is Array,
        decl_is(*(d1->decl), *(sd->Array_0), text),
        decl_is(*(d2->decl), *(sd->Array_0), text),
        d1->length is Ident <==> d2->length is Ident,
        d1->length is Ident ==> d1->length->Ident_0@ == d2->length->Ident_0@,
        d1->length is Number ==> d1->length == d2->length,
{
}

proof fn lemma_array_case(d1: Decl, d2: Decl, has_serializer: bool)
    requires
        d1 is Array,
        d2 is Array,
        d1->length is Ident <==> d2->length is Ident,
        d1->length is Ident ==> d1->length->Ident_0@ == d2->length->Ident_0@,
        d1->length is Number ==> d1->length == d2->length,
        *(d1->decl) is Ident <==> *(d2->decl) is Ident,
        *(d1->decl) is Ident ==> name_hash((*(d1->decl))->Ident_0) == name_hash((*(d2->decl))->Ident_0),
        metadata_spec(*(d1->decl), has_serializer) == metadata_spec(*(d2->decl), has_serializer),
    ensures
        metadata_spec(d1, has_serializer) == metadata_spec(d2, has_serializer),
{
    let e1 = *(d1->decl);
    let e2 = *(d2->decl);
    let inner = metadata_spec(e1, has_serializer);
    if e1 is Ident && name_hash(e1->Ident_0) == name_hash("char") {
        assert(metadata_spec(d1, has_serializer) == Ok::<FieldMetadata, Seq<char>>(plain(DecoderKind::String)));
        assert(metadata_spec(d2, has_serializer) == Ok::<FieldMetadata, Seq<char>>(plain(DecoderKind::String)));
    } else {
        assert(!(e2 is Ident && name_hash(e2->Ident_0) == name_hash("char")));
    }
}

/// Two identifiers read from the same text have the same metadata.
proof fn lemma_same_ident(d1: Decl, d2: Decl, sd: SpecDecl, text: Seq<char>)
    requires
        decl_is(d1, sd, text),
        decl_is(d2, sd, text),
        sd is Ident,
    ensures
        d1 is Ident,
        d2 is Ident,
        name_hash(d1->Ident_0) == name_hash(d2->Ident_0),
{
}

/// The result of visiting stands for the spec result.
pub open spec fn visit_result_is(r: Result<FieldMetadata, Error>, s: Result<FieldMetadata, Seq<char>>) -> bool {
    match s {
        Ok(m) => r == Ok::<FieldMetadata, Error>(m),
        Err(name) => r matches Err(Error::UnknownArrayLengthIdent(x)) && x@ == name,
    }
}

/// The FxHash of the bytes of `s`.
fn hash_str(s: &str) -> (r: u64)
    ensures
        r == name_hash(s),
{
    hash_u8(s.as_bytes())
}

/// The metadata of a field whose type is a name of hash `h`: see [`ident_metadata`].
fn visit_ident(h: u64) -> (r: FieldMetadata)
    ensures
        r == ident_metadata(h),
{
    proof {
        reveal(ident_metadata);
    }
    let d = if h == hash_str("int8") {
        DecoderKind::I8
    } else if h == hash_str("int16") {
        DecoderKind::I16
    } else if h == hash_str("int32") {
        DecoderKind::I32
    } else if h == hash_str("int64") {
        DecoderKind::I64
    } else if h == hash_str("uint8") {
        DecoderKind::U8
    } else if h == hash_str("uint16") {
        DecoderKind::U16
    } else if h == hash_str("uint32") {
        DecoderKind::U32
    } else if h == hash_str("uint64") {
        DecoderKind::U64ForField
    } else if h == hash_str("bool") {
        DecoderKind::Bool
    } else if h == hash_str("float32") {
        DecoderKind::F32ForField
    } else if h == hash_str("CHandle") {
        DecoderKind::U32
    } else if h == hash_str("CStrongHandle") {
        DecoderKind::U64ForField
    } else if h == hash_str("CBodyComponent") || h == hash_str("CLightComponent") || h
        == hash_str("CRenderComponent") {
        return FieldMetadata {
            special_descriptor: Some(FieldSpecialDescriptor::Pointer),
            decoder: DecoderKind::Bool,
        };
    } else if h == hash_str("CUtlSymbolLarge") || h == hash_str("CUtlString") {
        DecoderKind::String
    } else if h == hash_str("QAngle") {
        DecoderKind::QAngleForField
    } else if h == hash_str("CNetworkedQuantizedFloat") {
        DecoderKind::QuantizedFloatForField
    } else if h == hash_str("GameTime_t") {
        DecoderKind::F32ForField
    } else if h == hash_str("MatchID_t") {
        DecoderKind::U64ForField
    } else if h == hash_str("Vector") {
        DecoderKind::VectorForField
    } else if h == hash_str("Vector2D") {
        DecoderKind::Vector2DForField
    } else if h == hash_str("Vector4D") {
        DecoderKind::Vector4DForField
    } else if h == hash_str("itemid_t") {
        DecoderKind::U64ForField
    } else if h == hash_str("m_SpeechBubbles") || h == hash_str("DOTA_CombatLogQueryProgress") {
        return FieldMetadata {
            special_descriptor: Some(FieldSpecialDescriptor::VariableLengthSerializerArray),
            decoder: DecoderKind::U32,
        };
    } else {
        DecoderKind::U32
    };
    FieldMetadata { special_descriptor: None, decoder: d }
}

/// The metadata of a field of declared type `decl`: see [`metadata_spec`].
fn visit_any(decl: &Decl, has_serializer: bool) -> (r: Result<FieldMetadata, Error>)
    ensures
        visit_result_is(r, metadata_spec(*decl, has_serializer)),
    decreases *decl,
{
    match decl {
        Decl::Ident(ident) => Ok(visit_ident(hash_str(ident))),
        Decl::Template { ident, argument } => {
            let h = hash_str(ident);
            if h == hash_str("CNetworkUtlVectorBase") {
                if has_serializer {
                    return Ok(
                        FieldMetadata {
                            special_descriptor: Some(
                                FieldSpecialDescriptor::VariableLengthSerializerArray,
                            ),
                            decoder: DecoderKind::U32,
                        },
                    );
                }
                return match visit_any(argument, has_serializer) {
                    Ok(m) => Ok(
                        FieldMetadata {
                            special_descriptor: Some(FieldSpecialDescriptor::VariableLengthArray),
                            decoder: m.decoder,
                        },
                    ),
                    Err(e) => Err(e),
                };
            }
            if h == hash_str("CUtlVectorEmbeddedNetworkVar") || h == hash_str("CUtlVector") {
                return Ok(
                    FieldMetadata {
                        special_descriptor: Some(FieldSpecialDescriptor::VariableLengthSerializerArray),
                        decoder: DecoderKind::U32,
                    },
                );
            }
            Ok(visit_ident(h))
        },
        Decl::Array { decl: inner, length } => {
            if let Decl::Ident(ident) = &**inner {
                if hash_str(ident) == hash_str("char") {
                    return Ok(
                        FieldMetadata { special_descriptor: None, decoder: DecoderKind::String },
                    );
                }
            }
            let n: usize = match length {
                ArrayLength::Ident(ident) => {
                    if hash_str(ident) == hash_str("MAX_ABILITY_DRAFT_ABILITIES") {
                        48
                    } else {
                        return Err(Error::UnknownArrayLengthIdent(String::from_str(ident)));
                    }
                },
                ArrayLength::Number(n) => *n,
            };
            match visit_any(inner, has_serializer) {
                Ok(m) => Ok(
                    FieldMetadata {
                        special_descriptor: Some(FieldSpecialDescriptor::Array { length: n }),
                        decoder: m.decoder,
                    },
                ),
                Err(e) => Err(e),
            }
        },
        Decl::Pointer(_) => Ok(
            FieldMetadata {
                special_descriptor: Some(FieldSpecialDescriptor::Pointer),
                decoder: DecoderKind::Bool,
            },
        ),
    }
}

/// The metadata of a field of declared type `var_type_decl` and with the encoding settings that
/// `decoder_builds` judges, for a field with a serializer of its own where `has_serializer`
/// holds: see [`metadata_spec`]. Where the type calls for a decoder that is built from the
/// field's encoding settings (see [`built_from_settings`]), `decoder_builds` says whether the
/// settings admit it (the range is floating point, judged where the field is decoded); where
/// they do not, the error is [`Error::FieldDecoder`].
pub fn get_field_metadata(var_type_decl: &Decl, has_serializer: bool, decoder_builds: bool) -> (r: Result<
    FieldMetadata,
    Error,
>)
    ensures
        match metadata_spec(*var_type_decl, has_serializer) {
            Ok(m) => if built_from_settings(m.decoder) && !decoder_builds {
                r matches Err(Error::FieldDecoder)
            } else {
                r == Ok::<FieldMetadata, Error>(m)
            },
            Err(name) => r matches Err(Error::UnknownArrayLengthIdent(x)) && x@ == name,
        },
{
    match visit_any(var_type_decl, has_serializer) {
        Ok(m) => {
            let from_settings = match m.decoder {
                DecoderKind::F32ForField => true,
                DecoderKind::QuantizedFloatForField => true,
                DecoderKind::VectorForField => true,
                DecoderKind::Vector2DForField => true,
                DecoderKind::Vector4DForField => true,
                _ => false,
            };
            if from_settings && !decoder_builds {
                Err(Error::FieldDecoder)
            } else {
                Ok(m)
            }
        },
        Err(e) => Err(e),
    }
}

} // verus!
