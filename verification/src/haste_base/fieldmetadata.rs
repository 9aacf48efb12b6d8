//! What a field's parsed variable type says of how the field is decoded: which decoder reads
//! its values, and whether it is an array or a pointer.

use crate::haste_vartype::parser::{expr_is, Expr, Lit, SpecExpr};
use vstd::prelude::*;
use vstd::string::{StrSliceExecFns, StringExecFns};

verus! {

/// Which decoder reads a field's values. The decoders marked "for the field" are built from
/// the field's own encoding settings.
#[derive(Debug, Clone, Copy, PartialEq, Eq, Structural)]
pub enum DecoderKind {
    /// Decodes nothing (a placeholder).
    Nop,
    I8,
    I16,
    I32,
    I64,
    U8,
    U16,
    U32,
    U64ForField,
    Bool,
    F32ForField,
    QAngleForField,
    QuantizedFloatForField,
    String,
    VectorForField,
    Vector2DForField,
    Vector4DForField,
}

/// How a field differs from a plain value.
#[derive(Debug, Clone, Copy, PartialEq, Eq, Structural)]
pub enum FieldSpecialDescriptor {
    /// An array of a fixed length.
    FixedArray { length: usize },
    /// An array of variable length of plain values, read by `decoder`.
    DynamicArray { decoder: DecoderKind },
    /// An array of variable length of values of another serializer.
    DynamicSerializerVector,
    /// A pointer to another serializer.
    Pointer,
}

impl FieldSpecialDescriptor {
    /// Whether the field is an array of variable length.
    pub fn is_vector(&self) -> (r: bool)
        ensures
            r == (self is DynamicArray || self is DynamicSerializerVector),
    {
        match self {
            FieldSpecialDescriptor::DynamicArray { .. } => true,
            FieldSpecialDescriptor::DynamicSerializerVector => true,
            _ => false,
        }
    }
}

/// How a field is decoded.
#[derive(Debug, Clone, Copy, PartialEq, Eq, Structural)]
pub struct FieldMetadata {
    pub special_descriptor: Option<FieldSpecialDescriptor>,
    pub decoder: DecoderKind,
}

impl FieldMetadata {
    /// No special kind, and the decoder that decodes nothing.
    pub fn default() -> (r: Self)
        ensures
            r == (FieldMetadata { special_descriptor: None, decoder: DecoderKind::Nop }),
    {
        FieldMetadata { special_descriptor: None, decoder: DecoderKind::Nop }
    }
}

/// Why a field's metadata could not be found.
#[derive(Debug)]
pub enum Error {
    /// An array's length is a name that is not known.
    UnknownArrayLenIdent(String),
    /// A decoder could not be built from the field's encoding settings.
    FieldDecoder,
}

/// Plain metadata: no special kind.
pub open spec fn plain(decoder: DecoderKind) -> FieldMetadata {
    FieldMetadata { special_descriptor: None, decoder }
}

/// Metadata of a special kind.
pub open spec fn special(s: FieldSpecialDescriptor, decoder: DecoderKind) -> FieldMetadata {
    FieldMetadata { special_descriptor: Some(s), decoder }
}

/// The metadata of a field whose type is the name `s`.
#[verifier::opaque]
pub open spec fn ident_metadata(s: Seq<char>) -> FieldMetadata {
    if s == "int8"@ {
        plain(DecoderKind::I8)
    } else if s == "int16"@ {
        plain(DecoderKind::I16)
    } else if s == "int32"@ {
        plain(DecoderKind::I32)
    } else if s == "int64"@ {
        plain(DecoderKind::I64)
    } else if s == "uint8"@ {
        plain(DecoderKind::U8)
    } else if s == "uint16"@ {
        plain(DecoderKind::U16)
    } else if s == "uint32"@ {
        plain(DecoderKind::U32)
    } else if s == "uint64"@ {
        plain(DecoderKind::U64ForField)
    } else if s == "bool"@ {
        plain(DecoderKind::Bool)
    } else if s == "float32"@ {
        plain(DecoderKind::F32ForField)
    } else if s == "CHandle"@ {
        plain(DecoderKind::U32)
    } else if s == "CStrongHandle"@ {
        plain(DecoderKind::U64ForField)
    } else if s == "CBodyComponent"@ || s == "CLightComponent"@ || s == "CRenderComponent"@ {
        special(FieldSpecialDescriptor::Pointer, DecoderKind::Bool)
    } else if s == "CUtlSymbolLarge"@ || s == "CUtlString"@ {
        plain(DecoderKind::String)
    } else if s == "QAngle"@ {
        plain(DecoderKind::QAngleForField)
    } else if s == "CNetworkedQuantizedFloat"@ {
        plain(DecoderKind::QuantizedFloatForField)
    } else if s == "GameTime_t"@ {
        plain(DecoderKind::F32ForField)
    } else if s == "MatchID_t"@ {
        plain(DecoderKind::U64ForField)
    } else if s == "Vector"@ {
        plain(DecoderKind::VectorForField)
    } else if s == "Vector2D"@ {
        plain(DecoderKind::Vector2DForField)
    } else if s == "Vector4D"@ {
        plain(DecoderKind::Vector4DForField)
    } else if s == "itemid_t"@ || s == "HeroFacetKey_t"@ {
        plain(DecoderKind::U64ForField)
    } else if s == "BloodType"@ {
        plain(DecoderKind::U32)
    } else if s == "m_SpeechBubbles"@ || s == "DOTA_CombatLogQueryProgress"@ {
        special(FieldSpecialDescriptor::DynamicSerializerVector, DecoderKind::U32)
    } else {
        plain(DecoderKind::U32)
    }
}

/// Names of floating point types: their values decode as floats.
pub open spec fn is_float_type_name(s: Seq<char>) -> bool {
    s == "float32"@ || s == "GameTime_t"@
}

/// Names of types whose values are unsigned 32 bit integers (handles among them).
pub open spec fn is_u32_type_name(s: Seq<char>) -> bool {
    s == "uint32"@ || s == "CHandle"@ || s == "BloodType"@
}

/// Names of types whose values are unsigned 64 bit integers (strong handles and ids among them).
pub open spec fn is_u64_type_name(s: Seq<char>) -> bool {
    s == "uint64"@ || s == "CStrongHandle"@ || s == "MatchID_t"@ || s == "itemid_t"@ || s == "HeroFacetKey_t"@
}

/// Names of string types.
pub open spec fn is_string_type_name(s: Seq<char>) -> bool {
    s == "CUtlSymbolLarge"@ || s == "CUtlString"@
}

/// Names of entity components, which a field holds as a pointer to another serializer.
pub open spec fn is_component_type_name(s: Seq<char>) -> bool {
    s == "CBodyComponent"@ || s == "CLightComponent"@ || s == "CRenderComponent"@
}

/// Names of fields that are always vectors of serializers.
pub open spec fn is_serializer_array_type_name(s: Seq<char>) -> bool {
    s == "m_SpeechBubbles"@ || s == "DOTA_CombatLogQueryProgress"@
}

/// A type name that the metadata table knows.
pub open spec fn is_known_type_name(s: Seq<char>) -> bool {
    s == "int8"@ || s == "int16"@ || s == "int32"@ || s == "int64"@ || s == "uint8"@ || s == "uint16"@ || s == "uint32"@ || s == "uint64"@ || s == "bool"@ || s == "float32"@ || s == "CHandle"@ || s == "CStrongHandle"@ || s == "CBodyComponent"@ || s == "CLightComponent"@ || s == "CRenderComponent"@ || s == "CUtlSymbolLarge"@ || s == "CUtlString"@ || s == "QAngle"@ || s == "CNetworkedQuantizedFloat"@ || s == "GameTime_t"@ || s == "MatchID_t"@ || s == "Vector"@ || s == "Vector2D"@ || s == "Vector4D"@ || s == "itemid_t"@ || s == "HeroFacetKey_t"@ || s == "BloodType"@ || s == "m_SpeechBubbles"@ || s == "DOTA_CombatLogQueryProgress"@
}

/// The names of one kind get that kind's metadata.
proof fn lemma_float_names_metadata(s: Seq<char>)
    requires
        is_float_type_name(s),
    ensures
        ident_metadata(s) == plain(DecoderKind::F32ForField),
{
    reveal(ident_metadata);
    reveal_strlit("int8");
    assert("int8"@.len() == 4);
    reveal_strlit("int16");
    assert("int16"@.len() == 5);
    reveal_strlit("int32");
    assert("int32"@.len() == 5);
    reveal_strlit("int64");
    assert("int64"@.len() == 5);
    reveal_strlit("uint8");
    assert("uint8"@.len() == 5);
    reveal_strlit("uint16");
    assert("uint16"@.len() == 6);
    reveal_strlit("uint32");
    assert("uint32"@.len() == 6);
    reveal_strlit("uint64");
    assert("uint64"@.len() == 6);
    reveal_strlit("bool");
    assert("bool"@.len() == 4);
    reveal_strlit("float32");
    assert("float32"@.len() == 7);
    reveal_strlit("CHandle");
    assert("CHandle"@.len() == 7);
    reveal_strlit("CStrongHandle");
    assert("CStrongHandle"@.len() == 13);
    reveal_strlit("CBodyComponent");
    assert("CBodyComponent"@.len() == 14);
    reveal_strlit("CLightComponent");
    assert("CLightComponent"@.len() == 15);
    reveal_strlit("CRenderComponent");
    assert("CRenderComponent"@.len() == 16);
    reveal_strlit("CUtlSymbolLarge");
    assert("CUtlSymbolLarge"@.len() == 15);
    reveal_strlit("CUtlString");
    assert("CUtlString"@.len() == 10);
    reveal_strlit("QAngle");
    assert("QAngle"@.len() == 6);
    reveal_strlit("CNetworkedQuantizedFloat");
    assert("CNetworkedQuantizedFloat"@.len() == 24);
    reveal_strlit("GameTime_t");
    assert("GameTime_t"@.len() == 10);
    reveal_strlit("MatchID_t");
    assert("MatchID_t"@.len() == 9);
    reveal_strlit("Vector");
    assert("Vector"@.len() == 6);
    reveal_strlit("Vector2D");
    assert("Vector2D"@.len() == 8);
    reveal_strlit("Vector4D");
    assert("Vector4D"@.len() == 8);
    reveal_strlit("itemid_t");
    assert("itemid_t"@.len() == 8);
    reveal_strlit("HeroFacetKey_t");
    assert("HeroFacetKey_t"@.len() == 14);
    reveal_strlit("BloodType");
    assert("BloodType"@.len() == 9);
    reveal_strlit("m_SpeechBubbles");
    assert("m_SpeechBubbles"@.len() == 15);
    reveal_strlit("DOTA_CombatLogQueryProgress");
    assert("DOTA_CombatLogQueryProgress"@.len() == 27);
    if s == "float32"@ {
        assert("float32"@[0] != "CHandle"@[0]);
    }
    if s == "GameTime_t"@ {
        assert("GameTime_t"@[0] != "CUtlString"@[0]);
    }
}

/// The names of one kind get that kind's metadata.
proof fn lemma_quantized_names_metadata(s: Seq<char>)
    requires
        s == "CNetworkedQuantizedFloat"@,
    ensures
        ident_metadata(s) == plain(DecoderKind::QuantizedFloatForField),
{
    reveal(ident_metadata);
    reveal_strlit("int8");
    assert("int8"@.len() == 4);
    reveal_strlit("int16");
    assert("int16"@.len() == 5);
    reveal_strlit("int32");
    assert("int32"@.len() == 5);
    reveal_strlit("int64");
    assert("int64"@.len() == 5);
    reveal_strlit("uint8");
    assert("uint8"@.len() == 5);
    reveal_strlit("uint16");
    assert("uint16"@.len() == 6);
    reveal_strlit("uint32");
    assert("uint32"@.len() == 6);
    reveal_strlit("uint64");
    assert("uint64"@.len() == 6);
    reveal_strlit("bool");
    assert("bool"@.len() == 4);
    reveal_strlit("float32");
    assert("float32"@.len() == 7);
    reveal_strlit("CHandle");
    assert("CHandle"@.len() == 7);
    reveal_strlit("CStrongHandle");
    assert("CStrongHandle"@.len() == 13);
    reveal_strlit("CBodyComponent");
    assert("CBodyComponent"@.len() == 14);
    reveal_strlit("CLightComponent");
    assert("CLightComponent"@.len() == 15);
    reveal_strlit("CRenderComponent");
    assert("CRenderComponent"@.len() == 16);
    reveal_strlit("CUtlSymbolLarge");
    assert("CUtlSymbolLarge"@.len() == 15);
    reveal_strlit("CUtlString");
    assert("CUtlString"@.len() == 10);
    reveal_strlit("QAngle");
    assert("QAngle"@.len() == 6);
    reveal_strlit("CNetworkedQuantizedFloat");
    assert("CNetworkedQuantizedFloat"@.len() == 24);
    reveal_strlit("GameTime_t");
    assert("GameTime_t"@.len() == 10);
    reveal_strlit("MatchID_t");
    assert("MatchID_t"@.len() == 9);
    reveal_strlit("Vector");
    assert("Vector"@.len() == 6);
    reveal_strlit("Vector2D");
    assert("Vector2D"@.len() == 8);
    reveal_strlit("Vector4D");
    assert("Vector4D"@.len() == 8);
    reveal_strlit("itemid_t");
    assert("itemid_t"@.len() == 8);
    reveal_strlit("HeroFacetKey_t");
    assert("HeroFacetKey_t"@.len() == 14);
    reveal_strlit("BloodType");
    assert("BloodType"@.len() == 9);
    reveal_strlit("m_SpeechBubbles");
    assert("m_SpeechBubbles"@.len() == 15);
    reveal_strlit("DOTA_CombatLogQueryProgress");
    assert("DOTA_CombatLogQueryProgress"@.len() == 27);
}

/// The names of one kind get that kind's metadata.
proof fn lemma_i8_names_metadata(s: Seq<char>)
    requires
        s == "int8"@,
    ensures
        ident_metadata(s) == plain(DecoderKind::I8),
{
    reveal(ident_metadata);
    reveal_strlit("int8");
    assert("int8"@.len() == 4);
    reveal_strlit("int16");
    assert("int16"@.len() == 5);
    reveal_strlit("int32");
    assert("int32"@.len() == 5);
    reveal_strlit("int64");
    assert("int64"@.len() == 5);
    reveal_strlit("uint8");
    assert("uint8"@.len() == 5);
    reveal_strlit("uint16");
    assert("uint16"@.len() == 6);
    reveal_strlit("uint32");
    assert("uint32"@.len() == 6);
    reveal_strlit("uint64");
    assert("uint64"@.len() == 6);
    reveal_strlit("bool");
    assert("bool"@.len() == 4);
    reveal_strlit("float32");
    assert("float32"@.len() == 7);
    reveal_strlit("CHandle");
    assert("CHandle"@.len() == 7);
    reveal_strlit("CStrongHandle");
    assert("CStrongHandle"@.len() == 13);
    reveal_strlit("CBodyComponent");
    assert("CBodyComponent"@.len() == 14);
    reveal_strlit("CLightComponent");
    assert("CLightComponent"@.len() == 15);
    reveal_strlit("CRenderComponent");
    assert("CRenderComponent"@.len() == 16);
    reveal_strlit("CUtlSymbolLarge");
    assert("CUtlSymbolLarge"@.len() == 15);
    reveal_strlit("CUtlString");
    assert("CUtlString"@.len() == 10);
    reveal_strlit("QAngle");
    assert("QAngle"@.len() == 6);
    reveal_strlit("CNetworkedQuantizedFloat");
    assert("CNetworkedQuantizedFloat"@.len() == 24);
    reveal_strlit("GameTime_t");
    assert("GameTime_t"@.len() == 10);
    reveal_strlit("MatchID_t");
    assert("MatchID_t"@.len() == 9);
    reveal_strlit("Vector");
    assert("Vector"@.len() == 6);
    reveal_strlit("Vector2D");
    assert("Vector2D"@.len() == 8);
    reveal_strlit("Vector4D");
    assert("Vector4D"@.len() == 8);
    reveal_strlit("itemid_t");
    assert("itemid_t"@.len() == 8);
    reveal_strlit("HeroFacetKey_t");
    assert("HeroFacetKey_t"@.len() == 14);
    reveal_strlit("BloodType");
    assert("BloodType"@.len() == 9);
    reveal_strlit("m_SpeechBubbles");
    assert("m_SpeechBubbles"@.len() == 15);
    reveal_strlit("DOTA_CombatLogQueryProgress");
    assert("DOTA_CombatLogQueryProgress"@.len() == 27);
    if s == "int8"@ {
        assert("int8"@[0] != "bool"@[0]);
    }
}

/// The names of one kind get that kind's metadata.
proof fn lemma_i16_names_metadata(s: Seq<char>)
    requires
        s == "int16"@,
    ensures
        ident_metadata(s) == plain(DecoderKind::I16),
{
    reveal(ident_metadata);
    reveal_strlit("int8");
    assert("int8"@.len() == 4);
    reveal_strlit("int16");
    assert("int16"@.len() == 5);
    reveal_strlit("int32");
    assert("int32"@.len() == 5);
    reveal_strlit("int64");
    assert("int64"@.len() == 5);
    reveal_strlit("uint8");
    assert("uint8"@.len() == 5);
    reveal_strlit("uint16");
    assert("uint16"@.len() == 6);
    reveal_strlit("uint32");
    assert("uint32"@.len() == 6);
    reveal_strlit("uint64");
    assert("uint64"@.len() == 6);
    reveal_strlit("bool");
    assert("bool"@.len() == 4);
    reveal_strlit("float32");
    assert("float32"@.len() == 7);
    reveal_strlit("CHandle");
    assert("CHandle"@.len() == 7);
    reveal_strlit("CStrongHandle");
    assert("CStrongHandle"@.len() == 13);
    reveal_strlit("CBodyComponent");
    assert("CBodyComponent"@.len() == 14);
    reveal_strlit("CLightComponent");
    assert("CLightComponent"@.len() == 15);
    reveal_strlit("CRenderComponent");
    assert("CRenderComponent"@.len() == 16);
    reveal_strlit("CUtlSymbolLarge");
    assert("CUtlSymbolLarge"@.len() == 15);
    reveal_strlit("CUtlString");
    assert("CUtlString"@.len() == 10);
    reveal_strlit("QAngle");
    assert("QAngle"@.len() == 6);
    reveal_strlit("CNetworkedQuantizedFloat");
    assert("CNetworkedQuantizedFloat"@.len() == 24);
    reveal_strlit("GameTime_t");
    assert("GameTime_t"@.len() == 10);
    reveal_strlit("MatchID_t");
    assert("MatchID_t"@.len() == 9);
    reveal_strlit("Vector");
    assert("Vector"@.len() == 6);
    reveal_strlit("Vector2D");
    assert("Vector2D"@.len() == 8);
    reveal_strlit("Vector4D");
    assert("Vector4D"@.len() == 8);
    reveal_strlit("itemid_t");
    assert("itemid_t"@.len() == 8);
    reveal_strlit("HeroFacetKey_t");
    assert("HeroFacetKey_t"@.len() == 14);
    reveal_strlit("BloodType");
    assert("BloodType"@.len() == 9);
    reveal_strlit("m_SpeechBubbles");
    assert("m_SpeechBubbles"@.len() == 15);
    reveal_strlit("DOTA_CombatLogQueryProgress");
    assert("DOTA_CombatLogQueryProgress"@.len() == 27);
    if s == "int16"@ {
        assert("int16"@[3] != "int32"@[3]);
        assert("int16"@[3] != "int64"@[3]);
        assert("int16"@[0] != "uint8"@[0]);
    }
}

/// The names of one kind get that kind's metadata.
proof fn lemma_i32_names_metadata(s: Seq<char>)
    requires
        s == "int32"@,
    ensures
        ident_metadata(s) == plain(DecoderKind::I32),
{
    reveal(ident_metadata);
    reveal_strlit("int8");
    assert("int8"@.len() == 4);
    reveal_strlit("int16");
    assert("int16"@.len() == 5);
    reveal_strlit("int32");
    assert("int32"@.len() == 5);
    reveal_strlit("int64");
    assert("int64"@.len() == 5);
    reveal_strlit("uint8");
    assert("uint8"@.len() == 5);
    reveal_strlit("uint16");
    assert("uint16"@.len() == 6);
    reveal_strlit("uint32");
    assert("uint32"@.len() == 6);
    reveal_strlit("uint64");
    assert("uint64"@.len() == 6);
    reveal_strlit("bool");
    assert("bool"@.len() == 4);
    reveal_strlit("float32");
    assert("float32"@.len() == 7);
    reveal_strlit("CHandle");
    assert("CHandle"@.len() == 7);
    reveal_strlit("CStrongHandle");
    assert("CStrongHandle"@.len() == 13);
    reveal_strlit("CBodyComponent");
    assert("CBodyComponent"@.len() == 14);
    reveal_strlit("CLightComponent");
    assert("CLightComponent"@.len() == 15);
    reveal_strlit("CRenderComponent");
    assert("CRenderComponent"@.len() == 16);
    reveal_strlit("CUtlSymbolLarge");
    assert("CUtlSymbolLarge"@.len() == 15);
    reveal_strlit("CUtlString");
    assert("CUtlString"@.len() == 10);
    reveal_strlit("QAngle");
    assert("QAngle"@.len() == 6);
    reveal_strlit("CNetworkedQuantizedFloat");
    assert("CNetworkedQuantizedFloat"@.len() == 24);
    reveal_strlit("GameTime_t");
    assert("GameTime_t"@.len() == 10);
    reveal_strlit("MatchID_t");
    assert("MatchID_t"@.len() == 9);
    reveal_strlit("Vector");
    assert("Vector"@.len() == 6);
    reveal_strlit("Vector2D");
    assert("Vector2D"@.len() == 8);
    reveal_strlit("Vector4D");
    assert("Vector4D"@.len() == 8);
    reveal_strlit("itemid_t");
    assert("itemid_t"@.len() == 8);
    reveal_strlit("HeroFacetKey_t");
    assert("HeroFacetKey_t"@.len() == 14);
    reveal_strlit("BloodType");
    assert("BloodType"@.len() == 9);
    reveal_strlit("m_SpeechBubbles");
    assert("m_SpeechBubbles"@.len() == 15);
    reveal_strlit("DOTA_CombatLogQueryProgress");
    assert("DOTA_CombatLogQueryProgress"@.len() == 27);
    if s == "int32"@ {
        assert("int32"@[3] != "int16"@[3]);
        assert("int32"@[3] != "int64"@[3]);
        assert("int32"@[0] != "uint8"@[0]);
    }
}

/// The names of one kind get that kind's metadata.
proof fn lemma_i64_names_metadata(s: Seq<char>)
    requires
        s == "int64"@,
    ensures
        ident_metadata(s) == plain(DecoderKind::I64),
{
    reveal(ident_metadata);
    reveal_strlit("int8");
    assert("int8"@.len() == 4);
    reveal_strlit("int16");
    assert("int16"@.len() == 5);
    reveal_strlit("int32");
    assert("int32"@.len() == 5);
    reveal_strlit("int64");
    assert("int64"@.len() == 5);
    reveal_strlit("uint8");
    assert("uint8"@.len() == 5);
    reveal_strlit("uint16");
    assert("uint16"@.len() == 6);
    reveal_strlit("uint32");
    assert("uint32"@.len() == 6);
    reveal_strlit("uint64");
    assert("uint64"@.len() == 6);
    reveal_strlit("bool");
    assert("bool"@.len() == 4);
    reveal_strlit("float32");
    assert("float32"@.len() == 7);
    reveal_strlit("CHandle");
    assert("CHandle"@.len() == 7);
    reveal_strlit("CStrongHandle");
    assert("CStrongHandle"@.len() == 13);
    reveal_strlit("CBodyComponent");
    assert("CBodyComponent"@.len() == 14);
    reveal_strlit("CLightComponent");
    assert("CLightComponent"@.len() == 15);
    reveal_strlit("CRenderComponent");
    assert("CRenderComponent"@.len() == 16);
    reveal_strlit("CUtlSymbolLarge");
    assert("CUtlSymbolLarge"@.len() == 15);
    reveal_strlit("CUtlString");
    assert("CUtlString"@.len() == 10);
    reveal_strlit("QAngle");
    assert("QAngle"@.len() == 6);
    reveal_strlit("CNetworkedQuantizedFloat");
    assert("CNetworkedQuantizedFloat"@.len() == 24);
    reveal_strlit("GameTime_t");
    assert("GameTime_t"@.len() == 10);
    reveal_strlit("MatchID_t");
    assert("MatchID_t"@.len() == 9);
    reveal_strlit("Vector");
    assert("Vector"@.len() == 6);
    reveal_strlit("Vector2D");
    assert("Vector2D"@.len() == 8);
    reveal_strlit("Vector4D");
    assert("Vector4D"@.len() == 8);
    reveal_strlit("itemid_t");
    assert("itemid_t"@.len() == 8);
    reveal_strlit("HeroFacetKey_t");
    assert("HeroFacetKey_t"@.len() == 14);
    reveal_strlit("BloodType");
    assert("BloodType"@.len() == 9);
    reveal_strlit("m_SpeechBubbles");
    assert("m_SpeechBubbles"@.len() == 15);
    reveal_strlit("DOTA_CombatLogQueryProgress");
    assert("DOTA_CombatLogQueryProgress"@.len() == 27);
    if s == "int64"@ {
        assert("int64"@[3] != "int16"@[3]);
        assert("int64"@[3] != "int32"@[3]);
        assert("int64"@[0] != "uint8"@[0]);
    }
}

/// The names of one kind get that kind's metadata.
proof fn lemma_u8_names_metadata(s: Seq<char>)
    requires
        s == "uint8"@,
    ensures
        ident_metadata(s) == plain(DecoderKind::U8),
{
    reveal(ident_metadata);
    reveal_strlit("int8");
    assert("int8"@.len() == 4);
    reveal_strlit("int16");
    assert("int16"@.len() == 5);
    reveal_strlit("int32");
    assert("int32"@.len() == 5);
    reveal_strlit("int64");
    assert("int64"@.len() == 5);
    reveal_strlit("uint8");
    assert("uint8"@.len() == 5);
    reveal_strlit("uint16");
    assert("uint16"@.len() == 6);
    reveal_strlit("uint32");
    assert("uint32"@.len() == 6);
    reveal_strlit("uint64");
    assert("uint64"@.len() == 6);
    reveal_strlit("bool");
    assert("bool"@.len() == 4);
    reveal_strlit("float32");
    assert("float32"@.len() == 7);
    reveal_strlit("CHandle");
    assert("CHandle"@.len() == 7);
    reveal_strlit("CStrongHandle");
    assert("CStrongHandle"@.len() == 13);
    reveal_strlit("CBodyComponent");
    assert("CBodyComponent"@.len() == 14);
    reveal_strlit("CLightComponent");
    assert("CLightComponent"@.len() == 15);
    reveal_strlit("CRenderComponent");
    assert("CRenderComponent"@.len() == 16);
    reveal_strlit("CUtlSymbolLarge");
    assert("CUtlSymbolLarge"@.len() == 15);
    reveal_strlit("CUtlString");
    assert("CUtlString"@.len() == 10);
    reveal_strlit("QAngle");
    assert("QAngle"@.len() == 6);
    reveal_strlit("CNetworkedQuantizedFloat");
    assert("CNetworkedQuantizedFloat"@.len() == 24);
    reveal_strlit("GameTime_t");
    assert("GameTime_t"@.len() == 10);
    reveal_strlit("MatchID_t");
    assert("MatchID_t"@.len() == 9);
    reveal_strlit("Vector");
    assert("Vector"@.len() == 6);
    reveal_strlit("Vector2D");
    assert("Vector2D"@.len() == 8);
    reveal_strlit("Vector4D");
    assert("Vector4D"@.len() == 8);
    reveal_strlit("itemid_t");
    assert("itemid_t"@.len() == 8);
    reveal_strlit("HeroFacetKey_t");
    assert("HeroFacetKey_t"@.len() == 14);
    reveal_strlit("BloodType");
    assert("BloodType"@.len() == 9);
    reveal_strlit("m_SpeechBubbles");
    assert("m_SpeechBubbles"@.len() == 15);
    reveal_strlit("DOTA_CombatLogQueryProgress");
    assert("DOTA_CombatLogQueryProgress"@.len() == 27);
    if s == "uint8"@ {
        assert("uint8"@[0] != "int16"@[0]);
        assert("uint8"@[0] != "int32"@[0]);
        assert("uint8"@[0] != "int64"@[0]);
    }
}

/// The names of one kind get that kind's metadata.
proof fn lemma_u16_names_metadata(s: Seq<char>)
    requires
        s == "uint16"@,
    ensures
        ident_metadata(s) == plain(DecoderKind::U16),
{
    reveal(ident_metadata);
    reveal_strlit("int8");
    assert("int8"@.len() == 4);
    reveal_strlit("int16");
    assert("int16"@.len() == 5);
    reveal_strlit("int32");
    assert("int32"@.len() == 5);
    reveal_strlit("int64");
    assert("int64"@.len() == 5);
    reveal_strlit("uint8");
    assert("uint8"@.len() == 5);
    reveal_strlit("uint16");
    assert("uint16"@.len() == 6);
    reveal_strlit("uint32");
    assert("uint32"@.len() == 6);
    reveal_strlit("uint64");
    assert("uint64"@.len() == 6);
    reveal_strlit("bool");
    assert("bool"@.len() == 4);
    reveal_strlit("float32");
    assert("float32"@.len() == 7);
    reveal_strlit("CHandle");
    assert("CHandle"@.len() == 7);
    reveal_strlit("CStrongHandle");
    assert("CStrongHandle"@.len() == 13);
    reveal_strlit("CBodyComponent");
    assert("CBodyComponent"@.len() == 14);
    reveal_strlit("CLightComponent");
    assert("CLightComponent"@.len() == 15);
    reveal_strlit("CRenderComponent");
    assert("CRenderComponent"@.len() == 16);
    reveal_strlit("CUtlSymbolLarge");
    assert("CUtlSymbolLarge"@.len() == 15);
    reveal_strlit("CUtlString");
    assert("CUtlString"@.len() == 10);
    reveal_strlit("QAngle");
    assert("QAngle"@.len() == 6);
    reveal_strlit("CNetworkedQuantizedFloat");
    assert("CNetworkedQuantizedFloat"@.len() == 24);
    reveal_strlit("GameTime_t");
    assert("GameTime_t"@.len() == 10);
    reveal_strlit("MatchID_t");
    assert("MatchID_t"@.len() == 9);
    reveal_strlit("Vector");
    assert("Vector"@.len() == 6);
    reveal_strlit("Vector2D");
    assert("Vector2D"@.len() == 8);
    reveal_strlit("Vector4D");
    assert("Vector4D"@.len() == 8);
    reveal_strlit("itemid_t");
    assert("itemid_t"@.len() == 8);
    reveal_strlit("HeroFacetKey_t");
    assert("HeroFacetKey_t"@.len() == 14);
    reveal_strlit("BloodType");
    assert("BloodType"@.len() == 9);
    reveal_strlit("m_SpeechBubbles");
    assert("m_SpeechBubbles"@.len() == 15);
    reveal_strlit("DOTA_CombatLogQueryProgress");
    assert("DOTA_CombatLogQueryProgress"@.len() == 27);
    if s == "uint16"@ {
        assert("uint16"@[4] != "uint32"@[4]);
        assert("uint16"@[4] != "uint64"@[4]);
        assert("uint16"@[0] != "QAngle"@[0]);
        assert("uint16"@[0] != "Vector"@[0]);
    }
}

/// The names of one kind get that kind's metadata.
proof fn lemma_u32_names_metadata(s: Seq<char>)
    requires
        is_u32_type_name(s),
    ensures
        ident_metadata(s) == plain(DecoderKind::U32),
{
    reveal(ident_metadata);
    reveal_strlit("int8");
    assert("int8"@.len() == 4);
    reveal_strlit("int16");
    assert("int16"@.len() == 5);
    reveal_strlit("int32");
    assert("int32"@.len() == 5);
    reveal_strlit("int64");
    assert("int64"@.len() == 5);
    reveal_strlit("uint8");
    assert("uint8"@.len() == 5);
    reveal_strlit("uint16");
    assert("uint16"@.len() == 6);
    reveal_strlit("uint32");
    assert("uint32"@.len() == 6);
    reveal_strlit("uint64");
    assert("uint64"@.len() == 6);
    reveal_strlit("bool");
    assert("bool"@.len() == 4);
    reveal_strlit("float32");
    assert("float32"@.len() == 7);
    reveal_strlit("CHandle");
    assert("CHandle"@.len() == 7);
    reveal_strlit("CStrongHandle");
    assert("CStrongHandle"@.len() == 13);
    reveal_strlit("CBodyComponent");
    assert("CBodyComponent"@.len() == 14);
    reveal_strlit("CLightComponent");
    assert("CLightComponent"@.len() == 15);
    reveal_strlit("CRenderComponent");
    assert("CRenderComponent"@.len() == 16);
    reveal_strlit("CUtlSymbolLarge");
    assert("CUtlSymbolLarge"@.len() == 15);
    reveal_strlit("CUtlString");
    assert("CUtlString"@.len() == 10);
    reveal_strlit("QAngle");
    assert("QAngle"@.len() == 6);
    reveal_strlit("CNetworkedQuantizedFloat");
    assert("CNetworkedQuantizedFloat"@.len() == 24);
    reveal_strlit("GameTime_t");
    assert("GameTime_t"@.len() == 10);
    reveal_strlit("MatchID_t");
    assert("MatchID_t"@.len() == 9);
    reveal_strlit("Vector");
    assert("Vector"@.len() == 6);
    reveal_strlit("Vector2D");
    assert("Vector2D"@.len() == 8);
    reveal_strlit("Vector4D");
    assert("Vector4D"@.len() == 8);
    reveal_strlit("itemid_t");
    assert("itemid_t"@.len() == 8);
    reveal_strlit("HeroFacetKey_t");
    assert("HeroFacetKey_t"@.len() == 14);
    reveal_strlit("BloodType");
    assert("BloodType"@.len() == 9);
    reveal_strlit("m_SpeechBubbles");
    assert("m_SpeechBubbles"@.len() == 15);
    reveal_strlit("DOTA_CombatLogQueryProgress");
    assert("DOTA_CombatLogQueryProgress"@.len() == 27);
    if s == "uint32"@ {
        assert("uint32"@[4] != "uint16"@[4]);
        assert("uint32"@[4] != "uint64"@[4]);
        assert("uint32"@[0] != "QAngle"@[0]);
        assert("uint32"@[0] != "Vector"@[0]);
    }
    if s == "CHandle"@ {
        assert("CHandle"@[0] != "float32"@[0]);
    }
    if s == "BloodType"@ {
        assert("BloodType"@[0] != "MatchID_t"@[0]);
    }
}

/// The names of one kind get that kind's metadata.
proof fn lemma_u64_names_metadata(s: Seq<char>)
    requires
        is_u64_type_name(s),
    ensures
        ident_metadata(s) == plain(DecoderKind::U64ForField),
{
    reveal(ident_metadata);
    reveal_strlit("int8");
    assert("int8"@.len() == 4);
    reveal_strlit("int16");
    assert("int16"@.len() == 5);
    reveal_strlit("int32");
    assert("int32"@.len() == 5);
    reveal_strlit("int64");
    assert("int64"@.len() == 5);
    reveal_strlit("uint8");
    assert("uint8"@.len() == 5);
    reveal_strlit("uint16");
    assert("uint16"@.len() == 6);
    reveal_strlit("uint32");
    assert("uint32"@.len() == 6);
    reveal_strlit("uint64");
    assert("uint64"@.len() == 6);
    reveal_strlit("bool");
    assert("bool"@.len() == 4);
    reveal_strlit("float32");
    assert("float32"@.len() == 7);
    reveal_strlit("CHandle");
    assert("CHandle"@.len() == 7);
    reveal_strlit("CStrongHandle");
    assert("CStrongHandle"@.len() == 13);
    reveal_strlit("CBodyComponent");
    assert("CBodyComponent"@.len() == 14);
    reveal_strlit("CLightComponent");
    assert("CLightComponent"@.len() == 15);
    reveal_strlit("CRenderComponent");
    assert("CRenderComponent"@.len() == 16);
    reveal_strlit("CUtlSymbolLarge");
    assert("CUtlSymbolLarge"@.len() == 15);
    reveal_strlit("CUtlString");
    assert("CUtlString"@.len() == 10);
    reveal_strlit("QAngle");
    assert("QAngle"@.len() == 6);
    reveal_strlit("CNetworkedQuantizedFloat");
    assert("CNetworkedQuantizedFloat"@.len() == 24);
    reveal_strlit("GameTime_t");
    assert("GameTime_t"@.len() == 10);
    reveal_strlit("MatchID_t");
    assert("MatchID_t"@.len() == 9);
    reveal_strlit("Vector");
    assert("Vector"@.len() == 6);
    reveal_strlit("Vector2D");
    assert("Vector2D"@.len() == 8);
    reveal_strlit("Vector4D");
    assert("Vector4D"@.len() == 8);
    reveal_strlit("itemid_t");
    assert("itemid_t"@.len() == 8);
    reveal_strlit("HeroFacetKey_t");
    assert("HeroFacetKey_t"@.len() == 14);
    reveal_strlit("BloodType");
    assert("BloodType"@.len() == 9);
    reveal_strlit("m_SpeechBubbles");
    assert("m_SpeechBubbles"@.len() == 15);
    reveal_strlit("DOTA_CombatLogQueryProgress");
    assert("DOTA_CombatLogQueryProgress"@.len() == 27);
    if s == "uint64"@ {
        assert("uint64"@[4] != "uint16"@[4]);
        assert("uint64"@[4] != "uint32"@[4]);
        assert("uint64"@[0] != "QAngle"@[0]);
        assert("uint64"@[0] != "Vector"@[0]);
    }
    if s == "MatchID_t"@ {
        assert("MatchID_t"@[0] != "BloodType"@[0]);
    }
    if s == "itemid_t"@ {
        assert("itemid_t"@[0] != "Vector2D"@[0]);
        assert("itemid_t"@[0] != "Vector4D"@[0]);
    }
    if s == "HeroFacetKey_t"@ {
        assert("HeroFacetKey_t"@[0] != "CBodyComponent"@[0]);
    }
}

/// The names of one kind get that kind's metadata.
proof fn lemma_bool_names_metadata(s: Seq<char>)
    requires
        s == "bool"@,
    ensures
        ident_metadata(s) == plain(DecoderKind::Bool),
{
    reveal(ident_metadata);
    reveal_strlit("int8");
    assert("int8"@.len() == 4);
    reveal_strlit("int16");
    assert("int16"@.len() == 5);
    reveal_strlit("int32");
    assert("int32"@.len() == 5);
    reveal_strlit("int64");
    assert("int64"@.len() == 5);
    reveal_strlit("uint8");
    assert("uint8"@.len() == 5);
    reveal_strlit("uint16");
    assert("uint16"@.len() == 6);
    reveal_strlit("uint32");
    assert("uint32"@.len() == 6);
    reveal_strlit("uint64");
    assert("uint64"@.len() == 6);
    reveal_strlit("bool");
    assert("bool"@.len() == 4);
    reveal_strlit("float32");
    assert("float32"@.len() == 7);
    reveal_strlit("CHandle");
    assert("CHandle"@.len() == 7);
    reveal_strlit("CStrongHandle");
    assert("CStrongHandle"@.len() == 13);
    reveal_strlit("CBodyComponent");
    assert("CBodyComponent"@.len() == 14);
    reveal_strlit("CLightComponent");
    assert("CLightComponent"@.len() == 15);
    reveal_strlit("CRenderComponent");
    assert("CRenderComponent"@.len() == 16);
    reveal_strlit("CUtlSymbolLarge");
    assert("CUtlSymbolLarge"@.len() == 15);
    reveal_strlit("CUtlString");
    assert("CUtlString"@.len() == 10);
    reveal_strlit("QAngle");
    assert("QAngle"@.len() == 6);
    reveal_strlit("CNetworkedQuantizedFloat");
    assert("CNetworkedQuantizedFloat"@.len() == 24);
    reveal_strlit("GameTime_t");
    assert("GameTime_t"@.len() == 10);
    reveal_strlit("MatchID_t");
    assert("MatchID_t"@.len() == 9);
    reveal_strlit("Vector");
    assert("Vector"@.len() == 6);
    reveal_strlit("Vector2D");
    assert("Vector2D"@.len() == 8);
    reveal_strlit("Vector4D");
    assert("Vector4D"@.len() == 8);
    reveal_strlit("itemid_t");
    assert("itemid_t"@.len() == 8);
    reveal_strlit("HeroFacetKey_t");
    assert("HeroFacetKey_t"@.len() == 14);
    reveal_strlit("BloodType");
    assert("BloodType"@.len() == 9);
    reveal_strlit("m_SpeechBubbles");
    assert("m_SpeechBubbles"@.len() == 15);
    reveal_strlit("DOTA_CombatLogQueryProgress");
    assert("DOTA_CombatLogQueryProgress"@.len() == 27);
    if s == "bool"@ {
        assert("bool"@[0] != "int8"@[0]);
    }
}

/// The names of one kind get that kind's metadata.
proof fn lemma_string_names_metadata(s: Seq<char>)
    requires
        is_string_type_name(s),
    ensures
        ident_metadata(s) == plain(DecoderKind::String),
{
    reveal(ident_metadata);
    reveal_strlit("int8");
    assert("int8"@.len() == 4);
    reveal_strlit("int16");
    assert("int16"@.len() == 5);
    reveal_strlit("int32");
    assert("int32"@.len() == 5);
    reveal_strlit("int64");
    assert("int64"@.len() == 5);
    reveal_strlit("uint8");
    assert("uint8"@.len() == 5);
    reveal_strlit("uint16");
    assert("uint16"@.len() == 6);
    reveal_strlit("uint32");
    assert("uint32"@.len() == 6);
    reveal_strlit("uint64");
    assert("uint64"@.len() == 6);
    reveal_strlit("bool");
    assert("bool"@.len() == 4);
    reveal_strlit("float32");
    assert("float32"@.len() == 7);
    reveal_strlit("CHandle");
    assert("CHandle"@.len() == 7);
    reveal_strlit("CStrongHandle");
    assert("CStrongHandle"@.len() == 13);
    reveal_strlit("CBodyComponent");
    assert("CBodyComponent"@.len() == 14);
    reveal_strlit("CLightComponent");
    assert("CLightComponent"@.len() == 15);
    reveal_strlit("CRenderComponent");
    assert("CRenderComponent"@.len() == 16);
    reveal_strlit("CUtlSymbolLarge");
    assert("CUtlSymbolLarge"@.len() == 15);
    reveal_strlit("CUtlString");
    assert("CUtlString"@.len() == 10);
    reveal_strlit("QAngle");
    assert("QAngle"@.len() == 6);
    reveal_strlit("CNetworkedQuantizedFloat");
    assert("CNetworkedQuantizedFloat"@.len() == 24);
    reveal_strlit("GameTime_t");
    assert("GameTime_t"@.len() == 10);
    reveal_strlit("MatchID_t");
    assert("MatchID_t"@.len() == 9);
    reveal_strlit("Vector");
    assert("Vector"@.len() == 6);
    reveal_strlit("Vector2D");
    assert("Vector2D"@.len() == 8);
    reveal_strlit("Vector4D");
    assert("Vector4D"@.len() == 8);
    reveal_strlit("itemid_t");
    assert("itemid_t"@.len() == 8);
    reveal_strlit("HeroFacetKey_t");
    assert("HeroFacetKey_t"@.len() == 14);
    reveal_strlit("BloodType");
    assert("BloodType"@.len() == 9);
    reveal_strlit("m_SpeechBubbles");
    assert("m_SpeechBubbles"@.len() == 15);
    reveal_strlit("DOTA_CombatLogQueryProgress");
    assert("DOTA_CombatLogQueryProgress"@.len() == 27);
    if s == "CUtlSymbolLarge"@ {
        assert("CUtlSymbolLarge"@[1] != "CLightComponent"@[1]);
        assert("CUtlSymbolLarge"@[0] != "m_SpeechBubbles"@[0]);
    }
    if s == "CUtlString"@ {
        assert("CUtlString"@[0] != "GameTime_t"@[0]);
    }
}

/// The names of one kind get that kind's metadata.
proof fn lemma_qangle_names_metadata(s: Seq<char>)
    requires
        s == "QAngle"@,
    ensures
        ident_metadata(s) == plain(DecoderKind::QAngleForField),
{
    reveal(ident_metadata);
    reveal_strlit("int8");
    assert("int8"@.len() == 4);
    reveal_strlit("int16");
    assert("int16"@.len() == 5);
    reveal_strlit("int32");
    assert("int32"@.len() == 5);
    reveal_strlit("int64");
    assert("int64"@.len() == 5);
    reveal_strlit("uint8");
    assert("uint8"@.len() == 5);
    reveal_strlit("uint16");
    assert("uint16"@.len() == 6);
    reveal_strlit("uint32");
    assert("uint32"@.len() == 6);
    reveal_strlit("uint64");
    assert("uint64"@.len() == 6);
    reveal_strlit("bool");
    assert("bool"@.len() == 4);
    reveal_strlit("float32");
    assert("float32"@.len() == 7);
    reveal_strlit("CHandle");
    assert("CHandle"@.len() == 7);
    reveal_strlit("CStrongHandle");
    assert("CStrongHandle"@.len() == 13);
    reveal_strlit("CBodyComponent");
    assert("CBodyComponent"@.len() == 14);
    reveal_strlit("CLightComponent");
    assert("CLightComponent"@.len() == 15);
    reveal_strlit("CRenderComponent");
    assert("CRenderComponent"@.len() == 16);
    reveal_strlit("CUtlSymbolLarge");
    assert("CUtlSymbolLarge"@.len() == 15);
    reveal_strlit("CUtlString");
    assert("CUtlString"@.len() == 10);
    reveal_strlit("QAngle");
    assert("QAngle"@.len() == 6);
    reveal_strlit("CNetworkedQuantizedFloat");
    assert("CNetworkedQuantizedFloat"@.len() == 24);
    reveal_strlit("GameTime_t");
    assert("GameTime_t"@.len() == 10);
    reveal_strlit("MatchID_t");
    assert("MatchID_t"@.len() == 9);
    reveal_strlit("Vector");
    assert("Vector"@.len() == 6);
    reveal_strlit("Vector2D");
    assert("Vector2D"@.len() == 8);
    reveal_strlit("Vector4D");
    assert("Vector4D"@.len() == 8);
    reveal_strlit("itemid_t");
    assert("itemid_t"@.len() == 8);
    reveal_strlit("HeroFacetKey_t");
    assert("HeroFacetKey_t"@.len() == 14);
    reveal_strlit("BloodType");
    assert("BloodType"@.len() == 9);
    reveal_strlit("m_SpeechBubbles");
    assert("m_SpeechBubbles"@.len() == 15);
    reveal_strlit("DOTA_CombatLogQueryProgress");
    assert("DOTA_CombatLogQueryProgress"@.len() == 27);
    if s == "QAngle"@ {
        assert("QAngle"@[0] != "uint16"@[0]);
        assert("QAngle"@[0] != "uint32"@[0]);
        assert("QAngle"@[0] != "uint64"@[0]);
        assert("QAngle"@[0] != "Vector"@[0]);
    }
}

/// The names of one kind get that kind's metadata.
proof fn lemma_vector_names_metadata(s: Seq<char>)
    requires
        s == "Vector"@,
    ensures
        ident_metadata(s) == plain(DecoderKind::VectorForField),
{
    reveal(ident_metadata);
    reveal_strlit("int8");
    assert("int8"@.len() == 4);
    reveal_strlit("int16");
    assert("int16"@.len() == 5);
    reveal_strlit("int32");
    assert("int32"@.len() == 5);
    reveal_strlit("int64");
    assert("int64"@.len() == 5);
    reveal_strlit("uint8");
    assert("uint8"@.len() == 5);
    reveal_strlit("uint16");
    assert("uint16"@.len() == 6);
    reveal_strlit("uint32");
    assert("uint32"@.len() == 6);
    reveal_strlit("uint64");
    assert("uint64"@.len() == 6);
    reveal_strlit("bool");
    assert("bool"@.len() == 4);
    reveal_strlit("float32");
    assert("float32"@.len() == 7);
    reveal_strlit("CHandle");
    assert("CHandle"@.len() == 7);
    reveal_strlit("CStrongHandle");
    assert("CStrongHandle"@.len() == 13);
    reveal_strlit("CBodyComponent");
    assert("CBodyComponent"@.len() == 14);
    reveal_strlit("CLightComponent");
    assert("CLightComponent"@.len() == 15);
    reveal_strlit("CRenderComponent");
    assert("CRenderComponent"@.len() == 16);
    reveal_strlit("CUtlSymbolLarge");
    assert("CUtlSymbolLarge"@.len() == 15);
    reveal_strlit("CUtlString");
    assert("CUtlString"@.len() == 10);
    reveal_strlit("QAngle");
    assert("QAngle"@.len() == 6);
    reveal_strlit("CNetworkedQuantizedFloat");
    assert("CNetworkedQuantizedFloat"@.len() == 24);
    reveal_strlit("GameTime_t");
    assert("GameTime_t"@.len() == 10);
    reveal_strlit("MatchID_t");
    assert("MatchID_t"@.len() == 9);
    reveal_strlit("Vector");
    assert("Vector"@.len() == 6);
    reveal_strlit("Vector2D");
    assert("Vector2D"@.len() == 8);
    reveal_strlit("Vector4D");
    assert("Vector4D"@.len() == 8);
    reveal_strlit("itemid_t");
    assert("itemid_t"@.len() == 8);
    reveal_strlit("HeroFacetKey_t");
    assert("HeroFacetKey_t"@.len() == 14);
    reveal_strlit("BloodType");
    assert("BloodType"@.len() == 9);
    reveal_strlit("m_SpeechBubbles");
    assert("m_SpeechBubbles"@.len() == 15);
    reveal_strlit("DOTA_CombatLogQueryProgress");
    assert("DOTA_CombatLogQueryProgress"@.len() == 27);
    if s == "Vector"@ {
        assert("Vector"@[0] != "uint16"@[0]);
        assert("Vector"@[0] != "uint32"@[0]);
        assert("Vector"@[0] != "uint64"@[0]);
        assert("Vector"@[0] != "QAngle"@[0]);
    }
}

/// The names of one kind get that kind's metadata.
proof fn lemma_vector2_names_metadata(s: Seq<char>)
    requires
        s == "Vector2D"@,
    ensures
        ident_metadata(s) == plain(DecoderKind::Vector2DForField),
{
    reveal(ident_metadata);
    reveal_strlit("int8");
    assert("int8"@.len() == 4);
    reveal_strlit("int16");
    assert("int16"@.len() == 5);
    reveal_strlit("int32");
    assert("int32"@.len() == 5);
    reveal_strlit("int64");
    assert("int64"@.len() == 5);
    reveal_strlit("uint8");
    assert("uint8"@.len() == 5);
    reveal_strlit("uint16");
    assert("uint16"@.len() == 6);
    reveal_strlit("uint32");
    assert("uint32"@.len() == 6);
    reveal_strlit("uint64");
    assert("uint64"@.len() == 6);
    reveal_strlit("bool");
    assert("bool"@.len() == 4);
    reveal_strlit("float32");
    assert("float32"@.len() == 7);
    reveal_strlit("CHandle");
    assert("CHandle"@.len() == 7);
    reveal_strlit("CStrongHandle");
    assert("CStrongHandle"@.len() == 13);
    reveal_strlit("CBodyComponent");
    assert("CBodyComponent"@.len() == 14);
    reveal_strlit("CLightComponent");
    assert("CLightComponent"@.len() == 15);
    reveal_strlit("CRenderComponent");
    assert("CRenderComponent"@.len() == 16);
    reveal_strlit("CUtlSymbolLarge");
    assert("CUtlSymbolLarge"@.len() == 15);
    reveal_strlit("CUtlString");
    assert("CUtlString"@.len() == 10);
    reveal_strlit("QAngle");
    assert("QAngle"@.len() == 6);
    reveal_strlit("CNetworkedQuantizedFloat");
    assert("CNetworkedQuantizedFloat"@.len() == 24);
    reveal_strlit("GameTime_t");
    assert("GameTime_t"@.len() == 10);
    reveal_strlit("MatchID_t");
    assert("MatchID_t"@.len() == 9);
    reveal_strlit("Vector");
    assert("Vector"@.len() == 6);
    reveal_strlit("Vector2D");
    assert("Vector2D"@.len() == 8);
    reveal_strlit("Vector4D");
    assert("Vector4D"@.len() == 8);
    reveal_strlit("itemid_t");
    assert("itemid_t"@.len() == 8);
    reveal_strlit("HeroFacetKey_t");
    assert("HeroFacetKey_t"@.len() == 14);
    reveal_strlit("BloodType");
    assert("BloodType"@.len() == 9);
    reveal_strlit("m_SpeechBubbles");
    assert("m_SpeechBubbles"@.len() == 15);
    reveal_strlit("DOTA_CombatLogQueryProgress");
    assert("DOTA_CombatLogQueryProgress"@.len() == 27);
    if s == "Vector2D"@ {
        assert("Vector2D"@[6] != "Vector4D"@[6]);
        assert("Vector2D"@[0] != "itemid_t"@[0]);
    }
}

/// The names of one kind get that kind's metadata.
proof fn lemma_vector4_names_metadata(s: Seq<char>)
    requires
        s == "Vector4D"@,
    ensures
        ident_metadata(s) == plain(DecoderKind::Vector4DForField),
{
    reveal(ident_metadata);
    reveal_strlit("int8");
    assert("int8"@.len() == 4);
    reveal_strlit("int16");
    assert("int16"@.len() == 5);
    reveal_strlit("int32");
    assert("int32"@.len() == 5);
    reveal_strlit("int64");
    assert("int64"@.len() == 5);
    reveal_strlit("uint8");
    assert("uint8"@.len() == 5);
    reveal_strlit("uint16");
    assert("uint16"@.len() == 6);
    reveal_strlit("uint32");
    assert("uint32"@.len() == 6);
    reveal_strlit("uint64");
    assert("uint64"@.len() == 6);
    reveal_strlit("bool");
    assert("bool"@.len() == 4);
    reveal_strlit("float32");
    assert("float32"@.len() == 7);
    reveal_strlit("CHandle");
    assert("CHandle"@.len() == 7);
    reveal_strlit("CStrongHandle");
    assert("CStrongHandle"@.len() == 13);
    reveal_strlit("CBodyComponent");
    assert("CBodyComponent"@.len() == 14);
    reveal_strlit("CLightComponent");
    assert("CLightComponent"@.len() == 15);
    reveal_strlit("CRenderComponent");
    assert("CRenderComponent"@.len() == 16);
    reveal_strlit("CUtlSymbolLarge");
    assert("CUtlSymbolLarge"@.len() == 15);
    reveal_strlit("CUtlString");
    assert("CUtlString"@.len() == 10);
    reveal_strlit("QAngle");
    assert("QAngle"@.len() == 6);
    reveal_strlit("CNetworkedQuantizedFloat");
    assert("CNetworkedQuantizedFloat"@.len() == 24);
    reveal_strlit("GameTime_t");
    assert("GameTime_t"@.len() == 10);
    reveal_strlit("MatchID_t");
    assert("MatchID_t"@.len() == 9);
    reveal_strlit("Vector");
    assert("Vector"@.len() == 6);
    reveal_strlit("Vector2D");
    assert("Vector2D"@.len() == 8);
    reveal_strlit("Vector4D");
    assert("Vector4D"@.len() == 8);
    reveal_strlit("itemid_t");
    assert("itemid_t"@.len() == 8);
    reveal_strlit("HeroFacetKey_t");
    assert("HeroFacetKey_t"@.len() == 14);
    reveal_strlit("BloodType");
    assert("BloodType"@.len() == 9);
    reveal_strlit("m_SpeechBubbles");
    assert("m_SpeechBubbles"@.len() == 15);
    reveal_strlit("DOTA_CombatLogQueryProgress");
    assert("DOTA_CombatLogQueryProgress"@.len() == 27);
    if s == "Vector4D"@ {
        assert("Vector4D"@[6] != "Vector2D"@[6]);
        assert("Vector4D"@[0] != "itemid_t"@[0]);
    }
}

/// The names of one kind get that kind's metadata.
proof fn lemma_component_names_metadata(s: Seq<char>)
    requires
        is_component_type_name(s),
    ensures
        ident_metadata(s) == special(FieldSpecialDescriptor::Pointer, DecoderKind::Bool),
{
    reveal(ident_metadata);
    reveal_strlit("int8");
    assert("int8"@.len() == 4);
    reveal_strlit("int16");
    assert("int16"@.len() == 5);
    reveal_strlit("int32");
    assert("int32"@.len() == 5);
    reveal_strlit("int64");
    assert("int64"@.len() == 5);
    reveal_strlit("uint8");
    assert("uint8"@.len() == 5);
    reveal_strlit("uint16");
    assert("uint16"@.len() == 6);
    reveal_strlit("uint32");
    assert("uint32"@.len() == 6);
    reveal_strlit("uint64");
    assert("uint64"@.len() == 6);
    reveal_strlit("bool");
    assert("bool"@.len() == 4);
    reveal_strlit("float32");
    assert("float32"@.len() == 7);
    reveal_strlit("CHandle");
    assert("CHandle"@.len() == 7);
    reveal_strlit("CStrongHandle");
    assert("CStrongHandle"@.len() == 13);
    reveal_strlit("CBodyComponent");
    assert("CBodyComponent"@.len() == 14);
    reveal_strlit("CLightComponent");
    assert("CLightComponent"@.len() == 15);
    reveal_strlit("CRenderComponent");
    assert("CRenderComponent"@.len() == 16);
    reveal_strlit("CUtlSymbolLarge");
    assert("CUtlSymbolLarge"@.len() == 15);
    reveal_strlit("CUtlString");
    assert("CUtlString"@.len() == 10);
    reveal_strlit("QAngle");
    assert("QAngle"@.len() == 6);
    reveal_strlit("CNetworkedQuantizedFloat");
    assert("CNetworkedQuantizedFloat"@.len() == 24);
    reveal_strlit("GameTime_t");
    assert("GameTime_t"@.len() == 10);
    reveal_strlit("MatchID_t");
    assert("MatchID_t"@.len() == 9);
    reveal_strlit("Vector");
    assert("Vector"@.len() == 6);
    reveal_strlit("Vector2D");
    assert("Vector2D"@.len() == 8);
    reveal_strlit("Vector4D");
    assert("Vector4D"@.len() == 8);
    reveal_strlit("itemid_t");
    assert("itemid_t"@.len() == 8);
    reveal_strlit("HeroFacetKey_t");
    assert("HeroFacetKey_t"@.len() == 14);
    reveal_strlit("BloodType");
    assert("BloodType"@.len() == 9);
    reveal_strlit("m_SpeechBubbles");
    assert("m_SpeechBubbles"@.len() == 15);
    reveal_strlit("DOTA_CombatLogQueryProgress");
    assert("DOTA_CombatLogQueryProgress"@.len() == 27);
    if s == "CBodyComponent"@ {
        assert("CBodyComponent"@[0] != "HeroFacetKey_t"@[0]);
    }
    if s == "CLightComponent"@ {
        assert("CLightComponent"@[1] != "CUtlSymbolLarge"@[1]);
        assert("CLightComponent"@[0] != "m_SpeechBubbles"@[0]);
    }
}

/// The names of one kind get that kind's metadata.
proof fn lemma_serializer_array_names_metadata(s: Seq<char>)
    requires
        is_serializer_array_type_name(s),
    ensures
        ident_metadata(s) == special(FieldSpecialDescriptor::DynamicSerializerVector, DecoderKind::U32),
{
    reveal(ident_metadata);
    reveal_strlit("int8");
    assert("int8"@.len() == 4);
    reveal_strlit("int16");
    assert("int16"@.len() == 5);
    reveal_strlit("int32");
    assert("int32"@.len() == 5);
    reveal_strlit("int64");
    assert("int64"@.len() == 5);
    reveal_strlit("uint8");
    assert("uint8"@.len() == 5);
    reveal_strlit("uint16");
    assert("uint16"@.len() == 6);
    reveal_strlit("uint32");
    assert("uint32"@.len() == 6);
    reveal_strlit("uint64");
    assert("uint64"@.len() == 6);
    reveal_strlit("bool");
    assert("bool"@.len() == 4);
    reveal_strlit("float32");
    assert("float32"@.len() == 7);
    reveal_strlit("CHandle");
    assert("CHandle"@.len() == 7);
    reveal_strlit("CStrongHandle");
    assert("CStrongHandle"@.len() == 13);
    reveal_strlit("CBodyComponent");
    assert("CBodyComponent"@.len() == 14);
    reveal_strlit("CLightComponent");
    assert("CLightComponent"@.len() == 15);
    reveal_strlit("CRenderComponent");
    assert("CRenderComponent"@.len() == 16);
    reveal_strlit("CUtlSymbolLarge");
    assert("CUtlSymbolLarge"@.len() == 15);
    reveal_strlit("CUtlString");
    assert("CUtlString"@.len() == 10);
    reveal_strlit("QAngle");
    assert("QAngle"@.len() == 6);
    reveal_strlit("CNetworkedQuantizedFloat");
    assert("CNetworkedQuantizedFloat"@.len() == 24);
    reveal_strlit("GameTime_t");
    assert("GameTime_t"@.len() == 10);
    reveal_strlit("MatchID_t");
    assert("MatchID_t"@.len() == 9);
    reveal_strlit("Vector");
    assert("Vector"@.len() == 6);
    reveal_strlit("Vector2D");
    assert("Vector2D"@.len() == 8);
    reveal_strlit("Vector4D");
    assert("Vector4D"@.len() == 8);
    reveal_strlit("itemid_t");
    assert("itemid_t"@.len() == 8);
    reveal_strlit("HeroFacetKey_t");
    assert("HeroFacetKey_t"@.len() == 14);
    reveal_strlit("BloodType");
    assert("BloodType"@.len() == 9);
    reveal_strlit("m_SpeechBubbles");
    assert("m_SpeechBubbles"@.len() == 15);
    reveal_strlit("DOTA_CombatLogQueryProgress");
    assert("DOTA_CombatLogQueryProgress"@.len() == 27);
    if s == "m_SpeechBubbles"@ {
        assert("m_SpeechBubbles"@[0] != "CLightComponent"@[0]);
        assert("m_SpeechBubbles"@[0] != "CUtlSymbolLarge"@[0]);
    }
}

/// Each kind of type name gets the decoder of its kind, and no other name gets it: floats
/// decode as floats, quantized floats as quantized floats, each sized integer at its size,
/// handles and ids as unsigned integers of their width, `bool` as a flag, strings as strings,
/// the angle and vector types as their vectors, components as pointers, the serializer vector
/// names as vectors of serializers, and every other name as an unsigned 32 bit integer.
pub proof fn lemma_type_name_metadata(s: Seq<char>)
    ensures
        is_float_type_name(s) <==> ident_metadata(s) == plain(DecoderKind::F32ForField),
        s == "CNetworkedQuantizedFloat"@ <==> ident_metadata(s) == plain(DecoderKind::QuantizedFloatForField),
        s == "int8"@ <==> ident_metadata(s) == plain(DecoderKind::I8),
        s == "int16"@ <==> ident_metadata(s) == plain(DecoderKind::I16),
        s == "int32"@ <==> ident_metadata(s) == plain(DecoderKind::I32),
        s == "int64"@ <==> ident_metadata(s) == plain(DecoderKind::I64),
        s == "uint8"@ <==> ident_metadata(s) == plain(DecoderKind::U8),
        s == "uint16"@ <==> ident_metadata(s) == plain(DecoderKind::U16),
        is_u32_type_name(s) || !is_known_type_name(s) <==> ident_metadata(s) == plain(DecoderKind::U32),
        is_u64_type_name(s) <==> ident_metadata(s) == plain(DecoderKind::U64ForField),
        s == "bool"@ <==> ident_metadata(s) == plain(DecoderKind::Bool),
        is_string_type_name(s) <==> ident_metadata(s) == plain(DecoderKind::String),
        s == "QAngle"@ <==> ident_metadata(s) == plain(DecoderKind::QAngleForField),
        s == "Vector"@ <==> ident_metadata(s) == plain(DecoderKind::VectorForField),
        s == "Vector2D"@ <==> ident_metadata(s) == plain(DecoderKind::Vector2DForField),
        s == "Vector4D"@ <==> ident_metadata(s) == plain(DecoderKind::Vector4DForField),
        is_component_type_name(s) <==> ident_metadata(s) == special(FieldSpecialDescriptor::Pointer, DecoderKind::Bool),
        is_serializer_array_type_name(s) <==> ident_metadata(s) == special(FieldSpecialDescriptor::DynamicSerializerVector, DecoderKind::U32),
{
    reveal(ident_metadata);
    if is_float_type_name(s) {
        lemma_float_names_metadata(s);
    }
    if s == "CNetworkedQuantizedFloat"@ {
        lemma_quantized_names_metadata(s);
    }
    if s == "int8"@ {
        lemma_i8_names_metadata(s);
    }
    if s == "int16"@ {
        lemma_i16_names_metadata(s);
    }
    if s == "int32"@ {
        lemma_i32_names_metadata(s);
    }
    if s == "int64"@ {
        lemma_i64_names_metadata(s);
    }
    if s == "uint8"@ {
        lemma_u8_names_metadata(s);
    }
    if s == "uint16"@ {
        lemma_u16_names_metadata(s);
    }
    if is_u32_type_name(s) {
        lemma_u32_names_metadata(s);
    }
    if is_u64_type_name(s) {
        lemma_u64_names_metadata(s);
    }
    if s == "bool"@ {
        lemma_bool_names_metadata(s);
    }
    if is_string_type_name(s) {
        lemma_string_names_metadata(s);
    }
    if s == "QAngle"@ {
        lemma_qangle_names_metadata(s);
    }
    if s == "Vector"@ {
        lemma_vector_names_metadata(s);
    }
    if s == "Vector2D"@ {
        lemma_vector2_names_metadata(s);
    }
    if s == "Vector4D"@ {
        lemma_vector4_names_metadata(s);
    }
    if is_component_type_name(s) {
        lemma_component_names_metadata(s);
    }
    if is_serializer_array_type_name(s) {
        lemma_serializer_array_names_metadata(s);
    }
}

/// Names of templates of variable length arrays.
pub open spec fn is_vector_name(s: Seq<char>) -> bool {
    s == "CNetworkUtlVectorBase"@ || s == "CUtlVectorEmbeddedNetworkVar"@ || s == "CUtlVector"@
}

/// The name of an identifier expression.
pub open spec fn name_of(e: Expr) -> Seq<char> {
    match e {
        Expr::Ident(x) => x@,
        _ => Seq::empty(),
    }
}

/// Visiting `e` meets no shape that the visitor does not handle (a template of something
/// other than a name, an array length other than a name or number, a bare literal).
pub open spec fn visitable(e: Expr, has_serializer: bool) -> bool
    decreases e,
{
    match e {
        Expr::Ident(_) => true,
        Expr::Pointer(_) => true,
        Expr::Lit(_) => false,
        Expr::Template { expr, arg } => *expr is Ident && (is_vector_name(name_of(*expr))
            && !has_serializer ==> visitable(*arg, has_serializer)),
        Expr::Array { expr, len } => if *expr is Ident && name_of(*expr) == "char"@ {
            true
        } else {
            match *len {
                Expr::Ident(x) => x@ == "MAX_ABILITY_DRAFT_ABILITIES"@ ==> visitable(
                    *expr,
                    has_serializer,
                ),
                Expr::Lit(Lit::Num(_)) => visitable(*expr, has_serializer),
                _ => false,
            }
        },
    }
}

/// The metadata of a field of type `e`, or the unknown array length name that stops it.
pub open spec fn metadata_spec(e: Expr, has_serializer: bool) -> Result<FieldMetadata, Seq<char>>
    decreases e,
{
    match e {
        Expr::Ident(x) => Ok(ident_metadata(x@)),
        Expr::Pointer(_) => Ok(special(FieldSpecialDescriptor::Pointer, DecoderKind::Bool)),
        Expr::Template { expr, arg } => if is_vector_name(name_of(*expr)) {
            if has_serializer {
                Ok(special(FieldSpecialDescriptor::DynamicSerializerVector, DecoderKind::U32))
            } else {
                match metadata_spec(*arg, has_serializer) {
                    Ok(m) => Ok(
                        special(
                            FieldSpecialDescriptor::DynamicArray { decoder: m.decoder },
                            DecoderKind::U32,
                        ),
                    ),
                    Err(s) => Err(s),
                }
            }
        } else {
            Ok(ident_metadata(name_of(*expr)))
        },
        Expr::Array { expr, len } => if *expr is Ident && name_of(*expr) == "char"@ {
            Ok(plain(DecoderKind::String))
        } else {
            let length = match *len {
                Expr::Ident(x) => if x@ == "MAX_ABILITY_DRAFT_ABILITIES"@ {
                    Ok(48usize)
                } else {
                    Err(x@)
                },
                Expr::Lit(Lit::Num(n)) => Ok(n),
                _ => Err(Seq::empty()),
            };
            match length {
                Err(s) => Err(s),
                Ok(n) => match metadata_spec(*expr, has_serializer) {
                    Ok(m) => Ok(special(FieldSpecialDescriptor::FixedArray { length: n }, m.decoder)),
                    Err(s) => Err(s),
                },
            }
        },
        Expr::Lit(_) => Err(Seq::empty()),
    }
}

/// Two expressions read from the same text as the same expression have the same shape and
/// the same names.
proof fn lemma_same_shape(e1: Expr, e2: Expr, se: SpecExpr, text: Seq<char>)
    requires
        expr_is(e1, se, text),
        expr_is(e2, se, text),
    ensures
        e1 is Ident <==> e2 is Ident,
        e1 is Ident ==> e1->Ident_0@ == e2->Ident_0@,
        name_of(e1) == name_of(e2),
        e1 is Lit ==> e1 == e2,
        e1 is Lit <==> e2 is Lit,
        e1 is Pointer <==> e2 is Pointer,
        e1 is Template <==> e2 is Template,
        e1 is Array <==> e2 is Array,
{
}

proof fn lemma_template_case(e1: Expr, e2: Expr, has_serializer: bool)
    requires
        e1 is Template,
        e2 is Template,
        *(e1->Template_expr) is Ident <==> *(e2->Template_expr) is Ident,
        name_of(*(e1->Template_expr)) == name_of(*(e2->Template_expr)),
        metadata_spec(*(e1->arg), has_serializer) == metadata_spec(*(e2->arg), has_serializer),
        visitable(*(e1->arg), has_serializer) == visitable(*(e2->arg), has_serializer),
    ensures
        metadata_spec(e1, has_serializer) == metadata_spec(e2, has_serializer),
        visitable(e1, has_serializer) == visitable(e2, has_serializer),
{
}

proof fn lemma_array_case(e1: Expr, e2: Expr, has_serializer: bool)
    requires
        e1 is Array,
        e2 is Array,
        *(e1->Array_expr) is Ident <==> *(e2->Array_expr) is Ident,
        name_of(*(e1->Array_expr)) == name_of(*(e2->Array_expr)),
        *(e1->len) is Ident <==> *(e2->len) is Ident,
        *(e1->len) is Ident ==> (*(e1->len))->Ident_0@ == (*(e2->len))->Ident_0@,
        *(e1->len) is Lit ==> *(e1->len) == *(e2->len),
        *(e1->len) is Lit <==> *(e2->len) is Lit,
        metadata_spec(*(e1->Array_expr), has_serializer) == metadata_spec(*(e2->Array_expr), has_serializer),
        visitable(*(e1->Array_expr), has_serializer) == visitable(*(e2->Array_expr), has_serializer),
    ensures
        metadata_spec(e1, has_serializer) == metadata_spec(e2, has_serializer),
        visitable(e1, has_serializer) == visitable(e2, has_serializer),
{
}

/// Two expressions read from the same text as the same expression have the same metadata, and
/// the visitor handles both or neither.
pub proof fn lemma_metadata_of_same_expr(e1: Expr, e2: Expr, se: SpecExpr, text: Seq<char>, has_serializer: bool)
    requires
        expr_is(e1, se, text),
        expr_is(e2, se, text),
    ensures
        metadata_spec(e1, has_serializer) == metadata_spec(e2, has_serializer),
        visitable(e1, has_serializer) == visitable(e2, has_serializer),
    decreases se,
{
    lemma_same_shape(e1, e2, se, text);
    match se {
        SpecExpr::Template(y, z) => {
            lemma_same_shape(*(e1->Template_expr), *(e2->Template_expr), *y, text);
            lemma_metadata_of_same_expr(*(e1->arg), *(e2->arg), *z, text, has_serializer);
            lemma_template_case(e1, e2, has_serializer);
        },
        SpecExpr::Array(y, z) => {
            lemma_same_shape(*(e1->Array_expr), *(e2->Array_expr), *y, text);
            lemma_same_shape(*(e1->len), *(e2->len), *z, text);
            lemma_metadata_of_same_expr(*(e1->Array_expr), *(e2->Array_expr), *y, text, has_serializer);
            lemma_array_case(e1, e2, has_serializer);
        },
        _ => {},
    }
}

/// The result of visiting stands for the spec result.
pub open spec fn visit_result_is(r: Result<FieldMetadata, Error>, s: Result<FieldMetadata, Seq<char>>) -> bool {
    match s {
        Ok(m) => r == Ok::<FieldMetadata, Error>(m),
        Err(name) => r matches Err(Error::UnknownArrayLenIdent(x)) && x@ == name,
    }
}

/// Whether two strings have the same characters.
fn str_eq(a: &str, b: &str) -> (r: bool)
    ensures
        r == (a@ == b@),
{
    let n = a.unicode_len();
    if n != b.unicode_len() {
        return false;
    }
    let mut i: usize = 0;
    while i < n
        invariant
            n == a@.len(),
            n == b@.len(),
            i <= n,
            a@.subrange(0, i as int) == b@.subrange(0, i as int),
        decreases n - i,
    {
        if a.get_char(i) != b.get_char(i) {
            assert(a@[i as int] != b@[i as int]);
            return false;
        }
        proof {
            assert(a@.subrange(0, i + 1) =~= a@.subrange(0, i as int).push(a@[i as int]));
            assert(b@.subrange(0, i + 1) =~= b@.subrange(0, i as int).push(b@[i as int]));
        }
        i = i + 1;
    }
    proof {
        assert(a@ =~= a@.subrange(0, i as int));
        assert(b@ =~= b@.subrange(0, i as int));
    }
    true
}

/// The metadata of a field whose type is the name `ident`: see [`ident_metadata`].
fn visit_ident(ident: &str) -> (r: FieldMetadata)
    ensures
        r == ident_metadata(ident@),
{
    proof {
        reveal(ident_metadata);
    }
    let d = if str_eq(ident, "int8") {
        DecoderKind::I8
    } else if str_eq(ident, "int16") {
        DecoderKind::I16
    } else if str_eq(ident, "int32") {
        DecoderKind::I32
    } else if str_eq(ident, "int64") {
        DecoderKind::I64
    } else if str_eq(ident, "uint8") {
        DecoderKind::U8
    } else if str_eq(ident, "uint16") {
        DecoderKind::U16
    } else if str_eq(ident, "uint32") {
        DecoderKind::U32
    } else if str_eq(ident, "uint64") {
        DecoderKind::U64ForField
    } else if str_eq(ident, "bool") {
        DecoderKind::Bool
    } else if str_eq(ident, "float32") {
        DecoderKind::F32ForField
    } else if str_eq(ident, "CHandle") {
        DecoderKind::U32
    } else if str_eq(ident, "CStrongHandle") {
        DecoderKind::U64ForField
    } else if str_eq(ident, "CBodyComponent") || str_eq(ident, "CLightComponent") || str_eq(
        ident,
        "CRenderComponent",
    ) {
        return FieldMetadata {
            special_descriptor: Some(FieldSpecialDescriptor::Pointer),
            decoder: DecoderKind::Bool,
        };
    } else if str_eq(ident, "CUtlSymbolLarge") || str_eq(ident, "CUtlString") {
        DecoderKind::String
    } else if str_eq(ident, "QAngle") {
        DecoderKind::QAngleForField
    } else if str_eq(ident, "CNetworkedQuantizedFloat") {
        DecoderKind::QuantizedFloatForField
    } else if str_eq(ident, "GameTime_t") {
        DecoderKind::F32ForField
    } else if str_eq(ident, "MatchID_t") {
        DecoderKind::U64ForField
    } else if str_eq(ident, "Vector") {
        DecoderKind::VectorForField
    } else if str_eq(ident, "Vector2D") {
        DecoderKind::Vector2DForField
    } else if str_eq(ident, "Vector4D") {
        DecoderKind::Vector4DForField
    } else if str_eq(ident, "itemid_t") || str_eq(ident, "HeroFacetKey_t") {
        DecoderKind::U64ForField
    } else if str_eq(ident, "BloodType") {
        DecoderKind::U32
    } else if str_eq(ident, "m_SpeechBubbles") || str_eq(ident, "DOTA_CombatLogQueryProgress") {
        return FieldMetadata {
            special_descriptor: Some(FieldSpecialDescriptor::DynamicSerializerVector),
            decoder: DecoderKind::U32,
        };
    } else {
        DecoderKind::U32
    };
    FieldMetadata { special_descriptor: None, decoder: d }
}

/// The metadata of a field of type `expr`: see [`metadata_spec`].
fn visit_any(expr: &Expr, has_serializer: bool) -> (r: Result<FieldMetadata, Error>)
    requires
        visitable(*expr, has_serializer),
    ensures
        visit_result_is(r, metadata_spec(*expr, has_serializer)),
    decreases *expr,
{
    match expr {
        Expr::Ident(ident) => Ok(visit_ident(ident)),
        Expr::Template { expr: x, arg } => {
            let ident = match &**x {
                Expr::Ident(ident) => *ident,
                _ => {
                    proof {
                        assert(false);
                    }
                    return Ok(FieldMetadata::default());
                },
            };
            if str_eq(ident, "CNetworkUtlVectorBase") || str_eq(
                ident,
                "CUtlVectorEmbeddedNetworkVar",
            ) || str_eq(ident, "CUtlVector") {
                if has_serializer {
                    return Ok(
                        FieldMetadata {
                            special_descriptor: Some(FieldSpecialDescriptor::DynamicSerializerVector),
                            decoder: DecoderKind::U32,
                        },
                    );
                }
                return match visit_any(arg, has_serializer) {
                    Ok(m) => Ok(
                        FieldMetadata {
                            special_descriptor: Some(
                                FieldSpecialDescriptor::DynamicArray { decoder: m.decoder },
                            ),
                            decoder: DecoderKind::U32,
                        },
                    ),
                    Err(e) => Err(e),
                };
            }
            Ok(visit_ident(ident))
        },
        Expr::Array { expr: x, len } => {
            if let Expr::Ident(ident) = &**x {
                if str_eq(ident, "char") {
                    return Ok(
                        FieldMetadata { special_descriptor: None, decoder: DecoderKind::String },
                    );
                }
            }
            let length: usize = match &**len {
                Expr::Ident(ident) => {
                    if str_eq(ident, "MAX_ABILITY_DRAFT_ABILITIES") {
                        48
                    } else {
                        return Err(Error::UnknownArrayLenIdent(String::from_str(ident)));
                    }
                },
                Expr::Lit(Lit::Num(length)) => *length,
                _ => {
                    proof {
                        assert(false);
                    }
                    return Ok(FieldMetadata::default());
                },
            };
            match visit_any(x, has_serializer) {
                Ok(m) => Ok(
                    FieldMetadata {
                        special_descriptor: Some(FieldSpecialDescriptor::FixedArray { length }),
                        decoder: m.decoder,
                    },
                ),
                Err(e) => Err(e),
            }
        },
        Expr::Pointer(_) => Ok(
            FieldMetadata {
                special_descriptor: Some(FieldSpecialDescriptor::Pointer),
                decoder: DecoderKind::Bool,
            },
        ),
        Expr::Lit(_) => {
            proof {
                assert(false);
            }
            Ok(FieldMetadata::default())
        },
    }
}

/// Decoders that are built from the field's encoding settings (its bit count, its range and its
/// encode flags) and whose building can fail.
pub open spec fn built_from_settings(k: DecoderKind) -> bool {
    ||| k is F32ForField
    ||| k is QuantizedFloatForField
    ||| k is VectorForField
    ||| k is Vector2DForField
    ||| k is Vector4DForField
}

/// The metadata calls for a decoder that is built from the field's encoding settings: its own
/// decoder, or that of the elements of a variable length array.
pub open spec fn needs_settings_decoder(m: FieldMetadata) -> bool {
    built_from_settings(m.decoder) || (m.special_descriptor matches Some(
        FieldSpecialDescriptor::DynamicArray { decoder },
    ) && built_from_settings(decoder))
}

/// Whether the metadata calls for a decoder that is built from the field's encoding settings.
fn needs_decoder_from_settings(m: &FieldMetadata) -> (r: bool)
    ensures
        r == needs_settings_decoder(*m),
{
    let own = match m.decoder {
        DecoderKind::F32ForField => true,
        DecoderKind::QuantizedFloatForField => true,
        DecoderKind::VectorForField => true,
        DecoderKind::Vector2DForField => true,
        DecoderKind::Vector4DForField => true,
        _ => false,
    };
    let element = match m.special_descriptor {
        Some(FieldSpecialDescriptor::DynamicArray { decoder }) => match decoder {
            DecoderKind::F32ForField => true,
            DecoderKind::QuantizedFloatForField => true,
            DecoderKind::VectorForField => true,
            DecoderKind::Vector2DForField => true,
            DecoderKind::Vector4DForField => true,
            _ => false,
        },
        _ => false,
    };
    own || element
}

/// The metadata of a field of parsed type `expr` and with the encoding settings that
/// `decoder_builds` judges, for a field with a serializer of its own where `has_serializer`
/// holds: see [`metadata_spec`]. Where the type calls for a decoder that is built from the
/// field's encoding settings (see [`needs_settings_decoder`]), `decoder_builds` says whether the
/// settings admit it (the range is floating point, judged where the field is decoded); where
/// they do not, the error is [`Error::FieldDecoder`].
pub fn get_field_metadata(expr: &Expr, has_serializer: bool, decoder_builds: bool) -> (r: Result<
    FieldMetadata,
    Error,
>)
    requires
        visitable(*expr, has_serializer),
    ensures
        match metadata_spec(*expr, has_serializer) {
            Ok(m) => if needs_settings_decoder(m) && !decoder_builds {
                r matches Err(Error::FieldDecoder)
            } else {
                r == Ok::<FieldMetadata, Error>(m)
            },
            Err(name) => r matches Err(Error::UnknownArrayLenIdent(x)) && x@ == name,
        },
{
    match visit_any(expr, has_serializer) {
        Ok(m) => if needs_decoder_from_settings(&m) && !decoder_builds {
            Err(Error::FieldDecoder)
        } else {
            Ok(m)
        },
        Err(e) => Err(e),
    }
}

} // verus!
