//! What a field's variable type says of how the field is decoded: which decoder reads its
//! values, and whether it is an array or a pointer.

use crate::haste_vartype::error::Error as VarTypeError;
use crate::haste_vartype::parser::{expr_is, parse, parse_expr_spec, Expr, Lit, SpecExpr};
use crate::haste_vartype::tokenizer::fits_spans;
use vstd::prelude::*;
use vstd::string::{StrSliceExecFns, StringExecFns};

verus! {

/// Which decoder reads a field's values. The decoders marked "for the field" are built from
/// the field's own encoding settings.
#[derive(Debug, Clone, Copy, PartialEq, Eq, Structural)]
pub enum DecoderKind {
    /// Never used to decode (a placeholder).
    Invalid,
    I64,
    Bool,
    String,
    /// An unsigned varint.
    U64,
    /// An unsigned integer encoded as the field says.
    U64ForField,
    F32ForField,
    QAngleForField,
    Vector2ForField,
    Vector3ForField,
    Vector4ForField,
}

/// How a field differs from a plain value.
#[derive(Debug, Clone, Copy, PartialEq, Eq, Structural)]
pub enum FieldSpecialDescriptor {
    /// An array of a fixed length.
    FixedArray { length: usize },
    /// An array of variable length of plain values, read by `decoder`.
    DynamicArray { decoder: DecoderKind },
    /// An array of variable length of values of another serializer.
    DynamicSerializerArray,
    /// A pointer to another serializer.
    Pointer,
}

impl FieldSpecialDescriptor {
    /// Whether the field is an array of variable length.
    pub fn is_dynamic_array(&self) -> (r: bool)
        ensures
            r == (self is DynamicArray || self is DynamicSerializerArray),
    {
        match self {
            FieldSpecialDescriptor::DynamicArray { .. } => true,
            FieldSpecialDescriptor::DynamicSerializerArray => true,
            _ => false,
        }
    }
}

/// How a field is decoded.
#[derive(Debug, Clone, Copy, PartialEq, Eq, Structural)]
pub struct FieldMetadata {
    pub special_descriptor: Option<FieldSpecialDescriptor>,
    pub decoder: DecoderKind,
}

impl FieldMetadata {
    /// No special kind, and the placeholder decoder.
    pub fn default() -> (r: Self)
        ensures
            r == (FieldMetadata { special_descriptor: None, decoder: DecoderKind::Invalid }),
    {
        FieldMetadata { special_descriptor: None, decoder: DecoderKind::Invalid }
    }
}

/// Why a field's metadata could not be found.
#[derive(Debug)]
pub enum FieldMetadataError {
    /// The variable type does not parse.
    VarTypeParseError(VarTypeError),
    /// A decoder could not be built from the field's encoding settings.
    FieldDecoderConstructionError,
    /// An array's length is a name that is not known.
    UnknownArrayLengthIdent(String),
}

/// Plain metadata: no special kind.
pub open spec fn plain(decoder: DecoderKind) -> FieldMetadata {
    FieldMetadata { special_descriptor: None, decoder }
}

/// Metadata of a special kind.
pub open spec fn special(s: FieldSpecialDescriptor, decoder: DecoderKind) -> FieldMetadata {
    FieldMetadata { special_descriptor: Some(s), decoder }
}

/// Names of components that a field points to.
pub open spec fn is_pointer_name(s: Seq<char>) -> bool {
    s == "CBodyComponentDCGBaseAnimating"@ || s == "CBodyComponentBaseAnimating"@ || s
        == "CBodyComponentBaseAnimatingOverlay"@ || s == "CBodyComponentBaseModelEntity"@ || s
        == "CBodyComponent"@ || s == "CBodyComponentSkeletonInstance"@ || s
        == "CBodyComponentPoint"@ || s == "CLightComponent"@ || s == "CRenderComponent"@ || s
        == "C_BodyComponentBaseAnimating"@ || s == "C_BodyComponentBaseAnimatingOverlay"@ || s
        == "CPhysicsComponent"@
}

/// The metadata of a field whose type is the name `s`.
pub open spec fn ident_metadata(s: Seq<char>) -> FieldMetadata {
    if s == "int8"@ || s == "int16"@ || s == "int32"@ || s == "int64"@ {
        plain(DecoderKind::I64)
    } else if s == "bool"@ {
        plain(DecoderKind::Bool)
    } else if s == "float32"@ {
        plain(DecoderKind::F32ForField)
    } else if is_pointer_name(s) {
        special(FieldSpecialDescriptor::Pointer, DecoderKind::Bool)
    } else if s == "CUtlSymbolLarge"@ || s == "CUtlString"@ {
        plain(DecoderKind::String)
    } else if s == "QAngle"@ {
        plain(DecoderKind::QAngleForField)
    } else if s == "CNetworkedQuantizedFloat"@ || s == "GameTime_t"@ {
        plain(DecoderKind::F32ForField)
    } else if s == "Vector"@ {
        plain(DecoderKind::Vector3ForField)
    } else if s == "Vector2D"@ {
        plain(DecoderKind::Vector2ForField)
    } else if s == "Vector4D"@ {
        plain(DecoderKind::Vector4ForField)
    } else if s == "m_SpeechBubbles"@ || s == "DOTA_CombatLogQueryProgress"@ {
        special(FieldSpecialDescriptor::DynamicSerializerArray, DecoderKind::U64)
    } else {
        plain(DecoderKind::U64ForField)
    }
}

/// Names of floating point types: their values decode as floats.
pub open spec fn is_float_type_name(s: Seq<char>) -> bool {
    s == "float32"@ || s == "CNetworkedQuantizedFloat"@ || s == "GameTime_t"@
}

/// Names of signed integer types.
pub open spec fn is_signed_int_type_name(s: Seq<char>) -> bool {
    s == "int8"@ || s == "int16"@ || s == "int32"@ || s == "int64"@
}

/// Names of string types.
pub open spec fn is_string_type_name(s: Seq<char>) -> bool {
    s == "CUtlSymbolLarge"@ || s == "CUtlString"@
}

/// Names of entity components, which a field holds as a pointer to another serializer.
pub open spec fn is_component_type_name(s: Seq<char>) -> bool {
    s == "CBodyComponentDCGBaseAnimating"@ || s == "CBodyComponentBaseAnimating"@ || s == "CBodyComponentBaseAnimatingOverlay"@ || s == "CBodyComponentBaseModelEntity"@ || s == "CBodyComponent"@ || s == "CBodyComponentSkeletonInstance"@ || s == "CBodyComponentPoint"@ || s == "CLightComponent"@ || s == "CRenderComponent"@ || s == "C_BodyComponentBaseAnimating"@ || s == "C_BodyComponentBaseAnimatingOverlay"@ || s == "CPhysicsComponent"@
}

/// Names of fields that are always arrays of serializers.
pub open spec fn is_serializer_array_type_name(s: Seq<char>) -> bool {
    s == "m_SpeechBubbles"@ || s == "DOTA_CombatLogQueryProgress"@
}

/// A type name that the metadata table knows.
pub open spec fn is_known_type_name(s: Seq<char>) -> bool {
    is_float_type_name(s) || is_signed_int_type_name(s) || is_string_type_name(s)
        || is_component_type_name(s) || is_serializer_array_type_name(s) || s == "bool"@ || s == "QAngle"@ || s == "Vector"@ || s == "Vector2D"@ || s == "Vector4D"@
}

/// The names of one kind get that kind's metadata.
proof fn lemma_float_names_metadata(s: Seq<char>)
    requires
        is_float_type_name(s),
    ensures
        ident_metadata(s) == plain(DecoderKind::F32ForField),
{
    reveal_strlit("int8");
    assert("int8"@.len() == 4);
    reveal_strlit("int16");
    assert("int16"@.len() == 5);
    reveal_strlit("int32");
    assert("int32"@.len() == 5);
    reveal_strlit("int64");
    assert("int64"@.len() == 5);
    reveal_strlit("bool");
    assert("bool"@.len() == 4);
    reveal_strlit("float32");
    assert("float32"@.len() == 7);
    reveal_strlit("CBodyComponentDCGBaseAnimating");
    assert("CBodyComponentDCGBaseAnimating"@.len() == 30);
    reveal_strlit("CBodyComponentBaseAnimating");
    assert("CBodyComponentBaseAnimating"@.len() == 27);
    reveal_strlit("CBodyComponentBaseAnimatingOverlay");
    assert("CBodyComponentBaseAnimatingOverlay"@.len() == 34);
    reveal_strlit("CBodyComponentBaseModelEntity");
    assert("CBodyComponentBaseModelEntity"@.len() == 29);
    reveal_strlit("CBodyComponent");
    assert("CBodyComponent"@.len() == 14);
    reveal_strlit("CBodyComponentSkeletonInstance");
    assert("CBodyComponentSkeletonInstance"@.len() == 30);
    reveal_strlit("CBodyComponentPoint");
    assert("CBodyComponentPoint"@.len() == 19);
    reveal_strlit("CLightComponent");
    assert("CLightComponent"@.len() == 15);
    reveal_strlit("CRenderComponent");
    assert("CRenderComponent"@.len() == 16);
    reveal_strlit("C_BodyComponentBaseAnimating");
    assert("C_BodyComponentBaseAnimating"@.len() == 28);
    reveal_strlit("C_BodyComponentBaseAnimatingOverlay");
    assert("C_BodyComponentBaseAnimatingOverlay"@.len() == 35);
    reveal_strlit("CPhysicsComponent");
    assert("CPhysicsComponent"@.len() == 17);
    reveal_strlit("CUtlSymbolLarge");
    assert("CUtlSymbolLarge"@.len() == 15);
    reveal_strlit("CUtlString");
    assert("CUtlString"@.len() == 10);
    reveal_strlit("QAngle");
    assert("QAngle"@.len() == 6);
    reveal_strlit("CNetworkedQuantizedFloat");
    assert("CNetworkedQuantizedFloat"@.len() == 24);
    reveal_strlit("GameTime_t");
    assert("GameTime_t"@.len() == 10);
    reveal_strlit("Vector");
    assert("Vector"@.len() == 6);
    reveal_strlit("Vector2D");
    assert("Vector2D"@.len() == 8);
    reveal_strlit("Vector4D");
    assert("Vector4D"@.len() == 8);
    reveal_strlit("m_SpeechBubbles");
    assert("m_SpeechBubbles"@.len() == 15);
    reveal_strlit("DOTA_CombatLogQueryProgress");
    assert("DOTA_CombatLogQueryProgress"@.len() == 27);
    if s == "GameTime_t"@ {
        assert("GameTime_t"@[0] != "CUtlString"@[0]);
    }
}

/// The names of one kind get that kind's metadata.
proof fn lemma_int_names_metadata(s: Seq<char>)
    requires
        is_signed_int_type_name(s),
    ensures
        ident_metadata(s) == plain(DecoderKind::I64),
{
    reveal_strlit("int8");
    assert("int8"@.len() == 4);
    reveal_strlit("int16");
    assert("int16"@.len() == 5);
    reveal_strlit("int32");
    assert("int32"@.len() == 5);
    reveal_strlit("int64");
    assert("int64"@.len() == 5);
    reveal_strlit("bool");
    assert("bool"@.len() == 4);
    reveal_strlit("float32");
    assert("float32"@.len() == 7);
    reveal_strlit("CBodyComponentDCGBaseAnimating");
    assert("CBodyComponentDCGBaseAnimating"@.len() == 30);
    reveal_strlit("CBodyComponentBaseAnimating");
    assert("CBodyComponentBaseAnimating"@.len() == 27);
    reveal_strlit("CBodyComponentBaseAnimatingOverlay");
    assert("CBodyComponentBaseAnimatingOverlay"@.len() == 34);
    reveal_strlit("CBodyComponentBaseModelEntity");
    assert("CBodyComponentBaseModelEntity"@.len() == 29);
    reveal_strlit("CBodyComponent");
    assert("CBodyComponent"@.len() == 14);
    reveal_strlit("CBodyComponentSkeletonInstance");
    assert("CBodyComponentSkeletonInstance"@.len() == 30);
    reveal_strlit("CBodyComponentPoint");
    assert("CBodyComponentPoint"@.len() == 19);
    reveal_strlit("CLightComponent");
    assert("CLightComponent"@.len() == 15);
    reveal_strlit("CRenderComponent");
    assert("CRenderComponent"@.len() == 16);
    reveal_strlit("C_BodyComponentBaseAnimating");
    assert("C_BodyComponentBaseAnimating"@.len() == 28);
    reveal_strlit("C_BodyComponentBaseAnimatingOverlay");
    assert("C_BodyComponentBaseAnimatingOverlay"@.len() == 35);
    reveal_strlit("CPhysicsComponent");
    assert("CPhysicsComponent"@.len() == 17);
    reveal_strlit("CUtlSymbolLarge");
    assert("CUtlSymbolLarge"@.len() == 15);
    reveal_strlit("CUtlString");
    assert("CUtlString"@.len() == 10);
    reveal_strlit("QAngle");
    assert("QAngle"@.len() == 6);
    reveal_strlit("CNetworkedQuantizedFloat");
    assert("CNetworkedQuantizedFloat"@.len() == 24);
    reveal_strlit("GameTime_t");
    assert("GameTime_t"@.len() == 10);
    reveal_strlit("Vector");
    assert("Vector"@.len() == 6);
    reveal_strlit("Vector2D");
    assert("Vector2D"@.len() == 8);
    reveal_strlit("Vector4D");
    assert("Vector4D"@.len() == 8);
    reveal_strlit("m_SpeechBubbles");
    assert("m_SpeechBubbles"@.len() == 15);
    reveal_strlit("DOTA_CombatLogQueryProgress");
    assert("DOTA_CombatLogQueryProgress"@.len() == 27);
    if s == "int8"@ {
        assert("int8"@[0] != "bool"@[0]);
    }
    if s == "int16"@ {
        assert("int16"@[3] != "int32"@[3]);
        assert("int16"@[3] != "int64"@[3]);
    }
    if s == "int32"@ {
        assert("int32"@[3] != "int16"@[3]);
        assert("int32"@[3] != "int64"@[3]);
    }
    if s == "int64"@ {
        assert("int64"@[3] != "int16"@[3]);
        assert("int64"@[3] != "int32"@[3]);
    }
}

/// The names of one kind get that kind's metadata.
proof fn lemma_bool_names_metadata(s: Seq<char>)
    requires
        s == "bool"@,
    ensures
        ident_metadata(s) == plain(DecoderKind::Bool),
{
    reveal_strlit("int8");
    assert("int8"@.len() == 4);
    reveal_strlit("int16");
    assert("int16"@.len() == 5);
    reveal_strlit("int32");
    assert("int32"@.len() == 5);
    reveal_strlit("int64");
    assert("int64"@.len() == 5);
    reveal_strlit("bool");
    assert("bool"@.len() == 4);
    reveal_strlit("float32");
    assert("float32"@.len() == 7);
    reveal_strlit("CBodyComponentDCGBaseAnimating");
    assert("CBodyComponentDCGBaseAnimating"@.len() == 30);
    reveal_strlit("CBodyComponentBaseAnimating");
    assert("CBodyComponentBaseAnimating"@.len() == 27);
    reveal_strlit("CBodyComponentBaseAnimatingOverlay");
    assert("CBodyComponentBaseAnimatingOverlay"@.len() == 34);
    reveal_strlit("CBodyComponentBaseModelEntity");
    assert("CBodyComponentBaseModelEntity"@.len() == 29);
    reveal_strlit("CBodyComponent");
    assert("CBodyComponent"@.len() == 14);
    reveal_strlit("CBodyComponentSkeletonInstance");
    assert("CBodyComponentSkeletonInstance"@.len() == 30);
    reveal_strlit("CBodyComponentPoint");
    assert("CBodyComponentPoint"@.len() == 19);
    reveal_strlit("CLightComponent");
    assert("CLightComponent"@.len() == 15);
    reveal_strlit("CRenderComponent");
    assert("CRenderComponent"@.len() == 16);
    reveal_strlit("C_BodyComponentBaseAnimating");
    assert("C_BodyComponentBaseAnimating"@.len() == 28);
    reveal_strlit("C_BodyComponentBaseAnimatingOverlay");
    assert("C_BodyComponentBaseAnimatingOverlay"@.len() == 35);
    reveal_strlit("CPhysicsComponent");
    assert("CPhysicsComponent"@.len() == 17);
    reveal_strlit("CUtlSymbolLarge");
    assert("CUtlSymbolLarge"@.len() == 15);
    reveal_strlit("CUtlString");
    assert("CUtlString"@.len() == 10);
    reveal_strlit("QAngle");
    assert("QAngle"@.len() == 6);
    reveal_strlit("CNetworkedQuantizedFloat");
    assert("CNetworkedQuantizedFloat"@.len() == 24);
    reveal_strlit("GameTime_t");
    assert("GameTime_t"@.len() == 10);
    reveal_strlit("Vector");
    assert("Vector"@.len() == 6);
    reveal_strlit("Vector2D");
    assert("Vector2D"@.len() == 8);
    reveal_strlit("Vector4D");
    assert("Vector4D"@.len() == 8);
    reveal_strlit("m_SpeechBubbles");
    assert("m_SpeechBubbles"@.len() == 15);
    reveal_strlit("DOTA_CombatLogQueryProgress");
    assert("DOTA_CombatLogQueryProgress"@.len() == 27);
    if s == "bool"@ {
        assert("bool"@[0] != "int8"@[0]);
    }
}

/// The names of one kind get that kind's metadata.
proof fn lemma_string_names_metadata(s: Seq<char>)
    requires
        is_string_type_name(s),
    ensures
        ident_metadata(s) == plain(DecoderKind::String),
{
    reveal_strlit("int8");
    assert("int8"@.len() == 4);
    reveal_strlit("int16");
    assert("int16"@.len() == 5);
    reveal_strlit("int32");
    assert("int32"@.len() == 5);
    reveal_strlit("int64");
    assert("int64"@.len() == 5);
    reveal_strlit("bool");
    assert("bool"@.len() == 4);
    reveal_strlit("float32");
    assert("float32"@.len() == 7);
    reveal_strlit("CBodyComponentDCGBaseAnimating");
    assert("CBodyComponentDCGBaseAnimating"@.len() == 30);
    reveal_strlit("CBodyComponentBaseAnimating");
    assert("CBodyComponentBaseAnimating"@.len() == 27);
    reveal_strlit("CBodyComponentBaseAnimatingOverlay");
    assert("CBodyComponentBaseAnimatingOverlay"@.len() == 34);
    reveal_strlit("CBodyComponentBaseModelEntity");
    assert("CBodyComponentBaseModelEntity"@.len() == 29);
    reveal_strlit("CBodyComponent");
    assert("CBodyComponent"@.len() == 14);
    reveal_strlit("CBodyComponentSkeletonInstance");
    assert("CBodyComponentSkeletonInstance"@.len() == 30);
    reveal_strlit("CBodyComponentPoint");
    assert("CBodyComponentPoint"@.len() == 19);
    reveal_strlit("CLightComponent");
    assert("CLightComponent"@.len() == 15);
    reveal_strlit("CRenderComponent");
    assert("CRenderComponent"@.len() == 16);
    reveal_strlit("C_BodyComponentBaseAnimating");
    assert("C_BodyComponentBaseAnimating"@.len() == 28);
    reveal_strlit("C_BodyComponentBaseAnimatingOverlay");
    assert("C_BodyComponentBaseAnimatingOverlay"@.len() == 35);
    reveal_strlit("CPhysicsComponent");
    assert("CPhysicsComponent"@.len() == 17);
    reveal_strlit("CUtlSymbolLarge");
    assert("CUtlSymbolLarge"@.len() == 15);
    reveal_strlit("CUtlString");
    assert("CUtlString"@.len() == 10);
    reveal_strlit("QAngle");
    assert("QAngle"@.len() == 6);
    reveal_strlit("CNetworkedQuantizedFloat");
    assert("CNetworkedQuantizedFloat"@.len() == 24);
    reveal_strlit("GameTime_t");
    assert("GameTime_t"@.len() == 10);
    reveal_strlit("Vector");
    assert("Vector"@.len() == 6);
    reveal_strlit("Vector2D");
    assert("Vector2D"@.len() == 8);
    reveal_strlit("Vector4D");
    assert("Vector4D"@.len() == 8);
    reveal_strlit("m_SpeechBubbles");
    assert("m_SpeechBubbles"@.len() == 15);
    reveal_strlit("DOTA_CombatLogQueryProgress");
    assert("DOTA_CombatLogQueryProgress"@.len() == 27);
    if s == "CUtlSymbolLarge"@ {
        assert("CUtlSymbolLarge"@[1] != "CLightComponent"@[1]);
        assert("CUtlSymbolLarge"@[0] != "m_SpeechBubbles"@[0]);
    }
    if s == "CUtlString"@ {
        assert("CUtlString"@[0] != "GameTime_t"@[0]);
    }
}

/// The names of one kind get that kind's metadata.
proof fn lemma_qangle_names_metadata(s: Seq<char>)
    requires
        s == "QAngle"@,
    ensures
        ident_metadata(s) == plain(DecoderKind::QAngleForField),
{
    reveal_strlit("int8");
    assert("int8"@.len() == 4);
    reveal_strlit("int16");
    assert("int16"@.len() == 5);
    reveal_strlit("int32");
    assert("int32"@.len() == 5);
    reveal_strlit("int64");
    assert("int64"@.len() == 5);
    reveal_strlit("bool");
    assert("bool"@.len() == 4);
    reveal_strlit("float32");
    assert("float32"@.len() == 7);
    reveal_strlit("CBodyComponentDCGBaseAnimating");
    assert("CBodyComponentDCGBaseAnimating"@.len() == 30);
    reveal_strlit("CBodyComponentBaseAnimating");
    assert("CBodyComponentBaseAnimating"@.len() == 27);
    reveal_strlit("CBodyComponentBaseAnimatingOverlay");
    assert("CBodyComponentBaseAnimatingOverlay"@.len() == 34);
    reveal_strlit("CBodyComponentBaseModelEntity");
    assert("CBodyComponentBaseModelEntity"@.len() == 29);
    reveal_strlit("CBodyComponent");
    assert("CBodyComponent"@.len() == 14);
    reveal_strlit("CBodyComponentSkeletonInstance");
    assert("CBodyComponentSkeletonInstance"@.len() == 30);
    reveal_strlit("CBodyComponentPoint");
    assert("CBodyComponentPoint"@.len() == 19);
    reveal_strlit("CLightComponent");
    assert("CLightComponent"@.len() == 15);
    reveal_strlit("CRenderComponent");
    assert("CRenderComponent"@.len() == 16);
    reveal_strlit("C_BodyComponentBaseAnimating");
    assert("C_BodyComponentBaseAnimating"@.len() == 28);
    reveal_strlit("C_BodyComponentBaseAnimatingOverlay");
    assert("C_BodyComponentBaseAnimatingOverlay"@.len() == 35);
    reveal_strlit("CPhysicsComponent");
    assert("CPhysicsComponent"@.len() == 17);
    reveal_strlit("CUtlSymbolLarge");
    assert("CUtlSymbolLarge"@.len() == 15);
    reveal_strlit("CUtlString");
    assert("CUtlString"@.len() == 10);
    reveal_strlit("QAngle");
    assert("QAngle"@.len() == 6);
    reveal_strlit("CNetworkedQuantizedFloat");
    assert("CNetworkedQuantizedFloat"@.len() == 24);
    reveal_strlit("GameTime_t");
    assert("GameTime_t"@.len() == 10);
    reveal_strlit("Vector");
    assert("Vector"@.len() == 6);
    reveal_strlit("Vector2D");
    assert("Vector2D"@.len() == 8);
    reveal_strlit("Vector4D");
    assert("Vector4D"@.len() == 8);
    reveal_strlit("m_SpeechBubbles");
    assert("m_SpeechBubbles"@.len() == 15);
    reveal_strlit("DOTA_CombatLogQueryProgress");
    assert("DOTA_CombatLogQueryProgress"@.len() == 27);
    if s == "QAngle"@ {
        assert("QAngle"@[0] != "Vector"@[0]);
    }
}

/// The names of one kind get that kind's metadata.
proof fn lemma_vector3_names_metadata(s: Seq<char>)
    requires
        s == "Vector"@,
    ensures
        ident_metadata(s) == plain(DecoderKind::Vector3ForField),
{
    reveal_strlit("int8");
    assert("int8"@.len() == 4);
    reveal_strlit("int16");
    assert("int16"@.len() == 5);
    reveal_strlit("int32");
    assert("int32"@.len() == 5);
    reveal_strlit("int64");
    assert("int64"@.len() == 5);
    reveal_strlit("bool");
    assert("bool"@.len() == 4);
    reveal_strlit("float32");
    assert("float32"@.len() == 7);
    reveal_strlit("CBodyComponentDCGBaseAnimating");
    assert("CBodyComponentDCGBaseAnimating"@.len() == 30);
    reveal_strlit("CBodyComponentBaseAnimating");
    assert("CBodyComponentBaseAnimating"@.len() == 27);
    reveal_strlit("CBodyComponentBaseAnimatingOverlay");
    assert("CBodyComponentBaseAnimatingOverlay"@.len() == 34);
    reveal_strlit("CBodyComponentBaseModelEntity");
    assert("CBodyComponentBaseModelEntity"@.len() == 29);
    reveal_strlit("CBodyComponent");
    assert("CBodyComponent"@.len() == 14);
    reveal_strlit("CBodyComponentSkeletonInstance");
    assert("CBodyComponentSkeletonInstance"@.len() == 30);
    reveal_strlit("CBodyComponentPoint");
    assert("CBodyComponentPoint"@.len() == 19);
    reveal_strlit("CLightComponent");
    assert("CLightComponent"@.len() == 15);
    reveal_strlit("CRenderComponent");
    assert("CRenderComponent"@.len() == 16);
    reveal_strlit("C_BodyComponentBaseAnimating");
    assert("C_BodyComponentBaseAnimating"@.len() == 28);
    reveal_strlit("C_BodyComponentBaseAnimatingOverlay");
    assert("C_BodyComponentBaseAnimatingOverlay"@.len() == 35);
    reveal_strlit("CPhysicsComponent");
    assert("CPhysicsComponent"@.len() == 17);
    reveal_strlit("CUtlSymbolLarge");
    assert("CUtlSymbolLarge"@.len() == 15);
    reveal_strlit("CUtlString");
    assert("CUtlString"@.len() == 10);
    reveal_strlit("QAngle");
    assert("QAngle"@.len() == 6);
    reveal_strlit("CNetworkedQuantizedFloat");
    assert("CNetworkedQuantizedFloat"@.len() == 24);
    reveal_strlit("GameTime_t");
    assert("GameTime_t"@.len() == 10);
    reveal_strlit("Vector");
    assert("Vector"@.len() == 6);
    reveal_strlit("Vector2D");
    assert("Vector2D"@.len() == 8);
    reveal_strlit("Vector4D");
    assert("Vector4D"@.len() == 8);
    reveal_strlit("m_SpeechBubbles");
    assert("m_SpeechBubbles"@.len() == 15);
    reveal_strlit("DOTA_CombatLogQueryProgress");
    assert("DOTA_CombatLogQueryProgress"@.len() == 27);
    if s == "Vector"@ {
        assert("Vector"@[0] != "QAngle"@[0]);
    }
}

/// The names of one kind get that kind's metadata.
proof fn lemma_vector2_names_metadata(s: Seq<char>)
    requires
        s == "Vector2D"@,
    ensures
        ident_metadata(s) == plain(DecoderKind::Vector2ForField),
{
    reveal_strlit("int8");
    assert("int8"@.len() == 4);
    reveal_strlit("int16");
    assert("int16"@.len() == 5);
    reveal_strlit("int32");
    assert("int32"@.len() == 5);
    reveal_strlit("int64");
    assert("int64"@.len() == 5);
    reveal_strlit("bool");
    assert("bool"@.len() == 4);
    reveal_strlit("float32");
    assert("float32"@.len() == 7);
    reveal_strlit("CBodyComponentDCGBaseAnimating");
    assert("CBodyComponentDCGBaseAnimating"@.len() == 30);
    reveal_strlit("CBodyComponentBaseAnimating");
    assert("CBodyComponentBaseAnimating"@.len() == 27);
    reveal_strlit("CBodyComponentBaseAnimatingOverlay");
    assert("CBodyComponentBaseAnimatingOverlay"@.len() == 34);
    reveal_strlit("CBodyComponentBaseModelEntity");
    assert("CBodyComponentBaseModelEntity"@.len() == 29);
    reveal_strlit("CBodyComponent");
    assert("CBodyComponent"@.len() == 14);
    reveal_strlit("CBodyComponentSkeletonInstance");
    assert("CBodyComponentSkeletonInstance"@.len() == 30);
    reveal_strlit("CBodyComponentPoint");
    assert("CBodyComponentPoint"@.len() == 19);
    reveal_strlit("CLightComponent");
    assert("CLightComponent"@.len() == 15);
    reveal_strlit("CRenderComponent");
    assert("CRenderComponent"@.len() == 16);
    reveal_strlit("C_BodyComponentBaseAnimating");
    assert("C_BodyComponentBaseAnimating"@.len() == 28);
    reveal_strlit("C_BodyComponentBaseAnimatingOverlay");
    assert("C_BodyComponentBaseAnimatingOverlay"@.len() == 35);
    reveal_strlit("CPhysicsComponent");
    assert("CPhysicsComponent"@.len() == 17);
    reveal_strlit("CUtlSymbolLarge");
    assert("CUtlSymbolLarge"@.len() == 15);
    reveal_strlit("CUtlString");
    assert("CUtlString"@.len() == 10);
    reveal_strlit("QAngle");
    assert("QAngle"@.len() == 6);
    reveal_strlit("CNetworkedQuantizedFloat");
    assert("CNetworkedQuantizedFloat"@.len() == 24);
    reveal_strlit("GameTime_t");
    assert("GameTime_t"@.len() == 10);
    reveal_strlit("Vector");
    assert("Vector"@.len() == 6);
    reveal_strlit("Vector2D");
    assert("Vector2D"@.len() == 8);
    reveal_strlit("Vector4D");
    assert("Vector4D"@.len() == 8);
    reveal_strlit("m_SpeechBubbles");
    assert("m_SpeechBubbles"@.len() == 15);
    reveal_strlit("DOTA_CombatLogQueryProgress");
    assert("DOTA_CombatLogQueryProgress"@.len() == 27);
    if s == "Vector2D"@ {
        assert("Vector2D"@[6] != "Vector4D"@[6]);
    }
}

/// The names of one kind get that kind's metadata.
proof fn lemma_vector4_names_metadata(s: Seq<char>)
    requires
        s == "Vector4D"@,
    ensures
        ident_metadata(s) == plain(DecoderKind::Vector4ForField),
{
    reveal_strlit("int8");
    assert("int8"@.len() == 4);
    reveal_strlit("int16");
    assert("int16"@.len() == 5);
    reveal_strlit("int32");
    assert("int32"@.len() == 5);
    reveal_strlit("int64");
    assert("int64"@.len() == 5);
    reveal_strlit("bool");
    assert("bool"@.len() == 4);
    reveal_strlit("float32");
    assert("float32"@.len() == 7);
    reveal_strlit("CBodyComponentDCGBaseAnimating");
    assert("CBodyComponentDCGBaseAnimating"@.len() == 30);
    reveal_strlit("CBodyComponentBaseAnimating");
    assert("CBodyComponentBaseAnimating"@.len() == 27);
    reveal_strlit("CBodyComponentBaseAnimatingOverlay");
    assert("CBodyComponentBaseAnimatingOverlay"@.len() == 34);
    reveal_strlit("CBodyComponentBaseModelEntity");
    assert("CBodyComponentBaseModelEntity"@.len() == 29);
    reveal_strlit("CBodyComponent");
    assert("CBodyComponent"@.len() == 14);
    reveal_strlit("CBodyComponentSkeletonInstance");
    assert("CBodyComponentSkeletonInstance"@.len() == 30);
    reveal_strlit("CBodyComponentPoint");
    assert("CBodyComponentPoint"@.len() == 19);
    reveal_strlit("CLightComponent");
    assert("CLightComponent"@.len() == 15);
    reveal_strlit("CRenderComponent");
    assert("CRenderComponent"@.len() == 16);
    reveal_strlit("C_BodyComponentBaseAnimating");
    assert("C_BodyComponentBaseAnimating"@.len() == 28);
    reveal_strlit("C_BodyComponentBaseAnimatingOverlay");
    assert("C_BodyComponentBaseAnimatingOverlay"@.len() == 35);
    reveal_strlit("CPhysicsComponent");
    assert("CPhysicsComponent"@.len() == 17);
    reveal_strlit("CUtlSymbolLarge");
    assert("CUtlSymbolLarge"@.len() == 15);
    reveal_strlit("CUtlString");
    assert("CUtlString"@.len() == 10);
    reveal_strlit("QAngle");
    assert("QAngle"@.len() == 6);
    reveal_strlit("CNetworkedQuantizedFloat");
    assert("CNetworkedQuantizedFloat"@.len() == 24);
    reveal_strlit("GameTime_t");
    assert("GameTime_t"@.len() == 10);
    reveal_strlit("Vector");
    assert("Vector"@.len() == 6);
    reveal_strlit("Vector2D");
    assert("Vector2D"@.len() == 8);
    reveal_strlit("Vector4D");
    assert("Vector4D"@.len() == 8);
    reveal_strlit("m_SpeechBubbles");
    assert("m_SpeechBubbles"@.len() == 15);
    reveal_strlit("DOTA_CombatLogQueryProgress");
    assert("DOTA_CombatLogQueryProgress"@.len() == 27);
    if s == "Vector4D"@ {
        assert("Vector4D"@[6] != "Vector2D"@[6]);
    }
}

/// The names of one kind get that kind's metadata.
proof fn lemma_component_names_metadata(s: Seq<char>)
    requires
        is_component_type_name(s),
    ensures
        ident_metadata(s) == special(FieldSpecialDescriptor::Pointer, DecoderKind::Bool),
{
    reveal_strlit("int8");
    assert("int8"@.len() == 4);
    reveal_strlit("int16");
    assert("int16"@.len() == 5);
    reveal_strlit("int32");
    assert("int32"@.len() == 5);
    reveal_strlit("int64");
    assert("int64"@.len() == 5);
    reveal_strlit("bool");
    assert("bool"@.len() == 4);
    reveal_strlit("float32");
    assert("float32"@.len() == 7);
    reveal_strlit("CBodyComponentDCGBaseAnimating");
    assert("CBodyComponentDCGBaseAnimating"@.len() == 30);
    reveal_strlit("CBodyComponentBaseAnimating");
    assert("CBodyComponentBaseAnimating"@.len() == 27);
    reveal_strlit("CBodyComponentBaseAnimatingOverlay");
    assert("CBodyComponentBaseAnimatingOverlay"@.len() == 34);
    reveal_strlit("CBodyComponentBaseModelEntity");
    assert("CBodyComponentBaseModelEntity"@.len() == 29);
    reveal_strlit("CBodyComponent");
    assert("CBodyComponent"@.len() == 14);
    reveal_strlit("CBodyComponentSkeletonInstance");
    assert("CBodyComponentSkeletonInstance"@.len() == 30);
    reveal_strlit("CBodyComponentPoint");
    assert("CBodyComponentPoint"@.len() == 19);
    reveal_strlit("CLightComponent");
    assert("CLightComponent"@.len() == 15);
    reveal_strlit("CRenderComponent");
    assert("CRenderComponent"@.len() == 16);
    reveal_strlit("C_BodyComponentBaseAnimating");
    assert("C_BodyComponentBaseAnimating"@.len() == 28);
    reveal_strlit("C_BodyComponentBaseAnimatingOverlay");
    assert("C_BodyComponentBaseAnimatingOverlay"@.len() == 35);
    reveal_strlit("CPhysicsComponent");
    assert("CPhysicsComponent"@.len() == 17);
    reveal_strlit("CUtlSymbolLarge");
    assert("CUtlSymbolLarge"@.len() == 15);
    reveal_strlit("CUtlString");
    assert("CUtlString"@.len() == 10);
    reveal_strlit("QAngle");
    assert("QAngle"@.len() == 6);
    reveal_strlit("CNetworkedQuantizedFloat");
    assert("CNetworkedQuantizedFloat"@.len() == 24);
    reveal_strlit("GameTime_t");
    assert("GameTime_t"@.len() == 10);
    reveal_strlit("Vector");
    assert("Vector"@.len() == 6);
    reveal_strlit("Vector2D");
    assert("Vector2D"@.len() == 8);
    reveal_strlit("Vector4D");
    assert("Vector4D"@.len() == 8);
    reveal_strlit("m_SpeechBubbles");
    assert("m_SpeechBubbles"@.len() == 15);
    reveal_strlit("DOTA_CombatLogQueryProgress");
    assert("DOTA_CombatLogQueryProgress"@.len() == 27);
    if s == "CBodyComponentDCGBaseAnimating"@ {
        assert("CBodyComponentDCGBaseAnimating"@[14] != "CBodyComponentSkeletonInstance"@[14]);
    }
    if s == "CBodyComponentBaseAnimating"@ {
        assert("CBodyComponentBaseAnimating"@[0] != "DOTA_CombatLogQueryProgress"@[0]);
    }
    if s == "CBodyComponentSkeletonInstance"@ {
        assert("CBodyComponentSkeletonInstance"@[14] != "CBodyComponentDCGBaseAnimating"@[14]);
    }
    if s == "CLightComponent"@ {
        assert("CLightComponent"@[1] != "CUtlSymbolLarge"@[1]);
        assert("CLightComponent"@[0] != "m_SpeechBubbles"@[0]);
    }
}

/// The names of one kind get that kind's metadata.
proof fn lemma_serializer_array_names_metadata(s: Seq<char>)
    requires
        is_serializer_array_type_name(s),
    ensures
        ident_metadata(s) == special(FieldSpecialDescriptor::DynamicSerializerArray, DecoderKind::U64),
{
    reveal_strlit("int8");
    assert("int8"@.len() == 4);
    reveal_strlit("int16");
    assert("int16"@.len() == 5);
    reveal_strlit("int32");
    assert("int32"@.len() == 5);
    reveal_strlit("int64");
    assert("int64"@.len() == 5);
    reveal_strlit("bool");
    assert("bool"@.len() == 4);
    reveal_strlit("float32");
    assert("float32"@.len() == 7);
    reveal_strlit("CBodyComponentDCGBaseAnimating");
    assert("CBodyComponentDCGBaseAnimating"@.len() == 30);
    reveal_strlit("CBodyComponentBaseAnimating");
    assert("CBodyComponentBaseAnimating"@.len() == 27);
    reveal_strlit("CBodyComponentBaseAnimatingOverlay");
    assert("CBodyComponentBaseAnimatingOverlay"@.len() == 34);
    reveal_strlit("CBodyComponentBaseModelEntity");
    assert("CBodyComponentBaseModelEntity"@.len() == 29);
    reveal_strlit("CBodyComponent");
    assert("CBodyComponent"@.len() == 14);
    reveal_strlit("CBodyComponentSkeletonInstance");
    assert("CBodyComponentSkeletonInstance"@.len() == 30);
    reveal_strlit("CBodyComponentPoint");
    assert("CBodyComponentPoint"@.len() == 19);
    reveal_strlit("CLightComponent");
    assert("CLightComponent"@.len() == 15);
    reveal_strlit("CRenderComponent");
    assert("CRenderComponent"@.len() == 16);
    reveal_strlit("C_BodyComponentBaseAnimating");
    assert("C_BodyComponentBaseAnimating"@.len() == 28);
    reveal_strlit("C_BodyComponentBaseAnimatingOverlay");
    assert("C_BodyComponentBaseAnimatingOverlay"@.len() == 35);
    reveal_strlit("CPhysicsComponent");
    assert("CPhysicsComponent"@.len() == 17);
    reveal_strlit("CUtlSymbolLarge");
    assert("CUtlSymbolLarge"@.len() == 15);
    reveal_strlit("CUtlString");
    assert("CUtlString"@.len() == 10);
    reveal_strlit("QAngle");
    assert("QAngle"@.len() == 6);
    reveal_strlit("CNetworkedQuantizedFloat");
    assert("CNetworkedQuantizedFloat"@.len() == 24);
    reveal_strlit("GameTime_t");
    assert("GameTime_t"@.len() == 10);
    reveal_strlit("Vector");
    assert("Vector"@.len() == 6);
    reveal_strlit("Vector2D");
    assert("Vector2D"@.len() == 8);
    reveal_strlit("Vector4D");
    assert("Vector4D"@.len() == 8);
    reveal_strlit("m_SpeechBubbles");
    assert("m_SpeechBubbles"@.len() == 15);
    reveal_strlit("DOTA_CombatLogQueryProgress");
    assert("DOTA_CombatLogQueryProgress"@.len() == 27);
    if s == "m_SpeechBubbles"@ {
        assert("m_SpeechBubbles"@[0] != "CLightComponent"@[0]);
        assert("m_SpeechBubbles"@[0] != "CUtlSymbolLarge"@[0]);
    }
    if s == "DOTA_CombatLogQueryProgress"@ {
        assert("DOTA_CombatLogQueryProgress"@[0] != "CBodyComponentBaseAnimating"@[0]);
    }
}

/// Each kind of type name gets the decoder of its kind, and no other name gets it: floats
/// decode as floats, signed integers as signed integers, `bool` as a flag, strings as strings,
/// the angle and vector types as their vectors, components as pointers, the serializer array
/// names as arrays of serializers, and every other name as an unsigned integer.
pub proof fn lemma_type_name_metadata(s: Seq<char>)
    ensures
        is_float_type_name(s) <==> ident_metadata(s) == plain(DecoderKind::F32ForField),
        is_signed_int_type_name(s) <==> ident_metadata(s) == plain(DecoderKind::I64),
        s == "bool"@ <==> ident_metadata(s) == plain(DecoderKind::Bool),
        is_string_type_name(s) <==> ident_metadata(s) == plain(DecoderKind::String),
        s == "QAngle"@ <==> ident_metadata(s) == plain(DecoderKind::QAngleForField),
        s == "Vector"@ <==> ident_metadata(s) == plain(DecoderKind::Vector3ForField),
        s == "Vector2D"@ <==> ident_metadata(s) == plain(DecoderKind::Vector2ForField),
        s == "Vector4D"@ <==> ident_metadata(s) == plain(DecoderKind::Vector4ForField),
        is_component_type_name(s) <==> ident_metadata(s) == special(
            FieldSpecialDescriptor::Pointer,
            DecoderKind::Bool,
        ),
        is_serializer_array_type_name(s) <==> ident_metadata(s) == special(
            FieldSpecialDescriptor::DynamicSerializerArray,
            DecoderKind::U64,
        ),
        !is_known_type_name(s) <==> ident_metadata(s) == plain(DecoderKind::U64ForField),
{
    if is_float_type_name(s) {
        lemma_float_names_metadata(s);
    }
    if is_signed_int_type_name(s) {
        lemma_int_names_metadata(s);
    }
    if s == "bool"@ {
        lemma_bool_names_metadata(s);
    }
    if is_string_type_name(s) {
        lemma_string_names_metadata(s);
    }
    if s == "QAngle"@ {
        lemma_qangle_names_metadata(s);
    }
    if s == "Vector"@ {
        lemma_vector3_names_metadata(s);
    }
    if s == "Vector2D"@ {
        lemma_vector2_names_metadata(s);
    }
    if s == "Vector4D"@ {
        lemma_vector4_names_metadata(s);
    }
    if is_component_type_name(s) {
        lemma_component_names_metadata(s);
    }
    if is_serializer_array_type_name(s) {
        lemma_serializer_array_names_metadata(s);
    }
}

/// Names of templates of variable length arrays.
pub open spec fn is_vector_name(s: Seq<char>) -> bool {
    s == "CNetworkUtlVectorBase"@ || s == "CUtlVectorEmbeddedNetworkVar"@ || s == "CUtlVector"@
}

/// The length that a named array length stands for.
pub open spec fn named_length(s: Seq<char>) -> Option<usize> {
    if s == "MAX_ABILITY_DRAFT_ABILITIES"@ {
        Some(48)
    } else if s == "DOTA_ABILITY_DRAFT_HEROES_PER_GAME"@ {
        Some(10)
    } else {
        None
    }
}

/// The named array lengths of ability drafting: 48 abilities, and 10 heroes per game; no other
/// name gives a length.
pub proof fn lemma_named_lengths(s: Seq<char>)
    ensures
        s == "MAX_ABILITY_DRAFT_ABILITIES"@ <==> named_length(s) == Some(48usize),
        s == "DOTA_ABILITY_DRAFT_HEROES_PER_GAME"@ <==> named_length(s) == Some(10usize),
        named_length(s) is None <==> !(s == "MAX_ABILITY_DRAFT_ABILITIES"@ || s
            == "DOTA_ABILITY_DRAFT_HEROES_PER_GAME"@),
{
    reveal_strlit("MAX_ABILITY_DRAFT_ABILITIES");
    reveal_strlit("DOTA_ABILITY_DRAFT_HEROES_PER_GAME");
    assert("MAX_ABILITY_DRAFT_ABILITIES"@.len() == 27);
    assert("DOTA_ABILITY_DRAFT_HEROES_PER_GAME"@.len() == 34);
}

/// The name of an identifier expression.
pub open spec fn ident_name(se: SpecExpr, text: Seq<char>) -> Seq<char> {
    match se {
        SpecExpr::Ident(a, b) => text.subrange(a, b),
        _ => Seq::empty(),
    }
}

/// Visiting `se` meets no shape that the visitor does not handle (a template of something
/// other than a name, an array length other than a name or number, a bare number).
pub open spec fn visitable(se: SpecExpr, text: Seq<char>, has_serializer: bool) -> bool
    decreases se,
{
    match se {
        SpecExpr::Ident(_, _) => true,
        SpecExpr::Pointer(_) => true,
        SpecExpr::Num(_) => false,
        SpecExpr::Template(x, y) => *x is Ident && (is_vector_name(ident_name(*x, text))
            && !has_serializer ==> visitable(*y, text, has_serializer)),
        SpecExpr::Array(x, l) => if *x is Ident && ident_name(*x, text) == "char"@ {
            true
        } else {
            match *l {
                SpecExpr::Ident(_, _) => named_length(ident_name(*l, text)) is Some ==> visitable(
                    *x,
                    text,
                    has_serializer,
                ),
                SpecExpr::Num(_) => visitable(*x, text, has_serializer),
                _ => false,
            }
        },
    }
}

/// The metadata of a field of type `se`, or the unknown array length name that stops it.
pub open spec fn metadata_spec(se: SpecExpr, text: Seq<char>, has_serializer: bool) -> Result<
    FieldMetadata,
    Seq<char>,
>
    decreases se,
{
    match se {
        SpecExpr::Ident(a, b) => Ok(ident_metadata(text.subrange(a, b))),
        SpecExpr::Pointer(_) => Ok(special(FieldSpecialDescriptor::Pointer, DecoderKind::Bool)),
        SpecExpr::Template(x, y) => if is_vector_name(ident_name(*x, text)) {
            if has_serializer {
                Ok(special(FieldSpecialDescriptor::DynamicSerializerArray, DecoderKind::U64))
            } else {
                match metadata_spec(*y, text, has_serializer) {
                    Ok(m) => Ok(
                        special(
                            FieldSpecialDescriptor::DynamicArray { decoder: m.decoder },
                            DecoderKind::U64,
                        ),
                    ),
                    Err(s) => Err(s),
                }
            }
        } else {
            Ok(ident_metadata(ident_name(*x, text)))
        },
        SpecExpr::Array(x, l) => if *x is Ident && ident_name(*x, text) == "char"@ {
            Ok(plain(DecoderKind::String))
        } else {
            let length = match *l {
                SpecExpr::Ident(a, b) => match named_length(text.subrange(a, b)) {
                    Some(n) => Ok(n),
                    None => Err(text.subrange(a, b)),
                },
                SpecExpr::Num(n) => Ok(n as usize),
                _ => Err(Seq::empty()),
            };
            match length {
                Err(s) => Err(s),
                Ok(n) => match metadata_spec(*x, text, has_serializer) {
                    Ok(m) => Ok(special(FieldSpecialDescriptor::FixedArray { length: n }, m.decoder)),
                    Err(s) => Err(s),
                },
            }
        },
        SpecExpr::Num(_) => Err(Seq::empty()),
    }
}

/// The result of visiting stands for the spec result.
pub open spec fn visit_result_is(
    r: Result<FieldMetadata, FieldMetadataError>,
    s: Result<FieldMetadata, Seq<char>>,
) -> bool {
    match s {
        Ok(m) => r == Ok::<FieldMetadata, FieldMetadataError>(m),
        Err(name) => r matches Err(FieldMetadataError::UnknownArrayLengthIdent(x)) && x@ == name,
    }
}

/// Whether two strings have the same characters.
fn str_eq(a: &str, b: &str) -> (r: bool)
    ensures
        r == (a@ == b@),
{
    let n = a.unicode_len();
    if n != b.unicode_len() {
        return false;
    }
    let mut i: usize = 0;
    while i < n
        invariant
            n == a@.len(),
            n == b@.len(),
            i <= n,
            a@.subrange(0, i as int) == b@.subrange(0, i as int),
        decreases n - i,
    {
        if a.get_char(i) != b.get_char(i) {
            assert(a@[i as int] != b@[i as int]);
            return false;
        }
        proof {
            assert(a@.subrange(0, i + 1) =~= a@.subrange(0, i as int).push(a@[i as int]));
            assert(b@.subrange(0, i + 1) =~= b@.subrange(0, i as int).push(b@[i as int]));
        }
        i = i + 1;
    }
    proof {
        assert(a@ =~= a@.subrange(0, i as int));
        assert(b@ =~= b@.subrange(0, i as int));
    }
    true
}

/// Whether `s` names a pointed-to component.
fn pointer_name(s: &str) -> (r: bool)
    ensures
        r == is_pointer_name(s@),
{
    str_eq(s, "CBodyComponentDCGBaseAnimating") || str_eq(s, "CBodyComponentBaseAnimating")
        || str_eq(s, "CBodyComponentBaseAnimatingOverlay") || str_eq(
        s,
        "CBodyComponentBaseModelEntity",
    ) || str_eq(s, "CBodyComponent") || str_eq(s, "CBodyComponentSkeletonInstance") || str_eq(
        s,
        "CBodyComponentPoint",
    ) || str_eq(s, "CLightComponent") || str_eq(s, "CRenderComponent") || str_eq(
        s,
        "C_BodyComponentBaseAnimating",
    ) || str_eq(s, "C_BodyComponentBaseAnimatingOverlay") || str_eq(s, "CPhysicsComponent")
}

/// The metadata of a field whose type is the name `ident`: see [`ident_metadata`].
fn visit_ident(ident: &str) -> (r: FieldMetadata)
    ensures
        r == ident_metadata(ident@),
{
    if str_eq(ident, "int8") || str_eq(ident, "int16") || str_eq(ident, "int32") || str_eq(
        ident,
        "int64",
    ) {
        FieldMetadata { special_descriptor: None, decoder: DecoderKind::I64 }
    } else if str_eq(ident, "bool") {
        FieldMetadata { special_descriptor: None, decoder: DecoderKind::Bool }
    } else if str_eq(ident, "float32") {
        FieldMetadata { special_descriptor: None, decoder: DecoderKind::F32ForField }
    } else if pointer_name(ident) {
        FieldMetadata {
            special_descriptor: Some(FieldSpecialDescriptor::Pointer),
            decoder: DecoderKind::Bool,
        }
    } else if str_eq(ident, "CUtlSymbolLarge") || str_eq(ident, "CUtlString") {
        FieldMetadata { special_descriptor: None, decoder: DecoderKind::String }
    } else if str_eq(ident, "QAngle") {
        FieldMetadata { special_descriptor: None, decoder: DecoderKind::QAngleForField }
    } else if str_eq(ident, "CNetworkedQuantizedFloat") || str_eq(ident, "GameTime_t") {
        FieldMetadata { special_descriptor: None, decoder: DecoderKind::F32ForField }
    } else if str_eq(ident, "Vector") {
        FieldMetadata { special_descriptor: None, decoder: DecoderKind::Vector3ForField }
    } else if str_eq(ident, "Vector2D") {
        FieldMetadata { special_descriptor: None, decoder: DecoderKind::Vector2ForField }
    } else if str_eq(ident, "Vector4D") {
        FieldMetadata { special_descriptor: None, decoder: DecoderKind::Vector4ForField }
    } else if str_eq(ident, "m_SpeechBubbles") || str_eq(ident, "DOTA_CombatLogQueryProgress") {
        FieldMetadata {
            special_descriptor: Some(FieldSpecialDescriptor::DynamicSerializerArray),
            decoder: DecoderKind::U64,
        }
    } else {
        FieldMetadata { special_descriptor: None, decoder: DecoderKind::U64ForField }
    }
}

/// The metadata of a template `expr< arg >`.
fn visit_template(
    expr: &Expr,
    arg: &Expr,
    Ghost(sx): Ghost<SpecExpr>,
    Ghost(sy): Ghost<SpecExpr>,
    Ghost(text): Ghost<Seq<char>>,
    has_serializer: bool,
) -> (r: Result<FieldMetadata, FieldMetadataError>)
    requires
        expr_is(*expr, sx, text),
        expr_is(*arg, sy, text),
        visitable(SpecExpr::Template(Box::new(sx), Box::new(sy)), text, has_serializer),
    ensures
        visit_result_is(
            r,
            metadata_spec(SpecExpr::Template(Box::new(sx), Box::new(sy)), text, has_serializer),
        ),
    decreases SpecExpr::Template(Box::new(sx), Box::new(sy)), 0int,
{
    let ident = match expr {
        Expr::Ident(ident) => *ident,
        _ => {
            proof {
                assert(false);
            }
            return Ok(FieldMetadata::default());
        },
    };
    if str_eq(ident, "CNetworkUtlVectorBase") || str_eq(ident, "CUtlVectorEmbeddedNetworkVar")
        || str_eq(ident, "CUtlVector") {
        if has_serializer {
            return Ok(
                FieldMetadata {
                    special_descriptor: Some(FieldSpecialDescriptor::DynamicSerializerArray),
                    decoder: DecoderKind::U64,
                },
            );
        }
        return match visit_any(arg, Ghost(sy), Ghost(text), has_serializer) {
            Ok(m) => Ok(
                FieldMetadata {
                    special_descriptor: Some(
                        FieldSpecialDescriptor::DynamicArray { decoder: m.decoder },
                    ),
                    decoder: DecoderKind::U64,
                },
            ),
            Err(e) => Err(e),
        };
    }
    Ok(visit_ident(ident))
}

/// The metadata of an array `expr[len]`.
fn visit_array(
    expr: &Expr,
    len: &Expr,
    Ghost(sx): Ghost<SpecExpr>,
    Ghost(sl): Ghost<SpecExpr>,
    Ghost(text): Ghost<Seq<char>>,
    has_serializer: bool,
) -> (r: Result<FieldMetadata, FieldMetadataError>)
    requires
        expr_is(*expr, sx, text),
        expr_is(*len, sl, text),
        visitable(SpecExpr::Array(Box::new(sx), Box::new(sl)), text, has_serializer),
    ensures
        visit_result_is(
            r,
            metadata_spec(SpecExpr::Array(Box::new(sx), Box::new(sl)), text, has_serializer),
        ),
    decreases SpecExpr::Array(Box::new(sx), Box::new(sl)), 0int,
{
    if let Expr::Ident(ident) = expr {
        if str_eq(ident, "char") {
            return Ok(FieldMetadata { special_descriptor: None, decoder: DecoderKind::String });
        }
    }
    let length: usize = match len {
        Expr::Ident(ident) => {
            if str_eq(ident, "MAX_ABILITY_DRAFT_ABILITIES") {
                48
            } else if str_eq(ident, "DOTA_ABILITY_DRAFT_HEROES_PER_GAME") {
                10
            } else {
                return Err(FieldMetadataError::UnknownArrayLengthIdent(String::from_str(ident)));
            }
        },
        Expr::Lit(Lit::Num(length)) => *length,
        _ => {
            proof {
                assert(false);
            }
            return Ok(FieldMetadata::default());
        },
    };
    match visit_any(expr, Ghost(sx), Ghost(text), has_serializer) {
        Ok(m) => Ok(
            FieldMetadata {
                special_descriptor: Some(FieldSpecialDescriptor::FixedArray { length }),
                decoder: m.decoder,
            },
        ),
        Err(e) => Err(e),
    }
}

/// The metadata of a pointer.
fn visit_pointer() -> (r: FieldMetadata)
    ensures
        r == special(FieldSpecialDescriptor::Pointer, DecoderKind::Bool),
{
    FieldMetadata {
        special_descriptor: Some(FieldSpecialDescriptor::Pointer),
        decoder: DecoderKind::Bool,
    }
}

/// The metadata of a field of type `expr`: see [`metadata_spec`].
fn visit_any(
    expr: &Expr,
    Ghost(se): Ghost<SpecExpr>,
    Ghost(text): Ghost<Seq<char>>,
    has_serializer: bool,
) -> (r: Result<FieldMetadata, FieldMetadataError>)
    requires
        expr_is(*expr, se, text),
        visitable(se, text, has_serializer),
    ensures
        visit_result_is(r, metadata_spec(se, text, has_serializer)),
    decreases se, 1int,
{
    match expr {
        Expr::Ident(ident) => Ok(visit_ident(ident)),
        Expr::Template { expr: x, arg } => {
            let ghost (sx, sy) = match se {
                SpecExpr::Template(a, b) => (*a, *b),
                _ => (se, se),
            };
            proof {
                assert(se == SpecExpr::Template(Box::new(sx), Box::new(sy)));
            }
            visit_template(x, arg, Ghost(sx), Ghost(sy), Ghost(text), has_serializer)
        },
        Expr::Array { expr: x, len } => {
            let ghost (sx, sl) = match se {
                SpecExpr::Array(a, b) => (*a, *b),
                _ => (se, se),
            };
            proof {
                assert(se == SpecExpr::Array(Box::new(sx), Box::new(sl)));
            }
            visit_array(x, len, Ghost(sx), Ghost(sl), Ghost(text), has_serializer)
        },
        Expr::Pointer(_) => Ok(visit_pointer()),
        Expr::Lit(_) => {
            proof {
                assert(false);
            }
            Ok(FieldMetadata::default())
        },
    }
}

/// Decoders that are built from the field's encoding settings (its bit count, its range and its
/// encode flags) and whose building can fail.
pub open spec fn built_from_settings(k: DecoderKind) -> bool {
    ||| k is F32ForField
    ||| k is Vector2ForField
    ||| k is Vector3ForField
    ||| k is Vector4ForField
}

/// The metadata calls for a decoder that is built from the field's encoding settings: its own
/// decoder, or that of the elements of a variable length array.
pub open spec fn needs_settings_decoder(m: FieldMetadata) -> bool {
    built_from_settings(m.decoder) || (m.special_descriptor matches Some(
        FieldSpecialDescriptor::DynamicArray { decoder },
    ) && built_from_settings(decoder))
}

/// Whether a decoder is built from the field's encoding settings.
fn from_settings(k: DecoderKind) -> (r: bool)
    ensures
        r == built_from_settings(k),
{
    match k {
        DecoderKind::F32ForField => true,
        DecoderKind::Vector2ForField => true,
        DecoderKind::Vector3ForField => true,
        DecoderKind::Vector4ForField => true,
        _ => false,
    }
}

/// The metadata of a field of variable type `var_type` and with the encoding settings that
/// `decoder_builds` judges, for a field with a serializer of its own where `has_serializer`
/// holds: a type that does not parse is a parse error; otherwise see [`metadata_spec`]. Where
/// the type calls for a decoder that is built from the field's encoding settings (see
/// [`needs_settings_decoder`]), `decoder_builds` says whether the settings admit it (the range
/// is floating point, judged where the field is decoded); where they do not, the error is
/// [`FieldMetadataError::FieldDecoderConstructionError`].
pub fn get_field_metadata(has_serializer: bool, var_type: &str, decoder_builds: bool) -> (r: Result<
    FieldMetadata,
    FieldMetadataError,
>)
    requires
        fits_spans(var_type@),
        parse_expr_spec(var_type@, 0) matches Ok((se, _)) ==> visitable(
            se,
            var_type@,
            has_serializer,
        ),
    ensures
        match parse_expr_spec(var_type@, 0) {
            Err(e) => r matches Err(FieldMetadataError::VarTypeParseError(x)) && x == e,
            Ok((se, _)) => match metadata_spec(se, var_type@, has_serializer) {
                Ok(m) => if needs_settings_decoder(m) && !decoder_builds {
                    r matches Err(FieldMetadataError::FieldDecoderConstructionError)
                } else {
                    r == Ok::<FieldMetadata, FieldMetadataError>(m)
                },
                Err(name) => r matches Err(FieldMetadataError::UnknownArrayLengthIdent(x)) && x@ == name,
            },
        },
{
    match parse(var_type) {
        Ok(expr) => {
            let ghost se = (parse_expr_spec(var_type@, 0)->Ok_0).0;
            match visit_any(&expr, Ghost(se), Ghost(var_type@), has_serializer) {
                Ok(m) => {
                    let element = match m.special_descriptor {
                        Some(FieldSpecialDescriptor::DynamicArray { decoder }) => from_settings(decoder),
                        _ => false,
                    };
                    if (from_settings(m.decoder) || element) && !decoder_builds {
                        Err(FieldMetadataError::FieldDecoderConstructionError)
                    } else {
                        Ok(m)
                    }
                },
                Err(e) => Err(e),
            }
        },
        Err(e) => Err(FieldMetadataError::VarTypeParseError(e)),
    }
}

} // verus!
