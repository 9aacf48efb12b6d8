use haste::haste_core::fieldmetadata::{
    get_field_metadata, DecoderKind, FieldMetadata, FieldMetadataError, FieldSpecialDescriptor,
};
use haste::haste_vartype::Error as VarTypeError;
use haste::haste_base::fieldmetadata as base;
use haste::haste_base::fieldmetadata::DecoderKind as BaseDecoder;
use haste::haste_dota2::fieldmetadata as dota2;
use haste::haste_dota2_deflat::var_type::parse as parse_decl;
use haste::haste_vartype::parse;

fn plain(decoder: DecoderKind) -> FieldMetadata {
    FieldMetadata { special_descriptor: None, decoder }
}

fn meta(var_type: &str, has_serializer: bool) -> FieldMetadata {
    match get_field_metadata(has_serializer, var_type, true) {
        Ok(m) => m,
        Err(e) => panic!("{:?}", e),
    }
}

#[test]
fn metadata_of_names() {
    assert_eq!(meta("int32", false), plain(DecoderKind::I64));
    assert_eq!(meta("bool", false), plain(DecoderKind::Bool));
    assert_eq!(meta("float32", false), plain(DecoderKind::F32ForField));
    assert_eq!(meta("CUtlString", false), plain(DecoderKind::String));
    assert_eq!(meta("Vector", false), plain(DecoderKind::Vector3ForField));
    assert_eq!(meta("uint16", false), plain(DecoderKind::U64ForField));
    assert_eq!(
        meta("CBodyComponent", false),
        FieldMetadata {
            special_descriptor: Some(FieldSpecialDescriptor::Pointer),
            decoder: DecoderKind::Bool
        }
    );
}

#[test]
fn metadata_of_vectors() {
    assert_eq!(
        meta("CNetworkUtlVectorBase< Vector >", false),
        FieldMetadata {
            special_descriptor: Some(FieldSpecialDescriptor::DynamicArray {
                decoder: DecoderKind::Vector3ForField
            }),
            decoder: DecoderKind::U64
        }
    );
    assert_eq!(
        meta("CUtlVectorEmbeddedNetworkVar< Stats_t >", true),
        FieldMetadata {
            special_descriptor: Some(FieldSpecialDescriptor::DynamicSerializerArray),
            decoder: DecoderKind::U64
        }
    );
    assert_eq!(meta("CHandle< CBaseEntity >", false), plain(DecoderKind::U64ForField));
}

#[test]
fn metadata_of_arrays() {
    assert_eq!(meta("char[128]", false), plain(DecoderKind::String));
    assert_eq!(
        meta("int32[MAX_ABILITY_DRAFT_ABILITIES]", false),
        FieldMetadata {
            special_descriptor: Some(FieldSpecialDescriptor::FixedArray { length: 48 }),
            decoder: DecoderKind::I64
        }
    );
    assert_eq!(
        meta("bool[10]", false),
        FieldMetadata {
            special_descriptor: Some(FieldSpecialDescriptor::FixedArray { length: 10 }),
            decoder: DecoderKind::Bool
        }
    );
    assert!(FieldSpecialDescriptor::DynamicSerializerArray.is_dynamic_array());
    assert!(!FieldSpecialDescriptor::Pointer.is_dynamic_array());
}

#[test]
fn metadata_errors() {
    match get_field_metadata(false, "int32[UNKNOWN_LEN]", false) {
        Err(FieldMetadataError::UnknownArrayLengthIdent(name)) => assert_eq!(name, "UNKNOWN_LEN"),
        other => panic!("{:?}", other),
    }
    match get_field_metadata(false, "", true) {
        Err(FieldMetadataError::VarTypeParseError(e)) => assert_eq!(e, VarTypeError::UnexpectedEof),
        other => panic!("{:?}", other),
    }
}

#[test]
fn base_metadata_from_parsed_types() {
    let m = |t: &str, s: bool| base::get_field_metadata(&parse(t).unwrap(), s, true).unwrap();
    assert_eq!(m("uint8", false), base::FieldMetadata { special_descriptor: None, decoder: base::DecoderKind::U8 });
    assert_eq!(m("BloodType", false).decoder, base::DecoderKind::U32);
    assert_eq!(
        m("CUtlVector< int16 >", false),
        base::FieldMetadata {
            special_descriptor: Some(base::FieldSpecialDescriptor::DynamicArray { decoder: base::DecoderKind::I16 }),
            decoder: base::DecoderKind::U32
        }
    );
    assert_eq!(
        m("Vector[3]", false),
        base::FieldMetadata {
            special_descriptor: Some(base::FieldSpecialDescriptor::FixedArray { length: 3 }),
            decoder: base::DecoderKind::VectorForField
        }
    );
    match base::get_field_metadata(&parse("int8[DOTA_ABILITY_DRAFT_HEROES_PER_GAME]").unwrap(), false, false) {
        Err(base::Error::UnknownArrayLenIdent(name)) => assert_eq!(name, "DOTA_ABILITY_DRAFT_HEROES_PER_GAME"),
        other => panic!("{:?}", other),
    }
    assert!(base::FieldSpecialDescriptor::DynamicSerializerVector.is_vector());
}

#[test]
fn dota2_metadata_from_declarations() {
    let m = |t: &str, s: bool| dota2::get_field_metadata(&parse_decl(t), s, true).unwrap();
    assert_eq!(m("CHandle< CBaseEntity >", false).decoder, BaseDecoder::U32);
    assert_eq!(
        m("CNetworkUtlVectorBase< Vector >", false),
        dota2::FieldMetadata {
            special_descriptor: Some(dota2::FieldSpecialDescriptor::VariableLengthArray),
            decoder: BaseDecoder::VectorForField
        }
    );
    assert_eq!(
        m("CNetworkUtlVectorBase< Vector >", true),
        dota2::FieldMetadata {
            special_descriptor: Some(dota2::FieldSpecialDescriptor::VariableLengthSerializerArray),
            decoder: BaseDecoder::U32
        }
    );
    assert_eq!(m("char[64]", false).decoder, BaseDecoder::String);
    assert_eq!(
        m("uint32[MAX_ABILITY_DRAFT_ABILITIES]", false),
        dota2::FieldMetadata {
            special_descriptor: Some(dota2::FieldSpecialDescriptor::Array { length: 48 }),
            decoder: BaseDecoder::U32
        }
    );
    assert_eq!(
        m("CDOTAGameManager*", false),
        dota2::FieldMetadata {
            special_descriptor: Some(dota2::FieldSpecialDescriptor::Pointer),
            decoder: BaseDecoder::Bool
        }
    );
}

#[test]
fn a_decoder_that_the_settings_do_not_admit_is_an_error() {
    assert!(matches!(
        get_field_metadata(false, "float32", false),
        Err(FieldMetadataError::FieldDecoderConstructionError)
    ));
    assert!(matches!(
        get_field_metadata(false, "CNetworkUtlVectorBase< Vector >", false),
        Err(FieldMetadataError::FieldDecoderConstructionError)
    ));
    assert_eq!(get_field_metadata(false, "int32", false).ok(), Some(plain(DecoderKind::I64)));
    assert!(matches!(
        base::get_field_metadata(&parse("Vector2D").unwrap(), false, false),
        Err(base::Error::FieldDecoder)
    ));
    assert!(matches!(
        base::get_field_metadata(&parse("CNetworkUtlVectorBase< float32 >").unwrap(), false, false),
        Err(base::Error::FieldDecoder)
    ));
    assert!(base::get_field_metadata(&parse("uint64").unwrap(), false, false).is_ok());
    assert!(matches!(
        dota2::get_field_metadata(&parse_decl("CNetworkedQuantizedFloat"), false, false),
        Err(dota2::Error::FieldDecoder)
    ));
    assert!(matches!(
        dota2::get_field_metadata(&parse_decl("float32[4]"), false, false),
        Err(dota2::Error::FieldDecoder)
    ));
    assert!(dota2::get_field_metadata(&parse_decl("QAngle"), false, false).is_ok());
}
