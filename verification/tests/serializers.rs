use haste::haste_base::fieldmetadata::DecoderKind;
use haste::haste_base::fxhash::hash_u8;
use haste::haste_dota2::entities::make_field_key;
use haste::haste_dota2::fieldmetadata::{Error as MetadataError, FieldSpecialDescriptor};
use haste::haste_dota2::fieldpath::FieldPath;
use haste::haste_base::fieldmetadata::{Error as BaseMetadataError, FieldSpecialDescriptor as BaseDescriptor};
use haste::haste_base::flattenedserializers as base_sers;
use haste::haste_core::fieldmetadata::{DecoderKind as CoreDecoder, FieldMetadataError, FieldSpecialDescriptor as CoreDescriptor};
use haste::haste_core::flattenedserializers as core_sers;
use haste::haste_dota2::flattenedserializers::{
    serializers_msg_start, Error, FlattenedSerializerMsg, FlattenedSerializers,
    ProtoFlattenedSerializer, ProtoFlattenedSerializerField, VARIABLE_ARRAY_LEN,
};

fn proto_field(var_type: i32, var_name: i32, serializer: Option<i32>, encoder: Option<i32>) -> ProtoFlattenedSerializerField {
    ProtoFlattenedSerializerField {
        var_type_sym: Some(var_type),
        var_name_sym: Some(var_name),
        bit_count: Some(17),
        encode_flags: None,
        field_serializer_name_sym: serializer,
        var_encoder_sym: encoder,
        decoder_builds: true,
    }
}

// Symbols:
//  0 "CBodyComponent"  1 "int32"  2 "m_iHealth"  3 "uint8[4]"  4 "m_nArr"
//  5 "CBodyComponent*" 6 "m_pBody" 7 "CNetworkUtlVectorBase< int32 >" 8 "m_vecInts"
//  9 "CPlayer"        10 "coord" 11 "uint32[MAX_UNKNOWN]"
fn message() -> FlattenedSerializerMsg {
    let symbols = [
        "CBodyComponent",
        "int32",
        "m_iHealth",
        "uint8[4]",
        "m_nArr",
        "CBodyComponent*",
        "m_pBody",
        "CNetworkUtlVectorBase< int32 >",
        "m_vecInts",
        "CPlayer",
        "coord",
        "uint32[MAX_UNKNOWN]",
    ];
    FlattenedSerializerMsg {
        symbols: symbols.iter().map(|s| s.to_string()).collect(),
        fields: vec![
            proto_field(1, 2, None, None),
            proto_field(3, 4, None, None),
            proto_field(5, 6, Some(0), Some(10)),
            proto_field(7, 8, None, None),
        ],
        serializers: vec![
            ProtoFlattenedSerializer { serializer_name_sym: Some(0), serializer_version: Some(1), fields_index: vec![0] },
            ProtoFlattenedSerializer { serializer_name_sym: Some(9), serializer_version: None, fields_index: vec![0, 1, 2, 3] },
        ],
    }
}

#[test]
fn serializers_are_built_from_the_message() {
    let sers = match FlattenedSerializers::parse(&message()) {
        Ok(sers) => sers,
        Err(e) => panic!("{:?}", e),
    };
    let body = sers.by_name_hash(hash_u8(b"CBodyComponent")).unwrap();
    let player = sers.by_name_hash(hash_u8(b"CPlayer")).unwrap();
    assert_eq!(sers.by_name_hash(hash_u8(b"CNothing")), None);
    assert_eq!(sers.serializers[body].serializer_name_hash, hash_u8(b"CBodyComponent"));
    assert_eq!(sers.serializers[body].fields.len(), 1);
    let fields = &sers.serializers[player].fields;
    assert_eq!(fields.len(), 4);

    // A plain field, shared with the first serializer.
    assert_eq!(fields[0], sers.serializers[body].fields[0]);
    assert_eq!(fields[0].var_name_hash, hash_u8(b"m_iHealth"));
    assert_eq!(fields[0].bit_count, Some(17));
    assert_eq!(fields[0].field_serializer, None);
    assert_eq!(fields[0].metadata.decoder, DecoderKind::I32);

    // A fixed array: its serializer holds four copies of the field as it was.
    let arr = fields[1];
    assert_eq!(arr.metadata.special_descriptor, Some(FieldSpecialDescriptor::Array { length: 4 }));
    let elements = &sers.serializers[arr.field_serializer.unwrap()];
    assert_eq!(elements.serializer_name_hash, 0);
    assert_eq!(elements.fields.len(), 4);
    assert_eq!(elements.fields[3].var_name_hash, hash_u8(b"m_nArr"));
    assert_eq!(elements.fields[3].field_serializer, None);
    assert_eq!(arr.get_child_unchecked(&sers, 2), elements.fields[2]);

    // A pointer that names the serializer built before it.
    let ptr = fields[2];
    assert_eq!(ptr.field_serializer, Some(body));
    assert_eq!(ptr.field_serializer_name_hash, Some(hash_u8(b"CBodyComponent")));
    assert!(ptr.var_encoder_hash_eq(hash_u8(b"coord")));
    assert!(!ptr.var_encoder_hash_eq(hash_u8(b"int32")));
    assert!(!fields[0].var_encoder_hash_eq(hash_u8(b"coord")));
    assert_eq!(ptr.metadata.special_descriptor, Some(FieldSpecialDescriptor::Pointer));

    // A vector of plain values.
    let vec_field = fields[3];
    assert_eq!(vec_field.metadata.special_descriptor, Some(FieldSpecialDescriptor::VariableLengthArray));
    let vec_elements = &sers.serializers[vec_field.field_serializer.unwrap()];
    assert_eq!(vec_elements.fields.len(), VARIABLE_ARRAY_LEN);
    assert_eq!(vec_elements.fields[127].var_name_hash, hash_u8(b"m_vecInts"));
}

#[test]
fn a_later_serializer_hides_an_earlier_one_of_the_same_name() {
    let mut msg = message();
    msg.serializers.push(ProtoFlattenedSerializer { serializer_name_sym: Some(0), serializer_version: None, fields_index: vec![] });
    let sers = FlattenedSerializers::parse(&msg).ok().unwrap();
    let body = sers.by_name_hash(hash_u8(b"CBodyComponent")).unwrap();
    assert_eq!(sers.serializers[body].fields.len(), 0);
    // The pointer field was built when only the first one was known.
    let player = sers.by_name_hash(hash_u8(b"CPlayer")).unwrap();
    let first_body = sers.names[0].1;
    assert_ne!(first_body, body);
    assert_eq!(sers.serializers[player].fields[2].field_serializer, Some(first_body));
}

#[test]
fn an_unknown_array_length_stops_the_build() {
    let mut msg = message();
    msg.fields.push(proto_field(11, 2, None, None));
    msg.serializers[1].fields_index.push(4);
    match FlattenedSerializers::parse(&msg) {
        Err(Error::FieldMetadata(MetadataError::UnknownArrayLengthIdent(name))) => assert_eq!(name, "MAX_UNKNOWN"),
        Err(e) => panic!("{:?}", e),
        Ok(_) => panic!("built"),
    }
}

#[test]
fn the_key_of_a_path_is_the_key_of_its_names() {
    let sers = FlattenedSerializers::parse(&message()).ok().unwrap();
    let player = sers.by_name_hash(hash_u8(b"CPlayer")).unwrap();
    let fp = FieldPath { data: [2, 0, 0, 0, 0, 0, 0], position: 1, finished: false };
    assert_eq!(
        haste::haste_dota2::flattenedserializers::field_key_of_path(&sers, player, &fp),
        make_field_key(&["m_pBody", "m_iHealth"])
    );
    let fp = FieldPath { data: [0, 0, 0, 0, 0, 0, 0], position: 0, finished: false };
    assert_eq!(
        haste::haste_dota2::flattenedserializers::field_key_of_path(&sers, player, &fp),
        make_field_key(&["m_iHealth"])
    );
}

#[test]
fn the_serializers_message_follows_its_length() {
    assert_eq!(serializers_msg_start(&[0x05, 1, 2, 3, 4, 5]).ok(), Some(1));
    assert_eq!(serializers_msg_start(&[0x85, 0x01, 0]).ok(), Some(2));
    assert!(matches!(serializers_msg_start(&[0x85]), Err(Error::Varint(_))));
    assert!(matches!(
        serializers_msg_start(&[0xff, 0xff, 0xff, 0xff, 0xff]),
        Err(Error::Varint(haste::haste_common::varint::Error::Io))
    ));
    assert_eq!(base_sers::serializers_msg_start(&[0xff, 0xff, 0xff, 0xff, 0x0f, 1]).ok(), Some(5));
}

#[test]
fn core_serializers_are_built_from_the_message() {
    let sers = match core_sers::FlattenedSerializerContainer::parse(&message()) {
        Ok(sers) => sers,
        Err(e) => panic!("{:?}", e),
    };
    let body = sers.by_name_hash(hash_u8(b"CBodyComponent")).unwrap();
    let player = sers.by_name_hash_unckecked(hash_u8(b"CPlayer"));
    assert_eq!(sers.serializers[body].serializer_name.hash, hash_u8(b"CBodyComponent"));
    let fields = &sers.serializers[player].fields;
    assert_eq!(fields.len(), 4);
    assert_eq!(fields[0].var_type.hash, hash_u8(b"int32"));
    assert_eq!(fields[0].var_name.hash, hash_u8(b"m_iHealth"));
    assert_eq!(fields[0].metadata.decoder, CoreDecoder::I64);
    assert_eq!(fields[1].metadata.special_descriptor, Some(CoreDescriptor::FixedArray { length: 4 }));
    let arr = fields[1].field_serializer.unwrap();
    assert_eq!(sers.serializers[arr].fields.len(), 4);
    assert_eq!(fields[1].get_child(&sers, 3), Some(sers.serializers[arr].fields[3]));
    assert_eq!(fields[1].get_child(&sers, 4), None);
    assert_eq!(fields[0].get_child(&sers, 0), None);
    assert_eq!(sers.serializers[arr].get_child(9), None);
    assert_eq!(fields[2].field_serializer, Some(body));
    assert!(fields[2].var_encoder_heq(hash_u8(b"coord")));
    assert!(!fields[2].is_dynamic_array());
    // A vector of plain values: one element that reads with the array's decoder.
    assert!(fields[3].is_dynamic_array());
    assert_eq!(fields[3].metadata.special_descriptor, Some(CoreDescriptor::DynamicArray { decoder: CoreDecoder::I64 }));
    let element = fields[3].get_child_unchecked(&sers, 0);
    assert_eq!(sers.serializers[fields[3].field_serializer.unwrap()].fields.len(), 1);
    assert_eq!(element.metadata.decoder, CoreDecoder::I64);
    assert_eq!(element.metadata.special_descriptor, None);
    assert_eq!(element.var_name.hash, 0);
}

#[test]
fn core_build_reports_the_failing_declaration() {
    let mut msg = message();
    msg.fields.push(proto_field(11, 2, None, None));
    msg.serializers[1].fields_index.push(4);
    match core_sers::FlattenedSerializerContainer::parse(&msg) {
        Err(core_sers::FlattenedSerializersError::FieldMetadataError(FieldMetadataError::UnknownArrayLengthIdent(name))) => {
            assert_eq!(name, "MAX_UNKNOWN")
        }
        Err(e) => panic!("{:?}", e),
        Ok(_) => panic!("built"),
    }
    let mut msg = message();
    msg.symbols.push("int32<".to_string());
    msg.fields.push(proto_field(12, 2, None, None));
    msg.serializers[0].fields_index.push(4);
    assert!(matches!(
        core_sers::FlattenedSerializerContainer::parse(&msg),
        Err(core_sers::FlattenedSerializersError::FieldMetadataError(FieldMetadataError::VarTypeParseError(_)))
    ));
    assert_eq!(core_sers::serializers_msg_start(&[0x80, 0x80, 0x01, 7]).ok(), Some(3));
}

#[test]
fn base_serializers_are_built_from_the_message() {
    let sers = match base_sers::FlattenedSerializerContainer::parse(&message()) {
        Ok(sers) => sers,
        Err(e) => panic!("{:?}", e),
    };
    let body = sers.by_name_hash(hash_u8(b"CBodyComponent")).unwrap();
    assert_eq!(sers.serializers[body].serializer_version, Some(1));
    let player = sers.by_name_hash(hash_u8(b"CPlayer")).unwrap();
    let fields = &sers.serializers[player].fields;
    assert_eq!(fields[1].metadata.special_descriptor, Some(BaseDescriptor::FixedArray { length: 4 }));
    assert_eq!(fields[2].field_serializer, Some(body));
    assert!(fields[2].is_var_encoder_hash_eq(hash_u8(b"coord")));
    assert!(fields[3].is_vector());
    assert_eq!(fields[3].metadata.special_descriptor, Some(BaseDescriptor::DynamicArray { decoder: DecoderKind::I32 }));
    let mut msg = message();
    msg.fields.push(proto_field(11, 2, None, None));
    msg.serializers[1].fields_index.push(4);
    match base_sers::FlattenedSerializerContainer::parse(&msg) {
        Err(base_sers::Error::FieldMetadata(BaseMetadataError::UnknownArrayLenIdent(name))) => assert_eq!(name, "MAX_UNKNOWN"),
        Err(e) => panic!("{:?}", e),
        Ok(_) => panic!("built"),
    }
}

#[test]
fn the_first_failing_field_stops_the_build() {
    // Field 4 has an unknown array length, field 5 a float whose settings admit no decoder; the
    // second serializer lists field 5 before field 4.
    let mut msg = message();
    msg.symbols.push("float32".to_string());
    msg.fields.push(proto_field(11, 2, None, None));
    let mut float = proto_field(12, 2, None, None);
    float.decoder_builds = false;
    msg.fields.push(float);
    msg.serializers[1].fields_index.push(5);
    msg.serializers[1].fields_index.push(4);
    assert!(matches!(
        FlattenedSerializers::parse(&msg),
        Err(Error::FieldMetadata(MetadataError::FieldDecoder))
    ));
    assert!(matches!(
        core_sers::FlattenedSerializerContainer::parse(&msg),
        Err(core_sers::FlattenedSerializersError::FieldMetadataError(FieldMetadataError::FieldDecoderConstructionError))
    ));
    assert!(matches!(
        base_sers::FlattenedSerializerContainer::parse(&msg),
        Err(base_sers::Error::FieldMetadata(BaseMetadataError::FieldDecoder))
    ));
    // With the float's settings admitting its decoder, the unknown length comes first.
    msg.fields[5].decoder_builds = true;
    match FlattenedSerializers::parse(&msg) {
        Err(Error::FieldMetadata(MetadataError::UnknownArrayLengthIdent(name))) => assert_eq!(name, "MAX_UNKNOWN"),
        Err(e) => panic!("{:?}", e),
        Ok(_) => panic!("built"),
    }
}
