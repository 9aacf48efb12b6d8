use haste::haste_core::entityclasses::{ClassInfo, EntityClasses};
use haste::haste_base::entities as base;
use haste::haste_common::bitbuf::{BitBufError, BitReader};
use haste::haste_dota2::entities as dota2;
use haste::haste_dota2::instancebaseline::{BaselineItem, Error, InstanceBaseline};

#[test]
fn delta_header_flags() {
    // Bits are read least significant first.
    let cases: [(u8, usize); 4] = [
        (0b00, dota2::FHDR_ZERO),
        (0b10, dota2::FHDR_ENTERPVS),
        (0b01, dota2::FHDR_LEAVEPVS),
        (0b11, dota2::FHDR_LEAVEPVS | dota2::FHDR_DELETE),
    ];
    for (byte, flags) in cases {
        let mut br = BitReader::new(vec![byte]);
        assert_eq!(dota2::parse_delta_header(&mut br), Ok(flags));
        assert_eq!(br.num_bits_left(), 6);
        let mut br = BitReader::new(vec![byte]);
        assert_eq!(base::parse_delta_header(&mut br), Ok(flags));
    }
}

#[test]
fn delta_header_out_of_bits() {
    let mut br = BitReader::new(vec![]);
    assert_eq!(
        dota2::parse_delta_header(&mut br),
        Err(dota2::Error::BitBuf(BitBufError::Overflow))
    );
}

#[test]
fn update_types() {
    assert_eq!(dota2::determine_update_type(dota2::FHDR_ENTERPVS), dota2::UpdateType::EnterPVS);
    assert_eq!(dota2::determine_update_type(dota2::FHDR_LEAVEPVS), dota2::UpdateType::LeavePVS);
    assert_eq!(
        dota2::determine_update_type(dota2::FHDR_LEAVEPVS | dota2::FHDR_DELETE),
        dota2::UpdateType::LeavePVS
    );
    assert_eq!(dota2::determine_update_type(dota2::FHDR_ZERO), dota2::UpdateType::DeltaEnt);
    // Entering wins over leaving.
    assert_eq!(
        dota2::determine_update_type(dota2::FHDR_ENTERPVS | dota2::FHDR_LEAVEPVS),
        dota2::UpdateType::EnterPVS
    );
}

#[test]
fn field_keys_agree() {
    let path = ["m_vecOrigin", "x"];
    assert_eq!(dota2::make_field_key(&path), 13306650232741670902);
    assert_eq!(base::make_field_key(&path), 13306650232741670902);
    assert_eq!(dota2::make_field_key(&["abc"]), 7132985165002709727);
}

fn item(name: &str, data: Option<&[u8]>) -> BaselineItem {
    BaselineItem { string: name.as_bytes().to_vec(), user_data: data.map(|d| d.to_vec()) }
}

#[test]
fn baseline_update_and_lookup() {
    let mut baseline = InstanceBaseline::default();
    let items = vec![item("2", Some(&[7, 8])), item("+0", Some(&[1])), item("1", None)];
    assert_eq!(baseline.update(&items, 3), Ok(()));
    assert_eq!(baseline.by_id_unchecked(2), &vec![7u8, 8]);
    assert_eq!(baseline.by_id_unchecked(0), &vec![1u8]);
    baseline.clear();
    let again = vec![item("0", Some(&[9]))];
    assert_eq!(baseline.update(&again, 1), Ok(()));
    assert_eq!(baseline.by_id_unchecked(0), &vec![9u8]);
}

#[test]
fn baseline_stops_at_a_name_that_is_no_number() {
    let mut baseline = InstanceBaseline::default();
    let items = vec![item("1", Some(&[5])), item("x1", Some(&[6])), item("0", Some(&[7]))];
    assert_eq!(baseline.update(&items, 2), Err(Error::ParseIntError));
    assert_eq!(baseline.by_id_unchecked(1), &vec![5u8]);
    let overflow = vec![item("2147483648", Some(&[1]))];
    assert_eq!(baseline.update(&overflow, 2), Err(Error::ParseIntError));
    let empty = vec![item("", Some(&[1]))];
    assert_eq!(baseline.update(&empty, 2), Err(Error::ParseIntError));
    let sign_only = vec![item("-", Some(&[1]))];
    assert_eq!(baseline.update(&sign_only, 2), Err(Error::ParseIntError));
}

#[test]
fn entity_classes_are_known_by_the_hash_of_their_name() {
    let names = vec!["CWorld".to_string(), "CDOTA_Unit_Hero_Axe".to_string(), "CDOTAPlayerController".to_string()];
    let classes = EntityClasses::parse(&names, 2);
    assert_eq!(classes.classes, 3);
    assert_eq!(classes.bits, 2);
    assert_eq!(*classes.by_id_unckecked(1), ClassInfo::new("CDOTA_Unit_Hero_Axe"));
    assert_eq!(
        classes.by_id_unckecked(2).network_name_hash,
        haste::haste_core::fxhash::hash_bytes(b"CDOTAPlayerController")
    );
}

#[test]
fn entity_updates_move_the_index_and_say_what_to_do() {
    let mut br = BitReader::new(vec![0x83, 0xC0, 0x40, 0x00]);
    let u = base::read_entity_update(&mut br, -1).unwrap();
    assert_eq!((u.index, u.update_flags, u.action), (3, base::FHDR_ENTERPVS, base::EntityAction::Create));
    assert_eq!(u.update_type, base::UpdateType::EnterPVS);
    let u = base::read_entity_update(&mut br, u.index).unwrap();
    assert_eq!((u.index, u.action), (4, base::EntityAction::Delete));
    let u = base::read_entity_update(&mut br, u.index).unwrap();
    assert_eq!((u.index, u.action), (5, base::EntityAction::Leave));
    let u = base::read_entity_update(&mut br, u.index).unwrap();
    assert_eq!((u.index, u.update_flags, u.action), (6, base::FHDR_ZERO, base::EntityAction::Update));
    assert_eq!(base::read_entity_update(&mut br, u.index), Err(base::Error::BitBuf(BitBufError::Overflow)));
}
