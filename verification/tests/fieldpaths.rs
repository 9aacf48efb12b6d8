use haste::haste_base::fieldpath as base;
use haste::haste_common::bitbuf::BitReader as FailingReader;
use haste::haste_core::bitreader::BitReader;
use haste::haste_core::fieldpath as core_fp;
use haste::haste_dota2::fieldpath as dota2;

// Bits are read least significant first: "0" is PlusOne, "10" ends the list.

#[test]
fn base_read_two_paths() {
    let mut br = BitReader::new(vec![0b0100]);
    let mut fps = [base::FieldPath::default(); 4];
    assert_eq!(base::read_field_paths(&mut br, &mut fps), Ok(2));
    assert_eq!(fps[0].iter(), vec![0u8]);
    assert_eq!(fps[1].iter(), vec![1u8]);
    assert_eq!(fps[1].last(), 0);
}

#[test]
fn base_finish_at_once() {
    let mut br = BitReader::new(vec![0b01]);
    let mut fps = [base::FieldPath::default(); 2];
    assert_eq!(base::read_field_paths(&mut br, &mut fps), Ok(0));
}

#[test]
fn core_read_two_paths() {
    let hierarchy = core_fp::build_fieldop_hierarchy();
    let mut br = BitReader::new(vec![0b0100]);
    let mut fps = [core_fp::FieldPath::default(); 4];
    assert_eq!(core_fp::read_field_paths(&mut br, &mut fps, &hierarchy), 2);
    assert_eq!(fps[0].iter(), vec![0u8]);
    assert_eq!(fps[1].iter(), vec![1u8]);
    assert_eq!(fps[0].get(0), Some(0));
    assert_eq!(fps[0].get(7), None);
}

#[test]
fn dota2_read_two_paths() {
    let mut br = FailingReader::new(vec![0b0100]);
    let mut fps = [dota2::FieldPath::default(); 4];
    assert_eq!(dota2::read_field_paths(&mut br, &mut fps), Ok(2));
    assert_eq!(fps[0].data[0], 0);
    assert_eq!(fps[1].data[0], 1);
    assert_eq!(fps[1].position, 0);
    assert!(!fps[0].finished && !fps[1].finished);
}

#[test]
fn dota2_out_of_bits_is_an_error() {
    // Only PlusOne codes and then the end of the input: the reader fails.
    let mut br = FailingReader::new(vec![0]);
    let mut fps = [dota2::FieldPath::default(); 16];
    assert!(dota2::read_field_paths(&mut br, &mut fps).is_err());
}

