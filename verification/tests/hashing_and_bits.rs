use haste::haste_base::fxhash::{hash_u8 as fx_hash_u8, Hasher};
use haste::haste_common::bitbuf::{BitBufError, BitReader as FailingReader};
use haste::haste_common::fnv1ahash;
use haste::haste_common::varint::{read_uvarint32 as read_common_uvarint32, zigzag_decode32, zigzag_decode64, Error as VarintError};
use haste::haste_core::bitreader::BitReader;
use haste::haste_core::fxhash::{add_u64_to_hash, hash_bytes};

#[test]
fn fxhash_of_bytes() {
    assert_eq!(hash_bytes(b""), 0);
    assert_eq!(hash_bytes(b"abc"), 7132985165002709727);
    assert_eq!(fx_hash_u8(b"abc"), 7132985165002709727);
    assert_eq!(hash_bytes(b"int32"), 3497329880780984846);
}

#[test]
fn fxhash_concatenation_is_hashing_on() {
    // Hashing "ab" then "c" word by word is hashing "abc".
    let ab = hash_bytes(b"ab");
    assert_eq!(add_u64_to_hash(ab, b'c' as u64), hash_bytes(b"abc"));
    let mut h = Hasher::with_seed(hash_bytes(b"a"));
    h.write_u64(b'b' as u64);
    h.write_u64(b'c' as u64);
    assert_eq!(h.finish(), 7132985165002709727);
    assert_eq!(Hasher::default().finish(), 0);
}

#[test]
fn fnv1a_of_bytes_and_words() {
    assert_eq!(fnv1ahash::hash_u8(b"abc"), 16654208175385433931);
    assert_eq!(fnv1ahash::hash_u8(b""), 14695981039346656037);
    assert_eq!(fnv1ahash::hash_u32(&[1, 2]), 589729691727335466);
}

#[test]
fn zigzag_decoding() {
    assert_eq!(zigzag_decode32(0), 0);
    assert_eq!(zigzag_decode32(1), -1);
    assert_eq!(zigzag_decode32(2), 1);
    assert_eq!(zigzag_decode32(3), -2);
    assert_eq!(zigzag_decode32(4294967294), 2147483647);
    assert_eq!(zigzag_decode32(4294967295), -2147483648);
    assert_eq!(zigzag_decode64(5), -3);
    assert_eq!(zigzag_decode64(u64::MAX), i64::MIN);
}

#[test]
fn failing_reader_reads_bits_lsb_first() {
    let mut br = FailingReader::new(vec![0b1010_1101, 0xff]);
    assert_eq!(br.num_bits_left(), 16);
    assert_eq!(br.read_bool(), Ok(true));
    assert_eq!(br.read_ubitlong(3), Ok(0b110));
    assert_eq!(br.read_ubitlong(8), Ok(0b1111_1010));
    assert_eq!(br.num_bits_left(), 4);
    assert_eq!(br.read_ubitlong(5), Err(BitBufError::Overflow));
}

#[test]
fn failing_reader_varints() {
    let mut br = FailingReader::new(vec![0xac, 0x02, 0x03]);
    assert_eq!(br.read_uvarint32(), Ok(300));
    assert_eq!(br.read_varint32(), Ok(-2));
    assert_eq!(br.read_bool(), Err(BitBufError::Overflow));
}

#[test]
fn core_reader_reads_zero_past_the_end() {
    let mut br = BitReader::new(vec![0xac, 0x02]);
    assert_eq!(br.read_uvarint32(), 300);
    assert!(br.is_exhausted());
    assert_eq!(br.read_ubit64(8), 0);
    assert_eq!(br.read_bool(), false);
}

#[test]
fn core_reader_ubitvar() {
    // Low 6 bits 0b000101 (5), selector bits 0b00: a 6 bit value.
    let mut br = BitReader::new(vec![0b0000_0101]);
    assert_eq!(br.read_ubitvar(), 5);
}

#[test]
fn common_varint_gives_the_index_of_its_last_byte() {
    assert_eq!(read_common_uvarint32(&[0x05], 0), Ok((5, 0)));
    assert_eq!(read_common_uvarint32(&[0xac, 0x02], 0), Ok((300, 1)));
    assert_eq!(read_common_uvarint32(&[9, 0xac, 0x02, 7], 1), Ok((300, 1)));
    assert_eq!(read_common_uvarint32(&[0xff, 0xff, 0xff, 0xff, 0x0f], 0), Ok((u32::MAX, 4)));
    assert_eq!(read_common_uvarint32(&[0x80], 0), Err(VarintError::Io));
    assert_eq!(read_common_uvarint32(&[], 0), Err(VarintError::Io));
    assert_eq!(read_common_uvarint32(&[0xff, 0xff, 0xff, 0xff, 0xff], 0), Err(VarintError::Io));
}
