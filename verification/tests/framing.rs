use haste::haste_broadcast::broadcast::Broadcast;
use haste::haste_broadcast::broadcastfile::BroadcastFile;
use haste::haste_broadcast::demostream::{read_cmd_header as read_broadcast_header, ReadCmdHeaderError as BroadcastHeaderError};
use haste::haste_core::demofile::{
    read_cmd_header, read_demo_header, read_uvarint32, CmdHeader, EDemoCommands,
    ReadCmdHeaderError, ReadDemoHeaderError, ReadVarintError,
};
use haste::haste_core::demofile::DemoFile;
use haste::haste_core::protobuf::{read_tag, read_uvarint64, DecodeError, Tag, WireType};
use haste::haste_core::tvbroadcast::{decode_body, IoError, ReadCmdBodyError, SeekFrom, TvBroadcast};

fn demo_header_bytes() -> Vec<u8> {
    let mut v = b"PBDEMS2\0".to_vec();
    v.extend_from_slice(&1234i32.to_le_bytes());
    v.extend_from_slice(&(-5i32).to_le_bytes());
    v
}

#[test]
fn demo_header() {
    let h = read_demo_header(&demo_header_bytes()).unwrap();
    assert_eq!(&h.demofilestamp, b"PBDEMS2\0");
    assert_eq!(h.fileinfo_offset, 1234);
    assert_eq!(h.spawngroups_offset, -5);
    assert!(matches!(read_demo_header(&demo_header_bytes()[..12]), Err(ReadDemoHeaderError::IoError)));
    assert!(matches!(read_demo_header(b"PBDEM"), Err(ReadDemoHeaderError::IoError)));
    match read_demo_header(b"HL2DEMO\0\0\0\0\0\0\0\0\0") {
        Err(ReadDemoHeaderError::InvalidDemoFileStamp { got }) => assert_eq!(&got, b"HL2DEMO\0"),
        other => panic!("{:?}", other),
    }
}

#[test]
fn demo_varints() {
    assert_eq!(read_uvarint32(&[0xac, 0x02], 0), Ok((300, 2)));
    assert_eq!(read_uvarint32(&[0x80], 0), Err(ReadVarintError::IoError));
    assert_eq!(read_uvarint32(&[0xff, 0xff, 0xff, 0xff, 0x0f], 0), Ok((u32::MAX, 5)));
    assert_eq!(read_uvarint32(&[0xff, 0xff, 0xff, 0xff, 0xff, 0x01], 0), Err(ReadVarintError::MalformedVarint));
}

#[test]
fn demo_cmd_header() {
    // DEM_Packet (7) with the compression flag (64), tick 300, body size 5.
    let data = [7 | 64, 0xac, 0x02, 5, 0xaa];
    assert_eq!(
        read_cmd_header(&data),
        Ok(CmdHeader { cmd: EDemoCommands::DemPacket, body_compressed: true, tick: 300, body_size: 5, size: 4 })
    );
    // A tick of u32::MAX is -1.
    let data = [4, 0xff, 0xff, 0xff, 0xff, 0x0f, 0];
    let h = read_cmd_header(&data).unwrap();
    assert_eq!(h.cmd, EDemoCommands::DemSendTables);
    assert_eq!(h.tick, -1);
    assert_eq!(h.size, 7);
    assert_eq!(read_cmd_header(&[30, 0, 0]), Err(ReadCmdHeaderError::UnknownCmd { raw: 30, uncompressed: 30 }));
    assert_eq!(read_cmd_header(&[7, 1]), Err(ReadCmdHeaderError::ReadVarintError(ReadVarintError::IoError)));
}

fn hltv_header(cmd: u8, tick: u32, body: &[u8]) -> Vec<u8> {
    let mut v = vec![cmd];
    v.extend_from_slice(&tick.to_le_bytes());
    v.push(0);
    v.extend_from_slice(&(body.len() as u32).to_le_bytes());
    v.extend_from_slice(body);
    v
}

#[test]
fn tv_broadcast_commands() {
    let mut data = hltv_header(7, 10, &[1, 2, 3]);
    let compressed = snap::raw::Encoder::new().compress_vec(b"hello hello hello").unwrap();
    data.extend(hltv_header(8 | 64, 11, &compressed));
    let mut tv = TvBroadcast::from_reader(data);
    let h = tv.read_cmd_header().unwrap();
    assert_eq!(h, CmdHeader { cmd: EDemoCommands::DemPacket, body_compressed: false, tick: 10, body_size: 3, size: 10 });
    assert_eq!(tv.read_cmd_body(&h), Ok(vec![1, 2, 3]));
    let h = tv.read_cmd_header().unwrap();
    assert_eq!(h.cmd, EDemoCommands::DemSignonPacket);
    assert!(h.body_compressed);
    assert_eq!(tv.read_cmd_body(&h), Ok(b"hello hello hello".to_vec()));
    assert_eq!(tv.is_eof(), Ok(true));
    assert_eq!(tv.read_cmd_header(), Err(ReadCmdHeaderError::IoError));
}

#[test]
fn tv_broadcast_seeking() {
    let data = hltv_header(7, 10, &[1, 2, 3]);
    let len = data.len() as u64;
    let mut tv = TvBroadcast::from_reader(data);
    let h = tv.read_cmd_header().unwrap();
    assert_eq!(tv.stream_position(), Ok(10));
    assert_eq!(tv.unread_cmd_header(&h), Ok(()));
    assert_eq!(tv.stream_position(), Ok(0));
    let h = tv.read_cmd_header().unwrap();
    assert_eq!(tv.skip_cmd_body(&h), Ok(()));
    assert_eq!(tv.is_eof(), Ok(true));
    assert_eq!(tv.stream_len(), Ok(len));
    assert_eq!(tv.seek(SeekFrom::Current(-100)), Err(IoError::InvalidSeek));
    assert_eq!(tv.seek(SeekFrom::End(-3)), Ok(len - 3));
    assert_eq!(tv.seek(SeekFrom::Start(100)), Ok(100));
    let bad = CmdHeader { cmd: EDemoCommands::DemPacket, body_compressed: false, tick: 0, body_size: 4, size: 10 };
    assert_eq!(tv.read_cmd_body(&bad), Err(ReadCmdBodyError::IoError(IoError::UnexpectedEof)));
    assert_eq!(tv.stream_position(), Ok(len));
}

#[test]
fn tv_broadcast_bad_snappy() {
    let data = hltv_header(7 | 64, 1, &[0xff, 0xff]);
    let mut tv = TvBroadcast::from_reader(data);
    let h = tv.read_cmd_header().unwrap();
    assert_eq!(tv.read_cmd_body(&h), Err(ReadCmdBodyError::DecompressError));
}

#[test]
fn broadcast_headers() {
    let data = hltv_header(7, 3, &[9]);
    let h = read_broadcast_header(&data).unwrap();
    assert_eq!(h.tick, 3);
    assert!(!h.body_compressed);
    assert_eq!(read_broadcast_header(&[99]), Err(BroadcastHeaderError::UnknownCmd(99)));
    assert_eq!(read_broadcast_header(&[7, 0]), Err(BroadcastHeaderError::IoError));

    let mut b = Broadcast::start_reading(data.clone());
    let h = b.read_cmd_header().unwrap();
    assert_eq!(b.read_cmd(&h), Ok(vec![9]));
    assert!(b.is_at_eof());

    let mut f = BroadcastFile::start_reading(data);
    assert_eq!(f.start_position(), 0);
    let h = f.read_cmd_header().unwrap();
    assert_eq!(f.read_cmd(&h), Ok(vec![9]));
    assert_eq!(f.stream_position(), Ok(11));
    assert_eq!(f.seek(SeekFrom::Start(0)), Ok(0));
}

#[test]
fn protobuf_tags() {
    assert_eq!(read_uvarint64(&[0x96, 0x01], 0), Ok((150, 2)));
    assert_eq!(read_tag(&[0x1a, 0x03]), Ok((Tag { wire_type: WireType::LengthDelimited, field_number: 3 }, 1)));
    assert_eq!(read_tag(&[0x08]), Err(DecodeError::InvalidWireType(0)));
    assert_eq!(read_tag(&[0x80]), Err(DecodeError::InvalidVarint));
}

#[test]
fn demo_file_commands() {
    let mut data = demo_header_bytes();
    data.extend_from_slice(&[7, 10, 3, 1, 2, 3]);
    let compressed = snap::raw::Encoder::new().compress_vec(b"abcabcabcabc").unwrap();
    data.extend_from_slice(&[4 | 64, 11, compressed.len() as u8]);
    data.extend_from_slice(&compressed);
    let len = data.len() as u64;
    let mut f = DemoFile::start_reading(data).unwrap();
    assert_eq!(f.demo_header().fileinfo_offset, 1234);
    assert_eq!(f.stream_position(), Ok(16));
    let h = f.read_cmd_header().unwrap();
    assert_eq!(h, CmdHeader { cmd: EDemoCommands::DemPacket, body_compressed: false, tick: 10, body_size: 3, size: 3 });
    assert_eq!(f.unread_cmd_header(&h), Ok(()));
    let h = f.read_cmd_header().unwrap();
    assert_eq!(f.read_cmd(&h), Ok(vec![1, 2, 3]));
    let h = f.read_cmd_header().unwrap();
    assert_eq!(h.cmd, EDemoCommands::DemSendTables);
    assert!(h.body_compressed);
    assert_eq!(f.read_cmd(&h), Ok(b"abcabcabcabc".to_vec()));
    assert_eq!(f.is_at_eof(), Ok(true));
    assert_eq!(f.stream_len(), Ok(len));
    assert_eq!(f.read_cmd_header(), Err(ReadCmdHeaderError::ReadVarintError(ReadVarintError::IoError)));
    assert!(DemoFile::start_reading(b"PBDEMS2\0".to_vec()).is_err());
}

#[test]
fn snappy_bodies_decode_by_their_length_header() {
    assert_eq!(decode_body(vec![0x03, 0x08, b'a', b'b', b'c'], true), Ok(b"abc".to_vec()));
    assert_eq!(decode_body(vec![0x03, 0x08, b'a', b'b', b'c'], false), Ok(vec![0x03, 0x08, b'a', b'b', b'c']));
    assert_eq!(decode_body(vec![0xff, 0xff, 0xff, 0xff, 0x1f], true), Err(ReadCmdBodyError::DecompressError));
    assert_eq!(decode_body(vec![0x80, 0x80, 0x80, 0x80, 0x80, 0x01], true), Err(ReadCmdBodyError::DecompressError));
    assert_eq!(decode_body(vec![], true), Err(ReadCmdBodyError::DecompressError));
}
