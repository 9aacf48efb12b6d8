//! Demo file framing: the file header, and the header of each command (a varint command id
//! with a compression flag, a varint tick and a varint body size).

use crate::haste_core::tvbroadcast::{
    body_decoded, copy_range, decode_body, seek_position, seek_spec, IoError, ReadCmdBodyError,
    SeekFrom,
};
use vstd::prelude::*;

verus! {

/// Size of the buffer that holds a command's body and, for a compressed body, its
/// decompressed form too.
pub const DEMO_RECORD_BUFFER_SIZE: usize = 2097152;

/// Size of the demo file stamp.
pub const DEMO_HEADER_ID_SIZE: usize = 8;

/// The demo file stamp, `PBDEMS2` and a zero byte.
pub open spec fn demo_header_id() -> Seq<u8> {
    seq![80u8, 66u8, 68u8, 69u8, 77u8, 83u8, 50u8, 0u8]
}

/// The header at the start of a demo file.
#[derive(Debug, Clone, Copy)]
pub struct DemoHeader {
    pub demofilestamp: [u8; 8],
    pub fileinfo_offset: i32,
    pub spawngroups_offset: i32,
}

/// Why a demo file header could not be read.
#[derive(Debug, Clone, Copy)]
pub enum ReadDemoHeaderError {
    /// The input ended before the header did.
    IoError,
    /// The file does not start with the demo file stamp.
    InvalidDemoFileStamp { got: [u8; 8] },
}

/// The little-endian `u32` at byte `i` of `d`.
pub open spec fn le_u32(d: Seq<u8>, i: int) -> u32 {
    (d[i] + d[i + 1] * 0x100 + d[i + 2] * 0x1_0000 + d[i + 3] * 0x100_0000) as u32
}

/// Reads the little-endian `u32` at byte `i`.
pub fn read_le_u32(d: &[u8], i: usize) -> (r: u32)
    requires
        i + 4 <= d@.len(),
    ensures
        r == le_u32(d@, i as int),
{
    d[i] as u32 + d[i + 1] as u32 * 0x100 + d[i + 2] as u32 * 0x1_0000 + d[i + 3] as u32
        * 0x100_0000
}

/// The first eight bytes, as an array.
fn stamp_of(d: &[u8]) -> (r: [u8; 8])
    requires
        d@.len() >= 8,
    ensures
        r@ == d@.subrange(0, 8),
{
    let r = [d[0], d[1], d[2], d[3], d[4], d[5], d[6], d[7]];
    assert(r@ =~= d@.subrange(0, 8));
    r
}

/// Reads the demo file header from the start of `data`: the stamp, then the file info offset
/// and the spawn groups offset, little-endian `i32`s.
pub fn read_demo_header(data: &[u8]) -> (r: Result<DemoHeader, ReadDemoHeaderError>)
    ensures
        data@.len() < 8 ==> r matches Err(ReadDemoHeaderError::IoError),
        data@.len() >= 8 && data@.subrange(0, 8) != demo_header_id() ==> (r matches Err(
            ReadDemoHeaderError::InvalidDemoFileStamp { got },
        ) && got@ == data@.subrange(0, 8)),
        data@.len() >= 8 && data@.subrange(0, 8) == demo_header_id() && data@.len() < 16
            ==> r matches Err(ReadDemoHeaderError::IoError),
        data@.len() >= 16 && data@.subrange(0, 8) == demo_header_id() ==> (r matches Ok(h)
            && h.demofilestamp@ == demo_header_id() && h.fileinfo_offset == le_u32(data@, 8) as i32
            && h.spawngroups_offset == le_u32(data@, 12) as i32),
{
    if data.len() < 8 {
        return Err(ReadDemoHeaderError::IoError);
    }
    let demofilestamp = stamp_of(data);
    let matches = demofilestamp[0] == 80 && demofilestamp[1] == 66 && demofilestamp[2] == 68
        && demofilestamp[3] == 69 && demofilestamp[4] == 77 && demofilestamp[5] == 83
        && demofilestamp[6] == 50 && demofilestamp[7] == 0;
    proof {
        if matches {
            assert(demofilestamp@ =~= demo_header_id());
        } else {
            assert(demofilestamp@ != demo_header_id()) by {
                if demofilestamp@ == demo_header_id() {
                    assert(demofilestamp@[0] == 80 && demofilestamp@[7] == 0);
                }
            }
        }
    }
    if !matches {
        return Err(ReadDemoHeaderError::InvalidDemoFileStamp { got: demofilestamp });
    }
    if data.len() < 12 {
        return Err(ReadDemoHeaderError::IoError);
    }
    let fileinfo_offset = read_le_u32(data, 8) as i32;
    if data.len() < 16 {
        return Err(ReadDemoHeaderError::IoError);
    }
    let spawngroups_offset = read_le_u32(data, 12) as i32;
    Ok(DemoHeader { demofilestamp, fileinfo_offset, spawngroups_offset })
}

/// The commands of a demo file.
#[derive(Debug, Clone, Copy, PartialEq, Eq, Structural)]
pub enum EDemoCommands {
    DemError,
    DemStop,
    DemFileHeader,
    DemFileInfo,
    DemSyncTick,
    DemSendTables,
    DemClassInfo,
    DemStringTables,
    DemPacket,
    DemSignonPacket,
    DemConsoleCmd,
    DemCustomData,
    DemCustomDataCallbacks,
    DemUserCmd,
    DemFullPacket,
    DemSaveGame,
    DemSpawnGroups,
    DemAnimationData,
    DemAnimationHeader,
    DemRecovery,
    DemMax,
    DemIsCompressed,
}

/// The number of a command.
pub open spec fn cmd_number(c: EDemoCommands) -> int {
    match c {
        EDemoCommands::DemError => -1,
        EDemoCommands::DemStop => 0,
        EDemoCommands::DemFileHeader => 1,
        EDemoCommands::DemFileInfo => 2,
        EDemoCommands::DemSyncTick => 3,
        EDemoCommands::DemSendTables => 4,
        EDemoCommands::DemClassInfo => 5,
        EDemoCommands::DemStringTables => 6,
        EDemoCommands::DemPacket => 7,
        EDemoCommands::DemSignonPacket => 8,
        EDemoCommands::DemConsoleCmd => 9,
        EDemoCommands::DemCustomData => 10,
        EDemoCommands::DemCustomDataCallbacks => 11,
        EDemoCommands::DemUserCmd => 12,
        EDemoCommands::DemFullPacket => 13,
        EDemoCommands::DemSaveGame => 14,
        EDemoCommands::DemSpawnGroups => 15,
        EDemoCommands::DemAnimationData => 16,
        EDemoCommands::DemAnimationHeader => 17,
        EDemoCommands::DemRecovery => 18,
        EDemoCommands::DemMax => 19,
        EDemoCommands::DemIsCompressed => 64,
    }
}

/// The commands of demo.proto's `EDemoCommands` from `DEM_Stop` to `DEM_Max`, in the order
/// the protocol lists them.
pub open spec fn listed_commands() -> Seq<EDemoCommands> {
    seq![
        EDemoCommands::DemStop,
        EDemoCommands::DemFileHeader,
        EDemoCommands::DemFileInfo,
        EDemoCommands::DemSyncTick,
        EDemoCommands::DemSendTables,
        EDemoCommands::DemClassInfo,
        EDemoCommands::DemStringTables,
        EDemoCommands::DemPacket,
        EDemoCommands::DemSignonPacket,
        EDemoCommands::DemConsoleCmd,
        EDemoCommands::DemCustomData,
        EDemoCommands::DemCustomDataCallbacks,
        EDemoCommands::DemUserCmd,
        EDemoCommands::DemFullPacket,
        EDemoCommands::DemSaveGame,
        EDemoCommands::DemSpawnGroups,
        EDemoCommands::DemAnimationData,
        EDemoCommands::DemAnimationHeader,
        EDemoCommands::DemRecovery,
        EDemoCommands::DemMax,
    ]
}

/// A command's number is its place in demo.proto's list: `DEM_Stop` to `DEM_Max` count up from
/// 0 in the listed order (so `DEM_UserCmd` is 12 and `DEM_FullPacket` 13), `DEM_Error` is -1
/// and the compression flag `DEM_IsCompressed` is 64. No two commands share a number, and
/// [`EDemoCommands::try_from_i32`] finds the command of each number.
pub proof fn lemma_cmd_numbers_follow_the_protocol()
    ensures
        forall|i: int| 0 <= i < 20 ==> cmd_number(#[trigger] listed_commands()[i]) == i,
        cmd_number(EDemoCommands::DemError) == -1,
        cmd_number(EDemoCommands::DemIsCompressed) == 64,
        forall|a: EDemoCommands, b: EDemoCommands|
            #[trigger] cmd_number(a) == #[trigger] cmd_number(b) ==> a == b,
{
    let c = listed_commands();
    assert forall|i: int| 0 <= i < 20 implies cmd_number(#[trigger] listed_commands()[i]) == i by {
        assert(cmd_number(c[0]) == 0);
        assert(cmd_number(c[1]) == 1);
        assert(cmd_number(c[2]) == 2);
        assert(cmd_number(c[3]) == 3);
        assert(cmd_number(c[4]) == 4);
        assert(cmd_number(c[5]) == 5);
        assert(cmd_number(c[6]) == 6);
        assert(cmd_number(c[7]) == 7);
        assert(cmd_number(c[8]) == 8);
        assert(cmd_number(c[9]) == 9);
        assert(cmd_number(c[10]) == 10);
        assert(cmd_number(c[11]) == 11);
        assert(cmd_number(c[12]) == 12);
        assert(cmd_number(c[13]) == 13);
        assert(cmd_number(c[14]) == 14);
        assert(cmd_number(c[15]) == 15);
        assert(cmd_number(c[16]) == 16);
        assert(cmd_number(c[17]) == 17);
        assert(cmd_number(c[18]) == 18);
        assert(cmd_number(c[19]) == 19);
    }
}

/// Numbers that name a command.
pub open spec fn is_cmd_number(v: int) -> bool {
    -1 <= v <= 19 || v == 64
}

impl EDemoCommands {
    /// The command numbered `v`, if any.
    pub fn try_from_i32(v: i32) -> (r: Option<EDemoCommands>)
        ensures
            r matches Some(c) ==> cmd_number(c) == v,
            r is None <==> !is_cmd_number(v as int),
    {
        match v {
            -1 => Some(EDemoCommands::DemError),
            0 => Some(EDemoCommands::DemStop),
            1 => Some(EDemoCommands::DemFileHeader),
            2 => Some(EDemoCommands::DemFileInfo),
            3 => Some(EDemoCommands::DemSyncTick),
            4 => Some(EDemoCommands::DemSendTables),
            5 => Some(EDemoCommands::DemClassInfo),
            6 => Some(EDemoCommands::DemStringTables),
            7 => Some(EDemoCommands::DemPacket),
            8 => Some(EDemoCommands::DemSignonPacket),
            9 => Some(EDemoCommands::DemConsoleCmd),
            10 => Some(EDemoCommands::DemCustomData),
            11 => Some(EDemoCommands::DemCustomDataCallbacks),
            12 => Some(EDemoCommands::DemUserCmd),
            13 => Some(EDemoCommands::DemFullPacket),
            14 => Some(EDemoCommands::DemSaveGame),
            15 => Some(EDemoCommands::DemSpawnGroups),
            16 => Some(EDemoCommands::DemAnimationData),
            17 => Some(EDemoCommands::DemAnimationHeader),
            18 => Some(EDemoCommands::DemRecovery),
            19 => Some(EDemoCommands::DemMax),
            64 => Some(EDemoCommands::DemIsCompressed),
            _ => None,
        }
    }
}

/// The flag that marks a compressed command body.
pub const DEM_IS_COMPRESSED: u32 = 64;

/// The header of a command.
#[derive(Debug, Clone, Copy, PartialEq, Eq, Structural)]
pub struct CmdHeader {
    pub cmd: EDemoCommands,
    pub body_compressed: bool,
    pub tick: i32,
    pub body_size: u32,
    /// How many bytes the header takes.
    pub size: u8,
}

/// Why a varint could not be read.
#[derive(Debug, Clone, Copy, PartialEq, Eq, Structural)]
pub enum ReadVarintError {
    /// The input ended inside the varint.
    IoError,
    /// A fifth byte still has its continuation bit set.
    MalformedVarint,
}

/// Why a command header could not be read.
#[derive(Debug, Clone, Copy, PartialEq, Eq, Structural)]
pub enum ReadCmdHeaderError {
    /// The input ended inside the header.
    IoError,
    ReadVarintError(ReadVarintError),
    /// The command number names no command.
    UnknownCmd { raw: u32, uncompressed: u32 },
}

/// The value of the first `k` bytes of a varint at `p`: each byte's low seven bits, shifted
/// by seven bits more than the byte before.
pub open spec fn varint_acc(d: Seq<u8>, p: int, k: nat) -> u32
    decreases k,
{
    if k == 0 {
        0
    } else {
        varint_acc(d, p, (k - 1) as nat) | (((d[p + k - 1] & 0x7f) as u32) << (7 * (k - 1)) as u32)
    }
}

/// The length of the varint at `p` from its `k`-th byte on: the first byte without the
/// continuation bit ends it; the input ending first, or a fifth byte with the bit, is an
/// error.
pub open spec fn varint_len(d: Seq<u8>, p: int, k: nat) -> Result<nat, ReadVarintError>
    decreases 5 - k,
{
    if k >= 5 {
        Err(ReadVarintError::MalformedVarint)
    } else if p + k >= d.len() {
        Err(ReadVarintError::IoError)
    } else if d[p + k] < 0x80 {
        Ok(k + 1)
    } else {
        varint_len(d, p, k + 1)
    }
}

/// The varint at byte `p` of `d`: its value and length.
pub open spec fn varint_at(d: Seq<u8>, p: int) -> Result<(u32, nat), ReadVarintError> {
    match varint_len(d, p, 0) {
        Ok(n) => Ok((varint_acc(d, p, n), n)),
        Err(e) => Err(e),
    }
}

/// Reads the unsigned 32 bit varint at byte `p`: see [`varint_at`].
pub fn read_uvarint32(d: &[u8], p: usize) -> (r: Result<(u32, usize), ReadVarintError>)
    requires
        p <= d@.len(),
    ensures
        match varint_at(d@, p as int) {
            Ok((v, n)) => r == Ok::<(u32, usize), ReadVarintError>((v, n as usize)),
            Err(e) => r == Err::<(u32, usize), ReadVarintError>(e),
        },
{
    let mut result: u32 = 0;
    let mut k: usize = 0;
    while k < 5
        invariant
            k <= 5,
            p <= d@.len(),
            result == varint_acc(d@, p as int, k as nat),
            varint_len(d@, p as int, 0) == varint_len(d@, p as int, k as nat),
        decreases 5 - k,
    {
        if k >= d.len() - p {
            return Err(ReadVarintError::IoError);
        }
        let byte = d[p + k];
        let shift: u32 = (7 * k) as u32;
        result = result | (((byte & 0x7f) as u32) << shift);
        k = k + 1;
        if byte < 0x80 {
            return Ok((result, k));
        }
    }
    Err(ReadVarintError::MalformedVarint)
}

/// A varint ends within its five bytes, inside the input.
proof fn lemma_varint_len(d: Seq<u8>, p: int, k: nat)
    requires
        0 <= p,
        k <= 5,
        p + k <= d.len(),
    ensures
        varint_len(d, p, k) matches Ok(n) ==> k < n <= 5 && p + n <= d.len(),
        varint_len(d, p, k) == Err::<nat, ReadVarintError>(ReadVarintError::MalformedVarint) ==> p
            + 5 <= d.len(),
    decreases 5 - k,
{
    if k < 5 && p + k < d.len() && d[p + k] >= 0x80 {
        lemma_varint_len(d, p, k + 1);
    }
}

/// The command, compression flag and error of a raw command number: the flag bit is taken
/// off where it is set, and the rest must name a command.
pub open spec fn cmd_of_raw(raw: u32) -> (Result<EDemoCommands, ReadCmdHeaderError>, bool) {
    let compressed = raw & DEM_IS_COMPRESSED == DEM_IS_COMPRESSED;
    let cmd = if compressed {
        raw & !DEM_IS_COMPRESSED
    } else {
        raw
    };
    if is_cmd_number((cmd as i32) as int) {
        (Ok(choose|c: EDemoCommands| cmd_number(c) == (cmd as i32) as int), compressed)
    } else {
        (Err(ReadCmdHeaderError::UnknownCmd { raw, uncompressed: cmd }), compressed)
    }
}

/// Splits a raw command number: see [`cmd_of_raw`].
pub fn decode_cmd(raw: u32) -> (r: (Result<EDemoCommands, ReadCmdHeaderError>, bool))
    ensures
        r.1 == cmd_of_raw(raw).1,
        r.0 matches Ok(c) ==> cmd_of_raw(raw).0 is Ok && cmd_number(c) == (cmd_of_raw_number(raw) as i32) as int,
        r.0 is Err ==> r.0 == cmd_of_raw(raw).0,
        r.0 is Ok <==> cmd_of_raw(raw).0 is Ok,
{
    let body_compressed = raw & DEM_IS_COMPRESSED == DEM_IS_COMPRESSED;
    let cmd = if body_compressed {
        raw & !DEM_IS_COMPRESSED
    } else {
        raw
    };
    match EDemoCommands::try_from_i32(cmd as i32) {
        Some(c) => (Ok(c), body_compressed),
        None => (Err(ReadCmdHeaderError::UnknownCmd { raw, uncompressed: cmd }), body_compressed),
    }
}

/// The command number of a raw command number, without the compression flag.
pub open spec fn cmd_of_raw_number(raw: u32) -> u32 {
    if raw & DEM_IS_COMPRESSED == DEM_IS_COMPRESSED {
        raw & !DEM_IS_COMPRESSED
    } else {
        raw
    }
}

/// Where reading a varint that starts at `p` stops: after it, after its fifth byte when it is
/// malformed, or at the end of the input when it runs out.
pub open spec fn varint_end(d: Seq<u8>, p: int) -> int {
    match varint_len(d, p, 0) {
        Ok(n) => p + n,
        Err(ReadVarintError::MalformedVarint) => p + 5,
        Err(ReadVarintError::IoError) => d.len() as int,
    }
}

/// `r` is what reading the command header at byte `p` of `d` gives: three varints, the raw
/// command number (see [`cmd_of_raw`]), the tick (as `i32`: `u32::MAX` is -1) and the body
/// size.
pub open spec fn cmd_header_result_is(r: Result<CmdHeader, ReadCmdHeaderError>, d: Seq<u8>, p: int) -> bool {
    match varint_at(d, p) {
        Err(e) => r == Err::<CmdHeader, ReadCmdHeaderError>(ReadCmdHeaderError::ReadVarintError(e)),
        Ok((raw, n1)) => match cmd_of_raw(raw).0 {
            Err(e) => r == Err::<CmdHeader, ReadCmdHeaderError>(e),
            Ok(_) => match varint_at(d, p + n1) {
                Err(e) => r == Err::<CmdHeader, ReadCmdHeaderError>(
                    ReadCmdHeaderError::ReadVarintError(e),
                ),
                Ok((tick, n2)) => match varint_at(d, p + n1 + n2) {
                    Err(e) => r == Err::<CmdHeader, ReadCmdHeaderError>(
                        ReadCmdHeaderError::ReadVarintError(e),
                    ),
                    Ok((body_size, n3)) => r matches Ok(h) && cmd_number(h.cmd) == (
                    cmd_of_raw_number(raw) as i32) as int && h.body_compressed == cmd_of_raw(
                        raw,
                    ).1 && h.tick == tick as i32 && h.body_size == body_size && h.size == n1 + n2
                        + n3,
                },
            },
        },
    }
}

/// Where reading the command header at byte `p` stops: after the varint that ends it or
/// fails (an unknown command stops after the command number).
pub open spec fn cmd_header_end(d: Seq<u8>, p: int) -> int {
    match varint_at(d, p) {
        Err(_) => varint_end(d, p),
        Ok((raw, n1)) => if cmd_of_raw(raw).0 is Err {
            p + n1
        } else {
            match varint_at(d, p + n1) {
                Err(_) => varint_end(d, p + n1),
                Ok((_, n2)) => varint_end(d, p + n1 + n2),
            }
        },
    }
}

/// Reads the header of the demo file command at byte `p`: see [`cmd_header_result_is`]; also
/// gives where reading stops (see [`cmd_header_end`]).
pub fn read_cmd_header_at(data: &[u8], p: usize) -> (r: (Result<CmdHeader, ReadCmdHeaderError>, usize))
    requires
        p <= data@.len(),
    ensures
        cmd_header_result_is(r.0, data@, p as int),
        r.1 == cmd_header_end(data@, p as int),
{
    proof {
        lemma_varint_len(data@, p as int, 0);
    }
    let len = data.len();
    let (cmd_raw, cmd_n) = match read_uvarint32(data, p) {
        Ok(x) => x,
        Err(e) => {
            let end = match e {
                ReadVarintError::MalformedVarint => p + 5,
                ReadVarintError::IoError => len,
            };
            return (Err(ReadCmdHeaderError::ReadVarintError(e)), end);
        },
    };
    let (cmd, body_compressed) = decode_cmd(cmd_raw);
    let cmd = match cmd {
        Ok(c) => c,
        Err(e) => return (Err(e), p + cmd_n),
    };
    let p2 = p + cmd_n;
    proof {
        lemma_varint_len(data@, p2 as int, 0);
    }
    let (tick, tick_n) = match read_uvarint32(data, p2) {
        Ok(x) => x,
        Err(e) => {
            let end = match e {
                ReadVarintError::MalformedVarint => p2 + 5,
                ReadVarintError::IoError => len,
            };
            return (Err(ReadCmdHeaderError::ReadVarintError(e)), end);
        },
    };
    let p3 = p2 + tick_n;
    proof {
        lemma_varint_len(data@, p3 as int, 0);
    }
    let (body_size, body_size_n) = match read_uvarint32(data, p3) {
        Ok(x) => x,
        Err(e) => {
            let end = match e {
                ReadVarintError::MalformedVarint => p3 + 5,
                ReadVarintError::IoError => len,
            };
            return (Err(ReadCmdHeaderError::ReadVarintError(e)), end);
        },
    };
    (
        Ok(
            CmdHeader {
                cmd,
                body_compressed,
                tick: #[verifier::truncate] (tick as i32),
                body_size,
                size: (cmd_n + tick_n + body_size_n) as u8,
            },
        ),
        p3 + body_size_n,
    )
}

/// Reads the header of the demo file command at the start of `data`: see
/// [`cmd_header_result_is`].
pub fn read_cmd_header(data: &[u8]) -> (r: Result<CmdHeader, ReadCmdHeaderError>)
    ensures
        cmd_header_result_is(r, data@, 0),
{
    read_cmd_header_at(data, 0).0
}

/// A demo file held in memory, read through a cursor.
pub struct DemoFile {
    data: Vec<u8>,
    pos: u64,
    demo_header: DemoHeader,
}

impl DemoFile {
    /// The file's bytes.
    pub closed spec fn data(&self) -> Seq<u8> {
        self.data@
    }

    /// The cursor's position (it may lie past the end).
    pub closed spec fn pos(&self) -> int {
        self.pos as int
    }

    /// The cursor's position is a `u64`: never negative.
    pub proof fn lemma_pos_in_range(&self)
        ensures
            0 <= self.pos() <= u64::MAX,
    {
    }

    /// The header read at the start.
    pub closed spec fn header(&self) -> DemoHeader {
        self.demo_header
    }

    /// The bytes from the cursor on.
    pub open spec fn rest(&self) -> Seq<u8> {
        if self.pos() <= self.data().len() {
            self.data().subrange(self.pos(), self.data().len() as int)
        } else {
            Seq::empty()
        }
    }

    /// Reads the demo header at the start of `data` (see [`read_demo_header`]) and leaves the
    /// cursor after it.
    pub fn start_reading(data: Vec<u8>) -> (r: Result<DemoFile, ReadDemoHeaderError>)
        ensures
            data@.len() >= 16 && data@.subrange(0, 8) == demo_header_id() ==> (r matches Ok(f)
                && f.data() == data@ && f.pos() == 16 && f.header().demofilestamp@ == demo_header_id()
                && f.header().fileinfo_offset == le_u32(data@, 8) as i32
                && f.header().spawngroups_offset == le_u32(data@, 12) as i32),
            data@.len() < 16 || data@.subrange(0, 8) != demo_header_id() ==> r is Err,
            data@.len() >= 8 && data@.subrange(0, 8) != demo_header_id() ==> (r matches Err(
                ReadDemoHeaderError::InvalidDemoFileStamp { got },
            ) && got@ == data@.subrange(0, 8)),
    {
        match read_demo_header(data.as_slice()) {
            Ok(demo_header) => Ok(DemoFile { data, pos: 16, demo_header }),
            Err(e) => Err(e),
        }
    }

    /// The header read at the start.
    pub fn demo_header(&self) -> (r: &DemoHeader)
        ensures
            *r == self.header(),
    {
        &self.demo_header
    }

    /// Moves the cursor: see [`seek_spec`].
    pub fn seek(&mut self, from: SeekFrom) -> (r: Result<u64, IoError>)
        ensures
            final(self).data() == old(self).data(),
            final(self).header() == old(self).header(),
            match seek_spec(from, old(self).pos(), old(self).data().len() as int) {
                Some(n) => r == Ok::<u64, IoError>(n) && final(self).pos() == n,
                None => r == Err::<u64, IoError>(IoError::InvalidSeek) && final(self).pos()
                    == old(self).pos(),
            },
    {
        match seek_position(self.pos, self.data.len(), from) {
            Ok(n) => {
                self.pos = n;
                Ok(n)
            },
            Err(e) => Err(e),
        }
    }

    /// The cursor's position.
    pub fn stream_position(&self) -> (r: Result<u64, IoError>)
        ensures
            r == Ok::<u64, IoError>(self.pos() as u64),
    {
        Ok(self.pos)
    }

    /// The length of the file.
    pub fn stream_len(&self) -> (r: Result<u64, IoError>)
        ensures
            r == Ok::<u64, IoError>(self.data().len() as u64),
    {
        proof {
            assert(self.data@.len() == self.data.len());
        }
        Ok(self.data.len() as u64)
    }

    /// Whether the cursor stands at the end.
    pub fn is_at_eof(&self) -> (r: Result<bool, IoError>)
        ensures
            r == Ok::<bool, IoError>(self.pos() == self.data().len()),
    {
        proof {
            assert(self.data@.len() == self.data.len());
        }
        Ok(self.pos == self.data.len() as u64)
    }

    /// Reads the header of the command at the cursor: see [`cmd_header_result_is`]. The cursor
    /// goes where reading stops (see [`cmd_header_end`]); past the end, nothing is read.
    pub fn read_cmd_header(&mut self) -> (r: Result<CmdHeader, ReadCmdHeaderError>)
        ensures
            final(self).data() == old(self).data(),
            final(self).header() == old(self).header(),
            old(self).pos() <= old(self).data().len() ==> cmd_header_result_is(
                r,
                old(self).data(),
                old(self).pos(),
            ) && final(self).pos() == cmd_header_end(old(self).data(), old(self).pos()),
            old(self).pos() > old(self).data().len() ==> r == Err::<CmdHeader, ReadCmdHeaderError>(
                ReadCmdHeaderError::ReadVarintError(ReadVarintError::IoError),
            ) && final(self).pos() == old(self).data().len(),
    {
        let len = self.data.len();
        if self.pos > len as u64 {
            self.pos = len as u64;
            return Err(ReadCmdHeaderError::ReadVarintError(ReadVarintError::IoError));
        }
        let (r, end) = read_cmd_header_at(self.data.as_slice(), self.pos as usize);
        self.pos = end as u64;
        r
    }

    /// Moves the cursor back over a header just read.
    pub fn unread_cmd_header(&mut self, cmd_header: &CmdHeader) -> (r: Result<(), IoError>)
        ensures
            final(self).data() == old(self).data(),
            final(self).header() == old(self).header(),
            old(self).pos() >= cmd_header.size ==> r == Ok::<(), IoError>(()) && final(self).pos()
                == old(self).pos() - cmd_header.size,
            old(self).pos() < cmd_header.size ==> r == Err::<(), IoError>(IoError::InvalidSeek)
                && final(self).pos() == old(self).pos(),
    {
        match self.seek(SeekFrom::Current(-(cmd_header.size as i64))) {
            Ok(_) => Ok(()),
            Err(e) => Err(e),
        }
    }

    /// Reads the body of a command whose header was just read: see [`body_decoded`]. Where the
    /// bytes run out the cursor goes to the end.
    pub fn read_cmd(&mut self, cmd_header: &CmdHeader) -> (r: Result<Vec<u8>, ReadCmdBodyError>)
        requires
            cmd_header.body_size <= DEMO_RECORD_BUFFER_SIZE,
        ensures
            final(self).data() == old(self).data(),
            final(self).header() == old(self).header(),
            ({
                let bs = cmd_header.body_size as int;
                let rest = old(self).rest();
                if rest.len() < bs {
                    r == Err::<Vec<u8>, ReadCmdBodyError>(
                        ReadCmdBodyError::IoError(IoError::UnexpectedEof),
                    ) && final(self).pos() == old(self).data().len()
                } else {
                    &&& final(self).pos() == old(self).pos() + bs
                    &&& body_decoded(rest.subrange(0, bs), cmd_header.body_compressed, r)
                }
            }),
    {
        let len = self.data.len();
        let bs = cmd_header.body_size as usize;
        let remaining: usize = if self.pos > len as u64 {
            0
        } else {
            len - self.pos as usize
        };
        if remaining < bs {
            self.pos = len as u64;
            return Err(ReadCmdBodyError::IoError(IoError::UnexpectedEof));
        }
        if bs == 0 {
            proof {
                assert(self.rest().subrange(0, 0) =~= Seq::<u8>::empty());
            }
            return decode_body(Vec::new(), cmd_header.body_compressed);
        }
        let p = self.pos as usize;
        let body = copy_range(self.data.as_slice(), p, bs);
        proof {
            assert(body@ =~= self.rest().subrange(0, bs as int));
        }
        self.pos = (p + bs) as u64;
        decode_body(body, cmd_header.body_compressed)
    }

    /// Moves the cursor over a command body.
    pub fn skip_cmd(&mut self, cmd_header: &CmdHeader) -> (r: Result<(), IoError>)
        ensures
            final(self).data() == old(self).data(),
            final(self).header() == old(self).header(),
            old(self).pos() + cmd_header.body_size <= u64::MAX ==> r == Ok::<(), IoError>(())
                && final(self).pos() == old(self).pos() + cmd_header.body_size,
            old(self).pos() + cmd_header.body_size > u64::MAX ==> r == Err::<(), IoError>(
                IoError::InvalidSeek,
            ) && final(self).pos() == old(self).pos(),
    {
        match self.seek(SeekFrom::Current(cmd_header.body_size as i64)) {
            Ok(_) => Ok(()),
            Err(e) => Err(e),
        }
    }
}

} // verus!
