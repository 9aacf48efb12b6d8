//! TV broadcast fragments held in memory: commands with a fixed size header (a command byte,
//! a little-endian tick, a byte of unknown use and a little-endian body size), bodies that may
//! be Snappy compressed, and the seeking of a cursor.

use crate::haste_core::demofile::{
    cmd_number, cmd_of_raw, cmd_of_raw_number, decode_cmd, le_u32, read_le_u32, CmdHeader,
    ReadCmdHeaderError, DEMO_RECORD_BUFFER_SIZE,
};
use vstd::prelude::*;

verus! {

/// `128` to the power `k`: the weight of the `k`-th byte of a varint.
pub open spec fn pow128(k: nat) -> int
    decreases k,
{
    if k == 0 {
        1
    } else {
        128 * pow128((k - 1) as nat)
    }
}

/// The length of the Snappy header varint, from its `k`-th byte on: the first byte without the
/// continuation bit ends it, and it must end within five bytes and within the input.
pub open spec fn snappy_header_len(input: Seq<u8>, k: nat) -> Option<nat>
    decreases 5 - k,
{
    if k >= 5 || k >= input.len() {
        None
    } else if input[k as int] < 0x80 {
        Some(k + 1)
    } else {
        snappy_header_len(input, k + 1)
    }
}

/// The value of the first `n` bytes of a varint: each byte's low seven bits, weighted by
/// [`pow128`] of its place.
pub open spec fn varint_value(input: Seq<u8>, n: nat) -> int
    decreases n,
{
    if n == 0 {
        0
    } else {
        varint_value(input, (n - 1) as nat) + (input[n - 1] % 128) * pow128((n - 1) as nat)
    }
}

/// What `snap::raw::decompress_len` finds for `input`: empty input announces length 0;
/// otherwise the header varint of at most five bytes gives the length, which must fit `u32`.
pub open spec fn snappy_decompress_len(input: Seq<u8>) -> Option<usize> {
    if input.len() == 0 {
        Some(0)
    } else {
        match snappy_header_len(input, 0) {
            Some(n) => if varint_value(input, n) <= u32::MAX {
                Some(varint_value(input, n) as usize)
            } else {
                None
            },
            None => None,
        }
    }
}

/// What `snap::raw::Decoder::decompress` makes of `input` given room enough: the decompressed
/// bytes, where `input` is valid Snappy data.
pub uninterp spec fn snappy_decompress(input: Seq<u8>) -> Option<Seq<u8>>;

/// Calls `snap::raw::decompress_len`, which reads the length varint at the head of raw Snappy
/// data: see [`snappy_decompress_len`]. Which error the crate reports is dropped.
#[verifier::external_body]
fn decompress_len(input: &[u8]) -> (r: Result<usize, ()>)
    ensures
        r is Ok <==> snappy_decompress_len(input@) is Some,
        r matches Ok(n) ==> snappy_decompress_len(input@) == Some(n) && n <= u32::MAX,
{
    snap::raw::decompress_len(input).map_err(|_| ())
}

/// Calls `snap::raw::Decoder::decompress`, which decompresses raw Snappy data into `output`
/// and returns the number of bytes written. Its source writes exactly the length the header
/// announces, refuses empty input, invalid data and an `output` shorter than that length, and
/// leaves the length of `output` as it is. The bytes are named [`snappy_decompress`]; what
/// `output` holds past them, or after a failure, is not stated, nor which error the crate
/// reports.
#[verifier::external_body]
fn decompress(input: &[u8], output: &mut Vec<u8>) -> (r: Result<usize, ()>)
    ensures
        final(output)@.len() == old(output)@.len(),
        r is Ok <==> (snappy_decompress(input@) matches Some(out) && out.len() <= old(
            output,
        )@.len()),
        r matches Ok(n) ==> n <= old(output)@.len() && snappy_decompress(input@) == Some(
            final(output)@.subrange(0, n as int),
        ) && snappy_decompress_len(input@) == Some(n),
        input@.len() == 0 ==> r is Err,
{
    snap::raw::Decoder::new().decompress(input, output.as_mut_slice()).map_err(|_| ())
}

/// A position to seek to.
#[derive(Debug, Clone, Copy, PartialEq, Eq, Structural)]
pub enum SeekFrom {
    Start(u64),
    End(i64),
    Current(i64),
}

/// Why a stream operation failed.
#[derive(Debug, Clone, Copy, PartialEq, Eq, Structural)]
pub enum IoError {
    /// A seek to a negative or overflowing position.
    InvalidSeek,
    /// The stream ended before as many bytes as were asked for.
    UnexpectedEof,
}

/// Why a command body could not be read.
#[derive(Debug, Clone, Copy, PartialEq, Eq, Structural)]
pub enum ReadCmdBodyError {
    IoError(IoError),
    /// The body is not valid Snappy data, or does not fit the buffer once decompressed.
    DecompressError,
}

/// Where a seek from `base` by `offset` lands, if that is a position.
pub open spec fn seek_target(base: int, offset: int) -> Option<u64> {
    if 0 <= base + offset <= u64::MAX {
        Some((base + offset) as u64)
    } else {
        None
    }
}

/// Where `from` seeks to in a stream of `len` bytes at position `pos`.
pub open spec fn seek_spec(from: SeekFrom, pos: int, len: int) -> Option<u64> {
    match from {
        SeekFrom::Start(n) => Some(n),
        SeekFrom::End(n) => seek_target(len, n as int),
        SeekFrom::Current(n) => seek_target(pos, n as int),
    }
}

/// What reading a command body gives: the body itself, or where the header says it is
/// compressed, its Snappy decompression, which must fit what the body leaves of a buffer of
/// [`DEMO_RECORD_BUFFER_SIZE`] bytes.
pub open spec fn body_decoded(body: Seq<u8>, compressed: bool, r: Result<Vec<u8>, ReadCmdBodyError>) -> bool {
    if !compressed {
        r matches Ok(v) && v@ == body
    } else if snappy_decompress_len(body) matches Some(_) && snappy_decompress(body) matches Some(
        out,
    ) && out.len() <= DEMO_RECORD_BUFFER_SIZE - body.len() {
        r matches Ok(v) && Some(v@) == snappy_decompress(body)
    } else {
        r == Err::<Vec<u8>, ReadCmdBodyError>(ReadCmdBodyError::DecompressError)
    }
}

/// Decodes a command body just read: see [`body_decoded`].
pub fn decode_body(body: Vec<u8>, compressed: bool) -> (r: Result<Vec<u8>, ReadCmdBodyError>)
    requires
        body@.len() <= DEMO_RECORD_BUFFER_SIZE,
    ensures
        body_decoded(body@, compressed, r),
{
    if !compressed {
        return Ok(body);
    }
    let decompressed_len = match decompress_len(body.as_slice()) {
        Ok(n) => n,
        Err(_) => return Err(ReadCmdBodyError::DecompressError),
    };
    let room: usize = DEMO_RECORD_BUFFER_SIZE - body.len();
    let mut right: Vec<u8> = vec![0u8; room];
    let written = match decompress(body.as_slice(), &mut right) {
        Ok(n) => n,
        Err(_) => return Err(ReadCmdBodyError::DecompressError),
    };
    assert(written == decompressed_len);
    right.truncate(decompressed_len);
    Ok(right)
}

/// Where `from` seeks to from position `pos` in a stream of `len` bytes: see [`seek_spec`].
pub fn seek_position(pos: u64, len: usize, from: SeekFrom) -> (r: Result<u64, IoError>)
    ensures
        match seek_spec(from, pos as int, len as int) {
            Some(n) => r == Ok::<u64, IoError>(n),
            None => r == Err::<u64, IoError>(IoError::InvalidSeek),
        },
{
    let (base, offset): (u64, i64) = match from {
        SeekFrom::Start(n) => {
            return Ok(n);
        },
        SeekFrom::End(n) => (len as u64, n),
        SeekFrom::Current(n) => (pos, n),
    };
    let target = if offset >= 0 {
        base.checked_add(offset as u64)
    } else {
        let back: u64 = if offset == i64::MIN {
            0x8000_0000_0000_0000u64
        } else {
            (-offset) as u64
        };
        base.checked_sub(back)
    };
    match target {
        Some(n) => Ok(n),
        None => Err(IoError::InvalidSeek),
    }
}

/// A copy of the `n` bytes of `data` from byte `p`.
pub fn copy_range(data: &[u8], p: usize, n: usize) -> (r: Vec<u8>)
    requires
        p + n <= data@.len(),
    ensures
        r@ == data@.subrange(p as int, p + n),
{
    let len = data.len();
    let mut out: Vec<u8> = Vec::with_capacity(n);
    let mut i: usize = 0;
    while i < n
        invariant
            i <= n,
            len == data@.len(),
            p + n <= data@.len(),
            out@ == data@.subrange(p as int, p + i),
        decreases n - i,
    {
        out.push(data[p + i]);
        i = i + 1;
        proof {
            assert(out@ =~= data@.subrange(p as int, p + i));
        }
    }
    out
}

/// The command header at byte `p` of a TV broadcast, and where reading stops: see
/// [`TvBroadcast::read_cmd_header`].
pub open spec fn hltv_cmd_header(d: Seq<u8>, p: int) -> (Result<CmdHeader, ReadCmdHeaderError>, int) {
    if p + 1 > d.len() {
        (Err(ReadCmdHeaderError::IoError), d.len() as int)
    } else if cmd_of_raw(d[p] as u32).0 is Err {
        (Err(cmd_of_raw(d[p] as u32).0->Err_0), p + 1)
    } else if p + 10 > d.len() {
        (Err(ReadCmdHeaderError::IoError), d.len() as int)
    } else {
        (
            Ok(
                CmdHeader {
                    cmd: cmd_of_raw(d[p] as u32).0->Ok_0,
                    body_compressed: cmd_of_raw(d[p] as u32).1,
                    tick: le_u32(d, p + 1) as i32,
                    body_size: le_u32(d, p + 6),
                    size: 10,
                },
            ),
            p + 10,
        )
    }
}

/// Whether `h` is the header that [`hltv_cmd_header`] gives (its command being the one the
/// raw byte numbers).
pub open spec fn hltv_header_is(h: CmdHeader, d: Seq<u8>, p: int) -> bool {
    &&& hltv_cmd_header(d, p).0 matches Ok(s)
    &&& h.body_compressed == s.body_compressed
    &&& h.tick == s.tick
    &&& h.body_size == s.body_size
    &&& h.size == s.size
    &&& cmd_number(h.cmd) == (cmd_of_raw_number(d[p] as u32) as i32) as int
}

/// A TV broadcast held in memory, read through a cursor.
pub struct TvBroadcast {
    data: Vec<u8>,
    pos: u64,
}

impl TvBroadcast {
    /// The broadcast's bytes.
    pub closed spec fn data(&self) -> Seq<u8> {
        self.data@
    }

    /// The cursor's position (it may lie past the end).
    pub closed spec fn pos(&self) -> int {
        self.pos as int
    }

    /// The cursor's position is a `u64`: never negative.
    pub proof fn lemma_pos_in_range(&self)
        ensures
            0 <= self.pos() <= u64::MAX,
    {
    }

    /// The bytes from the cursor on.
    pub open spec fn rest(&self) -> Seq<u8> {
        if self.pos() <= self.data().len() {
            self.data().subrange(self.pos(), self.data().len() as int)
        } else {
            Seq::empty()
        }
    }

    /// A cursor at the start of `data`.
    pub fn from_reader(data: Vec<u8>) -> (r: Self)
        ensures
            r.data() == data@,
            r.pos() == 0,
    {
        TvBroadcast { data, pos: 0 }
    }

    /// Moves the cursor: see [`seek_spec`]; a target before the start or past `u64::MAX` is
    /// an error and leaves the cursor where it was.
    pub fn seek(&mut self, from: SeekFrom) -> (r: Result<u64, IoError>)
        ensures
            final(self).data() == old(self).data(),
            match seek_spec(from, old(self).pos(), old(self).data().len() as int) {
                Some(n) => r == Ok::<u64, IoError>(n) && final(self).pos() == n,
                None => r == Err::<u64, IoError>(IoError::InvalidSeek) && final(self).pos()
                    == old(self).pos(),
            },
    {
        match seek_position(self.pos, self.data.len(), from) {
            Ok(n) => {
                self.pos = n;
                Ok(n)
            },
            Err(e) => Err(e),
        }
    }

    /// The cursor's position.
    pub fn stream_position(&mut self) -> (r: Result<u64, IoError>)
        ensures
            *final(self) == *old(self),
            r == Ok::<u64, IoError>(old(self).pos() as u64),
    {
        Ok(self.pos)
    }

    /// The length of the broadcast; the cursor stays where it was.
    pub fn stream_len(&mut self) -> (r: Result<u64, IoError>)
        ensures
            final(self).data() == old(self).data(),
            final(self).pos() == old(self).pos(),
            r == Ok::<u64, IoError>(old(self).data().len() as u64),
    {
        proof {
            assert(self.data@.len() == self.data.len());
        }
        let old_pos = match self.stream_position() {
            Ok(p) => p,
            Err(e) => return Err(e),
        };
        let len = match self.seek(SeekFrom::End(0)) {
            Ok(l) => l,
            Err(e) => return Err(e),
        };
        if old_pos != len {
            match self.seek(SeekFrom::Start(old_pos)) {
                Ok(_) => {},
                Err(e) => return Err(e),
            }
        }
        Ok(len)
    }

    /// Whether the cursor stands at the end.
    pub fn is_eof(&mut self) -> (r: Result<bool, IoError>)
        ensures
            final(self).data() == old(self).data(),
            final(self).pos() == old(self).pos(),
            r == Ok::<bool, IoError>(old(self).pos() == old(self).data().len()),
    {
        proof {
            assert(self.data@.len() == self.data.len());
        }
        let pos = match self.stream_position() {
            Ok(p) => p,
            Err(e) => return Err(e),
        };
        let len = match self.stream_len() {
            Ok(l) => l,
            Err(e) => return Err(e),
        };
        Ok(pos == len)
    }

    /// Reads the header of the command at the cursor: a command byte (see
    /// [`cmd_of_raw`]), a little-endian tick, a byte of unknown use and a little-endian body
    /// size, ten bytes in all. Where the bytes run out the cursor goes to the end; an unknown
    /// command leaves it after the command byte.
    pub fn read_cmd_header(&mut self) -> (r: Result<CmdHeader, ReadCmdHeaderError>)
        ensures
            final(self).data() == old(self).data(),
            ({
                let (s, q) = hltv_cmd_header(old(self).data(), old(self).pos());
                &&& final(self).pos() == q
                &&& match s {
                    Ok(_) => r matches Ok(h) && hltv_header_is(h, old(self).data(), old(self).pos()),
                    Err(e) => r == Err::<CmdHeader, ReadCmdHeaderError>(e),
                }
            }),
    {
        let len = self.data.len();
        if self.pos >= len as u64 {
            self.pos = len as u64;
            return Err(ReadCmdHeaderError::IoError);
        }
        let p = self.pos as usize;
        let cmd_raw = self.data[p] as u32;
        self.pos = self.pos + 1;
        let (cmd, body_compressed) = decode_cmd(cmd_raw);
        let cmd = match cmd {
            Ok(c) => c,
            Err(e) => return Err(e),
        };
        if len - p < 10 {
            self.pos = len as u64;
            return Err(ReadCmdHeaderError::IoError);
        }
        let tick = read_le_u32(self.data.as_slice(), p + 1) as i32;
        let body_size = read_le_u32(self.data.as_slice(), p + 6);
        self.pos = (p + 10) as u64;
        Ok(CmdHeader { cmd, body_compressed, tick, body_size, size: 10 })
    }

    /// Moves the cursor back over a header just read.
    pub fn unread_cmd_header(&mut self, cmd_header: &CmdHeader) -> (r: Result<(), IoError>)
        ensures
            final(self).data() == old(self).data(),
            old(self).pos() >= cmd_header.size ==> r == Ok::<(), IoError>(()) && final(self).pos()
                == old(self).pos() - cmd_header.size,
            old(self).pos() < cmd_header.size ==> r == Err::<(), IoError>(IoError::InvalidSeek)
                && final(self).pos() == old(self).pos(),
    {
        match self.seek(SeekFrom::Current(-(cmd_header.size as i64))) {
            Ok(_) => Ok(()),
            Err(e) => Err(e),
        }
    }

    /// Reads the body of a command whose header was just read, decompressing it where the
    /// header says it is compressed. The body and its decompressed form share a buffer of
    /// [`DEMO_RECORD_BUFFER_SIZE`] bytes, so the decompressed form must fit what the body
    /// leaves of it. Where the bytes run out the cursor goes to the end.
    pub fn read_cmd_body(&mut self, cmd_header: &CmdHeader) -> (r: Result<Vec<u8>, ReadCmdBodyError>)
        requires
            cmd_header.body_size <= DEMO_RECORD_BUFFER_SIZE,
        ensures
            final(self).data() == old(self).data(),
            ({
                let bs = cmd_header.body_size as int;
                let rest = old(self).rest();
                if rest.len() < bs {
                    r == Err::<Vec<u8>, ReadCmdBodyError>(
                        ReadCmdBodyError::IoError(IoError::UnexpectedEof),
                    ) && final(self).pos() == old(self).data().len()
                } else {
                    &&& final(self).pos() == old(self).pos() + bs
                    &&& body_decoded(rest.subrange(0, bs), cmd_header.body_compressed, r)
                }
            }),
    {
        let len = self.data.len();
        let bs = cmd_header.body_size as usize;
        let remaining: usize = if self.pos > len as u64 {
            0
        } else {
            len - self.pos as usize
        };
        if remaining < bs {
            self.pos = len as u64;
            return Err(ReadCmdBodyError::IoError(IoError::UnexpectedEof));
        }
        if bs == 0 {
            proof {
                assert(old(self).rest().subrange(0, 0) =~= Seq::<u8>::empty());
            }
        }
        let p: usize = if bs == 0 {
            len
        } else {
            self.pos as usize
        };
        let left = copy_range(self.data.as_slice(), p, bs);
        if bs > 0 {
            self.pos = (p + bs) as u64;
        }
        proof {
            assert(left@ =~= old(self).rest().subrange(0, bs as int));
        }
        decode_body(left, cmd_header.body_compressed)
    }

    /// Moves the cursor over a command body.
    pub fn skip_cmd_body(&mut self, cmd_header: &CmdHeader) -> (r: Result<(), IoError>)
        ensures
            final(self).data() == old(self).data(),
            old(self).pos() + cmd_header.body_size <= u64::MAX ==> r == Ok::<(), IoError>(())
                && final(self).pos() == old(self).pos() + cmd_header.body_size,
            old(self).pos() + cmd_header.body_size > u64::MAX ==> r == Err::<(), IoError>(
                IoError::InvalidSeek,
            ) && final(self).pos() == old(self).pos(),
    {
        match self.seek(SeekFrom::Current(cmd_header.body_size as i64)) {
            Ok(_) => Ok(()),
            Err(e) => Err(e),
        }
    }
}

/// A command header that was read can be unread: it takes `size` bytes, so moving back by its
/// size returns to where it started.
pub proof fn lemma_hltv_header_unread(d: Seq<u8>, p: int)
    requires
        0 <= p,
        hltv_cmd_header(d, p).0 is Ok,
    ensures
        hltv_cmd_header(d, p).1 - (hltv_cmd_header(d, p).0->Ok_0).size == p,
{
}

/// Seeking by zero from the cursor, or to its position from the start, lands where it stands.
pub proof fn lemma_seek_current_zero(pos: u64, len: int)
    ensures
        seek_spec(SeekFrom::Current(0), pos as int, len) == Some(pos),
        seek_spec(SeekFrom::Start(pos), 0, len) == Some(pos),
{
}

} // verus!
