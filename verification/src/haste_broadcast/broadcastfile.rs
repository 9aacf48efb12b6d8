//! A recorded broadcast held in memory: fragments one after the other, read through a cursor.

use crate::haste_broadcast::demostream::{read_cmd_header as read_header, ReadCmdHeaderError};
use crate::haste_core::demofile::{is_cmd_number, CmdHeader, DEMO_RECORD_BUFFER_SIZE};
use crate::haste_core::tvbroadcast::{
    copy_range, seek_position, seek_spec, IoError, ReadCmdBodyError, SeekFrom,
};
use vstd::prelude::*;

verus! {

/// A recorded broadcast, read through a cursor.
pub struct BroadcastFile {
    data: Vec<u8>,
    pos: u64,
    total_ticks: Option<i32>,
}

impl BroadcastFile {
    /// The broadcast's bytes.
    pub closed spec fn data(&self) -> Seq<u8> {
        self.data@
    }

    /// The cursor's position (it may lie past the end).
    pub closed spec fn pos(&self) -> int {
        self.pos as int
    }

    /// The cursor's position is a `u64`: never negative.
    pub proof fn lemma_pos_in_range(&self)
        ensures
            0 <= self.pos() <= u64::MAX,
    {
    }

    /// The bytes from the cursor on.
    pub open spec fn rest(&self) -> Seq<u8> {
        if self.pos() <= self.data().len() {
            self.data().subrange(self.pos(), self.data().len() as int)
        } else {
            Seq::empty()
        }
    }

    /// A cursor at the start of `data`.
    pub fn start_reading(data: Vec<u8>) -> (r: Self)
        ensures
            r.data() == data@,
            r.pos() == 0,
    {
        BroadcastFile { data, pos: 0, total_ticks: None }
    }

    /// Moves the cursor: see [`seek_spec`].
    pub fn seek(&mut self, from: SeekFrom) -> (r: Result<u64, IoError>)
        ensures
            final(self).data() == old(self).data(),
            match seek_spec(from, old(self).pos(), old(self).data().len() as int) {
                Some(n) => r == Ok::<u64, IoError>(n) && final(self).pos() == n,
                None => r == Err::<u64, IoError>(IoError::InvalidSeek) && final(self).pos()
                    == old(self).pos(),
            },
    {
        match seek_position(self.pos, self.data.len(), from) {
            Ok(n) => {
                self.pos = n;
                Ok(n)
            },
            Err(e) => Err(e),
        }
    }

    /// The cursor's position.
    pub fn stream_position(&mut self) -> (r: Result<u64, IoError>)
        ensures
            final(self).data() == old(self).data(),
            final(self).pos() == old(self).pos(),
            r == Ok::<u64, IoError>(old(self).pos() as u64),
    {
        Ok(self.pos)
    }

    /// Where the broadcast's commands start.
    pub fn start_position(&self) -> (r: u64)
        ensures
            r == 0,
    {
        0
    }

    /// Reads the header of the command at the cursor (see
    /// [`crate::haste_broadcast::demostream::read_cmd_header`]). Where the bytes run out the
    /// cursor goes to the end; an unknown command leaves it after the command byte.
    pub fn read_cmd_header(&mut self) -> (r: Result<CmdHeader, ReadCmdHeaderError>)
        ensures
            final(self).data() == old(self).data(),
            ({
                let rest = old(self).rest();
                &&& rest.len() < 1 ==> r == Err::<CmdHeader, ReadCmdHeaderError>(
                    ReadCmdHeaderError::IoError,
                ) && final(self).pos() == old(self).data().len()
                &&& rest.len() >= 1 && !is_cmd_number(rest[0] as int) ==> r == Err::<
                    CmdHeader,
                    ReadCmdHeaderError,
                >(ReadCmdHeaderError::UnknownCmd(rest[0])) && final(self).pos() == old(self).pos()
                    + 1
                &&& rest.len() >= 1 && is_cmd_number(rest[0] as int) && rest.len() < 10 ==> r
                    == Err::<CmdHeader, ReadCmdHeaderError>(ReadCmdHeaderError::IoError) && final(self).pos() == old(self).data().len()
                &&& rest.len() >= 10 && is_cmd_number(rest[0] as int) ==> (r matches Ok(h)
                    && crate::haste_broadcast::demostream::broadcast_header_is(h, rest) && final(self).pos() == old(self).pos() + 10)
            }),
    {
        let len = self.data.len();
        if self.pos >= len as u64 {
            self.pos = len as u64;
            return Err(ReadCmdHeaderError::IoError);
        }
        let p = self.pos as usize;
        let n: usize = if len - p < 10 {
            len - p
        } else {
            10
        };
        let head = copy_range(self.data.as_slice(), p, n);
        let r = read_header(head.as_slice());
        proof {
            assert(head@ =~= self.rest().subrange(0, n as int));
            assert(head@[0] == self.rest()[0]);
        }
        match r {
            Ok(h) => {
                self.pos = self.pos + 10;
                proof {
                    assert(head@ =~= self.data@.subrange(p as int, len as int).subrange(0, 10));
                }
                Ok(h)
            },
            Err(ReadCmdHeaderError::UnknownCmd(b)) => {
                self.pos = self.pos + 1;
                Err(ReadCmdHeaderError::UnknownCmd(b))
            },
            Err(e) => {
                self.pos = len as u64;
                Err(e)
            },
        }
    }

    /// Reads the body of an uncompressed command whose header was just read. Where the bytes
    /// run out the cursor goes to the end.
    pub fn read_cmd(&mut self, cmd_header: &CmdHeader) -> (r: Result<Vec<u8>, ReadCmdBodyError>)
        requires
            !cmd_header.body_compressed,
            cmd_header.body_size <= DEMO_RECORD_BUFFER_SIZE,
        ensures
            final(self).data() == old(self).data(),
            ({
                let bs = cmd_header.body_size as int;
                let rest = old(self).rest();
                if rest.len() < bs {
                    r == Err::<Vec<u8>, ReadCmdBodyError>(
                        ReadCmdBodyError::IoError(IoError::UnexpectedEof),
                    ) && final(self).pos() == old(self).data().len()
                } else {
                    r matches Ok(v) && v@ == rest.subrange(0, bs) && final(self).pos() == old(self).pos() + bs
                }
            }),
    {
        let len = self.data.len();
        let bs = cmd_header.body_size as usize;
        let remaining: usize = if self.pos > len as u64 {
            0
        } else {
            len - self.pos as usize
        };
        if remaining < bs {
            self.pos = len as u64;
            return Err(ReadCmdBodyError::IoError(IoError::UnexpectedEof));
        }
        if bs == 0 {
            proof {
                assert(self.rest().subrange(0, 0) =~= Seq::<u8>::empty());
            }
            return Ok(Vec::new());
        }
        let p = self.pos as usize;
        let body = copy_range(self.data.as_slice(), p, bs);
        proof {
            assert(body@ =~= self.rest().subrange(0, bs as int));
        }
        self.pos = (p + bs) as u64;
        Ok(body)
    }
}

} // verus!
