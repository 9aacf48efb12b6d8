//! A streamed broadcast: the bytes received so far, read from the front.

use crate::haste_broadcast::demostream::{read_cmd_header as read_header, ReadCmdHeaderError as HeaderError};
use crate::haste_core::demofile::{is_cmd_number, CmdHeader, ReadCmdHeaderError, DEMO_RECORD_BUFFER_SIZE};
use crate::haste_core::tvbroadcast::{copy_range, IoError, ReadCmdBodyError};
use vstd::prelude::*;

verus! {

/// A streamed broadcast, read from the front.
pub struct Broadcast {
    data: Vec<u8>,
    pos: usize,
}

impl Broadcast {
    /// The broadcast's bytes.
    pub closed spec fn data(&self) -> Seq<u8> {
        self.data@
    }

    /// The bytes not read yet.
    pub closed spec fn rest(&self) -> Seq<u8> {
        self.data@.subrange(self.pos as int, self.data@.len() as int)
    }

    /// The position lies inside the data.
    pub closed spec fn wf(&self) -> bool {
        self.pos <= self.data@.len()
    }

    /// A reader at the start of `data`.
    pub fn start_reading(data: Vec<u8>) -> (r: Self)
        ensures
            r.wf(),
            r.rest() == data@,
    {
        let r = Broadcast { data, pos: 0 };
        proof {
            assert(r.rest() =~= r.data@);
        }
        r
    }

    /// Whether everything was read.
    pub fn is_at_eof(&self) -> (r: bool)
        requires
            self.wf(),
        ensures
            r == (self.rest().len() == 0),
    {
        self.pos >= self.data.len()
    }

    /// Reads the header of the next command (see
    /// [`crate::haste_broadcast::demostream::read_cmd_header`]); an unknown command byte is
    /// reported as both the raw and the uncompressed command. Where the bytes run out
    /// everything is consumed.
    pub fn read_cmd_header(&mut self) -> (r: Result<CmdHeader, ReadCmdHeaderError>)
        requires
            old(self).wf(),
        ensures
            final(self).wf(),
            ({
                let rest = old(self).rest();
                &&& rest.len() < 1 ==> r == Err::<CmdHeader, ReadCmdHeaderError>(
                    ReadCmdHeaderError::IoError,
                ) && final(self).rest().len() == 0
                &&& rest.len() >= 1 && !is_cmd_number(rest[0] as int) ==> r == Err::<
                    CmdHeader,
                    ReadCmdHeaderError,
                >(ReadCmdHeaderError::UnknownCmd { raw: rest[0] as u32, uncompressed: rest[0] as u32 })
                    && final(self).rest() == rest.subrange(1, rest.len() as int)
                &&& rest.len() >= 1 && is_cmd_number(rest[0] as int) && rest.len() < 10 ==> r
                    == Err::<CmdHeader, ReadCmdHeaderError>(ReadCmdHeaderError::IoError) && final(self).rest().len() == 0
                &&& rest.len() >= 10 && is_cmd_number(rest[0] as int) ==> (r matches Ok(h)
                    && crate::haste_broadcast::demostream::broadcast_header_is(h, rest) && final(self).rest() == rest.subrange(10, rest.len() as int))
            }),
    {
        let len = self.data.len();
        let p = self.pos;
        let n: usize = if len - p < 10 {
            len - p
        } else {
            10
        };
        let head = copy_range(self.data.as_slice(), p, n);
        proof {
            assert(head@ =~= self.rest().subrange(0, n as int));
            if n > 0 {
                assert(head@[0] == self.rest()[0]);
            }
        }
        match read_header(head.as_slice()) {
            Ok(h) => {
                self.pos = p + 10;
                proof {
                    assert(head@ =~= old(self).rest().subrange(0, 10));
                    assert(self.rest() =~= old(self).rest().subrange(10, old(self).rest().len() as int));
                }
                Ok(h)
            },
            Err(HeaderError::UnknownCmd(b)) => {
                self.pos = p + 1;
                proof {
                    assert(self.rest() =~= old(self).rest().subrange(1, old(self).rest().len() as int));
                }
                Err(ReadCmdHeaderError::UnknownCmd { raw: b as u32, uncompressed: b as u32 })
            },
            Err(HeaderError::IoError) => {
                self.pos = len;
                Err(ReadCmdHeaderError::IoError)
            },
        }
    }

    /// Reads the body of the command whose header was just read. Where the bytes run out
    /// everything is consumed.
    pub fn read_cmd(&mut self, cmd_header: &CmdHeader) -> (r: Result<Vec<u8>, ReadCmdBodyError>)
        requires
            old(self).wf(),
            cmd_header.body_size <= DEMO_RECORD_BUFFER_SIZE,
        ensures
            final(self).wf(),
            ({
                let bs = cmd_header.body_size as int;
                let rest = old(self).rest();
                if rest.len() < bs {
                    r == Err::<Vec<u8>, ReadCmdBodyError>(
                        ReadCmdBodyError::IoError(IoError::UnexpectedEof),
                    ) && final(self).rest().len() == 0
                } else {
                    r matches Ok(v) && v@ == rest.subrange(0, bs) && final(self).rest()
                        == rest.subrange(bs, rest.len() as int)
                }
            }),
    {
        let len = self.data.len();
        let bs = cmd_header.body_size as usize;
        if len - self.pos < bs {
            self.pos = len;
            proof {
                assert(self.rest() =~= Seq::<u8>::empty());
            }
            return Err(ReadCmdBodyError::IoError(IoError::UnexpectedEof));
        }
        let p = self.pos;
        let body = copy_range(self.data.as_slice(), p, bs);
        self.pos = p + bs;
        proof {
            assert(body@ =~= old(self).rest().subrange(0, bs as int));
            assert(self.rest() =~= old(self).rest().subrange(bs as int, old(self).rest().len() as int));
        }
        Ok(body)
    }
}

} // verus!
