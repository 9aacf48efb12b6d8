//! The command header of a broadcast.

use crate::haste_core::demofile::{cmd_number, is_cmd_number, le_u32, read_le_u32, CmdHeader, EDemoCommands};
use vstd::prelude::*;

verus! {

/// Why a broadcast command header could not be read.
#[derive(Debug, Clone, Copy, PartialEq, Eq, Structural)]
pub enum ReadCmdHeaderError {
    /// The input ended inside the header.
    IoError,
    /// The command byte names no command.
    UnknownCmd(u8),
}

/// Whether `h` is the header at the start of `d`: a command byte, a little-endian tick, a byte
/// of unknown use and a little-endian body size; never compressed; ten bytes.
pub open spec fn broadcast_header_is(h: CmdHeader, d: Seq<u8>) -> bool {
    &&& cmd_number(h.cmd) == d[0] as int
    &&& !h.body_compressed
    &&& h.tick == le_u32(d, 1) as i32
    &&& h.body_size == le_u32(d, 6)
    &&& h.size == 10
}

/// Reads the header of the broadcast command at the start of `data`.
pub fn read_cmd_header(data: &[u8]) -> (r: Result<CmdHeader, ReadCmdHeaderError>)
    ensures
        data@.len() < 1 ==> r == Err::<CmdHeader, ReadCmdHeaderError>(ReadCmdHeaderError::IoError),
        data@.len() >= 1 && !is_cmd_number(data@[0] as int) ==> r == Err::<
            CmdHeader,
            ReadCmdHeaderError,
        >(ReadCmdHeaderError::UnknownCmd(data@[0])),
        data@.len() >= 1 && is_cmd_number(data@[0] as int) && data@.len() < 10 ==> r == Err::<
            CmdHeader,
            ReadCmdHeaderError,
        >(ReadCmdHeaderError::IoError),
        data@.len() >= 10 && is_cmd_number(data@[0] as int) ==> (r matches Ok(h)
            && broadcast_header_is(h, data@)),
{
    if data.len() < 1 {
        return Err(ReadCmdHeaderError::IoError);
    }
    let cmd = match EDemoCommands::try_from_i32(data[0] as i32) {
        Some(c) => c,
        None => return Err(ReadCmdHeaderError::UnknownCmd(data[0])),
    };
    if data.len() < 10 {
        return Err(ReadCmdHeaderError::IoError);
    }
    let tick = read_le_u32(data, 1) as i32;
    let body_size = read_le_u32(data, 6);
    Ok(CmdHeader { cmd, body_compressed: false, tick, body_size, size: 10 })
}

} // verus!
