//! The decisions of a run of a Dota 2 replay to a tick.

use crate::haste_core::demofile::EDemoCommands;
use vstd::prelude::*;

verus! {

/// How many ticks lie between two full packets.
pub const FULL_PACKET_INTERVAL: i32 = 1800;

/// What a run to a tick does with a command.
#[derive(Debug, Clone, Copy, PartialEq, Eq, Structural)]
pub enum ParseToTickDecision {
    /// The command lies past the target tick: the run stops before it.
    Break,
    /// The command is handled as usual.
    Handle,
    /// The command is skipped.
    Skip,
    /// The command is the last full packet before the target: its snapshot is handled.
    HandleFullPacket,
}

/// The state of a run to `target_tick`: whether the first sync tick command and the last full
/// packet before the target have been reached.
#[derive(Debug, Clone, Copy, PartialEq, Eq, Structural)]
pub struct ParseToTick {
    pub target_tick: i32,
    pub did_reach_first_sync_tick: bool,
    pub did_reach_last_full_packet: bool,
}

/// The decision of a run to a tick in state `s` on a command `cmd` of tick `tick`, and the
/// state after it: past the target it stops; up to the first sync tick command everything is
/// handled; then commands are skipped until a full packet less than a full packet interval
/// (and a margin of 100 ticks) before the target, which is handled as the last one; after it
/// everything is handled.
pub open spec fn parse_to_tick_step(s: ParseToTick, cmd: EDemoCommands, tick: i32) -> (ParseToTick, ParseToTickDecision) {
    if tick > s.target_tick {
        (s, ParseToTickDecision::Break)
    } else if !s.did_reach_first_sync_tick {
        (ParseToTick { did_reach_first_sync_tick: cmd == EDemoCommands::DemSyncTick, ..s }, ParseToTickDecision::Handle)
    } else if !s.did_reach_last_full_packet {
        if !(s.target_tick - tick < FULL_PACKET_INTERVAL + 100) || cmd != EDemoCommands::DemFullPacket {
            (s, ParseToTickDecision::Skip)
        } else {
            (ParseToTick { did_reach_last_full_packet: true, ..s }, ParseToTickDecision::HandleFullPacket)
        }
    } else {
        (s, ParseToTickDecision::Handle)
    }
}

impl ParseToTick {
    /// A run to `target_tick` that has reached nothing yet.
    pub fn new(target_tick: i32) -> (r: ParseToTick)
        ensures
            r == (ParseToTick { target_tick, did_reach_first_sync_tick: false, did_reach_last_full_packet: false }),
    {
        ParseToTick { target_tick, did_reach_first_sync_tick: false, did_reach_last_full_packet: false }
    }

    /// Decides what to do with a command `cmd` of tick `tick`: see [`parse_to_tick_step`].
    pub fn decide(&mut self, cmd: EDemoCommands, tick: i32) -> (r: ParseToTickDecision)
        requires
            tick <= old(self).target_tick && old(self).did_reach_first_sync_tick
                && !old(self).did_reach_last_full_packet ==> old(self).target_tick - tick <= i32::MAX,
        ensures
            (*final(self), r) == parse_to_tick_step(*old(self), cmd, tick),
    {
        if tick > self.target_tick {
            return ParseToTickDecision::Break;
        }
        if !self.did_reach_first_sync_tick {
            self.did_reach_first_sync_tick = cmd == EDemoCommands::DemSyncTick;
            return ParseToTickDecision::Handle;
        }
        if !self.did_reach_last_full_packet {
            let target_tick_distance = self.target_tick - tick;
            let is_last_full_packet_close = target_tick_distance < FULL_PACKET_INTERVAL + 100;
            if !is_last_full_packet_close || cmd != EDemoCommands::DemFullPacket {
                return ParseToTickDecision::Skip;
            }
            self.did_reach_last_full_packet = true;
            return ParseToTickDecision::HandleFullPacket;
        }
        ParseToTickDecision::Handle
    }
}

/// A run to a tick never goes past its target; the skipping ends only at a full packet close
/// to the target, and after it every command up to the target is handled.
pub proof fn lemma_parse_to_tick(s: ParseToTick, cmd: EDemoCommands, tick: i32)
    ensures
        tick > s.target_tick <==> parse_to_tick_step(s, cmd, tick).1 == ParseToTickDecision::Break,
        parse_to_tick_step(s, cmd, tick).1 == ParseToTickDecision::HandleFullPacket ==> cmd
            == EDemoCommands::DemFullPacket && s.target_tick - tick < FULL_PACKET_INTERVAL + 100
            && parse_to_tick_step(s, cmd, tick).0.did_reach_last_full_packet,
        tick <= s.target_tick && s.did_reach_first_sync_tick && s.did_reach_last_full_packet ==> parse_to_tick_step(
            s,
            cmd,
            tick,
        ).1 == ParseToTickDecision::Handle,
        s.did_reach_first_sync_tick && s.did_reach_last_full_packet ==> parse_to_tick_step(s, cmd, tick).0 == s,
{
}

} // verus!
