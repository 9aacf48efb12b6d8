//! What a replay's run loop does with each command: the tick bookkeeping of the loop, the
//! decisions of a run to a tick, and the visitor that does nothing.

use crate::haste_core::demofile::EDemoCommands;
use vstd::prelude::*;

verus! {

/// What the run loop does with a command.
#[derive(Debug, Clone, Copy, PartialEq, Eq, Structural)]
pub enum ControlFlow {
    /// The parser handles the command.
    HandleCmd,
    /// The command is skipped: the stream moves past its body.
    SkipCmd,
    /// The command is neither handled nor skipped: it was dealt with elsewhere.
    IgnoreCmd,
    /// Processing stops, and the work of the current cycle is undone.
    Break,
}

/// The tick of the command being run and of the one before it.
#[derive(Debug, Clone, Copy, PartialEq, Eq, Structural)]
pub struct Ticks {
    pub tick: i32,
    pub prev_tick: i32,
}

impl Ticks {
    /// Before any command: both ticks are -1.
    pub fn new() -> (r: Ticks)
        ensures
            r == (Ticks { tick: -1i32, prev_tick: -1i32 }),
    {
        Ticks { tick: -1, prev_tick: -1 }
    }

    /// A command of tick `tick` begins: the current tick becomes the previous one.
    pub fn begin_cmd(&mut self, tick: i32)
        ensures
            *final(self) == (Ticks { tick, prev_tick: old(self).tick }),
    {
        self.prev_tick = self.tick;
        self.tick = tick;
    }

    /// Whether the command that began last moved to another tick: a tick ends after it.
    pub fn tick_changed(&self) -> (r: bool)
        ensures
            r == (self.prev_tick != self.tick),
    {
        self.prev_tick != self.tick
    }

    /// The command that began last is put back: the tick goes back to the previous one.
    pub fn undo_cmd(&mut self)
        ensures
            *final(self) == (Ticks { tick: old(self).prev_tick, prev_tick: old(self).prev_tick }),
    {
        self.tick = self.prev_tick;
    }
}

/// Beginning a command and putting it back leaves the tick where it was.
pub proof fn lemma_undo_restores_tick(t: Ticks, tick: i32)
    ensures
        ({
            let begun = Ticks { tick, prev_tick: t.tick };
            let undone = Ticks { tick: begun.prev_tick, prev_tick: begun.prev_tick };
            undone.tick == t.tick
        }),
{
}

/// What a run to a tick does with a command.
#[derive(Debug, Clone, Copy, PartialEq, Eq, Structural)]
pub enum SeekDecision {
    /// The command lies past the target tick: the run stops before it.
    Break,
    /// The command is handled as usual.
    Handle,
    /// The command is skipped.
    Skip,
    /// The command is a full packet: it is read and its snapshot handled, with the packet it
    /// carries only where `keep_packet` holds (no full packet lies between it and the target).
    HandleFullPacket { keep_packet: bool },
}

/// The state of a run to `target_tick`: whether the first sync tick command and the last full
/// packet before the target have been handled.
#[derive(Debug, Clone, Copy, PartialEq, Eq, Structural)]
pub struct SeekToTick {
    pub target_tick: i32,
    pub did_handle_first_sync_tick: bool,
    pub did_handle_last_full_packet: bool,
}

/// Another full packet lies between tick `tick` and the target: the target is more than a full
/// packet interval (and a margin of 100 ticks) ahead.
pub open spec fn has_full_packet_ahead(target_tick: i32, tick: i32, full_packet_interval: i32) -> bool {
    target_tick - tick > full_packet_interval + 100
}

/// The decision of a run to a tick in state `s` on a command `cmd` of tick `tick`, and the
/// state after it: past the target it stops; up to the first sync tick command everything is
/// handled; then full packets are handled (their packet dropped while another full packet lies
/// ahead) and other commands skipped, until the last full packet before the target has been
/// handled, after which everything is handled.
pub open spec fn seek_step_spec(
    s: SeekToTick,
    cmd: EDemoCommands,
    tick: i32,
    full_packet_interval: i32,
) -> (SeekToTick, SeekDecision) {
    if tick > s.target_tick {
        (s, SeekDecision::Break)
    } else if !s.did_handle_first_sync_tick {
        (SeekToTick { did_handle_first_sync_tick: cmd == EDemoCommands::DemSyncTick, ..s }, SeekDecision::Handle)
    } else if cmd == EDemoCommands::DemFullPacket {
        let ahead = has_full_packet_ahead(s.target_tick, tick, full_packet_interval);
        (
            SeekToTick { did_handle_last_full_packet: !ahead, ..s },
            SeekDecision::HandleFullPacket { keep_packet: !ahead },
        )
    } else if s.did_handle_last_full_packet {
        (s, SeekDecision::Handle)
    } else {
        (s, SeekDecision::Skip)
    }
}

impl SeekToTick {
    /// A run to `target_tick` that has handled nothing yet.
    pub fn new(target_tick: i32) -> (r: SeekToTick)
        ensures
            r == (SeekToTick { target_tick, did_handle_first_sync_tick: false, did_handle_last_full_packet: false }),
    {
        SeekToTick { target_tick, did_handle_first_sync_tick: false, did_handle_last_full_packet: false }
    }

    /// Decides what to do with a command `cmd` of tick `tick`, the replay's full packets coming
    /// every `full_packet_interval` ticks: see [`seek_step_spec`].
    pub fn decide(&mut self, cmd: EDemoCommands, tick: i32, full_packet_interval: i32) -> (r: SeekDecision)
        requires
            tick <= old(self).target_tick && old(self).did_handle_first_sync_tick ==> old(self).target_tick
                - tick <= i32::MAX && full_packet_interval + 100 <= i32::MAX,
        ensures
            (*final(self), r) == seek_step_spec(*old(self), cmd, tick, full_packet_interval),
    {
        if tick > self.target_tick {
            return SeekDecision::Break;
        }
        if !self.did_handle_first_sync_tick {
            self.did_handle_first_sync_tick = cmd == EDemoCommands::DemSyncTick;
            return SeekDecision::Handle;
        }
        let distance_to_target_tick = self.target_tick - tick;
        let ahead = distance_to_target_tick > full_packet_interval + 100;
        if cmd == EDemoCommands::DemFullPacket {
            self.did_handle_last_full_packet = !ahead;
            return SeekDecision::HandleFullPacket { keep_packet: !ahead };
        }
        if self.did_handle_last_full_packet {
            SeekDecision::Handle
        } else {
            SeekDecision::Skip
        }
    }
}

/// A run to a tick never goes past its target; once the last full packet before the target
/// has been handled, every other command up to the target is handled; and a full packet keeps
/// its packet exactly when no other full packet lies between it and the target.
pub proof fn lemma_seek_to_tick(s: SeekToTick, cmd: EDemoCommands, tick: i32, full_packet_interval: i32)
    ensures
        tick > s.target_tick <==> seek_step_spec(s, cmd, tick, full_packet_interval).1 == SeekDecision::Break,
        tick <= s.target_tick && s.did_handle_first_sync_tick && s.did_handle_last_full_packet
            && cmd != EDemoCommands::DemFullPacket ==> seek_step_spec(s, cmd, tick, full_packet_interval).1
            == SeekDecision::Handle,
        seek_step_spec(s, cmd, tick, full_packet_interval).1 matches SeekDecision::HandleFullPacket { keep_packet }
            ==> keep_packet == !has_full_packet_ahead(s.target_tick, tick, full_packet_interval),
        seek_step_spec(s, cmd, tick, full_packet_interval).0.target_tick == s.target_tick,
{
}

/// A visitor with nothing to do.
#[derive(Debug, Clone, Copy, PartialEq, Eq, Structural)]
pub struct NopVisitor;

} // verus!
