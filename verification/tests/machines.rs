use haste::haste_core::demofile::EDemoCommands;
use haste::haste_core::parser::{SeekDecision, SeekToTick, Ticks};
use haste::haste_dota2::parser::{ParseToTick, ParseToTickDecision, FULL_PACKET_INTERVAL};
use haste::haste_broadcast::broadcasthttp::{
    Action as BAction, BroadcastHttpMachine, Event as BEvent, Schedule, StreamState as BState,
};
use haste::haste_broadcast::httpbroadcast::{
    catchup_fragments, Action, AppId, Event, HttpBroadcastMachine, StreamState,
};

#[test]
fn http_broadcast_stream() {
    let mut m = HttpBroadcastMachine::new(100, 3, 2);
    assert_eq!(m.step(Event::NextPacket), Action::ReturnSignup);
    assert_eq!(m.step(Event::NextPacket), Action::FetchFull { fragment: 100 });
    assert_eq!(m.step(Event::Fetched), Action::ReturnFetched { delta: false });
    assert_eq!(m.stream_state, StreamState::DeltaframesCatchup { catchup_fragments: 2 });
    assert_eq!(m.step(Event::NextPacket), Action::FetchDelta { fragment: 101, sleep_secs: 0, sleep_nanos: 0 });
    assert_eq!(m.step(Event::Fetched), Action::ReturnFetched { delta: true });
    assert_eq!(m.step(Event::NextPacket), Action::FetchDelta { fragment: 102, sleep_secs: 0, sleep_nanos: 0 });
    assert_eq!(m.step(Event::Fetched), Action::ReturnFetched { delta: true });
    assert_eq!(m.stream_state, StreamState::DeltaframesIntervaled);
    assert_eq!(m.step(Event::NextPacket), Action::MeasureElapsed);
    assert_eq!(
        m.step(Event::Elapsed { secs: 1, nanos: 500_000_000 }),
        Action::FetchDelta { fragment: 103, sleep_secs: 1, sleep_nanos: 500_000_000 }
    );
    // Missing: asked for again after the interval, until the retries run out.
    assert_eq!(m.step(Event::NotFound), Action::FetchDelta { fragment: 103, sleep_secs: 3, sleep_nanos: 0 });
    for _ in 0..5 {
        assert_eq!(m.step(Event::NotFound), Action::FetchDelta { fragment: 103, sleep_secs: 3, sleep_nanos: 0 });
    }
    assert_eq!(m.step(Event::NotFound), Action::GiveUp { fragment: 103, tries: 6 });
}

#[test]
fn http_broadcast_catches_up_after_a_long_wait() {
    let mut m = HttpBroadcastMachine::new(10, 3, 1);
    m.stream_state = StreamState::DeltaframesIntervaled;
    assert_eq!(m.step(Event::NextPacket), Action::MeasureElapsed);
    assert_eq!(m.step(Event::Elapsed { secs: 7, nanos: 0 }), Action::FetchDelta { fragment: 11, sleep_secs: 0, sleep_nanos: 0 });
    assert_eq!(m.stream_state, StreamState::DeltaframesCatchup { catchup_fragments: 2 });
    assert_eq!(m.step(Event::Failed), Action::ReturnError);
}

#[test]
fn catchup_rounds_towards_zero() {
    assert_eq!(catchup_fragments(1000, 100, 30, 3), 10);
    assert_eq!(catchup_fragments(100, 1000, 30, 3), -10);
    assert_eq!(AppId::Deadlock.id(), 1422450);
}

#[test]
fn broadcast_http_stream() {
    let mut m = BroadcastHttpMachine::new(50, 40);
    assert_eq!(m.step(BEvent::NextPacket), BAction::FetchStart { fragment: 40 });
    assert_eq!(m.step(BEvent::Fetched), BAction::ReturnFetched { schedule: Schedule::Unchanged });
    assert_eq!(m.step(BEvent::NextPacket), BAction::FetchFull { fragment: 50 });
    assert_eq!(m.step(BEvent::Fetched), BAction::ReturnFetched { schedule: Schedule::Now });
    assert_eq!(m.step(BEvent::NextPacket), BAction::FetchDelta { fragment: 50, wait: false });
    assert_eq!(m.step(BEvent::Fetched), BAction::ReturnFetched { schedule: Schedule::IntervalAfterFetchStart });
    assert_eq!(m.stream_fragment, 51);
    assert_eq!(m.step(BEvent::NextPacket), BAction::FetchDelta { fragment: 51, wait: false });
    assert_eq!(m.step(BEvent::NotFound), BAction::CheckDue { reschedule: true });
    assert_eq!(m.step(BEvent::Due { passed: false }), BAction::FetchDelta { fragment: 51, wait: true });
    for _ in 0..4 {
        assert_eq!(m.step(BEvent::NotFound), BAction::CheckDue { reschedule: true });
        assert_eq!(m.step(BEvent::Due { passed: true }), BAction::FetchDelta { fragment: 51, wait: false });
    }
    assert_eq!(m.step(BEvent::NotFound), BAction::GiveUp);
    assert_eq!(m.stream_state, BState::Stop);
    assert_eq!(m.step(BEvent::NextPacket), BAction::Done);
}

#[test]
fn broadcast_http_failure_stops_the_stream() {
    let mut m = BroadcastHttpMachine::new(50, 40);
    assert_eq!(m.step(BEvent::NextPacket), BAction::FetchStart { fragment: 40 });
    assert_eq!(m.step(BEvent::Failed), BAction::ReturnError);
    assert_eq!(m.stream_state, BState::Stop);
}

#[test]
fn a_run_to_a_tick_skips_to_the_last_full_packet() {
    let mut seek = SeekToTick::new(5000);
    let steps = [
        (EDemoCommands::DemFileHeader, -1, SeekDecision::Handle),
        (EDemoCommands::DemSignonPacket, -1, SeekDecision::Handle),
        (EDemoCommands::DemSyncTick, -1, SeekDecision::Handle),
        (EDemoCommands::DemPacket, 0, SeekDecision::Skip),
        (EDemoCommands::DemFullPacket, 0, SeekDecision::HandleFullPacket { keep_packet: false }),
        (EDemoCommands::DemPacket, 100, SeekDecision::Skip),
        (EDemoCommands::DemFullPacket, 1800, SeekDecision::HandleFullPacket { keep_packet: false }),
        (EDemoCommands::DemFullPacket, 3600, SeekDecision::HandleFullPacket { keep_packet: true }),
        (EDemoCommands::DemPacket, 4000, SeekDecision::Handle),
        (EDemoCommands::DemPacket, 5000, SeekDecision::Handle),
        (EDemoCommands::DemPacket, 5001, SeekDecision::Break),
    ];
    for (cmd, tick, want) in steps {
        assert_eq!(seek.decide(cmd, tick, 1800), want, "{:?} at {}", cmd, tick);
    }
    assert!(seek.did_handle_first_sync_tick && seek.did_handle_last_full_packet);
}

#[test]
fn a_dota2_run_to_a_tick_handles_only_the_close_full_packet() {
    let mut run = ParseToTick::new(5000);
    let steps = [
        (EDemoCommands::DemSendTables, -1, ParseToTickDecision::Handle),
        (EDemoCommands::DemSyncTick, -1, ParseToTickDecision::Handle),
        (EDemoCommands::DemFullPacket, 0, ParseToTickDecision::Skip),
        (EDemoCommands::DemPacket, 3200, ParseToTickDecision::Skip),
        (EDemoCommands::DemFullPacket, 3600, ParseToTickDecision::HandleFullPacket),
        (EDemoCommands::DemPacket, 3700, ParseToTickDecision::Handle),
        (EDemoCommands::DemFullPacket, 4000, ParseToTickDecision::Handle),
        (EDemoCommands::DemPacket, 5000, ParseToTickDecision::Handle),
        (EDemoCommands::DemPacket, 5001, ParseToTickDecision::Break),
    ];
    for (cmd, tick, want) in steps {
        assert_eq!(run.decide(cmd, tick), want, "{:?} at {}", cmd, tick);
    }
    assert_eq!(FULL_PACKET_INTERVAL, 1800);
}

#[test]
fn putting_a_command_back_restores_the_tick() {
    let mut ticks = Ticks::new();
    assert_eq!(ticks, Ticks { tick: -1, prev_tick: -1 });
    ticks.begin_cmd(10);
    assert!(ticks.tick_changed());
    ticks.begin_cmd(10);
    assert!(!ticks.tick_changed());
    ticks.begin_cmd(12);
    ticks.undo_cmd();
    assert_eq!(ticks.tick, 10);
}

#[test]
fn a_step_faults_only_where_it_counts() {
    let mut m = HttpBroadcastMachine::new(i32::MAX, 3, 2);
    // Signing up and fetching the full frame do not move the fragment number.
    assert!(m.step_is_defined(Event::NextPacket));
    assert_eq!(m.step(Event::NextPacket), Action::ReturnSignup);
    assert!(m.step_is_defined(Event::NextPacket));
    assert_eq!(m.step(Event::NextPacket), Action::FetchFull { fragment: i32::MAX });
    assert!(m.step_is_defined(Event::Fetched));
    m.step(Event::Fetched);
    // Catching up would move past the largest fragment number.
    assert!(!m.step_is_defined(Event::NextPacket));
}
