//! Streaming a broadcast over HTTP: the decisions of the stream, as a machine that is told
//! what happened and answers what to do next. The driver performs the fetches, the sleeps and
//! the clock readings.

use vstd::prelude::*;

verus! {

/// The game whose broadcasts are streamed.
#[derive(Debug, Clone, Copy, PartialEq, Eq, Structural)]
pub enum AppId {
    Deadlock,
}

impl AppId {
    /// The Steam application id.
    pub fn id(&self) -> (r: u32)
        ensures
            r == 1422450,
    {
        match self {
            AppId::Deadlock => 1422450,
        }
    }
}

/// The kinds of broadcast fragments.
#[derive(Debug, Clone, Copy, PartialEq, Eq, Structural)]
pub enum FragmentType {
    Delta,
    Full,
}

/// How many times a missing delta fragment is asked for again before the stream gives up.
pub const MAX_DELTAFRAME_RETRIES: u32 = 5;

/// The integer quotient of `x` by `d`, rounded towards zero.
pub open spec fn quot(x: int, d: int) -> int {
    if x >= 0 {
        if d > 0 {
            x / d
        } else {
            -(x / (-d))
        }
    } else if d > 0 {
        -((-x) / d)
    } else {
        (-x) / (-d)
    }
}

/// How many delta fragments to fetch without waiting after the full fragment:
/// `(maxtick - endtick) / tps / keyframe_interval`, each quotient rounded towards zero.
pub fn catchup_fragments(maxtick: i32, endtick: i32, tps: i32, keyframe_interval: i32) -> (r: i32)
    requires
        i32::MIN <= maxtick - endtick <= i32::MAX,
        tps != 0,
        keyframe_interval != 0,
        i32::MIN <= quot(maxtick - endtick, tps as int) <= i32::MAX,
        i32::MIN <= quot(quot(maxtick - endtick, tps as int), keyframe_interval as int)
            <= i32::MAX,
    ensures
        r == quot(quot(maxtick - endtick, tps as int), keyframe_interval as int),
{
    let ticks = maxtick - endtick;
    let per_tps = match ticks.checked_div(tps) {
        Some(v) => v,
        None => 0,
    };
    match per_tps.checked_div(keyframe_interval) {
        Some(v) => v,
        None => 0,
    }
}

/// The stream's state.
#[derive(Debug, Clone, Copy, PartialEq, Eq, Structural)]
pub enum StreamState {
    /// The signup fragment is to be handed out.
    Start,
    /// The full fragment is to be fetched.
    Fullframe,
    /// Delta fragments are fetched without waiting, this many more.
    DeltaframesCatchup { catchup_fragments: i32 },
    /// Delta fragments are fetched a keyframe interval apart.
    DeltaframesIntervaled,
    /// The last delta fragment was missing and is asked for again.
    DeltaframeRetry,
}

/// What the stream waits for.
#[derive(Debug, Clone, Copy, PartialEq, Eq, Structural)]
pub enum Waiting {
    /// A request for the next packet.
    Call,
    /// The result of fetching the full fragment.
    FullFetch,
    /// The result of fetching a delta fragment.
    DeltaFetch,
    /// The time since the last delta fragment was fetched.
    Elapsed,
}

/// What happened.
#[derive(Debug, Clone, Copy, PartialEq, Eq, Structural)]
pub enum Event {
    /// The next packet is asked for.
    NextPacket,
    /// The fetch gave a fragment.
    Fetched,
    /// The fragment does not exist (yet).
    NotFound,
    /// The fetch failed otherwise.
    Failed,
    /// This much time passed since the last delta fragment's fetch began (none at all where
    /// there was none).
    Elapsed { secs: u64, nanos: u32 },
}

/// What the driver is to do.
#[derive(Debug, Clone, Copy, PartialEq, Eq, Structural)]
pub enum Action {
    /// Hand out the signup fragment.
    ReturnSignup,
    /// Fetch the full fragment `fragment`.
    FetchFull { fragment: i32 },
    /// Report the time since the last delta fragment's fetch began.
    MeasureElapsed,
    /// Sleep this long, then fetch the delta fragment `fragment`.
    FetchDelta { fragment: i32, sleep_secs: u64, sleep_nanos: u32 },
    /// Hand out the fragment just fetched; where `delta`, remember when its fetch began.
    ReturnFetched { delta: bool },
    /// Hand out the error of the fetch.
    ReturnError,
    /// Give up: the delta fragment `fragment` was missing `tries` times.
    GiveUp { fragment: i32, tries: u32 },
}

/// The stream's decisions and what they depend on.
#[derive(Debug, Clone, Copy, PartialEq, Eq, Structural)]
pub struct HttpBroadcastMachine {
    pub stream_state: StreamState,
    /// The fragment fetched last.
    pub stream_fragment: i32,
    /// Seconds between keyframes.
    pub keyframe_interval: u64,
    /// How many delta fragments follow the full one without waiting.
    pub catchup_after_full: i32,
    /// How many times the missing delta fragment was asked for again in this request.
    pub retries: u32,
    pub waiting: Waiting,
}

/// The machine after `m` went to the top of its loop in state `m.stream_state`.
pub open spec fn enter_spec(m: HttpBroadcastMachine) -> (HttpBroadcastMachine, Action) {
    match m.stream_state {
        StreamState::Start => (
            HttpBroadcastMachine {
                stream_state: StreamState::Fullframe,
                waiting: Waiting::Call,
                ..m
            },
            Action::ReturnSignup,
        ),
        StreamState::Fullframe => (
            HttpBroadcastMachine { waiting: Waiting::FullFetch, ..m },
            Action::FetchFull { fragment: m.stream_fragment },
        ),
        StreamState::DeltaframesCatchup { .. } => (
            HttpBroadcastMachine {
                stream_fragment: (m.stream_fragment + 1) as i32,
                waiting: Waiting::DeltaFetch,
                ..m
            },
            Action::FetchDelta {
                fragment: (m.stream_fragment + 1) as i32,
                sleep_secs: 0,
                sleep_nanos: 0,
            },
        ),
        StreamState::DeltaframesIntervaled => (
            HttpBroadcastMachine { waiting: Waiting::Elapsed, ..m },
            Action::MeasureElapsed,
        ),
        StreamState::DeltaframeRetry => (
            HttpBroadcastMachine { waiting: Waiting::DeltaFetch, ..m },
            Action::FetchDelta {
                fragment: m.stream_fragment,
                sleep_secs: m.keyframe_interval,
                sleep_nanos: 0,
            },
        ),
    }
}

/// Whether `event` is what `m` waits for.
pub open spec fn expects(m: HttpBroadcastMachine, event: Event) -> bool {
    match m.waiting {
        Waiting::Call => event is NextPacket,
        Waiting::FullFetch | Waiting::DeltaFetch => event is Fetched || event is NotFound
            || event is Failed,
        Waiting::Elapsed => event matches Event::Elapsed { nanos, .. } && nanos < 1_000_000_000,
    }
}

/// Whether the time `secs`, `nanos` is longer than `interval` seconds.
pub open spec fn longer_than(secs: u64, nanos: u32, interval: u64) -> bool {
    secs > interval || (secs == interval && nanos > 0)
}

/// What `m` does on `event`: the loop of one request for a packet, a step at a time. A
/// fetch's failure is handed out and leaves the state as it was; a missing delta fragment moves
/// catch-up to fetching on an interval, and fetching on an interval to asking again, which gives
/// up after [`MAX_DELTAFRAME_RETRIES`] more misses.
pub open spec fn step_spec(m: HttpBroadcastMachine, event: Event) -> (HttpBroadcastMachine, Action) {
    match m.waiting {
        Waiting::Call => enter_spec(HttpBroadcastMachine { retries: 0, ..m }),
        Waiting::FullFetch => match event {
            Event::Fetched => (
                HttpBroadcastMachine {
                    stream_state: StreamState::DeltaframesCatchup {
                        catchup_fragments: m.catchup_after_full,
                    },
                    waiting: Waiting::Call,
                    ..m
                },
                Action::ReturnFetched { delta: false },
            ),
            _ => (HttpBroadcastMachine { waiting: Waiting::Call, ..m }, Action::ReturnError),
        },
        Waiting::DeltaFetch => match event {
            Event::Failed => (
                HttpBroadcastMachine { waiting: Waiting::Call, ..m },
                Action::ReturnError,
            ),
            Event::NotFound => match m.stream_state {
                StreamState::DeltaframesCatchup { .. } => enter_spec(
                    HttpBroadcastMachine { stream_state: StreamState::DeltaframesIntervaled, ..m },
                ),
                StreamState::DeltaframesIntervaled => enter_spec(
                    HttpBroadcastMachine { stream_state: StreamState::DeltaframeRetry, ..m },
                ),
                _ => if m.retries + 1 > MAX_DELTAFRAME_RETRIES {
                    (
                        HttpBroadcastMachine {
                            retries: (m.retries + 1) as u32,
                            waiting: Waiting::Call,
                            ..m
                        },
                        Action::GiveUp {
                            fragment: m.stream_fragment,
                            tries: (m.retries + 1) as u32,
                        },
                    )
                } else {
                    enter_spec(HttpBroadcastMachine { retries: (m.retries + 1) as u32, ..m })
                },
            },
            _ => match m.stream_state {
                StreamState::DeltaframesCatchup { catchup_fragments } => (
                    HttpBroadcastMachine {
                        stream_state: if catchup_fragments - 1 == 0 {
                            StreamState::DeltaframesIntervaled
                        } else {
                            StreamState::DeltaframesCatchup {
                                catchup_fragments: (catchup_fragments - 1) as i32,
                            }
                        },
                        waiting: Waiting::Call,
                        ..m
                    },
                    Action::ReturnFetched { delta: true },
                ),
                _ => (
                    HttpBroadcastMachine {
                        stream_state: StreamState::DeltaframesIntervaled,
                        waiting: Waiting::Call,
                        ..m
                    },
                    Action::ReturnFetched { delta: true },
                ),
            },
        },
        Waiting::Elapsed => match event {
            Event::Elapsed { secs, nanos } => if longer_than(secs, nanos, m.keyframe_interval) {
                enter_spec(
                    HttpBroadcastMachine {
                        stream_state: StreamState::DeltaframesCatchup {
                            catchup_fragments: (secs / m.keyframe_interval) as i32,
                        },
                        ..m
                    },
                )
            } else {
                (
                    HttpBroadcastMachine {
                        stream_fragment: (m.stream_fragment + 1) as i32,
                        waiting: Waiting::DeltaFetch,
                        ..m
                    },
                    Action::FetchDelta {
                        fragment: (m.stream_fragment + 1) as i32,
                        sleep_secs: if nanos == 0 {
                            (m.keyframe_interval - secs) as u64
                        } else {
                            (m.keyframe_interval - secs - 1) as u64
                        },
                        sleep_nanos: if nanos == 0 {
                            0
                        } else {
                            (1_000_000_000 - nanos) as u32
                        },
                    },
                )
            },
            _ => (m, Action::ReturnError),
        },
    }
}

/// What `m` can do on `event` without an arithmetic fault, on the steps that count: the next
/// fragment number fits where the step moves to it, the retry count can grow where a retry is
/// counted, the catch-up count can count down where a catch-up fragment arrives, and an elapsed
/// time longer than the interval is divided by a nonzero interval.
pub open spec fn step_defined(m: HttpBroadcastMachine, event: Event) -> bool {
    match m.waiting {
        Waiting::Call => m.stream_state is DeltaframesCatchup ==> m.stream_fragment < i32::MAX,
        Waiting::FullFetch => true,
        Waiting::DeltaFetch => match event {
            Event::Failed => true,
            Event::NotFound => !(m.stream_state is DeltaframesCatchup || m.stream_state is DeltaframesIntervaled)
                ==> m.retries < u32::MAX,
            _ => m.stream_state matches StreamState::DeltaframesCatchup { catchup_fragments }
                ==> catchup_fragments > i32::MIN,
        },
        Waiting::Elapsed => event matches Event::Elapsed { secs, nanos } ==> m.stream_fragment < i32::MAX
            && (longer_than(secs, nanos, m.keyframe_interval) ==> m.keyframe_interval > 0),
    }
}

impl HttpBroadcastMachine {
    /// A stream that starts at fragment `fragment` (see [`catchup_fragments`] for
    /// `catchup_after_full`).
    pub fn new(fragment: i32, keyframe_interval: u64, catchup_after_full: i32) -> (r: Self)
        ensures
            r == (HttpBroadcastMachine {
                stream_state: StreamState::Start,
                stream_fragment: fragment,
                keyframe_interval,
                catchup_after_full,
                retries: 0,
                waiting: Waiting::Call,
            }),
    {
        HttpBroadcastMachine {
            stream_state: StreamState::Start,
            stream_fragment: fragment,
            keyframe_interval,
            catchup_after_full,
            retries: 0,
            waiting: Waiting::Call,
        }
    }

    /// Goes to the top of the loop: see [`enter_spec`].
    fn enter(&mut self) -> (r: Action)
        requires
            old(self).stream_state is DeltaframesCatchup ==> old(self).stream_fragment < i32::MAX,
        ensures
            (*final(self), r) == enter_spec(*old(self)),
    {
        match self.stream_state {
            StreamState::Start => {
                self.stream_state = StreamState::Fullframe;
                self.waiting = Waiting::Call;
                Action::ReturnSignup
            },
            StreamState::Fullframe => {
                self.waiting = Waiting::FullFetch;
                Action::FetchFull { fragment: self.stream_fragment }
            },
            StreamState::DeltaframesCatchup { .. } => {
                self.stream_fragment = self.stream_fragment + 1;
                self.waiting = Waiting::DeltaFetch;
                Action::FetchDelta { fragment: self.stream_fragment, sleep_secs: 0, sleep_nanos: 0 }
            },
            StreamState::DeltaframesIntervaled => {
                self.waiting = Waiting::Elapsed;
                Action::MeasureElapsed
            },
            StreamState::DeltaframeRetry => {
                self.waiting = Waiting::DeltaFetch;
                Action::FetchDelta {
                    fragment: self.stream_fragment,
                    sleep_secs: self.keyframe_interval,
                    sleep_nanos: 0,
                }
            },
        }
    }

    /// Whether the next step on `event` is free of arithmetic faults: see [`step_defined`].
    pub fn step_is_defined(&self, event: Event) -> (r: bool)
        ensures
            r == step_defined(*self, event),
    {
        match self.waiting {
            Waiting::Call => match self.stream_state {
                StreamState::DeltaframesCatchup { .. } => self.stream_fragment < i32::MAX,
                _ => true,
            },
            Waiting::FullFetch => true,
            Waiting::DeltaFetch => match event {
                Event::Failed => true,
                Event::NotFound => match self.stream_state {
                    StreamState::DeltaframesCatchup { .. } => true,
                    StreamState::DeltaframesIntervaled => true,
                    _ => self.retries < u32::MAX,
                },
                _ => match self.stream_state {
                    StreamState::DeltaframesCatchup { catchup_fragments } => catchup_fragments > i32::MIN,
                    _ => true,
                },
            },
            Waiting::Elapsed => match event {
                Event::Elapsed { secs, nanos } => {
                    let interval = self.keyframe_interval;
                    let longer = secs > interval || (secs == interval && nanos > 0);
                    self.stream_fragment < i32::MAX && (!longer || interval > 0)
                },
                _ => true,
            },
        }
    }

    /// Takes the next step on `event`: see [`step_spec`].
    pub fn step(&mut self, event: Event) -> (r: Action)
        requires
            expects(*old(self), event),
            step_defined(*old(self), event),
        ensures
            (*final(self), r) == step_spec(*old(self), event),
    {
        match self.waiting {
            Waiting::Call => {
                self.retries = 0;
                self.enter()
            },
            Waiting::FullFetch => {
                self.waiting = Waiting::Call;
                match event {
                    Event::Fetched => {
                        self.stream_state = StreamState::DeltaframesCatchup {
                            catchup_fragments: self.catchup_after_full,
                        };
                        Action::ReturnFetched { delta: false }
                    },
                    _ => Action::ReturnError,
                }
            },
            Waiting::DeltaFetch => match event {
                Event::Failed => {
                    self.waiting = Waiting::Call;
                    Action::ReturnError
                },
                Event::NotFound => match self.stream_state {
                    StreamState::DeltaframesCatchup { .. } => {
                        self.stream_state = StreamState::DeltaframesIntervaled;
                        self.enter()
                    },
                    StreamState::DeltaframesIntervaled => {
                        self.stream_state = StreamState::DeltaframeRetry;
                        self.enter()
                    },
                    _ => {
                        if self.retries >= MAX_DELTAFRAME_RETRIES {
                            self.retries = self.retries + 1;
                            self.waiting = Waiting::Call;
                            Action::GiveUp { fragment: self.stream_fragment, tries: self.retries }
                        } else {
                            self.retries = self.retries + 1;
                            self.enter()
                        }
                    },
                },
                _ => {
                    self.waiting = Waiting::Call;
                    match self.stream_state {
                        StreamState::DeltaframesCatchup { catchup_fragments } => {
                            let left = catchup_fragments - 1;
                            if left == 0 {
                                self.stream_state = StreamState::DeltaframesIntervaled;
                            } else {
                                self.stream_state = StreamState::DeltaframesCatchup {
                                    catchup_fragments: left,
                                };
                            }
                        },
                        _ => {
                            self.stream_state = StreamState::DeltaframesIntervaled;
                        },
                    }
                    Action::ReturnFetched { delta: true }
                },
            },
            Waiting::Elapsed => match event {
                Event::Elapsed { secs, nanos } => {
                    let interval = self.keyframe_interval;
                    if secs > interval || (secs == interval && nanos > 0) {
                        self.stream_state = StreamState::DeltaframesCatchup {
                            catchup_fragments: #[verifier::truncate] ((secs / interval) as i32),
                        };
                        self.enter()
                    } else {
                        let (sleep_secs, sleep_nanos) = if nanos == 0 {
                            (interval - secs, 0u32)
                        } else {
                            (interval - secs - 1, 1_000_000_000u32 - nanos)
                        };
                        self.stream_fragment = self.stream_fragment + 1;
                        self.waiting = Waiting::DeltaFetch;
                        Action::FetchDelta { fragment: self.stream_fragment, sleep_secs, sleep_nanos }
                    }
                },
                _ => Action::ReturnError,
            },
        }
    }
}

/// Each step moves the stream to the next fragment at most: the fragment number stays or grows
/// by one.
pub proof fn lemma_step_fragment_advances_by_at_most_one(m: HttpBroadcastMachine, event: Event)
    requires
        expects(m, event),
        step_defined(m, event),
    ensures
        step_spec(m, event).0.stream_fragment == m.stream_fragment || step_spec(m, event).0.stream_fragment
            == m.stream_fragment + 1,
{
}

/// The retry count stays within its bound: it is at most [`MAX_DELTAFRAME_RETRIES`] while a
/// fetch or a clock reading is awaited, and the stream gives up exactly when one more miss
/// would pass it.
pub proof fn lemma_step_retries_bounded(m: HttpBroadcastMachine, event: Event)
    requires
        expects(m, event),
        step_defined(m, event),
        m.retries <= MAX_DELTAFRAME_RETRIES + 1,
        m.waiting is DeltaFetch || m.waiting is Elapsed ==> m.retries <= MAX_DELTAFRAME_RETRIES,
    ensures
        step_spec(m, event).0.retries <= MAX_DELTAFRAME_RETRIES + 1,
        step_spec(m, event).0.waiting is DeltaFetch || step_spec(m, event).0.waiting is Elapsed
            ==> step_spec(m, event).0.retries <= MAX_DELTAFRAME_RETRIES,
        step_spec(m, event).1 matches Action::GiveUp { tries, .. } ==> tries
            == MAX_DELTAFRAME_RETRIES + 1,
{
}

/// A failed fetch is handed out as an error and changes nothing but that the stream waits for
/// the next request: the same fragment, state and retry count stay.
pub proof fn lemma_failed_fetch_changes_nothing(m: HttpBroadcastMachine)
    requires
        m.waiting is FullFetch || m.waiting is DeltaFetch,
    ensures
        step_spec(m, Event::Failed) == (HttpBroadcastMachine { waiting: Waiting::Call, ..m }, Action::ReturnError),
{
}

/// A fetched fragment is handed out (marked as a delta exactly when it was a delta fetch), and
/// while catching up the next request fetches the fragment right after it without sleeping.
pub proof fn lemma_fetched_then_next_fragment(m: HttpBroadcastMachine)
    requires
        m.waiting is FullFetch || m.waiting is DeltaFetch,
        m.stream_fragment < i32::MAX,
        m.stream_state matches StreamState::DeltaframesCatchup { catchup_fragments } ==> catchup_fragments > i32::MIN,
    ensures
        ({
            let (m1, a1) = step_spec(m, Event::Fetched);
            let (m2, a2) = step_spec(m1, Event::NextPacket);
            &&& a1 == Action::ReturnFetched { delta: m.waiting is DeltaFetch }
            &&& m1.stream_fragment == m.stream_fragment
            &&& m1.waiting is Call
            &&& m1.stream_state is DeltaframesCatchup ==> a2 == (Action::FetchDelta {
                fragment: (m.stream_fragment + 1) as i32,
                sleep_secs: 0,
                sleep_nanos: 0,
            })
        }),
{
}

/// Fetching on an interval sleeps out the rest of the keyframe interval: the time that passed
/// plus the sleep is exactly the interval, and the fetch is for the next fragment. Where more
/// than the interval passed, as many fragments as whole intervals passed are caught up on.
pub proof fn lemma_interval_sleep_fills_the_interval(m: HttpBroadcastMachine, secs: u64, nanos: u32)
    requires
        m.waiting is Elapsed,
        nanos < 1_000_000_000,
        m.stream_fragment < i32::MAX,
        longer_than(secs, nanos, m.keyframe_interval) ==> m.keyframe_interval > 0,
    ensures
        ({
            let (m1, a) = step_spec(m, Event::Elapsed { secs, nanos });
            &&& !longer_than(secs, nanos, m.keyframe_interval) ==> (a matches Action::FetchDelta {
                fragment,
                sleep_secs,
                sleep_nanos,
            } && fragment == m.stream_fragment + 1 && (sleep_secs + secs) * 1_000_000_000 + sleep_nanos
                + nanos == m.keyframe_interval * 1_000_000_000)
            &&& longer_than(secs, nanos, m.keyframe_interval) ==> m1.stream_state == (
            StreamState::DeltaframesCatchup { catchup_fragments: (secs / m.keyframe_interval) as i32 })
        }),
{
}

/// A missing fragment is asked for again, the same fragment after a keyframe interval's sleep,
/// until the retries run out.
pub proof fn lemma_retry_asks_for_the_same_fragment(m: HttpBroadcastMachine)
    requires
        m.waiting is DeltaFetch,
        m.stream_state is DeltaframeRetry || m.stream_state is DeltaframesIntervaled,
        m.retries < MAX_DELTAFRAME_RETRIES,
    ensures
        step_spec(m, Event::NotFound).1 == (Action::FetchDelta {
            fragment: m.stream_fragment,
            sleep_secs: m.keyframe_interval,
            sleep_nanos: 0,
        }),
        step_spec(m, Event::NotFound).0.stream_state is DeltaframeRetry,
{
}

} // verus!
