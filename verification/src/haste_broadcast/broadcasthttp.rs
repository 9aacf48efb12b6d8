//! Streaming a broadcast over HTTP with retries: the decisions of the stream, as a machine
//! that is told what happened and answers what to do next. The driver performs the fetches,
//! keeps the time at which the next delta fragment is due, and sleeps.

pub use crate::haste_broadcast::httpbroadcast::FragmentType;
use crate::haste_broadcast::httpbroadcast::MAX_DELTAFRAME_RETRIES;
use vstd::prelude::*;

verus! {

/// The stream's state.
#[derive(Debug, Clone, Copy, PartialEq, Eq, Structural)]
pub enum StreamState {
    /// The stream ended.
    Stop,
    /// The start fragment is to be fetched.
    Start,
    /// The full fragment is to be fetched.
    Fullframe,
    /// Delta fragments are fetched; `catchup` fetches without waiting for the due time.
    Deltaframes { num_retries: u32, catchup: bool },
}

/// What the stream waits for.
#[derive(Debug, Clone, Copy, PartialEq, Eq, Structural)]
pub enum Waiting {
    Call,
    StartFetch,
    FullFetch,
    /// Whether the due time of the next delta fragment has passed.
    Due,
    DeltaFetch,
}

/// What happened.
#[derive(Debug, Clone, Copy, PartialEq, Eq, Structural)]
pub enum Event {
    NextPacket,
    Fetched,
    NotFound,
    Failed,
    /// Whether the due time has passed.
    Due { passed: bool },
}

/// When the next delta fragment is due, after a fragment is handed out.
#[derive(Debug, Clone, Copy, PartialEq, Eq, Structural)]
pub enum Schedule {
    Unchanged,
    Now,
    /// A keyframe interval after the fetch began.
    IntervalAfterFetchStart,
}

/// What the driver is to do.
#[derive(Debug, Clone, Copy, PartialEq, Eq, Structural)]
pub enum Action {
    /// The stream ended: hand out nothing.
    Done,
    FetchStart { fragment: i32 },
    FetchFull { fragment: i32 },
    /// Report whether the due time passed; where `reschedule`, first set it a keyframe
    /// interval after the last fetch began.
    CheckDue { reschedule: bool },
    /// Fetch the delta fragment `fragment`, sleeping until the due time first where `wait`.
    FetchDelta { fragment: i32, wait: bool },
    /// Hand out the fragment just fetched, and set the due time as `schedule` says.
    ReturnFetched { schedule: Schedule },
    /// Hand out the error of the fetch.
    ReturnError,
    /// Hand out nothing: a fragment is missing (a delta fragment after the retries), and the
    /// stream stopped.
    GiveUp,
}

/// The stream's decisions and what they depend on.
#[derive(Debug, Clone, Copy, PartialEq, Eq, Structural)]
pub struct BroadcastHttpMachine {
    pub stream_state: StreamState,
    /// The next delta fragment.
    pub stream_fragment: i32,
    pub signup_fragment: i32,
    pub waiting: Waiting,
}

/// The next step in state `Deltaframes`: check the due time first unless catching up.
pub open spec fn enter_delta_spec(m: BroadcastHttpMachine) -> (BroadcastHttpMachine, Action) {
    match m.stream_state {
        StreamState::Deltaframes { catchup, .. } => if !catchup {
            (BroadcastHttpMachine { waiting: Waiting::Due, ..m }, Action::CheckDue { reschedule: false })
        } else {
            (
                BroadcastHttpMachine { waiting: Waiting::DeltaFetch, ..m },
                Action::FetchDelta { fragment: m.stream_fragment, wait: false },
            )
        },
        _ => (m, Action::Done),
    }
}

/// Whether `event` is what `m` waits for.
pub open spec fn expects(m: BroadcastHttpMachine, event: Event) -> bool {
    match m.waiting {
        Waiting::Call => event is NextPacket,
        Waiting::Due => event is Due && m.stream_state is Deltaframes,
        Waiting::DeltaFetch => (event is Fetched || event is NotFound || event is Failed)
            && m.stream_state is Deltaframes,
        _ => event is Fetched || event is NotFound || event is Failed,
    }
}

/// A failed fetch stops the stream: a missing fragment ends it quietly, another failure is
/// handed out.
pub open spec fn stopped(m: BroadcastHttpMachine, event: Event) -> (BroadcastHttpMachine, Action) {
    (
        BroadcastHttpMachine { stream_state: StreamState::Stop, waiting: Waiting::Call, ..m },
        if event is NotFound {
            Action::GiveUp
        } else {
            Action::ReturnError
        },
    )
}

/// What `m` does on `event`. A fetched delta fragment moves to the next one and resets the
/// retries; a missing one is asked for again after the keyframe interval, up to
/// [`MAX_DELTAFRAME_RETRIES`] times; a failed fetch stops the stream (see [`stopped`]).
pub open spec fn step_spec(m: BroadcastHttpMachine, event: Event) -> (BroadcastHttpMachine, Action) {
    match m.waiting {
        Waiting::Call => match m.stream_state {
            StreamState::Stop => (m, Action::Done),
            StreamState::Start => (
                BroadcastHttpMachine { waiting: Waiting::StartFetch, ..m },
                Action::FetchStart { fragment: m.signup_fragment },
            ),
            StreamState::Fullframe => (
                BroadcastHttpMachine { waiting: Waiting::FullFetch, ..m },
                Action::FetchFull { fragment: m.stream_fragment },
            ),
            StreamState::Deltaframes { .. } => enter_delta_spec(m),
        },
        Waiting::StartFetch => if event is Fetched {
            (
                BroadcastHttpMachine {
                    stream_state: StreamState::Fullframe,
                    waiting: Waiting::Call,
                    ..m
                },
                Action::ReturnFetched { schedule: Schedule::Unchanged },
            )
        } else {
            stopped(m, event)
        },
        Waiting::FullFetch => if event is Fetched {
            (
                BroadcastHttpMachine {
                    stream_state: StreamState::Deltaframes { num_retries: 0, catchup: true },
                    waiting: Waiting::Call,
                    ..m
                },
                Action::ReturnFetched { schedule: Schedule::Now },
            )
        } else {
            stopped(m, event)
        },
        Waiting::Due => match (event, m.stream_state) {
            (Event::Due { passed }, StreamState::Deltaframes { num_retries, .. }) => if passed {
                enter_delta_spec(
                    BroadcastHttpMachine {
                        stream_state: StreamState::Deltaframes { num_retries, catchup: true },
                        ..m
                    },
                )
            } else {
                (
                    BroadcastHttpMachine { waiting: Waiting::DeltaFetch, ..m },
                    Action::FetchDelta { fragment: m.stream_fragment, wait: true },
                )
            },
            _ => (m, Action::ReturnError),
        },
        Waiting::DeltaFetch => match (event, m.stream_state) {
            (Event::Fetched, StreamState::Deltaframes { catchup, .. }) => (
                BroadcastHttpMachine {
                    stream_state: StreamState::Deltaframes { num_retries: 0, catchup },
                    stream_fragment: (m.stream_fragment + 1) as i32,
                    waiting: Waiting::Call,
                    ..m
                },
                Action::ReturnFetched { schedule: Schedule::IntervalAfterFetchStart },
            ),
            (Event::NotFound, StreamState::Deltaframes { num_retries, .. }) => if num_retries
                >= MAX_DELTAFRAME_RETRIES {
                stopped(m, event)
            } else {
                (
                    BroadcastHttpMachine {
                        stream_state: StreamState::Deltaframes {
                            num_retries: (num_retries + 1) as u32,
                            catchup: false,
                        },
                        waiting: Waiting::Due,
                        ..m
                    },
                    Action::CheckDue { reschedule: true },
                )
            },
            _ => stopped(m, event),
        },
    }
}

impl BroadcastHttpMachine {
    /// A stream that starts from the sync response's fragment and signup fragment.
    pub fn new(fragment: i32, signup_fragment: i32) -> (r: Self)
        ensures
            r == (BroadcastHttpMachine {
                stream_state: StreamState::Start,
                stream_fragment: fragment,
                signup_fragment,
                waiting: Waiting::Call,
            }),
    {
        BroadcastHttpMachine {
            stream_state: StreamState::Start,
            stream_fragment: fragment,
            signup_fragment,
            waiting: Waiting::Call,
        }
    }

    fn enter_delta(&mut self) -> (r: Action)
        ensures
            (*final(self), r) == enter_delta_spec(*old(self)),
    {
        match self.stream_state {
            StreamState::Deltaframes { catchup, .. } => {
                if !catchup {
                    self.waiting = Waiting::Due;
                    Action::CheckDue { reschedule: false }
                } else {
                    self.waiting = Waiting::DeltaFetch;
                    Action::FetchDelta { fragment: self.stream_fragment, wait: false }
                }
            },
            _ => Action::Done,
        }
    }

    /// Takes the next step on `event`: see [`step_spec`].
    pub fn step(&mut self, event: Event) -> (r: Action)
        requires
            expects(*old(self), event),
            old(self).waiting is DeltaFetch && event is Fetched ==> old(self).stream_fragment
                < i32::MAX,
        ensures
            (*final(self), r) == step_spec(*old(self), event),
    {
        match self.waiting {
            Waiting::Call => match self.stream_state {
                StreamState::Stop => Action::Done,
                StreamState::Start => {
                    self.waiting = Waiting::StartFetch;
                    Action::FetchStart { fragment: self.signup_fragment }
                },
                StreamState::Fullframe => {
                    self.waiting = Waiting::FullFetch;
                    Action::FetchFull { fragment: self.stream_fragment }
                },
                StreamState::Deltaframes { .. } => self.enter_delta(),
            },
            Waiting::StartFetch => {
                if let Event::Fetched = event {
                    self.waiting = Waiting::Call;
                    self.stream_state = StreamState::Fullframe;
                    Action::ReturnFetched { schedule: Schedule::Unchanged }
                } else {
                    self.stop(event)
                }
            },
            Waiting::FullFetch => {
                if let Event::Fetched = event {
                    self.waiting = Waiting::Call;
                    self.stream_state = StreamState::Deltaframes { num_retries: 0, catchup: true };
                    Action::ReturnFetched { schedule: Schedule::Now }
                } else {
                    self.stop(event)
                }
            },
            Waiting::Due => match (event, self.stream_state) {
                (Event::Due { passed }, StreamState::Deltaframes { num_retries, .. }) => {
                    if passed {
                        self.stream_state = StreamState::Deltaframes { num_retries, catchup: true };
                        self.enter_delta()
                    } else {
                        self.waiting = Waiting::DeltaFetch;
                        Action::FetchDelta { fragment: self.stream_fragment, wait: true }
                    }
                },
                _ => Action::ReturnError,
            },
            Waiting::DeltaFetch => match (event, self.stream_state) {
                (Event::Fetched, StreamState::Deltaframes { catchup, .. }) => {
                    self.stream_state = StreamState::Deltaframes { num_retries: 0, catchup };
                    self.stream_fragment = self.stream_fragment + 1;
                    self.waiting = Waiting::Call;
                    Action::ReturnFetched { schedule: Schedule::IntervalAfterFetchStart }
                },
                (Event::NotFound, StreamState::Deltaframes { num_retries, .. }) => {
                    if num_retries >= MAX_DELTAFRAME_RETRIES {
                        self.stop(event)
                    } else {
                        self.stream_state = StreamState::Deltaframes {
                            num_retries: num_retries + 1,
                            catchup: false,
                        };
                        self.waiting = Waiting::Due;
                        Action::CheckDue { reschedule: true }
                    }
                },
                _ => self.stop(event),
            },
        }
    }

    /// Stops the stream after a failed fetch: see [`stopped`].
    fn stop(&mut self, event: Event) -> (r: Action)
        ensures
            (*final(self), r) == stopped(*old(self), event),
    {
        self.stream_state = StreamState::Stop;
        self.waiting = Waiting::Call;
        if let Event::NotFound = event {
            Action::GiveUp
        } else {
            Action::ReturnError
        }
    }
}

/// Each step keeps the next delta fragment or moves it on by one.
pub proof fn lemma_step_fragment_advances_by_at_most_one(m: BroadcastHttpMachine, event: Event)
    requires
        expects(m, event),
        m.waiting is DeltaFetch && event is Fetched ==> m.stream_fragment < i32::MAX,
    ensures
        step_spec(m, event).0.stream_fragment == m.stream_fragment || step_spec(m, event).0.stream_fragment
            == m.stream_fragment + 1,
{
}

/// The retry count never passes [`MAX_DELTAFRAME_RETRIES`], a fetched fragment resets it, the
/// stream gives up on a delta fragment only once it is reached, and every failure stops the
/// stream.
pub proof fn lemma_step_retries_bounded(m: BroadcastHttpMachine, event: Event)
    requires
        expects(m, event),
        m.stream_state matches StreamState::Deltaframes { num_retries, .. } ==> num_retries
            <= MAX_DELTAFRAME_RETRIES,
    ensures
        step_spec(m, event).0.stream_state matches StreamState::Deltaframes { num_retries, .. }
            ==> num_retries <= MAX_DELTAFRAME_RETRIES,
        step_spec(m, event).1 is ReturnFetched && m.waiting is DeltaFetch ==> (step_spec(
            m,
            event,
        ).0.stream_state matches StreamState::Deltaframes { num_retries, .. } && num_retries == 0),
        step_spec(m, event).1 is GiveUp && m.waiting is DeltaFetch ==> (m.stream_state matches StreamState::Deltaframes {
            num_retries,
            ..
        } && num_retries == MAX_DELTAFRAME_RETRIES),
        step_spec(m, event).1 is GiveUp || step_spec(m, event).1 is ReturnError ==> step_spec(
            m,
            event,
        ).0.stream_state is Stop,
{
}

/// A failed fetch stops the stream for good: the failure is handed out (a missing fragment is
/// not), and every later request is answered that the stream is done.
pub proof fn lemma_failure_stops_for_good(m: BroadcastHttpMachine, event: Event)
    requires
        m.waiting is StartFetch || m.waiting is FullFetch || m.waiting is DeltaFetch,
        expects(m, event),
        event is Failed || (event is NotFound && !(m.waiting is DeltaFetch)),
    ensures
        ({
            let (m1, a1) = step_spec(m, event);
            &&& a1 == (if event is NotFound { Action::GiveUp } else { Action::ReturnError })
            &&& step_spec(m1, Event::NextPacket) == (m1, Action::Done)
            &&& m1.stream_state is Stop
        }),
{
}

/// After a fetched delta fragment, catching up, the next request fetches the fragment after it
/// without waiting.
pub proof fn lemma_fetched_delta_then_next_fragment(m: BroadcastHttpMachine)
    requires
        m.waiting is DeltaFetch,
        m.stream_state matches StreamState::Deltaframes { catchup, .. } && catchup,
        m.stream_fragment < i32::MAX,
    ensures
        ({
            let (m1, a1) = step_spec(m, Event::Fetched);
            &&& a1 == Action::ReturnFetched { schedule: Schedule::IntervalAfterFetchStart }
            &&& step_spec(m1, Event::NextPacket).1 == (Action::FetchDelta {
                fragment: (m.stream_fragment + 1) as i32,
                wait: false,
            })
        }),
{
}

/// A missing delta fragment is asked for again: the same fragment, waiting for its due time
/// first, while retries are left.
pub proof fn lemma_missing_delta_is_asked_again(m: BroadcastHttpMachine)
    requires
        m.waiting is DeltaFetch,
        m.stream_state matches StreamState::Deltaframes { num_retries, .. } && num_retries
            < MAX_DELTAFRAME_RETRIES,
    ensures
        ({
            let (m1, a1) = step_spec(m, Event::NotFound);
            &&& a1 == Action::CheckDue { reschedule: true }
            &&& step_spec(m1, Event::Due { passed: false }).1 == (Action::FetchDelta {
                fragment: m.stream_fragment,
                wait: true,
            })
        }),
{
}

} // verus!
