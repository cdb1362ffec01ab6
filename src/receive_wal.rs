//! The safekeeper's WAL receive endpoint, as a state machine: a greeting
//! opens the session, each later message is handed to the timeline, and
//! `stop_streaming` runs exactly once when an opened session ends, however
//! it ends.
use vstd::prelude::*;

verus! {

#[derive(Clone, Copy, Debug, PartialEq, Eq, Structural)]
pub enum WalState {
    AwaitGreeting,
    Streaming,
    Terminated,
}

/// What arrived on the stream.
#[derive(Clone, Copy, Debug, PartialEq, Eq, Structural)]
pub enum WalEvent {
    /// A proposer greeting.
    Greeting,
    /// Any other proposer message.
    Message,
    /// A read, decode, processing or write error.
    Failed,
    /// The client closed the stream.
    Closed,
}

/// What the endpoint is to do for one event.
#[derive(Clone, Copy, Debug, PartialEq, Eq, Structural)]
pub struct WalActions {
    /// Tell the timeline that streaming resumed.
    pub resume: bool,
    /// Register a callmemaybe subscription with the pageserver.
    pub subscribe: bool,
    /// Hand the message to the timeline and send its reply, if any.
    pub process: bool,
    /// Tell the timeline that streaming stopped.
    pub stop: bool,
    /// The session ends with an error.
    pub error: bool,
}

pub open spec fn no_actions() -> WalActions {
    WalActions { resume: false, subscribe: false, process: false, stop: false, error: false }
}

pub open spec fn wal_next(s: WalState, has_pageserver: bool, ev: WalEvent) -> (WalState, WalActions) {
    match s {
        WalState::AwaitGreeting => match ev {
            WalEvent::Greeting => (
                WalState::Streaming,
                WalActions { resume: true, subscribe: has_pageserver, process: true, stop: false, error: false },
            ),
            _ => (WalState::Terminated, WalActions { error: true, ..no_actions() }),
        },
        WalState::Streaming => match ev {
            WalEvent::Greeting | WalEvent::Message => (
                WalState::Streaming,
                WalActions { process: true, ..no_actions() },
            ),
            WalEvent::Failed => (WalState::Terminated, WalActions { stop: true, error: true, ..no_actions() }),
            WalEvent::Closed => (WalState::Terminated, WalActions { stop: true, ..no_actions() }),
        },
        WalState::Terminated => (WalState::Terminated, no_actions()),
    }
}

pub struct WalReceiver {
    pub state: WalState,
    pub has_pageserver: bool,
}

impl WalReceiver {
    /// A session that waits for the greeting; `has_pageserver` says whether
    /// the compute node named a pageserver to subscribe.
    pub fn new(has_pageserver: bool) -> (r: Self)
        ensures
            r.state == WalState::AwaitGreeting,
            r.has_pageserver == has_pageserver,
    {
        WalReceiver { state: WalState::AwaitGreeting, has_pageserver }
    }

    pub fn on_event(&mut self, ev: WalEvent) -> (r: WalActions)
        ensures
            final(self).has_pageserver == old(self).has_pageserver,
            (final(self).state, r) == wal_next(old(self).state, old(self).has_pageserver, ev),
    {
        let none = WalActions { resume: false, subscribe: false, process: false, stop: false, error: false };
        match self.state {
            WalState::AwaitGreeting => match ev {
                WalEvent::Greeting => {
                    self.state = WalState::Streaming;
                    WalActions { resume: true, subscribe: self.has_pageserver, process: true, stop: false, error: false }
                },
                _ => {
                    self.state = WalState::Terminated;
                    WalActions { error: true, ..none }
                },
            },
            WalState::Streaming => match ev {
                WalEvent::Greeting | WalEvent::Message => WalActions { process: true, ..none },
                WalEvent::Failed => {
                    self.state = WalState::Terminated;
                    WalActions { stop: true, error: true, ..none }
                },
                WalEvent::Closed => {
                    self.state = WalState::Terminated;
                    WalActions { stop: true, ..none }
                },
            },
            WalState::Terminated => none,
        }
    }

    /// The session is being dropped (an early return or an unwind); returns
    /// whether `stop_streaming` must still run.
    pub fn abandon(&mut self) -> (stop: bool)
        ensures
            stop == (old(self).state == WalState::Streaming),
            final(self).state == WalState::Terminated,
            final(self).has_pageserver == old(self).has_pageserver,
    {
        let stop = self.state == WalState::Streaming;
        self.state = WalState::Terminated;
        stop
    }
}

/// The state after a run of events.
pub open spec fn wal_run(s: WalState, p: bool, evs: Seq<WalEvent>) -> WalState
    decreases evs.len(),
{
    if evs.len() == 0 {
        s
    } else {
        wal_run(wal_next(s, p, evs[0]).0, p, evs.drop_first())
    }
}

/// How many times a run of events calls `stop_streaming`, counting the
/// call made when the session is dropped.
pub open spec fn wal_stops(s: WalState, p: bool, evs: Seq<WalEvent>) -> nat
    decreases evs.len(),
{
    if evs.len() == 0 {
        if s == WalState::Streaming {
            1
        } else {
            0
        }
    } else {
        (if wal_next(s, p, evs[0]).1.stop {
            1nat
        } else {
            0nat
        }) + wal_stops(wal_next(s, p, evs[0]).0, p, evs.drop_first())
    }
}

/// A session is established when its first message is a greeting.
pub open spec fn established(evs: Seq<WalEvent>) -> bool {
    evs.len() > 0 && evs[0] == WalEvent::Greeting
}

proof fn lemma_stops_from(s: WalState, p: bool, evs: Seq<WalEvent>)
    ensures
        wal_stops(s, p, evs) == match s {
            WalState::Streaming => 1nat,
            WalState::Terminated => 0nat,
            WalState::AwaitGreeting => if established(evs) {
                1nat
            } else {
                0nat
            },
        },
    decreases evs.len(),
{
    if evs.len() > 0 {
        lemma_stops_from(wal_next(s, p, evs[0]).0, p, evs.drop_first());
    }
}

/// Whatever arrives and however the stream ends, `stop_streaming` runs
/// exactly once for an established session and never for one that was not.
pub proof fn lemma_stop_streaming_once(has_pageserver: bool, evs: Seq<WalEvent>)
    ensures
        wal_stops(WalState::AwaitGreeting, has_pageserver, evs) == if established(evs) {
            1nat
        } else {
            0nat
        },
{
    lemma_stops_from(WalState::AwaitGreeting, has_pageserver, evs);
}

} // verus!
