//! The `push` copy-in session: each `CopyData` carries one modification that
//! is applied to the new timeline; on `CopyDone` the timeline's last valid
//! LSN is advanced to the highest LSN that the stream carried.
use vstd::prelude::*;
use crate::lsn::Lsn;

verus! {

/// What the client sent, with a modification reduced to its LSN.
#[derive(Clone, Copy, Debug, PartialEq, Eq, Structural)]
pub enum PushEvent {
    Data(Lsn),
    Done,
    Sync,
    /// Any other message: the session fails.
    Other,
}

/// What to do with the event.
#[derive(Clone, Copy, Debug, PartialEq, Eq, Structural)]
pub enum PushAction {
    /// Apply the modification at this LSN.
    Apply(Lsn),
    /// Advance the timeline's last valid LSN to this one; the session ends.
    Advance(Lsn),
    Ignore,
    Fail,
}

pub struct PushSession {
    pub last_lsn: Lsn,
}

pub open spec fn max_u64(a: u64, b: u64) -> u64 {
    if a >= b {
        a
    } else {
        b
    }
}

/// The highest LSN seen and the action, after one event.
pub open spec fn push_next(last: u64, ev: PushEvent) -> (u64, PushAction) {
    match ev {
        PushEvent::Data(l) => (max_u64(last, l.0), PushAction::Apply(l)),
        PushEvent::Done => (last, PushAction::Advance(Lsn(last))),
        PushEvent::Sync => (last, PushAction::Ignore),
        PushEvent::Other => (last, PushAction::Fail),
    }
}

/// The highest LSN seen after a run of events.
pub open spec fn push_run(last: u64, evs: Seq<PushEvent>) -> u64
    decreases evs.len(),
{
    if evs.len() == 0 {
        last
    } else {
        push_run(push_next(last, evs[0]).0, evs.drop_first())
    }
}

/// The highest LSN among the modifications of a stream, 0 if none.
pub open spec fn data_max(evs: Seq<PushEvent>) -> u64
    decreases evs.len(),
{
    if evs.len() == 0 {
        0
    } else {
        match evs[0] {
            PushEvent::Data(l) => max_u64(l.0, data_max(evs.drop_first())),
            _ => data_max(evs.drop_first()),
        }
    }
}

impl PushSession {
    pub fn new() -> (r: Self)
        ensures
            r.last_lsn.0 == 0,
    {
        PushSession { last_lsn: Lsn(0) }
    }

    /// Decides what to do with one client message.
    pub fn on_event(&mut self, ev: PushEvent) -> (r: PushAction)
        ensures
            (final(self).last_lsn.0, r) == push_next(old(self).last_lsn.0, ev),
    {
        match ev {
            PushEvent::Data(l) => {
                if l.0 > self.last_lsn.0 {
                    self.last_lsn = l;
                }
                PushAction::Apply(l)
            },
            PushEvent::Done => PushAction::Advance(self.last_lsn),
            PushEvent::Sync => PushAction::Ignore,
            PushEvent::Other => PushAction::Fail,
        }
    }
}

proof fn lemma_push_run_max(last: u64, evs: Seq<PushEvent>)
    ensures
        push_run(last, evs) == max_u64(last, data_max(evs)),
    decreases evs.len(),
{
    if evs.len() > 0 {
        lemma_push_run_max(push_next(last, evs[0]).0, evs.drop_first());
    }
}

/// A fresh push session that receives modifications (and `Sync`s) and then
/// `CopyDone` advances the timeline to the highest LSN among them.
pub proof fn lemma_push_advances_to_max(evs: Seq<PushEvent>)
    requires
        forall|i: int| 0 <= i < evs.len() ==> (#[trigger] evs[i] is Data || evs[i] is Sync),
    ensures
        push_next(push_run(0, evs), PushEvent::Done).1 == PushAction::Advance(Lsn(data_max(evs))),
{
    lemma_push_run_max(0, evs);
}

} // verus!
