//! The outage-detection state machine.
//!
//! The monitor holds the current connectivity state and, while
//! disconnected, the instant the outage opened. Each tick consumes one
//! probe result and the current time, moves the state, and says what to
//! do: nothing, announce a loss, or persist a freshly closed record.

use vstd::prelude::*;
use crate::record::OutageRecord;
use crate::timestamp::Timestamp;

verus! {

/// In-memory connectivity state: `outage_start` is set exactly while
/// disconnected.
#[derive(Clone, Copy, PartialEq, Eq, Structural, Debug)]
pub struct MonitorState {
    pub is_connected: bool,
    pub outage_start: Option<Timestamp>,
}

/// What one tick asks its caller to do.
#[derive(Clone, Copy, PartialEq, Eq, Structural, Debug)]
pub enum TickEvent {
    /// The state did not change: nothing to announce, nothing to write.
    NoChange,
    /// Connectivity was just lost at the given instant.
    ConnectionLost { at: Timestamp },
    /// Connectivity just came back: persist this closed record.
    ConnectionRestored { record: OutageRecord },
}

impl MonitorState {
    /// The open-outage timestamp is held exactly while disconnected,
    /// and is a valid instant.
    pub open spec fn wf(self) -> bool {
        &&& self.is_connected <==> self.outage_start is None
        &&& match self.outage_start {
            Option::Some(t) => t.valid(),
            Option::None => true,
        }
    }

    /// The monitor starts optimistically connected, with no open outage.
    pub fn initial() -> (r: MonitorState)
        ensures
            r == spec_initial(),
    {
        MonitorState { is_connected: true, outage_start: Option::None }
    }

    /// One tick: consume a probe result at instant `now` and return the
    /// event the transition produces.
    pub fn tick(&mut self, probe_ok: bool, now: Timestamp) -> (ev: TickEvent)
        requires
            old(self).wf(),
            now.valid(),
        ensures
            final(self).wf(),
            (*final(self), ev) == spec_tick(*old(self), probe_ok, now),
    {
        if self.is_connected {
            if probe_ok {
                TickEvent::NoChange
            } else {
                self.is_connected = false;
                self.outage_start = Option::Some(now);
                TickEvent::ConnectionLost { at: now }
            }
        } else {
            if probe_ok {
                let start: Timestamp = match self.outage_start {
                    Option::Some(t) => t,
                    Option::None => now,
                };
                let record: OutageRecord = if start.epoch_seconds() <= now.epoch_seconds() {
                    OutageRecord::new(start, now)
                } else {
                    OutageRecord::new(start, start)
                };
                self.is_connected = true;
                self.outage_start = Option::None;
                TickEvent::ConnectionRestored { record }
            } else {
                TickEvent::NoChange
            }
        }
    }
}

/// The initial state: connected, no open outage.
pub open spec fn spec_initial() -> MonitorState {
    MonitorState { is_connected: true, outage_start: Option::None }
}

/// The record closed when a connection opened at `start` is restored at
/// `end`. A clock that stepped backwards across the outage clamps the
/// interval to zero length rather than persisting a negative duration.
pub open spec fn spec_close(start: Timestamp, end: Timestamp) -> OutageRecord {
    if start.spec_epoch_seconds() <= end.spec_epoch_seconds() {
        OutageRecord {
            start,
            end,
            duration_seconds: (end.spec_epoch_seconds() - start.spec_epoch_seconds()) as i64,
        }
    } else {
        OutageRecord { start, end: start, duration_seconds: 0 }
    }
}

/// The transition function: next state and emitted event for one tick.
pub open spec fn spec_tick(st: MonitorState, probe_ok: bool, now: Timestamp) -> (
    MonitorState,
    TickEvent,
) {
    if st.is_connected {
        if probe_ok {
            (st, TickEvent::NoChange)
        } else {
            (
                MonitorState { is_connected: false, outage_start: Option::Some(now) },
                TickEvent::ConnectionLost { at: now },
            )
        }
    } else {
        if probe_ok {
            let start = st.outage_start->Some_0;
            (
                MonitorState { is_connected: true, outage_start: Option::None },
                TickEvent::ConnectionRestored { record: spec_close(start, now) },
            )
        } else {
            (st, TickEvent::NoChange)
        }
    }
}

/// The state after running the monitor from `st` over a sequence of
/// (probe result, instant) ticks.
pub open spec fn run_state(st: MonitorState, ticks: Seq<(bool, Timestamp)>) -> MonitorState
    decreases ticks.len(),
{
    if ticks.len() == 0 {
        st
    } else {
        spec_tick(run_state(st, ticks.drop_last()), ticks.last().0, ticks.last().1).0
    }
}

/// The events emitted along that run, one per tick.
pub open spec fn run_events(st: MonitorState, ticks: Seq<(bool, Timestamp)>) -> Seq<TickEvent>
    decreases ticks.len(),
{
    if ticks.len() == 0 {
        Seq::empty()
    } else {
        run_events(st, ticks.drop_last()).push(
            spec_tick(run_state(st, ticks.drop_last()), ticks.last().0, ticks.last().1).1,
        )
    }
}

/// How many of the events announce a loss.
pub open spec fn count_lost(evs: Seq<TickEvent>) -> int
    decreases evs.len(),
{
    if evs.len() == 0 {
        0
    } else {
        count_lost(evs.drop_last()) + if evs.last() is ConnectionLost {
            1int
        } else {
            0int
        }
    }
}

/// How many of the events carry a record to persist.
pub open spec fn count_restored(evs: Seq<TickEvent>) -> int
    decreases evs.len(),
{
    if evs.len() == 0 {
        0
    } else {
        count_restored(evs.drop_last()) + if evs.last() is ConnectionRestored {
            1int
        } else {
            0int
        }
    }
}

/// Law: over any sequence of probe results, a loss is only ever
/// announced from the connected state and a record is only ever emitted
/// from the disconnected state, so losses and restorations alternate:
/// every emitted record closes exactly one announced loss, and at most
/// one loss is still open at the end.
pub proof fn lemma_one_record_per_loss(ticks: Seq<(bool, Timestamp)>)
    ensures
        ({
            let evs = run_events(spec_initial(), ticks);
            let st = run_state(spec_initial(), ticks);
            &&& evs.len() == ticks.len()
            &&& (forall|i: int|
                0 <= i < evs.len() && #[trigger] evs[i] is ConnectionLost ==> run_state(
                    spec_initial(),
                    ticks.take(i),
                ).is_connected)
            &&& (forall|i: int|
                0 <= i < evs.len() && #[trigger] evs[i] is ConnectionRestored ==> !run_state(
                    spec_initial(),
                    ticks.take(i),
                ).is_connected)
            &&& count_restored(evs) == count_lost(evs) - if st.is_connected {
                0int
            } else {
                1int
            }
        }),
    decreases ticks.len(),
{
    let evs = run_events(spec_initial(), ticks);
    if ticks.len() == 0 {
    } else {
        let prefix = ticks.drop_last();
        lemma_one_record_per_loss(prefix);
        assert(prefix =~= ticks.take(ticks.len() - 1));
        let pevs = run_events(spec_initial(), prefix);
        assert(evs.drop_last() =~= pevs);
        assert forall|i: int| 0 <= i < evs.len() && #[trigger] evs[i] is ConnectionLost
            implies run_state(spec_initial(), ticks.take(i)).is_connected by {
            if i < evs.len() - 1 {
                assert(pevs[i] is ConnectionLost);
                assert(prefix.take(i) =~= ticks.take(i));
            }
        }
        assert forall|i: int| 0 <= i < evs.len() && #[trigger] evs[i] is ConnectionRestored
            implies !run_state(spec_initial(), ticks.take(i)).is_connected by {
            if i < evs.len() - 1 {
                assert(pevs[i] is ConnectionRestored);
                assert(prefix.take(i) =~= ticks.take(i));
            }
        }
    }
}

} // verus!
