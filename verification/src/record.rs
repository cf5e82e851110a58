//! A closed outage interval: when connectivity was lost, when it came
//! back, and how long that took in whole seconds.

use vstd::prelude::*;
use crate::timestamp::Timestamp;

verus! {

/// One persisted outage: a maximal closed interval during which the
/// monitored endpoint was judged unreachable.
#[derive(Clone, Copy, PartialEq, Eq, Structural, Debug)]
pub struct OutageRecord {
    pub start: Timestamp,
    pub end: Timestamp,
    pub duration_seconds: i64,
}

impl OutageRecord {
    /// Both instants are valid, the interval does not run backwards,
    /// and the stored duration is exactly the difference of the two
    /// instants in whole seconds.
    pub open spec fn valid(self) -> bool {
        &&& self.start.valid()
        &&& self.end.valid()
        &&& self.start.spec_epoch_seconds() <= self.end.spec_epoch_seconds()
        &&& self.duration_seconds as int == self.end.spec_epoch_seconds()
            - self.start.spec_epoch_seconds()
    }

    /// Build a record from its closed interval, computing the duration.
    pub fn new(start: Timestamp, end: Timestamp) -> (r: OutageRecord)
        requires
            start.valid(),
            end.valid(),
            start.spec_epoch_seconds() <= end.spec_epoch_seconds(),
        ensures
            r.valid(),
            r.start == start,
            r.end == end,
    {
        let duration_seconds: i64 = end.epoch_seconds() - start.epoch_seconds();
        OutageRecord { start, end, duration_seconds }
    }
}

} // verus!
