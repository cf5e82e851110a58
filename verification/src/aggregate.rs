//! Read-only queries over the recorded history: summary statistics,
//! recent-first listings, chronological listings.

use vstd::prelude::*;
use crate::record::OutageRecord;

verus! {

broadcast use vstd::seq_lib::group_to_multiset_ensures;

/// Sum of the stored durations of all records.
pub open spec fn sum_durations(s: Seq<OutageRecord>) -> int
    decreases s.len(),
{
    if s.len() == 0 {
        0
    } else {
        sum_durations(s.drop_last()) + s.last().duration_seconds
    }
}

/// Longest stored duration; 0 when there are no records.
pub open spec fn max_duration(s: Seq<OutageRecord>) -> int
    decreases s.len(),
{
    if s.len() == 0 {
        0
    } else if s.len() == 1 {
        s.last().duration_seconds as int
    } else if s.last().duration_seconds >= max_duration(s.drop_last()) {
        s.last().duration_seconds as int
    } else {
        max_duration(s.drop_last())
    }
}

/// Shortest stored duration; 0 when there are no records.
pub open spec fn min_duration(s: Seq<OutageRecord>) -> int
    decreases s.len(),
{
    if s.len() == 0 {
        0
    } else if s.len() == 1 {
        s.last().duration_seconds as int
    } else if s.last().duration_seconds <= min_duration(s.drop_last()) {
        s.last().duration_seconds as int
    } else {
        min_duration(s.drop_last())
    }
}

/// The average in whole milliseconds, truncated toward zero; 0 when
/// there are no records.
pub open spec fn avg_milli(total: int, count: int) -> int {
    if count <= 0 {
        0
    } else if total >= 0 {
        (total * 1000) / count
    } else {
        -(((-total) * 1000) / count)
    }
}

/// Aggregate statistics over the whole ledger, computed freshly per
/// query and never stored.
#[derive(Clone, Copy, PartialEq, Eq, Structural, Debug)]
pub struct OutageStats {
    pub total_outages: u64,
    pub total_duration: i128,
    /// Average outage duration in milliseconds, truncated toward zero.
    pub average_duration_milli: i128,
    pub longest_outage: i64,
    pub shortest_outage: i64,
}

proof fn lemma_sum_bound(s: Seq<OutageRecord>)
    ensures
        -(s.len() as int) * 0x8000_0000_0000_0000 <= sum_durations(s) <= (s.len() as int)
            * 0x7fff_ffff_ffff_ffff,
    decreases s.len(),
{
    if s.len() > 0 {
        lemma_sum_bound(s.drop_last());
    }
}

/// Count, total, average, longest and shortest over all records. On an
/// empty ledger every aggregate is zero.
pub fn compute_stats(records: &Vec<OutageRecord>) -> (r: OutageStats)
    ensures
        r.total_outages as int == records@.len(),
        r.total_duration as int == sum_durations(records@),
        r.average_duration_milli as int == avg_milli(sum_durations(records@), records@.len() as int),
        r.longest_outage as int == max_duration(records@),
        r.shortest_outage as int == min_duration(records@),
{
    let mut total: i128 = 0;
    let mut longest: i64 = 0;
    let mut shortest: i64 = 0;
    let mut i: usize = 0;
    while i < records.len()
        invariant
            i <= records@.len(),
            total as int == sum_durations(records@.take(i as int)),
            -(i as int) * 0x8000_0000_0000_0000 <= total as int <= (i as int)
                * 0x7fff_ffff_ffff_ffff,
            longest as int == max_duration(records@.take(i as int)),
            shortest as int == min_duration(records@.take(i as int)),
        decreases records@.len() - i,
    {
        let d: i64 = records[i].duration_seconds;
        proof {
            assert(records@.take(i + 1).drop_last() =~= records@.take(i as int));
            assert(records@.take(i + 1).last() == records@[i as int]);
        }
        total = total + d as i128;
        if i == 0 {
            longest = d;
            shortest = d;
        } else {
            if d > longest {
                longest = d;
            }
            if d < shortest {
                shortest = d;
            }
        }
        i = i + 1;
    }
    proof {
        assert(records@.take(records@.len() as int) =~= records@);
    }
    let average_duration_milli: i128 = average_milli_of(total, records.len() as u64);
    OutageStats {
        total_outages: records.len() as u64,
        total_duration: total,
        average_duration_milli,
        longest_outage: longest,
        shortest_outage: shortest,
    }
}

/// The truncated-toward-zero average, `total` over `count`, in
/// milliseconds.
fn average_milli_of(total: i128, count: u64) -> (r: i128)
    requires
        -(count as int) * 0x8000_0000_0000_0000 <= total as int <= (count as int)
            * 0x7fff_ffff_ffff_ffff,
    ensures
        r as int == avg_milli(total as int, count as int),
{
    if count == 0 {
        return 0;
    }
    let cnt: u128 = count as u128;
    let mag: u128 = if total >= 0 {
        total as u128
    } else {
        (-total) as u128
    };
    let q: u128 = mag / cnt;
    let rem: u128 = mag % cnt;
    proof {
        assert(mag as int == q as int * cnt as int + rem as int) by (nonlinear_arith)
            requires
                cnt > 0,
                q as int == mag as int / cnt as int,
                rem as int == mag as int % cnt as int,
        ;
        assert(q as int <= 0x8000_0000_0000_0000) by (nonlinear_arith)
            requires
                mag as int <= cnt as int * 0x8000_0000_0000_0000,
                cnt > 0,
                q as int == mag as int / cnt as int,
        ;
        assert(mag as int * 1000 / cnt as int == q as int * 1000 + rem as int * 1000 / cnt as int)
            by (nonlinear_arith)
            requires
                cnt > 0,
                mag as int == q as int * cnt as int + rem as int,
                (rem as int) < (cnt as int),
                0 <= rem,
                0 <= q,
        ;
    }
    let milli: u128 = q * 1000 + rem * 1000 / cnt;
    if total >= 0 {
        milli as i128
    } else {
        -(milli as i128)
    }
}

/// Every record's start instant is a valid timestamp.
pub open spec fn all_starts_valid(s: Seq<OutageRecord>) -> bool {
    forall|i: int| 0 <= i < s.len() ==> (#[trigger] s[i]).start.valid()
}

/// Chronological: start instants never decrease.
pub open spec fn sorted_by_start_asc(s: Seq<OutageRecord>) -> bool {
    forall|i: int, j: int|
        0 <= i < j < s.len() ==> s[i].start.spec_epoch_seconds()
            <= s[j].start.spec_epoch_seconds()
}

/// Newest first: start instants never increase.
pub open spec fn sorted_by_start_desc(s: Seq<OutageRecord>) -> bool {
    forall|i: int, j: int|
        0 <= i < j < s.len() ==> s[i].start.spec_epoch_seconds()
            >= s[j].start.spec_epoch_seconds()
}

/// The full ledger ordered ascending by start instant — the export
/// listing. The result is a permutation of the input.
pub fn query_all_ordered(records: &Vec<OutageRecord>) -> (r: Vec<OutageRecord>)
    requires
        all_starts_valid(records@),
    ensures
        r@.len() == records@.len(),
        r@.to_multiset() == records@.to_multiset(),
        sorted_by_start_asc(r@),
        all_starts_valid(r@),
{
    let mut out: Vec<OutageRecord> = Vec::new();
    let mut i: usize = 0;
    while i < records.len()
        invariant
            i <= records@.len(),
            all_starts_valid(records@),
            out@.len() == i,
            out@.to_multiset() == records@.take(i as int).to_multiset(),
            sorted_by_start_asc(out@),
            all_starts_valid(out@),
        decreases records@.len() - i,
    {
        let x = records[i];
        let mut k: usize = 0;
        while k < out.len() && out[k].start.epoch_seconds() <= x.start.epoch_seconds()
            invariant
                k <= out@.len(),
                x.start.valid(),
                all_starts_valid(out@),
                forall|a: int|
                    0 <= a < k ==> out@[a].start.spec_epoch_seconds()
                        <= x.start.spec_epoch_seconds(),
            decreases out@.len() - k,
        {
            k = k + 1;
        }
        let ghost prev = out@;
        out.insert(k, x);
        proof {
            assert(records@.take(i + 1) =~= records@.take(i as int).push(records@[i as int]));
            assert forall|a: int, b: int|
                0 <= a < b < out@.len() implies out@[a].start.spec_epoch_seconds()
                <= out@[b].start.spec_epoch_seconds() by {
                if b < k {
                    assert(out@[a] == prev[a] && out@[b] == prev[b]);
                } else if a > k {
                    assert(out@[a] == prev[a - 1] && out@[b] == prev[b - 1]);
                } else if a == k {
                    assert(out@[a] == x && out@[b] == prev[b - 1]);
                    assert(prev[k as int].start.spec_epoch_seconds()
                        > x.start.spec_epoch_seconds());
                } else if b == k {
                    assert(out@[a] == prev[a] && out@[b] == x);
                } else {
                    assert(out@[a] == prev[a] && out@[b] == prev[b - 1]);
                    if b - 1 == k {
                        assert(prev[k as int].start.spec_epoch_seconds()
                            > x.start.spec_epoch_seconds());
                    }
                }
            }
        }
        i = i + 1;
    }
    proof {
        assert(records@.take(records@.len() as int) =~= records@);
    }
    out
}

/// The `limit` most recent records, newest first: a prefix of some
/// full newest-first ordering of the whole input. A `limit` of zero
/// yields an empty listing.
pub fn query_recent(records: &Vec<OutageRecord>, limit: usize) -> (r: Vec<OutageRecord>)
    requires
        all_starts_valid(records@),
    ensures
        r@.len() == if limit < records@.len() {
            limit as int
        } else {
            records@.len() as int
        },
        sorted_by_start_desc(r@),
        all_starts_valid(r@),
        exists|full: Seq<OutageRecord>|
            {
                &&& full.to_multiset() == records@.to_multiset()
                &&& full.len() == records@.len()
                &&& sorted_by_start_desc(full)
                &&& r@ == full.take(r@.len() as int)
            },
{
    let asc = query_all_ordered(records);
    let mut desc: Vec<OutageRecord> = Vec::new();
    let mut j: usize = asc.len();
    while j > 0
        invariant
            j <= asc@.len(),
            desc@.len() == asc@.len() - j,
            forall|a: int| 0 <= a < desc@.len() ==> desc@[a] == asc@[asc@.len() - 1 - a],
        decreases j,
    {
        j = j - 1;
        desc.push(asc[j]);
    }
    proof {
        assert(desc@ =~= asc@.reverse());
        asc@.lemma_reverse_to_multiset();
    }
    let ghost full = desc@;
    let mut r = desc;
    if limit < r.len() {
        r.truncate(limit);
    }
    proof {
        assert forall|a: int, b: int|
            0 <= a < b < full.len() implies full[a].start.spec_epoch_seconds()
            >= full[b].start.spec_epoch_seconds() by {
            assert(full[a] == asc@[asc@.len() - 1 - a]);
            assert(full[b] == asc@[asc@.len() - 1 - b]);
        }
        assert(full.to_multiset() =~= records@.to_multiset());
        assert forall|a: int| 0 <= a < full.len() implies (#[trigger] full[a]).start.valid() by {
            assert(full[a] == asc@[asc@.len() - 1 - a]);
        }
        assert(r@ =~= full.take(r@.len() as int));
        assert(sorted_by_start_desc(r@));
        assert(all_starts_valid(r@));
        assert(exists|f: Seq<OutageRecord>|
            {
                &&& f.to_multiset() == records@.to_multiset()
                &&& f.len() == records@.len()
                &&& sorted_by_start_desc(f)
                &&& r@ == f.take(r@.len() as int)
            }) by {
            assert({
                &&& full.to_multiset() == records@.to_multiset()
                &&& full.len() == records@.len()
                &&& sorted_by_start_desc(full)
                &&& r@ == full.take(r@.len() as int)
            });
        }
    }
    r
}

} // verus!
