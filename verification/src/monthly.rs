//! Outages bucketed by the calendar year and month of their start
//! time, newest month first.

use vstd::prelude::*;
use vstd::pervasive::VecAdditionalExecFns;
use crate::record::OutageRecord;

verus! {

broadcast use vstd::seq_lib::group_to_multiset_ensures;

/// Count and summed duration of the outages that started in one
/// calendar month.
#[derive(Clone, Copy, PartialEq, Eq, Structural, Debug)]
pub struct MonthlyOutage {
    pub year: u16,
    pub month: u8,
    pub num_outages: u64,
    pub total_seconds: i128,
}

/// The record's start lies in the given calendar month.
pub open spec fn in_month(r: OutageRecord, year: int, month: int) -> bool {
    r.start.year == year && r.start.month == month
}

/// How many records of `s` start in the given month.
pub open spec fn month_count(s: Seq<OutageRecord>, year: int, month: int) -> int
    decreases s.len(),
{
    if s.len() == 0 {
        0
    } else {
        month_count(s.drop_last(), year, month) + if in_month(s.last(), year, month) {
            1int
        } else {
            0int
        }
    }
}

/// Summed duration of the records of `s` that start in the given month.
pub open spec fn month_total(s: Seq<OutageRecord>, year: int, month: int) -> int
    decreases s.len(),
{
    if s.len() == 0 {
        0
    } else {
        month_total(s.drop_last(), year, month) + if in_month(s.last(), year, month) {
            s.last().duration_seconds as int
        } else {
            0int
        }
    }
}

/// `g` is exactly the aggregate of its calendar month over `s`, and
/// that month is inhabited.
pub open spec fn group_matches(s: Seq<OutageRecord>, g: MonthlyOutage) -> bool {
    &&& g.num_outages as int == month_count(s, g.year as int, g.month as int)
    &&& g.total_seconds as int == month_total(s, g.year as int, g.month as int)
    &&& g.num_outages > 0
}

/// No calendar month appears twice.
pub open spec fn distinct_months(gs: Seq<MonthlyOutage>) -> bool {
    forall|a: int, b: int|
        0 <= a < b < gs.len() ==> !(gs[a].year == gs[b].year && gs[a].month == gs[b].month)
}

/// Some group carries the given calendar month.
pub open spec fn has_month(gs: Seq<MonthlyOutage>, year: int, month: int) -> bool {
    exists|k: int| 0 <= k < gs.len() && (#[trigger] gs[k]).year == year && gs[k].month == month
}

/// Every record's month has a group.
pub open spec fn covers(gs: Seq<MonthlyOutage>, s: Seq<OutageRecord>) -> bool {
    forall|i: int|
        0 <= i < s.len() ==> has_month(
            gs,
            (#[trigger] s[i]).start.year as int,
            s[i].start.month as int,
        )
}

/// A single integer that orders (year, month) lexicographically.
pub open spec fn month_key(g: MonthlyOutage) -> int {
    g.year * 256 + g.month
}

/// Newest calendar month first.
pub open spec fn sorted_by_month_desc(gs: Seq<MonthlyOutage>) -> bool {
    forall|a: int, b: int| 0 <= a < b < gs.len() ==> month_key(gs[a]) >= month_key(gs[b])
}

proof fn lemma_month_none(s: Seq<OutageRecord>, year: int, month: int)
    requires
        forall|j: int| 0 <= j < s.len() ==> !in_month(#[trigger] s[j], year, month),
    ensures
        month_count(s, year, month) == 0,
        month_total(s, year, month) == 0,
    decreases s.len(),
{
    if s.len() > 0 {
        lemma_month_none(s.drop_last(), year, month);
    }
}

proof fn lemma_month_bounds(s: Seq<OutageRecord>, year: int, month: int)
    ensures
        0 <= month_count(s, year, month) <= s.len(),
        -(s.len() as int) * 0x8000_0000_0000_0000 <= month_total(s, year, month) <= (
        s.len() as int) * 0x7fff_ffff_ffff_ffff,
    decreases s.len(),
{
    if s.len() > 0 {
        lemma_month_bounds(s.drop_last(), year, month);
    }
}

fn month_key_exec(g: &MonthlyOutage) -> (r: u32)
    ensures
        r as int == month_key(*g),
{
    (g.year as u32) * 256 + (g.month as u32)
}

/// Group the records by the calendar month of their start time:
/// one aggregate per inhabited month, every record's month present,
/// newest month first.
pub fn query_monthly(records: &Vec<OutageRecord>) -> (r: Vec<MonthlyOutage>)
    ensures
        forall|k: int| 0 <= k < r@.len() ==> group_matches(records@, #[trigger] r@[k]),
        distinct_months(r@),
        covers(r@, records@),
        sorted_by_month_desc(r@),
{
    let mut groups: Vec<MonthlyOutage> = Vec::new();
    let mut i: usize = 0;
    while i < records.len()
        invariant
            i <= records@.len(),
            forall|k: int|
                0 <= k < groups@.len() ==> group_matches(
                    records@.take(i as int),
                    #[trigger] groups@[k],
                ),
            distinct_months(groups@),
            covers(groups@, records@.take(i as int)),
        decreases records@.len() - i,
    {
        let rec = records[i];
        let d: i64 = rec.duration_seconds;
        let mut k: usize = 0;
        while k < groups.len() && !(groups[k].year == rec.start.year && groups[k].month
            == rec.start.month)
            invariant
                k <= groups@.len(),
                forall|a: int|
                    0 <= a < k ==> !((#[trigger] groups@[a]).year == rec.start.year
                        && groups@[a].month == rec.start.month),
            decreases groups@.len() - k,
        {
            k = k + 1;
        }
        proof {
            assert(records@.take(i + 1).drop_last() =~= records@.take(i as int));
            assert(records@.take(i + 1).last() == records@[i as int]);
            lemma_month_bounds(records@.take(i as int), rec.start.year as int,
                rec.start.month as int);
        }
        let ghost prev = groups@;
        if k < groups.len() {
            let g = groups[k];
            groups.set(
                k,
                MonthlyOutage {
                    year: g.year,
                    month: g.month,
                    num_outages: g.num_outages + 1,
                    total_seconds: g.total_seconds + d as i128,
                },
            );
            proof {
                assert forall|k2: int| 0 <= k2 < groups@.len() implies group_matches(
                    records@.take(i + 1),
                    #[trigger] groups@[k2],
                ) by {
                    if k2 != k {
                        assert(groups@[k2] == prev[k2]);
                        assert(!in_month(records@[i as int], prev[k2].year as int,
                            prev[k2].month as int));
                    }
                }
                assert forall|a: int, b: int|
                    0 <= a < b < groups@.len() implies !(#[trigger] groups@[a].year
                    == #[trigger] groups@[b].year && groups@[a].month == groups@[b].month) by {
                    assert(groups@[a].year == prev[a].year && groups@[a].month == prev[a].month);
                    assert(groups@[b].year == prev[b].year && groups@[b].month == prev[b].month);
                }
                assert(distinct_months(groups@));
            }
        } else {
            proof {
                assert forall|j: int|
                    0 <= j < records@.take(i as int).len() implies !in_month(
                    #[trigger] records@.take(i as int)[j],
                    rec.start.year as int,
                    rec.start.month as int,
                ) by {
                    if in_month(records@.take(i as int)[j], rec.start.year as int,
                        rec.start.month as int) {
                        assert(has_month(prev, rec.start.year as int, rec.start.month as int));
                        let k2 = choose|k2: int|
                            0 <= k2 < prev.len() && (#[trigger] prev[k2]).year
                                == rec.start.year as int && prev[k2].month
                                == rec.start.month as int;
                        assert(false);
                    }
                }
                lemma_month_none(records@.take(i as int), rec.start.year as int,
                    rec.start.month as int);
            }
            groups.push(
                MonthlyOutage {
                    year: rec.start.year,
                    month: rec.start.month,
                    num_outages: 1,
                    total_seconds: d as i128,
                },
            );
            proof {
                assert forall|a: int, b: int|
                    0 <= a < b < groups@.len() implies !(#[trigger] groups@[a].year
                    == #[trigger] groups@[b].year && groups@[a].month == groups@[b].month) by {
                    if b < prev.len() {
                        assert(groups@[a] == prev[a] && groups@[b] == prev[b]);
                    } else {
                        assert(groups@[a] == prev[a]);
                        assert(groups@[b].year == rec.start.year && groups@[b].month
                            == rec.start.month);
                    }
                }
                assert(distinct_months(groups@));
            }
        }
        proof {
            assert(groups@[k as int].year == rec.start.year && groups@[k as int].month
                == rec.start.month);
            assert(forall|k2: int|
                0 <= k2 < prev.len() ==> (#[trigger] groups@[k2]).year == prev[k2].year
                    && groups@[k2].month == prev[k2].month);
            assert forall|i2: int| 0 <= i2 < i + 1 implies has_month(
                groups@,
                (#[trigger] records@.take(i + 1)[i2]).start.year as int,
                records@.take(i + 1)[i2].start.month as int,
            ) by {
                if i2 < i {
                    assert(records@.take(i + 1)[i2] == records@.take(i as int)[i2]);
                    let y = records@.take(i as int)[i2].start.year as int;
                    let m = records@.take(i as int)[i2].start.month as int;
                    assert(has_month(prev, y, m));
                    let k0 = choose|k2: int|
                        0 <= k2 < prev.len() && (#[trigger] prev[k2]).year == y && prev[k2].month
                            == m;
                    assert(groups@[k0].year == y && groups@[k0].month == m);
                } else {
                    assert(records@.take(i + 1)[i2] == records@[i as int]);
                    assert(groups@[k as int].year == records@[i as int].start.year as int
                        && groups@[k as int].month == records@[i as int].start.month as int);
                }
            }
            assert(covers(groups@, records@.take(i + 1)));
        }
        i = i + 1;
    }
    proof {
        assert(records@.take(records@.len() as int) =~= records@);
    }
    sort_groups_desc(groups, Ghost(records@))
}

/// Order the groups newest month first, keeping every aggregate.
fn sort_groups_desc(groups: Vec<MonthlyOutage>, Ghost(records): Ghost<Seq<OutageRecord>>) -> (r:
    Vec<MonthlyOutage>)
    requires
        forall|k: int| 0 <= k < groups@.len() ==> group_matches(records, #[trigger] groups@[k]),
        distinct_months(groups@),
        covers(groups@, records),
    ensures
        forall|k: int| 0 <= k < r@.len() ==> group_matches(records, #[trigger] r@[k]),
        distinct_months(r@),
        covers(r@, records),
        sorted_by_month_desc(r@),
{
    let mut out: Vec<MonthlyOutage> = Vec::new();
    let mut i: usize = 0;
    while i < groups.len()
        invariant
            i <= groups@.len(),
            out@.len() == i,
            out@.to_multiset() == groups@.take(i as int).to_multiset(),
            sorted_by_month_desc(out@),
            forall|k: int| 0 <= k < groups@.len() ==> group_matches(records, #[trigger] groups@[k]),
            distinct_months(groups@),
            forall|k: int| 0 <= k < out@.len() ==> groups@.contains(#[trigger] out@[k]),
        decreases groups@.len() - i,
    {
        let x = groups[i];
        let mut k: usize = 0;
        while k < out.len() && month_key_exec(&out[k]) >= month_key_exec(&x)
            invariant
                k <= out@.len(),
                forall|a: int| 0 <= a < k ==> month_key(#[trigger] out@[a]) >= month_key(x),
            decreases out@.len() - k,
        {
            k = k + 1;
        }
        let ghost prev = out@;
        out.insert(k, x);
        proof {
            assert(groups@.take(i + 1) =~= groups@.take(i as int).push(groups@[i as int]));
            assert forall|a: int, b: int|
                0 <= a < b < out@.len() implies month_key(out@[a]) >= month_key(out@[b]) by {
                if b < k {
                    assert(out@[a] == prev[a] && out@[b] == prev[b]);
                } else if a > k {
                    assert(out@[a] == prev[a - 1] && out@[b] == prev[b - 1]);
                } else if a == k {
                    assert(out@[a] == x && out@[b] == prev[b - 1]);
                    assert(month_key(prev[k as int]) < month_key(x));
                } else if b == k {
                    assert(out@[a] == prev[a] && out@[b] == x);
                } else {
                    assert(out@[a] == prev[a] && out@[b] == prev[b - 1]);
                    if b - 1 == k {
                        assert(month_key(prev[k as int]) < month_key(x));
                    }
                }
            }
            assert forall|k2: int| 0 <= k2 < out@.len() implies groups@.contains(
                #[trigger] out@[k2],
            ) by {
                if k2 < k {
                    assert(out@[k2] == prev[k2]);
                } else if k2 == k {
                    assert(out@[k2] == groups@[i as int]);
                } else {
                    assert(out@[k2] == prev[k2 - 1]);
                }
            }
        }
        i = i + 1;
    }
    proof {
        assert(groups@.take(groups@.len() as int) =~= groups@);
        assert forall|k: int| 0 <= k < out@.len() implies group_matches(
            records,
            #[trigger] out@[k],
        ) by {
            assert(groups@.contains(out@[k]));
        }
        assert forall|a: int, b: int|
            0 <= a < b < out@.len() implies !(out@[a].year == out@[b].year && out@[a].month
            == out@[b].month) by {
            if out@[a].year == out@[b].year && out@[a].month == out@[b].month {
                if out@[a] == out@[b] {
                    assert(groups@.no_duplicates()) by {
                        assert forall|c: int, e: int|
                            0 <= c < groups@.len() && 0 <= e < groups@.len() && c != e
                            implies groups@[c] != groups@[e] by {
                            if c < e {
                                assert(!(groups@[c].year == groups@[e].year && groups@[c].month
                                    == groups@[e].month));
                            } else {
                                assert(!(groups@[e].year == groups@[c].year && groups@[e].month
                                    == groups@[c].month));
                            }
                        }
                    }
                    groups@.lemma_multiset_has_no_duplicates();
                    assert(out@.to_multiset() == groups@.to_multiset());
                    out@.lemma_multiset_has_no_duplicates_conv();
                } else {
                    assert(groups@.contains(out@[a]) && groups@.contains(out@[b]));
                    let ja = choose|j: int| 0 <= j < groups@.len() && groups@[j] == out@[a];
                    let jb = choose|j: int| 0 <= j < groups@.len() && groups@[j] == out@[b];
                    assert(ja != jb);
                    if ja < jb {
                        assert(!(groups@[ja].year == groups@[jb].year && groups@[ja].month
                            == groups@[jb].month));
                    } else {
                        assert(!(groups@[jb].year == groups@[ja].year && groups@[jb].month
                            == groups@[ja].month));
                    }
                }
            }
        }
        assert(distinct_months(out@));
        assert forall|i2: int| 0 <= i2 < records.len() implies has_month(
            out@,
            (#[trigger] records[i2]).start.year as int,
            records[i2].start.month as int,
        ) by {
            let y = records[i2].start.year as int;
            let m = records[i2].start.month as int;
            assert(has_month(groups@, y, m));
            let k0 = choose|k: int|
                0 <= k < groups@.len() && (#[trigger] groups@[k]).year == y && groups@[k].month
                    == m;
            assert(out@.to_multiset() == groups@.to_multiset());
            assert(groups@.contains(groups@[k0]));
            assert(groups@.to_multiset().count(groups@[k0]) > 0);
            assert(out@.contains(groups@[k0]));
            let k1 = choose|k: int| 0 <= k < out@.len() && out@[k] == groups@[k0];
            assert(out@[k1].year == y && out@[k1].month == m);
        }
        assert(covers(out@, records));
    }
    out
}

} // verus!
