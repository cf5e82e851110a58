//! Money and percentage impact of the recorded downtime, month by
//! month, in exact fixed-point arithmetic.
//!
//! The monthly rate comes in milli-units of currency (one thousandth
//! of a unit); derived amounts are in micro-units (one millionth), and
//! percentages in millionths of a percent, each the true quotient
//! rounded down.

use vstd::prelude::*;
use crate::calendar::{spec_days_in_month, days_in_month};
use crate::monthly::MonthlyOutage;

verus! {

/// Largest outage-seconds total a month may carry into the cost
/// computation; keeps every product inside u128.
pub const MAX_COST_SECONDS: i128 = 1_000_000_000_000_000;

/// Largest accepted monthly rate, in milli-units.
pub const MAX_RATE_MILLI: u64 = 1_000_000_000_000;

/// Largest representable rolled-up cost, in micro-units.
pub const MAX_TOTAL_COST_MICRO: u128 = 10_000_000_000_000_000_000_000_000_000_000_000;

/// The month's fields are in range for the cost formulas.
pub open spec fn month_ok(g: MonthlyOutage) -> bool {
    &&& 1 <= g.month <= 12
    &&& 0 <= g.total_seconds <= MAX_COST_SECONDS
}

/// Seconds in the month: its day count times 86400.
pub open spec fn spec_seconds_in_month(year: int, month: int) -> int {
    spec_days_in_month(year, month) * 86400
}

/// Downtime percentage in millionths of a percent, rounded down:
/// outage seconds over month seconds, times one hundred.
pub open spec fn spec_downtime_micro_percent(g: MonthlyOutage) -> int {
    g.total_seconds * 100_000_000 / spec_seconds_in_month(g.year as int, g.month as int)
}

/// Prorated cost in micro-units, rounded down: outage seconds over
/// month seconds, times the monthly rate.
pub open spec fn spec_cost_micro(g: MonthlyOutage, rate_milli: u64) -> int {
    g.total_seconds * rate_milli * 1000 / spec_seconds_in_month(g.year as int, g.month as int)
}

/// The effective hourly rate in micro-units, rounded down: the monthly
/// rate over the month's hours.
pub open spec fn spec_hourly_rate_micro(year: int, month: int, rate_milli: u64) -> int {
    rate_milli * 1000 / (spec_days_in_month(year, month) * 24)
}

/// One month's cost line: the aggregate it came from plus the three
/// derived fixed-point figures.
#[derive(Clone, Copy, PartialEq, Eq, Structural, Debug)]
pub struct MonthCost {
    pub year: u16,
    pub month: u8,
    pub num_outages: u64,
    pub total_seconds: i128,
    /// Millionths of a percent of the month spent in outage.
    pub downtime_micro_percent: u128,
    /// Prorated cost of the downtime, in micro-units of currency.
    pub cost_micro: u128,
    /// The monthly rate as an hourly rate, in micro-units of currency.
    pub hourly_rate_micro: u128,
}

/// What `month_cost` computes for a month in range.
pub open spec fn spec_month_cost(g: MonthlyOutage, rate_milli: u64) -> MonthCost {
    MonthCost {
        year: g.year,
        month: g.month,
        num_outages: g.num_outages,
        total_seconds: g.total_seconds,
        downtime_micro_percent: spec_downtime_micro_percent(g) as u128,
        cost_micro: spec_cost_micro(g, rate_milli) as u128,
        hourly_rate_micro: spec_hourly_rate_micro(g.year as int, g.month as int,
            rate_milli) as u128,
    }
}

/// Derive one month's cost line. Returns `None` exactly when the month
/// or the rate is out of range for the fixed-point formulas.
pub fn month_cost(g: &MonthlyOutage, rate_milli: u64) -> (r: Option<MonthCost>)
    ensures
        match r {
            Option::Some(c) => month_ok(*g) && rate_milli <= MAX_RATE_MILLI && c
                == spec_month_cost(*g, rate_milli),
            Option::None => !(month_ok(*g) && rate_milli <= MAX_RATE_MILLI),
        },
{
    if !(1 <= g.month && g.month <= 12 && 0 <= g.total_seconds && g.total_seconds
        <= MAX_COST_SECONDS && rate_milli <= MAX_RATE_MILLI) {
        return Option::None;
    }
    let dim: u8 = days_in_month(g.year, g.month);
    let sim: u64 = (dim as u64) * 86400;
    let ts: u128 = g.total_seconds as u128;
    proof {
        assert(ts as int * (rate_milli as int) <= 1_000_000_000_000_000 * 1_000_000_000_000)
            by (nonlinear_arith)
            requires
                ts as int <= 1_000_000_000_000_000,
                rate_milli as int <= 1_000_000_000_000,
                0 <= ts as int,
                0 <= rate_milli as int,
        ;
    }
    let downtime_micro_percent: u128 = ts * 100_000_000 / (sim as u128);
    let cost_micro: u128 = ts * (rate_milli as u128) * 1000 / (sim as u128);
    let hourly_rate_micro: u128 = (rate_milli as u128) * 1000 / ((dim as u128) * 24);
    Option::Some(
        MonthCost {
            year: g.year,
            month: g.month,
            num_outages: g.num_outages,
            total_seconds: g.total_seconds,
            downtime_micro_percent,
            cost_micro,
            hourly_rate_micro,
        },
    )
}

/// Every month is in range for the cost formulas.
pub open spec fn all_months_ok(ms: Seq<MonthlyOutage>) -> bool {
    forall|i: int| 0 <= i < ms.len() ==> month_ok(#[trigger] ms[i])
}

/// Summed prorated cost of all months, in micro-units.
pub open spec fn spec_total_cost(ms: Seq<MonthlyOutage>, rate_milli: u64) -> int
    decreases ms.len(),
{
    if ms.len() == 0 {
        0
    } else {
        spec_total_cost(ms.drop_last(), rate_milli) + spec_cost_micro(ms.last(), rate_milli)
    }
}

/// Summed outage seconds of all months.
pub open spec fn spec_total_seconds(ms: Seq<MonthlyOutage>) -> int
    decreases ms.len(),
{
    if ms.len() == 0 {
        0
    } else {
        spec_total_seconds(ms.drop_last()) + ms.last().total_seconds
    }
}

proof fn lemma_cost_micro_bounds(g: MonthlyOutage, rate_milli: u64)
    requires
        month_ok(g),
        rate_milli <= MAX_RATE_MILLI,
    ensures
        0 <= spec_cost_micro(g, rate_milli) <= 1_000_000_000_000_000_000_000_000_000_000,
{
    let sim = spec_seconds_in_month(g.year as int, g.month as int);
    assert(sim >= 86400);
    let num = g.total_seconds * rate_milli * 1000;
    assert(g.total_seconds * rate_milli <= 1_000_000_000_000_000 * 1_000_000_000_000)
        by (nonlinear_arith)
        requires
            g.total_seconds <= 1_000_000_000_000_000,
            rate_milli as int <= 1_000_000_000_000,
            0 <= g.total_seconds,
            0 <= rate_milli as int,
    ;
    assert(0 <= g.total_seconds * rate_milli) by (nonlinear_arith)
        requires
            0 <= g.total_seconds,
            0 <= rate_milli as int,
    ;
    assert(0 <= num / sim <= num) by (nonlinear_arith)
        requires
            0 <= num,
            sim >= 1,
    ;
}

proof fn lemma_totals_grow(ms: Seq<MonthlyOutage>, j: int, rate_milli: u64)
    requires
        0 <= j <= ms.len(),
        all_months_ok(ms),
    ensures
        spec_total_cost(ms.take(j), rate_milli) <= spec_total_cost(ms, rate_milli),
        spec_total_seconds(ms.take(j)) <= spec_total_seconds(ms),
    decreases ms.len() - j,
{
    if j == ms.len() {
        assert(ms.take(j) =~= ms);
    } else {
        lemma_totals_grow(ms, j + 1, rate_milli);
        assert(ms.take(j + 1).drop_last() =~= ms.take(j));
        assert(ms.take(j + 1).last() == ms[j]);
        assert(month_ok(ms[j]));
        assert(spec_cost_micro(ms[j], rate_milli) >= 0) by {
            assert(spec_seconds_in_month(ms[j].year as int, ms[j].month as int) >= 86400);
        }
    }
}

/// The rollup across all reported months.
#[derive(Clone, Copy, PartialEq, Eq, Structural, Debug)]
pub struct CostSummary {
    /// Total prorated cost, micro-units.
    pub total_cost_micro: u128,
    /// Total outage seconds across the months.
    pub total_seconds: u128,
    /// Mean monthly cost, micro-units, rounded down.
    pub avg_cost_per_month_micro: u128,
    /// Mean monthly downtime in thousandths of an hour, rounded down.
    pub avg_monthly_downtime_milli_hours: u128,
    /// Cost per hour of downtime, micro-units, rounded down; zero when
    /// no downtime was recorded.
    pub cost_per_hour_micro: u128,
}

/// A full cost report: one line per month plus the rollup.
pub struct CostReport {
    pub months: Vec<MonthCost>,
    pub summary: CostSummary,
}

/// Derive the full report. Returns `None` exactly when there is no
/// month to report on, a month or the rate is out of range, or the
/// rolled-up cost would leave the fixed-point range.
pub fn cost_report(months: &Vec<MonthlyOutage>, rate_milli: u64) -> (r: Option<CostReport>)
    ensures
        match r {
            Option::Some(rep) => {
                &&& months@.len() > 0
                &&& rate_milli <= MAX_RATE_MILLI
                &&& all_months_ok(months@)
                &&& spec_total_cost(months@, rate_milli) <= MAX_TOTAL_COST_MICRO
                &&& rep.months@.len() == months@.len()
                &&& forall|i: int|
                    0 <= i < months@.len() ==> rep.months@[i] == spec_month_cost(
                        #[trigger] months@[i],
                        rate_milli,
                    )
                &&& rep.summary.total_cost_micro as int == spec_total_cost(months@, rate_milli)
                &&& rep.summary.total_seconds as int == spec_total_seconds(months@)
                &&& rep.summary.avg_cost_per_month_micro as int == spec_total_cost(
                    months@,
                    rate_milli,
                ) / months@.len() as int
                &&& rep.summary.avg_monthly_downtime_milli_hours as int == spec_total_seconds(
                    months@,
                ) * 1000 / (months@.len() as int * 3600)
                &&& rep.summary.cost_per_hour_micro as int == if spec_total_seconds(months@)
                    == 0 {
                    0int
                } else {
                    spec_total_cost(months@, rate_milli) * 3600 / spec_total_seconds(months@)
                }
            },
            Option::None => !({
                &&& months@.len() > 0
                &&& rate_milli <= MAX_RATE_MILLI
                &&& all_months_ok(months@)
                &&& spec_total_cost(months@, rate_milli) <= MAX_TOTAL_COST_MICRO
            }),
        },
{
    if months.len() == 0 {
        return Option::None;
    }
    let mut lines: Vec<MonthCost> = Vec::new();
    let mut total_cost: u128 = 0;
    let mut total_secs: u128 = 0;
    let mut i: usize = 0;
    while i < months.len()
        invariant
            0 < months@.len(),
            i <= months@.len(),
            lines@.len() == i,
            forall|j: int|
                0 <= j < i ==> lines@[j] == spec_month_cost(#[trigger] months@[j], rate_milli),
            forall|j: int| 0 <= j < i ==> month_ok(#[trigger] months@[j]),
            rate_milli <= MAX_RATE_MILLI || i == 0,
            total_cost as int == spec_total_cost(months@.take(i as int), rate_milli),
            total_cost <= MAX_TOTAL_COST_MICRO,
            total_secs as int == spec_total_seconds(months@.take(i as int)),
            total_secs <= (i as int) * (MAX_COST_SECONDS as int),
        decreases months@.len() - i,
    {
        let c = match month_cost(&months[i], rate_milli) {
            Option::Some(c) => c,
            Option::None => {
                return Option::None;
            },
        };
        proof {
            assert(months@.take(i + 1).drop_last() =~= months@.take(i as int));
            assert(months@.take(i + 1).last() == months@[i as int]);
            lemma_cost_micro_bounds(months@[i as int], rate_milli);
        }
        if total_cost > MAX_TOTAL_COST_MICRO - c.cost_micro {
            proof {
                if all_months_ok(months@) {
                    lemma_totals_grow(months@, i + 1, rate_milli);
                }
            }
            return Option::None;
        }
        total_cost = total_cost + c.cost_micro;
        total_secs = total_secs + (c.total_seconds as u128);
        lines.push(c);
        i = i + 1;
    }
    proof {
        assert(months@.take(months@.len() as int) =~= months@);
    }
    let n: u128 = months.len() as u128;
    let avg_cost_per_month_micro: u128 = total_cost / n;
    let avg_monthly_downtime_milli_hours: u128 = total_secs * 1000 / (n * 3600);
    let cost_per_hour_micro: u128 = if total_secs == 0 {
        0
    } else {
        total_cost * 3600 / total_secs
    };
    Option::Some(
        CostReport {
            months: lines,
            summary: CostSummary {
                total_cost_micro: total_cost,
                total_seconds: total_secs,
                avg_cost_per_month_micro,
                avg_monthly_downtime_milli_hours,
                cost_per_hour_micro,
            },
        },
    )
}

} // verus!
