use outage_ledger::aggregate::{compute_stats, query_all_ordered, query_recent};
use outage_ledger::calendar::{days_in_month, is_leap_year};
use outage_ledger::cost::{cost_report, month_cost};
use outage_ledger::csv::generate_csv;
use outage_ledger::monitor::{MonitorState, TickEvent};
use outage_ledger::monthly::{query_monthly, MonthlyOutage};
use outage_ledger::record::OutageRecord;
use outage_ledger::rfc3339::{format_rfc3339, parse_rfc3339};
use outage_ledger::timestamp::Timestamp;

fn ts(
    year: u16,
    month: u8,
    day: u8,
    hour: u8,
    minute: u8,
    second: u8,
    offset_minutes: i16,
) -> Timestamp {
    Timestamp { year, month, day, hour, minute, second, offset_minutes }
}

fn rec(start: Timestamp, end: Timestamp) -> OutageRecord {
    OutageRecord {
        start,
        end,
        duration_seconds: end.epoch_seconds() - start.epoch_seconds(),
    }
}

#[test]
fn leap_year_february() {
    assert!(is_leap_year(2024));
    assert!(!is_leap_year(2023));
    assert!(!is_leap_year(1900));
    assert!(is_leap_year(2000));
    assert_eq!(days_in_month(2024, 2), 29);
    assert_eq!(days_in_month(2023, 2), 28);
    assert_eq!(days_in_month(2024, 4), 30);
    assert_eq!(days_in_month(2024, 1), 31);
    assert_eq!(days_in_month(2024, 12), 31);
}

#[test]
fn rfc3339_format_exact() {
    let t = ts(2024, 1, 1, 0, 0, 0, 0);
    let text = format_rfc3339(&t);
    assert_eq!(text, b"2024-01-01T00:00:00+00:00".to_vec());
    let u = ts(2024, 12, 31, 23, 59, 59, -330);
    let text_u = format_rfc3339(&u);
    assert_eq!(text_u, b"2024-12-31T23:59:59-05:30".to_vec());
}

#[test]
fn rfc3339_round_trip() {
    let samples = vec![
        ts(2024, 1, 1, 0, 0, 0, 0),
        ts(2024, 2, 29, 12, 34, 56, 60),
        ts(1999, 12, 31, 23, 59, 59, -720),
        ts(0, 1, 1, 0, 0, 0, 0),
        ts(9999, 12, 31, 23, 59, 59, 1439),
    ];
    for t in samples {
        let text = format_rfc3339(&t);
        let back = parse_rfc3339(text.as_slice());
        assert_eq!(back, Some(t));
    }
}

#[test]
fn rfc3339_rejects_malformed() {
    assert_eq!(parse_rfc3339(b"2024-01-01T00:00:00Z"), None);
    assert_eq!(parse_rfc3339(b"2024-13-01T00:00:00+00:00"), None);
    assert_eq!(parse_rfc3339(b"2024-02-30T00:00:00+00:00"), None);
    assert_eq!(parse_rfc3339(b"2023-02-29T00:00:00+00:00"), None);
    assert_eq!(parse_rfc3339(b"2024-01-01T24:00:00+00:00"), None);
    assert_eq!(parse_rfc3339(b"2024-01-01T00:00:00-00:00"), None);
    assert_eq!(parse_rfc3339(b"2024-01-01 00:00:00+00:00"), None);
    assert_eq!(parse_rfc3339(b"2024-01-01T00:00:0x+00:00"), None);
    assert_eq!(parse_rfc3339(b""), None);
}

#[test]
fn monitor_emits_once_per_outage() {
    let mut st = MonitorState::initial();
    assert!(st.is_connected);

    let t0 = ts(2024, 1, 1, 10, 0, 0, 0);
    let ev = st.tick(true, t0);
    assert!(matches!(ev, TickEvent::NoChange));
    assert!(st.is_connected);

    let t1 = ts(2024, 1, 1, 10, 0, 5, 0);
    let ev = st.tick(false, t1);
    match ev {
        TickEvent::ConnectionLost { at } => assert_eq!(at, t1),
        _ => panic!("expected a loss"),
    }
    assert!(!st.is_connected);

    let t2 = ts(2024, 1, 1, 10, 0, 10, 0);
    let ev = st.tick(false, t2);
    assert!(matches!(ev, TickEvent::NoChange));
    assert!(!st.is_connected);

    let t3 = ts(2024, 1, 1, 10, 5, 5, 0);
    let ev = st.tick(true, t3);
    match ev {
        TickEvent::ConnectionRestored { record } => {
            assert_eq!(record.start, t1);
            assert_eq!(record.end, t3);
            assert_eq!(record.duration_seconds, 300);
        }
        _ => panic!("expected a restoration"),
    }
    assert!(st.is_connected);

    let ev = st.tick(true, ts(2024, 1, 1, 10, 5, 10, 0));
    assert!(matches!(ev, TickEvent::NoChange));
}

#[test]
fn monitor_clamps_backwards_clock() {
    let mut st = MonitorState::initial();
    let t1 = ts(2024, 1, 1, 10, 0, 0, 0);
    st.tick(false, t1);
    let earlier = ts(2024, 1, 1, 9, 0, 0, 0);
    match st.tick(true, earlier) {
        TickEvent::ConnectionRestored { record } => {
            assert_eq!(record.start, t1);
            assert_eq!(record.end, t1);
            assert_eq!(record.duration_seconds, 0);
        }
        _ => panic!("expected a restoration"),
    }
}

#[test]
fn duration_is_end_minus_start() {
    let start = ts(2024, 2, 28, 23, 59, 0, 0);
    let end = ts(2024, 2, 29, 0, 1, 0, 0);
    let r = rec(start, end);
    assert_eq!(r.duration_seconds, 120);
    let same_wall_different_offset = rec(ts(2024, 1, 1, 12, 0, 0, 120), ts(2024, 1, 1, 12, 0, 0, 0));
    assert_eq!(same_wall_different_offset.duration_seconds, 7200);
}

#[test]
fn stats_on_empty_ledger_are_zero() {
    let stats = compute_stats(&Vec::new());
    assert_eq!(stats.total_outages, 0);
    assert_eq!(stats.total_duration, 0);
    assert_eq!(stats.average_duration_milli, 0);
    assert_eq!(stats.longest_outage, 0);
    assert_eq!(stats.shortest_outage, 0);
}

#[test]
fn stats_exact_values() {
    let base = ts(2024, 1, 1, 0, 0, 0, 0);
    let mk = |d: i64| OutageRecord { start: base, end: base, duration_seconds: d };
    let records = vec![mk(10), mk(20), mk(33)];
    let stats = compute_stats(&records);
    assert_eq!(stats.total_outages, 3);
    assert_eq!(stats.total_duration, 63);
    assert_eq!(stats.average_duration_milli, 21000);
    assert_eq!(stats.longest_outage, 33);
    assert_eq!(stats.shortest_outage, 10);

    let negatives = vec![mk(-3), mk(0)];
    let stats = compute_stats(&negatives);
    assert_eq!(stats.total_duration, -3);
    assert_eq!(stats.average_duration_milli, -1500);
    assert_eq!(stats.longest_outage, 0);
    assert_eq!(stats.shortest_outage, -3);
}

#[test]
fn recent_zero_limit_is_empty() {
    let r = rec(ts(2024, 1, 1, 0, 0, 0, 0), ts(2024, 1, 1, 0, 1, 0, 0));
    let out = query_recent(&vec![r], 0);
    assert!(out.is_empty());
}

#[test]
fn recent_is_newest_first_and_truncated() {
    let a = rec(ts(2024, 1, 1, 0, 0, 0, 0), ts(2024, 1, 1, 0, 1, 0, 0));
    let b = rec(ts(2024, 1, 2, 0, 0, 0, 0), ts(2024, 1, 2, 0, 1, 0, 0));
    let c = rec(ts(2024, 1, 3, 0, 0, 0, 0), ts(2024, 1, 3, 0, 1, 0, 0));
    let records = vec![b, c, a];
    let out = query_recent(&records, 2);
    assert_eq!(out.len(), 2);
    assert_eq!(out[0].start, c.start);
    assert_eq!(out[1].start, b.start);
    let all = query_recent(&records, 10);
    assert_eq!(all.len(), 3);
    assert_eq!(all[2].start, a.start);
}

#[test]
fn all_ordered_is_chronological() {
    let a = rec(ts(2024, 1, 1, 0, 0, 0, 0), ts(2024, 1, 1, 0, 1, 0, 0));
    let b = rec(ts(2024, 1, 2, 0, 0, 0, 0), ts(2024, 1, 2, 0, 1, 0, 0));
    let c = rec(ts(2023, 12, 31, 0, 0, 0, 0), ts(2023, 12, 31, 0, 1, 0, 0));
    let out = query_all_ordered(&vec![a, b, c]);
    assert_eq!(out.len(), 3);
    assert_eq!(out[0].start, c.start);
    assert_eq!(out[1].start, a.start);
    assert_eq!(out[2].start, b.start);
}

#[test]
fn monthly_grouping_aggregates_same_month() {
    let a = rec(ts(2024, 1, 5, 0, 0, 0, 0), ts(2024, 1, 5, 0, 1, 0, 0));
    let b = rec(ts(2024, 1, 20, 0, 0, 0, 0), ts(2024, 1, 20, 0, 2, 0, 0));
    let c = rec(ts(2023, 12, 1, 0, 0, 0, 0), ts(2023, 12, 1, 0, 0, 30, 0));
    let groups = query_monthly(&vec![a, b, c]);
    assert_eq!(groups.len(), 2);
    assert_eq!((groups[0].year, groups[0].month), (2024, 1));
    assert_eq!(groups[0].num_outages, 2);
    assert_eq!(groups[0].total_seconds, 180);
    assert_eq!((groups[1].year, groups[1].month), (2023, 12));
    assert_eq!(groups[1].num_outages, 1);
    assert_eq!(groups[1].total_seconds, 30);
}

#[test]
fn cost_example_thirty_day_month() {
    // One hour of downtime in a 30-day month at a monthly rate of 300
    // units: about 0.1389% downtime, a cost near 0.4167 and an hourly
    // rate of 300 / 720.
    let g = MonthlyOutage { year: 2024, month: 4, num_outages: 1, total_seconds: 3600 };
    let c = month_cost(&g, 300_000).expect("in range");
    assert_eq!(c.downtime_micro_percent, 138_888);
    assert_eq!(c.cost_micro, 416_666);
    assert_eq!(c.hourly_rate_micro, 416_666);

    let report = cost_report(&vec![g], 300_000).expect("in range");
    assert_eq!(report.months.len(), 1);
    assert_eq!(report.summary.total_cost_micro, 416_666);
    assert_eq!(report.summary.total_seconds, 3600);
    assert_eq!(report.summary.avg_cost_per_month_micro, 416_666);
    assert_eq!(report.summary.avg_monthly_downtime_milli_hours, 1000);
    assert_eq!(report.summary.cost_per_hour_micro, 416_666);
}

#[test]
fn cost_leap_year_february() {
    let leap = MonthlyOutage { year: 2024, month: 2, num_outages: 1, total_seconds: 0 };
    let plain = MonthlyOutage { year: 2023, month: 2, num_outages: 1, total_seconds: 0 };
    let c_leap = month_cost(&leap, 300_000).expect("in range");
    let c_plain = month_cost(&plain, 300_000).expect("in range");
    // 29 days: 300 / (29 * 24); 28 days: 300 / (28 * 24).
    assert_eq!(c_leap.hourly_rate_micro, 300_000_000 / 696);
    assert_eq!(c_plain.hourly_rate_micro, 300_000_000 / 672);
    assert_ne!(c_leap.hourly_rate_micro, c_plain.hourly_rate_micro);
}

#[test]
fn cost_report_rejects_empty_and_bad_months() {
    assert!(cost_report(&Vec::new(), 300_000).is_none());
    let bad = MonthlyOutage { year: 2024, month: 13, num_outages: 1, total_seconds: 10 };
    assert!(month_cost(&bad, 300_000).is_none());
    let negative = MonthlyOutage { year: 2024, month: 3, num_outages: 1, total_seconds: -5 };
    assert!(month_cost(&negative, 300_000).is_none());
    assert!(cost_report(&vec![bad], 300_000).is_none());
}

#[test]
fn cost_per_hour_guarded_when_no_downtime() {
    let g = MonthlyOutage { year: 2024, month: 6, num_outages: 1, total_seconds: 0 };
    let report = cost_report(&vec![g], 500_000).expect("in range");
    assert_eq!(report.summary.total_seconds, 0);
    assert_eq!(report.summary.cost_per_hour_micro, 0);
}

#[test]
fn csv_of_one_record() {
    let r = rec(ts(2024, 1, 1, 0, 0, 0, 0), ts(2024, 1, 1, 0, 5, 0, 0));
    assert_eq!(r.duration_seconds, 300);
    let text = generate_csv(&vec![r]);
    let expected = "Start Time,End Time,Duration (seconds)\n\
                    2024-01-01T00:00:00+00:00,2024-01-01T00:05:00+00:00,300\n";
    assert_eq!(text, expected.as_bytes().to_vec());
}

#[test]
fn csv_of_empty_ledger_is_header_only() {
    let text = generate_csv(&Vec::new());
    assert_eq!(text, b"Start Time,End Time,Duration (seconds)\n".to_vec());
}

#[test]
fn csv_negative_duration_renders_minus() {
    let base = ts(2024, 3, 1, 0, 0, 0, 0);
    let r = OutageRecord { start: base, end: base, duration_seconds: -42 };
    let text = generate_csv(&vec![r]);
    let expected = "Start Time,End Time,Duration (seconds)\n\
                    2024-03-01T00:00:00+00:00,2024-03-01T00:00:00+00:00,-42\n";
    assert_eq!(text, expected.as_bytes().to_vec());
}
