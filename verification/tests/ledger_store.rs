use outage_ledger::aggregate::query_all_ordered;
use outage_ledger::csv::generate_csv;
use outage_ledger::ledger::{records_from_rows, LedgerError, OutageLedger};
use outage_ledger::record::OutageRecord;
use outage_ledger::timestamp::Timestamp;

fn ts(
    year: u16,
    month: u8,
    day: u8,
    hour: u8,
    minute: u8,
    second: u8,
    offset_minutes: i16,
) -> Timestamp {
    Timestamp { year, month, day, hour, minute, second, offset_minutes }
}

fn rec(start: Timestamp, end: Timestamp) -> OutageRecord {
    OutageRecord {
        start,
        end,
        duration_seconds: end.epoch_seconds() - start.epoch_seconds(),
    }
}

#[test]
fn schema_initialization_is_idempotent() {
    let mut ledger = OutageLedger::open_in_memory().expect("open");
    ledger.initialize().expect("first initialization");
    ledger.initialize().expect("second initialization");
    let records = ledger.load_all().expect("readable after double init");
    assert!(records.is_empty());
}

#[test]
fn append_then_load_round_trips() {
    let mut ledger = OutageLedger::open_in_memory().expect("open");
    ledger.initialize().expect("init");
    let a = rec(ts(2024, 1, 1, 10, 0, 5, 0), ts(2024, 1, 1, 10, 5, 5, 0));
    let b = rec(ts(2024, 1, 2, 8, 30, 0, -60), ts(2024, 1, 2, 8, 30, 45, -60));
    ledger.append(&a).expect("append first");
    ledger.append(&b).expect("append second");
    let records = ledger.load_all().expect("load");
    assert_eq!(records.len(), 2);
    assert_eq!(records[0], a);
    assert_eq!(records[1], b);
    assert_eq!(records[0].duration_seconds, 300);
    assert_eq!(records[1].duration_seconds, 45);
}

#[test]
fn load_before_init_is_storage_error() {
    let ledger = OutageLedger::open_in_memory().expect("open");
    match ledger.load_all() {
        Err(LedgerError::Storage(_)) => {}
        _ => panic!("expected a storage error without a schema"),
    }
}

#[test]
fn malformed_row_is_reported() {
    let rows = vec![(b"not a timestamp".to_vec(), b"2024-01-01T00:00:00+00:00".to_vec(), 10i64)];
    match records_from_rows(&rows) {
        Err(LedgerError::MalformedRecord) => {}
        _ => panic!("expected a malformed-record error"),
    }
    let unknown_offset = vec![
        (
            b"2024-01-01T00:00:00-00:00".to_vec(),
            b"2024-01-01T00:00:00+00:00".to_vec(),
            0i64,
        ),
    ];
    assert!(matches!(
        records_from_rows(&unknown_offset),
        Err(LedgerError::MalformedRecord)
    ));
}

#[test]
fn export_scenario_one_record() {
    let mut ledger = OutageLedger::open_in_memory().expect("open");
    ledger.initialize().expect("init");
    let r = rec(ts(2024, 1, 1, 0, 0, 0, 0), ts(2024, 1, 1, 0, 5, 0, 0));
    ledger.append(&r).expect("append");
    let records = ledger.load_all().expect("load");
    let ordered = query_all_ordered(&records);
    let text = generate_csv(&ordered);
    let expected = "Start Time,End Time,Duration (seconds)\n\
                    2024-01-01T00:00:00+00:00,2024-01-01T00:05:00+00:00,300\n";
    assert_eq!(text, expected.as_bytes().to_vec());
}
