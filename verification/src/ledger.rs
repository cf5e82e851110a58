//! The durable, append-only outage ledger.
//!
//! Storage is a SQLite database reached through rusqlite. The table's
//! rows are modelled by `db_rows`: the (start text, end text, duration)
//! triples in insertion order. The trusted wrappers state only what the
//! storage engine does to that sequence; everything else — formatting
//! the timestamps written, parsing the rows read — is verified.

use vstd::prelude::*;
use crate::record::OutageRecord;
use crate::rfc3339::{format_rfc3339, parse_rfc3339, spec_rfc3339};
use crate::timestamp::Timestamp;

verus! {

#[verifier::external_type_specification]
#[verifier::external_body]
pub struct ExConnection(rusqlite::Connection);

/// The rows of the outage table behind this connection, in insertion
/// (rowid) order: start text, end text, duration in seconds.
pub uninterp spec fn db_rows(c: rusqlite::Connection) -> Seq<(Seq<u8>, Seq<u8>, i64)>;

/// Why a ledger operation failed.
#[derive(Debug)]
pub enum LedgerError {
    /// The storage engine failed; the payload is its diagnostic.
    Storage(String),
    /// A persisted timestamp is not canonical RFC 3339 text.
    MalformedRecord,
}

/// The plain view of one fetched row.
pub open spec fn row_view(row: (Vec<u8>, Vec<u8>, i64)) -> (Seq<u8>, Seq<u8>, i64) {
    (row.0@, row.1@, row.2)
}

/// `rec` is what `row` decodes to: both texts are the canonical
/// encodings of its instants, and the stored duration is carried over.
pub open spec fn row_parses_to(row: (Seq<u8>, Seq<u8>, i64), rec: OutageRecord) -> bool {
    &&& rec.start.valid()
    &&& rec.end.valid()
    &&& spec_rfc3339(rec.start) == row.0
    &&& spec_rfc3339(rec.end) == row.1
    &&& rec.duration_seconds == row.2
}

/// One of the row's timestamp texts is not the canonical encoding of
/// any valid timestamp.
pub open spec fn row_malformed(row: (Seq<u8>, Seq<u8>, i64)) -> bool {
    ||| forall|t: Timestamp| t.valid() ==> spec_rfc3339(t) != row.0
    ||| forall|t: Timestamp| t.valid() ==> spec_rfc3339(t) != row.1
}

/// Relies on rusqlite::Connection::open: opens the database at `path`,
/// creating the file when absent. Nothing is known of its contents.
#[verifier::external_body]
fn open_conn(path: &str) -> (r: Result<rusqlite::Connection, LedgerError>) {
    rusqlite::Connection::open(path).map_err(|e| LedgerError::Storage(format!("{e}")))
}

/// Relies on rusqlite::Connection::open_in_memory: a fresh in-memory
/// database holds no tables, hence no outage rows.
#[verifier::external_body]
fn open_mem_conn() -> (r: Result<rusqlite::Connection, LedgerError>)
    ensures
        r matches Ok(c) ==> db_rows(c) == Seq::<(Seq<u8>, Seq<u8>, i64)>::empty(),
{
    rusqlite::Connection::open_in_memory().map_err(|e| LedgerError::Storage(format!("{e}")))
}

/// Relies on rusqlite::Connection::execute running CREATE TABLE IF NOT
/// EXISTS: creates the outage table when it is absent and never touches
/// rows, so repeated calls are harmless.
#[verifier::external_body]
fn create_table(conn: &mut rusqlite::Connection) -> (r: Result<(), LedgerError>)
    ensures
        db_rows(*final(conn)) == db_rows(*old(conn)),
{
    let sql = "CREATE TABLE IF NOT EXISTS outages (
        id INTEGER PRIMARY KEY,
        start_time TEXT NOT NULL,
        end_time TEXT NOT NULL,
        duration_seconds INTEGER NOT NULL
    )";
    match conn.execute(sql, []) {
        Ok(_) => Ok(()),
        Err(e) => Err(LedgerError::Storage(format!("{e}"))),
    }
}

/// Relies on rusqlite::Connection::execute running INSERT: on success
/// exactly one row is appended; an INSERT that fails changes nothing.
#[verifier::external_body]
fn insert_row(conn: &mut rusqlite::Connection, start: &Vec<u8>, end: &Vec<u8>, duration: i64) -> (r:
    Result<(), LedgerError>)
    requires
        forall|i: int| 0 <= i < start@.len() ==> start@[i] < 128,
        forall|i: int| 0 <= i < end@.len() ==> end@[i] < 128,
    ensures
        r is Ok ==> db_rows(*final(conn)) == db_rows(*old(conn)).push(
            (start@, end@, duration),
        ),
        r is Err ==> db_rows(*final(conn)) == db_rows(*old(conn)),
{
    let s = match core::str::from_utf8(start) {
        Ok(s) => s,
        Err(e) => return Err(LedgerError::Storage(format!("{e}"))),
    };
    let t = match core::str::from_utf8(end) {
        Ok(t) => t,
        Err(e) => return Err(LedgerError::Storage(format!("{e}"))),
    };
    let sql = "INSERT INTO outages (start_time, end_time, duration_seconds) VALUES (?1, ?2, ?3)";
    match conn.execute(sql, (s, t, duration)) {
        Ok(_) => Ok(()),
        Err(e) => Err(LedgerError::Storage(format!("{e}"))),
    }
}

/// Relies on rusqlite::Statement::query_map running SELECT ... ORDER BY
/// id: yields every row of the outage table in insertion order.
#[verifier::external_body]
fn fetch_all_rows(conn: &rusqlite::Connection) -> (r: Result<
    Vec<(Vec<u8>, Vec<u8>, i64)>,
    LedgerError,
>)
    ensures
        r matches Ok(v) ==> {
            &&& v@.len() == db_rows(*conn).len()
            &&& forall|i: int| 0 <= i < v@.len() ==> row_view(v@[i]) == db_rows(*conn)[i]
        },
        r matches Err(e) ==> e is Storage,
{
    let sql = "SELECT start_time, end_time, duration_seconds FROM outages ORDER BY id";
    let mut stmt = conn.prepare(sql).map_err(|e| LedgerError::Storage(format!("{e}")))?;
    let mapped = stmt.query_map(
        [],
        |row| Ok((row.get::<_, String>(0)?.into_bytes(), row.get::<_, String>(1)?.into_bytes(), row.get::<_, i64>(2)?)),
    ).map_err(|e| LedgerError::Storage(format!("{e}")))?;
    let mut out = Vec::new();
    for item in mapped {
        out.push(item.map_err(|e| LedgerError::Storage(format!("{e}")))?);
    }
    Ok(out)
}

/// The append-only store of closed outage records.
pub struct OutageLedger {
    conn: rusqlite::Connection,
}

impl OutageLedger {
    /// The (start text, end text, duration) rows this ledger holds, in
    /// insertion order.
    pub closed spec fn rows(self) -> Seq<(Seq<u8>, Seq<u8>, i64)> {
        db_rows(self.conn)
    }

    /// Open (creating the file when absent) the ledger database at
    /// `path`. What it already holds is whatever is on disk.
    pub fn open(path: &str) -> (r: Result<OutageLedger, LedgerError>) {
        match open_conn(path) {
            Ok(conn) => Ok(OutageLedger { conn }),
            Err(e) => Err(e),
        }
    }

    /// Open a fresh, empty in-memory ledger.
    pub fn open_in_memory() -> (r: Result<OutageLedger, LedgerError>)
        ensures
            r matches Ok(l) ==> l.rows() == Seq::<(Seq<u8>, Seq<u8>, i64)>::empty(),
    {
        match open_mem_conn() {
            Ok(conn) => Ok(OutageLedger { conn }),
            Err(e) => Err(e),
        }
    }

    /// Idempotently ensure the schema exists. Never changes any rows,
    /// so calling it on every startup is safe.
    pub fn initialize(&mut self) -> (r: Result<(), LedgerError>)
        ensures
            final(self).rows() == old(self).rows(),
    {
        create_table(&mut self.conn)
    }

    /// Durably append one closed record: its instants as canonical
    /// RFC 3339 text and its duration in whole seconds. On failure the
    /// ledger is unchanged and the record is not stored.
    pub fn append(&mut self, rec: &OutageRecord) -> (r: Result<(), LedgerError>)
        requires
            rec.valid(),
        ensures
            r is Ok ==> final(self).rows() == old(self).rows().push(
                (spec_rfc3339(rec.start), spec_rfc3339(rec.end), rec.duration_seconds),
            ),
            r is Err ==> final(self).rows() == old(self).rows(),
    {
        let start_text = format_rfc3339(&rec.start);
        let end_text = format_rfc3339(&rec.end);
        insert_row(&mut self.conn, &start_text, &end_text, rec.duration_seconds)
    }

    /// Read the whole ledger back as records, in insertion order. Every
    /// stored timestamp must parse back; a row that does not is
    /// reported as malformed rather than skipped.
    pub fn load_all(&self) -> (r: Result<Vec<OutageRecord>, LedgerError>)
        ensures
            r matches Ok(recs) ==> {
                &&& recs@.len() == self.rows().len()
                &&& forall|i: int|
                    0 <= i < recs@.len() ==> row_parses_to(self.rows()[i], recs@[i])
            },
            r matches Err(e) ==> (e is Storage || exists|i: int|
                0 <= i < self.rows().len() && row_malformed(#[trigger] self.rows()[i])),
    {
        match fetch_all_rows(&self.conn) {
            Ok(raw) => {
                let r = records_from_rows(&raw);
                proof {
                    if r is Err {
                        let i = choose|i: int|
                            0 <= i < raw@.len() && row_malformed(row_view(#[trigger] raw@[i]));
                        assert(row_malformed(self.rows()[i]));
                    }
                }
                r
            },
            Err(e) => Err(e),
        }
    }
}

/// Decode fetched rows into records: succeeds exactly when every row's
/// two timestamp texts are canonical RFC 3339.
pub fn records_from_rows(rows: &Vec<(Vec<u8>, Vec<u8>, i64)>) -> (r: Result<
    Vec<OutageRecord>,
    LedgerError,
>)
    ensures
        match r {
            Ok(recs) => {
                &&& recs@.len() == rows@.len()
                &&& forall|i: int|
                    0 <= i < recs@.len() ==> row_parses_to(row_view(rows@[i]), recs@[i])
            },
            Err(e) => e is MalformedRecord && exists|i: int|
                0 <= i < rows@.len() && row_malformed(row_view(#[trigger] rows@[i])),
        },
{
    let mut recs: Vec<OutageRecord> = Vec::new();
    let mut i: usize = 0;
    while i < rows.len()
        invariant
            i <= rows.len(),
            recs@.len() == i,
            forall|j: int| 0 <= j < i ==> row_parses_to(row_view(rows@[j]), recs@[j]),
        decreases rows.len() - i,
    {
        let row = &rows[i];
        let start = match parse_rfc3339(row.0.as_slice()) {
            Option::Some(t) => t,
            Option::None => {
                return Err(LedgerError::MalformedRecord);
            },
        };
        let end = match parse_rfc3339(row.1.as_slice()) {
            Option::Some(t) => t,
            Option::None => {
                return Err(LedgerError::MalformedRecord);
            },
        };
        recs.push(OutageRecord { start, end, duration_seconds: row.2 });
        i = i + 1;
    }
    Ok(recs)
}

} // verus!
