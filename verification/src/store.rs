//! Trusted boundary to the persistent record store.
//!
//! The agent keeps two append-only SQLite tables: `quarantined_files`, the
//! durable log of every completed containment, and `passwd_checks`, the log
//! of file-integrity checks.  Each table's contents are modelled as a
//! sequence of rows, and every wrapper below states how the one statement it
//! runs reads or extends that sequence.
//!
//! All contracts assume what the engine's design demands anyway: a
//! `Connection` is the only handle to its database while the agent runs
//! (single writer, no other process mutating the same file).

use rusqlite::OptionalExtension;
use vstd::prelude::*;

use crate::QuarantineError;

verus! {

#[verifier::external_type_specification]
#[verifier::external_body]
pub struct ExConnection(rusqlite::Connection);

/// A row of the `quarantined_files` table as a mathematical value:
/// (original path, quarantine path, reason, quarantined date).
pub type RowModel = (Seq<char>, Seq<char>, Seq<char>, Seq<char>);

/// A row of the `passwd_checks` table as a mathematical value:
/// (timestamp, hash, changed-flag text).
pub type CheckModel = (Seq<char>, Seq<char>, Seq<char>);

/// The rows of the `quarantined_files` table behind a connection, in rowid
/// (insertion) order.
pub uninterp spec fn store_rows(conn: rusqlite::Connection) -> Seq<RowModel>;

/// The rows of the `passwd_checks` table behind a connection, in rowid
/// (insertion) order.
pub uninterp spec fn passwd_rows(conn: rusqlite::Connection) -> Seq<CheckModel>;

/// One row of the `quarantined_files` table as executable data.
pub struct StoreRow {
    pub original_path: String,
    pub quarantine_path: String,
    pub reason: String,
    pub quarantined_date: String,
}

impl View for StoreRow {
    type V = RowModel;

    open spec fn view(&self) -> Self::V {
        (self.original_path@, self.quarantine_path@, self.reason@, self.quarantined_date@)
    }
}

/// Relies on rusqlite's `Connection::open_in_memory`: a freshly created
/// in-memory database holds no rows at all.
#[verifier::external_body]
pub(crate) fn open_memory_db() -> (r: Result<rusqlite::Connection, QuarantineError>)
    ensures
        r matches Ok(conn) ==> store_rows(conn) == Seq::<RowModel>::empty(),
        r matches Ok(conn) ==> passwd_rows(conn) == Seq::<CheckModel>::empty(),
        r matches Err(e) ==> e is Persistence,
{
    rusqlite::Connection::open_in_memory().map_err(
        |e| QuarantineError::Persistence { message: e.to_string() },
    )
}

/// Relies on rusqlite's `Connection::execute` running one `INSERT` into
/// `quarantined_files`: on success exactly the given row is appended, and a
/// failed single statement is rolled back by SQLite, leaving the table as it
/// was.
#[verifier::external_body]
pub(crate) fn insert_quarantined_row(conn: &mut rusqlite::Connection, row: &StoreRow) -> (r: Result<
    (),
    QuarantineError,
>)
    ensures
        r is Ok ==> store_rows(*final(conn)) == store_rows(*old(conn)).push(row@),
        r matches Err(e) ==> store_rows(*final(conn)) == store_rows(*old(conn)) && e
            is Persistence,
{
    conn.execute(
        "INSERT INTO quarantined_files (original_path, quarantine_path, reason, quarantined_date)
                VALUES ($1, $2, $3, $4)",
        [
            row.original_path.as_str(),
            row.quarantine_path.as_str(),
            row.reason.as_str(),
            row.quarantined_date.as_str(),
        ],
    ).map(|_| ()).map_err(|e| QuarantineError::Persistence { message: e.to_string() })
}

/// Relies on rusqlite's `Connection::prepare` and `Statement::query_map`
/// over `SELECT ... FROM quarantined_files ORDER BY id`: the mapped rows are
/// exactly the table's rows in insertion order.
#[verifier::external_body]
pub(crate) fn select_quarantined_rows(conn: &rusqlite::Connection) -> (r: Result<
    Vec<StoreRow>,
    QuarantineError,
>)
    ensures
        r matches Ok(rows) ==> rows@.map_values(|x: StoreRow| x@) == store_rows(*conn),
        r matches Err(e) ==> e is Persistence,
{
    let run = || -> rusqlite::Result<Vec<StoreRow>> {
        let mut stmt = conn.prepare(
            "SELECT original_path, quarantine_path, reason, quarantined_date
                 FROM quarantined_files ORDER BY id",
        )?;
        let rows = stmt.query_map([], |row| Ok(StoreRow {
            original_path: row.get(0)?,
            quarantine_path: row.get(1)?,
            reason: row.get(2)?,
            quarantined_date: row.get(3)?,
        }))?;
        rows.collect()
    };
    run().map_err(|e| QuarantineError::Persistence { message: e.to_string() })
}

/// Relies on rusqlite's `Connection::execute` running one `INSERT` into
/// `passwd_checks`: on success exactly the given row is appended, and a
/// failed single statement leaves the table as it was.
#[verifier::external_body]
pub(crate) fn insert_passwd_check(
    conn: &mut rusqlite::Connection,
    timestamp: &String,
    hash: &String,
    changed: &String,
) -> (r: Result<(), QuarantineError>)
    ensures
        r is Ok ==> passwd_rows(*final(conn)) == passwd_rows(*old(conn)).push(
            (timestamp@, hash@, changed@),
        ),
        r matches Err(e) ==> passwd_rows(*final(conn)) == passwd_rows(*old(conn)) && e
            is Persistence,
{
    conn.execute(
        "INSERT INTO passwd_checks (timestamp, prev_hash, changed)
        VALUES ($1, $2, $3)",
        [timestamp.as_str(), hash.as_str(), changed.as_str()],
    ).map(|_| ()).map_err(|e| QuarantineError::Persistence { message: e.to_string() })
}

/// Relies on rusqlite's `Connection::query_one` with
/// `SELECT prev_hash FROM passwd_checks ORDER BY rowid DESC LIMIT 1` and
/// `OptionalExtension::optional`: it yields the hash column of the last
/// inserted row, or nothing when the table is empty.
#[verifier::external_body]
pub(crate) fn select_last_passwd_hash(conn: &rusqlite::Connection) -> (r: Result<
    Option<String>,
    QuarantineError,
>)
    ensures
        r matches Ok(h) ==> match h {
            Some(hash) => passwd_rows(*conn).len() > 0 && hash@ == passwd_rows(*conn).last().1,
            None => passwd_rows(*conn).len() == 0,
        },
        r matches Err(e) ==> e is Persistence,
{
    conn.query_one(
        "SELECT prev_hash FROM passwd_checks ORDER BY rowid DESC LIMIT 1",
        [],
        |row| row.get(0),
    ).optional().map_err(|e| QuarantineError::Persistence { message: e.to_string() })
}

} // verus!
