//! The SQLite calls the store makes, through `rusqlite`.
//!
//! What a query returns depends on what the database holds, which nothing
//! here models: each call states only what holds of every outcome, and
//! which statement, with which parameters, it handed to SQLite.

use rusqlite::OptionalExtension;
use vstd::prelude::*;

verus! {

#[verifier::external_type_specification]
#[verifier::external_body]
pub struct ExConnection(rusqlite::Connection);

#[verifier::external_type_specification]
#[verifier::external_body]
pub struct ExError(rusqlite::Error);

/// One row of the `entries` table as SQLite returns it: `id`, `text`,
/// `created_at` (ms), `due_today` (0 or 1) and `last_resurfaced_at` (ms).
#[derive(Debug, Clone, PartialEq, Eq)]
pub struct EntryRow {
    pub id: i64,
    pub text: String,
    pub created_at: i64,
    pub due_today: i64,
    pub last_resurfaced_at: Option<i64>,
}

impl EntryRow {
    /// An identical copy of the row.
    pub fn duplicate(&self) -> (r: EntryRow)
        ensures
            r == *self,
    {
        EntryRow {
            id: self.id,
            text: self.text.clone(),
            created_at: self.created_at,
            due_today: self.due_today,
            last_resurfaced_at: self.last_resurfaced_at,
        }
    }
}

/// Live rows, most recent first.
pub const LIVE_ROWS_SQL: &'static str =
    "SELECT id, text, created_at, due_today, last_resurfaced_at
             FROM entries
             WHERE deleted_at IS NULL
             ORDER BY created_at DESC";

/// One random live row created at or before `?1`, not due today, and never
/// resurfaced or last resurfaced at or before `?2`.
pub const RESURFACE_CANDIDATE_SQL: &'static str =
    "SELECT id, text, created_at, due_today, last_resurfaced_at
                 FROM entries
                 WHERE created_at <= ?1
                   AND due_today = 0
                   AND deleted_at IS NULL
                   AND (last_resurfaced_at IS NULL OR last_resurfaced_at <= ?2)
                 ORDER BY RANDOM() LIMIT 1";

/// One statement handed to SQLite through the wrappers below, with its
/// parameters and what SQLite answered.
pub enum SqlCall {
    /// Opening the connection: on the database file at `path`, or on a fresh
    /// in-memory database when `path` is `None`.
    Open { path: Option<Seq<char>> },
    /// `execute_batch(sql)`; whether it succeeded.
    Batch { sql: Seq<char>, ok: bool },
    /// `execute(sql, (p1, p2))`; the number of changed rows, or `None` on error.
    Execute { sql: Seq<char>, p1: i64, p2: i64, changed: Option<usize> },
    /// `query_row(sql, ())` reading one integer; the value, or `None` on error.
    QueryInteger { sql: Seq<char>, value: Option<i64> },
    /// `query_row(sql, (text, p2, p3))` of an `INSERT ... RETURNING id`; the
    /// id, or `None` on error.
    Insert { sql: Seq<char>, text: Seq<char>, p2: i64, p3: i64, id: Option<i64> },
    /// `query_row(sql, (p1, p2))` reading one optional row; the row, if any,
    /// or `None` on error.
    QueryRow { sql: Seq<char>, p1: i64, p2: i64, answer: Option<Option<EntryRow>> },
    /// `query_map(sql, ())` reading all rows; the rows, or `None` on error.
    QueryRows { sql: Seq<char>, rows: Option<Seq<EntryRow>> },
}

/// How this connection was opened, then the statements handed to SQLite on it
/// through the wrappers below, in order, with what SQLite answered. rusqlite keeps no such list: it is the
/// record of those calls, and each wrapper claims only that its own call is
/// appended to it.
pub uninterp spec fn statements(conn: rusqlite::Connection) -> Seq<SqlCall>;

/// `rusqlite::Connection::open`: opens (creating if needed) the database
/// file at `path`. The record of a new connection holds only its opening.
#[verifier::external_body]
pub(crate) fn open_connection(path: &str) -> (r: Result<rusqlite::Connection, rusqlite::Error>)
    ensures
        r matches Ok(c) ==> statements(c) == seq![SqlCall::Open { path: Some(path@) }],
{
    rusqlite::Connection::open(path)
}

/// `rusqlite::Connection::open_in_memory`: a fresh, private in-memory
/// database. The record of a new connection holds only its opening.
#[verifier::external_body]
pub(crate) fn open_memory_connection() -> (r: Result<rusqlite::Connection, rusqlite::Error>)
    ensures
        r matches Ok(c) ==> statements(c) == seq![SqlCall::Open { path: None }],
{
    rusqlite::Connection::open_in_memory()
}

/// `rusqlite::Connection::execute_batch`: runs the statements of `sql` in turn.
#[verifier::external_body]
pub(crate) fn execute_batch(conn: &mut rusqlite::Connection, sql: &str) -> (r: Result<
    (),
    rusqlite::Error,
>)
    ensures
        statements(*final(conn)) == statements(*old(conn)).push(
            SqlCall::Batch { sql: sql@, ok: r is Ok },
        ),
{
    conn.execute_batch(sql)
}

/// `rusqlite::Connection::execute` with two integer parameters: the number of
/// rows the statement changed.
#[verifier::external_body]
pub(crate) fn execute_with_two(conn: &mut rusqlite::Connection, sql: &str, p1: i64, p2: i64) -> (r:
    Result<usize, rusqlite::Error>)
    ensures
        statements(*final(conn)) == statements(*old(conn)).push(
            SqlCall::Execute {
                sql: sql@,
                p1,
                p2,
                changed: match r {
                    Ok(n) => Some(n),
                    Err(_) => None,
                },
            },
        ),
{
    conn.execute(sql, (p1, p2))
}

/// `rusqlite::Connection::query_row` reading one integer column of the
/// first row of a query without parameters.
#[verifier::external_body]
pub(crate) fn query_single_integer(conn: &mut rusqlite::Connection, sql: &str) -> (r: Result<
    i64,
    rusqlite::Error,
>)
    ensures
        statements(*final(conn)) == statements(*old(conn)).push(
            SqlCall::QueryInteger {
                sql: sql@,
                value: match r {
                    Ok(v) => Some(v),
                    Err(_) => None,
                },
            },
        ),
{
    conn.query_row(sql, (), |row| row.get(0))
}

/// `rusqlite::Connection::query_row` for an `INSERT ... RETURNING id` with a
/// text and two integer parameters: the id SQLite gave the new row.
#[verifier::external_body]
pub(crate) fn insert_returning_id(
    conn: &mut rusqlite::Connection,
    sql: &str,
    text: &str,
    p2: i64,
    p3: i64,
) -> (r: Result<i64, rusqlite::Error>)
    ensures
        statements(*final(conn)) == statements(*old(conn)).push(
            SqlCall::Insert {
                sql: sql@,
                text: text@,
                p2,
                p3,
                id: match r {
                    Ok(id) => Some(id),
                    Err(_) => None,
                },
            },
        ),
{
    conn.query_row(sql, (text, p2, p3), |row| row.get(0))
}

/// `rusqlite::Connection::query_row` followed by
/// `rusqlite::OptionalExtension::optional`, reading an `EntryRow` with two
/// integer parameters. Claims: the call and its answer are recorded; and,
/// for the resurface query only, a returned row satisfies its `WHERE` clause
/// on the returned columns. (SQLite compares
/// the stored integers numerically; a stored value of another type makes
/// reading the column an error.)
#[verifier::external_body]
pub(crate) fn query_optional_row(conn: &mut rusqlite::Connection, sql: &str, p1: i64, p2: i64) -> (r:
    Result<Option<EntryRow>, rusqlite::Error>)
    ensures
        statements(*final(conn)) == statements(*old(conn)).push(
            SqlCall::QueryRow {
                sql: sql@,
                p1,
                p2,
                answer: match r {
                    Ok(o) => Some(o),
                    Err(_) => None,
                },
            },
        ),
        sql@ == RESURFACE_CANDIDATE_SQL@ ==> (r matches Ok(Some(row)) ==> {
            &&& row.created_at <= p1
            &&& row.due_today == 0
            &&& (row.last_resurfaced_at matches Some(l) ==> l <= p2)
        }),
{
    conn.query_row(
        sql,
        (p1, p2),
        |row| {
            Ok(EntryRow {
                id: row.get(0)?,
                text: row.get(1)?,
                created_at: row.get(2)?,
                due_today: row.get(3)?,
                last_resurfaced_at: row.get(4)?,
            })
        },
    ).optional()
}

/// `rusqlite::Connection::prepare` and `Statement::query_map` collected into
/// a vector of `EntryRow`s. Claims: the call and the rows it returned are
/// recorded; and, for the live-rows query only, the rows come out with
/// `created_at` non-increasing (its `ORDER BY`).
#[verifier::external_body]
pub(crate) fn query_rows(conn: &mut rusqlite::Connection, sql: &str) -> (r: Result<
    Vec<EntryRow>,
    rusqlite::Error,
>)
    ensures
        statements(*final(conn)) == statements(*old(conn)).push(
            SqlCall::QueryRows {
                sql: sql@,
                rows: match r {
                    Ok(v) => Some(v@),
                    Err(_) => None,
                },
            },
        ),
        sql@ == LIVE_ROWS_SQL@ ==> (r matches Ok(rows) ==> forall|i: int, j: int|
            0 <= i < j < rows@.len() ==> rows@[i].created_at >= rows@[j].created_at),
{
    let mut stmt = conn.prepare(sql)?;
    let rows = stmt.query_map(
        (),
        |row| {
            Ok(EntryRow {
                id: row.get(0)?,
                text: row.get(1)?,
                created_at: row.get(2)?,
                due_today: row.get(3)?,
                last_resurfaced_at: row.get(4)?,
            })
        },
    )?;
    rows.collect()
}

} // verus!
