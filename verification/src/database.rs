//! The SQLite calls, through `rusqlite`.
//!
//! What a statement does, and which rows a query returns, depends on the
//! state of the database, which these items do not describe. What they do
//! record, in a log that only these calls extend, is the SQL text each call
//! was made with and whether it succeeded, what each step through the rows of
//! a query gave, the column names a statement reported and each value read
//! from a row.

use vstd::prelude::*;

use rusqlite::types::ValueRef;
use rusqlite::{Connection, Row, Rows, Statement};

use crate::csv_utils::SqlValue;

verus! {

#[verifier::external_type_specification]
#[verifier::external_body]
pub struct ExConnection(rusqlite::Connection);

#[verifier::external_type_specification]
#[verifier::external_body]
pub struct ExStatement<'conn>(rusqlite::Statement<'conn>);

#[verifier::external_type_specification]
#[verifier::external_body]
pub struct ExRows<'stmt>(rusqlite::Rows<'stmt>);

#[verifier::external_type_specification]
#[verifier::external_body]
pub struct ExRow<'stmt>(rusqlite::Row<'stmt>);

#[verifier::external_type_specification]
#[verifier::external_body]
pub struct ExSqliteError(rusqlite::Error);

/// `rusqlite::Connection::open_in_memory`: a fresh, empty in-memory database,
/// or the error SQLite reports. Nothing is claimed of the outcome.
#[verifier::external_body]
pub(crate) fn open_in_memory() -> (r: Result<Connection, rusqlite::Error>) {
    Connection::open_in_memory()
}

/// What one step through the rows of a running statement gave.
#[derive(PartialEq, Eq, Structural)]
pub enum RowEvent {
    /// A row was delivered.
    Row,
    /// The statement reported that no rows remain.
    End,
    /// SQLite reported an error.
    Failed,
}

/// The record of one connection, extended only by the calls into it: every
/// SQL text its `execute` or `prepare` was called with and whether that call
/// succeeded, every step taken through the rows of a running statement, the
/// column names each statement reported, and each value read from a row,
/// with its column index.
pub struct SqlLog {
    texts: Ghost<Seq<Seq<char>>>,
    outcomes: Ghost<Seq<bool>>,
    steps: Ghost<Seq<RowEvent>>,
    names: Ghost<Seq<Seq<Seq<char>>>>,
    values: Ghost<Seq<(usize, SqlValue)>>,
}

impl SqlLog {
    /// Every text `execute` or `prepare` was called with, first one first.
    pub closed spec fn texts(&self) -> Seq<Seq<char>> {
        self.texts@
    }

    /// For each of those calls, whether it succeeded.
    pub closed spec fn outcomes(&self) -> Seq<bool> {
        self.outcomes@
    }

    /// Every step taken through result rows, first one first.
    pub closed spec fn steps(&self) -> Seq<RowEvent> {
        self.steps@
    }

    /// The column names reported, one list per `column_names` call.
    pub closed spec fn names(&self) -> Seq<Seq<Seq<char>>> {
        self.names@
    }

    /// Every value read from a row, with the column it was read from.
    pub closed spec fn values(&self) -> Seq<(usize, SqlValue)> {
        self.values@
    }
}

/// The parts of the log that record SQL texts are the same in `a` and `b`.
pub open spec fn same_statements(a: SqlLog, b: SqlLog) -> bool {
    a.texts() == b.texts() && a.outcomes() == b.outcomes()
}

/// The parts of the log that record query results are the same in `a` and `b`.
pub open spec fn same_results(a: SqlLog, b: SqlLog) -> bool {
    a.steps() == b.steps() && a.names() == b.names() && a.values() == b.values()
}

/// An open SQLite connection together with its log.
pub struct Database {
    pub(crate) conn: Connection,
    pub(crate) log: SqlLog,
}

/// A fresh, empty in-memory database with an empty log.
pub(crate) fn open_database() -> (r: Result<Database, rusqlite::Error>)
    ensures
        r matches Ok(db) ==> {
            &&& db.log.texts() == Seq::<Seq<char>>::empty()
            &&& db.log.outcomes() == Seq::<bool>::empty()
            &&& db.log.steps() == Seq::<RowEvent>::empty()
            &&& db.log.names() == Seq::<Seq<Seq<char>>>::empty()
            &&& db.log.values() == Seq::<(usize, SqlValue)>::empty()
        },
{
    match open_in_memory() {
        Ok(conn) => Ok(
            Database {
                conn,
                log: SqlLog {
                    texts: Ghost(Seq::empty()),
                    outcomes: Ghost(Seq::empty()),
                    steps: Ghost(Seq::empty()),
                    names: Ghost(Seq::empty()),
                    values: Ghost(Seq::empty()),
                },
            },
        ),
        Err(e) => Err(e),
    }
}

/// `rusqlite::Connection::execute` with no parameters: runs `sql` and returns
/// the number of rows changed, or the error reported. Claimed: the call is
/// made with `sql` and logged with whether it succeeded; what it does to the
/// database is not described.
#[verifier::external_body]
pub(crate) fn execute(conn: &Connection, log: &mut SqlLog, sql: &str) -> (r: Result<
    usize,
    rusqlite::Error,
>)
    ensures
        final(log).texts() == old(log).texts().push(sql@),
        final(log).outcomes() == old(log).outcomes().push(r is Ok),
        same_results(*final(log), *old(log)),
{
    conn.execute(sql, [])
}

/// `rusqlite::Connection::prepare`: compiles `sql` into a statement, or
/// returns the error reported. Claimed: the call is made with `sql` and
/// logged with whether it succeeded.
#[verifier::external_body]
pub(crate) fn prepare<'c>(conn: &'c Connection, log: &mut SqlLog, sql: &str) -> (r: Result<
    Statement<'c>,
    rusqlite::Error,
>)
    ensures
        final(log).texts() == old(log).texts().push(sql@),
        final(log).outcomes() == old(log).outcomes().push(r is Ok),
        same_results(*final(log), *old(log)),
{
    conn.prepare(sql)
}

/// `rusqlite::Statement::column_names`, each name copied into a `String`.
/// Claimed: the names returned are logged; which names they are depends on
/// the database schema and is not described.
#[verifier::external_body]
pub(crate) fn column_names(stmt: &Statement, log: &mut SqlLog) -> (r: Vec<String>)
    ensures
        same_statements(*final(log), *old(log)),
        final(log).steps() == old(log).steps(),
        final(log).names() == old(log).names().push(r.deep_view()),
        final(log).values() == old(log).values(),
{
    stmt.column_names().map(|c| c.to_string()).collect()
}

/// `rusqlite::Statement::query` with no parameters: starts the statement.
/// Nothing is claimed of the outcome.
#[verifier::external_body]
pub(crate) fn start_query<'s, 'c>(stmt: &'s mut Statement<'c>) -> (r: Result<
    Rows<'s>,
    rusqlite::Error,
>) {
    stmt.query([])
}

/// `rusqlite::Rows::next`: the next result row, `None` once no rows remain,
/// or the error SQLite reports. Claimed: the step is logged as what it gave;
/// which row comes is not described.
#[verifier::external_body]
pub(crate) fn next_row<'r, 's>(rows: &'r mut Rows<'s>, log: &mut SqlLog) -> (r: Result<
    Option<&'r Row<'s>>,
    rusqlite::Error,
>)
    ensures
        same_statements(*final(log), *old(log)),
        final(log).steps() == old(log).steps().push(
            match r {
                Ok(Some(_)) => RowEvent::Row,
                Ok(None) => RowEvent::End,
                Err(_) => RowEvent::Failed,
            },
        ),
        final(log).names() == old(log).names(),
        final(log).values() == old(log).values(),
{
    rows.next()
}

/// `rusqlite::Row::get_ref`: the value in column `column` of the row, one
/// `SqlValue` variant for each `ValueRef` variant; a real number is handed
/// over as the text Rust's `Display` writes for it, and text that is not
/// UTF-8 has its bad bytes replaced. Claimed: a value read is logged with
/// `column`; which value it is comes from the database and is not described.
#[verifier::external_body]
pub(crate) fn row_value(row: &Row, log: &mut SqlLog, column: usize) -> (r: Result<
    SqlValue,
    rusqlite::Error,
>)
    ensures
        same_statements(*final(log), *old(log)),
        final(log).steps() == old(log).steps(),
        final(log).names() == old(log).names(),
        final(log).values() == match r {
            Ok(v) => old(log).values().push((column, v)),
            Err(_) => old(log).values(),
        },
{
    match row.get_ref(column) {
        Ok(ValueRef::Null) => Ok(SqlValue::Null),
        Ok(ValueRef::Integer(n)) => Ok(SqlValue::Integer(n)),
        Ok(ValueRef::Real(x)) => Ok(SqlValue::Real(x.to_string())),
        Ok(ValueRef::Text(t)) => Ok(SqlValue::Text(String::from_utf8_lossy(t).into_owned())),
        Ok(ValueRef::Blob(b)) => Ok(SqlValue::Blob(b.to_vec())),
        Err(e) => Err(e),
    }
}

} // verus!
