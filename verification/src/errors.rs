//! The ways loading CSV files or running a query can fail.

use vstd::prelude::*;

verus! {

/// A failure, with the step that failed and the error reported under it.
#[derive(Debug)]
pub enum CsvQueryError {
    /// Opening the in-memory database failed.
    OpenDatabase(rusqlite::Error),
    /// The header row of an input could not be read.
    ReadHeaders(csv::Error),
    /// Creating a table failed; `query` is the statement that was run.
    CreateTable { query: String, source: rusqlite::Error },
    /// A data row of an input could not be read.
    ReadRow(csv::Error),
    /// Inserting the rows of an input failed.
    InsertRows(rusqlite::Error),
    /// The query could not be prepared; `query` is its text.
    PrepareQuery { query: String, source: rusqlite::Error },
    /// The query could not be started.
    BindParameters(rusqlite::Error),
    /// A result row could not be read.
    ReadResults(rusqlite::Error),
    /// The delimiter given is longer than one byte.
    InvalidDelimiter(String),
}

} // verus!
