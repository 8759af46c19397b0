//! Run SQL queries over CSV files: each file is loaded into an in-memory
//! SQLite table and query results are rendered back as CSV text.

pub mod console;
pub mod csv_source;
pub mod csv_utils;
mod database;
pub mod db_utils;
pub mod errors;
pub mod executor;
pub mod statements;
pub mod text;

pub use csv_utils::{db_data_to_csv_output, db_data_to_string, SqlValue};
pub use db_utils::{escape_columns, escape_values, AllString};
pub use errors::CsvQueryError;
pub use executor::Executor;
pub use console::{next_action, parse_delimiter, ConsoleAction, ConsoleInput};
pub use database::RowEvent;
