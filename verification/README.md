# csv_query

Run SQL queries over CSV files. Each input is read as CSV (with a one-byte
delimiter) into its own table of an in-memory SQLite database — the first
input becomes `table1`, the second `table2`, and so on — and query results
are rendered back as CSV: a header line of quoted column names, then one line
of quoted values per row.

Layout:

- `src/` — the verified library (Verus).
  - `executor.rs` — `Executor`: loading inputs, running queries, the output buffer.
  - `statements.rs` — the `CREATE TABLE` and `INSERT` statements for an input.
  - `db_utils.rs` — quoting for SQL, `AllString`, and the quoting laws.
  - `csv_utils.rs` — database values and the CSV output format.
  - `text.rs` — decimal numbers, quoting and joining of text.
  - `console.rs` — the delimiter argument and the interactive console's decisions.
  - `csv_source.rs`, `database.rs` — the calls into the `csv` and `rusqlite` crates.
  - `errors.rs` — `CsvQueryError`.
- `app/` — the `csv-query` command line program: arguments, files, terminal.
- `tests/` — tests of the library.
