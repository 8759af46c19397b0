//! The executor: loads CSV inputs into an in-memory SQLite database, one table
//! per input, and renders query results as CSV.

use vstd::prelude::*;

use rusqlite::{Connection, Rows, Statement};

use crate::csv_source::{csv_header_fields, csv_record_fields, read_csv_headers, read_csv_records};
use crate::csv_utils::{
    header_line, push_header_line, push_row_line, query_output, result_rows_fit, rows_text, SqlValue,
};
use crate::database::{
    column_names, execute, next_row, open_database, prepare, row_value, same_results,
    same_statements, start_query, Database, RowEvent, SqlLog,
};
use crate::errors::CsvQueryError;
use crate::statements::{create_table_query, create_table_sql, insert_query, insert_sql};

verus! {

/// The content of one CSV input: its header row and its data rows.
pub struct CsvTable {
    pub columns: Seq<Seq<char>>,
    pub rows: Seq<Seq<Seq<char>>>,
}

/// The table that the `csv` crate reads from `data`, or `None` where it
/// reports an error on the header row or on a data row.
pub open spec fn loaded_table(data: Seq<u8>, delimiter: u8) -> Option<CsvTable> {
    match (csv_header_fields(data, delimiter), csv_record_fields(data, delimiter)) {
        (Some(columns), Some(rows)) => Some(CsvTable { columns, rows }),
        _ => None,
    }
}

/// Whether the first `k` inputs all read as tables.
pub open spec fn inputs_read(inputs: Seq<Seq<u8>>, delimiter: u8, k: int) -> bool {
    forall|j: int| 0 <= j < k ==> (#[trigger] loaded_table(inputs[j], delimiter)) is Some
}

/// The tables read from the inputs, in order.
pub open spec fn loaded_tables(inputs: Seq<Seq<u8>>, delimiter: u8) -> Seq<CsvTable> {
    inputs.map_values(|data: Seq<u8>| loaded_table(data, delimiter)->0)
}

/// The statements that load the given tables: for table number `k + 1`, the
/// statement that creates it from the header row of input `k`, then the one
/// that inserts the data rows of input `k`.
pub open spec fn load_script(tables: Seq<CsvTable>) -> Seq<Seq<char>>
    decreases tables.len(),
{
    if tables.len() == 0 {
        Seq::empty()
    } else {
        let n = tables.len();
        let t = tables.last();
        load_script(tables.drop_last()) + seq![
            create_table_sql(t.columns, n),
            insert_sql(t.columns, t.rows, n),
        ]
    }
}

/// Whether every data row of `table` has one value per column.
pub open spec fn rows_fit(table: CsvTable) -> bool {
    forall|i: int| 0 <= i < table.rows.len() ==> #[trigger] table.rows[i].len() == table.columns.len()
}

/// `n` statements that all succeeded.
pub open spec fn all_succeeded(n: nat) -> Seq<bool> {
    Seq::new(n, |i: int| true)
}

/// The values of one row as the log records them: each with its column index.
pub open spec fn indexed(row: Seq<SqlValue>) -> Seq<(usize, SqlValue)> {
    Seq::new(row.len(), |i: int| (i as usize, row[i]))
}

/// The values of the rows, one row after the other, as the log records them.
pub open spec fn value_log(rows: Seq<Seq<SqlValue>>) -> Seq<(usize, SqlValue)>
    decreases rows.len(),
{
    if rows.len() == 0 {
        Seq::empty()
    } else {
        value_log(rows.drop_last()) + indexed(rows.last())
    }
}

/// `n` steps that each delivered a row.
pub open spec fn delivered_rows(n: nat) -> Seq<RowEvent> {
    Seq::new(n, |i: int| RowEvent::Row)
}

/// The steps from `before` to `after` delivered `n` rows and then the report
/// that no rows remain (or, after `u64::MAX` rows, stopped asking).
pub open spec fn rows_to_end(before: Seq<RowEvent>, after: Seq<RowEvent>, n: nat) -> bool {
    ||| after == before + delivered_rows(n) + seq![RowEvent::End]
    ||| n == u64::MAX && after == before + delivered_rows(n)
}

/// The rows `rows` were read to the end: the steps delivered them and then
/// the end report, and the values read are exactly theirs, column by column.
pub open spec fn read_to_end(
    steps_before: Seq<RowEvent>,
    steps_after: Seq<RowEvent>,
    values_before: Seq<(usize, SqlValue)>,
    values_after: Seq<(usize, SqlValue)>,
    rows: Seq<Seq<SqlValue>>,
) -> bool {
    &&& rows_to_end(steps_before, steps_after, rows.len())
    &&& values_after == values_before + value_log(rows)
}

/// The rows `rows` were read and then reading failed: either the next step
/// failed, or one more row was delivered and reading its values failed after
/// fewer than `width` of them.
pub open spec fn read_until_failure(
    steps_before: Seq<RowEvent>,
    steps_after: Seq<RowEvent>,
    values_before: Seq<(usize, SqlValue)>,
    values_after: Seq<(usize, SqlValue)>,
    rows: Seq<Seq<SqlValue>>,
    width: nat,
) -> bool {
    ||| {
        &&& steps_after == steps_before + delivered_rows(rows.len()) + seq![RowEvent::Failed]
        &&& values_after == values_before + value_log(rows)
    }
    ||| {
        &&& steps_after == steps_before + delivered_rows(rows.len() + 1)
        &&& exists|part: Seq<SqlValue>|
            part.len() < width && values_after == values_before + value_log(rows)
                + #[trigger] indexed(part)
    }
}

/// Whether every row has `width` values.
pub open spec fn rows_of_width(rows: Seq<Seq<SqlValue>>, width: nat) -> bool {
    forall|i: int| 0 <= i < rows.len() ==> #[trigger] rows[i].len() == width
}

proof fn lemma_prefix_push(p: Seq<Seq<char>>, s: Seq<Seq<char>>, q: Seq<char>)
    requires
        p.is_prefix_of(s),
    ensures
        p.is_prefix_of(s.push(q)),
{
    assert(s.push(q).subrange(0, p.len() as int) =~= s.subrange(0, p.len() as int));
}

proof fn lemma_load_script_len(tables: Seq<CsvTable>)
    ensures
        load_script(tables).len() == 2 * tables.len(),
    decreases tables.len(),
{
    if tables.len() > 0 {
        lemma_load_script_len(tables.drop_last());
    }
}

proof fn lemma_all_succeeded_push(n: nat)
    ensures
        all_succeeded(n).push(true) == all_succeeded(n + 1),
{
    assert(all_succeeded(n).push(true) =~= all_succeeded(n + 1));
}

proof fn lemma_delivered_rows_push(n: nat)
    ensures
        delivered_rows(n).push(RowEvent::Row) == delivered_rows(n + 1),
{
    assert(delivered_rows(n).push(RowEvent::Row) =~= delivered_rows(n + 1));
}

proof fn lemma_indexed_push(row: Seq<SqlValue>, v: SqlValue)
    requires
        row.len() <= usize::MAX,
    ensures
        indexed(row.push(v)) == indexed(row).push((row.len() as usize, v)),
{
    assert(indexed(row.push(v)) =~= indexed(row).push((row.len() as usize, v)));
}

/// Main struct that reads the CSV inputs into a SQLite database and renders
/// query results as CSV into its output.
pub struct Executor {
    db: Database,
    output: String,
    delimiter: u8,
    tables: Ghost<Seq<CsvTable>>,
}

impl Executor {
    /// The CSV text written so far and not yet taken.
    pub closed spec fn output_text(&self) -> Seq<char> {
        self.output@
    }

    /// The delimiter of the inputs and of the output.
    pub closed spec fn delimiter_byte(&self) -> u8 {
        self.delimiter
    }

    /// The tables loaded, table number `k + 1` from input `k`.
    pub closed spec fn tables(&self) -> Seq<CsvTable> {
        self.tables@
    }

    /// Every SQL text the connection was given to run or prepare, in order,
    /// as those calls log it.
    pub closed spec fn submitted_sql(&self) -> Seq<Seq<char>> {
        self.db.log.texts()
    }

    /// For each of those texts, whether running or preparing it succeeded.
    pub closed spec fn sql_outcomes(&self) -> Seq<bool> {
        self.db.log.outcomes()
    }

    /// Every step taken through the rows of the queries run, in order.
    pub closed spec fn row_steps(&self) -> Seq<RowEvent> {
        self.db.log.steps()
    }

    /// The column names each query run reported, in order.
    pub closed spec fn reported_columns(&self) -> Seq<Seq<Seq<char>>> {
        self.db.log.names()
    }

    /// Every value read from a result row, with its column index, in order.
    pub closed spec fn values_read(&self) -> Seq<(usize, SqlValue)> {
        self.db.log.values()
    }

    /// What holds of an executor however it was used: its tables have one
    /// value per column in each row, and the statements that loaded them came
    /// first, before anything else given to the connection, and all succeeded.
    pub open spec fn well_formed(&self) -> bool {
        &&& forall|k: int| 0 <= k < self.tables().len() ==> rows_fit(#[trigger] self.tables()[k])
        &&& load_script(self.tables()).is_prefix_of(self.submitted_sql())
        &&& self.sql_outcomes().len() == self.submitted_sql().len()
        &&& forall|i: int|
            0 <= i < load_script(self.tables()).len() ==> #[trigger] self.sql_outcomes()[i]
    }

    /// Reads each input as CSV with `delimiter` into table number `k + 1`
    /// (`table1`, `table2`, ...) of a fresh in-memory database. Succeeds only
    /// where every statement that creates and fills a table succeeds.
    pub fn new(inputs: Vec<Vec<u8>>, delimiter: u8) -> (r: Result<Executor, CsvQueryError>)
        ensures
            match r {
                Ok(e) => {
                    &&& inputs_read(inputs.deep_view(), delimiter, inputs.len() as int)
                    &&& e.tables() == loaded_tables(inputs.deep_view(), delimiter)
                    &&& e.submitted_sql() == load_script(e.tables())
                    &&& e.sql_outcomes() == all_succeeded(e.submitted_sql().len())
                    &&& e.row_steps() == Seq::<RowEvent>::empty()
                    &&& e.reported_columns() == Seq::<Seq<Seq<char>>>::empty()
                    &&& e.values_read() == Seq::<(usize, SqlValue)>::empty()
                    &&& e.well_formed()
                    &&& e.delimiter_byte() == delimiter
                    &&& e.output_text() == Seq::<char>::empty()
                },
                Err(CsvQueryError::OpenDatabase(_)) => true,
                Err(CsvQueryError::ReadHeaders(_)) => exists|k: int|
                    0 <= k < inputs.len() && inputs_read(inputs.deep_view(), delimiter, k)
                        && csv_header_fields(#[trigger] inputs@[k]@, delimiter) is None,
                Err(CsvQueryError::CreateTable { query, .. }) => exists|k: int|
                    0 <= k < inputs.len() && inputs_read(inputs.deep_view(), delimiter, k)
                        && csv_header_fields(#[trigger] inputs@[k]@, delimiter) is Some
                        && query@ == create_table_sql(
                        csv_header_fields(inputs@[k]@, delimiter)->0,
                        (k + 1) as nat,
                    ),
                Err(CsvQueryError::ReadRow(_)) => exists|k: int|
                    0 <= k < inputs.len() && inputs_read(inputs.deep_view(), delimiter, k)
                        && csv_header_fields(#[trigger] inputs@[k]@, delimiter) is Some
                        && csv_record_fields(inputs@[k]@, delimiter) is None,
                Err(CsvQueryError::InsertRows(_)) => exists|k: int|
                    0 <= k < inputs.len() && inputs_read(inputs.deep_view(), delimiter, k)
                        && (#[trigger] loaded_table(inputs@[k]@, delimiter)) is Some,
                Err(_) => false,
            },
    {
        let mut db = match Self::create_database() {
            Ok(db) => db,
            Err(e) => return Err(e),
        };
        let tables = match Self::process_csv_files(&inputs, delimiter, &mut db) {
            Ok(tables) => tables,
            Err(e) => return Err(e),
        };
        proof {
            lemma_load_script_len(tables@);
            assert(Seq::<Seq<char>>::empty() + load_script(tables@) =~= load_script(tables@));
            assert(Seq::<bool>::empty() + all_succeeded(load_script(tables@).len())
                =~= all_succeeded(load_script(tables@).len()));
        }
        Ok(Executor { db, output: String::new(), delimiter, tables })
    }

    fn create_database() -> (r: Result<Database, CsvQueryError>)
        ensures
            match r {
                Ok(db) => {
                    &&& db.log.texts() == Seq::<Seq<char>>::empty()
                    &&& db.log.outcomes() == Seq::<bool>::empty()
                    &&& db.log.steps() == Seq::<RowEvent>::empty()
                    &&& db.log.names() == Seq::<Seq<Seq<char>>>::empty()
                    &&& db.log.values() == Seq::<(usize, SqlValue)>::empty()
                },
                Err(e) => e is OpenDatabase,
            },
    {
        match open_database() {
            Ok(db) => Ok(db),
            Err(e) => Err(CsvQueryError::OpenDatabase(e)),
        }
    }

    fn process_csv_files(inputs: &Vec<Vec<u8>>, delimiter: u8, db: &mut Database) -> (r: Result<
        Ghost<Seq<CsvTable>>,
        CsvQueryError,
    >)
        ensures
            same_results(final(db).log, old(db).log),
            match r {
                Ok(tables) => {
                    &&& inputs_read(inputs.deep_view(), delimiter, inputs.len() as int)
                    &&& tables@ == loaded_tables(inputs.deep_view(), delimiter)
                    &&& final(db).log.texts() == old(db).log.texts() + load_script(tables@)
                    &&& final(db).log.outcomes() == old(db).log.outcomes() + all_succeeded(
                        load_script(tables@).len(),
                    )
                    &&& forall|k: int| 0 <= k < tables@.len() ==> rows_fit(#[trigger] tables@[k])
                },
                Err(CsvQueryError::ReadHeaders(_)) => exists|k: int|
                    0 <= k < inputs.len() && inputs_read(inputs.deep_view(), delimiter, k)
                        && csv_header_fields(#[trigger] inputs@[k]@, delimiter) is None
                        && final(db).log.texts() == old(db).log.texts() + load_script(
                        loaded_tables(inputs.deep_view(), delimiter).take(k),
                    ) && final(db).log.outcomes() == old(db).log.outcomes() + all_succeeded(
                        load_script(loaded_tables(inputs.deep_view(), delimiter).take(k)).len(),
                    ),
                Err(CsvQueryError::CreateTable { query, .. }) => exists|k: int|
                    0 <= k < inputs.len() && inputs_read(inputs.deep_view(), delimiter, k)
                        && csv_header_fields(#[trigger] inputs@[k]@, delimiter) is Some
                        && query@ == create_table_sql(
                        csv_header_fields(inputs@[k]@, delimiter)->0,
                        (k + 1) as nat,
                    ) && final(db).log.texts() == (old(db).log.texts() + load_script(
                        loaded_tables(inputs.deep_view(), delimiter).take(k),
                    )).push(query@) && final(db).log.outcomes() == (old(db).log.outcomes()
                        + all_succeeded(
                        load_script(loaded_tables(inputs.deep_view(), delimiter).take(k)).len(),
                    )).push(false),
                Err(CsvQueryError::ReadRow(_)) => exists|k: int|
                    0 <= k < inputs.len() && inputs_read(inputs.deep_view(), delimiter, k)
                        && csv_header_fields(#[trigger] inputs@[k]@, delimiter) is Some
                        && csv_record_fields(inputs@[k]@, delimiter) is None
                        && final(db).log.texts() == (old(db).log.texts() + load_script(
                        loaded_tables(inputs.deep_view(), delimiter).take(k),
                    )).push(
                        create_table_sql(csv_header_fields(inputs@[k]@, delimiter)->0, (k + 1) as nat),
                    ) && final(db).log.outcomes() == (old(db).log.outcomes() + all_succeeded(
                        load_script(loaded_tables(inputs.deep_view(), delimiter).take(k)).len(),
                    )).push(true),
                Err(CsvQueryError::InsertRows(_)) => exists|k: int|
                    0 <= k < inputs.len() && inputs_read(inputs.deep_view(), delimiter, k)
                        && (#[trigger] loaded_table(inputs@[k]@, delimiter)) is Some
                        && final(db).log.texts() == old(db).log.texts() + load_script(
                        loaded_tables(inputs.deep_view(), delimiter).take(k + 1),
                    ) && final(db).log.outcomes() == (old(db).log.outcomes() + all_succeeded(
                        (load_script(loaded_tables(inputs.deep_view(), delimiter).take(k + 1)).len()
                            - 1) as nat,
                    )).push(false),
                Err(_) => false,
            },
    {
        let ghost all = inputs.deep_view();
        let ghost start = db.log.texts();
        let ghost start_out = db.log.outcomes();
        let ghost mut tables: Seq<CsvTable> = Seq::empty();
        let n = inputs.len();
        for i in 0..n
            invariant
                n == inputs.len(),
                all == inputs.deep_view(),
                start == old(db).log.texts(),
                start_out == old(db).log.outcomes(),
                same_results(db.log, old(db).log),
                inputs_read(all, delimiter, i as int),
                tables == loaded_tables(all, delimiter).take(i as int),
                tables.len() == i,
                db.log.texts() == start + load_script(tables),
                db.log.outcomes() == start_out + all_succeeded(load_script(tables).len()),
                forall|k: int| 0 <= k < tables.len() ==> rows_fit(#[trigger] tables[k]),
        {
            assert(inputs@[i as int]@ == all[i as int]);
            proof {
                lemma_load_script_len(tables);
            }
            let table_number = i + 1;
            let columns = match Self::get_csv_columns(inputs[i].as_slice(), delimiter) {
                Ok(c) => c,
                Err(e) => {
                    assert(csv_header_fields(inputs@[i as int]@, delimiter) is None);
                    return Err(e);
                },
            };
            let query = create_table_query(&columns, table_number);
            let ghost before_texts = db.log.texts();
            let ghost before_out = db.log.outcomes();
            if let Err(e) = Self::create_table(&db.conn, &mut db.log, &query) {
                proof {
                    assert(csv_header_fields(inputs@[i as int]@, delimiter) is Some);
                }
                return Err(e);
            }
            proof {
                lemma_all_succeeded_push(load_script(tables).len());
                assert(db.log.outcomes() =~= start_out + all_succeeded(load_script(tables).len() + 1));
            }
            let rows = match read_csv_records(inputs[i].as_slice(), delimiter) {
                Ok(rows) => rows,
                Err(e) => {
                    assert(csv_record_fields(inputs@[i as int]@, delimiter) is None);
                    assert(db.log.texts() == before_texts.push(query@));
                    assert(db.log.outcomes() == before_out.push(true));
                    return Err(CsvQueryError::ReadRow(e));
                },
            };
            let insert = insert_query(&columns, &rows, table_number);
            let ghost t = CsvTable { columns: columns.deep_view(), rows: rows.deep_view() };
            let ghost old_tables = tables;
            proof {
                assert(loaded_table(all[i as int], delimiter) == Some(t));
                assert forall|j: int| 0 <= j < t.rows.len() implies #[trigger] t.rows[j].len()
                    == t.columns.len() by {
                    assert(rows@[j].len() == columns.deep_view().len());
                }
                assert(rows_fit(t));
                assert(inputs_read(all, delimiter, i + 1));
                let next = tables.push(t);
                assert(next =~= loaded_tables(all, delimiter).take(i + 1));
                assert(next.drop_last() =~= tables);
                assert(load_script(next) == load_script(tables) + seq![query@, insert@]);
                lemma_load_script_len(next);
                tables = next;
            }
            let r = Self::fill_data(&db.conn, &mut db.log, &insert);
            proof {
                assert(db.log.texts() =~= start + load_script(tables));
                if r is Ok {
                    lemma_all_succeeded_push(load_script(old_tables).len() + 1);
                    assert(db.log.outcomes() =~= start_out + all_succeeded(load_script(tables).len()));
                } else {
                    assert(db.log.outcomes() =~= (start_out + all_succeeded(
                        (load_script(tables).len() - 1) as nat,
                    )).push(false));
                }
            }
            if let Err(e) = r {
                proof {
                    assert(loaded_table(inputs@[i as int]@, delimiter) is Some);
                }
                return Err(e);
            }
        }
        proof {
            assert(loaded_tables(all, delimiter).take(n as int) =~= loaded_tables(all, delimiter));
        }
        Ok(Ghost(tables))
    }

    fn get_csv_columns(data: &[u8], delimiter: u8) -> (r: Result<Vec<String>, CsvQueryError>)
        ensures
            match r {
                Ok(c) => csv_header_fields(data@, delimiter) == Some(c.deep_view()),
                Err(e) => e is ReadHeaders && csv_header_fields(data@, delimiter) is None,
            },
    {
        match read_csv_headers(data, delimiter) {
            Ok(c) => Ok(c),
            Err(e) => Err(CsvQueryError::ReadHeaders(e)),
        }
    }

    fn create_table(conn: &Connection, log: &mut SqlLog, create_query: &String) -> (r: Result<
        (),
        CsvQueryError,
    >)
        ensures
            final(log).texts() == old(log).texts().push(create_query@),
            final(log).outcomes() == old(log).outcomes().push(r is Ok),
            same_results(*final(log), *old(log)),
            r matches Err(e) ==> (e matches CsvQueryError::CreateTable { query, .. } && query@
                == create_query@),
    {
        match execute(conn, log, create_query.as_str()) {
            Ok(_) => Ok(()),
            Err(e) => Err(CsvQueryError::CreateTable { query: create_query.clone(), source: e }),
        }
    }

    fn fill_data(conn: &Connection, log: &mut SqlLog, insert: &String) -> (r: Result<
        (),
        CsvQueryError,
    >)
        ensures
            final(log).texts() == old(log).texts().push(insert@),
            final(log).outcomes() == old(log).outcomes().push(r is Ok),
            same_results(*final(log), *old(log)),
            r matches Err(e) ==> e is InsertRows,
    {
        match execute(conn, log, insert.as_str()) {
            Ok(_) => Ok(()),
            Err(e) => Err(CsvQueryError::InsertRows(e)),
        }
    }

    /// The CSV text written so far and not yet taken.
    pub fn output(&self) -> (o: &str)
        ensures
            o@ == self.output_text(),
    {
        self.output.as_str()
    }

    /// Hands over the CSV text written so far, leaving the output empty.
    pub fn take_output(&mut self) -> (taken: String)
        ensures
            taken@ == old(self).output_text(),
            final(self).output_text() == Seq::<char>::empty(),
            final(self).delimiter_byte() == old(self).delimiter_byte(),
            final(self).tables() == old(self).tables(),
            final(self).submitted_sql() == old(self).submitted_sql(),
            final(self).sql_outcomes() == old(self).sql_outcomes(),
            final(self).row_steps() == old(self).row_steps(),
            final(self).reported_columns() == old(self).reported_columns(),
            final(self).values_read() == old(self).values_read(),
            old(self).well_formed() ==> final(self).well_formed(),
    {
        let mut taken = String::new();
        std::mem::swap(&mut taken, &mut self.output);
        taken
    }

    /// Runs `query` and writes its result as CSV into the output: a header
    /// line with the quoted column names the statement reports, then one line
    /// per row it delivers, with the quoted text of the value in each column,
    /// fields separated by the delimiter, up to its report that no rows
    /// remain. The names and values written are those the connection handed
    /// back, as its log records them; which they are is the database's answer.
    pub fn write_query_results(&mut self, query: &str) -> (r: Result<(), CsvQueryError>)
        ensures
            final(self).delimiter_byte() == old(self).delimiter_byte(),
            final(self).tables() == old(self).tables(),
            final(self).submitted_sql() == old(self).submitted_sql().push(query@),
            final(self).sql_outcomes() == old(self).sql_outcomes().push(
                !(r matches Err(CsvQueryError::PrepareQuery { .. })),
            ),
            old(self).well_formed() ==> final(self).well_formed(),
            match r {
                Ok(()) => exists|columns: Seq<Seq<char>>, rows: Seq<Seq<SqlValue>>|
                    {
                        &&& final(self).reported_columns() == old(self).reported_columns().push(
                            columns,
                        )
                        &&& read_to_end(
                            old(self).row_steps(),
                            final(self).row_steps(),
                            old(self).values_read(),
                            final(self).values_read(),
                            rows,
                        )
                        &&& result_rows_fit(columns, rows)
                        &&& final(self).output_text() == old(self).output_text()
                            + #[trigger] query_output(columns, rows, old(self).delimiter_byte())
                    },
                Err(CsvQueryError::PrepareQuery { query: q, .. }) => {
                    &&& q@ == query@
                    &&& final(self).output_text() == old(self).output_text()
                    &&& final(self).row_steps() == old(self).row_steps()
                    &&& final(self).reported_columns() == old(self).reported_columns()
                    &&& final(self).values_read() == old(self).values_read()
                },
                Err(CsvQueryError::BindParameters(_)) => exists|columns: Seq<Seq<char>>|
                    {
                        &&& final(self).reported_columns() == old(self).reported_columns().push(
                            columns,
                        )
                        &&& final(self).output_text() == old(self).output_text()
                            + #[trigger] header_line(columns, old(self).delimiter_byte())
                        &&& final(self).row_steps() == old(self).row_steps()
                        &&& final(self).values_read() == old(self).values_read()
                    },
                Err(CsvQueryError::ReadResults(_)) => exists|
                    columns: Seq<Seq<char>>,
                    rows: Seq<Seq<SqlValue>>,
                |
                    {
                        &&& final(self).reported_columns() == old(self).reported_columns().push(
                            columns,
                        )
                        &&& read_until_failure(
                            old(self).row_steps(),
                            final(self).row_steps(),
                            old(self).values_read(),
                            final(self).values_read(),
                            rows,
                            columns.len(),
                        )
                        &&& result_rows_fit(columns, rows)
                        &&& final(self).output_text() == old(self).output_text()
                            + #[trigger] query_output(columns, rows, old(self).delimiter_byte())
                    },
                Err(_) => false,
            },
    {
        proof {
            if self.well_formed() {
                lemma_prefix_push(load_script(self.tables@), self.db.log.texts(), query@);
            }
        }
        let r = Self::run_query(&self.db.conn, &mut self.db.log, query, &mut self.output, self.delimiter);
        proof {
            let d = old(self).delimiter_byte();
            assert(self.delimiter == d);
            assert(old(self).output_text() == old(self).output@);
            assert(self.output_text() == self.output@);
            assert(old(self).row_steps() == old(self).db.log.steps());
            assert(self.row_steps() == self.db.log.steps());
            assert(old(self).values_read() == old(self).db.log.values());
            assert(self.values_read() == self.db.log.values());
            assert(old(self).reported_columns() == old(self).db.log.names());
            assert(self.reported_columns() == self.db.log.names());
            if r is Ok {
                let (c, rs) = choose|c: Seq<Seq<char>>, rs: Seq<Seq<SqlValue>>|
                    {
                        &&& self.db.log.names() == old(self).db.log.names().push(c)
                        &&& read_to_end(
                            old(self).db.log.steps(),
                            self.db.log.steps(),
                            old(self).db.log.values(),
                            self.db.log.values(),
                            rs,
                        )
                        &&& result_rows_fit(c, rs)
                        &&& self.output@ == old(self).output@ + #[trigger] query_output(c, rs, d)
                    };
                assert(self.output_text() == old(self).output_text() + query_output(c, rs, d));
            }
            if r matches Err(CsvQueryError::BindParameters(_)) {
                let c = choose|c: Seq<Seq<char>>|
                    {
                        &&& self.db.log.names() == old(self).db.log.names().push(c)
                        &&& self.output@ == old(self).output@ + #[trigger] header_line(c, d)
                        &&& self.db.log.steps() == old(self).db.log.steps()
                        &&& self.db.log.values() == old(self).db.log.values()
                    };
                assert(self.output_text() == old(self).output_text() + header_line(c, d));
            }
            if r matches Err(CsvQueryError::ReadResults(_)) {
                let (c, rs) = choose|c: Seq<Seq<char>>, rs: Seq<Seq<SqlValue>>|
                    {
                        &&& self.db.log.names() == old(self).db.log.names().push(c)
                        &&& read_until_failure(
                            old(self).db.log.steps(),
                            self.db.log.steps(),
                            old(self).db.log.values(),
                            self.db.log.values(),
                            rs,
                            c.len(),
                        )
                        &&& result_rows_fit(c, rs)
                        &&& self.output@ == old(self).output@ + #[trigger] query_output(c, rs, d)
                    };
                assert(self.output_text() == old(self).output_text() + query_output(c, rs, d));
            }
        }
        r
    }

    /// Prepares and runs `query`, writing the header line and then the row
    /// lines into `output`.
    fn run_query(
        conn: &Connection,
        log: &mut SqlLog,
        query: &str,
        output: &mut String,
        delimiter: u8,
    ) -> (r: Result<(), CsvQueryError>)
        ensures
            final(log).texts() == old(log).texts().push(query@),
            final(log).outcomes() == old(log).outcomes().push(
                !(r matches Err(CsvQueryError::PrepareQuery { .. })),
            ),
            match r {
                Ok(()) => exists|columns: Seq<Seq<char>>, rows: Seq<Seq<SqlValue>>|
                    {
                        &&& final(log).names() == old(log).names().push(columns)
                        &&& read_to_end(
                            old(log).steps(),
                            final(log).steps(),
                            old(log).values(),
                            final(log).values(),
                            rows,
                        )
                        &&& result_rows_fit(columns, rows)
                        &&& final(output)@ == old(output)@ + #[trigger] query_output(
                            columns,
                            rows,
                            delimiter,
                        )
                    },
                Err(CsvQueryError::PrepareQuery { query: q, .. }) => {
                    &&& q@ == query@
                    &&& final(output)@ == old(output)@
                    &&& same_results(*final(log), *old(log))
                },
                Err(CsvQueryError::BindParameters(_)) => exists|columns: Seq<Seq<char>>|
                    {
                        &&& final(log).names() == old(log).names().push(columns)
                        &&& final(output)@ == old(output)@ + #[trigger] header_line(columns, delimiter)
                        &&& final(log).steps() == old(log).steps()
                        &&& final(log).values() == old(log).values()
                    },
                Err(CsvQueryError::ReadResults(_)) => exists|
                    columns: Seq<Seq<char>>,
                    rows: Seq<Seq<SqlValue>>,
                |
                    {
                        &&& final(log).names() == old(log).names().push(columns)
                        &&& read_until_failure(
                            old(log).steps(),
                            final(log).steps(),
                            old(log).values(),
                            final(log).values(),
                            rows,
                            columns.len(),
                        )
                        &&& result_rows_fit(columns, rows)
                        &&& final(output)@ == old(output)@ + #[trigger] query_output(
                            columns,
                            rows,
                            delimiter,
                        )
                    },
                Err(_) => false,
            },
    {
        let mut prepared = match Self::prepare_query(conn, log, query) {
            Ok(p) => p,
            Err(e) => return Err(e),
        };
        let ghost start = output@;
        let ghost steps0 = log.steps();
        let ghost values0 = log.values();
        let (columns, width) = Self::write_headers(&prepared, log, output, delimiter);
        let mut rows = match start_query(&mut prepared) {
            Ok(rows) => rows,
            Err(e) => {
                assert(output@ == start + header_line(columns@, delimiter));
                return Err(CsvQueryError::BindParameters(e));
            },
        };
        let written = Self::write_rows(&mut rows, log, output, delimiter, width);
        match written {
            Ok(seen) => {
                assert(output@ == start + query_output(columns@, seen@, delimiter));
                assert(result_rows_fit(columns@, seen@));
                Ok(())
            },
            Err(e) => {
                proof {
                    let seen = choose|seen: Seq<Seq<SqlValue>>|
                        {
                            &&& output@ == start + header_line(columns@, delimiter)
                                + #[trigger] rows_text(seen, delimiter)
                            &&& rows_of_width(seen, width as nat)
                            &&& read_until_failure(
                                steps0,
                                log.steps(),
                                values0,
                                log.values(),
                                seen,
                                width as nat,
                            )
                        };
                    assert(output@ == start + query_output(columns@, seen, delimiter));
                    assert(result_rows_fit(columns@, seen));
                }
                Err(e)
            },
        }
    }

    fn prepare_query<'a>(conn: &'a Connection, log: &mut SqlLog, query: &str) -> (r: Result<
        Statement<'a>,
        CsvQueryError,
    >)
        ensures
            final(log).texts() == old(log).texts().push(query@),
            final(log).outcomes() == old(log).outcomes().push(r is Ok),
            same_results(*final(log), *old(log)),
            r matches Err(e) ==> (e matches CsvQueryError::PrepareQuery { query: q, .. } && q@
                == query@),
    {
        match prepare(conn, log, query) {
            Ok(p) => Ok(p),
            Err(e) => Err(CsvQueryError::PrepareQuery { query: query.to_owned(), source: e }),
        }
    }

    /// Writes the header line with the column names the statement reports;
    /// returns those names, as a ghost value, and how many there are.
    fn write_headers(prepared: &Statement, log: &mut SqlLog, output: &mut String, delimiter: u8) -> (r: (
        Ghost<Seq<Seq<char>>>,
        usize,
    ))
        ensures
            final(output)@ == old(output)@ + header_line(r.0@, delimiter),
            r.1 == r.0@.len(),
            same_statements(*final(log), *old(log)),
            final(log).steps() == old(log).steps(),
            final(log).names() == old(log).names().push(r.0@),
            final(log).values() == old(log).values(),
    {
        let names = column_names(prepared, log);
        push_header_line(output, &names, delimiter);
        (Ghost(names.deep_view()), names.len())
    }

    /// The values of one result row: one per column of the result, that is,
    /// `width` of them, read in column order. On an error, the values read
    /// before it are the first columns of the row.
    fn read_row(row: &rusqlite::Row, log: &mut SqlLog, width: usize) -> (r: Result<
        Vec<SqlValue>,
        CsvQueryError,
    >)
        ensures
            same_statements(*final(log), *old(log)),
            final(log).steps() == old(log).steps(),
            final(log).names() == old(log).names(),
            match r {
                Ok(values) => {
                    &&& values.len() == width
                    &&& final(log).values() == old(log).values() + indexed(values@)
                },
                Err(e) => e is ReadResults && exists|part: Seq<SqlValue>|
                    part.len() < width && final(log).values() == old(log).values()
                        + #[trigger] indexed(part),
            },
    {
        let ghost start = log.values();
        let mut values: Vec<SqlValue> = Vec::new();
        for i in 0..width
            invariant
                values.len() == i,
                same_statements(*log, *old(log)),
                log.steps() == old(log).steps(),
                log.names() == old(log).names(),
                start == old(log).values(),
                log.values() == start + indexed(values@),
        {
            match row_value(row, log, i) {
                Ok(v) => {
                    proof {
                        lemma_indexed_push(values@, v);
                    }
                    values.push(v);
                },
                Err(e) => {
                    assert(log.values() == start + indexed(values@));
                    return Err(CsvQueryError::ReadResults(e));
                },
            }
        }
        Ok(values)
    }

    /// Writes one line per result row, each row read with `width` values, until
    /// the statement reports that no rows remain; returns the rows written,
    /// as a ghost value. Every row delivered is written, except, on an error
    /// while reading its values, the row being read; the lines already
    /// written stay in the output. It gives up after `u64::MAX` rows.
    fn write_rows(
        rows: &mut Rows,
        log: &mut SqlLog,
        output: &mut String,
        delimiter: u8,
        width: usize,
    ) -> (r: Result<Ghost<Seq<Seq<SqlValue>>>, CsvQueryError>)
        ensures
            same_statements(*final(log), *old(log)),
            final(log).names() == old(log).names(),
            match r {
                Ok(seen) => {
                    &&& final(output)@ == old(output)@ + rows_text(seen@, delimiter)
                    &&& rows_of_width(seen@, width as nat)
                    &&& read_to_end(
                        old(log).steps(),
                        final(log).steps(),
                        old(log).values(),
                        final(log).values(),
                        seen@,
                    )
                },
                Err(e) => e is ReadResults && exists|seen: Seq<Seq<SqlValue>>|
                    {
                        &&& final(output)@ == old(output)@ + #[trigger] rows_text(seen, delimiter)
                        &&& rows_of_width(seen, width as nat)
                        &&& read_until_failure(
                            old(log).steps(),
                            final(log).steps(),
                            old(log).values(),
                            final(log).values(),
                            seen,
                            width as nat,
                        )
                    },
            },
    {
        let ghost start = output@;
        let ghost first = log.steps();
        let ghost first_values = log.values();
        let ghost mut seen: Seq<Seq<SqlValue>> = Seq::empty();
        let mut count: u64 = 0;
        while count < u64::MAX
            invariant
                start == old(output)@,
                first == old(log).steps(),
                first_values == old(log).values(),
                same_statements(*log, *old(log)),
                log.names() == old(log).names(),
                output@ == start + rows_text(seen, delimiter),
                rows_of_width(seen, width as nat),
                seen.len() == count,
                log.steps() == first + delivered_rows(seen.len()),
                log.values() == first_values + value_log(seen),
            decreases u64::MAX - count,
        {
            match next_row(rows, log) {
                Ok(Some(row)) => {
                    let values = match Self::read_row(row, log, width) {
                        Ok(values) => values,
                        Err(e) => {
                            proof {
                                lemma_delivered_rows_push(seen.len());
                                assert(log.steps() =~= first + delivered_rows(seen.len() + 1));
                                let part = choose|part: Seq<SqlValue>|
                                    part.len() < width && log.values() == first_values + value_log(
                                        seen,
                                    ) + #[trigger] indexed(part);
                                assert(read_until_failure(
                                    first,
                                    log.steps(),
                                    first_values,
                                    log.values(),
                                    seen,
                                    width as nat,
                                ));
                                assert(output@ == start + rows_text(seen, delimiter));
                            }
                            return Err(e);
                        },
                    };
                    push_row_line(output, &values, delimiter);
                    proof {
                        lemma_delivered_rows_push(seen.len());
                        let next = seen.push(values@);
                        assert(next.drop_last() =~= seen);
                        assert(value_log(next) == value_log(seen) + indexed(values@));
                        assert(log.values() =~= first_values + value_log(next));
                        seen = next;
                        assert(log.steps() =~= first + delivered_rows(seen.len()));
                    }
                },
                Ok(None) => {
                    assert(log.steps() =~= first + delivered_rows(seen.len()) + seq![RowEvent::End]);
                    assert(output@ == start + rows_text(seen, delimiter));
                    return Ok(Ghost(seen));
                },
                Err(e) => {
                    assert(log.steps() =~= first + delivered_rows(seen.len()) + seq![
                        RowEvent::Failed,
                    ]);
                    assert(read_until_failure(
                        first,
                        log.steps(),
                        first_values,
                        log.values(),
                        seen,
                        width as nat,
                    ));
                    assert(output@ == start + rows_text(seen, delimiter));
                    return Err(CsvQueryError::ReadResults(e));
                },
            }
            count = count + 1;
        }
        Ok(Ghost(seen))
    }
}

} // verus!
