use csv_query::console::is_blank;
use csv_query::csv_utils::{csv_header_line, csv_query_output, csv_row_line, string_to_csv_output};
use csv_query::statements::{create_table_query, insert_query};
use csv_query::text::{push_decimal, push_int_decimal};
use csv_query::{
    db_data_to_csv_output, db_data_to_string, escape_columns, escape_values, next_action,
    parse_delimiter, AllString, ConsoleAction, ConsoleInput, CsvQueryError, Executor, SqlValue,
};

fn strings(items: &[&str]) -> Vec<String> {
    items.iter().map(|s| s.to_string()).collect()
}

fn run(inputs: &[&str], delimiter: u8, query: &str) -> String {
    let inputs = inputs.iter().map(|s| s.as_bytes().to_vec()).collect();
    let mut executor = Executor::new(inputs, delimiter).unwrap();
    executor.write_query_results(query).unwrap();
    executor.take_output()
}

const USERS: &str = "user_id;name\n1;User 1\n2;User 2\n3;User 3\n";
const CREDITS: &str = "user_id;credit\n1;5\n1;30\n2;3\n1;4\n3;1\n";

#[test]
fn readme_example() {
    let out = run(
        &[USERS, CREDITS],
        b';',
        "select
            u.name, sum(c.credit) credits, avg(c.credit) avg_credits
        from table1 u
        join table2 c
            on u.user_id = c.user_id
        group by u.user_id
        having avg(c.credit) >= 3",
    );
    assert_eq!(
        out,
        "\"name\";\"credits\";\"avg_credits\"\n\"User 1\";\"39\";\"13\"\n\"User 2\";\"3\";\"3\"\n"
    );
}

#[test]
fn values_with_quotes_survive_loading() {
    let out = run(&["name,note\nit's,\"say \"\"hi\"\"\"\n"], b',', "select name, note from table1");
    assert_eq!(out, "\"name\",\"note\"\n\"it's\",\"say \"hi\"\"\n");
}

#[test]
fn other_delimiter_and_value_kinds() {
    let out = run(
        &["a|b\nx|1\n"],
        b'|',
        "select a, -7, 2.5, null, x'00', b + 1 from table1",
    );
    assert_eq!(
        out,
        "\"a\"|\"-7\"|\"2.5\"|\"null\"|\"x'00'\"|\"b + 1\"\n\"x\"|\"-7\"|\"2.5\"|\"\"|\"Cannot parse binary\"|\"2\"\n"
    );
}

#[test]
fn output_accumulates_until_taken() {
    let mut executor = Executor::new(vec![b"a\n1\n2\n".to_vec()], b';').unwrap();
    executor.write_query_results("select a from table1 where a = '1'").unwrap();
    executor.write_query_results("select count(*) from table1").unwrap();
    assert_eq!(executor.output(), "\"a\"\n\"1\"\n\"count(*)\"\n\"2\"\n");
    assert_eq!(executor.take_output(), "\"a\"\n\"1\"\n\"count(*)\"\n\"2\"\n");
    assert_eq!(executor.output(), "");
}

#[test]
fn tables_are_numbered_by_input() {
    let out = run(&["x\n1\n", "y\n2\n", "z\n3\n"], b';', "select z, y, x from table3, table2, table1");
    assert_eq!(out, "\"z\";\"y\";\"x\"\n\"3\";\"2\";\"1\"\n");
}

#[test]
fn query_without_rows_writes_header_only() {
    let out = run(&["a\n1\n"], b';', "select a from table1 where a = 'none'");
    assert_eq!(out, "\"a\"\n");
}

#[test]
fn error_prepare_query_keeps_output() {
    let mut executor = Executor::new(vec![b"a\n1\n".to_vec()], b';').unwrap();
    let err = executor.write_query_results("select nothing from nowhere").unwrap_err();
    match err {
        CsvQueryError::PrepareQuery { query, .. } => assert_eq!(query, "select nothing from nowhere"),
        other => panic!("unexpected {:?}", other),
    }
    assert_eq!(executor.output(), "");
}

#[test]
fn error_read_results_keeps_rows_before() {
    let mut executor = Executor::new(vec![b"a\n1\n2\n".to_vec()], b';').unwrap();
    let err = executor
        .write_query_results(
            "select case when a = '2' then abs(a * 0 - 9223372036854775807 - 1) else a end as v from table1",
        )
        .unwrap_err();
    assert!(matches!(err, CsvQueryError::ReadResults(_)));
    assert_eq!(executor.output(), "\"v\"\n\"1\"\n");
}

#[test]
fn error_header_only_input_fails_insert() {
    let err = Executor::new(vec![b"a;b\n".to_vec()], b';').err().unwrap();
    assert!(matches!(err, CsvQueryError::InsertRows(_)));
}

#[test]
fn error_empty_input_fails_create_table() {
    let err = Executor::new(vec![vec![]], b';').err().unwrap();
    match err {
        CsvQueryError::CreateTable { query, .. } => assert_eq!(query, "CREATE TABLE table1 ()"),
        other => panic!("unexpected {:?}", other),
    }
}

#[test]
fn error_bad_header_encoding() {
    let err = Executor::new(vec![b"a;\xff\n1;2\n".to_vec()], b';').err().unwrap();
    assert!(matches!(err, CsvQueryError::ReadHeaders(_)));
}

#[test]
fn error_unequal_row() {
    let err = Executor::new(vec![b"a;b\n1;2\n3\n".to_vec()], b';').err().unwrap();
    assert!(matches!(err, CsvQueryError::ReadRow(_)));
}

#[test]
fn error_second_input_reported() {
    let err = Executor::new(vec![b"a\n1\n".to_vec(), b"a;b\n1\n".to_vec()], b';').err().unwrap();
    assert!(matches!(err, CsvQueryError::ReadRow(_)));
}

#[test]
fn statement_texts() {
    let columns = strings(&["user", "age"]);
    assert_eq!(
        create_table_query(&columns, 12),
        "CREATE TABLE table12 (\"user\" VARCHAR NULL, \"age\" VARCHAR NULL)"
    );
    let rows = vec![strings(&["ann", "3"]), strings(&["o'neil", "4"])];
    assert_eq!(
        insert_query(&columns, &rows, 1),
        "INSERT INTO table1 (\"user\", \"age\") VALUES\n('ann', '3'),\n('o''neil', '4')"
    );
    assert_eq!(insert_query(&columns, &vec![], 2), "INSERT INTO table2 (\"user\", \"age\") VALUES\n");
}

#[test]
fn escaping() {
    assert_eq!(escape_columns(&strings(&["a", "b c"])), strings(&["\"a\"", "\"b c\""]));
    assert_eq!(
        escape_values(&strings(&["it's", "''", "", "plain"])),
        strings(&["'it''s'", "''''''", "''", "'plain'"])
    );
}

#[test]
fn value_texts() {
    assert_eq!(db_data_to_string(&SqlValue::Null), "");
    assert_eq!(db_data_to_string(&SqlValue::Integer(0)), "0");
    assert_eq!(db_data_to_string(&SqlValue::Integer(-42)), "-42");
    assert_eq!(db_data_to_string(&SqlValue::Integer(i64::MIN)), "-9223372036854775808");
    assert_eq!(db_data_to_string(&SqlValue::Integer(i64::MAX)), "9223372036854775807");
    assert_eq!(db_data_to_string(&SqlValue::Real(1.5f64.to_string())), "1.5");
    assert_eq!(db_data_to_string(&SqlValue::Text("héllo".to_string())), "héllo");
    assert_eq!(db_data_to_string(&SqlValue::Blob(vec![1, 2])), "Cannot parse binary");
    assert_eq!(db_data_to_csv_output(&SqlValue::Integer(7)), "\"7\"");
    assert_eq!(db_data_to_csv_output(&SqlValue::Null), "\"\"");
    assert_eq!(string_to_csv_output("a\"b"), "\"a\"b\"");
}

#[test]
fn all_string() {
    assert_eq!(AllString::column_result(&SqlValue::Integer(12)).into(), "12");
    assert_eq!(AllString::column_result(&SqlValue::Text("x".to_string())).into(), "x");
    assert_eq!(AllString::column_result(&SqlValue::Null).into(), "");
}

#[test]
fn decimal_text() {
    let mut s = String::from("n=");
    push_decimal(&mut s, 1234567890);
    assert_eq!(s, "n=1234567890");
    let mut s = String::new();
    push_decimal(&mut s, u64::MAX);
    assert_eq!(s, u64::MAX.to_string());
    let mut s = String::new();
    push_int_decimal(&mut s, -305);
    assert_eq!(s, "-305");
    assert_eq!("-305".parse::<i64>().unwrap(), -305);
}

#[test]
fn output_lines() {
    let columns = strings(&["a", "b"]);
    assert_eq!(csv_header_line(&columns, b','), "\"a\",\"b\"\n");
    let row = vec![SqlValue::Integer(1), SqlValue::Text("x".to_string())];
    assert_eq!(csv_row_line(&row, b';'), "\"1\";\"x\"\n");
    assert_eq!(csv_row_line(&vec![], b';'), "\n");
    let rows = vec![row, vec![SqlValue::Null, SqlValue::Integer(-1)]];
    let out = csv_query_output(&columns, &rows, b'\t');
    assert_eq!(out, "\"a\"\t\"b\"\n\"1\"\t\"x\"\n\"\"\t\"-1\"\n");
    assert_eq!(out.matches('\n').count(), rows.len() + 1);
}

#[test]
fn delimiter_argument() {
    assert_eq!(parse_delimiter(";").unwrap(), b';');
    assert_eq!(parse_delimiter("\t").unwrap(), b'\t');
    match parse_delimiter(";;") {
        Err(CsvQueryError::InvalidDelimiter(d)) => assert_eq!(d, ";;"),
        other => panic!("unexpected {:?}", other),
    }
    assert!(matches!(parse_delimiter("é"), Err(CsvQueryError::InvalidDelimiter(_))));
}

#[test]
fn console_decisions() {
    assert_eq!(next_action(ConsoleInput::Line("select 1".to_string())), ConsoleAction::Run("select 1".to_string()));
    assert_eq!(next_action(ConsoleInput::Line("   \t ".to_string())), ConsoleAction::Ignore);
    assert_eq!(next_action(ConsoleInput::Line(String::new())), ConsoleAction::Ignore);
    assert_eq!(next_action(ConsoleInput::Line("\u{3000}".to_string())), ConsoleAction::Ignore);
    assert_eq!(next_action(ConsoleInput::Interrupted), ConsoleAction::Finish);
    assert_eq!(next_action(ConsoleInput::Eof), ConsoleAction::Finish);
    assert_eq!(next_action(ConsoleInput::Failed), ConsoleAction::Abort);
    for s in ["", " ", "\n\r\t", "\u{85}\u{a0}", " x ", "\u{200b}"] {
        assert_eq!(is_blank(s), s.trim().is_empty(), "{:?}", s);
    }
}

#[test]
fn column_names_with_spaces_are_identifiers() {
    let out = run(&["first name;x\nAnn;1\n"], b';', "select \"first name\" from table1");
    assert_eq!(out, "\"first name\"\n\"Ann\"\n");
}

#[test]
fn column_name_with_double_quote_is_not_escaped() {
    let err = Executor::new(vec![b"\"a\"\"b\"\n1\n".to_vec()], b';').err().unwrap();
    match err {
        CsvQueryError::CreateTable { query, .. } => {
            assert_eq!(query, "CREATE TABLE table1 (\"a\"b\" VARCHAR NULL)")
        }
        other => panic!("unexpected {:?}", other),
    }
}
