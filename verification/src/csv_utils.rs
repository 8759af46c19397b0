//! Rendering of database values as CSV output fields.

use vstd::prelude::*;

use crate::db_utils::AllString;
use crate::text::{
    int_decimal, is_digit, join, lemma_int_decimal_roundtrip, lemma_join_push, lemma_nat_decimal_roundtrip,
    nat_decimal, signed_decimal_value, push_char, push_int_decimal, push_joined, push_quoted, push_str, quoted,
};

verus! {

/// A value held by a database cell, as SQLite types it.
///
/// A `Real` holds the decimal text that Rust's `Display` writes for the
/// floating-point number; the library does no arithmetic on it.
#[derive(Debug, PartialEq)]
pub enum SqlValue {
    Null,
    Integer(i64),
    Real(String),
    Text(String),
    Blob(Vec<u8>),
}

/// What a cell shows in the output: text as it is, numbers in decimal,
/// nothing for `NULL`, and a fixed notice for binary data.
pub open spec fn cell_text(value: SqlValue) -> Seq<char> {
    match value {
        SqlValue::Null => Seq::empty(),
        SqlValue::Integer(n) => int_decimal(n as int),
        SqlValue::Real(t) => t@,
        SqlValue::Text(t) => t@,
        SqlValue::Blob(_) => "Cannot parse binary"@,
    }
}

/// Appends the text of a cell.
pub(crate) fn push_cell_text(out: &mut String, data: &SqlValue)
    ensures
        final(out)@ == old(out)@ + cell_text(*data),
{
    match data {
        SqlValue::Null => {},
        SqlValue::Integer(n) => push_int_decimal(out, *n),
        SqlValue::Real(t) => push_str(out, t.as_str()),
        SqlValue::Text(t) => push_str(out, t.as_str()),
        SqlValue::Blob(_) => push_str(out, "Cannot parse binary"),
    }
}

/// The text of a database value.
pub fn db_data_to_string(data: &SqlValue) -> (s: String)
    ensures
        s@ == cell_text(*data),
{
    let mut s = String::new();
    push_cell_text(&mut s, data);
    s
}

/// The text of a database value, quoted as a CSV output field.
pub fn db_data_to_csv_output(data: &SqlValue) -> (s: String)
    ensures
        s@ == quoted(cell_text(*data)),
{
    let text = db_data_to_string(data);
    string_to_csv_output(text.as_str())
}

/// `s` quoted as a CSV output field. Quotes inside `s` are written as they are.
pub fn string_to_csv_output(s: &str) -> (r: String)
    ensures
        r@ == quoted(s@),
{
    let mut r = String::new();
    push_quoted(&mut r, s);
    r
}

/// The delimiter byte as the one character that separates output fields.
pub open spec fn delimiter_text(delimiter: u8) -> Seq<char> {
    seq![delimiter as char]
}

/// The header line of a query result: the quoted column names separated by
/// the delimiter, ended by a newline.
pub open spec fn header_line(columns: Seq<Seq<char>>, delimiter: u8) -> Seq<char> {
    join(columns.map_values(|c: Seq<char>| quoted(c)), delimiter_text(delimiter)) + seq!['\n']
}

/// The line of one result row: the quoted text of each value separated by the
/// delimiter, ended by a newline.
pub open spec fn row_line(values: Seq<SqlValue>, delimiter: u8) -> Seq<char> {
    join(values.map_values(|v: SqlValue| quoted(cell_text(v))), delimiter_text(delimiter)) + seq![
        '\n',
    ]
}

/// The lines of the result rows, in order.
pub open spec fn rows_text(rows: Seq<Seq<SqlValue>>, delimiter: u8) -> Seq<char>
    decreases rows.len(),
{
    if rows.len() == 0 {
        Seq::empty()
    } else {
        rows_text(rows.drop_last(), delimiter) + row_line(rows.last(), delimiter)
    }
}

/// Whether every result row has one value per column of the result.
pub open spec fn result_rows_fit(columns: Seq<Seq<char>>, rows: Seq<Seq<SqlValue>>) -> bool {
    forall|i: int| 0 <= i < rows.len() ==> #[trigger] rows[i].len() == columns.len()
}

/// The whole CSV output of a query: the header line, then one line per row.
pub open spec fn query_output(columns: Seq<Seq<char>>, rows: Seq<Seq<SqlValue>>, delimiter: u8) -> Seq<
    char,
> {
    header_line(columns, delimiter) + rows_text(rows, delimiter)
}

/// How many newline characters `s` holds.
pub open spec fn newline_count(s: Seq<char>) -> nat
    decreases s.len(),
{
    if s.len() == 0 {
        0
    } else {
        newline_count(s.drop_last()) + if s.last() == '\n' {
            1nat
        } else {
            0nat
        }
    }
}

proof fn lemma_newline_count_add(a: Seq<char>, b: Seq<char>)
    ensures
        newline_count(a + b) == newline_count(a) + newline_count(b),
    decreases b.len(),
{
    if b.len() == 0 {
        assert(a + b =~= a);
    } else {
        lemma_newline_count_add(a, b.drop_last());
        assert((a + b).drop_last() =~= a + b.drop_last());
    }
}

proof fn lemma_newline_count_single(c: char)
    ensures
        newline_count(seq![c]) == if c == '\n' {
            1nat
        } else {
            0nat
        },
{
    assert(seq![c].drop_last() =~= Seq::<char>::empty());
    assert(newline_count(Seq::<char>::empty()) == 0);
    assert(seq![c].last() == c);
}

proof fn lemma_newline_free(s: Seq<char>)
    requires
        !s.contains('\n'),
    ensures
        newline_count(s) == 0,
    decreases s.len(),
{
    if s.len() > 0 {
        assert(!s.drop_last().contains('\n')) by {
            if s.drop_last().contains('\n') {
                let k = choose|k: int| 0 <= k < s.drop_last().len() && s.drop_last()[k] == '\n';
                assert(s[k] == '\n');
            }
        }
        lemma_newline_free(s.drop_last());
        assert(s[s.len() - 1] != '\n');
    }
}

proof fn lemma_join_newline_free(parts: Seq<Seq<char>>, sep: Seq<char>)
    requires
        forall|i: int| 0 <= i < parts.len() ==> newline_count(#[trigger] parts[i]) == 0,
        newline_count(sep) == 0,
    ensures
        newline_count(join(parts, sep)) == 0,
    decreases parts.len(),
{
    if parts.len() > 1 {
        lemma_join_newline_free(parts.drop_last(), sep);
        lemma_newline_count_add(join(parts.drop_last(), sep), sep);
        lemma_newline_count_add(join(parts.drop_last(), sep) + sep, parts.last());
    }
}

proof fn lemma_quoted_newline_free(s: Seq<char>)
    requires
        !s.contains('\n'),
    ensures
        newline_count(quoted(s)) == 0,
{
    lemma_newline_free(s);
    lemma_newline_count_add(seq!['"'], s);
    lemma_newline_count_add(seq!['"'] + s, seq!['"']);
    lemma_newline_count_single('"');
}

proof fn lemma_line_count(body: Seq<char>)
    requires
        newline_count(body) == 0,
    ensures
        newline_count(body + seq!['\n']) == 1,
{
    lemma_newline_count_add(body, seq!['\n']);
    lemma_newline_count_single('\n');
}

/// When neither the delimiter, nor a column name, nor the text of a value is
/// a line break, the output of a query holds exactly one line per result row
/// after its header line.
pub proof fn lemma_query_output_line_count(
    columns: Seq<Seq<char>>,
    rows: Seq<Seq<SqlValue>>,
    delimiter: u8,
)
    requires
        delimiter != 10,
        forall|i: int| 0 <= i < columns.len() ==> !(#[trigger] columns[i]).contains('\n'),
        forall|i: int, j: int|
            0 <= i < rows.len() && 0 <= j < rows[i].len() ==> !cell_text(#[trigger] rows[i][j]).contains(
                '\n',
            ),
    ensures
        newline_count(query_output(columns, rows, delimiter)) == rows.len() + 1,
    decreases rows.len(),
{
    let sep = delimiter_text(delimiter);
    assert((delimiter as char) != '\n');
    lemma_newline_count_single(delimiter as char);
    assert(newline_count(sep) == 0);
    if rows.len() == 0 {
        let quoted_columns = columns.map_values(|c: Seq<char>| quoted(c));
        assert forall|i: int| 0 <= i < quoted_columns.len() implies newline_count(
            #[trigger] quoted_columns[i],
        ) == 0 by {
            lemma_quoted_newline_free(columns[i]);
        }
        lemma_join_newline_free(quoted_columns, sep);
        lemma_line_count(join(quoted_columns, sep));
        assert(rows_text(rows, delimiter) =~= Seq::<char>::empty());
        assert(query_output(columns, rows, delimiter) =~= header_line(columns, delimiter));
    } else {
        let init = rows.drop_last();
        lemma_query_output_line_count(columns, init, delimiter);
        let last = rows.last();
        let fields = last.map_values(|v: SqlValue| quoted(cell_text(v)));
        assert forall|j: int| 0 <= j < fields.len() implies newline_count(#[trigger] fields[j])
            == 0 by {
            assert(rows[rows.len() - 1][j] == last[j]);
            lemma_quoted_newline_free(cell_text(last[j]));
        }
        lemma_join_newline_free(fields, sep);
        lemma_line_count(join(fields, sep));
        assert(query_output(columns, rows, delimiter) =~= query_output(columns, init, delimiter)
            + row_line(last, delimiter));
        lemma_newline_count_add(query_output(columns, init, delimiter), row_line(last, delimiter));
    }
}

/// What a cell shows, by the kind of value: nothing for `NULL`; for an
/// integer, an optional minus sign (exactly when it is negative) and decimal
/// digits that read back as that integer; for a real or a text, exactly the
/// text it holds; for binary data, the notice `Cannot parse binary`.
pub proof fn lemma_cell_text(value: SqlValue)
    ensures
        value is Null ==> cell_text(value) == Seq::<char>::empty(),
        value matches SqlValue::Integer(n) ==> {
            let t = cell_text(value);
            &&& signed_decimal_value(t) == n
            &&& t.len() >= 1
            &&& (t[0] == '-' <==> n < 0)
            &&& forall|k: int| 0 <= k < t.len() && (k > 0 || n >= 0) ==> is_digit(#[trigger] t[k])
        },
        value matches SqlValue::Real(t) ==> cell_text(value) == t@,
        value matches SqlValue::Text(t) ==> cell_text(value) == t@,
        value is Blob ==> cell_text(value) == "Cannot parse binary"@,
{
    if let SqlValue::Integer(n) = value {
        let t = cell_text(value);
        lemma_int_decimal_roundtrip(n as int);
        if n < 0 {
            let m = (-n) as nat;
            lemma_nat_decimal_roundtrip(m);
            assert forall|k: int| 0 <= k < t.len() && (k > 0 || n >= 0) implies is_digit(
                #[trigger] t[k],
            ) by {
                assert(t[k] == nat_decimal(m)[k - 1]);
            }
        } else {
            lemma_nat_decimal_roundtrip(n as nat);
            assert(is_digit(t[0]));
        }
    }
}

/// The header line holds each reported column name unchanged between double
/// quotes, in order: with no columns it is a bare line break; with one it is
/// that quoted name; one more column adds, before the line break, the
/// delimiter and that quoted name.
pub proof fn lemma_header_line_fields(columns: Seq<Seq<char>>, c: Seq<char>, delimiter: u8)
    ensures
        header_line(Seq::empty(), delimiter) == seq!['\n'],
        header_line(seq![c], delimiter) == seq!['"'] + c + seq!['"', '\n'],
        columns.len() >= 1 ==> header_line(columns.push(c), delimiter) == header_line(
            columns,
            delimiter,
        ).drop_last() + seq![delimiter as char, '"'] + c + seq!['"', '\n'],
{
    let sep = delimiter_text(delimiter);
    let names = columns.map_values(|x: Seq<char>| quoted(x));
    lemma_join_push(names, sep, quoted(c));
    assert(Seq::<Seq<char>>::empty().map_values(|x: Seq<char>| quoted(x))
        =~= Seq::<Seq<char>>::empty());
    assert(header_line(Seq::empty(), delimiter) =~= seq!['\n']);
    assert(seq![c].map_values(|x: Seq<char>| quoted(x)) =~= seq![quoted(c)]);
    assert(header_line(seq![c], delimiter) =~= seq!['"'] + c + seq!['"', '\n']);
    if columns.len() >= 1 {
        assert(columns.push(c).map_values(|x: Seq<char>| quoted(x)) =~= names.push(quoted(c)));
        let before = join(names, sep);
        assert((before + seq!['\n']).drop_last() =~= before);
        assert(header_line(columns.push(c), delimiter) =~= before + seq![delimiter as char, '"']
            + c + seq!['"', '\n']);
    }
}

/// The line of a row holds the text of each value (see `lemma_cell_text`)
/// unchanged between double quotes, in column order: with no values it is a
/// bare line break; with one it is that quoted text; one more value adds,
/// before the line break, the delimiter and its quoted text.
pub proof fn lemma_row_line_fields(values: Seq<SqlValue>, v: SqlValue, delimiter: u8)
    ensures
        row_line(Seq::empty(), delimiter) == seq!['\n'],
        row_line(seq![v], delimiter) == seq!['"'] + cell_text(v) + seq!['"', '\n'],
        values.len() >= 1 ==> row_line(values.push(v), delimiter) == row_line(
            values,
            delimiter,
        ).drop_last() + seq![delimiter as char, '"'] + cell_text(v) + seq!['"', '\n'],
{
    let sep = delimiter_text(delimiter);
    let fields = values.map_values(|x: SqlValue| quoted(cell_text(x)));
    lemma_join_push(fields, sep, quoted(cell_text(v)));
    assert(Seq::<SqlValue>::empty().map_values(|x: SqlValue| quoted(cell_text(x)))
        =~= Seq::<Seq<char>>::empty());
    assert(row_line(Seq::empty(), delimiter) =~= seq!['\n']);
    assert(seq![v].map_values(|x: SqlValue| quoted(cell_text(x))) =~= seq![quoted(cell_text(v))]);
    assert(row_line(seq![v], delimiter) =~= seq!['"'] + cell_text(v) + seq!['"', '\n']);
    if values.len() >= 1 {
        assert(values.push(v).map_values(|x: SqlValue| quoted(cell_text(x))) =~= fields.push(
            quoted(cell_text(v)),
        ));
        let before = join(fields, sep);
        assert((before + seq!['\n']).drop_last() =~= before);
        assert(row_line(values.push(v), delimiter) =~= before + seq![delimiter as char, '"']
            + cell_text(v) + seq!['"', '\n']);
    }
}

/// The output of a query is its header line followed by the line of each row,
/// in order: with no rows it is the header line alone, and one more row adds
/// that row's line at the end.
pub proof fn lemma_query_output_rows(
    columns: Seq<Seq<char>>,
    rows: Seq<Seq<SqlValue>>,
    r: Seq<SqlValue>,
    delimiter: u8,
)
    ensures
        query_output(columns, Seq::empty(), delimiter) == header_line(columns, delimiter),
        query_output(columns, rows.push(r), delimiter) == query_output(columns, rows, delimiter)
            + row_line(r, delimiter),
{
    assert(query_output(columns, Seq::empty(), delimiter) =~= header_line(columns, delimiter));
    assert(rows.push(r).drop_last() =~= rows);
    assert(query_output(columns, rows.push(r), delimiter) =~= query_output(columns, rows, delimiter)
        + row_line(r, delimiter));
}

/// The delimiter byte as a one-character string.
pub fn delimiter_string(delimiter: u8) -> (s: String)
    ensures
        s@ == delimiter_text(delimiter),
{
    let mut s = String::new();
    push_char(&mut s, delimiter as char);
    s
}

/// Appends the header line for the given column names.
pub(crate) fn push_header_line(out: &mut String, columns: &Vec<String>, delimiter: u8)
    ensures
        final(out)@ == old(out)@ + header_line(columns.deep_view(), delimiter),
{
    let mut quoted_columns: Vec<String> = Vec::new();
    let n = columns.len();
    for i in 0..n
        invariant
            n == columns.len(),
            quoted_columns.len() == i,
            forall|k: int| 0 <= k < i ==> #[trigger] quoted_columns@[k]@ == quoted(columns@[k]@),
    {
        quoted_columns.push(string_to_csv_output(columns[i].as_str()));
    }
    let sep = delimiter_string(delimiter);
    push_joined(out, &quoted_columns, sep.as_str());
    push_char(out, '\n');
    proof {
        assert(quoted_columns.deep_view() =~= columns.deep_view().map_values(
            |c: Seq<char>| quoted(c),
        ));
    }
}

/// Appends the line of one result row.
pub(crate) fn push_row_line(out: &mut String, values: &Vec<SqlValue>, delimiter: u8)
    ensures
        final(out)@ == old(out)@ + row_line(values@, delimiter),
{
    let mut fields: Vec<String> = Vec::new();
    let n = values.len();
    for i in 0..n
        invariant
            n == values.len(),
            fields.len() == i,
            forall|k: int| 0 <= k < i ==> #[trigger] fields@[k]@ == quoted(cell_text(values@[k])),
    {
        let text = AllString::column_result(&values[i]).into();
        fields.push(string_to_csv_output(text.as_str()));
    }
    let sep = delimiter_string(delimiter);
    push_joined(out, &fields, sep.as_str());
    push_char(out, '\n');
    proof {
        assert(fields.deep_view() =~= values@.map_values(|v: SqlValue| quoted(cell_text(v))));
    }
}

/// The header line of a query result with these column names.
pub fn csv_header_line(columns: &Vec<String>, delimiter: u8) -> (line: String)
    ensures
        line@ == header_line(columns.deep_view(), delimiter),
{
    let mut line = String::new();
    push_header_line(&mut line, columns, delimiter);
    line
}

/// The output line of one result row with these values.
pub fn csv_row_line(values: &Vec<SqlValue>, delimiter: u8) -> (line: String)
    ensures
        line@ == row_line(values@, delimiter),
{
    let mut line = String::new();
    push_row_line(&mut line, values, delimiter);
    line
}

/// The whole CSV output of a query that returned these columns and rows.
pub fn csv_query_output(columns: &Vec<String>, rows: &Vec<Vec<SqlValue>>, delimiter: u8) -> (out:
    String)
    ensures
        out@ == query_output(columns.deep_view(), rows@.map_values(|r: Vec<SqlValue>| r@), delimiter),
{
    let ghost all = rows@.map_values(|r: Vec<SqlValue>| r@);
    let mut out = String::new();
    push_header_line(&mut out, columns, delimiter);
    let ghost head = out@;
    let n = rows.len();
    for i in 0..n
        invariant
            n == rows.len(),
            all == rows@.map_values(|r: Vec<SqlValue>| r@),
            out@ == head + rows_text(all.take(i as int), delimiter),
    {
        proof {
            assert(all.take(i + 1).drop_last() =~= all.take(i as int));
        }
        push_row_line(&mut out, &rows[i], delimiter);
    }
    proof {
        assert(all.take(n as int) =~= all);
    }
    out
}

} // verus!
