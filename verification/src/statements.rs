//! The SQL statements that load one CSV input into its table.

use vstd::prelude::*;

use crate::db_utils::{escape_columns, escape_values, sql_literal};
use crate::text::{
    join, lemma_join_push, nat_decimal, push_decimal, push_joined, push_quoted, push_str, quoted,
};

verus! {

/// The definition of one column of a loaded table: a nullable text column.
pub open spec fn column_definition(column: Seq<char>) -> Seq<char> {
    quoted(column) + " VARCHAR NULL"@
}

/// The statement that creates table number `n` with the given columns.
pub open spec fn create_table_sql(columns: Seq<Seq<char>>, n: nat) -> Seq<char> {
    "CREATE TABLE table"@ + nat_decimal(n) + " ("@ + join(
        columns.map_values(|c: Seq<char>| column_definition(c)),
        ", "@,
    ) + ")"@
}

/// One data row as the tuple of its values in an `INSERT` statement.
pub open spec fn row_tuple(values: Seq<Seq<char>>) -> Seq<char> {
    "("@ + join(values.map_values(|v: Seq<char>| sql_literal(v)), ", "@) + ")"@
}

/// The statement that inserts all `rows` into table number `n`.
pub open spec fn insert_sql(columns: Seq<Seq<char>>, rows: Seq<Seq<Seq<char>>>, n: nat) -> Seq<
    char,
> {
    "INSERT INTO table"@ + nat_decimal(n) + " ("@ + join(
        columns.map_values(|c: Seq<char>| quoted(c)),
        ", "@,
    ) + ") VALUES\n"@ + join(rows.map_values(|r: Seq<Seq<char>>| row_tuple(r)), ",\n"@)
}

/// The statement that creates a table declares one column per header field,
/// in order: with no fields its column list is empty; with one field it is
/// that name in double quotes followed by `VARCHAR NULL`; and one more field
/// adds, before the closing bracket, a comma and that field's definition.
pub proof fn lemma_create_table_columns(columns: Seq<Seq<char>>, c: Seq<char>, n: nat)
    ensures
        create_table_sql(Seq::empty(), n) == "CREATE TABLE table"@ + nat_decimal(n) + " ()"@,
        create_table_sql(seq![c], n) == "CREATE TABLE table"@ + nat_decimal(n) + " ("@
            + (seq!['"'] + c + seq!['"']) + " VARCHAR NULL)"@,
        columns.len() >= 1 ==> create_table_sql(columns.push(c), n) == create_table_sql(
            columns,
            n,
        ).drop_last() + ", "@ + (seq!['"'] + c + seq!['"']) + " VARCHAR NULL)"@,
{
    reveal_strlit("CREATE TABLE table");
    reveal_strlit(" ()");
    reveal_strlit(" (");
    reveal_strlit(")");
    reveal_strlit(" VARCHAR NULL");
    reveal_strlit(" VARCHAR NULL)");
    reveal_strlit(", ");
    let head = "CREATE TABLE table"@ + nat_decimal(n) + " ("@;
    let defs = columns.map_values(|x: Seq<char>| column_definition(x));
    lemma_join_push(defs, ", "@, column_definition(c));
    assert(Seq::<Seq<char>>::empty().map_values(|x: Seq<char>| column_definition(x))
        =~= Seq::<Seq<char>>::empty());
    assert(create_table_sql(Seq::empty(), n) =~= "CREATE TABLE table"@ + nat_decimal(n)
        + " ()"@);
    assert(seq![c].map_values(|x: Seq<char>| column_definition(x)) =~= seq![
        column_definition(c),
    ]);
    assert(create_table_sql(seq![c], n) =~= head + quoted(c) + " VARCHAR NULL)"@);
    if columns.len() >= 1 {
        assert(columns.push(c).map_values(|x: Seq<char>| column_definition(x)) =~= defs.push(
            column_definition(c),
        ));
        let before = head + join(defs, ", "@);
        assert((before + ")"@).drop_last() =~= before);
        assert(create_table_sql(columns.push(c), n) =~= before + ", "@ + quoted(c)
            + " VARCHAR NULL)"@);
    }
}

/// The statement that creates a table is its fixed head, then one definition
/// per header field separated by commas, then a closing bracket: the `i`-th
/// definition is the `i`-th field in double quotes followed by `VARCHAR NULL`.
pub proof fn lemma_create_table_definitions(columns: Seq<Seq<char>>, n: nat)
    ensures
        exists|defs: Seq<Seq<char>>|
            #![trigger join(defs, ", "@)]
            {
                &&& defs.len() == columns.len()
                &&& forall|i: int|
                    0 <= i < columns.len() ==> #[trigger] defs[i] == (seq!['"'] + columns[i] + seq!['"'])
                        + " VARCHAR NULL"@
                &&& create_table_sql(columns, n) == "CREATE TABLE table"@ + nat_decimal(n)
                    + " ("@ + join(defs, ", "@) + ")"@
            },
{
    reveal_strlit(" VARCHAR NULL");
    let defs = columns.map_values(|x: Seq<char>| column_definition(x));
    assert(forall|i: int|
        0 <= i < columns.len() ==> #[trigger] defs[i] == quoted(columns[i]) + " VARCHAR NULL"@);
    assert(create_table_sql(columns, n) == "CREATE TABLE table"@ + nat_decimal(n) + " ("@ + join(
        defs,
        ", "@,
    ) + ")"@);
}

/// An `INSERT` statement with no rows names its table and the header fields:
/// with no fields the list is empty; with one field it is that name in double
/// quotes; one more field adds, before the closing bracket, a comma and that
/// name in double quotes. So the `k`-th value of each row goes to the `k`-th
/// header field.
pub proof fn lemma_insert_columns(columns: Seq<Seq<char>>, c: Seq<char>, n: nat)
    ensures
        insert_sql(Seq::empty(), Seq::empty(), n) == "INSERT INTO table"@ + nat_decimal(n)
            + " () VALUES\n"@,
        insert_sql(seq![c], Seq::empty(), n) == "INSERT INTO table"@ + nat_decimal(n) + " ("@
            + (seq!['"'] + c + seq!['"']) + ") VALUES\n"@,
        columns.len() >= 1 ==> insert_sql(columns.push(c), Seq::empty(), n) == insert_sql(
            columns,
            Seq::empty(),
            n,
        ).take(insert_sql(columns, Seq::empty(), n).len() - 9) + ", "@ + (seq!['"'] + c + seq!['"'])
            + ") VALUES\n"@,
{
    reveal_strlit("INSERT INTO table");
    reveal_strlit(" () VALUES\n");
    reveal_strlit(" (");
    reveal_strlit(") VALUES\n");
    reveal_strlit(", ");
    let head = "INSERT INTO table"@ + nat_decimal(n) + " ("@;
    let no_rows = Seq::<Seq<Seq<char>>>::empty();
    let names = columns.map_values(|x: Seq<char>| quoted(x));
    lemma_join_push(names, ", "@, quoted(c));
    lemma_join_push(
        no_rows.map_values(|r: Seq<Seq<char>>| row_tuple(r)),
        ",\n"@,
        Seq::empty(),
    );
    assert(no_rows.map_values(|r: Seq<Seq<char>>| row_tuple(r)) =~= Seq::<Seq<char>>::empty());
    assert(Seq::<Seq<char>>::empty().map_values(|x: Seq<char>| quoted(x))
        =~= Seq::<Seq<char>>::empty());
    assert(insert_sql(Seq::empty(), no_rows, n) =~= head + ") VALUES\n"@);
    assert(seq![c].map_values(|x: Seq<char>| quoted(x)) =~= seq![quoted(c)]);
    assert(insert_sql(seq![c], no_rows, n) =~= head + quoted(c) + ") VALUES\n"@);
    if columns.len() >= 1 {
        assert(columns.push(c).map_values(|x: Seq<char>| quoted(x)) =~= names.push(quoted(c)));
        let before = head + join(names, ", "@);
        assert(insert_sql(columns, no_rows, n) =~= before + ") VALUES\n"@);
        assert((before + ") VALUES\n"@).take(before.len() as int) =~= before);
        assert(insert_sql(columns.push(c), no_rows, n) =~= before + ", "@ + quoted(c)
            + ") VALUES\n"@);
    }
}

/// The tuple of a row holds its values as SQL string literals, in order: an
/// empty row is `()`, one value is that literal in brackets, and one more
/// value adds, before the closing bracket, a comma and its literal.
pub proof fn lemma_row_tuple_values(values: Seq<Seq<char>>, v: Seq<char>)
    ensures
        row_tuple(Seq::empty()) == "()"@,
        row_tuple(seq![v]) == "("@ + sql_literal(v) + ")"@,
        values.len() >= 1 ==> row_tuple(values.push(v)) == row_tuple(values).drop_last() + ", "@
            + sql_literal(v) + ")"@,
{
    reveal_strlit("()");
    reveal_strlit("(");
    reveal_strlit(")");
    reveal_strlit(", ");
    let lits = values.map_values(|x: Seq<char>| sql_literal(x));
    lemma_join_push(lits, ", "@, sql_literal(v));
    assert(Seq::<Seq<char>>::empty().map_values(|x: Seq<char>| sql_literal(x))
        =~= Seq::<Seq<char>>::empty());
    assert(row_tuple(Seq::empty()) =~= "()"@);
    assert(seq![v].map_values(|x: Seq<char>| sql_literal(x)) =~= seq![sql_literal(v)]);
    assert(row_tuple(seq![v]) =~= "("@ + sql_literal(v) + ")"@);
    if values.len() >= 1 {
        assert(values.push(v).map_values(|x: Seq<char>| sql_literal(x)) =~= lits.push(
            sql_literal(v),
        ));
        let before = "("@ + join(lits, ", "@);
        assert((before + ")"@).drop_last() =~= before);
        assert(row_tuple(values.push(v)) =~= before + ", "@ + sql_literal(v) + ")"@);
    }
}

/// The rows of an `INSERT` statement follow its column list, one tuple per
/// row in order: the first row's tuple right after `VALUES` and a line break,
/// each further row's tuple after a comma and a line break.
pub proof fn lemma_insert_rows(
    columns: Seq<Seq<char>>,
    rows: Seq<Seq<Seq<char>>>,
    r: Seq<Seq<char>>,
    n: nat,
)
    ensures
        insert_sql(columns, seq![r], n) == insert_sql(columns, Seq::empty(), n) + row_tuple(r),
        rows.len() >= 1 ==> insert_sql(columns, rows.push(r), n) == insert_sql(columns, rows, n)
            + ",\n"@ + row_tuple(r),
{
    let tuples = rows.map_values(|x: Seq<Seq<char>>| row_tuple(x));
    let head = "INSERT INTO table"@ + nat_decimal(n) + " ("@ + join(
        columns.map_values(|c: Seq<char>| quoted(c)),
        ", "@,
    ) + ") VALUES\n"@;
    lemma_join_push(tuples, ",\n"@, row_tuple(r));
    assert(Seq::<Seq<Seq<char>>>::empty().map_values(|x: Seq<Seq<char>>| row_tuple(x))
        =~= Seq::<Seq<char>>::empty());
    assert(insert_sql(columns, Seq::empty(), n) =~= head);
    assert(seq![r].map_values(|x: Seq<Seq<char>>| row_tuple(x)) =~= seq![row_tuple(r)]);
    assert(insert_sql(columns, seq![r], n) =~= head + row_tuple(r));
    if rows.len() >= 1 {
        assert(rows.push(r).map_values(|x: Seq<Seq<char>>| row_tuple(x)) =~= tuples.push(
            row_tuple(r),
        ));
        assert(insert_sql(columns, rows.push(r), n) =~= head + join(tuples, ",\n"@) + ",\n"@
            + row_tuple(r));
    }
}

/// The text of the statement that creates table number `table_number`.
pub fn create_table_query(columns: &Vec<String>, table_number: usize) -> (q: String)
    ensures
        q@ == create_table_sql(columns.deep_view(), table_number as nat),
{
    let mut definitions: Vec<String> = Vec::new();
    let n = columns.len();
    for i in 0..n
        invariant
            n == columns.len(),
            definitions.len() == i,
            forall|k: int|
                0 <= k < i ==> #[trigger] definitions@[k]@ == column_definition(columns@[k]@),
    {
        let mut d = String::new();
        push_quoted(&mut d, columns[i].as_str());
        push_str(&mut d, " VARCHAR NULL");
        definitions.push(d);
    }
    let mut q = String::new();
    push_str(&mut q, "CREATE TABLE table");
    push_decimal(&mut q, table_number as u64);
    push_str(&mut q, " (");
    push_joined(&mut q, &definitions, ", ");
    push_str(&mut q, ")");
    proof {
        assert(definitions.deep_view() =~= columns.deep_view().map_values(
            |c: Seq<char>| column_definition(c),
        ));
    }
    q
}

/// The text of the statement that inserts `rows` into table number `table_number`.
pub fn insert_query(columns: &Vec<String>, rows: &Vec<Vec<String>>, table_number: usize) -> (q:
    String)
    ensures
        q@ == insert_sql(columns.deep_view(), rows.deep_view(), table_number as nat),
{
    let quoted_columns = escape_columns(columns);
    let mut tuples: Vec<String> = Vec::new();
    let n = rows.len();
    for i in 0..n
        invariant
            n == rows.len(),
            tuples.len() == i,
            forall|k: int| 0 <= k < i ==> #[trigger] tuples@[k]@ == row_tuple(rows@[k].deep_view()),
    {
        let db_row = escape_values(&rows[i]);
        let mut t = String::new();
        push_str(&mut t, "(");
        push_joined(&mut t, &db_row, ", ");
        push_str(&mut t, ")");
        tuples.push(t);
    }
    let mut q = String::new();
    push_str(&mut q, "INSERT INTO table");
    push_decimal(&mut q, table_number as u64);
    push_str(&mut q, " (");
    push_joined(&mut q, &quoted_columns, ", ");
    push_str(&mut q, ") VALUES\n");
    push_joined(&mut q, &tuples, ",\n");
    proof {
        assert(tuples.deep_view() =~= rows.deep_view().map_values(
            |r: Seq<Seq<char>>| row_tuple(r),
        ));
    }
    q
}

} // verus!
