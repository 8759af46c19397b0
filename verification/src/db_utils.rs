//! Quoting of CSV data for SQL statements, and the conversion of any
//! database value to text.

use vstd::prelude::*;

use crate::csv_utils::{cell_text, push_cell_text, SqlValue};
use crate::text::{push_char, push_quoted, quoted};

verus! {

broadcast use vstd::string::group_string_axioms;

/// Any database value, converted to its text.
pub struct AllString(String);

impl View for AllString {
    type V = Seq<char>;

    closed spec fn view(&self) -> Seq<char> {
        self.0@
    }
}

impl AllString {
    /// The text held.
    pub fn into(self) -> (s: String)
        ensures
            s@ == self@,
    {
        self.0
    }

    /// The text of one result cell.
    pub fn column_result(value: &SqlValue) -> (r: AllString)
        ensures
            r@ == cell_text(*value),
    {
        let mut s = String::new();
        push_cell_text(&mut s, value);
        AllString(s)
    }
}

/// The characters that stand for `c` inside an SQL string literal.
pub open spec fn sql_char_escape(c: char) -> Seq<char> {
    if c == '\'' {
        seq!['\'', '\'']
    } else {
        seq![c]
    }
}

/// `s` with each single quote doubled.
pub open spec fn double_single_quotes(s: Seq<char>) -> Seq<char>
    decreases s.len(),
{
    if s.len() == 0 {
        Seq::empty()
    } else {
        sql_char_escape(s[0]) + double_single_quotes(s.drop_first())
    }
}

/// `s` as an SQL string literal.
pub open spec fn sql_literal(s: Seq<char>) -> Seq<char> {
    seq!['\''] + double_single_quotes(s) + seq!['\'']
}

/// The characters that the inside of an SQL token quoted with `quote`
/// denotes, where two quote characters stand for one; `None` where a lone
/// quote character would end the token early.
pub open spec fn sql_unescape(s: Seq<char>, quote: char) -> Option<Seq<char>>
    decreases s.len(),
{
    if s.len() == 0 {
        Some(Seq::empty())
    } else if s[0] == quote {
        if s.len() >= 2 && s[1] == quote {
            match sql_unescape(s.subrange(2, s.len() as int), quote) {
                Some(rest) => Some(seq![quote] + rest),
                None => None,
            }
        } else {
            None
        }
    } else {
        match sql_unescape(s.drop_first(), quote) {
            Some(rest) => Some(seq![s[0]] + rest),
            None => None,
        }
    }
}

/// The value that SQL gives to a string literal `lit`, or `None` where `lit`
/// is not one literal.
pub open spec fn sql_literal_value(lit: Seq<char>) -> Option<Seq<char>> {
    if lit.len() >= 2 && lit[0] == '\'' && lit.last() == '\'' {
        sql_unescape(lit.subrange(1, lit.len() - 1), '\'')
    } else {
        None
    }
}

/// The name that SQL gives to a quoted identifier `ident`, or `None` where
/// `ident` is not one quoted identifier.
pub open spec fn sql_identifier_value(ident: Seq<char>) -> Option<Seq<char>> {
    if ident.len() >= 2 && ident[0] == '"' && ident.last() == '"' {
        sql_unescape(ident.subrange(1, ident.len() - 1), '"')
    } else {
        None
    }
}

/// Doubling the quotes of two pieces one after the other is doubling them in
/// the whole.
pub proof fn lemma_double_single_quotes_append(a: Seq<char>, b: Seq<char>)
    ensures
        double_single_quotes(a + b) == double_single_quotes(a) + double_single_quotes(b),
    decreases a.len(),
{
    if a.len() == 0 {
        assert(a + b =~= b);
    } else {
        lemma_double_single_quotes_append(a.drop_first(), b);
        assert((a + b).drop_first() =~= a.drop_first() + b);
        assert((a + b)[0] == a[0]);
        assert(sql_char_escape(a[0]) + (double_single_quotes(a.drop_first()) + double_single_quotes(b))
            =~= (sql_char_escape(a[0]) + double_single_quotes(a.drop_first())) + double_single_quotes(b));
    }
}

/// Reading back the doubled quotes gives the original characters.
proof fn lemma_unescape_double_single_quotes(s: Seq<char>)
    ensures
        sql_unescape(double_single_quotes(s), '\'') == Some(s),
    decreases s.len(),
{
    if s.len() > 0 {
        lemma_unescape_double_single_quotes(s.drop_first());
        let rest = double_single_quotes(s.drop_first());
        let d = double_single_quotes(s);
        assert(d == sql_char_escape(s[0]) + rest);
        if s[0] == '\'' {
            assert(d.subrange(2, d.len() as int) =~= rest);
            assert(seq!['\''] + s.drop_first() =~= s);
        } else {
            assert(d.drop_first() =~= rest);
            assert(seq![s[0]] + s.drop_first() =~= s);
        }
    }
}

/// A value written as an SQL string literal by this library is read by SQL as
/// exactly that value, however many quotes it holds.
pub proof fn lemma_sql_literal_roundtrip(s: Seq<char>)
    ensures
        sql_literal_value(sql_literal(s)) == Some(s),
{
    let lit = sql_literal(s);
    lemma_unescape_double_single_quotes(s);
    assert(lit.subrange(1, lit.len() - 1) =~= double_single_quotes(s));
}

proof fn lemma_unescape_plain(s: Seq<char>, quote: char)
    requires
        !s.contains(quote),
    ensures
        sql_unescape(s, quote) == Some(s),
    decreases s.len(),
{
    if s.len() > 0 {
        assert(!s.drop_first().contains(quote)) by {
            if s.drop_first().contains(quote) {
                let k = choose|k: int| 0 <= k < s.drop_first().len() && s.drop_first()[k] == quote;
                assert(s[k + 1] == quote);
            }
        }
        lemma_unescape_plain(s.drop_first(), quote);
        assert(s[0] != quote);
        assert(seq![s[0]] + s.drop_first() =~= s);
    }
}

/// A column name quoted as an SQL identifier by this library names exactly
/// that column, as long as the name holds no double quote (which the
/// identifier does not escape).
pub proof fn lemma_sql_identifier_roundtrip(name: Seq<char>)
    requires
        !name.contains('"'),
    ensures
        sql_identifier_value(quoted(name)) == Some(name),
{
    let ident = quoted(name);
    assert(ident.subrange(1, ident.len() - 1) =~= name);
    lemma_unescape_plain(name, '"');
}

/// Column names quoted as SQL identifiers.
pub fn escape_columns(columns: &Vec<String>) -> (r: Vec<String>)
    ensures
        r.deep_view() =~= columns.deep_view().map_values(|c: Seq<char>| quoted(c)),
{
    let mut r: Vec<String> = Vec::new();
    let n = columns.len();
    for i in 0..n
        invariant
            n == columns.len(),
            r.len() == i,
            forall|k: int| 0 <= k < i ==> #[trigger] r@[k]@ == quoted(columns@[k]@),
    {
        let mut c = String::new();
        push_quoted(&mut c, columns[i].as_str());
        r.push(c);
    }
    r
}

/// Appends `s` as an SQL string literal.
pub(crate) fn push_sql_literal(out: &mut String, s: &str)
    ensures
        final(out)@ == old(out)@ + sql_literal(s@),
{
    let ghost start = out@;
    push_char(out, '\'');
    let ghost chars = s@;
    for c in it: s.chars()
        invariant
            it.seq() == chars,
            out@ == start + seq!['\''] + double_single_quotes(chars.take(it.index())),
    {
        let ghost i = it.index();
        proof {
            assert(chars.take(i + 1) =~= chars.take(i) + seq![c]);
            lemma_double_single_quotes_append(chars.take(i), seq![c]);
            assert(seq![c].drop_first() =~= Seq::<char>::empty());
            assert(double_single_quotes(Seq::<char>::empty()) =~= Seq::<char>::empty());
            assert(seq![c][0] == c);
            assert(double_single_quotes(seq![c]) =~= sql_char_escape(c));
        }
        if c == '\'' {
            push_char(out, '\'');
            push_char(out, '\'');
        } else {
            push_char(out, c);
        }
    }
    proof {
        assert(chars.take(chars.len() as int) =~= chars);
    }
    push_char(out, '\'');
}

/// Field values written as SQL string literals, each single quote doubled.
pub fn escape_values(values: &Vec<String>) -> (r: Vec<String>)
    ensures
        r.deep_view() =~= values.deep_view().map_values(|v: Seq<char>| sql_literal(v)),
{
    let mut r: Vec<String> = Vec::new();
    let n = values.len();
    for i in 0..n
        invariant
            n == values.len(),
            r.len() == i,
            forall|k: int| 0 <= k < i ==> #[trigger] r@[k]@ == sql_literal(values@[k]@),
    {
        let mut v = String::new();
        push_sql_literal(&mut v, values[i].as_str());
        r.push(v);
    }
    r
}

} // verus!
