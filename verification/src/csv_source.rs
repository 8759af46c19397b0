//! Reading CSV input with the `csv` crate.
//!
//! What the parser returns takes pages to state, so it is named: the header
//! row and the data rows that the `csv` crate reads from given bytes with a
//! given delimiter.

use vstd::prelude::*;

verus! {

#[verifier::external_type_specification]
#[verifier::external_body]
pub struct ExCsvError(csv::Error);

/// The header row that the `csv` crate reads from `data` with `delimiter`,
/// or `None` where it reports an error.
pub uninterp spec fn csv_header_fields(data: Seq<u8>, delimiter: u8) -> Option<Seq<Seq<char>>>;

/// The data rows (every row after the header row) that the `csv` crate reads
/// from `data` with `delimiter`, or `None` where it reports an error.
pub uninterp spec fn csv_record_fields(data: Seq<u8>, delimiter: u8) -> Option<
    Seq<Seq<Seq<char>>>,
>;

/// `csv::Reader::headers`, on a reader that `csv::ReaderBuilder` builds over
/// `data` with `delimiter` (other settings at their defaults). Claimed: the
/// result is the named header row, and an error exactly where it names none.
#[verifier::external_body]
pub(crate) fn read_csv_headers(data: &[u8], delimiter: u8) -> (r: Result<Vec<String>, csv::Error>)
    ensures
        match r {
            Ok(h) => csv_header_fields(data@, delimiter) == Some(h.deep_view()),
            Err(_) => csv_header_fields(data@, delimiter) is None,
        },
{
    let mut reader = csv::ReaderBuilder::new().delimiter(delimiter).from_reader(data);
    reader.headers().map(|h| h.iter().map(|f| f.to_string()).collect())
}

/// `csv::Reader::records`, collected until the first error, on a reader that
/// `csv::ReaderBuilder` builds over `data` with `delimiter`. Claimed: the
/// result is the named data rows, an error exactly where it names none, and,
/// since the builder leaves records non-flexible, every row has as many
/// fields as the header row.
#[verifier::external_body]
pub(crate) fn read_csv_records(data: &[u8], delimiter: u8) -> (r: Result<
    Vec<Vec<String>>,
    csv::Error,
>)
    ensures
        match r {
            Ok(rows) => csv_record_fields(data@, delimiter) == Some(rows.deep_view()),
            Err(_) => csv_record_fields(data@, delimiter) is None,
        },
        r matches Ok(rows) ==> (csv_header_fields(data@, delimiter) matches Some(h) ==> forall|
            i: int,
        | 0 <= i < rows.len() ==> #[trigger] rows@[i].len() == h.len()),
{
    let mut reader = csv::ReaderBuilder::new().delimiter(delimiter).from_reader(data);
    reader.records().map(|rec| rec.map(|r| r.iter().map(|f| f.to_string()).collect())).collect()
}

} // verus!
