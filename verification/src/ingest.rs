//! The ingester: the bytes of a source in, rows and column widths out.
//!
//! Splitting the bytes into records and fields is the work of the `csv`
//! crate. What the library adds is the table: the first record is the
//! header, every row has to line up with it, and each column is as wide as
//! its widest field plus two.

use crate::error::IngestError;
use crate::layout::nats;
use crate::widths::{column_widths, first_malformed, measure, well_formed};
use vstd::prelude::*;

verus! {

/// What the `csv` crate reads from the given bytes with its default dialect
/// (comma, double quote, quotes doubled inside quoted fields) and every
/// record, the first included, handed out: the records in order, each a
/// sequence of fields, or `None` where the crate reports an error.
pub uninterp spec fn csv_records(input: Seq<u8>) -> Option<Seq<Seq<Seq<char>>>>;

/// Reads all records of `input` with `csv::Reader::records`, on a reader that
/// `csv::ReaderBuilder` made with `has_headers(false)`, and copies each field
/// into a `String`.
///
/// The contract claims only that the outcome is a function of the bytes:
/// the records read, or the first error that the reader reports. Reading from
/// a byte slice cannot fail for any other reason than the bytes themselves.
#[verifier::external_body]
fn parse_records(input: &[u8]) -> (r: Result<Vec<Vec<String>>, csv::Error>)
    ensures
        r matches Ok(records) ==> csv_records(input@) == Some(records.deep_view()),
        r is Err ==> csv_records(input@) is None,
{
    let mut reader = csv::ReaderBuilder::new().has_headers(false).from_reader(input);
    reader
        .records()
        .map(|record| record.map(|fields| fields.iter().map(String::from).collect()))
        .collect()
}

/// Reads the table that `input` holds as comma-separated text.
///
/// On success `data` is the records of the source, the header first, and
/// `lengths` the width of each column; whatever the two held before is
/// replaced. On failure both are left as they were: the source is no
/// delimited text, or a row does not line up with the header. A source
/// without records gives an empty table and no widths.
pub fn read_csv(
    input: &[u8],
    data: &mut Vec<Vec<String>>,
    lengths: &mut Vec<usize>,
) -> (r: Result<(), IngestError>)
    ensures
        r is Ok <==> (csv_records(input@) matches Some(table) && well_formed(table)),
        r is Ok ==> csv_records(input@) == Some(final(data).deep_view()),
        r is Ok ==> nats(final(lengths)@) == column_widths(final(data).deep_view()),
        r matches Err(IngestError::SourceRead(_)) <==> csv_records(input@) is None,
        r matches Err(IngestError::MalformedRow(_)) <==> (csv_records(input@) matches Some(table)
            && !well_formed(table)),
        r matches Err(IngestError::MalformedRow(i)) ==> (csv_records(input@) matches Some(table)
            && first_malformed(table, i as int)),
        r is Err ==> *final(data) == *old(data) && *final(lengths) == *old(lengths),
{
    match parse_records(input) {
        Err(cause) => Err(IngestError::SourceRead(cause)),
        Ok(records) => match measure(&records) {
            Err(row) => Err(row),
            Ok(widths) => {
                *data = records;
                *lengths = widths;
                Ok(())
            },
        },
    }
}

} // verus!
