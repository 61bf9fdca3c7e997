//! Why a source could not be turned into a table.

use vstd::prelude::*;

verus! {

/// The error type of the `csv` crate. Nothing is known of what is inside;
/// a value of it is only carried from the parser to the caller.
#[verifier::external_type_specification]
#[verifier::external_body]
pub struct ExCsvError(csv::Error);

/// Why ingesting a source failed.
#[derive(Debug)]
pub enum IngestError {
    /// The source is not valid delimited text; the parser's own error says
    /// where and why.
    SourceRead(csv::Error),
    /// The row at this index (the header is row 0) does not line up with the
    /// header: it has another number of fields, or one of its fields is too
    /// long for its padded width to be a `usize`. It is the first such row.
    MalformedRow(usize),
}

} // verus!
