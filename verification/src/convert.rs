//! The whole conversion, from source to text: ingest, render, join.

use crate::error::IngestError;
use crate::ingest::{csv_records, read_csv};
use crate::layout::{
    fits, join_lines, lemma_row_line_len, lemma_separator_shape, nats, render, total, Line, Row,
    Table,
};
use crate::render::{print_data, vec_to_string};
use crate::widths::{
    column_widths, first_malformed, lemma_column_width_is_max, lines_up, measure, rectangular,
    well_formed,
};
use vstd::prelude::*;

verus! {

/// The markdown text of a table: its lines, laid out to the widths of its
/// own columns, each followed by a line break.
pub open spec fn markdown(table: Table) -> Seq<char> {
    join_lines(render(table, column_widths(table)))
}

/// Every line of a table laid out to its own widths has the same length,
/// the header, the separator and the data rows alike: the sum of the widths,
/// one bar per column, and the opening bar. The table needs a column for
/// this, and in every row a field for each.
pub proof fn lemma_lines_have_equal_length(table: Table, k: int)
    requires
        rectangular(table),
        table[0].len() > 0,
        0 <= k < render(table, column_widths(table)).len(),
    ensures
        render(table, column_widths(table))[k].len() == total(column_widths(table))
            + table[0].len() + 1,
{
    let widths = column_widths(table);
    if k == 1 {
        lemma_separator_shape(widths);
    } else {
        let r = if k == 0 {
            0
        } else {
            k - 1
        };
        assert forall|c: int| 0 <= c < table[r].len() implies fits(
            #[trigger] table[r][c],
            widths[c],
        ) by {
            lemma_column_width_is_max(table, c);
        }
        lemma_row_line_len(table[r], widths);
    }
}

/// A table without rows has no widths, is well formed, has no lines
/// whatever the widths, and its text is empty.
pub proof fn lemma_empty_table(widths: Seq<nat>)
    ensures
        well_formed(Seq::<Row>::empty()),
        column_widths(Seq::<Row>::empty()) == Seq::<nat>::empty(),
        render(Seq::<Row>::empty(), widths) == Seq::<Line>::empty(),
        join_lines(Seq::<Line>::empty()) == Seq::<char>::empty(),
        markdown(Seq::<Row>::empty()) == Seq::<char>::empty(),
{
}

/// The markdown text of the records, the first of which is the header.
///
/// Succeeds exactly where every row lines up with the header; otherwise
/// names the first row that does not.
pub fn table_to_markdown(records: Vec<Vec<String>>) -> (r: Result<String, IngestError>)
    ensures
        r is Ok <==> well_formed(records.deep_view()),
        r matches Ok(text) ==> text@ == markdown(records.deep_view()),
        r matches Err(e) ==> (e matches IngestError::MalformedRow(i) && first_malformed(
            records.deep_view(),
            i as int,
        )),
{
    let ghost table = records.deep_view();
    match measure(&records) {
        Err(row) => Err(row),
        Ok(lengths) => {
            assert forall|r: int| 0 <= r < records@.len() implies (#[trigger] records@[r])@.len()
                == lengths@.len() by {
                assert(lines_up(table, r));
                assert(column_widths(table).len() == table[0].len());
            }
            Ok(vec_to_string(print_data(records, lengths)))
        },
    }
}

/// The markdown text of the table that `input` holds as comma-separated
/// text.
///
/// Fails where the source is no delimited text or a row does not line up
/// with the header; nothing is rendered then. A source without records
/// gives the empty text.
pub fn csv_to_markdown(input: &[u8]) -> (r: Result<String, IngestError>)
    ensures
        r is Ok <==> (csv_records(input@) matches Some(table) && well_formed(table)),
        r matches Ok(text) ==> (csv_records(input@) matches Some(table) && text@ == markdown(
            table,
        )),
        r matches Err(IngestError::SourceRead(_)) <==> csv_records(input@) is None,
        r matches Err(IngestError::MalformedRow(_)) <==> (csv_records(input@) matches Some(table)
            && !well_formed(table)),
        r matches Err(IngestError::MalformedRow(i)) ==> (csv_records(input@) matches Some(table)
            && first_malformed(table, i as int)),
{
    let mut data: Vec<Vec<String>> = Vec::new();
    let mut lengths: Vec<usize> = Vec::new();
    match read_csv(input, &mut data, &mut lengths) {
        Err(cause) => Err(cause),
        Ok(()) => {
            assert forall|r: int| 0 <= r < data@.len() implies (#[trigger] data@[r])@.len()
                == lengths@.len() by {
                let table = data.deep_view();
                assert(lines_up(table, r));
                assert(column_widths(table).len() == table[0].len());
            }
            Ok(vec_to_string(print_data(data, lengths)))
        },
    }
}

} // verus!
