//! Column widths: what they are, and how they are measured.
//!
//! The width of a column is the length of its longest field plus two, one
//! space of padding on each side of the widest cell.

use crate::error::IngestError;
use crate::layout::{nats, Field, Row, Table};
use vstd::prelude::*;
use vstd::string::*;

verus! {

/// The width that a field asks of its column: its length in characters and
/// one space on each side.
pub open spec fn field_width(field: Field) -> nat {
    field.len() + 2
}

/// The larger of two widths.
pub open spec fn wider(a: nat, b: nat) -> nat {
    if a >= b {
        a
    } else {
        b
    }
}

/// The width of column `c`: the header's field sets it, and each further row
/// can only grow it.
pub open spec fn column_width(table: Table, c: int) -> nat
    decreases table.len(),
{
    if table.len() == 0 {
        0
    } else {
        wider(column_width(table.drop_last(), c), field_width(table.last()[c]))
    }
}

/// The widths of a table, one per column of the header. An empty table has
/// none.
pub open spec fn column_widths(table: Table) -> Seq<nat> {
    if table.len() == 0 {
        Seq::empty()
    } else {
        Seq::new(table[0].len(), |c: int| column_width(table, c))
    }
}

/// Every row has as many fields as the header.
pub open spec fn rectangular(table: Table) -> bool {
    forall|r: int| 0 <= r < table.len() ==> (#[trigger] table[r]).len() == table[0].len()
}

/// The padded width of every field of the row is a `usize`.
pub open spec fn measurable(row: Row) -> bool {
    forall|c: int| 0 <= c < row.len() ==> field_width(#[trigger] row[c]) <= usize::MAX
}

/// Row `r` lines up with the header: it has the header's number of fields,
/// and it is measurable.
pub open spec fn lines_up(table: Table, r: int) -> bool {
    table[r].len() == table[0].len() && measurable(table[r])
}

/// Every row lines up with the header.
pub open spec fn well_formed(table: Table) -> bool {
    forall|r: int| 0 <= r < table.len() ==> lines_up(table, r)
}

/// Row `i` is the first that does not line up with the header.
pub open spec fn first_malformed(table: Table, i: int) -> bool {
    &&& 0 <= i < table.len()
    &&& !lines_up(table, i)
    &&& forall|r: int| 0 <= r < i ==> lines_up(table, r)
}

/// The width of a column is the width of its widest field: no field of the
/// column asks for more, and one of them asks for exactly that.
pub proof fn lemma_column_width_is_max(table: Table, c: int)
    ensures
        forall|r: int|
            0 <= r < table.len() ==> field_width(#[trigger] table[r][c]) <= column_width(table, c),
        table.len() > 0 ==> exists|r: int|
            0 <= r < table.len() && field_width(#[trigger] table[r][c]) == column_width(table, c),
    decreases table.len(),
{
    if table.len() > 0 {
        let above = table.drop_last();
        lemma_column_width_is_max(above, c);
        assert forall|r: int| 0 <= r < table.len() implies field_width(#[trigger] table[r][c])
            <= column_width(table, c) by {
            if r < above.len() {
                assert(field_width(above[r][c]) <= column_width(above, c));
            }
        }
        if column_width(table, c) != field_width(table.last()[c]) {
            // The width is that of the rows above, where a field attains it.
            let r = choose|r: int|
                0 <= r < above.len() && field_width(#[trigger] above[r][c]) == column_width(
                    above,
                    c,
                );
            assert(field_width(table[r][c]) == column_width(table, c));
        }
    }
}

/// Widths only grow: the width of a column after some of the rows is at
/// most its width after all of them.
pub proof fn lemma_column_width_grows(table: Table, n: int, c: int)
    requires
        0 <= n <= table.len(),
    ensures
        column_width(table.take(n), c) <= column_width(table, c),
    decreases table.len(),
{
    if n == table.len() {
        assert(table.take(n) == table);
    } else {
        lemma_column_width_grows(table.drop_last(), n, c);
        assert(table.drop_last().take(n) == table.take(n));
    }
}

/// Widths only grow, column by column: the widths measured after the first
/// `n` rows are, each in its place, at most the widths measured after all
/// rows. No column is lost on the way.
pub proof fn lemma_widths_grow(table: Table, n: int)
    requires
        0 <= n <= table.len(),
    ensures
        column_widths(table.take(n)).len() <= column_widths(table).len(),
        forall|c: int|
            0 <= c < column_widths(table.take(n)).len() ==> #[trigger] column_widths(
                table.take(n),
            )[c] <= column_widths(table)[c],
{
    let before = column_widths(table.take(n));
    assert forall|c: int| 0 <= c < before.len() implies #[trigger] before[c] <= column_widths(
        table,
    )[c] by {
        lemma_column_width_grows(table, n, c);
    }
}

/// The widths that the header alone asks for, unless one of them is no
/// `usize`.
fn seed(header: &Vec<String>) -> (w: Option<Vec<usize>>)
    ensures
        w is Some <==> measurable(header.deep_view()),
        w matches Some(lengths) ==> (lengths@.len() == header@.len() && forall|c: int|
            0 <= c < header@.len() ==> lengths@[c] == field_width(#[trigger] header@[c]@)),
{
    let mut lengths: Vec<usize> = Vec::new();
    let mut c: usize = 0;
    while c < header.len()
        invariant
            c <= header.len(),
            lengths@.len() == c,
            forall|k: int| 0 <= k < c ==> lengths@[k] == field_width(#[trigger] header@[k]@),
        decreases header.len() - c,
    {
        let len: usize = header[c].as_str().unicode_len();
        match len.checked_add(2) {
            Some(width) => {
                lengths.push(width);
            },
            None => {
                assert(field_width(header.deep_view()[c as int]) > usize::MAX);
                return None;
            },
        }
        c += 1;
    }
    assert(measurable(header.deep_view()));
    Some(lengths)
}

/// Grows each width to the field of `row` in its column. Gives `false`, and
/// leaves the widths in no particular state, where the row is not
/// measurable.
fn widen(lengths: &mut Vec<usize>, row: &Vec<String>) -> (ok: bool)
    requires
        old(lengths)@.len() == row@.len(),
    ensures
        ok <==> measurable(row.deep_view()),
        ok ==> final(lengths)@.len() == row@.len() && forall|c: int|
            0 <= c < row@.len() ==> final(lengths)@[c] == wider(
                old(lengths)@[c] as nat,
                field_width(#[trigger] row@[c]@),
            ),
{
    let ghost start = lengths@;
    let mut c: usize = 0;
    while c < row.len()
        invariant
            c <= row.len(),
            start.len() == row@.len(),
            lengths@.len() == row@.len(),
            forall|k: int|
                0 <= k < c ==> lengths@[k] == wider(
                    start[k] as nat,
                    field_width(#[trigger] row@[k]@),
                ),
            forall|k: int| c <= k < row@.len() ==> lengths@[k] == start[k],
        decreases row.len() - c,
    {
        let len: usize = row[c].as_str().unicode_len();
        match len.checked_add(2) {
            Some(width) => {
                if width > lengths[c] {
                    lengths[c] = width;
                }
            },
            None => {
                assert(field_width(row.deep_view()[c as int]) > usize::MAX);
                return false;
            },
        }
        c += 1;
    }
    assert(measurable(row.deep_view()));
    true
}

/// Measures the columns of the records, the first of which is the header.
///
/// Succeeds exactly on the tables in which every row lines up with the
/// header, and then gives for each column the width of its widest field
/// plus two. Otherwise names the first row that does not line up.
pub fn measure(records: &Vec<Vec<String>>) -> (r: Result<Vec<usize>, IngestError>)
    ensures
        r is Ok <==> well_formed(records.deep_view()),
        r matches Ok(lengths) ==> nats(lengths@) == column_widths(records.deep_view()),
        r matches Err(e) ==> (e matches IngestError::MalformedRow(i) && first_malformed(
            records.deep_view(),
            i as int,
        )),
{
    let ghost table = records.deep_view();
    if records.len() == 0 {
        return Ok(Vec::new());
    }
    let mut lengths = match seed(&records[0]) {
        Some(lengths) => lengths,
        None => {
            assert(!lines_up(table, 0));
            return Err(IngestError::MalformedRow(0));
        },
    };
    assert forall|c: int| 0 <= c < lengths@.len() implies lengths@[c] as nat == column_width(
        table.take(1),
        c,
    ) by {
        assert(table.take(1).drop_last() == table.take(0));
        assert(column_width(table.take(0), c) == 0);
    }
    let mut r: usize = 1;
    while r < records.len()
        invariant
            1 <= r <= records.len(),
            table == records.deep_view(),
            forall|k: int| 0 <= k < r ==> lines_up(table, k),
            lengths@.len() == table[0].len(),
            forall|c: int|
                0 <= c < lengths@.len() ==> lengths@[c] as nat == column_width(
                    table.take(r as int),
                    c,
                ),
        decreases records.len() - r,
    {
        if records[r].len() != lengths.len() {
            assert(!lines_up(table, r as int));
            return Err(IngestError::MalformedRow(r));
        }
        if !widen(&mut lengths, &records[r]) {
            assert(!lines_up(table, r as int));
            return Err(IngestError::MalformedRow(r));
        }
        assert forall|c: int| 0 <= c < lengths@.len() implies lengths@[c] as nat == column_width(
            table.take(r + 1),
            c,
        ) by {
            assert(table.take(r + 1).drop_last() == table.take(r as int));
        }
        r += 1;
    }
    assert(table.take(r as int) == table);
    Ok(lengths)
}

} // verus!
