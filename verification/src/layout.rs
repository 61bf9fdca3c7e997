//! The model of a rendered table.
//!
//! A field is a sequence of characters, a row a sequence of fields, a table a
//! sequence of rows whose first row is the header. Widths are natural numbers,
//! one per column, counted in characters. Everything here is specification:
//! what the lines of a table are, not how they are produced.

use vstd::prelude::*;

verus! {

/// A field: text measured in characters.
pub type Field = Seq<char>;

/// A row: one field per column.
pub type Row = Seq<Field>;

/// A table: rows, the first of which is the header.
pub type Table = Seq<Row>;

/// A line of output, without its line break.
pub type Line = Seq<char>;

/// `n` copies of `c`.
pub open spec fn run(c: char, n: nat) -> Seq<char> {
    Seq::new(n, |i: int| c)
}

/// The number of spaces that follow a field of `len` characters in a column
/// of the given width. One position of the width is taken by the space in
/// front of the field.
pub open spec fn padding(len: nat, width: nat) -> nat {
    if len + 1 < width {
        (width - len - 1) as nat
    } else {
        0
    }
}

/// A cell: a space, the field, and spaces up to the width of the column. A
/// field too long for its column is not cut.
pub open spec fn cell(field: Field, width: nat) -> Seq<char> {
    seq![' '] + field + run(' ', padding(field.len(), width))
}

/// The cells of a row, each closed by a bar.
pub open spec fn cells(row: Row, widths: Seq<nat>) -> Seq<Seq<char>> {
    Seq::new(row.len(), |c: int| cell(row[c], widths[c]) + seq!['|'])
}

/// The line of a row: a bar, then each cell with its closing bar. A row
/// without fields gives an empty line.
pub open spec fn row_line(row: Row, widths: Seq<nat>) -> Line {
    if row.len() == 0 {
        Seq::empty()
    } else {
        seq!['|'] + cells(row, widths).flatten()
    }
}

/// The dashes under each column, each run closed by a bar.
pub open spec fn rules(widths: Seq<nat>) -> Seq<Seq<char>> {
    Seq::new(widths.len(), |c: int| run('-', widths[c]) + seq!['|'])
}

/// The separator line: a bar, then for each column as many dashes as the
/// column is wide and a bar.
pub open spec fn sep_line(widths: Seq<nat>) -> Line {
    seq!['|'] + rules(widths).flatten()
}

/// The lines of a table: the header, the separator, then the data rows in
/// order. An empty table has no lines.
pub open spec fn render(table: Table, widths: Seq<nat>) -> Seq<Line> {
    if table.len() == 0 {
        Seq::empty()
    } else {
        Seq::new(
            table.len() + 1,
            |k: int|
                if k == 0 {
                    row_line(table[0], widths)
                } else if k == 1 {
                    sep_line(widths)
                } else {
                    row_line(table[k - 1], widths)
                },
        )
    }
}

/// The text of some lines: each line followed by a line break.
pub open spec fn join_lines(lines: Seq<Line>) -> Seq<char> {
    Seq::new(lines.len(), |i: int| lines[i] + seq!['\n']).flatten()
}

/// The widths as natural numbers.
pub open spec fn nats(widths: Seq<usize>) -> Seq<nat> {
    Seq::new(widths.len(), |c: int| widths[c] as nat)
}

/// The sum of the widths.
pub open spec fn total(widths: Seq<nat>) -> nat
    decreases widths.len(),
{
    if widths.len() == 0 {
        0
    } else {
        total(widths.drop_last()) + widths.last()
    }
}

/// The position of bar `c` in the separator line: bar 0 opens the line, bar
/// `c + 1` closes column `c`.
pub open spec fn bar(widths: Seq<nat>, c: int) -> int {
    total(widths.take(c)) + c
}

/// A field fits its column when the cell leaves it room for the space in
/// front.
pub open spec fn fits(field: Field, width: nat) -> bool {
    field.len() + 1 <= width
}

/// The first `n` cells of a row whose fields fit their columns take up the
/// first `n` widths and one bar each.
proof fn lemma_cells_len(row: Row, widths: Seq<nat>, n: int)
    requires
        0 <= n <= row.len() <= widths.len(),
        forall|c: int| 0 <= c < row.len() ==> fits(#[trigger] row[c], widths[c]),
    ensures
        cells(row, widths).take(n).flatten().len() == total(widths.take(n)) + n,
    decreases n,
{
    if n > 0 {
        lemma_cells_len(row, widths, n - 1);
        let done = cells(row, widths).take(n - 1);
        assert(cells(row, widths).take(n) == done.push(cells(row, widths)[n - 1]));
        done.lemma_flatten_push(cells(row, widths)[n - 1]);
        assert(widths.take(n).drop_last() == widths.take(n - 1));
    }
}

/// The line of a row with a field for every column, each fitting: as long
/// as the widths together, one bar per column, and the opening bar.
pub proof fn lemma_row_line_len(row: Row, widths: Seq<nat>)
    requires
        0 < row.len() == widths.len(),
        forall|c: int| 0 <= c < row.len() ==> fits(#[trigger] row[c], widths[c]),
    ensures
        row_line(row, widths).len() == total(widths) + widths.len() + 1,
{
    lemma_cells_len(row, widths, row.len() as int);
    assert(cells(row, widths).take(row.len() as int) == cells(row, widths));
    assert(widths.take(row.len() as int) == widths);
}

/// With one more column, the separator line grows at its end by the dashes
/// of that column and a bar.
proof fn lemma_sep_line_grows(widths: Seq<nat>)
    requires
        widths.len() > 0,
    ensures
        sep_line(widths) == sep_line(widths.drop_last()) + run('-', widths.last()) + seq!['|'],
{
    let before = rules(widths.drop_last());
    let added = run('-', widths.last()) + seq!['|'];
    assert(rules(widths) == before.push(added));
    before.lemma_flatten_push(added);
}

/// The shape of the separator line. It is as long as the widths together,
/// one bar per column, and the opening bar. It holds nothing but bars and
/// dashes. The bars stand at the positions that `bar` gives, and between two
/// neighbouring bars stand dashes only: as many as the column is wide.
pub proof fn lemma_separator_shape(widths: Seq<nat>)
    ensures
        sep_line(widths).len() == total(widths) + widths.len() + 1,
        forall|i: int|
            0 <= i < sep_line(widths).len() ==> sep_line(widths)[i] == '|' || sep_line(widths)[i]
                == '-',
        forall|c: int|
            0 <= c <= widths.len() ==> 0 <= #[trigger] bar(widths, c) < sep_line(widths).len()
                && sep_line(widths)[bar(widths, c)] == '|',
        forall|c: int|
            0 <= c < widths.len() ==> bar(widths, c + 1) == #[trigger] bar(widths, c) + widths[c]
                + 1,
        forall|c: int, i: int|
            #![trigger bar(widths, c), sep_line(widths)[i]]
            0 <= c < widths.len() && bar(widths, c) < i < bar(widths, c + 1) ==> sep_line(
                widths,
            )[i] == '-',
    decreases widths.len(),
{
    if widths.len() > 0 {
        let n = widths.len() as int;
        let shorter = widths.drop_last();
        lemma_separator_shape(shorter);
        lemma_sep_line_grows(widths);
        // Up to the last bar, the positions are those of the shorter line.
        assert forall|c: int| 0 <= c < n implies #[trigger] bar(widths, c) == bar(shorter, c) by {
            assert(widths.take(c) == shorter.take(c));
        }
        assert(widths.take(n) == widths);
        assert(shorter.take(n - 1) == shorter);
    }
}

} // verus!
