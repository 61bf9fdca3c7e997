//! The renderer: rows and column widths in, aligned lines out.

use crate::layout::{cell, cells, join_lines, nats, render, row_line, rules, run, sep_line};
use vstd::prelude::*;
use vstd::string::*;

verus! {

/// Whether `i` is the index of the header row.
pub fn first_row(i: usize) -> (b: bool)
    ensures
        b == (i == 0),
{
    i == 0
}

/// Whether `i` is the index of the leftmost column.
pub fn first_col(i: usize) -> (b: bool)
    ensures
        b == (i == 0),
{
    first_row(i)
}

/// Appends `n` copies of the one-character text `unit` to `text`.
fn push_run(text: &mut String, unit: &str, n: usize)
    requires
        unit@.len() == 1,
    ensures
        final(text)@ == old(text)@ + run(unit@[0], n as nat),
{
    let ghost start = text@;
    let mut k: usize = 0;
    while k < n
        invariant
            k <= n,
            unit@.len() == 1,
            text@ == start + run(unit@[0], k as nat),
        decreases n - k,
    {
        text.append(unit);
        k += 1;
    }
}

/// The separator line for the given widths, such as `|-----|---|`.
pub fn sep_row(lengths: Vec<usize>) -> (line: String)
    ensures
        line@ == sep_line(nats(lengths@)),
{
    let ghost widths = nats(lengths@);
    let mut line = String::new();
    proof {
        reveal_strlit("|");
        reveal_strlit("-");
    }
    line.append("|");
    let mut c: usize = 0;
    while c < lengths.len()
        invariant
            c <= lengths.len(),
            widths == nats(lengths@),
            "|"@ == seq!['|'],
            "-"@ == seq!['-'],
            line@ == seq!['|'] + rules(widths).take(c as int).flatten(),
        decreases lengths.len() - c,
    {
        push_run(&mut line, "-", lengths[c]);
        line.append("|");
        proof {
            let done = rules(widths).take(c as int);
            assert(rules(widths).take(c + 1) == done.push(rules(widths)[c as int]));
            done.lemma_flatten_push(rules(widths)[c as int]);
        }
        c += 1;
    }
    assert(rules(widths).take(c as int) == rules(widths));
    line
}

/// Appends to `line` the cell of `field` in a column of the given width.
fn push_cell(line: &mut String, field: &String, width: usize)
    ensures
        final(line)@ == old(line)@ + cell(field@, width as nat),
{
    proof {
        reveal_strlit(" ");
    }
    line.append(" ");
    line.append(field.as_str());
    let len: usize = field.as_str().unicode_len();
    if len < width {
        push_run(line, " ", width - len - 1);
    }
}

/// The line of one row, such as `| Alice | 30  |`.
fn row_text(row: &Vec<String>, lengths: &Vec<usize>) -> (line: String)
    requires
        row@.len() <= lengths@.len(),
    ensures
        line@ == row_line(row.deep_view(), nats(lengths@)),
{
    let ghost fields = row.deep_view();
    let ghost widths = nats(lengths@);
    let mut line = String::new();
    proof {
        reveal_strlit("|");
    }
    let mut c: usize = 0;
    while c < row.len()
        invariant
            c <= row.len(),
            row@.len() <= lengths@.len(),
            fields == row.deep_view(),
            widths == nats(lengths@),
            "|"@ == seq!['|'],
            c == 0 ==> line@ == Seq::<char>::empty(),
            c > 0 ==> line@ == seq!['|'] + cells(fields, widths).take(c as int).flatten(),
        decreases row.len() - c,
    {
        if first_col(c) {
            line.append("|");
        }
        push_cell(&mut line, &row[c], lengths[c]);
        line.append("|");
        proof {
            let done = cells(fields, widths).take(c as int);
            assert(cells(fields, widths).take(c + 1) == done.push(cells(fields, widths)[c as int]));
            done.lemma_flatten_push(cells(fields, widths)[c as int]);
        }
        c += 1;
    }
    assert(cells(fields, widths).take(c as int) == cells(fields, widths));
    line
}

/// The lines of a table: one aligned line per row, and the separator line
/// right after the header. Every row must have a field for each width and
/// no more.
pub fn print_data(data: Vec<Vec<String>>, lengths: Vec<usize>) -> (lines: Vec<String>)
    requires
        forall|r: int| 0 <= r < data@.len() ==> (#[trigger] data@[r])@.len() == lengths@.len(),
    ensures
        lines.deep_view() == render(data.deep_view(), nats(lengths@)),
{
    let ghost table = data.deep_view();
    let ghost widths = nats(lengths@);
    let mut lines: Vec<String> = Vec::new();
    let mut r: usize = 0;
    while r < data.len()
        invariant
            r <= data.len(),
            forall|k: int| 0 <= k < data@.len() ==> (#[trigger] data@[k])@.len() == lengths@.len(),
            table == data.deep_view(),
            widths == nats(lengths@),
            lines.deep_view() == render(table.take(r as int), widths),
        decreases data.len() - r,
    {
        let ghost before = lines.deep_view();
        let ghost count = lines@.len();
        let line = row_text(&data[r], &lengths);
        lines.push(line);
        if first_row(r) {
            lines.push(sep_row(lengths.clone()));
        }
        proof {
            let after = render(table.take(r + 1), widths);
            assert(before.len() == count);
            assert forall|k: int| 0 <= k < after.len() implies lines.deep_view()[k] == after[k] by {
                if k < before.len() {
                    assert(before[k] == render(table.take(r as int), widths)[k]);
                }
            }
        }
        r += 1;
    }
    lines
}

/// The text of the lines: each line followed by a line break.
pub fn vec_to_string(data: Vec<String>) -> (text: String)
    ensures
        text@ == join_lines(data.deep_view()),
{
    let ghost lines = data.deep_view();
    let ghost parts = Seq::new(lines.len(), |i: int| lines[i] + seq!['\n']);
    let mut text = String::new();
    proof {
        reveal_strlit("\n");
    }
    let mut i: usize = 0;
    while i < data.len()
        invariant
            i <= data.len(),
            lines == data.deep_view(),
            parts == Seq::new(lines.len(), |i: int| lines[i] + seq!['\n']),
            "\n"@ == seq!['\n'],
            text@ == parts.take(i as int).flatten(),
        decreases data.len() - i,
    {
        text.append(data[i].as_str());
        text.append("\n");
        proof {
            let done = parts.take(i as int);
            assert(parts.take(i + 1) == done.push(parts[i as int]));
            done.lemma_flatten_push(parts[i as int]);
        }
        i += 1;
    }
    assert(parts.take(i as int) == parts);
    text
}

} // verus!
