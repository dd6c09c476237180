//! A step's data table and docstring, laid out under the step.

use vstd::prelude::*;
use crate::buffer::{Color, OutputBuffer, SegmentView, styled, plain, line};
use crate::document::{Step, Table};
use crate::layout::{indented, trimmed_end, docstring_body};
use crate::text::{pad_right, pad_left, pad_left_spaces, pad_right_with};

verus! {

/// The indent of a step's table and docstring.
pub open spec fn extras_indent() -> Seq<char> {
    seq![' ', ' ', ' ', ' ', ' ', ' ']
}

/// The widest of column `n`'s header and the cells of the first `k` rows
/// that reach that column.
pub open spec fn column_width_upto(t: Table, n: int, k: int) -> nat
    decreases k,
{
    if k <= 0 {
        t.header@[n]@.len()
    } else {
        let w = column_width_upto(t, n, k - 1);
        if n < t.rows@[k - 1]@.len() && t.cell(k - 1, n).len() > w {
            t.cell(k - 1, n).len()
        } else {
            w
        }
    }
}

/// The width of column `n`: its widest cell, header included.
pub open spec fn column_width(t: Table, n: int) -> nat {
    column_width_upto(t, n, t.rows@.len() as int)
}

/// Header cell `n`: left aligned to the column width, a space on each side.
pub open spec fn header_cell(t: Table, n: int) -> Seq<char> {
    seq![' '] + pad_right(t.header@[n]@, ' ', column_width(t, n)) + seq![' ']
}

/// Cell `n` of row `r`: numbers right aligned, other text left aligned, a
/// space on each side.
pub open spec fn row_cell(t: Table, r: int, n: int) -> Seq<char> {
    if t.numeric@[r]@[n] {
        seq![' '] + pad_left(t.cell(r, n), column_width(t, n)) + seq![' ']
    } else {
        seq![' '] + pad_right(t.cell(r, n), ' ', column_width(t, n)) + seq![' ']
    }
}

/// The first `k` header cells, each followed by a bold border.
pub open spec fn header_cells(t: Table, k: int) -> Seq<SegmentView>
    decreases k,
{
    if k <= 0 {
        Seq::empty()
    } else {
        header_cells(t, k - 1) + seq![
            styled(header_cell(t, k - 1), Color::White, true),
            styled(seq!['|'], Color::Magenta, true),
        ]
    }
}

/// The first `k` cells of row `r`, each followed by a border.
pub open spec fn row_cells(t: Table, r: int, k: int) -> Seq<SegmentView>
    decreases k,
{
    if k <= 0 {
        Seq::empty()
    } else {
        row_cells(t, r, k - 1) + seq![
            plain(row_cell(t, r, k - 1)),
            styled(seq!['|'], Color::Magenta, false),
        ]
    }
}

/// Row `r` of the table as one line, one cell per cell of the row.
pub open spec fn row_line(t: Table, r: int) -> Seq<SegmentView> {
    seq![plain(extras_indent()), styled(seq!['|'], Color::Magenta, false)] + row_cells(
        t,
        r,
        t.rows@[r]@.len() as int,
    ) + seq![plain(seq!['\n'])]
}

/// The first `k` rows of the table, one line each.
pub open spec fn row_lines(t: Table, k: int) -> Seq<SegmentView>
    decreases k,
{
    if k <= 0 {
        Seq::empty()
    } else {
        row_lines(t, k - 1) + row_line(t, k - 1)
    }
}

/// The whole table: the bold header line, then each row.
pub open spec fn table_segments(t: Table) -> Seq<SegmentView> {
    seq![plain(extras_indent()), styled(seq!['|'], Color::Magenta, true)] + header_cells(
        t,
        t.columns() as int,
    ) + seq![plain(seq!['\n'])] + row_lines(t, t.rows@.len() as int)
}

/// A docstring fenced by triple quotes, its body indented.
pub open spec fn docstring_segments(d: Seq<char>) -> Seq<SegmentView> {
    let fence = line(extras_indent() + seq!['"', '"', '"']);
    seq![
        styled(fence, Color::Magenta, true),
        plain(line(trimmed_end(indented(d, extras_indent())))),
        styled(fence, Color::Magenta, true),
    ]
}

/// What is written under a step: its table, then its docstring.
pub open spec fn extras_segments(step: Step) -> Seq<SegmentView> {
    (match step.table {
        Some(t) => table_segments(t),
        None => Seq::empty(),
    }) + (match step.docstring {
        Some(d) => docstring_segments(d@),
        None => Seq::empty(),
    })
}

fn indent_string() -> (r: String)
    ensures
        r@ == extras_indent(),
{
    proof {
        reveal_strlit("      ");
    }
    let r = String::from_str("      ");
    assert(r@ =~= extras_indent());
    r
}

fn bar_string() -> (r: String)
    ensures
        r@ == seq!['|'],
{
    proof {
        reveal_strlit("|");
    }
    let r = String::from_str("|");
    assert(r@ =~= seq!['|']);
    r
}

fn newline_string() -> (r: String)
    ensures
        r@ == seq!['\n'],
{
    proof {
        reveal_strlit("\n");
    }
    let r = String::from_str("\n");
    assert(r@ =~= seq!['\n']);
    r
}

/// The width of each column: the longest of its header and row cells.
pub fn column_widths(t: &Table) -> (r: Vec<usize>)
    requires
        t.wf(),
    ensures
        r@.len() == t.columns(),
        forall|n: int| 0 <= n < r@.len() ==> r@[n] == column_width(*t, n),
{
    let mut r: Vec<usize> = Vec::new();
    let mut n: usize = 0;
    while n < t.header.len()
        invariant
            t.wf(),
            n <= t.header@.len(),
            r@.len() == n,
            forall|m: int| 0 <= m < n ==> r@[m] == column_width(*t, m),
        decreases t.header.len() - n,
    {
        let mut w: usize = t.header[n].unicode_len();
        let mut k: usize = 0;
        while k < t.rows.len()
            invariant
                t.wf(),
                n < t.header@.len(),
                k <= t.rows@.len(),
                w == column_width_upto(*t, n as int, k as int),
            decreases t.rows.len() - k,
        {
            if n < t.rows[k].len() {
                let c = t.rows[k][n].unicode_len();
                if c > w {
                    w = c;
                }
            }
            k = k + 1;
        }
        r.push(w);
        n = n + 1;
    }
    r
}

/// Writes the table: the header line in bold white, then each row, numbers
/// right aligned, with magenta borders between cells.
pub fn write_table(buf: &mut OutputBuffer, t: &Table)
    requires
        t.wf(),
    ensures
        final(buf)@ == old(buf)@ + table_segments(*t),
{
    proof {
        reveal_strlit("      ");
        reveal_strlit("|");
        reveal_strlit(" ");
        reveal_strlit("\n");
    }
    let ghost b0 = buf@;
    let widths = column_widths(t);
    buf.push_plain(indent_string());
    buf.push_styled(bar_string(), Color::Magenta, true);
    let mut n: usize = 0;
    while n < t.header.len()
        invariant
            t.wf(),
            n <= t.header@.len(),
            widths@.len() == t.columns(),
            forall|m: int| 0 <= m < widths@.len() ==> widths@[m] == column_width(*t, m),
            buf@ =~= b0 + seq![plain(extras_indent()), styled(seq!['|'], Color::Magenta, true)]
                + header_cells(*t, n as int),
        decreases t.header.len() - n,
    {
        proof {
            reveal_strlit("|");
            reveal_strlit(" ");
        }
        let mut cell = String::from_str(" ");
        let padded = pad_right_with(t.header[n].as_str(), " ", widths[n]);
        cell.append(padded.as_str());
        cell.append(" ");
        assert(cell@ =~= header_cell(*t, n as int));
        buf.push_styled(cell, Color::White, true);
        buf.push_styled(bar_string(), Color::Magenta, true);
        n = n + 1;
    }
    buf.push_plain(newline_string());
    let mut r: usize = 0;
    while r < t.rows.len()
        invariant
            t.wf(),
            r <= t.rows@.len(),
            widths@.len() == t.columns(),
            forall|m: int| 0 <= m < widths@.len() ==> widths@[m] == column_width(*t, m),
            buf@ =~= b0 + seq![plain(extras_indent()), styled(seq!['|'], Color::Magenta, true)]
                + header_cells(*t, t.columns() as int) + seq![plain(seq!['\n'])] + row_lines(
                *t,
                r as int,
            ),
        decreases t.rows.len() - r,
    {
        proof {
            reveal_strlit("      ");
            reveal_strlit("|");
            reveal_strlit(" ");
            reveal_strlit("\n");
        }
        let ghost before = buf@;
        buf.push_plain(indent_string());
        buf.push_styled(bar_string(), Color::Magenta, false);
        let mut n: usize = 0;
        while n < t.rows[r].len()
            invariant
                t.wf(),
                r < t.rows@.len(),
                n <= t.rows@[r as int]@.len(),
                widths@.len() == t.columns(),
                forall|m: int| 0 <= m < widths@.len() ==> widths@[m] == column_width(*t, m),
                buf@ =~= before + seq![
                    plain(extras_indent()),
                    styled(seq!['|'], Color::Magenta, false),
                ] + row_cells(*t, r as int, n as int),
            decreases t.rows@[r as int]@.len() - n,
        {
            proof {
                reveal_strlit("|");
                reveal_strlit(" ");
            }
            assert(t.rows@[r as int]@.len() <= t.header@.len());
            assert(t.numeric@[r as int]@.len() == t.rows@[r as int]@.len());
            let text = t.rows[r][n].as_str();
            let padded = if t.numeric[r][n] {
                pad_left_spaces(text, widths[n])
            } else {
                pad_right_with(text, " ", widths[n])
            };
            let mut cell = String::from_str(" ");
            cell.append(padded.as_str());
            cell.append(" ");
            assert(cell@ =~= row_cell(*t, r as int, n as int));
            buf.push_plain(cell);
            buf.push_styled(bar_string(), Color::Magenta, false);
            n = n + 1;
        }
        buf.push_plain(newline_string());
        r = r + 1;
    }
}

/// Writes the docstring between two magenta triple-quote lines, its body
/// indented and without trailing whitespace.
pub fn write_docstring(buf: &mut OutputBuffer, d: &str)
    ensures
        final(buf)@ == old(buf)@ + docstring_segments(d@),
{
    proof {
        reveal_strlit("      ");
        reveal_strlit("      \"\"\"\n");
        reveal_strlit("\n");
    }
    let ghost b0 = buf@;
    let fence = String::from_str("      \"\"\"\n");
    assert(fence@ =~= line(extras_indent() + seq!['"', '"', '"']));
    buf.push_styled(fence, Color::Magenta, true);
    assert("      "@ =~= extras_indent());
    let mut body = docstring_body(d, "      ");
    body.append("\n");
    assert(body@ =~= line(trimmed_end(indented(d@, extras_indent()))));
    buf.push_plain(body);
    let fence = String::from_str("      \"\"\"\n");
    assert(fence@ =~= line(extras_indent() + seq!['"', '"', '"']));
    buf.push_styled(fence, Color::Magenta, true);
    assert(buf@ =~= b0 + docstring_segments(d@));
}

/// Writes what goes under a step: its table, then its docstring.
pub fn write_step_extras(buf: &mut OutputBuffer, step: &Step)
    requires
        step.wf(),
    ensures
        final(buf)@ == old(buf)@ + extras_segments(*step),
{
    let ghost b0 = buf@;
    match &step.table {
        Some(t) => write_table(buf, t),
        None => {},
    }
    match &step.docstring {
        Some(d) => write_docstring(buf, d.as_str()),
        None => {},
    }
    assert(buf@ =~= b0 + extras_segments(*step));
}

} // verus!
