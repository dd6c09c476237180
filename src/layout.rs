//! Text layout: word wrap with a right-aligned annotation, wrapped and
//! indented blocks, and horizontal rules.

use vstd::prelude::*;
use crate::buffer::{Color, OutputBuffer, SegmentView, styled, line};
use crate::text::{spaces, sat_sub, pad_right, space_string, pad_right_with};

verus! {

/// The lines that `textwrap` breaks `s` into at `width` columns.
pub uninterp spec fn wrapped_lines(s: Seq<char>, width: nat) -> Seq<Seq<char>>;

/// `s` without leading and trailing whitespace.
pub uninterp spec fn trimmed(s: Seq<char>) -> Seq<char>;

/// `s` without trailing whitespace.
pub uninterp spec fn trimmed_end(s: Seq<char>) -> Seq<char>;

/// `s` with `prefix` put before each of its non-blank lines by `textwrap`.
pub uninterp spec fn indented(s: Seq<char>, prefix: Seq<char>) -> Seq<char>;

/// The views of a sequence of strings.
pub open spec fn views(v: Seq<String>) -> Seq<Seq<char>> {
    v.map_values(|s: String| s@)
}

/// Relies on textwrap::wrap_iter: the lines depend on the text and the width alone.
#[verifier::external_body]
fn wrap_text(s: &str, width: usize) -> (r: Vec<String>)
    ensures
        views(r@) == wrapped_lines(s@, width as nat),
{
    textwrap::wrap_iter(s, width).map(|l| l.into_owned()).collect()
}

/// Relies on str::trim: leading and trailing whitespace removed.
#[verifier::external_body]
fn trim_text(s: &str) -> (r: String)
    ensures
        r@ == trimmed(s@),
{
    s.trim().to_string()
}

/// Relies on str::trim_end: trailing whitespace removed.
#[verifier::external_body]
fn trim_text_end(s: &str) -> (r: String)
    ensures
        r@ == trimmed_end(s@),
{
    s.trim_end().to_string()
}

/// Relies on textwrap::fill: the lines of `wrap_iter` at the same width,
/// joined by newlines.
#[verifier::external_body]
fn fill_text(s: &str, width: usize) -> (r: String)
    ensures
        r@ == join_lines(wrapped_lines(s@, width as nat)),
{
    textwrap::fill(s, width)
}

/// Relies on textwrap::indent: a prefix put before each non-blank line.
#[verifier::external_body]
fn indent_text(s: &str, prefix: &str) -> (r: String)
    ensures
        r@ == indented(s@, prefix@),
{
    textwrap::indent(s, prefix)
}

/// Room left on a line of a `tw`-column terminal for text before an
/// annotation of `cmt_len` characters, keeping a two-column gap.
pub open spec fn comment_space(tw: nat, cmt_len: nat) -> nat {
    sat_sub(sat_sub(tw, cmt_len), 2)
}

/// Each wrapped line trimmed and put after the indent.
pub open spec fn indent_lines(lines: Seq<Seq<char>>, indent: Seq<char>) -> Seq<Seq<char>> {
    lines.map_values(|l: Seq<char>| indent + trimmed(l))
}

/// The lines with the last one padded with spaces to `space` columns, or,
/// when it is already longer, a new line of `space` spaces after it.
pub open spec fn align_last(lines: Seq<Seq<char>>, space: nat) -> Seq<Seq<char>> {
    if lines.len() == 0 {
        seq![spaces(space)]
    } else if lines.last().len() > space {
        lines.push(spaces(space))
    } else {
        lines.update(lines.len() - 1, lines.last() + spaces((space - lines.last().len()) as nat))
    }
}

/// The lines joined by newlines.
pub open spec fn join_lines(lines: Seq<Seq<char>>) -> Seq<char>
    decreases lines.len(),
{
    if lines.len() == 0 {
        Seq::empty()
    } else if lines.len() == 1 {
        lines[0]
    } else {
        join_lines(lines.drop_last()) + seq!['\n'] + lines.last()
    }
}

/// The lines of `msg` laid out before an annotation of `cmt_len` characters
/// on a `tw`-column terminal.
pub open spec fn comment_lines(msg: Seq<char>, cmt_len: nat, indent: Seq<char>, tw: nat) -> Seq<
    Seq<char>,
> {
    align_last(
        indent_lines(wrapped_lines(msg, sat_sub(tw, indent.len())), indent),
        comment_space(tw, cmt_len),
    )
}

/// The text of `msg` laid out before an annotation of `cmt_len` characters.
pub open spec fn comment_text(msg: Seq<char>, cmt_len: nat, indent: Seq<char>, tw: nat) -> Seq<
    char,
> {
    join_lines(comment_lines(msg, cmt_len, indent, tw))
}

/// The two segments of a message with its annotation: the laid out message
/// in the given style, then a two-space gap, the annotation in white and a
/// newline.
pub open spec fn comment_segments(
    msg: Seq<char>,
    cmt: Seq<char>,
    indent: Seq<char>,
    color: Color,
    bold: bool,
    tw: nat,
) -> Seq<SegmentView> {
    seq![
        styled(comment_text(msg, cmt.len(), indent, tw), color, bold),
        styled(line(seq![' ', ' '] + cmt), Color::White, false),
    ]
}

/// A block of text wrapped to `tw - 4` columns, indented by two spaces,
/// trailing whitespace removed.
pub open spec fn block_text(s: Seq<char>, tw: nat) -> Seq<char> {
    trimmed_end(indented(join_lines(wrapped_lines(s, sat_sub(tw, 4))), seq![' ', ' ']))
}

/// A horizontal rule of `width` dashes that starts with `head`.
pub open spec fn rule_text(head: Seq<char>, width: nat) -> Seq<char> {
    pad_right(head, '—', width)
}

/// Joins the lines with newlines.
pub fn join_with_newlines(lines: &Vec<String>) -> (r: String)
    ensures
        r@ == join_lines(views(lines@)),
{
    proof {
        reveal_strlit("\n");
    }
    let mut r = String::new();
    let mut i: usize = 0;
    while i < lines.len()
        invariant
            i <= lines@.len(),
            r@ == join_lines(views(lines@).take(i as int)),
        decreases lines.len() - i,
    {
        proof {
            let t = views(lines@).take(i as int + 1);
            assert(t.drop_last() =~= views(lines@).take(i as int));
        }
        proof {
            reveal_strlit("\n");
        }
        let ghost r0 = r@;
        if i > 0 {
            r.append("\n");
        }
        r.append(lines[i].as_str());
        proof {
            let t = views(lines@).take(i as int + 1);
            assert(t.last() == lines@[i as int]@);
            if i == 0 {
                assert(r@ =~= t[0]);
            } else {
                assert(r@ =~= r0 + seq!['\n'] + t.last());
                assert(r@ =~= join_lines(t.drop_last()) + seq!['\n'] + t.last());
            }
        }
        i = i + 1;
    }
    assert(views(lines@).take(lines@.len() as int) =~= views(lines@));
    r
}

/// Lays out `s` word-wrapped to the terminal width less the indent, each
/// line after `indent`, the last one padded so that an annotation of `c`'s
/// length fits flush right after a two-space gap.
pub fn wrap_with_comment(s: &str, c: &str, indent: &str, tw: usize) -> (r: String)
    ensures
        r@ == comment_text(s@, c@.len(), indent@, tw as nat),
{
    let indent_len = indent.unicode_len();
    let width: usize = if tw >= indent_len { tw - indent_len } else { 0 };
    let raw = wrap_text(s, width);
    let ghost rawv = views(raw@);
    let mut lines: Vec<String> = Vec::new();
    let mut i: usize = 0;
    while i < raw.len()
        invariant
            i <= raw@.len(),
            rawv == views(raw@),
            views(lines@) =~= indent_lines(rawv.take(i as int), indent@),
        decreases raw.len() - i,
    {
        assert(rawv[i as int] == raw@[i as int]@);
        let t = trim_text(raw[i].as_str());
        let mut l = String::from_str(indent);
        l.append(t.as_str());
        let ghost l0 = views(lines@);
        assert(l@ == indent@ + trimmed(rawv[i as int]));
        lines.push(l);
        assert(views(lines@) =~= l0.push(indent@ + trimmed(rawv[i as int])));
        assert(rawv.take(i as int + 1) =~= rawv.take(i as int).push(rawv[i as int]));
        i = i + 1;
        assert(views(lines@) =~= indent_lines(rawv.take(i as int), indent@));
    }
    assert(rawv.take(i as int) =~= rawv);
    let cl = c.unicode_len();
    let a: usize = if tw >= cl { tw - cl } else { 0 };
    let space: usize = if a >= 2 { a - 2 } else { 0 };
    let ghost before = views(lines@);
    if lines.len() == 0 {
        lines.push(space_string(space));
        assert(views(lines@) =~= align_last(before, space as nat));
    } else {
        let last = lines.pop().unwrap();
        let ll = last.unicode_len();
        if ll > space {
            lines.push(last);
            lines.push(space_string(space));
            assert(views(lines@) =~= align_last(before, space as nat));
        } else {
            let mut l = last;
            let pad = space_string(space - ll);
            l.append(pad.as_str());
            lines.push(l);
            assert(views(lines@) =~= align_last(before, space as nat));
        }
    }
    join_with_newlines(&lines)
}

/// Writes `s` laid out with its annotation `cmt`: the text in the given
/// style, then a space and the annotation in white, then a newline.
pub fn write_comment_line(
    buf: &mut OutputBuffer,
    s: &str,
    cmt: &str,
    indent: &str,
    color: Color,
    bold: bool,
    tw: usize,
)
    ensures
        final(buf)@ == old(buf)@ + comment_segments(s@, cmt@, indent@, color, bold, tw as nat),
{
    proof {
        reveal_strlit("  ");
        reveal_strlit("\n");
    }
    let ghost b0 = buf@;
    let body = wrap_with_comment(s, cmt, indent, tw);
    buf.push_styled(body, color, bold);
    let mut tail = String::from_str("  ");
    tail.append(cmt);
    tail.append("\n");
    assert(tail@ =~= line(seq![' ', ' '] + cmt@));
    buf.push_styled(tail, Color::White, false);
    assert(buf@ =~= b0 + comment_segments(s@, cmt@, indent@, color, bold, tw as nat));
}

/// `s` wrapped to the terminal width less four columns, each line indented
/// by two spaces, trailing whitespace removed.
pub fn block(s: &str, tw: usize) -> (r: String)
    ensures
        r@ == block_text(s@, tw as nat),
{
    proof {
        reveal_strlit("  ");
    }
    let width: usize = if tw >= 4 { tw - 4 } else { 0 };
    let f = fill_text(s, width);
    let ind = indent_text(f.as_str(), "  ");
    assert("  "@ =~= seq![' ', ' ']);
    trim_text_end(ind.as_str())
}

/// `head` followed by dashes up to `width` characters.
pub fn rule(head: &str, width: usize) -> (r: String)
    ensures
        r@ == rule_text(head@, width as nat),
{
    proof {
        reveal_strlit("—");
    }
    pad_right_with(head, "—", width)
}

/// `s` laid out as a docstring body: indented, trailing whitespace removed.
pub fn docstring_body(s: &str, indent: &str) -> (r: String)
    ensures
        r@ == trimmed_end(indented(s@, indent@)),
{
    let ind = indent_text(s, indent);
    trim_text_end(ind.as_str())
}

} // verus!
