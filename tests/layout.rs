use cucumber_output::position::error_position;
use cucumber_output::buffer::{Color, OutputBuffer};
use cucumber_output::document::Table;
use cucumber_output::extras::{column_widths, write_docstring, write_table};
use cucumber_output::layout::{block, rule, wrap_with_comment, write_comment_line};
use cucumber_output::text::{decimal, location_string, pad_left_spaces, pad_right_with, space_string};

fn text_of(b: &OutputBuffer) -> String {
    b.segments.iter().map(|s| s.text.as_str()).collect()
}

fn strings(v: &[&str]) -> Vec<String> {
    v.iter().map(|s| s.to_string()).collect()
}

#[test]
fn decimal_renders_digits() {
    assert_eq!(decimal(0), "0");
    assert_eq!(decimal(7), "7");
    assert_eq!(decimal(1204), "1204");
    assert_eq!(decimal(u64::MAX), u64::MAX.to_string());
}

#[test]
fn padding_helpers() {
    assert_eq!(pad_right_with("ab", "-", 5), "ab---");
    assert_eq!(pad_right_with("abcdef", "-", 3), "abcdef");
    assert_eq!(pad_left_spaces("2", 3), "  2");
    assert_eq!(space_string(4), "    ");
    assert_eq!(rule("! x ", 7), "! x ———");
    assert_eq!(location_string("a/b.feature", 4, 2), "a/b.feature:4:2");
}

#[test]
fn annotation_ends_in_the_last_column() {
    let tw = 40;
    let cmt = "f.feature:3:5";
    let body = wrap_with_comment("Scenario: short", cmt, " ", tw);
    assert_eq!(body, format!("{:<width$}", " Scenario: short", width = tw - cmt.len() - 2));
    let last = body.split('\n').last().unwrap();
    assert_eq!(last.chars().count() + 2 + cmt.chars().count(), tw);
    let mut b = OutputBuffer::new();
    write_comment_line(&mut b, "Scenario: short", cmt, " ", Color::White, true, tw);
    let printed = text_of(&b);
    assert!(printed.ends_with("  f.feature:3:5\n"));
    assert_eq!(printed.trim_end_matches('\n').chars().count(), tw);
}

#[test]
fn annotation_moves_to_a_new_line_when_text_is_too_long() {
    let tw = 30;
    let cmt = "features/long.feature:12:3";
    let body = wrap_with_comment("Scenario: a fairly long name", cmt, "", tw);
    let lines: Vec<&str> = body.split('\n').collect();
    assert_eq!(lines.len(), 2);
    assert_eq!(lines[0], "Scenario: a fairly long name");
    assert_eq!(lines[1], " ".repeat(2));
}

#[test]
fn wrapped_lines_are_trimmed_and_indented() {
    let body = wrap_with_comment("alpha beta gamma delta", "x", "  ", 14);
    let lines: Vec<&str> = body.split('\n').collect();
    assert_eq!(lines.len(), 3);
    assert_eq!(lines[0], "  alpha beta");
    assert_eq!(lines[1], "  gamma delta");
    assert_eq!(lines[2], " ".repeat(11));
}

#[test]
fn layout_is_repeatable() {
    let a = wrap_with_comment("Given some words to wrap around", "p:1:1", " ", 20);
    let b = wrap_with_comment("Given some words to wrap around", "p:1:1", " ", 20);
    assert_eq!(a, b);
}

#[test]
fn block_wraps_indents_and_trims() {
    assert_eq!(block("hello world", 10), "  hello\n  world");
}

#[test]
fn table_column_widths_take_the_widest_cell() {
    let t = Table {
        header: strings(&["a", "bcdef", "ghi"]),
        rows: vec![strings(&["10", "abc", "2"])],
        numeric: vec![vec![true, false, true]],
    };
    assert_eq!(column_widths(&t), vec![2, 5, 3]);
    let mut b = OutputBuffer::new();
    write_table(&mut b, &t);
    assert_eq!(
        text_of(&b),
        "      | a  | bcdef | ghi |\n      | 10 | abc   |   2 |\n"
    );
    assert_eq!(b.segments[1].color, Some(Color::Magenta));
    assert_eq!(b.segments[2].color, Some(Color::White));
    assert!(b.segments[2].bold);
}

#[test]
fn docstring_is_fenced() {
    let mut b = OutputBuffer::new();
    write_docstring(&mut b, "line one\nline two\n\n");
    assert_eq!(
        text_of(&b),
        "      \"\"\"\n      line one\n      line two\n      \"\"\"\n"
    );
    assert_eq!(b.segments[0].color, Some(Color::Magenta));
    assert_eq!(b.segments[1].color, None);
}

#[test]
fn leading_whitespace_of_wrapped_lines_is_trimmed() {
    let body = wrap_with_comment("   padded", "c", "", 20);
    assert_eq!(body, format!("{:<17}", "padded"));
}

#[test]
fn annotation_filling_the_width_gets_a_line_of_its_own() {
    let tw = 11;
    let cmt = "abcdefghi";
    let body = wrap_with_comment("x", cmt, "", tw);
    let lines: Vec<&str> = body.split('\n').collect();
    assert_eq!(lines, vec!["x", ""]);
    assert_eq!(lines[1].chars().count() + 2 + cmt.chars().count(), tw);
}

#[test]
fn error_position_reads_line_and_column() {
    assert_eq!(error_position("Error at 4:2: {\"Feature\"}"), Some((4, 2)));
    assert_eq!(error_position("Error at 12:30"), Some((12, 30)));
    assert_eq!(error_position("Error at 4"), None);
    assert_eq!(error_position("Error at :2:"), None);
    assert_eq!(error_position("Failure at 4:2:"), None);
    assert_eq!(error_position("Error at 4:x"), None);
    assert_eq!(error_position("Error at 99999999999999999999:1:"), None);
}
