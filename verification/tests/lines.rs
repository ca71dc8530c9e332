//! The editor's line index.

use zuno::input::lines::{compute_line_starts, find_line};

#[test]
fn line_starts_for_a_single_line() {
    assert_eq!(compute_line_starts("hello"), vec![0]);
}

#[test]
fn line_starts_for_multiple_lines() {
    //          0123 4567 89
    assert_eq!(compute_line_starts("abc\ndef\ngh"), vec![0, 4, 8]);
}

#[test]
fn a_trailing_newline_creates_an_empty_final_line() {
    assert_eq!(compute_line_starts("abc\n"), vec![0, 4]);
    assert_eq!(compute_line_starts("a\nb\n"), vec![0, 2, 4]);
}

#[test]
fn blank_lines_are_real_lines() {
    assert_eq!(compute_line_starts("a\n\nb"), vec![0, 2, 3]);
}

#[test]
fn empty_content_is_one_line() {
    assert_eq!(compute_line_starts(""), vec![0]);
}

#[test]
fn an_offset_finds_its_line() {
    let starts = compute_line_starts("abc\ndef\ngh");
    assert_eq!(find_line(&starts, 0), 0);
    assert_eq!(find_line(&starts, 3), 0);
    assert_eq!(find_line(&starts, 4), 1);
    assert_eq!(find_line(&starts, 10), 2);
}
