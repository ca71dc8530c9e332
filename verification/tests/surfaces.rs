//! The two text surfaces.

use zuno::input::editor::Editor;
use zuno::input::runs::build_marked_runs;
use zuno::input::text_input::{boundary_after, boundary_before, sanitize, TextInput};

#[test]
fn a_line_break_becomes_a_space_in_a_single_line() {
    assert_eq!(sanitize("a\r\nb"), "a  b");
    let mut input = TextInput::new("one\ntwo", "URL", "UrlBar");
    assert_eq!(input.text(), "one two");
    assert_eq!(input.cursor_offset(), 7);
    assert_eq!(input.key_context(), "TextInput UrlBar");
    input.paste("\nthree");
    assert_eq!(input.text(), "one two three");
    assert!(input.undo());
    assert_eq!(input.text(), "one two");
    assert!(input.redo());
    assert_eq!(input.text(), "one two three");
}

#[test]
fn the_caret_steps_by_what_is_seen_as_one_character() {
    // A family of three, joined: one cluster of eighteen bytes.
    let family = "👩\u{200d}👩\u{200d}👦";
    let mut input = TextInput::new(&format!("a{family}b"), "", "Cell");
    input.left();
    assert_eq!(input.cursor_offset(), 1 + family.len());
    input.left();
    assert_eq!(input.cursor_offset(), 1, "the whole cluster in one step");
    input.right();
    assert_eq!(input.cursor_offset(), 1 + family.len());
    input.backspace();
    assert_eq!(input.text(), "ab");
    assert_eq!(boundary_before(&vec![0, 1, 19], 19), 1);
    assert_eq!(boundary_after(&vec![0, 1, 19], 1, 20), 19);
    assert_eq!(boundary_after(&vec![0, 1, 19], 19, 20), 20);
}

#[test]
fn selecting_extends_from_where_it_began() {
    let mut input = TextInput::new("one two", "", "Cell");
    input.select_word_left();
    assert_eq!(input.selected_range(), 4..7);
    assert_eq!(input.cursor_offset(), 4);
    input.select_doc_start();
    assert_eq!(input.selected_range(), 0..7);
    assert_eq!(input.copy(), Some("one two".to_string()));
    input.right();
    assert_eq!(input.cursor_offset(), 7, "a selection collapses to its end");
    assert_eq!(input.copy(), None);
    input.select_all();
    assert_eq!(input.cut(), Some("one two".to_string()));
    assert_eq!(input.text(), "");
    assert_eq!(input.display_text(), "");
}

#[test]
fn an_empty_input_shows_its_placeholder() {
    let input = TextInput::new("", "name", "Cell");
    assert_eq!(input.display_text(), "name");
    assert_eq!(input.text(), "");
}

#[test]
fn composing_is_one_entry_and_counts_in_utf16() {
    let mut input = TextInput::new("a😀", "", "Cell");
    input.replace_and_mark_text_in_range(Some(1..3), "か", Some(0..1));
    assert_eq!(input.text(), "aか");
    assert_eq!(input.marked_text_range(), Some(1..2));
    assert_eq!(input.selected_range(), 1..4, "all of what is being composed");
    assert_eq!(input.copy(), Some("か".to_string()));
    input.replace_and_mark_text_in_range(None, "漢", None);
    assert_eq!(input.text(), "a漢");
    assert_eq!(input.selected_range(), 4..4);
    input.replace_text_in_range(None, "漢字");
    assert_eq!(input.text(), "a漢字");
    assert_eq!(input.marked_text_range(), None);
    assert!(input.undo());
    assert_eq!(input.text(), "a😀", "the composition goes in one step");
    assert_eq!(input.text_for_range(1..3), ("😀".to_string(), 1..3));
    assert_eq!(input.selected_text_range().1, false);
}

#[test]
fn a_composing_selection_is_measured_in_what_is_composed() {
    let mut input = TextInput::new("ab", "", "Cell");
    input.replace_and_mark_text_in_range(None, "あ", Some(1..1));
    assert_eq!(input.text(), "abあ");
    assert_eq!(input.marked_text_range(), Some(2..3));
    assert_eq!(input.selected_range(), 5..5);
    let mut editor = Editor::new("ab", "");
    editor.doc_end();
    editor.replace_and_mark_text_in_range(None, "xあ", Some(1..2));
    assert_eq!(editor.text(), "abxあ");
    assert_eq!(editor.selection(), 3..6);
    assert_eq!(editor.copy(), Some("あ".to_string()));
    editor.replace_text_in_range(None, "か");
    assert_eq!(editor.text(), "abか");
    assert!(editor.undo());
    assert_eq!(editor.text(), "ab", "one step past the whole composition");
    assert!(editor.redo());
    assert_eq!(editor.text(), "abか");
}

#[test]
fn replacing_a_selection_begins_its_own_entry() {
    let mut input = TextInput::new("z", "", "Cell");
    input.doc_start();
    input.replace_text_in_range(None, "a");
    input.replace_text_in_range(None, "b");
    input.select_right();
    assert_eq!(input.selected_range(), 2..3);
    input.replace_text_in_range(None, "c");
    input.replace_text_in_range(None, "d");
    assert_eq!(input.text(), "abcd");
    assert!(input.undo());
    assert_eq!(input.text(), "abz", "what was typed over the selection goes together");
    assert!(input.undo());
    assert_eq!(input.text(), "z");
}

#[test]
fn clicks_select_words_and_everything() {
    let mut input = TextInput::new("one two", "", "Cell");
    input.on_mouse_down(2, false, 5);
    assert_eq!(input.selected_range(), 4..7);
    input.on_mouse_down(3, false, 5);
    assert_eq!(input.selected_range(), 0..7);
    input.on_mouse_down(1, false, 1);
    input.on_mouse_move(3);
    input.on_mouse_up();
    input.on_mouse_move(6);
    assert_eq!(input.selected_range(), 1..3, "letting go ends it");
    input.on_mouse_down(1, true, 6);
    assert_eq!(input.selected_range(), 1..6);
}

#[test]
fn an_editor_moves_between_lines() {
    let mut editor = Editor::new("long line\nx\nlong line", "");
    editor.doc_start();
    editor.end();
    assert_eq!(editor.cursor(), 9);
    editor.down();
    assert_eq!(editor.line_of(editor.cursor()), 1);
    assert_eq!(editor.cursor(), 11, "as far as the line reaches");
    editor.up();
    assert_eq!(editor.cursor(), 1, "in the same column");
    editor.up();
    assert_eq!(editor.cursor(), 0, "up from the first line goes to its start");
    editor.page_down(5);
    assert_eq!(editor.cursor(), 21, "and past the last to its end");
}

#[test]
fn an_editor_edits_by_the_line() {
    let mut editor = Editor::new("ab", "");
    assert_eq!(editor.cursor(), 0);
    editor.doc_end();
    editor.newline();
    editor.paste("c\nd");
    assert_eq!(editor.text(), "ab\nc\nd");
    assert_eq!(editor.line_count(), 3);
    assert_eq!(editor.line_text(1), "c");
    assert_eq!(editor.line_start(2), 5);
    assert_eq!(editor.line_end(2), 6);
    editor.select_all();
    assert_eq!(editor.copy(), Some("ab\nc\nd".to_string()));
    editor.doc_end();
    editor.delete_word_left();
    assert_eq!(editor.text(), "ab\nc\n");
    assert!(editor.undo());
    assert_eq!(editor.text(), "ab\nc\nd");
    assert_eq!(editor.lines_for_offsets(&vec![0, 3, 5]), vec![0, 1, 2]);
}

#[test]
fn replacing_backwards_is_replacing_at_once() {
    let mut editor = Editor::new("aXbXc", "");
    editor.replace_ranges(&vec![3..4, 1..2], "--");
    assert_eq!(editor.text(), "a--b--c");
    assert!(editor.undo());
    assert!(editor.text() != "a--b--c");
}

#[test]
fn what_is_composed_is_underlined() {
    let runs = build_marked_runs(10, 3, 5);
    assert_eq!(runs.iter().map(|run| run.len).collect::<Vec<_>>(), vec![3, 2, 5]);
    assert_eq!(runs.iter().map(|run| run.underlined).collect::<Vec<_>>(), vec![false, true, false]);
    let all = build_marked_runs(4, 0, 4);
    assert_eq!(all.len(), 1);
}

#[test]
fn an_editor_draws_its_selection_line_by_line() {
    let mut editor = Editor::new("abc\ndef\nghi", "body");
    editor.select_range(1, 6);
    let first = editor.selection_segment(0).expect("it begins there");
    assert_eq!((first.from, first.to, first.continues), (1, 3, true));
    let second = editor.selection_segment(1).expect("it ends there");
    assert_eq!((second.from, second.to, second.continues), (0, 2, false));
    assert_eq!(editor.selection_segment(2), None);
    assert_eq!(editor.caret(), None);
    editor.move_to(5);
    assert_eq!(editor.caret(), Some((1, 1)));
    assert_eq!(editor.display_line(1), "def");
    assert_eq!(editor.offset_for_position(1, Some(99)), 7, "held inside the line");
    assert_eq!(editor.offset_for_position(9, None), 11);
    assert_eq!(Editor::new("", "body").display_line(0), "body");
    assert_eq!(Editor::page_lines(Some(20)), 19);
    assert_eq!(Editor::page_lines(None), 1);
}

#[test]
fn what_an_input_method_composes_is_drawn_apart() {
    let mut editor = Editor::new("ab\ncd", "");
    editor.move_to(4);
    editor.replace_and_mark_text_in_range(None, "か", None);
    let runs: Vec<(usize, bool)> =
        editor.line_runs(1).iter().map(|run| (run.len, run.underlined)).collect();
    assert_eq!(runs, vec![(1, false), (3, true), (1, false)]);
    assert_eq!(editor.line_runs(0).len(), 1);

    let mut input = TextInput::new("ab", "", "Cell");
    assert_eq!(input.display_runs().len(), 1);
    input.replace_and_mark_text_in_range(None, "か", None);
    let runs: Vec<(usize, bool)> =
        input.display_runs().iter().map(|run| (run.len, run.underlined)).collect();
    assert_eq!(runs, vec![(2, false), (3, true)]);
    input.unmark_text();
    assert_eq!(input.marked_text_range(), None);
}

#[test]
fn pages_and_selections_reach_by_lines() {
    let mut editor = Editor::new("a\nb\nc\nd", "");
    editor.page_down(2);
    assert_eq!(editor.cursor(), 4);
    editor.select_page_up(1);
    assert_eq!(editor.selection(), 2..4);
    editor.select_down();
    editor.select_down();
    assert_eq!(editor.selection(), 4..6);
    editor.page_up(9);
    assert_eq!(editor.cursor(), 0);
    editor.select_page_down(9);
    assert_eq!(editor.selection(), 0..7);
    editor.select_up();
    assert_eq!(editor.selection(), 0..5);
}

#[test]
fn extending_a_selection_closes_the_run() {
    let mut input = TextInput::new("", "", "Cell");
    input.replace_text_in_range(None, "a");
    input.select_left();
    input.select_right();
    input.replace_text_in_range(None, "b");
    assert_eq!(input.text(), "ab");
    assert!(input.undo());
    assert_eq!(input.text(), "a", "the caret was moved between the two");
}
