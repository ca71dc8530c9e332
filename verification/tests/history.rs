//! Undo histories.

use zuno::input::{EditSnapshot, History};

fn snap(text: &str, at: usize) -> EditSnapshot {
    EditSnapshot {
        content: text.to_string(),
        selection: at..at,
        reversed: false,
    }
}

/// Type `text` one character at a time, coalescing as the surfaces do.
fn type_out(history: &mut History, text: &str) {
    let mut so_far = String::new();
    for c in text.chars() {
        let at = so_far.len();
        history.record(snap(&so_far, at), Some(at), c.len_utf8());
        so_far.push(c);
    }
}

#[test]
fn a_typed_run_collapses_into_one_entry() {
    let mut h = History::default();
    type_out(&mut h, "hello");
    let back = h.undo(snap("hello", 5)).expect("one entry");
    assert_eq!(back.content, "", "five keystrokes undo in one press");
    assert!(h.undo(snap("", 0)).is_none(), "and there is nothing behind it");
}

#[test]
fn moving_the_caret_splits_the_run() {
    let mut h = History::default();
    type_out(&mut h, "abc");
    h.break_run();
    h.record(snap("abc", 3), Some(3), 1);
    assert_eq!(h.undo(snap("abcd", 4)).unwrap().content, "abc");
    assert_eq!(h.undo(snap("abc", 3)).unwrap().content, "");
}

#[test]
fn a_non_contiguous_insert_starts_a_new_entry() {
    let mut h = History::default();
    h.record(snap("", 0), Some(0), 1);
    h.record(snap("a", 1), Some(0), 1);
    assert_eq!(h.undo(snap("ba", 1)).unwrap().content, "a");
    assert_eq!(h.undo(snap("a", 1)).unwrap().content, "");
}

#[test]
fn a_deletion_is_always_its_own_entry() {
    let mut h = History::default();
    type_out(&mut h, "ab");
    h.record(snap("ab", 2), None, 0); // backspace
    assert_eq!(h.undo(snap("a", 1)).unwrap().content, "ab", "undo the delete");
    assert_eq!(h.undo(snap("ab", 2)).unwrap().content, "", "then the typed run");
}

#[test]
fn redo_replays_and_a_new_edit_discards_the_branch() {
    let mut h = History::default();
    type_out(&mut h, "one");
    let undone = h.undo(snap("one", 3)).unwrap();
    assert_eq!(undone.content, "");
    assert_eq!(h.redo(snap("", 0)).unwrap().content, "one", "redo comes back");

    h.undo(snap("one", 3)).unwrap();
    h.record(snap("", 0), Some(0), 1);
    assert!(h.redo(snap("x", 1)).is_none(), "a new edit kills the redo branch");
}

#[test]
fn undo_restores_the_caret_not_just_the_text() {
    let mut h = History::default();
    h.record(
        EditSnapshot { content: "hello".into(), selection: 2..4, reversed: true },
        None,
        0,
    );
    let back = h.undo(snap("hXo", 2)).unwrap();
    assert_eq!(back.selection, 2..4);
    assert!(back.reversed);
}

#[test]
fn undo_on_an_untouched_surface_does_nothing() {
    let mut h = History::default();
    assert!(h.undo(snap("", 0)).is_none());
    assert!(h.redo(snap("", 0)).is_none());
}

#[test]
fn a_history_is_bounded() {
    let mut h = History::default();
    for i in 0..600 {
        h.record(snap(&format!("{i}"), 0), None, 0);
    }
    let mut kept = 0;
    while h.undo(snap("", 0)).is_some() {
        kept += 1;
    }
    assert_eq!(kept, 200, "the oldest entries go");
}
