//! How a response body is classified, folded and walked.

use serde_json::Value;
use zuno::body_view::{
    is_folded_at, looks_like_json, BodyKind, BodyNotice, BodyView, ParseFailure, RowSource,
    TextLines, MAX_AUTO_PARSE,
};
use zuno::outline::{Outline, OutlineKind, OutlineRow};

/// The rows of a value, with the key that each is drawn under.
fn flatten(key: &str, value: &Value, depth: u16, rows: &mut Vec<OutlineRow>, keys: &mut Vec<String>) {
    let key_len = key.len() as u32;
    keys.push(key.to_string());
    let children: Vec<(String, &Value)> = match value {
        Value::Object(map) => map.iter().map(|(k, v)| (format!("\"{k}\""), v)).collect(),
        Value::Array(list) => list.iter().map(|v| (String::new(), v)).collect(),
        scalar => {
            let value_len = scalar.to_string().len() as u32;
            rows.push(OutlineRow { kind: OutlineKind::Scalar, depth, key_len, value_len });
            return;
        }
    };
    let at = rows.len();
    rows.push(OutlineRow { kind: OutlineKind::Open { close: 0 }, depth, key_len, value_len: 1 });
    for (name, child) in children {
        flatten(&name, child, depth + 1, rows, keys);
    }
    let close = rows.len() as u32;
    rows[at].kind = OutlineKind::Open { close };
    rows.push(OutlineRow { kind: OutlineKind::Close, depth, key_len: 0, value_len: 1 });
    keys.push(String::new());
}

fn parse(body: &[u8]) -> (Result<Outline, ParseFailure>, Vec<String>) {
    let mut keys = Vec::new();
    match serde_json::from_slice::<Value>(body) {
        Ok(value) => {
            let mut rows = Vec::new();
            flatten("", &value, 0, &mut rows, &mut keys);
            (Ok(Outline { rows }), keys)
        }
        Err(error) => {
            let failure = ParseFailure {
                message: "not JSON".to_string(),
                line: error.line() as u64,
                column: error.column() as u64,
            };
            (Err(failure), keys)
        }
    }
}

fn lines(body: &[u8]) -> TextLines {
    let text = String::from_utf8_lossy(body);
    let widths: Vec<usize> = text.lines().map(|line| line.chars().count()).collect();
    let mut widest = 0;
    for (ix, width) in widths.iter().enumerate() {
        if *width > widths[widest] {
            widest = ix;
        }
    }
    TextLines {
        count: widths.len(),
        widest,
        widest_chars: widths.get(widest).copied().unwrap_or(0) as u32,
    }
}

fn build_bytes(body: &[u8], content_type: Option<&str>, force: bool) -> BodyView {
    let parsed = if BodyView::wants_parse(body, content_type, force) {
        Some(parse(body).0)
    } else {
        None
    };
    BodyView::build(body, content_type, force, parsed, lines(body))
}

fn build(body: &str, content_type: Option<&str>) -> BodyView {
    build_bytes(body.as_bytes(), content_type, false)
}

#[test]
fn a_shallow_long_row_beats_a_deep_short_one() {
    let long = "x".repeat(41);
    let deep = "y".repeat(31);
    let json = format!(
        r#"{{"k":"{long}","a":{{"b":{{"c":{{"d":{{"e":{{"f":{{"d":"{deep}"}}}}}}}}}}}}}}"#
    );
    let view = build(&json, Some("application/json"));
    let keys = parse(json.as_bytes()).1;

    let outline = view.outline().expect("json");
    let at = view.widest_visible_ix();
    assert_eq!(
        keys[at], "\"k\"",
        "the shallow row with the long value is the widest one actually drawn"
    );
    assert_eq!(outline.rows[at].depth, 1);
    assert_eq!(view.widest_extent(), (1, 46));
}

#[test]
fn json_content_type_is_parsed() {
    let view = build(r#"{"a":1}"#, Some("application/json; charset=utf-8"));
    assert!(view.is_json());
    assert!(view.notice().is_none());
}

#[test]
fn json_sent_as_text_plain_is_still_parsed() {
    assert!(build(r#"{"a":1}"#, Some("text/plain")).is_json());
}

#[test]
fn json_with_no_content_type_is_sniffed() {
    assert!(build(r#"[1,2,3]"#, None).is_json());
}

#[test]
fn an_html_error_page_is_not_parsed_as_json() {
    let view = build("{not html but typed as html}", Some("text/html"));
    assert!(!view.is_json());
    assert!(view.notice().is_none(), "declining to parse HTML is not a failure");
}

#[test]
fn plain_text_falls_back_to_lines_without_a_notice() {
    let view = build("hello\nworld", Some("text/plain"));
    assert!(!view.is_json());
    assert!(view.notice().is_none());
    assert_eq!(view.row_count(), 2);
}

#[test]
fn malformed_json_falls_back_to_text_and_says_where() {
    let view = build(r#"{"a":1,}"#, Some("application/json"));
    assert!(!view.is_json(), "should not pretend to have parsed");

    let Some(BodyNotice::ParseFailed { message }) = view.notice() else {
        panic!("expected a ParseFailed notice, got {:?}", view.notice());
    };
    assert!(message.contains("line 1"), "message should locate it: {message}");
    assert!(view.row_count() > 0, "the raw body must still be visible");
    assert!(view.raw_is_json(), "it was meant to be JSON");
}

#[test]
fn a_non_utf8_body_is_binary() {
    let view = build_bytes(&[0xff, 0xfe, 0x00], None, false);
    assert!(matches!(view.kind(), BodyKind::Binary { len: 3 }));
    assert_eq!(view.row_count(), 0);
}

#[test]
fn an_empty_body_is_empty() {
    let view = build("", Some("application/json"));
    assert!(matches!(view.kind(), BodyKind::Empty));
}

#[test]
fn an_oversized_body_is_not_parsed_but_is_still_shown() {
    let big = format!("[{}]", "1,".repeat(MAX_AUTO_PARSE / 2 + 8));
    let view = build(&big, Some("application/json"));

    assert!(!view.is_json(), "over the cap, JSON must not be parsed");
    assert!(matches!(view.notice(), Some(BodyNotice::TooLarge { .. })));
    assert!(view.row_count() > 0, "raw view must still render");

    let forced = build_bytes(big.as_bytes(), Some("application/json"), true);
    assert!(
        forced.is_json() || matches!(forced.notice(), Some(BodyNotice::ParseFailed { .. })),
        "forcing should attempt a parse rather than report TooLarge"
    );
}

#[test]
fn folding_updates_the_visible_index() {
    let view = build(r#"{"a":{"b":1,"c":2},"d":3}"#, Some("application/json"));
    let before = view.row_count();

    let mut view = view;
    view.toggle_fold(1);
    assert!(view.row_count() < before, "folding should hide rows");

    view.toggle_fold(1);
    assert_eq!(view.row_count(), before, "unfolding should restore them");
}

#[test]
fn folding_a_scalar_row_does_nothing() {
    let mut view = build(r#"{"a":1}"#, Some("application/json"));
    let before = view.row_count();
    view.toggle_fold(1); // the scalar
    assert_eq!(view.row_count(), before);
}

#[test]
fn fold_all_leaves_the_root_open() {
    let mut view = build(r#"{"a":{"b":1},"c":[2,3]}"#, Some("application/json"));
    view.set_all_folded(true);

    // root open, "a": {…}, "c": […], root close
    assert_eq!(view.row_count(), 4);

    view.set_all_folded(false);
    assert_eq!(view.row_count(), view.outline().unwrap().len());
}

#[test]
fn is_folded_at_infers_state_from_the_visible_index() {
    let view = build(r#"{"a":{"b":1},"c":2}"#, Some("application/json"));
    let visible = view.visible().clone();

    // Row 1 is the nested open; unfolded, its child follows at row 2.
    assert!(!is_folded_at(&visible, 1, 1));

    let mut folded = view;
    folded.toggle_fold(1);
    let visible = folded.visible().clone();
    assert!(
        is_folded_at(&visible, 1, 1),
        "after folding, row 1's successor is no longer row 2"
    );
}

/// `{ "a": {x,y}, "b": {p,q} }` — two sibling containers, so folding one shifts the other's
/// visible indices away from its row indices.
fn siblings() -> BodyView {
    build(r#"{"a":{"x":1,"y":2},"b":{"p":3,"q":4}}"#, Some("application/json"))
}

#[test]
fn reveal_returns_the_visible_index_not_the_row_index() {
    let mut view = siblings();
    view.toggle_fold(1); // fold "a", hiding rows 2..=4
    assert_eq!(view.row_count(), 7, "visible = [0,1,5,6,7,8,9]");

    assert_eq!(
        view.reveal_row(6),
        Some(3),
        "row 6 sits at visible index 3 once \"a\" is folded"
    );
}

#[test]
fn reveal_unfolds_an_ancestor_and_then_translates() {
    let mut view = siblings();
    view.toggle_fold(5); // fold "b", hiding the row we're about to target

    let visible = view.reveal_row(6).expect("row 6 must be reachable");
    assert!(
        view.visible().contains(&6),
        "revealing has to open the container first"
    );
    assert_eq!(
        view.visible()[visible], 6,
        "and the returned index must address that row in the visible list"
    );
}

#[test]
fn reveal_leaves_unrelated_folds_alone() {
    let mut view = siblings();
    view.toggle_fold(1);
    view.toggle_fold(5);

    view.reveal_row(6).expect("row 6");
    assert!(view.visible().contains(&6), "\"b\" opened");
    assert!(
        !view.visible().contains(&2),
        "\"a\" was not an ancestor and must stay folded"
    );
}

#[test]
fn reveal_rejects_a_row_that_does_not_exist() {
    assert_eq!(siblings().reveal_row(9_999), None);
}

#[test]
fn reveal_on_a_raw_text_body_is_the_line_itself() {
    let mut view = build("one\ntwo\nthree", Some("text/plain"));
    assert_eq!(view.reveal_row(2), Some(2));
    assert_eq!(view.reveal_row(3), None);
}

#[test]
fn a_folded_last_row_is_detected() {
    // Folding the root leaves it as the only visible row, with no successor.
    let mut view = build(r#"{"a":1}"#, Some("application/json"));
    view.toggle_fold(0);

    let visible = view.visible().clone();
    assert_eq!(visible.len(), 1);
    assert!(is_folded_at(&visible, 0, 0));
}

#[test]
fn a_type_that_names_something_else_is_respected() {
    assert!(!looks_like_json(b"{}", Some("image/svg+xml")));
    assert!(!looks_like_json(b"{}", Some("TEXT/CSS")));
    assert!(looks_like_json(b" \x0c\n{}", Some("application/octet-stream")));
    assert!(looks_like_json(b"nothing of the kind", Some("application/problem+JSON")));
    assert!(!looks_like_json(b"\x0b{}", None), "a vertical tab is not blank");
}

#[test]
fn the_selection_moves_through_what_is_visible() {
    let mut view = siblings();
    assert_eq!(view.selected(), None);
    assert_eq!(view.selected_value(), None);
    view.select_visible(1);
    assert_eq!(view.selected(), Some(1));
    assert!(view.selected_is_container());
    view.toggle_selected_fold();
    assert!(view.selected_is_folded());
    assert_eq!(view.move_selection(1), Some(2));
    assert_eq!(view.selected(), Some(5), "the folded rows are passed over");
    assert_eq!(view.selected_visible_ix(), Some(2));
    assert_eq!(view.selected_value(), Some(RowSource::Value(5)));
    assert_eq!(view.selected_path(), Some(5));
    assert!(view.is_searchable());
    assert!(view.offset_is_displayed(false), "a document's rows are drawn whole");
}

#[test]
fn a_fold_moves_the_selection_to_what_hides_it() {
    let mut view = siblings();
    view.select_visible(3);
    assert_eq!(view.selected(), Some(3));
    view.toggle_fold(1);
    assert_eq!(view.selected(), Some(1));
}

#[test]
fn raw_text_is_copied_by_the_line() {
    let mut view = build("one\ntwo", Some("text/plain"));
    view.select_visible(1);
    assert_eq!(view.selected_value(), Some(RowSource::Line(1)));
    assert_eq!(view.selected_path(), None);
    assert!(!view.offset_is_displayed(false));
    assert!(view.offset_is_displayed(true));
    assert!(!build_bytes(&[0xff], None, false).is_searchable());
}
