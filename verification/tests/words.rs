//! Word and line geometry.

use zuno::input::words::{class, Class};
use zuno::input::{line_at, next_word_boundary, prev_word_boundary, word_at};
use zuno::text::{char_index, offset_from_utf16, offset_to_utf16, slice, splice};

/// Walk right from 0 to the end, collecting every stop.
fn stops_right(text: &str) -> Vec<usize> {
    let mut at = 0;
    let mut out = Vec::new();
    loop {
        let next = next_word_boundary(text, at);
        if next == at {
            return out;
        }
        at = next;
        out.push(at);
    }
}

fn stops_left(text: &str) -> Vec<usize> {
    let mut at = text.len();
    let mut out = Vec::new();
    loop {
        let prev = prev_word_boundary(text, at);
        if prev == at {
            return out;
        }
        at = prev;
        out.push(at);
    }
}

#[test]
fn a_url_steps_through_its_punctuation() {
    let url = "https://api.example.com/posts";
    let right: Vec<&str> = stops_right(url).iter().map(|&i| &url[..i]).collect();
    assert_eq!(
        right,
        vec![
            "https",
            "https://",
            "https://api",
            "https://api.",
            "https://api.example",
            "https://api.example.",
            "https://api.example.com",
            "https://api.example.com/",
            "https://api.example.com/posts",
        ]
    );
}

#[test]
fn moving_left_lands_on_word_starts() {
    let text = "one two three";
    let left = stops_left(text);
    assert_eq!(left, vec![8, 4, 0], "starts of three, two, one: {left:?}");
}

#[test]
fn whitespace_runs_are_crossed_in_one_step() {
    let text = "a    b";
    assert_eq!(next_word_boundary(text, 1), 6, "skip the gap and take `b`");
    assert_eq!(prev_word_boundary(text, 5), 0, "back over the gap to `a`");
}

#[test]
fn the_ends_are_fixed_points() {
    assert_eq!(next_word_boundary("abc", 3), 3);
    assert_eq!(prev_word_boundary("abc", 0), 0);
    assert_eq!(next_word_boundary("", 0), 0);
    assert_eq!(prev_word_boundary("", 0), 0);
    assert_eq!(next_word_boundary("   ", 0), 3, "all whitespace goes to the end");
    assert_eq!(prev_word_boundary("   ", 3), 0);
}

#[test]
fn multibyte_offsets_stay_on_char_boundaries() {
    let text = "héllo wörld";
    for &at in &stops_right(text) {
        assert!(text.is_char_boundary(at), "offset {at} split a char in {text:?}");
    }
    for &at in &stops_left(text) {
        assert!(text.is_char_boundary(at), "offset {at} split a char in {text:?}");
    }
    assert_eq!(&text[..next_word_boundary(text, 0)], "héllo");
}

#[test]
fn underscores_hold_an_identifier_together() {
    let text = "x_request_id: 1";
    assert_eq!(&text[..next_word_boundary(text, 0)], "x_request_id");
}

#[test]
fn double_click_picks_the_word_under_the_caret() {
    let url = "https://api.example.com/posts";
    assert_eq!(&url[word_at(url, 9)], "api", "inside a word");
    assert_eq!(&url[word_at(url, 8)], "api", "at its first character");
    assert_eq!(&url[word_at(url, 5)], "://", "punctuation selects its own run");
    assert_eq!(&url[word_at(url, url.len())], "posts", "at the very end");
    assert_eq!(word_at("", 0), 0..0);
}

#[test]
fn triple_click_picks_the_line_without_its_newline() {
    let text = "first\nsecond\nthird";
    assert_eq!(&text[line_at(text, 0)], "first");
    assert_eq!(&text[line_at(text, 8)], "second");
    assert_eq!(&text[line_at(text, text.len())], "third");
    let ends = "a\n";
    assert_eq!(&ends[line_at(ends, 2)], "");
    assert_eq!(&ends[line_at(ends, 0)], "a");
}

#[test]
fn characters_fall_into_three_classes() {
    assert!(class('a') == Class::Word);
    assert!(class('é') == Class::Word);
    assert!(class('_') == Class::Word);
    assert!(class('7') == Class::Word);
    assert!(class('\u{2003}') == Class::Space, "an em space is whitespace");
    assert!(class('\u{85}') == Class::Space);
    assert!(class('/') == Class::Punct);
}

#[test]
fn utf16_offsets_round_trip() {
    let text = "a😀é";
    for (at, wide) in [(0, 0), (1, 1), (5, 3), (7, 4)] {
        assert_eq!(offset_to_utf16(text, at), wide);
        assert_eq!(offset_from_utf16(text, wide), at);
    }
    assert_eq!(offset_from_utf16(text, 2), 5, "inside a pair goes past it");
    assert_eq!(offset_from_utf16(text, 99), 7, "past the end stays at the end");
}

#[test]
fn slices_and_splices_count_bytes() {
    assert_eq!(slice("héllo", 1, 3), "é");
    assert_eq!(splice("héllo", 1, 3, "e"), "hello");
    assert_eq!(char_index("héllo", 3), 2);
}

#[test]
fn an_offset_inside_a_character_counts_as_its_start() {
    let text = "a é\nß";
    assert_eq!(&text[word_at(text, 3)], "é");
    assert_eq!(&text[line_at(text, 6)], "ß");
}
