//! Where a word and a line begin and end.
//!
//! There are three classes of character, and the runs between them are the boundaries:
//! whitespace, word characters (alphanumeric plus `_`), and everything else. That is what makes
//! `https://api.example.com` step `https`, `://`, `api`, `.` rather than jumping the whole string.

use crate::input::lines;
use crate::text;
use core::ops::Range;
use vstd::prelude::*;
use vstd::string::*;

verus! {

/// What kind of run a character belongs to.
#[derive(Clone, Copy, Debug, PartialEq, Eq, Structural)]
pub enum Class {
    Space,
    Word,
    Punct,
}

/// Whether a character has the Unicode property `White_Space`.
pub open spec fn is_whitespace_char(c: char) -> bool {
    let u = c as u32;
    ||| 0x9 <= u <= 0xd
    ||| u == 0x20
    ||| u == 0x85
    ||| u == 0xa0
    ||| u == 0x1680
    ||| 0x2000 <= u <= 0x200a
    ||| u == 0x2028
    ||| u == 0x2029
    ||| u == 0x202f
    ||| u == 0x205f
    ||| u == 0x3000
}

/// Whether `char::is_alphanumeric` holds of a character outside ASCII: a Unicode letter or number.
pub uninterp spec fn is_unicode_alphanumeric(c: char) -> bool;

/// Whether a character is an ASCII letter or digit.
pub open spec fn is_ascii_alphanumeric(c: char) -> bool {
    ||| 'a' <= c <= 'z'
    ||| 'A' <= c <= 'Z'
    ||| '0' <= c <= '9'
}

/// Whether a character is a letter or a number.
pub open spec fn is_alphanumeric_char(c: char) -> bool {
    if (c as u32) < 0x80 {
        is_ascii_alphanumeric(c)
    } else {
        is_unicode_alphanumeric(c)
    }
}

/// `char::is_whitespace`: whether the character has the Unicode property `White_Space`.
pub assume_specification[ char::is_whitespace ](c: char) -> (b: bool)
    ensures
        b == is_whitespace_char(c),
;

/// `char::is_alphanumeric`: of ASCII, the letters and the digits; of the rest it answers by the
/// character alone, from the Unicode tables.
pub assume_specification[ char::is_alphanumeric ](c: char) -> (b: bool)
    ensures
        (c as u32) < 0x80 ==> b == is_ascii_alphanumeric(c),
        (c as u32) >= 0x80 ==> b == is_unicode_alphanumeric(c),
;

/// The class of a character, given how Unicode sorts it.
pub open spec fn class_of(c: char) -> Class {
    if is_whitespace_char(c) {
        Class::Space
    } else if is_alphanumeric_char(c) || c == '_' {
        Class::Word
    } else {
        Class::Punct
    }
}

/// The start of the run of `kind` that ends at index `i`; `i` itself where there is none.
pub open spec fn run_left(chars: Seq<char>, i: int, kind: Class) -> int
    decreases i,
{
    if i <= 0 || class_of(chars[i - 1]) != kind {
        i
    } else {
        run_left(chars, i - 1, kind)
    }
}

/// The end of the run of `kind` that begins at index `i`; `i` itself where there is none.
pub open spec fn run_right(chars: Seq<char>, i: int, kind: Class) -> int
    decreases chars.len() - i,
{
    if i >= chars.len() || class_of(chars[i]) != kind {
        i
    } else {
        run_right(chars, i + 1, kind)
    }
}

/// One word to the left of index `i`: back over whitespace, then to the start of the run there.
pub open spec fn word_left(chars: Seq<char>, i: int) -> int {
    let j = run_left(chars, i, Class::Space);
    if j <= 0 {
        0
    } else {
        run_left(chars, j, class_of(chars[j - 1]))
    }
}

/// One word to the right of index `i`: over whitespace, then to the end of the run there.
pub open spec fn word_right(chars: Seq<char>, i: int) -> int {
    let j = run_right(chars, i, Class::Space);
    if j >= chars.len() {
        chars.len() as int
    } else {
        run_right(chars, j, class_of(chars[j]))
    }
}

/// The byte offset of the word boundary before a byte offset.
pub open spec fn word_before(chars: Seq<char>, offset: int) -> int {
    text::offset_of(chars, word_left(chars, text::index_of(chars, offset)))
}

/// The byte offset of the word boundary after a byte offset.
pub open spec fn word_after(chars: Seq<char>, offset: int) -> int {
    text::offset_of(chars, word_right(chars, text::index_of(chars, offset)))
}

/// The byte offsets of the word under a byte offset; past the end counts as the end.
pub open spec fn word_around(chars: Seq<char>, offset: int) -> (int, int) {
    let span = word_span(chars, text::index_of(chars, clamped(chars, offset)));
    (text::offset_of(chars, span.0), text::offset_of(chars, span.1))
}

/// The byte offsets of the line that a byte offset is on; past the end counts as the end.
pub open spec fn line_around(chars: Seq<char>, offset: int) -> (int, int) {
    let i = text::index_of(chars, clamped(chars, offset));
    (text::offset_of(chars, line_left(chars, i)), text::offset_of(chars, line_right(chars, i)))
}

/// The last place between characters of `text` at or before an offset.
pub open spec fn clamped(text: Seq<char>, offset: int) -> int {
    if offset <= text::byte_len(text) {
        lines::floor_boundary(text, offset)
    } else {
        text::byte_len(text) as int
    }
}

/// Clamp an offset to a place between characters.
fn clamp(text: &str, offset: usize) -> (r: usize)
    ensures
        r == clamped(text@, offset as int),
        text::is_boundary(text@, r as int),
        text::byte_len(text@) <= usize::MAX,
{
    let total: usize = text::byte_length(text);
    proof {
        text::lemma_offset_ends(text@);
    }
    if offset > total {
        return total;
    }
    let mut at: usize = offset;
    while at > 0 && !text.is_char_boundary(at)
        invariant
            at <= text::byte_len(text@),
            lines::floor_boundary(text@, offset as int) == lines::floor_boundary(
                text@,
                at as int,
            ),
        decreases at,
    {
        proof {
            text::lemma_boundary_is_char_boundary(text@, at as int);
        }
        at = at - 1;
    }
    proof {
        text::lemma_boundary_is_char_boundary(text@, at as int);
    }
    at
}

/// The character a word selection at index `i` is about: the one there, or the last one.
pub open spec fn anchor_class(chars: Seq<char>, i: int) -> Class {
    if i < chars.len() {
        class_of(chars[i])
    } else {
        class_of(chars[i - 1])
    }
}

/// The run around index `i`.
pub open spec fn word_span(chars: Seq<char>, i: int) -> (int, int) {
    if chars.len() == 0 {
        (0, 0)
    } else {
        let kind = anchor_class(chars, i);
        (run_left(chars, i, kind), run_right(chars, i, kind))
    }
}

/// The start of the line that index `i` is on.
pub open spec fn line_left(chars: Seq<char>, i: int) -> int
    decreases i,
{
    if i <= 0 || chars[i - 1] == '\n' {
        i
    } else {
        line_left(chars, i - 1)
    }
}

/// The end of the line that index `i` is on, before its newline.
pub open spec fn line_right(chars: Seq<char>, i: int) -> int
    decreases chars.len() - i,
{
    if i >= chars.len() || chars[i] == '\n' {
        i
    } else {
        line_right(chars, i + 1)
    }
}

/// A run to the left holds one class only, and is as long as it can be.
pub proof fn lemma_run_left(chars: Seq<char>, i: int, kind: Class)
    requires
        0 <= i <= chars.len(),
    ensures
        0 <= run_left(chars, i, kind) <= i,
        forall|k: int|
            run_left(chars, i, kind) <= k < i ==> class_of(#[trigger] chars[k]) == kind,
        run_left(chars, i, kind) > 0 ==> class_of(chars[run_left(chars, i, kind) - 1]) != kind,
        (i > 0 && class_of(chars[i - 1]) == kind) ==> run_left(chars, i, kind) < i,
    decreases i,
{
    if !(i <= 0 || class_of(chars[i - 1]) != kind) {
        lemma_run_left(chars, i - 1, kind);
    }
}

/// A run to the right holds one class only, and is as long as it can be.
pub proof fn lemma_run_right(chars: Seq<char>, i: int, kind: Class)
    requires
        0 <= i <= chars.len(),
    ensures
        i <= run_right(chars, i, kind) <= chars.len(),
        forall|k: int|
            i <= k < run_right(chars, i, kind) ==> class_of(#[trigger] chars[k]) == kind,
        run_right(chars, i, kind) < chars.len() ==> class_of(chars[run_right(chars, i, kind)])
            != kind,
        (i < chars.len() && class_of(chars[i]) == kind) ==> run_right(chars, i, kind) > i,
    decreases chars.len() - i,
{
    if !(i >= chars.len() || class_of(chars[i]) != kind) {
        lemma_run_right(chars, i + 1, kind);
    }
}

proof fn lemma_line_bounds(chars: Seq<char>, i: int)
    requires
        0 <= i <= chars.len(),
    ensures
        0 <= line_left(chars, i) <= i,
        i <= line_right(chars, i) <= chars.len(),
        forall|k: int| line_left(chars, i) <= k < i ==> #[trigger] chars[k] != '\n',
        forall|k: int| i <= k < line_right(chars, i) ==> #[trigger] chars[k] != '\n',
        line_left(chars, i) > 0 ==> chars[line_left(chars, i) - 1] == '\n',
        line_right(chars, i) < chars.len() ==> chars[line_right(chars, i)] == '\n',
{
    lemma_line_left_bounds(chars, i);
    lemma_line_right_bounds(chars, i);
}

proof fn lemma_line_left_bounds(chars: Seq<char>, i: int)
    requires
        0 <= i <= chars.len(),
    ensures
        0 <= line_left(chars, i) <= i,
        forall|k: int| line_left(chars, i) <= k < i ==> #[trigger] chars[k] != '\n',
        line_left(chars, i) > 0 ==> chars[line_left(chars, i) - 1] == '\n',
    decreases i,
{
    if i > 0 && chars[i - 1] != '\n' {
        lemma_line_left_bounds(chars, i - 1);
    }
}

proof fn lemma_line_right_bounds(chars: Seq<char>, i: int)
    requires
        0 <= i <= chars.len(),
    ensures
        i <= line_right(chars, i) <= chars.len(),
        forall|k: int| i <= k < line_right(chars, i) ==> #[trigger] chars[k] != '\n',
        line_right(chars, i) < chars.len() ==> chars[line_right(chars, i)] == '\n',
    decreases chars.len() - i,
{
    if i < chars.len() && chars[i] != '\n' {
        lemma_line_right_bounds(chars, i + 1);
    }
}

/// Word movement stays inside the text, never moves the wrong way, and stands still only at the
/// end it is heading for.
pub proof fn word_moves_make_progress(chars: Seq<char>, i: int)
    requires
        0 <= i <= chars.len(),
    ensures
        0 <= word_left(chars, i) <= i,
        i <= word_right(chars, i) <= chars.len(),
        word_left(chars, i) == i <==> i == 0,
        word_right(chars, i) == i <==> i == chars.len(),
{
    lemma_run_left(chars, i, Class::Space);
    let j = run_left(chars, i, Class::Space);
    if j > 0 {
        lemma_run_left(chars, j, class_of(chars[j - 1]));
    }
    lemma_run_right(chars, i, Class::Space);
    let k = run_right(chars, i, Class::Space);
    if k < chars.len() {
        lemma_run_right(chars, k, class_of(chars[k]));
    }
}

/// A word selection is a run of one class that could not be longer on either side; in a text that
/// is not empty it holds at least one character and touches the place that was asked about.
pub proof fn word_selection_is_a_whole_run(chars: Seq<char>, i: int)
    requires
        0 <= i <= chars.len(),
        chars.len() > 0,
    ensures
        0 <= word_span(chars, i).0 <= i <= word_span(chars, i).1 <= chars.len(),
        word_span(chars, i).0 < word_span(chars, i).1,
        forall|k: int|
            word_span(chars, i).0 <= k < word_span(chars, i).1 ==> class_of(#[trigger] chars[k])
                == anchor_class(chars, i),
        word_span(chars, i).0 > 0 ==> class_of(chars[word_span(chars, i).0 - 1]) != anchor_class(
            chars,
            i,
        ),
        word_span(chars, i).1 < chars.len() ==> class_of(chars[word_span(chars, i).1])
            != anchor_class(chars, i),
{
    lemma_run_left(chars, i, anchor_class(chars, i));
    lemma_run_right(chars, i, anchor_class(chars, i));
}

/// A line selection holds no newline, and is bounded by newlines or by the ends of the text.
pub proof fn line_selection_excludes_its_newline(chars: Seq<char>, i: int)
    requires
        0 <= i <= chars.len(),
    ensures
        0 <= line_left(chars, i) <= i <= line_right(chars, i) <= chars.len(),
        forall|k: int|
            line_left(chars, i) <= k < line_right(chars, i) ==> #[trigger] chars[k] != '\n',
        line_left(chars, i) > 0 ==> chars[line_left(chars, i) - 1] == '\n',
        line_right(chars, i) < chars.len() ==> chars[line_right(chars, i)] == '\n',
{
    lemma_line_bounds(chars, i);
}

/// The class of a character.
pub fn class(c: char) -> (r: Class)
    ensures
        r == class_of(c),
{
    if c.is_whitespace() {
        Class::Space
    } else if c.is_alphanumeric() || c == '_' {
        Class::Word
    } else {
        Class::Punct
    }
}

fn scan_left(chars: &Vec<char>, from: usize, kind: Class) -> (at: usize)
    requires
        from <= chars.len(),
    ensures
        at == run_left(chars@, from as int, kind),
        at <= from,
{
    let mut at: usize = from;
    while at > 0 && class(chars[at - 1]) == kind
        invariant
            at <= from <= chars.len(),
            run_left(chars@, from as int, kind) == run_left(chars@, at as int, kind),
        decreases at,
    {
        at = at - 1;
    }
    at
}

fn scan_right(chars: &Vec<char>, from: usize, kind: Class) -> (at: usize)
    requires
        from <= chars.len(),
    ensures
        at == run_right(chars@, from as int, kind),
        from <= at <= chars.len(),
{
    let mut at: usize = from;
    while at < chars.len() && class(chars[at]) == kind
        invariant
            from <= at <= chars.len(),
            run_right(chars@, from as int, kind) == run_right(chars@, at as int, kind),
        decreases chars.len() - at,
    {
        at = at + 1;
    }
    at
}

/// The word boundary before `offset`: skip whitespace, then the run it lands in.
///
/// A newline counts as whitespace, so this crosses lines.
pub fn prev_word_boundary(text: &str, offset: usize) -> (r: usize)
    requires
        text::is_boundary(text@, offset as int),
    ensures
        r == word_before(text@, offset as int),
        text::is_boundary(text@, r as int),
        r <= offset,
{
    let chars = text::chars_of(text);
    let _total: usize = text::byte_length(text);
    let at: usize = text::char_index(text, offset);
    proof {
        text::lemma_offset_of_index(text@, offset as int);
        word_moves_make_progress(text@, at as int);
        text::lemma_offset_monotone(text@, word_left(text@, at as int), at as int);
        text::lemma_index_of_offset(text@, word_left(text@, at as int));
        text::lemma_offset_ends(text@);
    }
    let edge: usize = scan_left(&chars, at, Class::Space);
    if edge == 0 {
        return 0;
    }
    let target = class(chars[edge - 1]);
    let start: usize = scan_left(&chars, edge, target);
    text::char_offset(&chars, start)
}

/// The word boundary after `offset`. It lands on the end of the run rather than the start of the
/// following one.
pub fn next_word_boundary(text: &str, offset: usize) -> (r: usize)
    requires
        text::is_boundary(text@, offset as int),
    ensures
        r == word_after(text@, offset as int),
        text::is_boundary(text@, r as int),
        offset <= r,
{
    let chars = text::chars_of(text);
    let total: usize = text::byte_length(text);
    let at: usize = text::char_index(text, offset);
    proof {
        text::lemma_offset_of_index(text@, offset as int);
        word_moves_make_progress(text@, at as int);
        text::lemma_offset_monotone(text@, at as int, word_right(text@, at as int));
        text::lemma_index_of_offset(text@, word_right(text@, at as int));
        text::lemma_offset_ends(text@);
    }
    let edge: usize = scan_right(&chars, at, Class::Space);
    if edge == chars.len() {
        return total;
    }
    let target = class(chars[edge]);
    let end: usize = scan_right(&chars, edge, target);
    text::char_offset(&chars, end)
}

/// The span of the word under `offset`: what a double-click selects.
///
/// An offset in whitespace selects the whitespace run, and one at the very end the last run. One
/// inside a character counts as the character's own.
pub fn word_at(text: &str, offset: usize) -> (r: Range<usize>)
    ensures
        (r.start as int, r.end as int) == word_around(text@, offset as int),
        text::is_span(text@, r.start as int, r.end as int),
{
    let chars = text::chars_of(text);
    proof {
        text::lemma_offset_ends(text@);
    }
    if chars.len() == 0 {
        return 0..0;
    }
    let offset: usize = clamp(text, offset);
    let at: usize = text::char_index(text, offset);
    proof {
        text::lemma_offset_of_index(text@, offset as int);
        word_selection_is_a_whole_run(text@, at as int);
        let (a, b) = word_span(text@, at as int);
        text::lemma_offset_monotone(text@, a, b);
        text::lemma_index_of_offset(text@, a);
        text::lemma_index_of_offset(text@, b);
    }
    let target = if at < chars.len() {
        class(chars[at])
    } else {
        class(chars[at - 1])
    };
    let start: usize = scan_left(&chars, at, target);
    let end: usize = scan_right(&chars, at, target);
    text::char_offset(&chars, start)..text::char_offset(&chars, end)
}

/// The span of the line containing `offset`, without its newline: what a triple-click selects.
pub fn line_at(text: &str, offset: usize) -> (r: Range<usize>)
    ensures
        (r.start as int, r.end as int) == line_around(text@, offset as int),
        text::is_span(text@, r.start as int, r.end as int),
{
    let chars = text::chars_of(text);
    let offset: usize = clamp(text, offset);
    let at: usize = text::char_index(text, offset);
    proof {
        text::lemma_offset_of_index(text@, offset as int);
        lemma_line_bounds(text@, at as int);
        let a = line_left(text@, at as int);
        let b = line_right(text@, at as int);
        text::lemma_offset_monotone(text@, a, b);
        text::lemma_index_of_offset(text@, a);
        text::lemma_index_of_offset(text@, b);
    }
    let mut start: usize = at;
    while start > 0 && chars[start - 1] != '\n'
        invariant
            start <= at <= chars.len(),
            line_left(chars@, at as int) == line_left(chars@, start as int),
        decreases start,
    {
        start = start - 1;
    }
    let mut end: usize = at;
    while end < chars.len() && chars[end] != '\n'
        invariant
            at <= end <= chars.len(),
            line_right(chars@, at as int) == line_right(chars@, end as int),
        decreases chars.len() - end,
    {
        end = end + 1;
    }
    text::char_offset(&chars, start)..text::char_offset(&chars, end)
}

/// Among the ASCII characters, letters, digits and the underscore make words, the blanks and line
/// breaks make space, and everything else is punctuation.
pub proof fn ascii_is_sorted_by_what_it_is(c: char)
    requires
        (c as u32) < 128,
    ensures
        class_of(c) is Word <==> 'a' <= c <= 'z' || 'A' <= c <= 'Z' || '0' <= c <= '9' || c == '_',
        class_of(c) is Space <==> c == ' ' || 9 <= (c as u32) <= 13,
{
}

/// A step to the left crosses whitespace and then one run of one other class, the whole of it, and
/// nothing more; only at the start of the text may it stop in the whitespace.
pub proof fn a_step_left_crosses_one_word(chars: Seq<char>, i: int)
    requires
        0 <= i <= chars.len(),
    ensures
        exists|j: int|
            word_left(chars, i) <= j <= i && (forall|k: int|
                j <= k < i ==> class_of(#[trigger] chars[k]) is Space) && #[trigger] is_word_run(
                chars,
                word_left(chars, i),
                j,
            ) && (word_left(chars, i) == j ==> j == 0) && (word_left(chars, i) > 0 ==> class_of(
                chars[word_left(chars, i) - 1],
            ) != class_of(chars[word_left(chars, i)])),
{
    lemma_run_left(chars, i, Class::Space);
    let j = run_left(chars, i, Class::Space);
    if j > 0 {
        lemma_run_left(chars, j, class_of(chars[j - 1]));
        let at = word_left(chars, i);
        assert(class_of(chars[at]) == class_of(chars[j - 1]));
    }
    assert(is_word_run(chars, word_left(chars, i), j));
}

/// A step to the right crosses whitespace and then one run of one other class, the whole of it,
/// and nothing more; only at the end of the text may it stop in the whitespace.
pub proof fn a_step_right_crosses_one_word(chars: Seq<char>, i: int)
    requires
        0 <= i <= chars.len(),
    ensures
        exists|j: int|
            i <= j <= word_right(chars, i) && (forall|k: int|
                i <= k < j ==> class_of(#[trigger] chars[k]) is Space) && #[trigger] is_word_run(
                chars,
                j,
                word_right(chars, i),
            ) && (word_right(chars, i) == j ==> j == chars.len()) && (word_right(chars, i)
                < chars.len() ==> class_of(chars[word_right(chars, i)]) != class_of(
                chars[word_right(chars, i) - 1],
            )),
{
    lemma_run_right(chars, i, Class::Space);
    let j = run_right(chars, i, Class::Space);
    if j < chars.len() {
        lemma_run_right(chars, j, class_of(chars[j]));
        let at = word_right(chars, i);
        assert(class_of(chars[at - 1]) == class_of(chars[j]));
    }
    assert(is_word_run(chars, j, word_right(chars, i)));
}

/// Characters of one class that is not whitespace.
pub open spec fn is_word_run(chars: Seq<char>, from: int, to: int) -> bool {
    forall|k: int|
        from <= k < to ==> !(class_of(#[trigger] chars[k]) is Space) && class_of(chars[k])
            == class_of(chars[from])
}

/// A word selection holds the character that was asked about, and at the end of the text the last
/// one.
pub proof fn a_word_selection_holds_what_was_asked_about(chars: Seq<char>, i: int)
    requires
        0 <= i <= chars.len(),
        chars.len() > 0,
    ensures
        i < chars.len() ==> word_span(chars, i).0 <= i < word_span(chars, i).1,
        i == chars.len() ==> word_span(chars, i).0 <= i - 1 && word_span(chars, i).1 == i,
{
    lemma_run_left(chars, i, anchor_class(chars, i));
    lemma_run_right(chars, i, anchor_class(chars, i));
}

/// An offset is clamped to the nearest place between characters at or before it, and to the end
/// where it lies past it.
pub proof fn an_offset_is_clamped_downwards(chars: Seq<char>, offset: int)
    requires
        0 <= offset,
    ensures
        text::is_boundary(chars, clamped(chars, offset)),
        clamped(chars, offset) <= offset,
        text::is_boundary(chars, offset) ==> clamped(chars, offset) == offset,
        offset > text::byte_len(chars) ==> clamped(chars, offset) == text::byte_len(chars),
        forall|x: int|
            clamped(chars, offset) < x <= offset && x <= text::byte_len(chars)
                ==> !#[trigger] text::is_boundary(chars, x),
{
    text::lemma_offset_ends(chars);
    if offset <= text::byte_len(chars) {
        lines::a_floor_is_the_nearest_place_before(chars, offset);
    }
    if text::is_boundary(chars, offset) {
        text::lemma_offset_of_index(chars, offset);
    }
}

/// Word steps and selections in byte offsets are those in characters: from between characters to
/// between characters.
pub proof fn word_steps_go_between_characters(chars: Seq<char>, i: int)
    requires
        0 <= i <= chars.len(),
    ensures
        word_before(chars, text::offset_of(chars, i)) == text::offset_of(
            chars,
            word_left(chars, i),
        ),
        word_after(chars, text::offset_of(chars, i)) == text::offset_of(
            chars,
            word_right(chars, i),
        ),
        word_around(chars, text::offset_of(chars, i)) == (
            text::offset_of(chars, word_span(chars, i).0),
            text::offset_of(chars, word_span(chars, i).1),
        ),
        line_around(chars, text::offset_of(chars, i)) == (
            text::offset_of(chars, line_left(chars, i)),
            text::offset_of(chars, line_right(chars, i)),
        ),
{
    text::lemma_index_of_offset(chars, i);
    text::lemma_offset_ends(chars);
    text::lemma_offset_monotone(chars, 0, i);
    assert(text::is_boundary(chars, text::offset_of(chars, i)));
    an_offset_is_clamped_downwards(chars, text::offset_of(chars, i));
}

} // verus!
