//! The single-line text input.

use crate::input::history::{EditSnapshot, History};
use crate::input::runs;
use crate::input::runs::TextRun;
use crate::input::surface;
use crate::input::surface::Surface;
use crate::input::words;
use crate::text;
use core::ops::Range;
use unicode_segmentation::UnicodeSegmentation;
use vstd::prelude::*;
use vstd::string::*;

verus! {

/// `chars` with every line break made a space.
pub open spec fn single_line(chars: Seq<char>) -> Seq<char> {
    chars.map_values(
        |c: char|
            if c == '\n' || c == '\r' {
                ' '
            } else {
                c
            },
    )
}

/// Whether there is no line break in `chars`.
pub open spec fn is_single_line(chars: Seq<char>) -> bool {
    forall|i: int| 0 <= i < chars.len() ==> #[trigger] chars[i] != '\n' && chars[i] != '\r'
}

/// Where the grapheme clusters of a text begin, in byte offsets, as
/// `UnicodeSegmentation::grapheme_indices` gives them with extended clusters.
pub uninterp spec fn grapheme_offsets(text: Seq<char>) -> Seq<usize>;

/// The last of `starts` that lies before `offset`, or 0.
pub open spec fn last_before(starts: Seq<usize>, offset: int) -> int
    decreases starts.len(),
{
    if starts.len() == 0 {
        0
    } else if starts.last() < offset {
        starts.last() as int
    } else {
        last_before(starts.drop_last(), offset)
    }
}

/// The first of `starts` that lies after `offset`, or `len`.
pub open spec fn first_after(starts: Seq<usize>, offset: int, len: int) -> int
    decreases starts.len(),
{
    if starts.len() == 0 {
        len
    } else if starts[0] > offset {
        starts[0] as int
    } else {
        first_after(starts.drop_first(), offset, len)
    }
}

/// The caret's stop to the left of `offset`.
pub open spec fn grapheme_before(text: Seq<char>, offset: int) -> int {
    last_before(grapheme_offsets(text), offset)
}

/// The caret's stop to the right of `offset`.
pub open spec fn grapheme_after(text: Seq<char>, offset: int) -> int {
    first_after(grapheme_offsets(text), offset, text::byte_len(text) as int)
}

/// `UnicodeSegmentation::grapheme_indices` with extended clusters, keeping the offsets. Which
/// offsets they are is a matter of the Unicode tables; each is where a slice of the text begins,
/// so none falls inside a character.
#[verifier::external_body]
fn grapheme_starts(text: &str) -> (starts: Vec<usize>)
    ensures
        starts@ == grapheme_offsets(text@),
        forall|i: int| 0 <= i < starts.len() ==> text::is_boundary(text@, #[trigger] starts[i] as int),
{
    text.grapheme_indices(true).map(|(start, _)| start).collect()
}

/// The last of `starts` before `offset`, or 0.
pub fn boundary_before(starts: &Vec<usize>, offset: usize) -> (r: usize)
    ensures
        r == last_before(starts@, offset as int),
        r == 0 || (r < offset && starts@.contains(r)),
{
    let mut n: usize = starts.len();
    proof {
        assert(starts@.take(n as int) =~= starts@);
    }
    while n > 0
        invariant
            n <= starts.len(),
            last_before(starts@, offset as int) == last_before(starts@.take(n as int), offset as int),
        decreases n,
    {
        proof {
            assert(starts@.take(n as int).drop_last() =~= starts@.take(n - 1));
        }
        if starts[n - 1] < offset {
            return starts[n - 1];
        }
        n = n - 1;
    }
    0
}

/// The first of `starts` after `offset`, or `len`.
pub fn boundary_after(starts: &Vec<usize>, offset: usize, len: usize) -> (r: usize)
    ensures
        r == first_after(starts@, offset as int, len as int),
        r == len || (r > offset && starts@.contains(r)),
{
    let mut n: usize = 0;
    proof {
        assert(starts@.skip(0) =~= starts@);
    }
    while n < starts.len()
        invariant
            n <= starts.len(),
            first_after(starts@, offset as int, len as int) == first_after(
                starts@.skip(n as int),
                offset as int,
                len as int,
            ),
        decreases starts.len() - n,
    {
        proof {
            assert(starts@.skip(n as int).drop_first() =~= starts@.skip(n + 1));
        }
        if starts[n] > offset {
            return starts[n];
        }
        n = n + 1;
    }
    len
}

/// Collapse line breaks to spaces: a single-line input has no way to show them.
pub fn sanitize(text: &str) -> (r: String)
    ensures
        r@ == single_line(text@),
        is_single_line(r@),
{
    let chars = text::chars_of(text);
    let mut r = String::new();
    let mut i: usize = 0;
    while i < chars.len()
        invariant
            i <= chars.len(),
            chars@ == text@,
            r@ == single_line(text@.take(i as int)),
        decreases chars.len() - i,
    {
        let c = chars[i];
        proof {
            assert(single_line(text@.take(i + 1)) =~= single_line(text@.take(i as int)).push(
                single_line(text@)[i as int],
            ));
        }
        if c == '\n' || c == '\r' {
            r.push(' ');
        } else {
            r.push(c);
        }
        i = i + 1;
    }
    proof {
        assert(text@.take(text@.len() as int) =~= text@);
    }
    r
}

/// Replacing part of one line by one line leaves one line.
proof fn lemma_spliced_single_line(chars: Seq<char>, start: int, end: int, new: Seq<char>)
    requires
        text::is_boundary(chars, start),
        text::is_boundary(chars, end),
        is_single_line(chars),
        is_single_line(new),
    ensures
        is_single_line(text::spliced(chars, start, end, new)),
{
    text::lemma_offset_of_index(chars, start);
    text::lemma_offset_of_index(chars, end);
    let i = text::index_of(chars, start);
    let j = text::index_of(chars, end);
    let r = text::spliced(chars, start, end, new);
    assert forall|k: int| 0 <= k < r.len() implies #[trigger] r[k] != '\n' && r[k] != '\r' by {
        if k < i {
            assert(r[k] == chars[k]);
        } else if k < i + new.len() {
            assert(r[k] == new[k - i]);
        } else {
            assert(r[k] == chars[k - i - new.len() + j]);
        }
    }
}

/// A text without line breaks goes into an input as it is.
pub proof fn lemma_single_line_stays(chars: Seq<char>)
    requires
        is_single_line(chars),
    ensures
        single_line(chars) == chars,
{
    assert(single_line(chars) =~= chars);
}

/// Where a selection that is asked for in UTF-16, inside text that was put in at `at`, lies in the
/// whole.
pub(crate) fn composing_selection(new_text: &str, at: usize, wanted: &Range<usize>) -> (r: Range<
    usize,
>)
    requires
        at + text::byte_len(new_text@) <= usize::MAX,
    ensures
        ({
            let inner = surface::range_of_utf16(
                new_text@,
                surface::in_order((wanted.start as int, wanted.end as int)),
            );
            (r.start as int, r.end as int) == (inner.0 + at, inner.1 + at)
        }),
{
    let (low, high): (usize, usize) = if wanted.start <= wanted.end {
        (wanted.start, wanted.end)
    } else {
        (wanted.end, wanted.start)
    };
    let start: usize = text::offset_from_utf16(new_text, low);
    let end: usize = text::offset_from_utf16(new_text, high);
    proof {
        text::lemma_offset_of_index(new_text@, start as int);
        text::lemma_offset_of_index(new_text@, end as int);
    }
    start + at..end + at
}

/// What a text input holds.
pub struct InputView {
    pub surface: Surface,
    pub placeholder: Seq<char>,
    pub key_context: Seq<char>,
}

/// An input that has just been given its text: the caret stands at the end, and nothing can be
/// undone. Line breaks are made spaces.
pub open spec fn fresh_input(
    text: Seq<char>,
    placeholder: Seq<char>,
    context: Seq<char>,
) -> InputView {
    InputView {
        surface: surface::fresh_surface(single_line(text), text::byte_len(single_line(text)) as int),
        placeholder: single_line(placeholder),
        key_context: "TextInput "@ + context,
    }
}

impl InputView {
    pub open spec fn with(self, surface: Surface) -> InputView {
        InputView { surface, ..self }
    }

    /// The surface is sound, and neither it nor anything it could be undone or redone to holds a
    /// line break.
    pub open spec fn wf(self) -> bool {
        &&& self.surface.wf()
        &&& self.lines_wf()
    }

    pub open spec fn lines_wf(self) -> bool {
        let h = self.surface.history;
        &&& is_single_line(self.surface.text)
        &&& is_single_line(self.placeholder)
        &&& forall|i: int| 0 <= i < h.past.len() ==> is_single_line(#[trigger] h.past[i].content)
        &&& forall|i: int| 0 <= i < h.future.len() ==> is_single_line(#[trigger] h.future[i].content)
    }
}

/// One line of editable text, with a selection, a composition region and a history.
pub struct TextInput {
    content: String,
    history: History,
    placeholder: String,
    key_context: String,
    selected_range: Range<usize>,
    selection_reversed: bool,
    marked_range: Option<Range<usize>>,
    is_selecting: bool,
}

/// An optional range as a pair of offsets.
pub open spec fn pair_of(range: Option<Range<usize>>) -> Option<(int, int)> {
    match range {
        Some(r) => Some((r.start as int, r.end as int)),
        None => None,
    }
}

impl View for TextInput {
    type V = InputView;

    closed spec fn view(&self) -> InputView {
        InputView {
            surface: Surface {
                text: self.content@,
                start: self.selected_range.start as int,
                end: self.selected_range.end as int,
                reversed: self.selection_reversed,
                marked: pair_of(self.marked_range),
                history: self.history@,
                selecting: self.is_selecting,
            },
            placeholder: self.placeholder@,
            key_context: self.key_context@,
        }
    }
}

impl TextInput {
    /// An input holding `text`, with the caret at its end. Its key context is `TextInput` and the
    /// extra identifiers, so the shared editing bindings apply too.
    pub fn new(text: &str, placeholder: &str, extra_context: &str) -> (r: TextInput)
        ensures
            r@.wf(),
            r@ == fresh_input(text@, placeholder@, extra_context@),
    {
        let content = sanitize(text);
        let cursor: usize = text::byte_length(content.as_str());
        let mut key_context = "TextInput ".to_owned();
        key_context.append(extra_context);
        proof {
            text::lemma_offset_ends(content@);
        }
        let r = TextInput {
            content,
            history: History::default(),
            placeholder: sanitize(placeholder),
            key_context,
            selected_range: cursor..cursor,
            selection_reversed: false,
            marked_range: None,
            is_selecting: false,
        };
        proof {
            assert(r@.surface == surface::fresh_surface(
                single_line(text@),
                text::byte_len(single_line(text@)) as int,
            ));
        }
        r
    }

    pub fn text(&self) -> (r: &str)
        ensures
            r@ == self@.surface.text,
    {
        self.content.as_str()
    }

    /// What the input shows: its content, or the placeholder while there is none.
    pub fn display_text(&self) -> (r: &str)
        ensures
            r@ == (if self@.surface.text.len() == 0 {
                self@.placeholder
            } else {
                self@.surface.text
            }),
    {
        if self.content.as_str().is_empty() {
            self.placeholder.as_str()
        } else {
            self.content.as_str()
        }
    }

    /// The runs that what the input shows is drawn in: the region being composed is underlined.
    pub fn display_runs(&self) -> (r: Vec<TextRun>)
        ensures
            ({
                let shown = if self@.surface.text.len() == 0 {
                    self@.placeholder
                } else {
                    self@.surface.text
                };
                r@ == (match self@.surface.marked {
                    Some(m) if shown.len() > 0 => runs::marked_runs(
                        text::byte_len(shown) as int,
                        m.0,
                        m.1,
                    ),
                    _ => seq![
                        TextRun { len: text::byte_len(shown) as usize, underlined: false },
                    ],
                })
            }),
    {
        let shown = self.display_text();
        let len: usize = text::byte_length(shown);
        let mut plain: Vec<TextRun> = Vec::new();
        plain.push(TextRun { len, underlined: false });
        proof {
            assert(plain@ =~= seq![TextRun { len, underlined: false }]);
        }
        match &self.marked_range {
            Some(marked) => {
                if shown.is_empty() {
                    plain
                } else {
                    runs::build_marked_runs(len, marked.start, marked.end)
                }
            },
            None => plain,
        }
    }

    pub fn key_context(&self) -> (r: &str)
        ensures
            r@ == self@.key_context,
    {
        self.key_context.as_str()
    }

    pub fn cursor_offset(&self) -> (r: usize)
        ensures
            r == self@.surface.cursor(),
    {
        if self.selection_reversed {
            self.selected_range.start
        } else {
            self.selected_range.end
        }
    }

    pub fn selected_range(&self) -> (r: Range<usize>)
        ensures
            r.start == self@.surface.start,
            r.end == self@.surface.end,
    {
        self.selected_range.start..self.selected_range.end
    }

    // ---- internals ----------------------------------------------------------

    pub fn move_to(&mut self, offset: usize)
        requires
            old(self)@.wf(),
            text::is_boundary(old(self)@.surface.text, offset as int),
        ensures
            final(self)@.wf(),
            final(self)@ == old(self)@.with(old(self)@.surface.collapsed_to(offset as int)),
    {
        self.selected_range = offset..offset;
        self.history.break_run();
    }

    pub fn select_to(&mut self, offset: usize)
        requires
            old(self)@.wf(),
            text::is_boundary(old(self)@.surface.text, offset as int),
        ensures
            final(self)@.wf(),
            final(self)@ == old(self)@.with(old(self)@.surface.selected_to(offset as int)),
    {
        let start: usize = if self.selection_reversed {
            offset
        } else {
            self.selected_range.start
        };
        let end: usize = if self.selection_reversed {
            self.selected_range.end
        } else {
            offset
        };
        if end < start {
            self.selection_reversed = !self.selection_reversed;
            self.selected_range = end..start;
        } else {
            self.selected_range = start..end;
        }
        self.history.break_run();
    }

    /// The caret's stop to the left of `offset`: grapheme clusters, so an emoji or a combining
    /// sequence moves as one unit.
    pub fn previous_boundary(&self, offset: usize) -> (r: usize)
        ensures
            r == grapheme_before(self@.surface.text, offset as int),
            text::is_boundary(self@.surface.text, r as int),
    {
        let starts = grapheme_starts(self.content.as_str());
        proof {
            text::lemma_offset_ends(self.content@);
        }
        boundary_before(&starts, offset)
    }

    /// The caret's stop to the right of `offset`.
    pub fn next_boundary(&self, offset: usize) -> (r: usize)
        ensures
            r == grapheme_after(self@.surface.text, offset as int),
            text::is_boundary(self@.surface.text, r as int),
    {
        let starts = grapheme_starts(self.content.as_str());
        proof {
            text::lemma_offset_ends(self.content@);
        }
        boundary_after(&starts, offset, text::byte_length(self.content.as_str()))
    }

    // ---- movement -----------------------------------------------------------

    pub fn left(&mut self)
        requires
            old(self)@.wf(),
        ensures
            final(self)@.wf(),
            final(self)@ == old(self)@.with(
                old(self)@.surface.collapsed_to(
                    if old(self)@.surface.start == old(self)@.surface.end {
                        grapheme_before(old(self)@.surface.text, old(self)@.surface.cursor())
                    } else {
                        old(self)@.surface.start
                    },
                ),
            ),
    {
        if self.selected_range.start == self.selected_range.end {
            let to: usize = self.previous_boundary(self.cursor_offset());
            self.move_to(to);
        } else {
            self.move_to(self.selected_range.start);
        }
    }

    pub fn right(&mut self)
        requires
            old(self)@.wf(),
        ensures
            final(self)@.wf(),
            final(self)@ == old(self)@.with(
                old(self)@.surface.collapsed_to(
                    if old(self)@.surface.start == old(self)@.surface.end {
                        grapheme_after(old(self)@.surface.text, old(self)@.surface.end)
                    } else {
                        old(self)@.surface.end
                    },
                ),
            ),
    {
        if self.selected_range.start == self.selected_range.end {
            let to: usize = self.next_boundary(self.selected_range.end);
            self.move_to(to);
        } else {
            self.move_to(self.selected_range.end);
        }
    }

    pub fn select_left(&mut self)
        requires
            old(self)@.wf(),
        ensures
            final(self)@.wf(),
            final(self)@ == old(self)@.with(
                old(self)@.surface.selected_to(grapheme_before(old(self)@.surface.text, old(self)@.surface.cursor())),
            ),
    {
        let to: usize = self.previous_boundary(self.cursor_offset());
        self.select_to(to);
    }

    pub fn select_right(&mut self)
        requires
            old(self)@.wf(),
        ensures
            final(self)@.wf(),
            final(self)@ == old(self)@.with(
                old(self)@.surface.selected_to(grapheme_after(old(self)@.surface.text, old(self)@.surface.cursor())),
            ),
    {
        let to: usize = self.next_boundary(self.cursor_offset());
        self.select_to(to);
    }

    /// Word-level movement collapses a selection to its edge first, as `left` and `right` do.
    pub fn word_left(&mut self)
        requires
            old(self)@.wf(),
        ensures
            final(self)@.wf(),
            final(self)@ == old(self)@.with(
                old(self)@.surface.collapsed_to(
                    words::word_before(
                        old(self)@.surface.text,
                        if old(self)@.surface.start == old(self)@.surface.end {
                            old(self)@.surface.cursor()
                        } else {
                            old(self)@.surface.start
                        },
                    ),
                ),
            ),
    {
        let from: usize = if self.selected_range.start == self.selected_range.end {
            self.cursor_offset()
        } else {
            self.selected_range.start
        };
        let to: usize = words::prev_word_boundary(self.content.as_str(), from);
        self.move_to(to);
    }

    pub fn word_right(&mut self)
        requires
            old(self)@.wf(),
        ensures
            final(self)@.wf(),
            final(self)@ == old(self)@.with(
                old(self)@.surface.collapsed_to(
                    words::word_after(
                        old(self)@.surface.text,
                        if old(self)@.surface.start == old(self)@.surface.end {
                            old(self)@.surface.cursor()
                        } else {
                            old(self)@.surface.end
                        },
                    ),
                ),
            ),
    {
        let from: usize = if self.selected_range.start == self.selected_range.end {
            self.cursor_offset()
        } else {
            self.selected_range.end
        };
        let to: usize = words::next_word_boundary(self.content.as_str(), from);
        self.move_to(to);
    }

    pub fn select_word_left(&mut self)
        requires
            old(self)@.wf(),
        ensures
            final(self)@.wf(),
            final(self)@ == old(self)@.with(
                old(self)@.surface.selected_to(words::word_before(old(self)@.surface.text, old(self)@.surface.cursor())),
            ),
    {
        let to: usize = words::prev_word_boundary(self.content.as_str(), self.cursor_offset());
        self.select_to(to);
    }

    pub fn select_word_right(&mut self)
        requires
            old(self)@.wf(),
        ensures
            final(self)@.wf(),
            final(self)@ == old(self)@.with(
                old(self)@.surface.selected_to(words::word_after(old(self)@.surface.text, old(self)@.surface.cursor())),
            ),
    {
        let to: usize = words::next_word_boundary(self.content.as_str(), self.cursor_offset());
        self.select_to(to);
    }

    /// A single line has one line, so these are `home` and `end` again.
    pub fn doc_start(&mut self)
        requires
            old(self)@.wf(),
        ensures
            final(self)@.wf(),
            final(self)@ == old(self)@.with(old(self)@.surface.collapsed_to(0)),
    {
        proof {
            text::lemma_offset_ends(self.content@);
        }
        self.move_to(0);
    }

    pub fn home(&mut self)
        requires
            old(self)@.wf(),
        ensures
            final(self)@.wf(),
            final(self)@ == old(self)@.with(old(self)@.surface.collapsed_to(0)),
    {
        proof {
            text::lemma_offset_ends(self.content@);
        }
        self.move_to(0);
    }

    pub fn doc_end(&mut self)
        requires
            old(self)@.wf(),
        ensures
            final(self)@.wf(),
            final(self)@ == old(self)@.with(
                old(self)@.surface.collapsed_to(text::byte_len(old(self)@.surface.text) as int),
            ),
    {
        proof {
            text::lemma_offset_ends(self.content@);
        }
        let len: usize = text::byte_length(self.content.as_str());
        self.move_to(len);
    }

    pub fn end(&mut self)
        requires
            old(self)@.wf(),
        ensures
            final(self)@.wf(),
            final(self)@ == old(self)@.with(
                old(self)@.surface.collapsed_to(text::byte_len(old(self)@.surface.text) as int),
            ),
    {
        proof {
            text::lemma_offset_ends(self.content@);
        }
        let len: usize = text::byte_length(self.content.as_str());
        self.move_to(len);
    }

    pub fn select_doc_start(&mut self)
        requires
            old(self)@.wf(),
        ensures
            final(self)@.wf(),
            final(self)@ == old(self)@.with(old(self)@.surface.selected_to(0)),
    {
        proof {
            text::lemma_offset_ends(self.content@);
        }
        self.select_to(0);
    }

    pub fn select_home(&mut self)
        requires
            old(self)@.wf(),
        ensures
            final(self)@.wf(),
            final(self)@ == old(self)@.with(old(self)@.surface.selected_to(0)),
    {
        proof {
            text::lemma_offset_ends(self.content@);
        }
        self.select_to(0);
    }

    pub fn select_doc_end(&mut self)
        requires
            old(self)@.wf(),
        ensures
            final(self)@.wf(),
            final(self)@ == old(self)@.with(
                old(self)@.surface.selected_to(text::byte_len(old(self)@.surface.text) as int),
            ),
    {
        proof {
            text::lemma_offset_ends(self.content@);
        }
        let len: usize = text::byte_length(self.content.as_str());
        self.select_to(len);
    }

    pub fn select_end(&mut self)
        requires
            old(self)@.wf(),
        ensures
            final(self)@.wf(),
            final(self)@ == old(self)@.with(
                old(self)@.surface.selected_to(text::byte_len(old(self)@.surface.text) as int),
            ),
    {
        proof {
            text::lemma_offset_ends(self.content@);
        }
        let len: usize = text::byte_length(self.content.as_str());
        self.select_to(len);
    }

    /// Select everything, without going through a keystroke.
    pub fn select_all_text(&mut self)
        requires
            old(self)@.wf(),
        ensures
            final(self)@.wf(),
            final(self)@ == old(self)@.with(
                old(self)@.surface.collapsed_to(0).selected_to(text::byte_len(old(self)@.surface.text) as int),
            ),
    {
        proof {
            text::lemma_offset_ends(self.content@);
        }
        let len: usize = text::byte_length(self.content.as_str());
        self.move_to(0);
        self.select_to(len);
    }

    pub fn select_all(&mut self)
        requires
            old(self)@.wf(),
        ensures
            final(self)@.wf(),
            final(self)@ == old(self)@.with(
                old(self)@.surface.collapsed_to(0).selected_to(text::byte_len(old(self)@.surface.text) as int),
            ),
    {
        self.select_all_text();
    }

    // ---- history ------------------------------------------------------------

    pub fn snapshot(&self) -> (r: EditSnapshot)
        ensures
            r@ == self@.surface.snapshot(),
    {
        EditSnapshot {
            content: self.content.clone(),
            selection: self.selected_range.start..self.selected_range.end,
            reversed: self.selection_reversed,
        }
    }

    fn restore(&mut self, snapshot: EditSnapshot)
        ensures
            final(self)@ == old(self)@.with(old(self)@.surface.restored(snapshot@)),
    {
        self.content = snapshot.content;
        self.selected_range = snapshot.selection;
        self.selection_reversed = snapshot.reversed;
        self.marked_range = None;
    }

    /// Step back to the last recorded state. Returns whether there was one, in which case the content
    /// has changed.
    pub fn undo(&mut self) -> (changed: bool)
        requires
            old(self)@.wf(),
        ensures
            changed == (old(self)@.surface.history.undo_result() is Some),
            final(self)@.wf(),
            final(self)@ == old(self)@.with(old(self)@.surface.undone()),
    {
        proof {
            surface::lemma_undo_wf(self@.surface);
        }
        let current = self.snapshot();
        match self.history.undo(current) {
            Some(snapshot) => {
                self.restore(snapshot);
                true
            },
            None => false,
        }
    }

    /// Step forward to the last state undone. Returns whether there was one.
    pub fn redo(&mut self) -> (changed: bool)
        requires
            old(self)@.wf(),
        ensures
            changed == (old(self)@.surface.history.redo_result() is Some),
            final(self)@.wf(),
            final(self)@ == old(self)@.with(old(self)@.surface.redone()),
    {
        proof {
            surface::lemma_undo_wf(self@.surface);
        }
        let current = self.snapshot();
        match self.history.redo(current) {
            Some(snapshot) => {
                self.restore(snapshot);
                true
            },
            None => false,
        }
    }

    // ---- UTF-16 -------------------------------------------------------------

    pub fn offset_from_utf16(&self, offset: usize) -> (r: usize)
        ensures
            r == text::from_utf16(self@.surface.text, offset as int),
            text::is_boundary(self@.surface.text, r as int),
    {
        text::offset_from_utf16(self.content.as_str(), offset)
    }

    pub fn offset_to_utf16(&self, offset: usize) -> (r: usize)
        ensures
            r == text::to_utf16(self@.surface.text, offset as int),
    {
        text::offset_to_utf16(self.content.as_str(), offset)
    }

    pub fn range_to_utf16(&self, range: &Range<usize>) -> (r: Range<usize>)
        ensures
            (r.start as int, r.end as int) == surface::range_in_utf16(
                self@.surface.text,
                (range.start as int, range.end as int),
            ),
    {
        self.offset_to_utf16(range.start)..self.offset_to_utf16(range.end)
    }

    pub fn range_from_utf16(&self, range_utf16: &Range<usize>) -> (r: Range<usize>)
        ensures
            (r.start as int, r.end as int) == surface::range_of_utf16(
                self@.surface.text,
                (range_utf16.start as int, range_utf16.end as int),
            ),
            text::is_boundary(self@.surface.text, r.start as int),
            text::is_boundary(self@.surface.text, r.end as int),
    {
        self.offset_from_utf16(range_utf16.start)..self.offset_from_utf16(range_utf16.end)
    }

    /// The text in a UTF-16 range, and the range it was really taken from.
    pub fn text_for_range(&self, range_utf16: Range<usize>) -> (r: (String, Range<usize>))
        requires
            text::from_utf16(self@.surface.text, range_utf16.start as int) <= text::from_utf16(
                self@.surface.text,
                range_utf16.end as int,
            ),
        ensures
            ({
                let range = surface::range_of_utf16(
                    self@.surface.text,
                    (range_utf16.start as int, range_utf16.end as int),
                );
                &&& r.0@ == text::sliced(self@.surface.text, range.0, range.1)
                &&& (r.1.start as int, r.1.end as int) == surface::range_in_utf16(
                    self@.surface.text,
                    range,
                )
            }),
    {
        let range = self.range_from_utf16(&range_utf16);
        let actual = self.range_to_utf16(&range);
        (text::slice(self.content.as_str(), range.start, range.end).to_owned(), actual)
    }

    /// The selection in UTF-16, and whether it is reversed.
    pub fn selected_text_range(&self) -> (r: (Range<usize>, bool))
        ensures
            (r.0.start as int, r.0.end as int) == surface::range_in_utf16(
                self@.surface.text,
                (self@.surface.start, self@.surface.end),
            ),
            r.1 == self@.surface.reversed,
    {
        (self.range_to_utf16(&self.selected_range), self.selection_reversed)
    }

    /// The composition region in UTF-16.
    pub fn marked_text_range(&self) -> (r: Option<Range<usize>>)
        ensures
            pair_of(r) == (match self@.surface.marked {
                Some(m) => Some(surface::range_in_utf16(self@.surface.text, m)),
                None => None,
            }),
    {
        match &self.marked_range {
            Some(range) => Some(self.range_to_utf16(range)),
            None => None,
        }
    }

    pub fn unmark_text(&mut self)
        requires
            old(self)@.wf(),
        ensures
            final(self)@.wf(),
            final(self)@ == old(self)@.with(
                Surface { marked: None, ..old(self)@.surface },
            ),
    {
        self.marked_range = None;
    }

    // ---- editing ------------------------------------------------------------

    fn target(&self, range_utf16: &Option<Range<usize>>) -> (r: Range<usize>)
        requires
            self@.wf(),
        ensures
            (r.start as int, r.end as int) == self@.surface.target(pair_of(*range_utf16)),
            text::is_boundary(self@.surface.text, r.start as int),
            text::is_boundary(self@.surface.text, r.end as int),
    {
        match range_utf16 {
            Some(range) => self.range_from_utf16(range),
            None => match &self.marked_range {
                Some(marked) => marked.start..marked.end,
                None => self.selected_range.start..self.selected_range.end,
            },
        }
    }

    /// Replace a UTF-16 range, or the composition region, or the selection. Every insertion goes
    /// through here (typing, a committed composition, a paste, a drop), which is what keeps the
    /// content on one line.
    pub fn replace_text_in_range(&mut self, range_utf16: Option<Range<usize>>, new_text: &str)
        requires
            old(self)@.wf(),
        ensures
            final(self)@.wf(),
            final(self)@ == old(self)@.with(
                old(self)@.surface.replaced(
                    old(self)@.surface.target(pair_of(range_utf16)),
                    single_line(new_text@),
                ),
            ),
    {
        let ghost before = self@;
        let new_text = sanitize(new_text);
        let range = self.target(&range_utf16);
        let chars = text::chars_of(new_text.as_str());
        let typed_one_char = chars.len() == 1 && chars[0] != '\n';
        let inserted: usize = text::byte_length(new_text.as_str());
        let content = text::splice(
            self.content.as_str(),
            range.start,
            range.end,
            new_text.as_str(),
        );
        let insert_at: Option<usize> = if typed_one_char {
            Some(range.start)
        } else {
            None
        };
        let commits = match &self.marked_range {
            Some(marked) => marked.start == range.start && marked.end == range.end,
            None => false,
        };
        if commits {
            self.history.amend(insert_at, inserted);
        } else {
            if range.start != range.end {
                self.history.break_run();
            }
            let snapshot = self.snapshot();
            self.history.record(snapshot, insert_at, inserted);
        }
        let cursor: usize = range.start + inserted;
        self.content = content;
        self.selected_range = cursor..cursor;
        self.marked_range = None;
        proof {
            let pair = (range.start as int, range.end as int);
            surface::lemma_replace_wf(before.surface, pair, new_text@);
            lemma_spliced_single_line(before.surface.text, pair.0, pair.1, new_text@);
        }
    }

    /// Replace a range with text that an input method is still composing, and mark it.
    ///
    /// `new_selected_range_utf16` is relative to the text just inserted: it is measured there, and
    /// both of its ends shift by where that text begins.
    pub fn replace_and_mark_text_in_range(
        &mut self,
        range_utf16: Option<Range<usize>>,
        new_text: &str,
        new_selected_range_utf16: Option<Range<usize>>,
    )
        requires
            old(self)@.wf(),
        ensures
            final(self)@.wf(),
            final(self)@ == old(self)@.with(
                old(self)@.surface.composed(
                    old(self)@.surface.target(pair_of(range_utf16)),
                    single_line(new_text@),
                    pair_of(new_selected_range_utf16),
                ),
            ),
    {
        let ghost before = self@;
        let new_text = sanitize(new_text);
        let range = self.target(&range_utf16);
        let inserted: usize = text::byte_length(new_text.as_str());
        if self.marked_range.is_none() {
            let snapshot = self.snapshot();
            self.history.record(snapshot, None, 0);
        }
        let content = text::splice(
            self.content.as_str(),
            range.start,
            range.end,
            new_text.as_str(),
        );
        self.content = content;
        let cursor: usize = range.start + inserted;
        self.marked_range = if new_text.as_str().is_empty() {
            None
        } else {
            Some(range.start..cursor)
        };
        self.selected_range = match &new_selected_range_utf16 {
            Some(wanted) => composing_selection(new_text.as_str(), range.start, wanted),
            None => cursor..cursor,
        };
        proof {
            let pair = (range.start as int, range.end as int);
            surface::lemma_compose_wf(
                before.surface,
                pair,
                new_text@,
                pair_of(new_selected_range_utf16),
            );
            lemma_spliced_single_line(before.surface.text, pair.0, pair.1, new_text@);
        }
    }

    pub fn backspace(&mut self)
        requires
            old(self)@.wf(),
        ensures
            final(self)@.wf(),
            ({
                let s = if old(self)@.surface.start == old(self)@.surface.end {
                    old(self)@.surface.selected_to(
                        grapheme_before(old(self)@.surface.text, old(self)@.surface.cursor()),
                    )
                } else {
                    old(self)@.surface
                };
                final(self)@ == old(self)@.with(s.replaced(s.target(None), Seq::empty()))
            }),
    {
        proof {
            reveal_strlit("");
            assert(single_line(""@) =~= Seq::<char>::empty());
        }
        if self.selected_range.start == self.selected_range.end {
            let to: usize = self.previous_boundary(self.cursor_offset());
            self.select_to(to);
        }
        self.replace_text_in_range(None, "");
    }

    pub fn delete(&mut self)
        requires
            old(self)@.wf(),
        ensures
            final(self)@.wf(),
            ({
                let s = if old(self)@.surface.start == old(self)@.surface.end {
                    old(self)@.surface.selected_to(
                        grapheme_after(old(self)@.surface.text, old(self)@.surface.cursor()),
                    )
                } else {
                    old(self)@.surface
                };
                final(self)@ == old(self)@.with(s.replaced(s.target(None), Seq::empty()))
            }),
    {
        proof {
            reveal_strlit("");
            assert(single_line(""@) =~= Seq::<char>::empty());
        }
        if self.selected_range.start == self.selected_range.end {
            let to: usize = self.next_boundary(self.cursor_offset());
            self.select_to(to);
        }
        self.replace_text_in_range(None, "");
    }

    pub fn delete_word_left(&mut self)
        requires
            old(self)@.wf(),
        ensures
            final(self)@.wf(),
            ({
                let s = if old(self)@.surface.start == old(self)@.surface.end {
                    old(self)@.surface.with_selection(
                        words::word_before(old(self)@.surface.text, old(self)@.surface.cursor()),
                        old(self)@.surface.end,
                    )
                } else {
                    old(self)@.surface
                };
                final(self)@ == old(self)@.with(s.replaced(s.target(None), Seq::empty()))
            }),
    {
        proof {
            reveal_strlit("");
            assert(single_line(""@) =~= Seq::<char>::empty());
        }
        if self.selected_range.start == self.selected_range.end {
            let to: usize = words::prev_word_boundary(
                self.content.as_str(),
                self.cursor_offset(),
            );
            self.selected_range = to..self.selected_range.end;
        }
        self.replace_text_in_range(None, "");
    }

    pub fn delete_word_right(&mut self)
        requires
            old(self)@.wf(),
        ensures
            final(self)@.wf(),
            ({
                let s = if old(self)@.surface.start == old(self)@.surface.end {
                    old(self)@.surface.with_selection(
                        old(self)@.surface.start,
                        words::word_after(old(self)@.surface.text, old(self)@.surface.cursor()),
                    )
                } else {
                    old(self)@.surface
                };
                final(self)@ == old(self)@.with(s.replaced(s.target(None), Seq::empty()))
            }),
    {
        proof {
            reveal_strlit("");
            assert(single_line(""@) =~= Seq::<char>::empty());
        }
        if self.selected_range.start == self.selected_range.end {
            let to: usize = words::next_word_boundary(
                self.content.as_str(),
                self.cursor_offset(),
            );
            self.selected_range = self.selected_range.start..to;
        }
        self.replace_text_in_range(None, "");
    }

    /// Insert what the clipboard held.
    pub fn paste(&mut self, text: &str)
        requires
            old(self)@.wf(),
        ensures
            final(self)@.wf(),
            final(self)@ == old(self)@.with(
                old(self)@.surface.replaced(
                    old(self)@.surface.target(None),
                    single_line(text@),
                ),
            ),
    {
        self.replace_text_in_range(None, text);
    }

    /// What to put on the clipboard: the selected text, where there is any.
    pub fn copy(&self) -> (r: Option<String>)
        requires
            self@.wf(),
        ensures
            r is Some <==> self@.surface.start != self@.surface.end,
            r matches Some(s) ==> s@ == self@.surface.selected_text(),
    {
        if self.selected_range.start == self.selected_range.end {
            None
        } else {
            Some(
                text::slice(
                    self.content.as_str(),
                    self.selected_range.start,
                    self.selected_range.end,
                ).to_owned(),
            )
        }
    }

    /// What to put on the clipboard, taken out of the content.
    pub fn cut(&mut self) -> (r: Option<String>)
        requires
            old(self)@.wf(),
        ensures
            final(self)@.wf(),
            r is Some <==> old(self)@.surface.start != old(self)@.surface.end,
            r matches Some(s) ==> s@ == old(self)@.surface.selected_text(),
            final(self)@ == (if r is Some {
                old(self)@.with(
                    old(self)@.surface.replaced(old(self)@.surface.target(None), Seq::empty()),
                )
            } else {
                old(self)@
            }),
    {
        proof {
            reveal_strlit("");
            assert(single_line(""@) =~= Seq::<char>::empty());
        }
        let taken = self.copy();
        if taken.is_some() {
            self.replace_text_in_range(None, "");
        }
        taken
    }

    // ---- mouse --------------------------------------------------------------

    /// A press at the text position `offset`: once places the caret, or extends the selection
    /// with shift held; twice selects the word; three times everything.
    pub fn on_mouse_down(&mut self, click_count: usize, shift: bool, offset: usize)
        requires
            old(self)@.wf(),
            text::is_boundary(old(self)@.surface.text, offset as int),
        ensures
            final(self)@.wf(),
            ({
                let s = old(self)@.surface;
                let word = words::word_around(s.text, offset as int);
                final(self)@ == old(self)@.with(
                    if click_count >= 3 {
                        s.collapsed_to(0).selected_to(text::byte_len(s.text) as int)
                    } else if click_count == 2 {
                        s.with_selection(word.0, word.1).forward().run_broken()
                    } else if shift {
                        s.with_selecting(true).selected_to(offset as int)
                    } else {
                        s.with_selecting(true).collapsed_to(offset as int)
                    },
                )
            }),
    {
        if click_count >= 3 {
            self.select_all_text();
            return;
        }
        if click_count == 2 {
            proof {
                text::lemma_offset_of_index(self.content@, offset as int);
            }
            self.selected_range = words::word_at(self.content.as_str(), offset);
            self.selection_reversed = false;
            self.history.break_run();
            return;
        }
        self.is_selecting = true;
        if shift {
            self.select_to(offset);
        } else {
            self.move_to(offset);
        }
    }

    pub fn on_mouse_up(&mut self)
        requires
            old(self)@.wf(),
        ensures
            final(self)@.wf(),
            final(self)@ == old(self)@.with(old(self)@.surface.with_selecting(false)),
    {
        self.is_selecting = false;
    }

    /// The pointer moved to the text position `offset`.
    pub fn on_mouse_move(&mut self, offset: usize)
        requires
            old(self)@.wf(),
            text::is_boundary(old(self)@.surface.text, offset as int),
        ensures
            final(self)@.wf(),
            final(self)@ == old(self)@.with(
                if old(self)@.surface.selecting {
                    old(self)@.surface.selected_to(offset as int)
                } else {
                    old(self)@.surface
                },
            ),
    {
        if self.is_selecting {
            self.select_to(offset);
        }
    }
}

/// Putting a text on one line changes its line breaks, each to a space, and nothing else.
pub proof fn only_line_breaks_are_made_spaces(chars: Seq<char>, i: int)
    requires
        0 <= i < chars.len(),
    ensures
        single_line(chars).len() == chars.len(),
        chars[i] == '\n' || chars[i] == '\r' ==> single_line(chars)[i] == ' ',
        chars[i] != '\n' && chars[i] != '\r' ==> single_line(chars)[i] == chars[i],
        is_single_line(single_line(chars)),
{
}

/// An input opens on its text with the caret at the end and nothing to undo, and answers to the
/// keys of every input and to those of its own context.
pub proof fn an_input_opens_on_its_text(
    chars: Seq<char>,
    placeholder: Seq<char>,
    context: Seq<char>,
)
    requires
        is_single_line(chars),
        is_single_line(placeholder),
    ensures
        ({
            let input = fresh_input(chars, placeholder, context);
            &&& input.surface.text == chars
            &&& input.surface.start == input.surface.end
            &&& input.surface.end == text::byte_len(chars)
            &&& input.surface.marked is None
            &&& input.surface.undone() == input.surface
            &&& input.placeholder == placeholder
            &&& input.key_context == "TextInput "@ + context
        }),
{
    lemma_single_line_stays(chars);
    lemma_single_line_stays(placeholder);
}

/// The stop before an offset is the last that lies before it, and the start where none does; the
/// stop after it is the first that lies after it, and the end where none does.
pub proof fn a_stop_is_the_nearest_in_its_direction(starts: Seq<usize>, offset: int, len: int)
    requires
        forall|i: int, j: int|
            0 <= i < j < starts.len() ==> #[trigger] starts[i] < #[trigger] starts[j],
    ensures
        forall|i: int|
            0 <= i < starts.len() && (#[trigger] starts[i]) < offset ==> starts[i] <= last_before(
                starts,
                offset,
            ),
        (exists|i: int| 0 <= i < starts.len() && (#[trigger] starts[i]) < offset) ==> exists|i: int|
            0 <= i < starts.len() && (#[trigger] starts[i]) == last_before(starts, offset)
                && starts[i] < offset,
        !(exists|i: int| 0 <= i < starts.len() && (#[trigger] starts[i]) < offset) ==> last_before(
            starts,
            offset,
        ) == 0,
        forall|i: int|
            0 <= i < starts.len() && (#[trigger] starts[i]) > offset ==> first_after(
                starts,
                offset,
                len,
            ) <= starts[i],
        (exists|i: int| 0 <= i < starts.len() && (#[trigger] starts[i]) > offset) ==> exists|i: int|
            0 <= i < starts.len() && (#[trigger] starts[i]) == first_after(starts, offset, len)
                && starts[i] > offset,
        !(exists|i: int| 0 <= i < starts.len() && (#[trigger] starts[i]) > offset) ==> first_after(
            starts,
            offset,
            len,
        ) == len,
{
    lemma_last_before_is_nearest(starts, offset);
    lemma_first_after_is_nearest(starts, offset, len);
}

proof fn lemma_last_before_is_nearest(starts: Seq<usize>, offset: int)
    requires
        forall|i: int, j: int|
            0 <= i < j < starts.len() ==> #[trigger] starts[i] < #[trigger] starts[j],
    ensures
        forall|i: int|
            0 <= i < starts.len() && (#[trigger] starts[i]) < offset ==> starts[i] <= last_before(
                starts,
                offset,
            ),
        (exists|i: int| 0 <= i < starts.len() && (#[trigger] starts[i]) < offset) ==> exists|i: int|
            0 <= i < starts.len() && (#[trigger] starts[i]) == last_before(starts, offset)
                && starts[i] < offset,
        !(exists|i: int| 0 <= i < starts.len() && (#[trigger] starts[i]) < offset) ==> last_before(
            starts,
            offset,
        ) == 0,
    decreases starts.len(),
{
    if starts.len() > 0 {
        let front = starts.drop_last();
        let n = starts.len() - 1;
        assert(starts[n] == starts.last());
        if starts.last() >= offset {
            assert forall|i: int, j: int| 0 <= i < j < front.len() implies #[trigger] front[i]
                < #[trigger] front[j] by {
                assert(starts[i] < starts[j]);
            }
            lemma_last_before_is_nearest(front, offset);
            assert forall|i: int| 0 <= i < starts.len() && (#[trigger] starts[i]) < offset implies i
                < n && front[i] == starts[i] by {}
            if exists|i: int| 0 <= i < starts.len() && (#[trigger] starts[i]) < offset {
                let i = choose|i: int| 0 <= i < starts.len() && (#[trigger] starts[i]) < offset;
                assert(front[i] < offset);
                let k = choose|k: int|
                    0 <= k < front.len() && (#[trigger] front[k]) == last_before(front, offset)
                        && front[k] < offset;
                assert(starts[k] == front[k]);
            } else {
                assert forall|i: int| 0 <= i < front.len() implies (#[trigger] front[i])
                    >= offset by {
                    assert(front[i] == starts[i]);
                }
            }
        }
    }
}

proof fn lemma_first_after_is_nearest(starts: Seq<usize>, offset: int, len: int)
    requires
        forall|i: int, j: int|
            0 <= i < j < starts.len() ==> #[trigger] starts[i] < #[trigger] starts[j],
    ensures
        forall|i: int|
            0 <= i < starts.len() && (#[trigger] starts[i]) > offset ==> first_after(
                starts,
                offset,
                len,
            ) <= starts[i],
        (exists|i: int| 0 <= i < starts.len() && (#[trigger] starts[i]) > offset) ==> exists|i: int|
            0 <= i < starts.len() && (#[trigger] starts[i]) == first_after(starts, offset, len)
                && starts[i] > offset,
        !(exists|i: int| 0 <= i < starts.len() && (#[trigger] starts[i]) > offset) ==> first_after(
            starts,
            offset,
            len,
        ) == len,
    decreases starts.len(),
{
    if starts.len() > 0 && starts[0] <= offset {
        let rest = starts.drop_first();
        assert forall|i: int, j: int| 0 <= i < j < rest.len() implies #[trigger] rest[i]
            < #[trigger] rest[j] by {
            assert(starts[i + 1] < starts[j + 1]);
        }
        lemma_first_after_is_nearest(rest, offset, len);
        assert forall|i: int| 0 <= i < starts.len() && (#[trigger] starts[i]) > offset implies i > 0
            && rest[i - 1] == starts[i] by {}
        if exists|i: int| 0 <= i < starts.len() && (#[trigger] starts[i]) > offset {
            let i = choose|i: int| 0 <= i < starts.len() && (#[trigger] starts[i]) > offset;
            assert(rest[i - 1] > offset);
            let k = choose|k: int|
                0 <= k < rest.len() && (#[trigger] rest[k]) == first_after(rest, offset, len)
                    && rest[k] > offset;
            assert(starts[k + 1] == rest[k]);
        } else {
            assert forall|i: int| 0 <= i < rest.len() implies (#[trigger] rest[i]) <= offset by {
                assert(rest[i] == starts[i + 1]);
            }
        }
    }
}

/// A step of the caret goes to a stop on its side with no later one between in the text's own
/// order, or to the end of the text where there is none on that side.
pub proof fn the_caret_steps_to_the_next_stop(chars: Seq<char>, offset: int)
    ensures
        ({
            let stops = grapheme_offsets(chars);
            let left = grapheme_before(chars, offset);
            let right = grapheme_after(chars, offset);
            &&& (forall|k: int| 0 <= k < stops.len() ==> (#[trigger] stops[k]) >= offset) ==> left
                == 0
            &&& (exists|k: int| 0 <= k < stops.len() && (#[trigger] stops[k]) < offset) ==> exists|
                k: int,
            |
                0 <= k < stops.len() && (#[trigger] stops[k]) == left && left < offset && forall|
                    j: int,
                |
                    k < j < stops.len() ==> (#[trigger] stops[j]) >= offset
            &&& (forall|k: int| 0 <= k < stops.len() ==> (#[trigger] stops[k]) <= offset) ==> right
                == text::byte_len(chars)
            &&& (exists|k: int| 0 <= k < stops.len() && (#[trigger] stops[k]) > offset) ==> exists|
                k: int,
            |
                0 <= k < stops.len() && (#[trigger] stops[k]) == right && right > offset && forall|
                    j: int,
                |
                    0 <= j < k ==> (#[trigger] stops[j]) <= offset
        }),
{
    lemma_last_before(grapheme_offsets(chars), offset);
    lemma_first_after(grapheme_offsets(chars), offset, text::byte_len(chars) as int);
}

proof fn lemma_last_before(stops: Seq<usize>, offset: int)
    ensures
        (forall|k: int| 0 <= k < stops.len() ==> (#[trigger] stops[k]) >= offset) ==> last_before(
            stops,
            offset,
        ) == 0,
        (exists|k: int| 0 <= k < stops.len() && (#[trigger] stops[k]) < offset) ==> exists|k: int|
            0 <= k < stops.len() && (#[trigger] stops[k]) == last_before(stops, offset) && stops[k]
                < offset && forall|j: int| k < j < stops.len() ==> (#[trigger] stops[j]) >= offset,
    decreases stops.len(),
{
    if stops.len() > 0 {
        let n = stops.len() - 1;
        let front = stops.drop_last();
        assert(stops[n] == stops.last());
        if stops[n] >= offset {
            lemma_last_before(front, offset);
            assert forall|k: int| 0 <= k < n implies front[k] == #[trigger] stops[k] by {}
            if exists|k: int| 0 <= k < stops.len() && (#[trigger] stops[k]) < offset {
                let k = choose|k: int| 0 <= k < stops.len() && (#[trigger] stops[k]) < offset;
                assert(front[k] < offset);
                let m = choose|m: int|
                    0 <= m < front.len() && (#[trigger] front[m]) == last_before(front, offset)
                        && front[m] < offset && forall|j: int|
                        m < j < front.len() ==> (#[trigger] front[j]) >= offset;
                assert forall|j: int| m < j < stops.len() implies (#[trigger] stops[j])
                    >= offset by {
                    if j < n {
                        assert(front[j] >= offset);
                    }
                }
                assert(stops[m] == last_before(stops, offset));
            } else {
                assert forall|k: int| 0 <= k < front.len() implies (#[trigger] front[k])
                    >= offset by {
                    assert(stops[k] >= offset);
                }
            }
        }
    }
}

proof fn lemma_first_after(stops: Seq<usize>, offset: int, len: int)
    ensures
        (forall|k: int| 0 <= k < stops.len() ==> (#[trigger] stops[k]) <= offset) ==> first_after(
            stops,
            offset,
            len,
        ) == len,
        (exists|k: int| 0 <= k < stops.len() && (#[trigger] stops[k]) > offset) ==> exists|k: int|
            0 <= k < stops.len() && (#[trigger] stops[k]) == first_after(stops, offset, len)
                && stops[k] > offset && forall|j: int| 0 <= j < k ==> (#[trigger] stops[j])
                <= offset,
    decreases stops.len(),
{
    if stops.len() > 0 && stops[0] <= offset {
        let rest = stops.drop_first();
        lemma_first_after(rest, offset, len);
        if exists|k: int| 0 <= k < stops.len() && (#[trigger] stops[k]) > offset {
            let k = choose|k: int| 0 <= k < stops.len() && (#[trigger] stops[k]) > offset;
            assert(rest[k - 1] > offset);
            let m = choose|m: int|
                0 <= m < rest.len() && (#[trigger] rest[m]) == first_after(rest, offset, len)
                    && rest[m] > offset && forall|j: int|
                    0 <= j < m ==> (#[trigger] rest[j]) <= offset;
            assert forall|j: int| 0 <= j < m + 1 implies (#[trigger] stops[j]) <= offset by {
                if j > 0 {
                    assert(rest[j - 1] <= offset);
                }
            }
            assert(stops[m + 1] == first_after(stops, offset, len));
        } else {
            assert forall|k: int| 0 <= k < rest.len() implies (#[trigger] rest[k]) <= offset by {
                assert(stops[k + 1] <= offset);
            }
        }
    }
}

} // verus!
