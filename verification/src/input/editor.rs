//! The multi-line text editor.
//!
//! It shares the single-line input's model and adds line awareness: vertical movement, per-line
//! `home` and `end`, newline insertion, and selections that span lines.

use crate::input::history::{EditSnapshot, History};
use crate::input::lines;
use crate::input::runs;
use crate::input::runs::TextRun;
use crate::input::surface;
use crate::input::surface::Surface;
use crate::input::text_input;
use crate::input::words;
use crate::text;
use core::ops::Range;
use vstd::prelude::*;
use vstd::string::*;

verus! {

/// What an editor holds.
pub struct EditorView {
    pub surface: Surface,
    /// The byte offset where each line begins.
    pub lines: Seq<int>,
    pub placeholder: Seq<char>,
}

/// An editor that has just been given its text: the caret stands at the start, and nothing can be
/// undone.
pub open spec fn fresh_editor(text: Seq<char>, placeholder: Seq<char>) -> EditorView {
    EditorView {
        surface: surface::fresh_surface(text, 0),
        lines: lines::line_starts(text),
        placeholder,
    }
}

impl EditorView {
    /// The surface changed and the line index follows it.
    pub open spec fn with(self, surface: Surface) -> EditorView {
        EditorView { surface, lines: lines::line_starts(surface.text), ..self }
    }

    /// The surface is sound and the line index is that of its text.
    pub open spec fn wf(self) -> bool {
        &&& self.surface.wf()
        &&& self.lines_wf()
    }

    pub open spec fn lines_wf(self) -> bool {
        self.lines == lines::line_starts(self.surface.text)
    }

    /// The line the caret is on.
    pub open spec fn cursor_line(self) -> int {
        lines::line_of(self.lines, self.surface.cursor())
    }
}

/// The leading blanks of a line, which a new line after it carries over.
pub open spec fn indent_of(line: Seq<char>) -> Seq<char>
    decreases line.len(),
{
    if line.len() == 0 || (line[0] != ' ' && line[0] != '\t') {
        Seq::empty()
    } else {
        seq![line[0]] + indent_of(line.drop_first())
    }
}

/// The part of a selection that falls on one line: where it starts and ends in the line, and
/// whether it goes on past the line.
#[derive(Clone, Copy, Debug, PartialEq, Eq, Structural)]
pub struct Segment {
    pub from: usize,
    pub to: usize,
    pub continues: bool,
}

fn leading_blanks(line: &str) -> (r: String)
    ensures
        r@ == indent_of(line@),
{
    let chars = text::chars_of(line);
    let mut r = String::new();
    let mut i: usize = 0;
    proof {
        assert(line@.skip(0) =~= line@);
        assert(r@ + indent_of(line@) =~= indent_of(line@));
    }
    while i < chars.len() && (chars[i] == ' ' || chars[i] == '\t')
        invariant
            i <= chars.len(),
            chars@ == line@,
            indent_of(line@) == r@ + indent_of(line@.skip(i as int)),
        decreases chars.len() - i,
    {
        let ghost held = r@;
        r.push(chars[i]);
        proof {
            let tail = line@.skip(i as int);
            assert(tail.drop_first() =~= line@.skip(i + 1));
            assert(held + (seq![tail[0]] + indent_of(line@.skip(i + 1))) =~= r@ + indent_of(
                line@.skip(i + 1),
            ));
        }
        i = i + 1;
    }
    proof {
        assert(r@ + indent_of(line@.skip(i as int)) =~= r@);
    }
    r
}

/// Editable text of any number of lines.
pub struct Editor {
    content: String,
    history: History,
    line_starts: Vec<usize>,
    placeholder: String,
    selection: Range<usize>,
    selection_reversed: bool,
    marked_range: Option<Range<usize>>,
    is_selecting: bool,
}

/// A list of ranges as pairs of offsets.
pub open spec fn spans(ranges: Seq<Range<usize>>) -> Seq<(int, int)> {
    ranges.map_values(|r: Range<usize>| (r.start as int, r.end as int))
}

impl View for Editor {
    type V = EditorView;

    closed spec fn view(&self) -> EditorView {
        EditorView {
            surface: Surface {
                text: self.content@,
                start: self.selection.start as int,
                end: self.selection.end as int,
                reversed: self.selection_reversed,
                marked: text_input::pair_of(self.marked_range),
                history: self.history@,
                selecting: self.is_selecting,
            },
            lines: lines::offsets(self.line_starts@),
            placeholder: self.placeholder@,
        }
    }
}

impl Editor {
    /// An editor holding `text`, with the caret at its start.
    pub fn new(text: &str, placeholder: &str) -> (r: Editor)
        ensures
            r@.wf(),
            r@ == fresh_editor(text@, placeholder@),
    {
        proof {
            text::lemma_offset_ends(text@);
        }
        let r = Editor {
            content: text.to_owned(),
            line_starts: lines::compute_line_starts(text),
            history: History::default(),
            placeholder: placeholder.to_owned(),
            selection: 0..0,
            selection_reversed: false,
            marked_range: None,
            is_selecting: false,
        };
        proof {
            assert(r@.surface == surface::fresh_surface(text@, 0));
        }
        r
    }

    pub fn text(&self) -> (r: &str)
        ensures
            r@ == self@.surface.text,
    {
        self.content.as_str()
    }

    pub fn line_count(&self) -> (r: usize)
        ensures
            r == self@.lines.len(),
    {
        self.line_starts.len()
    }

    // ---- line geometry ------------------------------------------------------

    /// The line containing `offset`.
    pub fn line_of(&self, offset: usize) -> (line: usize)
        requires
            self@.lines_wf(),
        ensures
            line == lines::line_of(self@.lines, offset as int),
            line < self@.lines.len(),
            self@.lines[line as int] <= offset,
    {
        proof {
            self.lemma_index();
        }
        lines::find_line(&self.line_starts, offset)
    }

    proof fn lemma_index(&self)
        requires
            self@.lines_wf(),
        ensures
            self.line_starts.len() >= 1,
            self.line_starts[0] == 0,
            forall|j: int, k: int|
                0 <= j < k < self.line_starts.len() ==> #[trigger] self.line_starts[j]
                    < #[trigger] self.line_starts[k],
            self@.lines.len() == self.line_starts.len(),
            forall|k: int|
                0 <= k < self.line_starts.len() ==> #[trigger] self.line_starts[k]
                    == self@.lines[k],
    {
        lines::line_index_is_sound(self.content@);
        let view = lines::offsets(self.line_starts@);
        assert(view.len() == self.line_starts.len());
        assert forall|k: int| 0 <= k < self.line_starts.len() implies #[trigger] self.line_starts[k]
            == self@.lines[k] by {
            assert(view[k] == self.line_starts[k] as int);
        }
        assert(view[0] == 0);
        assert forall|j: int, k: int| 0 <= j < k < self.line_starts.len() implies
            #[trigger] self.line_starts[j] < #[trigger] self.line_starts[k] by {
            assert(view[j] < view[k]);
        }
    }

    /// Where a line begins.
    pub fn line_start(&self, line: usize) -> (r: usize)
        requires
            self@.lines_wf(),
        ensures
            r == lines::line_start(self@.surface.text, line as int),
    {
        proof {
            self.lemma_index();
        }
        if line < self.line_starts.len() {
            self.line_starts[line]
        } else {
            text::byte_length(self.content.as_str())
        }
    }

    /// Where a line ends, before its line break.
    pub fn line_end(&self, line: usize) -> (r: usize)
        requires
            self@.lines_wf(),
            line < usize::MAX,
        ensures
            r == lines::line_end(self@.surface.text, line as int),
    {
        proof {
            self.lemma_index();
            lines::lemma_line_span(self.content@, line as int);
        }
        if line + 1 < self.line_starts.len() {
            let stop: usize = self.line_starts[line + 1] - 1;
            if stop > self.line_starts[line] {
                let before = text::chars_of(text::prefix(self.content.as_str(), stop));
                if before[before.len() - 1] == '\r' {
                    return stop - 1;
                }
            }
            stop
        } else {
            text::byte_length(self.content.as_str())
        }
    }

    /// The text of a line, without its line break.
    pub fn line_text(&self, line: usize) -> (r: &str)
        requires
            self@.lines_wf(),
            line < usize::MAX,
        ensures
            r@ == lines::line_text(self@.surface.text, line as int),
    {
        proof {
            lines::lemma_line_span(self.content@, line as int);
        }
        text::slice(self.content.as_str(), self.line_start(line), self.line_end(line))
    }

    pub fn cursor(&self) -> (r: usize)
        ensures
            r == self@.surface.cursor(),
    {
        if self.selection_reversed {
            self.selection.start
        } else {
            self.selection.end
        }
    }

    pub fn selection(&self) -> (r: Range<usize>)
        ensures
            r.start == self@.surface.start,
            r.end == self@.surface.end,
    {
        self.selection.start..self.selection.end
    }

    /// The text position of a column of a line, as a click gives them: the column is held inside
    /// the line, and a line with no known column counts as clicked at its end.
    pub fn offset_for_position(&self, line: usize, column: Option<usize>) -> (r: usize)
        requires
            self@.lines_wf(),
        ensures
            ({
                let count = self@.lines.len();
                let at = if line < count {
                    line as int
                } else {
                    count - 1
                };
                let start = lines::line_start(self@.surface.text, at);
                let end = lines::line_end(self@.surface.text, at);
                r == (match column {
                    Some(column) => if start + column <= end {
                        start + column
                    } else {
                        end
                    },
                    None => end,
                })
            }),
    {
        proof {
            self.lemma_index();
        }
        let last: usize = self.line_starts.len() - 1;
        let line: usize = if line <= last {
            line
        } else {
            last
        };
        let start: usize = self.line_start(line);
        let end: usize = self.line_end(line);
        proof {
            lines::lemma_line_span(self.content@, line as int);
        }
        match column {
            Some(column) => if column <= end - start {
                start + column
            } else {
                end
            },
            None => end,
        }
    }

    /// One character back from `offset`.
    pub fn prev_boundary(&self, offset: usize) -> (r: usize)
        requires
            text::is_boundary(self@.surface.text, offset as int),
        ensures
            r == lines::char_before(self@.surface.text, offset as int),
            text::is_boundary(self@.surface.text, r as int),
    {
        let mut at: usize = offset.saturating_sub(1);
        let ghost from = at as int;
        proof {
            text::lemma_offset_ends(self.content@);
            lines::lemma_floor(self.content@, 0, from);
        }
        while at > 0 && !self.content.as_str().is_char_boundary(at)
            invariant
                lines::floor_boundary(self.content@, from) == lines::floor_boundary(
                    self.content@,
                    at as int,
                ),
            decreases at,
        {
            proof {
                text::lemma_boundary_is_char_boundary(self.content@, at as int);
            }
            at = at - 1;
        }
        proof {
            text::lemma_boundary_is_char_boundary(self.content@, at as int);
        }
        at
    }

    /// One character on from `offset`.
    pub fn next_boundary(&self, offset: usize) -> (r: usize)
        requires
            text::is_boundary(self@.surface.text, offset as int),
        ensures
            r == lines::char_after(self@.surface.text, offset as int),
            text::is_boundary(self@.surface.text, r as int),
    {
        let len: usize = text::byte_length(self.content.as_str());
        let mut at: usize = if offset >= len {
            len
        } else {
            offset + 1
        };
        let ghost from = at as int;
        proof {
            lines::lemma_ceil(self.content@, from);
        }
        while at < len && !self.content.as_str().is_char_boundary(at)
            invariant
                at <= len,
                len == text::byte_len(self.content@),
                lines::ceil_boundary(self.content@, from) == lines::ceil_boundary(
                    self.content@,
                    at as int,
                ),
            decreases len - at,
        {
            proof {
                text::lemma_boundary_is_char_boundary(self.content@, at as int);
            }
            at = at + 1;
        }
        proof {
            text::lemma_boundary_is_char_boundary(self.content@, at as int);
        }
        at
    }

    // ---- internals ----------------------------------------------------------

    pub fn move_to(&mut self, offset: usize)
        requires
            old(self)@.wf(),
            text::is_boundary(old(self)@.surface.text, offset as int),
        ensures
            final(self)@.wf(),
            final(self)@ == old(self)@.with(old(self)@.surface.collapsed_to(offset as int).forward()),
    {
        self.selection = offset..offset;
        self.selection_reversed = false;
        self.history.break_run();
    }

    pub fn select_to(&mut self, offset: usize)
        requires
            old(self)@.wf(),
            text::is_boundary(old(self)@.surface.text, offset as int),
        ensures
            final(self)@.wf(),
            final(self)@ == old(self)@.with(old(self)@.surface.selected_to(offset as int)),
    {
        let start: usize = if self.selection_reversed {
            offset
        } else {
            self.selection.start
        };
        let end: usize = if self.selection_reversed {
            self.selection.end
        } else {
            offset
        };
        if end < start {
            self.selection_reversed = !self.selection_reversed;
            self.selection = end..start;
        } else {
            self.selection = start..end;
        }
        self.history.break_run();
    }

    /// Move `delta` lines, keeping the byte column where the target line allows it. At an edge of
    /// the text, go to that end of it.
    pub fn move_vertically(&mut self, delta: isize, extend: bool)
        requires
            old(self)@.wf(),
        ensures
            final(self)@.wf(),
            ({
                let s = old(self)@.surface;
                let to = lines::vertical(s.text, s.cursor(), delta as int);
                final(self)@ == old(self)@.with(
                    if extend {
                        s.selected_to(to)
                    } else {
                        s.collapsed_to(to).forward()
                    },
                )
            }),
    {
        let cursor: usize = self.cursor();
        proof {
            self.lemma_index();
            lines::vertical_moves_land_on_their_line(self.content@, cursor as int, delta as int);
            text::lemma_offset_ends(self.content@);
        }
        let line: usize = self.line_of(cursor);
        let column: usize = cursor - self.line_start(line);
        let target: i128 = line as i128 + delta as i128;
        let offset: usize = if target < 0 || target >= self.line_count() as i128 {
            if delta < 0 {
                0
            } else {
                text::byte_length(self.content.as_str())
            }
        } else {
            let target: usize = target as usize;
            let start: usize = self.line_start(target);
            let end: usize = self.line_end(target);
            proof {
                lines::lemma_line_span(self.content@, target as int);
            }
            let mut offset: usize = if column <= end - start {
                start + column
            } else {
                end
            };
            let ghost from = offset as int;
            proof {
                lines::lemma_floor(self.content@, start as int, from);
            }
            while offset > start && !self.content.as_str().is_char_boundary(offset)
                invariant
                    start <= offset,
                    start <= lines::floor_boundary(self.content@, from) <= offset,
                    text::is_boundary(self.content@, start as int),
                    lines::floor_boundary(self.content@, from) == lines::floor_boundary(
                        self.content@,
                        offset as int,
                    ),
                decreases offset,
            {
                proof {
                    text::lemma_boundary_is_char_boundary(self.content@, offset as int);
                    lines::lemma_floor(self.content@, start as int, offset - 1);
                }
                offset = offset - 1;
            }
            proof {
                text::lemma_boundary_is_char_boundary(self.content@, offset as int);
            }
            offset
        };
        if extend {
            self.select_to(offset);
        } else {
            self.move_to(offset);
        }
    }

    // ---- movement -----------------------------------------------------------

    pub fn left(&mut self)
        requires
            old(self)@.wf(),
        ensures
            final(self)@.wf(),
            final(self)@ == old(self)@.with(
                old(self)@.surface.collapsed_to(
                    if old(self)@.surface.start == old(self)@.surface.end {
                        lines::char_before(old(self)@.surface.text, old(self)@.surface.cursor())
                    } else {
                        old(self)@.surface.start
                    },
                ).forward(),
            ),
    {
        if self.selection.start == self.selection.end {
            let to: usize = self.prev_boundary(self.cursor());
            self.move_to(to);
        } else {
            self.move_to(self.selection.start);
        }
    }

    pub fn right(&mut self)
        requires
            old(self)@.wf(),
        ensures
            final(self)@.wf(),
            final(self)@ == old(self)@.with(
                old(self)@.surface.collapsed_to(
                    if old(self)@.surface.start == old(self)@.surface.end {
                        lines::char_after(old(self)@.surface.text, old(self)@.surface.cursor())
                    } else {
                        old(self)@.surface.end
                    },
                ).forward(),
            ),
    {
        if self.selection.start == self.selection.end {
            let to: usize = self.next_boundary(self.cursor());
            self.move_to(to);
        } else {
            self.move_to(self.selection.end);
        }
    }

    /// Word movement is the single-line input's: one definition of a word.
    pub fn word_left(&mut self)
        requires
            old(self)@.wf(),
        ensures
            final(self)@.wf(),
            final(self)@ == old(self)@.with(
                old(self)@.surface.collapsed_to(
                    words::word_before(
                        old(self)@.surface.text,
                        if old(self)@.surface.start == old(self)@.surface.end {
                            old(self)@.surface.cursor()
                        } else {
                            old(self)@.surface.start
                        },
                    ),
                ).forward(),
            ),
    {
        let from: usize = if self.selection.start == self.selection.end {
            self.cursor()
        } else {
            self.selection.start
        };
        let to: usize = words::prev_word_boundary(self.content.as_str(), from);
        self.move_to(to);
    }

    pub fn word_right(&mut self)
        requires
            old(self)@.wf(),
        ensures
            final(self)@.wf(),
            final(self)@ == old(self)@.with(
                old(self)@.surface.collapsed_to(
                    words::word_after(
                        old(self)@.surface.text,
                        if old(self)@.surface.start == old(self)@.surface.end {
                            old(self)@.surface.cursor()
                        } else {
                            old(self)@.surface.end
                        },
                    ),
                ).forward(),
            ),
    {
        let from: usize = if self.selection.start == self.selection.end {
            self.cursor()
        } else {
            self.selection.end
        };
        let to: usize = words::next_word_boundary(self.content.as_str(), from);
        self.move_to(to);
    }

    pub fn select_word_left(&mut self)
        requires
            old(self)@.wf(),
        ensures
            final(self)@.wf(),
            final(self)@ == old(self)@.with(
                old(self)@.surface.selected_to(words::word_before(old(self)@.surface.text, old(self)@.surface.cursor())),
            ),
    {
        let to: usize = words::prev_word_boundary(self.content.as_str(), self.cursor());
        self.select_to(to);
    }

    pub fn select_word_right(&mut self)
        requires
            old(self)@.wf(),
        ensures
            final(self)@.wf(),
            final(self)@ == old(self)@.with(
                old(self)@.surface.selected_to(words::word_after(old(self)@.surface.text, old(self)@.surface.cursor())),
            ),
    {
        let to: usize = words::next_word_boundary(self.content.as_str(), self.cursor());
        self.select_to(to);
    }

    pub fn select_left(&mut self)
        requires
            old(self)@.wf(),
        ensures
            final(self)@.wf(),
            final(self)@ == old(self)@.with(
                old(self)@.surface.selected_to(lines::char_before(old(self)@.surface.text, old(self)@.surface.cursor())),
            ),
    {
        let to: usize = self.prev_boundary(self.cursor());
        self.select_to(to);
    }

    pub fn select_right(&mut self)
        requires
            old(self)@.wf(),
        ensures
            final(self)@.wf(),
            final(self)@ == old(self)@.with(
                old(self)@.surface.selected_to(lines::char_after(old(self)@.surface.text, old(self)@.surface.cursor())),
            ),
    {
        let to: usize = self.next_boundary(self.cursor());
        self.select_to(to);
    }

    pub fn up(&mut self)
        requires
            old(self)@.wf(),
        ensures
            final(self)@.wf(),
            final(self)@ == old(self)@.with(
                old(self)@.surface.collapsed_to(
                    lines::vertical(old(self)@.surface.text, old(self)@.surface.cursor(), -1),
                ).forward(),
            ),
    {
        self.move_vertically(-1, false);
    }

    pub fn down(&mut self)
        requires
            old(self)@.wf(),
        ensures
            final(self)@.wf(),
            final(self)@ == old(self)@.with(
                old(self)@.surface.collapsed_to(
                    lines::vertical(old(self)@.surface.text, old(self)@.surface.cursor(), 1),
                ).forward(),
            ),
    {
        self.move_vertically(1, false);
    }

    pub fn select_up(&mut self)
        requires
            old(self)@.wf(),
        ensures
            final(self)@.wf(),
            final(self)@ == old(self)@.with(
                old(self)@.surface.selected_to(
                    lines::vertical(old(self)@.surface.text, old(self)@.surface.cursor(), -1),
                ),
            ),
    {
        self.move_vertically(-1, true);
    }

    pub fn select_down(&mut self)
        requires
            old(self)@.wf(),
        ensures
            final(self)@.wf(),
            final(self)@ == old(self)@.with(
                old(self)@.surface.selected_to(
                    lines::vertical(old(self)@.surface.text, old(self)@.surface.cursor(), 1),
                ),
            ),
    {
        self.move_vertically(1, true);
    }

    /// A page is `lines` lines, which the viewport decides; it is never less than one.
    pub fn page_up(&mut self, lines: isize)
        requires
            old(self)@.wf(),
            lines >= 1,
        ensures
            final(self)@.wf(),
            final(self)@ == old(self)@.with(
                old(self)@.surface.collapsed_to(
                    lines::vertical(old(self)@.surface.text, old(self)@.surface.cursor(), -lines),
                ).forward(),
            ),
    {
        self.move_vertically(-lines, false);
    }

    pub fn page_down(&mut self, lines: isize)
        requires
            old(self)@.wf(),
            lines >= 1,
        ensures
            final(self)@.wf(),
            final(self)@ == old(self)@.with(
                old(self)@.surface.collapsed_to(
                    lines::vertical(old(self)@.surface.text, old(self)@.surface.cursor(), lines as int),
                ).forward(),
            ),
    {
        self.move_vertically(lines, false);
    }

    pub fn select_page_up(&mut self, lines: isize)
        requires
            old(self)@.wf(),
            lines >= 1,
        ensures
            final(self)@.wf(),
            final(self)@ == old(self)@.with(
                old(self)@.surface.selected_to(
                    lines::vertical(old(self)@.surface.text, old(self)@.surface.cursor(), -lines),
                ),
            ),
    {
        self.move_vertically(-lines, true);
    }

    pub fn select_page_down(&mut self, lines: isize)
        requires
            old(self)@.wf(),
            lines >= 1,
        ensures
            final(self)@.wf(),
            final(self)@ == old(self)@.with(
                old(self)@.surface.selected_to(
                    lines::vertical(old(self)@.surface.text, old(self)@.surface.cursor(), lines as int),
                ),
            ),
    {
        self.move_vertically(lines, true);
    }

    /// How many lines a page is: what the viewport shows, less one so a landmark on the edge stays
    /// visible, and at least one.
    pub fn page_lines(visible: Option<isize>) -> (r: isize)
        ensures
            r == (match visible {
                Some(n) => if n - 1 > 1 {
                    n - 1
                } else {
                    1
                },
                None => 1,
            }),
    {
        match visible {
            Some(n) => if n > 2 {
                n - 1
            } else {
                1
            },
            None => 1,
        }
    }

    /// Unlike `home` and `end`, which are per line here, these are the ends of the text.
    pub fn doc_start(&mut self)
        requires
            old(self)@.wf(),
        ensures
            final(self)@.wf(),
            final(self)@ == old(self)@.with(old(self)@.surface.collapsed_to(0).forward()),
    {
        proof {
            text::lemma_offset_ends(self.content@);
        }
        self.move_to(0);
    }

    pub fn doc_end(&mut self)
        requires
            old(self)@.wf(),
        ensures
            final(self)@.wf(),
            final(self)@ == old(self)@.with(
                old(self)@.surface.collapsed_to(text::byte_len(old(self)@.surface.text) as int).forward(),
            ),
    {
        proof {
            text::lemma_offset_ends(self.content@);
        }
        let len: usize = text::byte_length(self.content.as_str());
        self.move_to(len);
    }

    pub fn select_doc_start(&mut self)
        requires
            old(self)@.wf(),
        ensures
            final(self)@.wf(),
            final(self)@ == old(self)@.with(old(self)@.surface.selected_to(0)),
    {
        proof {
            text::lemma_offset_ends(self.content@);
        }
        self.select_to(0);
    }

    pub fn select_doc_end(&mut self)
        requires
            old(self)@.wf(),
        ensures
            final(self)@.wf(),
            final(self)@ == old(self)@.with(
                old(self)@.surface.selected_to(text::byte_len(old(self)@.surface.text) as int),
            ),
    {
        proof {
            text::lemma_offset_ends(self.content@);
        }
        let len: usize = text::byte_length(self.content.as_str());
        self.select_to(len);
    }

    /// The start of the line, not of the text.
    pub fn home(&mut self)
        requires
            old(self)@.wf(),
        ensures
            final(self)@.wf(),
            final(self)@ == old(self)@.with(
                old(self)@.surface.collapsed_to(lines::line_start(old(self)@.surface.text, old(self)@.cursor_line())).forward(),
            ),
    {
        let line: usize = self.line_of(self.cursor());
        proof {
            self.lemma_index();
            lines::lemma_line_span(self.content@, line as int);
        }
        let to: usize = self.line_start(line);
        self.move_to(to);
    }

    pub fn end(&mut self)
        requires
            old(self)@.wf(),
        ensures
            final(self)@.wf(),
            final(self)@ == old(self)@.with(
                old(self)@.surface.collapsed_to(lines::line_end(old(self)@.surface.text, old(self)@.cursor_line())).forward(),
            ),
    {
        let line: usize = self.line_of(self.cursor());
        proof {
            self.lemma_index();
            lines::lemma_line_span(self.content@, line as int);
        }
        let to: usize = self.line_end(line);
        self.move_to(to);
    }

    pub fn select_home(&mut self)
        requires
            old(self)@.wf(),
        ensures
            final(self)@.wf(),
            final(self)@ == old(self)@.with(
                old(self)@.surface.selected_to(lines::line_start(old(self)@.surface.text, old(self)@.cursor_line())),
            ),
    {
        let line: usize = self.line_of(self.cursor());
        proof {
            self.lemma_index();
            lines::lemma_line_span(self.content@, line as int);
        }
        let to: usize = self.line_start(line);
        self.select_to(to);
    }

    pub fn select_end(&mut self)
        requires
            old(self)@.wf(),
        ensures
            final(self)@.wf(),
            final(self)@ == old(self)@.with(
                old(self)@.surface.selected_to(lines::line_end(old(self)@.surface.text, old(self)@.cursor_line())),
            ),
    {
        let line: usize = self.line_of(self.cursor());
        proof {
            self.lemma_index();
            lines::lemma_line_span(self.content@, line as int);
        }
        let to: usize = self.line_end(line);
        self.select_to(to);
    }

    pub fn select_all(&mut self)
        requires
            old(self)@.wf(),
        ensures
            final(self)@.wf(),
            final(self)@ == old(self)@.with(
                old(self)@.surface.collapsed_to(0).forward().selected_to(text::byte_len(old(self)@.surface.text) as int),
            ),
    {
        proof {
            text::lemma_offset_ends(self.content@);
        }
        let len: usize = text::byte_length(self.content.as_str());
        self.move_to(0);
        self.select_to(len);
    }

    // ---- history ------------------------------------------------------------

    pub fn snapshot(&self) -> (r: EditSnapshot)
        ensures
            r@ == self@.surface.snapshot(),
    {
        EditSnapshot {
            content: self.content.clone(),
            selection: self.selection.start..self.selection.end,
            reversed: self.selection_reversed,
        }
    }

    /// Put a snapshot back. The line index is rebuilt with the text.
    fn restore(&mut self, snapshot: EditSnapshot)
        ensures
            final(self)@ == old(self)@.with(old(self)@.surface.restored(snapshot@)),
    {
        self.content = snapshot.content;
        self.line_starts = lines::compute_line_starts(self.content.as_str());
        self.selection = snapshot.selection;
        self.selection_reversed = snapshot.reversed;
        self.marked_range = None;
    }

    /// Step back to the last recorded state. Returns whether there was one.
    pub fn undo(&mut self) -> (changed: bool)
        requires
            old(self)@.wf(),
        ensures
            changed == (old(self)@.surface.history.undo_result() is Some),
            final(self)@.wf(),
            final(self)@ == old(self)@.with(old(self)@.surface.undone()),
    {
        proof {
            surface::lemma_undo_wf(self@.surface);
        }
        let current = self.snapshot();
        match self.history.undo(current) {
            Some(snapshot) => {
                self.restore(snapshot);
                true
            },
            None => false,
        }
    }

    /// Step forward to the last state undone. Returns whether there was one.
    pub fn redo(&mut self) -> (changed: bool)
        requires
            old(self)@.wf(),
        ensures
            changed == (old(self)@.surface.history.redo_result() is Some),
            final(self)@.wf(),
            final(self)@ == old(self)@.with(old(self)@.surface.redone()),
    {
        proof {
            surface::lemma_undo_wf(self@.surface);
        }
        let current = self.snapshot();
        match self.history.redo(current) {
            Some(snapshot) => {
                self.restore(snapshot);
                true
            },
            None => false,
        }
    }

    // ---- UTF-16 -------------------------------------------------------------

    pub fn offset_from_utf16(&self, offset: usize) -> (r: usize)
        ensures
            r == text::from_utf16(self@.surface.text, offset as int),
            text::is_boundary(self@.surface.text, r as int),
    {
        text::offset_from_utf16(self.content.as_str(), offset)
    }

    pub fn offset_to_utf16(&self, offset: usize) -> (r: usize)
        ensures
            r == text::to_utf16(self@.surface.text, offset as int),
    {
        text::offset_to_utf16(self.content.as_str(), offset)
    }

    pub fn range_to_utf16(&self, range: &Range<usize>) -> (r: Range<usize>)
        ensures
            (r.start as int, r.end as int) == surface::range_in_utf16(
                self@.surface.text,
                (range.start as int, range.end as int),
            ),
    {
        self.offset_to_utf16(range.start)..self.offset_to_utf16(range.end)
    }

    pub fn range_from_utf16(&self, range_utf16: &Range<usize>) -> (r: Range<usize>)
        ensures
            (r.start as int, r.end as int) == surface::range_of_utf16(
                self@.surface.text,
                (range_utf16.start as int, range_utf16.end as int),
            ),
            text::is_boundary(self@.surface.text, r.start as int),
            text::is_boundary(self@.surface.text, r.end as int),
    {
        self.offset_from_utf16(range_utf16.start)..self.offset_from_utf16(range_utf16.end)
    }

    /// The text in a UTF-16 range, where its ends are in order, and the range it was really taken
    /// from.
    pub fn text_for_range(&self, range_utf16: Range<usize>) -> (r: (Option<String>, Range<usize>))
        ensures
            ({
                let range = surface::range_of_utf16(
                    self@.surface.text,
                    (range_utf16.start as int, range_utf16.end as int),
                );
                &&& r.0 is Some <==> range.0 <= range.1
                &&& r.0 matches Some(s) ==> s@ == text::sliced(self@.surface.text, range.0, range.1)
                &&& (r.1.start as int, r.1.end as int) == surface::range_in_utf16(
                    self@.surface.text,
                    range,
                )
            }),
    {
        let range = self.range_from_utf16(&range_utf16);
        let actual = self.range_to_utf16(&range);
        if range.start <= range.end {
            (
                Some(text::slice(self.content.as_str(), range.start, range.end).to_owned()),
                actual,
            )
        } else {
            (None, actual)
        }
    }

    /// The selection in UTF-16, and whether it is reversed.
    pub fn selected_text_range(&self) -> (r: (Range<usize>, bool))
        ensures
            (r.0.start as int, r.0.end as int) == surface::range_in_utf16(
                self@.surface.text,
                (self@.surface.start, self@.surface.end),
            ),
            r.1 == self@.surface.reversed,
    {
        (self.range_to_utf16(&self.selection), self.selection_reversed)
    }

    /// The composition region in UTF-16.
    pub fn marked_text_range(&self) -> (r: Option<Range<usize>>)
        ensures
            text_input::pair_of(r) == (match self@.surface.marked {
                Some(m) => Some(surface::range_in_utf16(self@.surface.text, m)),
                None => None,
            }),
    {
        match &self.marked_range {
            Some(range) => Some(self.range_to_utf16(range)),
            None => None,
        }
    }

    pub fn unmark_text(&mut self)
        requires
            old(self)@.wf(),
        ensures
            final(self)@.wf(),
            final(self)@ == old(self)@.with(
                Surface { marked: None, ..old(self)@.surface },
            ),
    {
        self.marked_range = None;
    }

    // ---- editing ------------------------------------------------------------

    fn target(&self, range_utf16: &Option<Range<usize>>) -> (r: Range<usize>)
        requires
            self@.wf(),
        ensures
            (r.start as int, r.end as int) == self@.surface.target(
                text_input::pair_of(*range_utf16),
            ),
            text::is_boundary(self@.surface.text, r.start as int),
            text::is_boundary(self@.surface.text, r.end as int),
    {
        match range_utf16 {
            Some(range) => self.range_from_utf16(range),
            None => match &self.marked_range {
                Some(marked) => marked.start..marked.end,
                None => self.selection.start..self.selection.end,
            },
        }
    }

    /// Replace a UTF-16 range, or the composition region, or the selection.
    pub fn replace_text_in_range(&mut self, range_utf16: Option<Range<usize>>, new_text: &str)
        requires
            old(self)@.wf(),
            old(self)@.surface.target(text_input::pair_of(range_utf16)).0
                <= old(self)@.surface.target(text_input::pair_of(range_utf16)).1,
        ensures
            final(self)@.wf(),
            final(self)@ == old(self)@.with(
                old(self)@.surface.replaced(
                    old(self)@.surface.target(text_input::pair_of(range_utf16)),
                    new_text@,
                ).forward(),
            ),
    {
        let range = self.target(&range_utf16);
        self.replace_range(range, new_text);
    }

    /// Select what lies between two offsets, with the caret at the end. Moving it there closes the
    /// run.
    pub fn select_range(&mut self, start: usize, end: usize)
        requires
            old(self)@.wf(),
            text::is_span(old(self)@.surface.text, start as int, end as int),
        ensures
            final(self)@.wf(),
            final(self)@ == old(self)@.with(
                old(self)@.surface.with_selection(start as int, end as int).forward().run_broken(),
            ),
    {
        self.selection = start..end;
        self.selection_reversed = false;
        self.history.break_run();
    }

    /// Replace what lies between two offsets, as one edit.
    pub fn replace_range(&mut self, range: Range<usize>, new_text: &str)
        requires
            old(self)@.wf(),
            text::is_span(old(self)@.surface.text, range.start as int, range.end as int),
        ensures
            final(self)@.wf(),
            final(self)@ == old(self)@.with(
                old(self)@.surface.replaced(
                    (range.start as int, range.end as int),
                    new_text@,
                ).forward(),
            ),
    {
        let ghost before = self@;
        let chars = text::chars_of(new_text);
        let typed_one_char = chars.len() == 1 && chars[0] != '\n';
        let inserted: usize = text::byte_length(new_text);
        let content = text::splice(self.content.as_str(), range.start, range.end, new_text);
        let insert_at: Option<usize> = if typed_one_char {
            Some(range.start)
        } else {
            None
        };
        let commits = match &self.marked_range {
            Some(marked) => marked.start == range.start && marked.end == range.end,
            None => false,
        };
        if commits {
            self.history.amend(insert_at, inserted);
        } else {
            if range.start != range.end {
                self.history.break_run();
            }
            let snapshot = self.snapshot();
            self.history.record(snapshot, insert_at, inserted);
        }
        let cursor: usize = range.start + inserted;
        self.line_starts = lines::compute_line_starts(content.as_str());
        self.content = content;
        self.selection = cursor..cursor;
        self.selection_reversed = false;
        self.marked_range = None;
        proof {
            surface::lemma_replace_wf(
                before.surface,
                (range.start as int, range.end as int),
                new_text@,
            );
        }
    }

    /// Replace each of a list of ranges, listed from the last to the first.
    pub fn replace_ranges(&mut self, ranges: &Vec<Range<usize>>, new_text: &str)
        requires
            old(self)@.wf(),
            surface::descends(old(self)@.surface.text, spans(ranges@)),
        ensures
            final(self)@.wf(),
            final(self)@ == old(self)@.with(
                old(self)@.surface.replaced_each(spans(ranges@), new_text@),
            ),
    {
        let ghost before = self@;
        let ghost all = spans(ranges@);
        let mut k: usize = 0;
        proof {
            assert(all.take(0) =~= Seq::empty());
            assert(before.with(before.surface) == before);
        }
        while k < ranges.len()
            invariant
                k <= ranges.len(),
                all == spans(ranges@),
                before.wf(),
                surface::descends(before.surface.text, all),
                self@.wf(),
                self@ == before.with(before.surface.replaced_each(all.take(k as int), new_text@)),
            decreases ranges.len() - k,
        {
            let ghost done = all.take(k as int);
            proof {
                assert forall|i: int| 0 <= i < done.len() implies #[trigger] done[i] == all[i] by {}
                if k > 0 {
                    assert(done.last() == all[k - 1]);
                    text::lemma_offset_of_index(before.surface.text, done.last().0);
                }
                surface::lemma_replaced_each(before.surface, done, new_text@, 0);
                assert(all[k as int] == (ranges[k as int].start as int, ranges[k as int].end as int));
                assert(text::is_boundary(before.surface.text, all[k as int].0));
                assert(text::is_boundary(before.surface.text, all[k as int].1));
                assert(all.take(k + 1).drop_last() =~= done);
                assert(all.take(k + 1).last() == all[k as int]);
            }
            self.replace_range(ranges[k].start..ranges[k].end, new_text);
            k = k + 1;
        }
        proof {
            assert(all.take(all.len() as int) =~= all);
        }
    }

    /// The line each of a list of offsets falls on.
    pub fn lines_for_offsets(&self, offsets: &Vec<u32>) -> (r: Vec<u32>)
        requires
            self@.lines_wf(),
        ensures
            r.len() == offsets.len(),
            forall|i: int|
                0 <= i < offsets.len() ==> #[trigger] r[i] == lines::line_of(
                    self@.lines,
                    offsets[i] as int,
                ),
    {
        let mut r: Vec<u32> = Vec::new();
        let mut i: usize = 0;
        while i < offsets.len()
            invariant
                self@.lines_wf(),
                i <= offsets.len(),
                r.len() == i,
                forall|k: int|
                    0 <= k < i ==> #[trigger] r[k] == lines::line_of(
                        self@.lines,
                        offsets[k] as int,
                    ),
            decreases offsets.len() - i,
        {
            let line: usize = self.line_of(offsets[i] as usize);
            proof {
                lines::lemma_line_before_its_start(self@.surface.text, line as int);
            }
            r.push(line as u32);
            i = i + 1;
        }
        r
    }

    /// Replace a range with text that an input method is still composing, and mark it. The
    /// selection it asks for is relative to that text.
    pub fn replace_and_mark_text_in_range(
        &mut self,
        range_utf16: Option<Range<usize>>,
        new_text: &str,
        new_selected_range_utf16: Option<Range<usize>>,
    )
        requires
            old(self)@.wf(),
            old(self)@.surface.target(text_input::pair_of(range_utf16)).0
                <= old(self)@.surface.target(text_input::pair_of(range_utf16)).1,
        ensures
            final(self)@.wf(),
            final(self)@ == old(self)@.with(
                old(self)@.surface.composed(
                    old(self)@.surface.target(text_input::pair_of(range_utf16)),
                    new_text@,
                    text_input::pair_of(new_selected_range_utf16),
                ),
            ),
    {
        let ghost before = self@;
        let range = self.target(&range_utf16);
        let inserted: usize = text::byte_length(new_text);
        if self.marked_range.is_none() {
            let snapshot = self.snapshot();
            self.history.record(snapshot, None, 0);
        }
        let content = text::splice(self.content.as_str(), range.start, range.end, new_text);
        self.line_starts = lines::compute_line_starts(content.as_str());
        self.content = content;
        let cursor: usize = range.start + inserted;
        self.marked_range = if new_text.is_empty() {
            None
        } else {
            Some(range.start..cursor)
        };
        self.selection = match &new_selected_range_utf16 {
            Some(wanted) => text_input::composing_selection(new_text, range.start, wanted),
            None => cursor..cursor,
        };
        proof {
            surface::lemma_compose_wf(
                before.surface,
                (range.start as int, range.end as int),
                new_text@,
                text_input::pair_of(new_selected_range_utf16),
            );
        }
    }

    pub fn backspace(&mut self)
        requires
            old(self)@.wf(),
        ensures
            final(self)@.wf(),
            ({
                let s = if old(self)@.surface.start == old(self)@.surface.end {
                    old(self)@.surface.selected_to(lines::char_before(old(self)@.surface.text, old(self)@.surface.cursor()))
                } else {
                    old(self)@.surface
                };
                final(self)@ == old(self)@.with(
                    s.replaced(s.target(None), Seq::empty()).forward(),
                )
            }),
    {
        proof {
            reveal_strlit("");
            assert(""@ =~= Seq::<char>::empty());
        }
        if self.selection.start == self.selection.end {
            let to: usize = self.prev_boundary(self.cursor());
            self.select_to(to);
        }
        self.replace_text_in_range(None, "");
    }

    pub fn delete(&mut self)
        requires
            old(self)@.wf(),
        ensures
            final(self)@.wf(),
            ({
                let s = if old(self)@.surface.start == old(self)@.surface.end {
                    old(self)@.surface.selected_to(lines::char_after(old(self)@.surface.text, old(self)@.surface.cursor()))
                } else {
                    old(self)@.surface
                };
                final(self)@ == old(self)@.with(
                    s.replaced(s.target(None), Seq::empty()).forward(),
                )
            }),
    {
        proof {
            reveal_strlit("");
            assert(""@ =~= Seq::<char>::empty());
        }
        if self.selection.start == self.selection.end {
            let to: usize = self.next_boundary(self.cursor());
            self.select_to(to);
        }
        self.replace_text_in_range(None, "");
    }

    pub fn delete_word_left(&mut self)
        requires
            old(self)@.wf(),
        ensures
            final(self)@.wf(),
            ({
                let s = if old(self)@.surface.start == old(self)@.surface.end {
                    old(self)@.surface.with_selection(
                        words::word_before(old(self)@.surface.text, old(self)@.surface.cursor()),
                        old(self)@.surface.end,
                    )
                } else {
                    old(self)@.surface
                };
                final(self)@ == old(self)@.with(
                    s.replaced(s.target(None), Seq::empty()).forward(),
                )
            }),
    {
        proof {
            reveal_strlit("");
            assert(""@ =~= Seq::<char>::empty());
        }
        if self.selection.start == self.selection.end {
            let to: usize = words::prev_word_boundary(self.content.as_str(), self.cursor());
            self.selection = to..self.selection.end;
        }
        self.replace_text_in_range(None, "");
    }

    pub fn delete_word_right(&mut self)
        requires
            old(self)@.wf(),
        ensures
            final(self)@.wf(),
            ({
                let s = if old(self)@.surface.start == old(self)@.surface.end {
                    old(self)@.surface.with_selection(
                        old(self)@.surface.start,
                        words::word_after(old(self)@.surface.text, old(self)@.surface.cursor()),
                    )
                } else {
                    old(self)@.surface
                };
                final(self)@ == old(self)@.with(
                    s.replaced(s.target(None), Seq::empty()).forward(),
                )
            }),
    {
        proof {
            reveal_strlit("");
            assert(""@ =~= Seq::<char>::empty());
        }
        if self.selection.start == self.selection.end {
            let to: usize = words::next_word_boundary(self.content.as_str(), self.cursor());
            self.selection = self.selection.start..to;
        }
        self.replace_text_in_range(None, "");
    }

    /// A newline, with the leading blanks of the current line carried over.
    pub fn newline(&mut self)
        requires
            old(self)@.wf(),
        ensures
            final(self)@.wf(),
            ({
                let s = old(self)@.surface;
                let indent = indent_of(lines::line_text(s.text, old(self)@.cursor_line()));
                final(self)@ == old(self)@.with(
                    s.replaced(s.target(None), seq!['\n'] + indent).forward(),
                )
            }),
    {
        proof {
            self.lemma_index();
        }
        let line: usize = self.line_of(self.cursor());
        let indent = leading_blanks(self.line_text(line));
        let mut insert = String::new();
        insert.push('\n');
        insert.append(indent.as_str());
        proof {
            assert(insert@ =~= seq!['\n'] + indent@);
        }
        self.replace_text_in_range(None, insert.as_str());
    }

    /// Insert what the clipboard held; its line breaks are kept.
    pub fn paste(&mut self, text: &str)
        requires
            old(self)@.wf(),
        ensures
            final(self)@.wf(),
            final(self)@ == old(self)@.with(
                old(self)@.surface.replaced(old(self)@.surface.target(None), text@).forward(),
            ),
    {
        self.replace_text_in_range(None, text);
    }

    /// What to put on the clipboard: the selected text, where there is any.
    pub fn copy(&self) -> (r: Option<String>)
        requires
            self@.wf(),
        ensures
            r is Some <==> self@.surface.start != self@.surface.end,
            r matches Some(s) ==> s@ == self@.surface.selected_text(),
    {
        if self.selection.start == self.selection.end {
            None
        } else {
            Some(
                text::slice(
                    self.content.as_str(),
                    self.selection.start,
                    self.selection.end,
                ).to_owned(),
            )
        }
    }

    /// What to put on the clipboard, taken out of the content.
    pub fn cut(&mut self) -> (r: Option<String>)
        requires
            old(self)@.wf(),
        ensures
            final(self)@.wf(),
            r is Some <==> old(self)@.surface.start != old(self)@.surface.end,
            r matches Some(s) ==> s@ == old(self)@.surface.selected_text(),
            final(self)@ == (if r is Some {
                old(self)@.with(
                    old(self)@.surface.replaced(
                        old(self)@.surface.target(None),
                        Seq::empty(),
                    ).forward(),
                )
            } else {
                old(self)@
            }),
    {
        proof {
            reveal_strlit("");
            assert(""@ =~= Seq::<char>::empty());
        }
        let taken = self.copy();
        if taken.is_some() {
            self.replace_text_in_range(None, "");
        }
        taken
    }

    // ---- mouse --------------------------------------------------------------

    /// A press at the text position `offset`: once places the caret, or extends the selection
    /// with shift held; twice selects the word; three times the line without its newline.
    pub fn on_mouse_down(&mut self, click_count: usize, shift: bool, offset: usize)
        requires
            old(self)@.wf(),
            text::is_boundary(old(self)@.surface.text, offset as int),
        ensures
            final(self)@.wf(),
            ({
                let s = old(self)@.surface;
                let word = words::word_around(s.text, offset as int);
                let line = words::line_around(s.text, offset as int);
                final(self)@ == old(self)@.with(
                    if click_count >= 3 {
                        s.with_selection(line.0, line.1).forward().run_broken()
                    } else if click_count == 2 {
                        s.with_selection(word.0, word.1).forward().run_broken()
                    } else if shift {
                        s.with_selecting(true).selected_to(offset as int)
                    } else {
                        s.with_selecting(true).collapsed_to(offset as int).forward()
                    },
                )
            }),
    {
        proof {
            text::lemma_offset_of_index(self.content@, offset as int);
        }
        if click_count >= 3 {
            self.selection = words::line_at(self.content.as_str(), offset);
            self.selection_reversed = false;
            self.history.break_run();
            return;
        }
        if click_count == 2 {
            self.selection = words::word_at(self.content.as_str(), offset);
            self.selection_reversed = false;
            self.history.break_run();
            return;
        }
        self.is_selecting = true;
        if shift {
            self.select_to(offset);
        } else {
            self.move_to(offset);
        }
    }

    pub fn on_mouse_up(&mut self)
        requires
            old(self)@.wf(),
        ensures
            final(self)@.wf(),
            final(self)@ == old(self)@.with(old(self)@.surface.with_selecting(false)),
    {
        self.is_selecting = false;
    }

    /// The pointer moved to the text position `offset`.
    pub fn on_mouse_move(&mut self, offset: usize)
        requires
            old(self)@.wf(),
            text::is_boundary(old(self)@.surface.text, offset as int),
        ensures
            final(self)@.wf(),
            final(self)@ == old(self)@.with(
                if old(self)@.surface.selecting {
                    old(self)@.surface.selected_to(offset as int)
                } else {
                    old(self)@.surface
                },
            ),
    {
        if self.is_selecting {
            self.select_to(offset);
        }
    }

    // ---- drawing ------------------------------------------------------------

    /// What a line shows: its text, or the placeholder on the first line of an empty editor.
    pub fn display_line(&self, line: usize) -> (r: &str)
        requires
            self@.lines_wf(),
            line < usize::MAX,
        ensures
            r@ == (if self@.surface.text.len() == 0 && line == 0 {
                self@.placeholder
            } else {
                lines::line_text(self@.surface.text, line as int)
            }),
    {
        if self.content.as_str().is_empty() && line == 0 {
            self.placeholder.as_str()
        } else {
            self.line_text(line)
        }
    }

    /// The runs a line is drawn in: the composition region is underlined where it touches the
    /// line.
    pub fn line_runs(&self, line: usize) -> (r: Vec<TextRun>)
        requires
            self@.lines_wf(),
            line < usize::MAX,
        ensures
            ({
                let s = self@.surface;
                let start = lines::line_start(s.text, line as int);
                let end = lines::line_end(s.text, line as int);
                let shown = if s.text.len() == 0 && line == 0 {
                    self@.placeholder
                } else {
                    lines::line_text(s.text, line as int)
                };
                r@ == (match s.marked {
                    Some(m) if m.0 < end && m.1 > start && s.text.len() > 0 => runs::marked_runs(
                        text::byte_len(shown) as int,
                        if m.0 > start {
                            m.0 - start
                        } else {
                            0
                        },
                        (if m.1 < end {
                            m.1
                        } else {
                            end
                        }) - start,
                    ),
                    _ => seq![
                        TextRun { len: text::byte_len(shown) as usize, underlined: false },
                    ],
                })
            }),
    {
        let len: usize = text::byte_length(self.display_line(line));
        let start: usize = self.line_start(line);
        let end: usize = self.line_end(line);
        proof {
            lines::lemma_line_span(self.content@, line as int);
        }
        let mut plain: Vec<TextRun> = Vec::new();
        plain.push(TextRun { len, underlined: false });
        proof {
            assert(plain@ =~= seq![TextRun { len, underlined: false }]);
        }
        match &self.marked_range {
            Some(marked) => {
                if marked.start < end && marked.end > start && !self.content.as_str().is_empty() {
                    let from: usize = if marked.start > start {
                        marked.start - start
                    } else {
                        0
                    };
                    let to: usize = if marked.end < end {
                        marked.end
                    } else {
                        end
                    };
                    runs::build_marked_runs(len, from, to - start)
                } else {
                    plain
                }
            },
            None => plain,
        }
    }

    /// The part of the selection that falls on a line. A selection that goes on past the line
    /// covers its newline too.
    pub fn selection_segment(&self, line: usize) -> (r: Option<Segment>)
        requires
            self@.wf(),
            line < usize::MAX,
        ensures
            ({
                let s = self@.surface;
                let start = lines::line_start(s.text, line as int);
                let end = lines::line_end(s.text, line as int);
                if s.start != s.end && s.start <= end && s.end >= start {
                    r matches Some(segment) && segment.from == (if s.start > start {
                        s.start - start
                    } else {
                        0
                    }) && segment.to == (if s.end < end {
                        s.end
                    } else {
                        end
                    }) - start && segment.continues == (s.end > end)
                } else {
                    r is None
                }
            }),
    {
        let start: usize = self.line_start(line);
        let end: usize = self.line_end(line);
        proof {
            lines::lemma_line_span(self.content@, line as int);
        }
        if self.selection.start == self.selection.end || self.selection.start > end
            || self.selection.end < start {
            return None;
        }
        let from: usize = if self.selection.start > start {
            self.selection.start - start
        } else {
            0
        };
        let to: usize = if self.selection.end < end {
            self.selection.end
        } else {
            end
        };
        Some(Segment { from, to: to - start, continues: self.selection.end > end })
    }

    /// Where the caret is drawn: its line and its column there, while nothing is selected.
    pub fn caret(&self) -> (r: Option<(usize, usize)>)
        requires
            self@.wf(),
        ensures
            r is Some <==> self@.surface.start == self@.surface.end,
            r matches Some(at) ==> at.0 == self@.cursor_line() && at.1 == self@.surface.cursor()
                - lines::line_start(self@.surface.text, at.0 as int),
    {
        if self.selection.start == self.selection.end {
            let cursor: usize = self.cursor();
            let line: usize = self.line_of(cursor);
            Some((line, cursor - self.line_start(line)))
        } else {
            None
        }
    }
}

/// The indent of a line is the blanks it begins with, all of them and nothing else.
pub proof fn an_indent_is_the_blanks_a_line_begins_with(line: Seq<char>)
    ensures
        indent_of(line).len() <= line.len(),
        indent_of(line) == line.take(indent_of(line).len() as int),
        forall|i: int|
            0 <= i < indent_of(line).len() ==> (#[trigger] line[i]) == ' ' || line[i] == '\t',
        indent_of(line).len() < line.len() ==> line[indent_of(line).len() as int] != ' '
            && line[indent_of(line).len() as int] != '\t',
    decreases line.len(),
{
    if line.len() == 0 || (line[0] != ' ' && line[0] != '\t') {
        assert(indent_of(line) =~= line.take(0));
    } else {
        let rest = line.drop_first();
        an_indent_is_the_blanks_a_line_begins_with(rest);
        let n = indent_of(rest).len() as int;
        assert(indent_of(line) =~= line.take(n + 1));
        assert forall|i: int| 0 <= i < n + 1 implies (#[trigger] line[i]) == ' ' || line[i]
            == '\t' by {
            if i > 0 {
                assert(rest[i - 1] == line[i]);
            }
        }
        if n < rest.len() {
            assert(rest[n] == line[n + 1]);
        }
    }
}

/// An editor opens on its text with the caret at the start and nothing to undo, and its lines are
/// always those of its text.
pub proof fn an_editor_opens_on_its_text(
    content: Seq<char>,
    placeholder: Seq<char>,
    editor: EditorView,
    surface: Surface,
)
    ensures
        fresh_editor(content, placeholder).surface.text == content,
        fresh_editor(content, placeholder).surface.start == 0,
        fresh_editor(content, placeholder).surface.end == 0,
        fresh_editor(content, placeholder).surface.undone() == fresh_editor(
            content,
            placeholder,
        ).surface,
        fresh_editor(content, placeholder).placeholder == placeholder,
        fresh_editor(content, placeholder).lines_wf(),
        editor.with(surface).surface == surface,
        editor.with(surface).lines_wf(),
        editor.with(surface).placeholder == editor.placeholder,
        editor.with(surface).with(editor.surface).surface == editor.surface,
{
}

/// The caret is on the last line that begins at or before it.
pub proof fn the_caret_is_on_its_line(editor: EditorView)
    requires
        editor.wf(),
    ensures
        0 <= editor.cursor_line() < editor.lines.len(),
        editor.lines[editor.cursor_line()] <= editor.surface.cursor(),
        editor.cursor_line() + 1 < editor.lines.len() ==> editor.lines[editor.cursor_line() + 1]
            > editor.surface.cursor(),
{
    let s = editor.surface;
    text::lemma_offset_ends(s.text);
    text::lemma_offset_of_index(s.text, s.start);
    text::lemma_offset_of_index(s.text, s.end);
    lines::line_index_is_sound(s.text);
    lines::a_place_is_on_the_last_line_that_begins_before_it(s.text, s.cursor(), 0);
    if editor.cursor_line() + 1 < editor.lines.len() {
        lines::a_place_is_on_the_last_line_that_begins_before_it(
            s.text,
            s.cursor(),
            editor.cursor_line() + 1,
        );
    }
}

} // verus!
