//! What a text surface is: its content, its selection, the region an input method is composing,
//! and its history. The single-line input and the multi-line editor both work on this model, and
//! differ only where their own contracts say so.

use crate::input::history::{HistoryView, Snapshot};
use crate::text;
use vstd::prelude::*;

verus! {

/// The state of a text surface. Offsets are byte offsets into `text`.
pub struct Surface {
    pub text: Seq<char>,
    pub start: int,
    pub end: int,
    pub reversed: bool,
    /// The region an input method is composing.
    pub marked: Option<(int, int)>,
    pub history: HistoryView,
    /// Whether a drag is extending the selection.
    pub selecting: bool,
}

/// A pair of offsets in UTF-16, as input methods give them.
pub open spec fn range_of_utf16(text: Seq<char>, range: (int, int)) -> (int, int) {
    (text::from_utf16(text, range.0), text::from_utf16(text, range.1))
}

/// A pair of byte offsets in UTF-16.
pub open spec fn range_in_utf16(text: Seq<char>, range: (int, int)) -> (int, int) {
    (text::to_utf16(text, range.0), text::to_utf16(text, range.1))
}

/// A pair with the lesser one first.
pub open spec fn in_order(range: (int, int)) -> (int, int) {
    if range.0 <= range.1 {
        range
    } else {
        (range.1, range.0)
    }
}

/// Whether an insertion counts as one typed character: exactly one, and not a newline.
pub open spec fn is_typed_char(new: Seq<char>) -> bool {
    new.len() == 1 && new[0] != '\n'
}

/// A surface that has just been given its text: the caret stands at `caret`, and nothing can be
/// undone.
pub open spec fn fresh_surface(text: Seq<char>, caret: int) -> Surface {
    Surface {
        text,
        start: caret,
        end: caret,
        reversed: false,
        marked: None,
        history: HistoryView { past: Seq::empty(), future: Seq::empty(), open_run_end: None },
        selecting: false,
    }
}

impl Surface {
    /// The selection and the marked region can slice the text, and so can every state the
    /// history holds.
    pub open spec fn wf(self) -> bool {
        &&& text::is_span(self.text, self.start, self.end)
        &&& self.marked matches Some(m) ==> text::is_span(self.text, m.0, m.1)
        &&& self.history.all_valid()
        &&& self.history.is_bounded()
    }

    /// Where the caret is: the end of the selection that moves.
    pub open spec fn cursor(self) -> int {
        if self.reversed {
            self.start
        } else {
            self.end
        }
    }

    /// The end of the selection that stays when the caret moves.
    pub open spec fn anchor(self) -> int {
        if self.reversed {
            self.end
        } else {
            self.start
        }
    }

    pub open spec fn with_selection(self, start: int, end: int) -> Surface {
        Surface { start, end, ..self }
    }

    /// The selection runs forward.
    pub open spec fn forward(self) -> Surface {
        Surface { reversed: false, ..self }
    }

    pub open spec fn with_selecting(self, selecting: bool) -> Surface {
        Surface { selecting, ..self }
    }

    /// The history's run is closed.
    pub open spec fn run_broken(self) -> Surface {
        Surface { history: self.history.broken(), ..self }
    }

    /// The selection is the empty one at `offset`, and the run is closed.
    pub open spec fn collapsed_to(self, offset: int) -> Surface {
        self.with_selection(offset, offset).run_broken()
    }

    /// The caret is at `offset` and the other end of the selection stays. The run is closed, as by
    /// any other move of the caret.
    pub open spec fn selected_to(self, offset: int) -> Surface {
        let a = if self.reversed {
            offset
        } else {
            self.start
        };
        let b = if self.reversed {
            self.end
        } else {
            offset
        };
        if b < a {
            (Surface { start: b, end: a, reversed: !self.reversed, ..self }).run_broken()
        } else {
            self.with_selection(a, b).run_broken()
        }
    }

    /// The state a history entry keeps.
    pub open spec fn snapshot(self) -> Snapshot {
        Snapshot { content: self.text, start: self.start, end: self.end, reversed: self.reversed }
    }

    /// A kept state put back.
    pub open spec fn restored(self, snapshot: Snapshot) -> Surface {
        Surface {
            text: snapshot.content,
            start: snapshot.start,
            end: snapshot.end,
            reversed: snapshot.reversed,
            marked: None,
            ..self
        }
    }

    pub open spec fn undone(self) -> Surface {
        match self.history.undo_result() {
            None => self,
            Some(s) => (Surface {
                history: self.history.undone(self.snapshot()),
                ..self
            }).restored(s),
        }
    }

    pub open spec fn redone(self) -> Surface {
        match self.history.redo_result() {
            None => self,
            Some(s) => (Surface {
                history: self.history.redone(self.snapshot()),
                ..self
            }).restored(s),
        }
    }

    /// What an edit replaces: the range asked for, else the marked region, else the selection.
    pub open spec fn target(self, range_utf16: Option<(int, int)>) -> (int, int) {
        match range_utf16 {
            Some(r) => range_of_utf16(self.text, r),
            None => match self.marked {
                Some(m) => m,
                None => (self.start, self.end),
            },
        }
    }

    /// The history after `new` replaces what lies between two offsets. What replaces the marked
    /// region commits a composition, whose entry was made as it opened. A selection that is
    /// replaced never joins the run before it, though a typed character opens one of its own.
    pub open spec fn history_after(self, range: (int, int), new: Seq<char>) -> HistoryView {
        let insert_at = if is_typed_char(new) {
            Some(range.0)
        } else {
            None
        };
        let len = text::byte_len(new) as int;
        if self.marked == Some(range) {
            self.history.amended(insert_at, len)
        } else if range.0 == range.1 {
            self.history.recorded(self.snapshot(), insert_at, len)
        } else {
            self.history.broken().recorded(self.snapshot(), insert_at, len)
        }
    }

    /// The surface after `new` replaces what lies between two offsets.
    pub open spec fn replaced(self, range: (int, int), new: Seq<char>) -> Surface {
        let cursor = range.0 + text::byte_len(new);
        Surface {
            text: text::spliced(self.text, range.0, range.1, new),
            start: cursor,
            end: cursor,
            marked: None,
            history: self.history_after(range, new),
            ..self
        }
    }

    /// The surface after `new` replaces each of a list of ranges, one edit after another.
    pub open spec fn replaced_each(self, ranges: Seq<(int, int)>, new: Seq<char>) -> Surface
        decreases ranges.len(),
    {
        if ranges.len() == 0 {
            self
        } else {
            self.replaced_each(ranges.drop_last(), new).replaced(ranges.last(), new).forward()
        }
    }

    /// The surface after an input method replaces what lies between two offsets with text that it
    /// is still composing. The selection it asks for is measured in `new`. The state is recorded
    /// only as the composition opens.
    pub open spec fn composed(
        self,
        range: (int, int),
        new: Seq<char>,
        selected_utf16: Option<(int, int)>,
    ) -> Surface {
        let content = text::spliced(self.text, range.0, range.1, new);
        let cursor = range.0 + text::byte_len(new);
        let selection = match selected_utf16 {
            Some(r) => {
                let inner = range_of_utf16(new, in_order(r));
                (inner.0 + range.0, inner.1 + range.0)
            },
            None => (cursor, cursor),
        };
        Surface {
            text: content,
            start: selection.0,
            end: selection.1,
            marked: if new.len() == 0 {
                None
            } else {
                Some((range.0, cursor))
            },
            history: if self.marked is None {
                self.history.recorded(self.snapshot(), None, 0)
            } else {
                self.history
            },
            ..self
        }
    }

    /// The text that is selected.
    pub open spec fn selected_text(self) -> Seq<char> {
        text::sliced(self.text, self.start, self.end)
    }
}

/// Ranges that slice `text`, listed from the last to the first, none reaching into another.
pub open spec fn descends(text: Seq<char>, ranges: Seq<(int, int)>) -> bool {
    &&& forall|i: int|
        0 <= i < ranges.len() ==> text::is_span(text, (#[trigger] ranges[i]).0, ranges[i].1)
    &&& forall|i: int, j: int|
        0 <= i < j < ranges.len() ==> (#[trigger] ranges[j]).1 <= (#[trigger] ranges[i]).0
}

/// `text` from character `from` on, with `new` standing where each of the ranges stood. The
/// ranges are offsets into `text`, listed from the last to the first.
pub open spec fn woven(
    text: Seq<char>,
    ranges: Seq<(int, int)>,
    new: Seq<char>,
    from: int,
) -> Seq<char>
    decreases ranges.len(),
{
    if ranges.len() == 0 {
        text.skip(from)
    } else {
        text.subrange(from, text::index_of(text, ranges.last().0)) + new + woven(
            text,
            ranges.drop_last(),
            new,
            text::index_of(text, ranges.last().1),
        )
    }
}

/// Replacing from the last range to the first is replacing all of them at once: no replacement
/// moves a range that is still to come, so the offsets found in the first text stay good.
pub proof fn replacing_backwards_is_replacing_at_once(
    s: Surface,
    ranges: Seq<(int, int)>,
    new: Seq<char>,
)
    requires
        s.wf(),
        descends(s.text, ranges),
    ensures
        s.replaced_each(ranges, new).wf(),
        s.replaced_each(ranges, new).text == woven(s.text, ranges, new, 0),
{
    lemma_replaced_each(s, ranges, new, 0);
    assert(s.text.take(0) + woven(s.text, ranges, new, 0) =~= woven(s.text, ranges, new, 0));
}

/// Nothing before the lowest range moves, and what follows `from` is as if all were replaced at
/// once.
pub proof fn lemma_replaced_each(
    s: Surface,
    ranges: Seq<(int, int)>,
    new: Seq<char>,
    from: int,
)
    requires
        s.wf(),
        descends(s.text, ranges),
        0 <= from <= s.text.len(),
        ranges.len() > 0 ==> from <= text::index_of(s.text, ranges.last().0),
    ensures
        s.replaced_each(ranges, new).wf(),
        s.replaced_each(ranges, new).text == s.text.take(from) + woven(s.text, ranges, new, from),
        forall|x: int| #[trigger]
            text::is_boundary(s.text, x) && (ranges.len() > 0 ==> x <= ranges.last().0)
                ==> text::is_boundary(s.replaced_each(ranges, new).text, x) && text::index_of(
                s.replaced_each(ranges, new).text,
                x,
            ) == text::index_of(s.text, x),
    decreases ranges.len(),
{
    if ranges.len() == 0 {
        assert(s.text.take(from) + s.text.skip(from) =~= s.text);
    } else {
        let rest = ranges.drop_last();
        let r = ranges.last();
        let i = text::index_of(s.text, r.0);
        let j = text::index_of(s.text, r.1);
        text::lemma_offset_of_index(s.text, r.0);
        text::lemma_offset_of_index(s.text, r.1);
        text::lemma_index_monotone(s.text, r.0, r.1);
        assert(ranges[ranges.len() - 1] == r);
        assert forall|k: int| 0 <= k < rest.len() implies #[trigger] rest[k] == ranges[k] by {}
        if rest.len() > 0 {
            assert(rest.last() == ranges[rest.len() - 1]);
            text::lemma_index_monotone(s.text, r.1, rest.last().0);
        }
        lemma_replaced_each(s, rest, new, j);
        let before = s.replaced_each(rest, new);
        assert(text::is_boundary(before.text, r.0) && text::is_boundary(before.text, r.1));
        lemma_replace_wf(before, r, new);
        let after = before.replaced(r, new).forward();
        assert(before.text.take(i) =~= s.text.take(i));
        assert(before.text.skip(j) =~= woven(s.text, rest, new, j));
        assert(after.text =~= s.text.take(from) + (s.text.subrange(from, i) + new + woven(
            s.text,
            rest,
            new,
            j,
        )));
        assert forall|x: int| #[trigger] text::is_boundary(s.text, x) && x <= r.0 implies
            text::is_boundary(after.text, x) && text::index_of(after.text, x) == text::index_of(
            s.text,
            x,
        ) by {
            assert(text::is_boundary(before.text, x));
            text::lemma_spliced_prefix(before.text, r.0, r.1, new, x);
        }
    }
}

pub proof fn lemma_replace_wf(s: Surface, range: (int, int), new: Seq<char>)
    requires
        s.wf(),
        text::is_boundary(s.text, range.0),
        text::is_boundary(s.text, range.1),
    ensures
        s.replaced(range, new).wf(),
{
    text::lemma_spliced(s.text, range.0, range.1, new);
}

pub proof fn lemma_compose_wf(
    s: Surface,
    range: (int, int),
    new: Seq<char>,
    selected_utf16: Option<(int, int)>,
)
    requires
        s.wf(),
        text::is_boundary(s.text, range.0),
        text::is_boundary(s.text, range.1),
    ensures
        s.composed(range, new, selected_utf16).wf(),
{
    text::lemma_spliced(s.text, range.0, range.1, new);
    if let Some(r) = selected_utf16 {
        let (a, b) = in_order(r);
        text::lemma_from_utf16_monotone(new, a, b);
        text::lemma_from_utf16_is_boundary(new, a);
        text::lemma_from_utf16_is_boundary(new, b);
        text::lemma_spliced_inside(s.text, range.0, range.1, new, text::from_utf16(new, a));
        text::lemma_spliced_inside(s.text, range.0, range.1, new, text::from_utf16(new, b));
    }
}

pub proof fn lemma_undo_wf(s: Surface)
    requires
        s.wf(),
    ensures
        s.undone().wf(),
        s.redone().wf(),
{
    crate::input::history::lemma_history_stays_valid(s.history, s.snapshot(), None, 0);
}

/// Extending a selection puts the caret where it was asked to go and leaves the other end.
pub proof fn extending_moves_only_the_caret(s: Surface, offset: int)
    requires
        s.start <= s.end,
    ensures
        s.selected_to(offset).cursor() == offset,
        s.selected_to(offset).anchor() == s.anchor(),
        s.selected_to(offset).start <= s.selected_to(offset).end,
        s.selected_to(offset).text == s.text,
        s.selected_to(offset).history == s.history.broken(),
{
}

/// An edit leaves what is before and after its range, and the caret ends up after what it put in.
pub proof fn an_edit_keeps_its_surroundings(s: Surface, range: (int, int), new: Seq<char>)
    requires
        s.wf(),
        text::is_span(s.text, range.0, range.1),
    ensures
        ({
            let t = s.replaced(range, new);
            let i = text::index_of(s.text, range.0);
            let j = text::index_of(s.text, range.1);
            &&& t.text.take(i) == s.text.take(i)
            &&& t.text.subrange(i, i + new.len()) == new
            &&& t.text.skip(i + new.len()) == s.text.skip(j)
            &&& text::index_of(t.text, t.cursor()) == i + new.len()
            &&& t.start == t.end
        }),
{
    let t = s.replaced(range, new);
    let i = text::index_of(s.text, range.0);
    let j = text::index_of(s.text, range.1);
    text::lemma_offset_of_index(s.text, range.0);
    text::lemma_offset_of_index(s.text, range.1);
    text::lemma_spliced(s.text, range.0, range.1, new);
    assert(t.text.take(i) =~= s.text.take(i));
    assert(t.text.subrange(i, i + new.len()) =~= new);
    assert(t.text.skip(i + new.len()) =~= s.text.skip(j));
}

/// Undoing an edit that began its own entry puts back the text, the selection and its direction.
/// Every edit does but a character typed on at the end of an open run, and the commit of a
/// composition.
pub proof fn undo_reverses_an_edit(s: Surface, range: (int, int), new: Seq<char>)
    requires
        s.marked != Some(range),
        is_typed_char(new) && range.0 == range.1 ==> !s.history.continues(Some(range.0)),
    ensures
        s.replaced(range, new).undone().snapshot() == s.snapshot(),
        s.replaced(range, new).undone().marked is None,
{
}

/// Redoing puts back what an undo took away.
pub proof fn redo_reverses_an_undo(s: Surface)
    requires
        s.history.past.len() > 0,
    ensures
        s.undone().redone().snapshot() == s.snapshot(),
        s.undone().redone().history == s.history.broken(),
{
    crate::input::history::redo_reverses_undo(s.history, s.snapshot());
}

/// However many keystrokes a composition takes, they make one entry: the first records what was
/// there before, and while a region is marked composing records nothing.
pub proof fn a_composition_is_one_entry(
    s: Surface,
    range: (int, int),
    new: Seq<char>,
    selected_utf16: Option<(int, int)>,
)
    ensures
        s.marked is Some ==> s.composed(range, new, selected_utf16).history == s.history,
        s.marked is None ==> s.composed(range, new, selected_utf16).history.undo_result() == Some(
            s.snapshot(),
        ),
{
}

/// One undo after the commit of a composition steps back past the whole of it, however many
/// keystrokes it took and whatever it came to.
pub proof fn a_committed_composition_is_undone_in_one_step(
    s: Surface,
    composing: Surface,
    region: (int, int),
    committed: Seq<char>,
)
    requires
        composing.history == s.history.recorded(s.snapshot(), None, 0),
        composing.marked == Some(region),
    ensures
        composing.replaced(region, committed).undone().snapshot() == s.snapshot(),
        composing.replaced(region, committed).undone().marked is None,
        (Surface { marked: None, ..composing }).undone().snapshot() == s.snapshot(),
{
}

/// Replacing a selection begins its own entry, even where the selection starts at the end of the
/// run typed before it: one undo puts the selected text back and no more.
pub proof fn replacing_a_selection_is_its_own_entry(s: Surface, new: Seq<char>)
    requires
        s.start < s.end,
        s.marked is None,
    ensures
        s.replaced((s.start, s.end), new).undone().snapshot() == s.snapshot(),
        is_typed_char(new) ==> s.replaced((s.start, s.end), new).history.continues(
            Some(s.replaced((s.start, s.end), new).cursor()),
        ),
{
}

/// Where a composition asks for its selection, it lies inside the text that is being composed.
pub proof fn a_composing_selection_lies_in_what_is_composed(
    s: Surface,
    range: (int, int),
    new: Seq<char>,
    selected_utf16: Option<(int, int)>,
)
    requires
        s.wf(),
        text::is_boundary(s.text, range.0),
        text::is_boundary(s.text, range.1),
    ensures
        ({
            let t = s.composed(range, new, selected_utf16);
            &&& t.wf()
            &&& range.0 <= t.start <= t.end <= range.0 + text::byte_len(new)
        }),
{
    lemma_compose_wf(s, range, new, selected_utf16);
    if let Some(r) = selected_utf16 {
        let (a, b) = in_order(r);
        text::lemma_from_utf16_is_boundary(new, a);
        text::lemma_from_utf16_is_boundary(new, b);
        text::lemma_offset_of_index(new, text::from_utf16(new, a));
        text::lemma_offset_of_index(new, text::from_utf16(new, b));
    }
}

/// Moving the caret selects nothing, leaves the text, and ends the run that was being typed.
pub proof fn a_moved_caret_selects_nothing(s: Surface, offset: int)
    ensures
        s.collapsed_to(offset).cursor() == offset,
        s.collapsed_to(offset).anchor() == offset,
        s.collapsed_to(offset).text == s.text,
        s.collapsed_to(offset).marked == s.marked,
        s.collapsed_to(offset).history.past == s.history.past,
        s.collapsed_to(offset).history.future == s.history.future,
        !s.collapsed_to(offset).history.continues(Some(offset)),
{
}

/// A surface that has just been given its text has nothing to undo or redo, nothing selected and
/// nothing marked.
pub proof fn a_fresh_surface_has_no_past(content: Seq<char>, caret: int)
    ensures
        fresh_surface(content, caret).text == content,
        fresh_surface(content, caret).cursor() == caret,
        fresh_surface(content, caret).anchor() == caret,
        fresh_surface(content, caret).marked is None,
        !fresh_surface(content, caret).selecting,
        fresh_surface(content, caret).undone() == fresh_surface(content, caret),
        fresh_surface(content, caret).redone() == fresh_surface(content, caret),
{
}

/// With nothing to undo or to redo, neither changes anything.
pub proof fn nothing_to_undo_changes_nothing(s: Surface)
    ensures
        s.history.past.len() == 0 ==> s.undone() == s,
        s.history.future.len() == 0 ==> s.redone() == s,
        s.history.past.len() > 0 ==> s.undone().snapshot() == s.history.past[s.history.past.len()
            - 1],
        s.history.future.len() > 0 ==> s.redone().snapshot()
            == s.history.future[s.history.future.len() - 1],
{
}

/// What is being composed stands in the text where it was put and is marked whole, the text around
/// it is as after an edit, and without a selection of its own the caret follows it. Composing
/// nothing marks nothing.
pub proof fn what_is_composed_is_marked(
    s: Surface,
    range: (int, int),
    new: Seq<char>,
    selected_utf16: Option<(int, int)>,
)
    requires
        s.wf(),
        text::is_span(s.text, range.0, range.1),
    ensures
        ({
            let t = s.composed(range, new, selected_utf16);
            &&& t.text == s.replaced(range, new).text
            &&& t.marked is None <==> new.len() == 0
            &&& t.marked matches Some(m) ==> m.0 == range.0 && text::sliced(t.text, m.0, m.1) == new
            &&& selected_utf16 is None ==> t.start == t.end && t.end == range.0 + text::byte_len(new)
            &&& selected_utf16 matches Some(r) ==> {
                let low = if r.0 <= r.1 {
                    r.0
                } else {
                    r.1
                };
                let high = if r.0 <= r.1 {
                    r.1
                } else {
                    r.0
                };
                t.start == range.0 + text::from_utf16(new, low) && t.end == range.0
                    + text::from_utf16(new, high)
            }
        }),
{
    let t = s.composed(range, new, selected_utf16);
    an_edit_keeps_its_surroundings(s, range, new);
    let i = text::index_of(s.text, range.0);
    text::lemma_spliced(s.text, range.0, range.1, new);
    if new.len() > 0 {
        text::lemma_offset_of_index(s.text, range.0);
        text::lemma_spliced_prefix(s.text, range.0, range.1, new, range.0);
        assert(text::index_of(t.text, range.0) == i);
        assert(text::index_of(t.text, range.0 + text::byte_len(new)) == i + new.len());
    }
}

/// An edit goes to the range that is asked for, else to what is being composed, else to the
/// selection.
pub proof fn an_edit_goes_where_it_is_asked_to(s: Surface, asked: (int, int))
    ensures
        s.target(Some(asked)) == (
            text::from_utf16(s.text, asked.0),
            text::from_utf16(s.text, asked.1),
        ),
        s.marked matches Some(region) ==> s.target(None) == region,
        s.marked is None ==> s.target(None) == (s.start, s.end),
{
}

/// One character typed on from where the last one ended joins its entry; a newline, a paste of
/// several characters and a deletion each make an entry of their own, wherever they come.
pub proof fn only_single_characters_are_typed_on(s: Surface, new: Seq<char>)
    requires
        s.start == s.end,
        s.marked is None,
    ensures
        new.len() != 1 || new[0] == '\n' ==> s.replaced((s.start, s.end), new).undone().snapshot()
            == s.snapshot(),
        new.len() != 1 || new[0] == '\n' ==> s.replaced(
            (s.start, s.end),
            new,
        ).history.open_run_end is None,
        new.len() == 1 && new[0] != '\n' && s.history.open_run_end == Some(s.start) ==> s.replaced(
            (s.start, s.end),
            new,
        ).history.past == s.history.past,
        new.len() == 1 && new[0] != '\n' ==> s.replaced(
            (s.start, s.end),
            new,
        ).history.open_run_end == Some(s.start + text::byte_len(new)),
{
}

/// A fresh surface's selection runs forward.
pub proof fn a_fresh_selection_runs_forward(content: Seq<char>, caret: int)
    ensures
        !fresh_surface(content, caret).reversed,
{
}

/// A selection that is taken back to where it began keeps its direction, and one that crosses it
/// turns round.
pub proof fn a_selection_turns_where_it_crosses_its_anchor(s: Surface, offset: int)
    ensures
        offset == s.anchor() ==> s.selected_to(offset).reversed == s.reversed,
        offset < s.anchor() ==> s.selected_to(offset).reversed,
        offset > s.anchor() ==> !s.selected_to(offset).reversed,
{
}

} // verus!
