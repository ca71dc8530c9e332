//! Undo and redo for one text surface.
//!
//! A run of typed characters collapses into a single entry, and the run is closed by anything
//! that is not a contiguous single-character insertion: a deletion, a paste, a newline, or moving
//! the caret. There is deliberately no clock in the rule.

use crate::text;
use core::ops::Range;
use vstd::prelude::*;

verus! {

/// How many entries of undo each text surface keeps.
pub const MAX_HISTORY: usize = 200;

/// One point in a text surface's history: the content and where the caret was.
///
/// The selection is part of the snapshot, so a second undo lands somewhere predictable.
#[derive(Debug, PartialEq)]
pub struct EditSnapshot {
    pub content: String,
    pub selection: Range<usize>,
    pub reversed: bool,
}

impl Clone for EditSnapshot {
    fn clone(&self) -> (r: EditSnapshot)
        ensures
            r == *self,
    {
        EditSnapshot {
            content: self.content.clone(),
            selection: self.selection.start..self.selection.end,
            reversed: self.reversed,
        }
    }
}

/// What a snapshot holds.
pub struct Snapshot {
    pub content: Seq<char>,
    pub start: int,
    pub end: int,
    pub reversed: bool,
}

impl Snapshot {
    /// Whether the selection can slice the content.
    pub open spec fn is_valid(self) -> bool {
        text::is_span(self.content, self.start, self.end)
    }
}

impl View for EditSnapshot {
    type V = Snapshot;

    open spec fn view(&self) -> Snapshot {
        Snapshot {
            content: self.content@,
            start: self.selection.start as int,
            end: self.selection.end as int,
            reversed: self.reversed,
        }
    }
}

/// What an optional snapshot holds.
pub open spec fn opened(snapshot: Option<EditSnapshot>) -> Option<Snapshot> {
    match snapshot {
        Some(s) => Some(s@),
        None => None,
    }
}

/// What a history holds: the states behind, the states ahead, and the byte offset just past the
/// last coalescable insertion while its run is still open.
pub struct HistoryView {
    pub past: Seq<Snapshot>,
    pub future: Seq<Snapshot>,
    pub open_run_end: Option<int>,
}

/// `past` with its oldest entry dropped where it is longer than a history may be.
pub open spec fn capped(past: Seq<Snapshot>) -> Seq<Snapshot> {
    if past.len() > MAX_HISTORY {
        past.drop_first()
    } else {
        past
    }
}

impl HistoryView {
    /// Whether an insertion at `insert_at` belongs to the run that is still open.
    pub open spec fn continues(self, insert_at: Option<int>) -> bool {
        insert_at is Some && self.open_run_end == insert_at
    }

    /// The history after an edit is recorded.
    pub open spec fn recorded(
        self,
        before: Snapshot,
        insert_at: Option<int>,
        inserted_len: int,
    ) -> HistoryView {
        HistoryView {
            past: if self.continues(insert_at) {
                self.past
            } else {
                capped(self.past.push(before))
            },
            ..self.amended(insert_at, inserted_len)
        }
    }

    /// The history after an edit that belongs to the entry that is already there.
    pub open spec fn amended(self, insert_at: Option<int>, inserted_len: int) -> HistoryView {
        HistoryView {
            past: self.past,
            future: Seq::empty(),
            open_run_end: match insert_at {
                Some(at) => Some(at + inserted_len),
                None => None,
            },
        }
    }

    /// The history with its run closed.
    pub open spec fn broken(self) -> HistoryView {
        HistoryView { open_run_end: None, ..self }
    }

    /// The history after an undo, which leaves an empty past alone.
    pub open spec fn undone(self, current: Snapshot) -> HistoryView {
        if self.past.len() == 0 {
            self
        } else {
            HistoryView {
                past: self.past.drop_last(),
                future: self.future.push(current),
                open_run_end: None,
            }
        }
    }

    /// The history after a redo, which leaves an empty future alone.
    pub open spec fn redone(self, current: Snapshot) -> HistoryView {
        if self.future.len() == 0 {
            self
        } else {
            HistoryView {
                past: self.past.push(current),
                future: self.future.drop_last(),
                open_run_end: None,
            }
        }
    }

    /// What an undo gives back.
    pub open spec fn undo_result(self) -> Option<Snapshot> {
        if self.past.len() == 0 {
            None
        } else {
            Some(self.past.last())
        }
    }

    /// What a redo gives back.
    pub open spec fn redo_result(self) -> Option<Snapshot> {
        if self.future.len() == 0 {
            None
        } else {
            Some(self.future.last())
        }
    }

    /// No more states than the history may keep.
    pub open spec fn is_bounded(self) -> bool {
        self.past.len() + self.future.len() <= MAX_HISTORY
    }

    /// Every state held can be put back.
    pub open spec fn all_valid(self) -> bool {
        &&& forall|i: int| 0 <= i < self.past.len() ==> #[trigger] self.past[i].is_valid()
        &&& forall|i: int| 0 <= i < self.future.len() ==> #[trigger] self.future[i].is_valid()
    }

    /// The history after a run of insertions, each beginning where the one before it ended.
    pub open spec fn typed(self, at: int, run: Seq<(Snapshot, int)>) -> HistoryView
        decreases run.len(),
    {
        if run.len() == 0 {
            self
        } else {
            self.recorded(run[0].0, Some(at), run[0].1).typed(at + run[0].1, run.drop_first())
        }
    }
}

/// Undo and redo for one text surface. Each surface has its own, so undoing in one cannot reach
/// into another.
pub struct History {
    past: Vec<EditSnapshot>,
    future: Vec<EditSnapshot>,
    open_run_end: Option<usize>,
}

impl View for History {
    type V = HistoryView;

    closed spec fn view(&self) -> HistoryView {
        HistoryView {
            past: self.past@.map_values(|s: EditSnapshot| s@),
            future: self.future@.map_values(|s: EditSnapshot| s@),
            open_run_end: match self.open_run_end {
                Some(end) => Some(end as int),
                None => None,
            },
        }
    }
}

impl Default for History {
    fn default() -> (h: History)
        ensures
            h@ == (HistoryView { past: Seq::empty(), future: Seq::empty(), open_run_end: None }),
    {
        let h = History { past: Vec::new(), future: Vec::new(), open_run_end: None };
        proof {
            assert(h@.past =~= Seq::empty());
            assert(h@.future =~= Seq::empty());
        }
        h
    }
}

impl History {
    /// Record the state before an edit is applied.
    ///
    /// `insert_at` is an offset only for a typed character; anything else always begins a new
    /// entry. Any new edit invalidates the redo branch.
    pub fn record(&mut self, before: EditSnapshot, insert_at: Option<usize>, inserted_len: usize)
        requires
            insert_at matches Some(at) ==> at + inserted_len <= usize::MAX,
        ensures
            final(self)@ == old(self)@.recorded(
                before@,
                match insert_at {
                    Some(at) => Some(at as int),
                    None => None,
                },
                inserted_len as int,
            ),
    {
        self.future.clear();
        let continues_run = match (self.open_run_end, insert_at) {
            (Some(end), Some(at)) => end == at,
            _ => false,
        };
        if !continues_run {
            self.past.push(before);
            proof {
                assert(self@.past =~= old(self)@.past.push(before@));
            }
            if self.past.len() > MAX_HISTORY {
                let _oldest = self.past.remove(0);
                proof {
                    assert(self@.past =~= old(self)@.past.push(before@).drop_first());
                }
            }
        }
        proof {
            assert(self@.future =~= Seq::empty());
        }
        self.open_run_end = match insert_at {
            Some(at) => Some(at + inserted_len),
            None => None,
        };
    }

    /// Take in an edit that belongs to the entry that is already there, so that one undo takes
    /// both back. The redo branch goes as with any other edit.
    pub fn amend(&mut self, insert_at: Option<usize>, inserted_len: usize)
        requires
            insert_at matches Some(at) ==> at + inserted_len <= usize::MAX,
        ensures
            final(self)@ == old(self)@.amended(
                match insert_at {
                    Some(at) => Some(at as int),
                    None => None,
                },
                inserted_len as int,
            ),
    {
        self.future.clear();
        proof {
            assert(self@.future =~= Seq::empty());
        }
        self.open_run_end = match insert_at {
            Some(at) => Some(at + inserted_len),
            None => None,
        };
    }

    /// Close the current run, so the next insertion starts its own entry.
    pub fn break_run(&mut self)
        ensures
            final(self)@ == old(self)@.broken(),
    {
        self.open_run_end = None;
    }

    /// Step back to the last recorded state, keeping `current` to come forward to.
    pub fn undo(&mut self, current: EditSnapshot) -> (r: Option<EditSnapshot>)
        ensures
            opened(r) == old(self)@.undo_result(),
            final(self)@ == old(self)@.undone(current@),
    {
        match self.past.pop() {
            None => None,
            Some(previous) => {
                self.future.push(current);
                self.open_run_end = None;
                proof {
                    assert(self@.past =~= old(self)@.past.drop_last());
                    assert(self@.future =~= old(self)@.future.push(current@));
                }
                Some(previous)
            },
        }
    }

    /// Step forward to the last state undone, keeping `current` to come back to.
    pub fn redo(&mut self, current: EditSnapshot) -> (r: Option<EditSnapshot>)
        ensures
            opened(r) == old(self)@.redo_result(),
            final(self)@ == old(self)@.redone(current@),
    {
        match self.future.pop() {
            None => None,
            Some(next) => {
                self.past.push(current);
                self.open_run_end = None;
                proof {
                    assert(self@.future =~= old(self)@.future.drop_last());
                    assert(self@.past =~= old(self)@.past.push(current@));
                }
                Some(next)
            },
        }
    }
}

/// An edit that starts its own entry is undone to the state recorded before it.
pub proof fn undo_restores_what_was_recorded(
    h: HistoryView,
    before: Snapshot,
    insert_at: Option<int>,
    inserted_len: int,
)
    requires
        !h.continues(insert_at),
    ensures
        h.recorded(before, insert_at, inserted_len).undo_result() == Some(before),
{
}

/// A redo right after an undo comes back to where the undo left, and the history is as it was but
/// for the run, which is closed.
pub proof fn redo_reverses_undo(h: HistoryView, current: Snapshot)
    requires
        h.past.len() > 0,
    ensures
        h.undone(current).redo_result() == Some(current),
        h.undone(current).redone(h.undo_result()->0) == h.broken(),
{
    assert(h.past.drop_last().push(h.past.last()) =~= h.past);
    assert(h.future.push(current).drop_last() =~= h.future);
}

/// An undo right after a redo comes back to where the redo left.
pub proof fn undo_reverses_redo(h: HistoryView, current: Snapshot)
    requires
        h.future.len() > 0,
    ensures
        h.redone(current).undo_result() == Some(current),
        h.redone(current).undone(h.redo_result()->0) == h.broken(),
{
    assert(h.future.drop_last().push(h.future.last()) =~= h.future);
    assert(h.past.push(current).drop_last() =~= h.past);
}

/// After a new edit there is nothing to redo.
pub proof fn a_new_edit_discards_the_redo_branch(
    h: HistoryView,
    before: Snapshot,
    insert_at: Option<int>,
    inserted_len: int,
)
    ensures
        h.recorded(before, insert_at, inserted_len).redo_result() is None,
        h.amended(insert_at, inserted_len).redo_result() is None,
{
}

/// A run of contiguous insertions, however long, adds one entry: the state before the first.
pub proof fn a_typed_run_is_one_entry(h: HistoryView, at: int, run: Seq<(Snapshot, int)>)
    requires
        run.len() > 0,
        !h.continues(Some(at)),
    ensures
        h.typed(at, run).past == capped(h.past.push(run[0].0)),
        h.typed(at, run).undo_result() == Some(run[0].0),
{
    let first = h.recorded(run[0].0, Some(at), run[0].1);
    lemma_open_run_keeps_past(first, at + run[0].1, run.drop_first());
}

proof fn lemma_open_run_keeps_past(h: HistoryView, at: int, run: Seq<(Snapshot, int)>)
    requires
        h.open_run_end == Some(at),
    ensures
        h.typed(at, run).past == h.past,
    decreases run.len(),
{
    if run.len() > 0 {
        lemma_open_run_keeps_past(
            h.recorded(run[0].0, Some(at), run[0].1),
            at + run[0].1,
            run.drop_first(),
        );
    }
}

/// Once the run is closed, by a caret move, an undo or a redo, the next edit is its own entry;
/// and a deletion or a paste always is.
pub proof fn a_closed_run_does_not_coalesce(h: HistoryView, insert_at: Option<int>)
    ensures
        !h.broken().continues(insert_at),
        !h.continues(None),
{
}

/// No operation lets a history hold more states than it may.
pub proof fn histories_stay_bounded(
    h: HistoryView,
    snapshot: Snapshot,
    insert_at: Option<int>,
    inserted_len: int,
)
    requires
        h.is_bounded(),
    ensures
        h.recorded(snapshot, insert_at, inserted_len).is_bounded(),
        h.amended(insert_at, inserted_len).is_bounded(),
        h.broken().is_bounded(),
        h.undone(snapshot).is_bounded(),
        h.redone(snapshot).is_bounded(),
{
}

/// A history that only ever records states it could put back holds only such states.
pub proof fn lemma_history_stays_valid(
    h: HistoryView,
    snapshot: Snapshot,
    insert_at: Option<int>,
    inserted_len: int,
)
    requires
        h.all_valid(),
        snapshot.is_valid(),
    ensures
        h.recorded(snapshot, insert_at, inserted_len).all_valid(),
        h.amended(insert_at, inserted_len).all_valid(),
        h.broken().all_valid(),
        h.undone(snapshot).all_valid(),
        h.redone(snapshot).all_valid(),
        h.undo_result() matches Some(s) ==> s.is_valid(),
        h.redo_result() matches Some(s) ==> s.is_valid(),
{
}

/// Recording an edit forgets nothing but, where the history is full, its oldest state: the newer
/// ones stay as they were and in order.
pub proof fn only_the_oldest_state_is_forgotten(
    h: HistoryView,
    before: Snapshot,
    insert_at: Option<int>,
    inserted_len: int,
    k: int,
)
    requires
        0 <= k < h.past.len(),
    ensures
        ({
            let after = h.recorded(before, insert_at, inserted_len);
            let forgotten = if h.past.len() < MAX_HISTORY || h.continues(insert_at) {
                0int
            } else {
                1int
            };
            &&& after.past.len() == h.past.len() - forgotten + (if h.continues(insert_at) {
                0int
            } else {
                1int
            })
            &&& k >= forgotten ==> after.past[k - forgotten] == h.past[k]
        }),
{
}

/// A character typed just past the last one joins its entry; one typed anywhere else, and anything
/// that is not one typed character, begins its own.
pub proof fn only_what_is_typed_on_joins_an_entry(
    h: HistoryView,
    first: Snapshot,
    at: int,
    len: int,
    second: Snapshot,
    next: Option<int>,
    next_len: int,
)
    ensures
        ({
            let typed = h.recorded(first, Some(at), len);
            let then = typed.recorded(second, next, next_len);
            &&& next == Some(at + len) ==> then.past == typed.past
            &&& next != Some(at + len) ==> then.undo_result() == Some(second)
            &&& typed.broken().recorded(second, next, next_len).undo_result() == Some(second)
            &&& h.recorded(first, None, len).recorded(second, next, next_len).undo_result() == Some(
                second,
            )
            &&& h.amended(Some(at), len).recorded(second, Some(at + len), next_len).past == h.past
        }),
{
}

/// Undoing goes back through the states in the order they were recorded, newest first, and redoing
/// goes forward through the ones undone; at either end nothing changes.
pub proof fn states_come_back_in_order(h: HistoryView, current: Snapshot)
    ensures
        h.past.len() == 0 ==> h.undo_result() is None && h.undone(current) == h,
        h.future.len() == 0 ==> h.redo_result() is None && h.redone(current) == h,
        h.past.len() > 0 ==> h.undo_result() == Some(h.past[h.past.len() - 1]),
        h.past.len() > 1 ==> h.undone(current).undo_result() == Some(h.past[h.past.len() - 2]),
        h.future.len() > 0 ==> h.redo_result() == Some(h.future[h.future.len() - 1]),
        h.future.len() > 1 ==> h.redone(current).redo_result() == Some(
            h.future[h.future.len() - 2],
        ),
        h.past.len() > 0 ==> h.undone(current).past.len() + 1 == h.past.len(),
        h.broken().past == h.past && h.broken().future == h.future,
{
}

} // verus!
