//! Reading the response: the indexed body, and the selection that steps through it.

use crate::body_view::{BodyKind, BodyState, BodyView, RowSource};
use crate::request_view::view::RequestView;
use vstd::prelude::*;

verus! {

/// Which edge of the view a row is brought to.
#[derive(Clone, Copy, Debug, PartialEq, Eq, Structural)]
pub enum Edge {
    Top,
    Bottom,
}

/// Nothing changed but the indexed body.
pub open spec fn only_body_changed(before: RequestView, after: RequestView) -> bool {
    after == (RequestView { body_view: after.body_view, ..before })
}

impl RequestView {
    /// The body has been indexed.
    pub fn body_indexed(&mut self, body: BodyView)
        requires
            old(self).wf(),
            body@.wf(),
        ensures
            final(self).wf(),
            *final(self) == (RequestView { body_view: Some(body), ..*old(self) }),
    {
        self.body_view = Some(body);
    }

    /// The response has been compared with the one before it; the comparisons are kept under
    /// these handles.
    pub fn compared(&mut self, diff: u64, body_diff: u64)
        ensures
            *final(self) == (RequestView {
                diff: Some(diff),
                body_diff: Some(body_diff),
                ..*old(self)
            }),
    {
        self.diff = Some(diff);
        self.body_diff = Some(body_diff);
    }

    /// The selected row of the body.
    pub fn selected_body_row(&self) -> (r: Option<u32>)
        ensures
            r == (match self.body_view {
                Some(body) => body@.selected,
                None => None,
            }),
    {
        match &self.body_view {
            Some(body) => body.selected(),
            None => None,
        }
    }

    /// Where the selected row's value is read from, to be copied.
    pub fn selected_body_value(&self) -> (r: Option<RowSource>)
        ensures
            r == (match self.body_view {
                Some(body) => match (body@.selected, body@.kind) {
                    (Some(row), BodyKind::Json(_)) => Some(RowSource::Value(row)),
                    (Some(row), BodyKind::Text(_)) => Some(RowSource::Line(row)),
                    _ => None,
                },
                None => None,
            }),
    {
        match &self.body_view {
            Some(body) => body.selected_value(),
            None => None,
        }
    }

    /// The row whose path is to be copied.
    pub fn selected_body_path(&self) -> (r: Option<u32>)
        ensures
            r == (match self.body_view {
                Some(body) => if body@.kind is Json {
                    body@.selected
                } else {
                    None
                },
                None => None,
            }),
    {
        match &self.body_view {
            Some(body) => body.selected_path(),
            None => None,
        }
    }

    /// Step the selection through the body. Returns where it then shows, and the edge to bring it
    /// to if it is not in view: the one it was stepping towards, so that the view moves by a row
    /// and not by a page.
    pub fn move_body_selection(&mut self, delta: isize) -> (r: Option<(usize, Edge)>)
        requires
            old(self).wf(),
        ensures
            final(self).wf(),
            only_body_changed(*old(self), *final(self)),
            match old(self).body_view {
                Some(body) => if body@.count() == 0 {
                    &&& r is None
                    &&& final(self).body_view matches Some(now) && now@ == body@
                } else {
                    &&& r matches Some((at, edge)) && at == body@.stepped(delta as int) && edge == (
                    if delta > 0 {
                        Edge::Bottom
                    } else {
                        Edge::Top
                    })
                    &&& final(self).body_view matches Some(now) && now@ == (BodyState {
                        selected: Some(body@.row_at(body@.stepped(delta as int))),
                        ..body@
                    })
                },
                None => r is None && final(self).body_view is None,
            },
    {
        let edge = if delta > 0 {
            Edge::Bottom
        } else {
            Edge::Top
        };
        match &mut self.body_view {
            Some(body) => match body.move_selection(delta) {
                Some(at) => Some((at, edge)),
                None => None,
            },
            None => None,
        }
    }

    /// Select the row drawn at a place. Says whether there is one.
    pub fn select_body_row_at(&mut self, visible_ix: usize) -> (r: bool)
        requires
            old(self).wf(),
        ensures
            final(self).wf(),
            only_body_changed(*old(self), *final(self)),
            match old(self).body_view {
                Some(body) => {
                    &&& r == (visible_ix < body@.count())
                    &&& final(self).body_view matches Some(now) && now@ == (if r {
                        BodyState {
                            selected: Some(body@.row_at(visible_ix as int)),
                            ..body@
                        }
                    } else {
                        body@
                    })
                },
                None => !r && final(self).body_view is None,
            },
    {
        match &mut self.body_view {
            Some(body) => body.select_visible(visible_ix).is_some(),
            None => false,
        }
    }

    pub fn selected_is_container(&self) -> (r: bool)
        requires
            self.wf(),
        ensures
            r == (match self.body_view {
                Some(body) => match body@.selected {
                    Some(row) => body@.is_container(row as int),
                    None => false,
                },
                None => false,
            }),
    {
        match &self.body_view {
            Some(body) => body.selected_is_container(),
            None => false,
        }
    }

    pub fn selected_is_folded(&self) -> (r: bool)
        requires
            self.wf(),
        ensures
            r == (match self.body_view {
                Some(body) => match body@.selected {
                    Some(row) => row < body@.folded.len() && body@.folded[row as int],
                    None => false,
                },
                None => false,
            }),
    {
        match &self.body_view {
            Some(body) => body.selected_is_folded(),
            None => false,
        }
    }

    /// Fold or unfold the selected row.
    pub fn toggle_selected_fold(&mut self)
        requires
            old(self).wf(),
        ensures
            final(self).wf(),
            only_body_changed(*old(self), *final(self)),
            match old(self).body_view {
                Some(body) => final(self).body_view matches Some(now) && now@ == (
                match body@.selected {
                    Some(row) => body@.toggled(row as int),
                    None => body@,
                }),
                None => final(self).body_view is None,
            },
    {
        if let Some(body) = &mut self.body_view {
            body.toggle_selected_fold();
        }
    }

    /// Fold or unfold everything.
    pub fn set_all_folded(&mut self, folded: bool)
        requires
            old(self).wf(),
        ensures
            final(self).wf(),
            only_body_changed(*old(self), *final(self)),
            match old(self).body_view {
                Some(body) => final(self).body_view matches Some(now) && now@ == (
                if body@.kind is Json {
                    body@.refolded(body@.all_folds(folded))
                } else {
                    body@
                }),
                None => final(self).body_view is None,
            },
    {
        if let Some(body) = &mut self.body_view {
            body.set_all_folded(folded);
        }
    }
}

} // verus!
