//! Finding: the bar over the response, and the bar over what is being sent, which also replaces.

use crate::body_view;
use crate::input::editor;
use crate::input::editor::EditorView;
use crate::input::lines;
use crate::input::text_input::InputView;
use crate::kinds::{KindEditor, KindEditorView};
use crate::lists;
use crate::request_view::search;
use crate::request_view::search::{Hits, TextSearch};
use crate::request_view::tabs::{RequestTab, ResponseView};
use crate::request_view::view::RequestView;
use crate::strings;
use crate::text;
use core::ops::Range;
use vstd::prelude::*;
use vstd::string::*;

verus! {

/// An input with all of its text selected.
pub open spec fn all_selected(input: InputView) -> InputView {
    input.with(
        input.surface.collapsed_to(0).selected_to(text::byte_len(input.surface.text) as int),
    )
}

/// A find bar with all of its query selected.
pub open spec fn is_refocused(before: TextSearch, after: TextSearch) -> bool {
    &&& after == (TextSearch { query: after.query, ..before })
    &&& after.query@ == all_selected(before.query@)
}

/// Where the current match of a bar lies, if there is one.
pub open spec fn current_span(search: TextSearch) -> Option<(int, int)> {
    if search.current < search.offsets.len() {
        let start = search.offsets[search.current as int] as int;
        Some((start, start + text::byte_len(search.query@.surface.text)))
    } else {
        None
    }
}

/// The editors with a span of the main text surface selected, where it is one.
pub open spec fn with_span_selected(kind: KindEditorView, span: (int, int)) -> KindEditorView {
    match kind.primary() {
        Some(editor) => if text::is_span(editor.surface.text, span.0, span.1) {
            kind.with_primary(
                editor.with(
                    editor.surface.with_selection(span.0, span.1).forward().run_broken(),
                ),
            )
        } else {
            kind
        },
        None => kind,
    }
}

/// The editors once the current match of the bar is selected.
pub open spec fn with_match_selected(
    kind: KindEditorView,
    search: Option<TextSearch>,
) -> KindEditorView {
    match search {
        Some(search) => match current_span(search) {
            Some(span) => with_span_selected(kind, span),
            None => kind,
        },
        None => kind,
    }
}

/// Whether matches of `len` bytes still fit a text: each slices it, and none reaches into the
/// next.
pub open spec fn matches_fit(text: Seq<char>, offsets: Seq<u32>, len: int) -> bool {
    &&& forall|i: int|
        0 <= i < offsets.len() ==> text::is_span(text, #[trigger] offsets[i] as int, offsets[i] + len)
    &&& forall|i: int, j: int|
        0 <= i < j < offsets.len() ==> #[trigger] offsets[i] + len <= #[trigger] offsets[j]
}

/// The matches as ranges, from the last to the first.
pub open spec fn backwards(offsets: Seq<u32>, len: int) -> Seq<(int, int)> {
    Seq::new(
        offsets.len(),
        |i: int|
            (
                offsets[offsets.len() - 1 - i] as int,
                offsets[offsets.len() - 1 - i] + len,
            ),
    )
}

/// Whether two offsets slice `content`.
fn is_span_of(content: &str, start: usize, end: usize) -> (r: bool)
    ensures
        r == text::is_span(content@, start as int, end as int),
{
    proof {
        text::lemma_boundary_is_char_boundary(content@, start as int);
        text::lemma_boundary_is_char_boundary(content@, end as int);
    }
    start <= end && content.is_char_boundary(start) && content.is_char_boundary(end)
}

/// The matches of `len` bytes as ranges, from the last to the first, where they still fit.
fn ranges_backwards(content: &str, offsets: &Vec<u32>, len: usize) -> (r: Option<
    Vec<Range<usize>>,
>)
    ensures
        r is Some <==> matches_fit(content@, offsets@, len as int),
        r matches Some(ranges) ==> editor::spans(ranges@) == backwards(offsets@, len as int),
{
    let n: usize = offsets.len();
    let mut ranges: Vec<Range<usize>> = Vec::new();
    let mut k: usize = 0;
    while k < n
        invariant
            k <= n,
            n == offsets.len(),
            ranges.len() == k,
            forall|i: int|
                n - k <= i < n ==> text::is_span(
                    content@,
                    #[trigger] offsets@[i] as int,
                    offsets@[i] + len,
                ),
            forall|i: int, j: int|
                n - k <= i < j < n ==> #[trigger] offsets@[i] + len <= #[trigger] offsets@[j],
            forall|i: int|
                0 <= i < k ==> (#[trigger] ranges@[i]).start == offsets@[n - 1 - i]
                    && ranges@[i].end == offsets@[n - 1 - i] + len,
        decreases n - k,
    {
        let ix: usize = n - 1 - k;
        let start: usize = offsets[ix] as usize;
        let total: usize = text::byte_length(content);
        if len > total || start > total - len {
            proof {
                if text::is_span(content@, offsets@[ix as int] as int, offsets@[ix as int] + len) {
                    text::lemma_offset_of_index(content@, offsets@[ix as int] + len);
                }
            }
            return None;
        }
        let end: usize = start + len;
        if !is_span_of(content, start, end) {
            return None;
        }
        if k > 0 && end > offsets[ix + 1] as usize {
            proof {
                assert(offsets@[ix as int] + len > offsets@[ix + 1]);
            }
            return None;
        }
        ranges.push(start..end);
        k = k + 1;
        proof {
            assert forall|i: int, j: int| n - k <= i < j < n implies #[trigger] offsets@[i] + len
                <= #[trigger] offsets@[j] by {
                if i == ix && j > ix + 1 {
                    assert(offsets@[ix as int] + len <= offsets@[ix + 1]);
                    assert(offsets@[ix + 1] + len <= offsets@[j]);
                }
            }
        }
    }
    proof {
        assert(editor::spans(ranges@) =~= backwards(offsets@, len as int));
    }
    Some(ranges)
}

proof fn lemma_backwards_descends(text: Seq<char>, offsets: Seq<u32>, len: int)
    requires
        matches_fit(text, offsets, len),
    ensures
        crate::input::surface::descends(text, backwards(offsets, len)),
{
    let ranges = backwards(offsets, len);
    assert forall|i: int| 0 <= i < ranges.len() implies text::is_span(
        text,
        (#[trigger] ranges[i]).0,
        ranges[i].1,
    ) by {
        assert(text::is_span(
            text,
            offsets[offsets.len() - 1 - i] as int,
            offsets[offsets.len() - 1 - i] + len,
        ));
    }
    assert forall|i: int, j: int| 0 <= i < j < ranges.len() implies (#[trigger] ranges[j]).1
        <= (#[trigger] ranges[i]).0 by {
        let a = offsets.len() - 1 - j;
        let b = offsets.len() - 1 - i;
        assert(offsets[a] + len <= offsets[b]);
    }
}

impl RequestView {
    // ---- over the response ---------------------------------------------------

    /// Open the bar over the response, or go back to it. What is searched is the body, so that is
    /// what shows.
    pub fn open_search(&mut self)
        requires
            old(self).wf(),
        ensures
            final(self).wf(),
            *final(self) == (RequestView {
                response_view: ResponseView::Body,
                search: final(self).search,
                ..*old(self)
            }),
            final(self).search is Some,
            old(self).search matches Some(before) ==> is_refocused(before, final(self).search->0),
            old(self).search is None ==> {
                let fresh = final(self).search->0;
                &&& fresh.query@ == all_selected(search::response_query())
                &&& fresh.is_unscanned()
                &&& fresh.replace is None
            },
    {
        self.response_view = ResponseView::Body;
        let mut search = match self.search.take() {
            Some(search) => search,
            None => TextSearch::over_response(),
        };
        search.query.select_all_text();
        self.search = Some(search);
    }

    /// Close the bar. Says whether it was open.
    pub fn close_search(&mut self) -> (closed: bool)
        ensures
            *final(self) == (RequestView { search: None, ..*old(self) }),
            closed == (old(self).search is Some),
    {
        let closed = self.search.is_some();
        self.search = None;
        closed
    }

    pub fn is_searching(&self) -> (r: bool)
        ensures
            r == (self.search is Some),
    {
        self.search.is_some()
    }

    /// What to look for in the response, while the bar is open.
    pub fn search_query(&self) -> (r: Option<String>)
        ensures
            r is Some <==> self.search is Some,
            r matches Some(query) ==> query@ == self.search->0.query@.surface.text,
    {
        match &self.search {
            Some(search) => Some(search.query.text().to_owned()),
            None => None,
        }
    }

    /// Take what a scan of the response found, and go to the first match. `rows` are the rows the
    /// matches fall in. Returns where the match then shows.
    pub fn apply_search(&mut self, hits: Hits, rows: Vec<u32>) -> (at: Option<usize>)
        requires
            old(self).wf(),
        ensures
            final(self).wf(),
            match old(self).search {
                None => *final(self) == *old(self) && at is None,
                Some(before) => {
                    let found = TextSearch {
                        offsets: hits.offsets,
                        rows,
                        truncated: hits.truncated,
                        current: 0,
                        current_clipped: false,
                        resume: None,
                        ..before
                    };
                    &&& *final(self) == (RequestView {
                        search: Some(found),
                        body_view: final(self).body_view,
                        ..*old(self)
                    })
                    &&& is_match_revealed(*old(self), found, *final(self), at)
                },
            },
    {
        match &mut self.search {
            Some(search) => {
                search.resume = None;
                search.found(hits, rows);
            },
            None => {
                return None;
            },
        }
        self.reveal_current_match()
    }

    /// Go to another match, going round at both ends. Returns where it then shows.
    pub fn step_search(&mut self, delta: isize) -> (at: Option<usize>)
        requires
            old(self).wf(),
        ensures
            final(self).wf(),
            match old(self).search {
                None => *final(self) == *old(self) && at is None,
                Some(before) => if before.offsets.len() == 0 {
                    *final(self) == *old(self) && at is None
                } else {
                    let stepped = TextSearch {
                        current: lists::wrapped(
                            before.current as int,
                            delta as int,
                            before.offsets.len() as int,
                        ) as usize,
                        ..before
                    };
                    &&& *final(self) == (RequestView {
                        search: Some(stepped),
                        body_view: final(self).body_view,
                        ..*old(self)
                    })
                    &&& is_match_revealed(*old(self), stepped, *final(self), at)
                },
            },
    {
        let stepped = match &mut self.search {
            Some(search) => search.step(delta),
            None => false,
        };
        if !stepped {
            return None;
        }
        self.reveal_current_match()
    }

    /// Unfold the body so the current match can be seen. Returns where it then shows.
    fn reveal_current_match(&mut self) -> (at: Option<usize>)
        requires
            old(self).wf(),
            old(self).search is Some,
        ensures
            final(self).wf(),
            *final(self) == (RequestView { body_view: final(self).body_view, ..*old(self) }),
            is_match_revealed(*old(self), old(self).search->0, *final(self), at),
    {
        let row: Option<u32> = match &self.search {
            Some(search) => if search.current_offset().is_some() {
                search.current_row()
            } else {
                None
            },
            None => None,
        };
        match (row, &mut self.body_view) {
            (Some(row), Some(body)) => body.reveal_row(row as usize),
            _ => None,
        }
    }

    /// Record whether the current match lies past what its row displays.
    pub fn set_match_clipped(&mut self, clipped: bool)
        requires
            old(self).wf(),
        ensures
            final(self).wf(),
            *final(self) == (RequestView {
                search: match old(self).search {
                    Some(search) => Some(TextSearch { current_clipped: clipped, ..search }),
                    None => None,
                },
                ..*old(self)
            }),
    {
        if let Some(search) = &mut self.search {
            search.current_clipped = clipped;
        }
    }

    /// The row of the current match, while the bar is open.
    pub fn current_match_row(&self) -> (r: Option<u32>)
        ensures
            r == (match self.search {
                Some(search) => if search.current < search.rows.len() {
                    Some(search.rows[search.current as int])
                } else {
                    None
                },
                None => None,
            }),
    {
        match &self.search {
            Some(search) => search.current_row(),
            None => None,
        }
    }

    /// The bytes of the response that the current match covers, while the bar is open.
    pub fn current_match_bytes(&self) -> (r: Option<Range<u32>>)
        requires
            self.search matches Some(search) ==> search.current < search.offsets.len()
                ==> search.offsets[search.current as int] + text::byte_len(
                search.query@.surface.text,
            ) <= u32::MAX,
        ensures
            r is Some <==> (self.search matches Some(search) && search.current
                < search.offsets.len() && search.query@.surface.text.len() > 0),
            r matches Some(range) ==> {
                let search = self.search->0;
                &&& range.start == search.offsets[search.current as int]
                &&& range.end == range.start + text::byte_len(search.query@.surface.text)
            },
    {
        match &self.search {
            Some(search) => search.current_bytes(),
            None => None,
        }
    }

    // ---- over what is being sent ----------------------------------------------

    /// Open the bar over the body, or go back to it, on the tab that the text it searches is on: a
    /// bar over a section that does not show would look like nothing had happened.
    pub fn open_body_search(&mut self)
        requires
            old(self).wf(),
        ensures
            final(self).wf(),
            *final(self) == (RequestView {
                request_tab: RequestTab::Kind(old(self).kind@.default_tab()),
                body_search: final(self).body_search,
                ..*old(self)
            }),
            final(self).body_search is Some,
            old(self).body_search matches Some(before) ==> is_refocused(
                before,
                final(self).body_search->0,
            ),
            old(self).body_search is None ==> {
                let fresh = final(self).body_search->0;
                &&& fresh.query@ == all_selected(search::body_query())
                &&& fresh.is_unscanned()
                &&& fresh.replace matches Some(replace) && replace@ == search::body_replacement()
            },
    {
        self.request_tab = RequestTab::Kind(self.kind.default_tab());
        let mut search = match self.body_search.take() {
            Some(search) => search,
            None => TextSearch::over_body(),
        };
        search.query.select_all_text();
        self.body_search = Some(search);
    }

    /// Close the bar. Says whether it was open.
    pub fn close_body_search(&mut self) -> (closed: bool)
        ensures
            *final(self) == (RequestView { body_search: None, ..*old(self) }),
            closed == (old(self).body_search is Some),
    {
        let closed = self.body_search.is_some();
        self.body_search = None;
        closed
    }

    pub fn is_searching_body(&self) -> (r: bool)
        ensures
            r == (self.body_search is Some),
    {
        self.body_search.is_some()
    }

    /// Take what a scan of the body found, and select a match at once: the first one, or the next
    /// one after a replacement. An empty query finds nothing.
    pub fn run_body_search(&mut self, hits: Hits)
        requires
            old(self).wf(),
        ensures
            final(self).wf(),
            *final(self) == (RequestView {
                body_search: final(self).body_search,
                kind: final(self).kind,
                ..*old(self)
            }),
            match (old(self).body_search, old(self).kind@.primary()) {
                (Some(before), Some(editor)) => {
                    &&& final(self).body_search matches Some(now) && {
                        &&& now == (TextSearch {
                            offsets: now.offsets,
                            rows: now.rows,
                            truncated: now.truncated,
                            current: search::landing(now.offsets@, before.resume) as usize,
                            current_clipped: false,
                            resume: None,
                            ..before
                        })
                        &&& if before.query@.surface.text.len() == 0 {
                            now.offsets@.len() == 0 && !now.truncated
                        } else {
                            now.offsets == hits.offsets && now.truncated == hits.truncated
                        }
                        &&& now.rows.len() == now.offsets.len()
                        &&& forall|i: int|
                            0 <= i < now.rows.len() ==> #[trigger] now.rows@[i] == lines::line_of(
                                editor.lines,
                                now.offsets@[i] as int,
                            )
                    }
                    &&& final(self).kind@ == with_match_selected(
                        old(self).kind@,
                        final(self).body_search,
                    )
                },
                _ => *final(self) == *old(self),
            },
    {
        let query_is_empty = match &self.body_search {
            Some(search) => search.query.text().is_empty(),
            None => {
                return ;
            },
        };
        let hits = if query_is_empty {
            Hits { offsets: Vec::new(), truncated: false }
        } else {
            hits
        };
        let rows = match self.kind.primary_editor() {
            Some(editor) => editor.lines_for_offsets(&hits.offsets),
            None => {
                return ;
            },
        };
        if let Some(search) = &mut self.body_search {
            search.found(hits, rows);
        }
        self.reveal_body_match();
    }

    /// Go to another match, going round at both ends, and put the caret on it.
    pub fn step_body_search(&mut self, delta: isize)
        requires
            old(self).wf(),
        ensures
            final(self).wf(),
            match old(self).body_search {
                None => *final(self) == *old(self),
                Some(before) => if before.offsets.len() == 0 {
                    *final(self) == *old(self)
                } else {
                    let stepped = TextSearch {
                        current: lists::wrapped(
                            before.current as int,
                            delta as int,
                            before.offsets.len() as int,
                        ) as usize,
                        ..before
                    };
                    &&& *final(self) == (RequestView {
                        body_search: Some(stepped),
                        kind: final(self).kind,
                        ..*old(self)
                    })
                    &&& final(self).kind@ == with_match_selected(old(self).kind@, Some(stepped))
                },
            },
    {
        let stepped = match &mut self.body_search {
            Some(search) => search.step(delta),
            None => false,
        };
        if stepped {
            self.reveal_body_match();
        }
    }

    /// Select the current match.
    pub fn reveal_body_match(&mut self)
        requires
            old(self).wf(),
        ensures
            final(self).wf(),
            *final(self) == (RequestView { kind: final(self).kind, ..*old(self) }),
            final(self).kind@ == with_match_selected(old(self).kind@, old(self).body_search),
    {
        let (start, len): (usize, usize) = match &self.body_search {
            Some(search) => match search.current_offset() {
                Some(start) => (start as usize, text::byte_length(search.query.text())),
                None => {
                    return ;
                },
            },
            None => {
                return ;
            },
        };
        if let Some(editor) = self.kind.primary_editor_mut() {
            let total: usize = text::byte_length(editor.text());
            proof {
                let content = editor@.surface.text;
                if text::is_span(content, start as int, start + len) {
                    text::lemma_offset_of_index(content, start + len);
                }
            }
            if len <= total && start <= total - len && is_span_of(
                editor.text(),
                start,
                start + len,
            ) {
                editor.select_range(start, start + len);
            }
        }
    }

    /// Replace the current match and move to the next: the scan of the new text that follows goes
    /// on just past what was put in. Says how many were replaced.
    pub fn replace_current(&mut self) -> (replaced: usize)
        requires
            old(self).wf(),
        ensures
            final(self).wf(),
            *final(self) == (RequestView {
                kind: final(self).kind,
                body_search: final(self).body_search,
                ..*old(self)
            }),
            match replacement(*old(self)) {
                Some((editor, span, with)) => if text::is_span(
                    editor.surface.text,
                    span.0,
                    span.1,
                ) {
                    &&& replaced == 1
                    &&& final(self).kind@ == old(self).kind@.with_primary(
                        editor.with(editor.surface.replaced(span, with).forward()),
                    )
                    &&& final(self).body_search == Some(
                        TextSearch {
                            resume: Some((span.0 + text::byte_len(with)) as usize),
                            ..old(self).body_search->0
                        },
                    )
                    &&& span.0 + text::byte_len(with) <= usize::MAX
                } else {
                    replaced == 0 && final(self).kind@ == old(self).kind@
                        && final(self).body_search == old(self).body_search
                },
                None => replaced == 0 && final(self).kind@ == old(self).kind@
                    && final(self).body_search == old(self).body_search,
            },
    {
        let (start, len, with): (usize, usize, String) = match &self.body_search {
            Some(search) => match (search.current_offset(), &search.replace) {
                (Some(start), Some(replace)) => (
                    start as usize,
                    text::byte_length(search.query.text()),
                    replace.text().to_owned(),
                ),
                _ => {
                    return 0;
                },
            },
            None => {
                return 0;
            },
        };
        let past: usize = match self.kind.primary_editor_mut() {
            Some(editor) => {
                let total: usize = text::byte_length(editor.text());
                let ghost content = editor@.surface.text;
                proof {
                    if text::is_span(content, start as int, start + len) {
                        text::lemma_offset_of_index(content, start + len);
                    }
                }
                if len <= total && start <= total - len && is_span_of(
                    editor.text(),
                    start,
                    start + len,
                ) {
                    editor.replace_range(start..start + len, with.as_str());
                    let _whole: usize = text::byte_length(editor.text());
                    let put: usize = text::byte_length(with.as_str());
                    proof {
                        text::lemma_spliced(content, start as int, start + len, with@);
                    }
                    start + put
                } else {
                    return 0;
                }
            },
            None => {
                return 0;
            },
        };
        if let Some(search) = &mut self.body_search {
            search.resume = Some(past);
        }
        1
    }

    /// Replace every match, the last one first, so none moves before its turn. Matches that no
    /// longer fit the text replace nothing. Says how many were replaced.
    pub fn replace_all(&mut self) -> (replaced: usize)
        requires
            old(self).wf(),
        ensures
            final(self).wf(),
            *final(self) == (RequestView { kind: final(self).kind, ..*old(self) }),
            match all_replacements(*old(self)) {
                Some((editor, ranges, with)) => {
                    &&& replaced == ranges.len()
                    &&& final(self).kind@ == old(self).kind@.with_primary(
                        editor.with(editor.surface.replaced_each(ranges, with)),
                    )
                },
                None => replaced == 0 && final(self).kind@ == old(self).kind@,
            },
    {
        let (len, with): (usize, String) = match &self.body_search {
            Some(search) => match &search.replace {
                Some(replace) => (
                    text::byte_length(search.query.text()),
                    replace.text().to_owned(),
                ),
                None => {
                    return 0;
                },
            },
            None => {
                return 0;
            },
        };
        proof {
            text::lemma_len_positive(self.body_search->0.query@.surface.text);
        }
        if len == 0 {
            return 0;
        }
        match (&self.body_search, self.kind.primary_editor_mut()) {
            (Some(search), Some(editor)) => {
                let ranges = ranges_backwards(editor.text(), &search.offsets, len);
                match ranges {
                    Some(ranges) => {
                        proof {
                            lemma_backwards_descends(
                                editor@.surface.text,
                                search.offsets@,
                                len as int,
                            );
                        }
                        editor.replace_ranges(&ranges, with.as_str());
                        ranges.len()
                    },
                    None => 0,
                }
            },
            _ => 0,
        }
    }
}

/// What revealing the current match does to the body, and where the match then shows.
pub open spec fn is_match_revealed(
    before: RequestView,
    search: TextSearch,
    after: RequestView,
    at: Option<usize>,
) -> bool {
    match before.body_view {
        Some(body) => if search.current < search.offsets.len() && search.current
            < search.rows.len() {
            after.body_view matches Some(now) && body_view::is_revealed(
                body@,
                search.rows[search.current as int] as usize,
                now@,
                at,
            )
        } else {
            after.body_view == before.body_view && at is None
        },
        None => after.body_view is None && at is None,
    }
}

/// The surface a replacement edits, what it replaces and by what, where there is anything to
/// replace.
pub open spec fn replacement(view: RequestView) -> Option<(EditorView, (int, int), Seq<char>)> {
    match (view.body_search, view.kind@.primary()) {
        (Some(search), Some(editor)) => match (current_span(search), search.replace) {
            (Some(span), Some(replace)) => Some((editor, span, replace@.surface.text)),
            _ => None,
        },
        _ => None,
    }
}

/// The surface that replacing every match edits, the ranges from the last to the first, and what
/// takes their place; nothing where nothing is looked for or the matches no longer fit.
pub open spec fn all_replacements(view: RequestView) -> Option<
    (EditorView, Seq<(int, int)>, Seq<char>),
> {
    match (view.body_search, view.kind@.primary()) {
        (Some(search), Some(editor)) => {
            let len = text::byte_len(search.query@.surface.text) as int;
            match search.replace {
                Some(replace) => if search.query@.surface.text.len() > 0 && matches_fit(
                    editor.surface.text,
                    search.offsets@,
                    len,
                ) {
                    Some((editor, backwards(search.offsets@, len), replace@.surface.text))
                } else {
                    None
                },
                None => None,
            }
        },
        _ => None,
    }
}

/// Replacing the current match moves to the one after it. Where the scan of the new text finds
/// the other matches, those behind moved by as much as the text did, the current one is the one
/// that came next, and the first where the last was replaced.
pub proof fn a_replacement_moves_to_the_next_match(
    before: Seq<u32>,
    current: int,
    len: int,
    put: int,
    hits: Seq<u32>,
    resume: usize,
)
    requires
        0 <= current < before.len(),
        0 < len,
        0 <= put,
        forall|i: int, j: int|
            0 <= i < j < before.len() ==> #[trigger] before[i] + len <= #[trigger] before[j],
        hits.len() == before.len() - 1,
        forall|i: int| 0 <= i < current ==> #[trigger] hits[i] == before[i],
        forall|i: int|
            current <= i < hits.len() ==> #[trigger] hits[i] == before[i + 1] - len + put,
        resume == before[current] + put,
    ensures
        search::landing(hits, Some(resume)) == (if current + 1 < before.len() {
            current
        } else {
            0
        }),
{
    if hits.len() > 0 {
        search::a_scan_goes_on_to_the_next_match(hits, resume);
        assert forall|k: int| 0 <= k < current implies (#[trigger] hits[k]) < resume by {
            assert(before[k] + len <= before[current]);
        }
        if current < hits.len() {
            assert(before[current] + len <= before[current + 1]);
            assert(hits[current] >= resume);
        }
    }
}

/// Replacing every match gives the text with each of them replaced where it stood, whatever the
/// length of what replaces them.
pub proof fn replacing_all_replaces_each_where_it_stood(view: RequestView)
    requires
        view.wf(),
        all_replacements(view) is Some,
    ensures
        ({
            let (editor, ranges, with) = all_replacements(view)->0;
            editor.surface.replaced_each(ranges, with).text == crate::input::surface::woven(
                editor.surface.text,
                ranges,
                with,
                0,
            )
        }),
{
    let (editor, ranges, with) = all_replacements(view)->0;
    let search = view.body_search->0;
    let len = text::byte_len(search.query@.surface.text) as int;
    lemma_backwards_descends(editor.surface.text, search.offsets@, len);
    crate::input::surface::replacing_backwards_is_replacing_at_once(editor.surface, ranges, with);
}

/// What lies between the matches of a text, with what is before the first and after the last.
pub open spec fn between_matches(text: Seq<char>, offsets: Seq<u32>, len: int) -> Seq<Seq<char>> {
    Seq::new(
        offsets.len() + 1,
        |i: int|
            text::sliced(
                text,
                if i == 0 {
                    0
                } else {
                    offsets[i - 1] + len
                },
                if i == offsets.len() {
                    text::byte_len(text) as int
                } else {
                    offsets[i] as int
                },
            ),
    )
}

proof fn lemma_joined_first(first: Seq<char>, rest: Seq<Seq<char>>, between: Seq<char>)
    requires
        rest.len() > 0,
    ensures
        strings::joined(seq![first] + rest, between) == first + between + strings::joined(
            rest,
            between,
        ),
    decreases rest.len(),
{
    let parts = seq![first] + rest;
    if rest.len() == 1 {
        assert(parts.drop_last() =~= seq![first]);
        assert(strings::joined(seq![first], between) == first);
        assert(parts.last() == rest[0]);
    } else {
        lemma_joined_first(first, rest.drop_last(), between);
        assert(parts.drop_last() =~= seq![first] + rest.drop_last());
        assert(parts.last() == rest.last());
        assert(strings::joined(parts, between) =~= first + between + strings::joined(
            rest,
            between,
        ));
    }
}

proof fn lemma_woven_is_joined(content: Seq<char>, offsets: Seq<u32>, len: int, new: Seq<char>, k: int)
    requires
        matches_fit(content, offsets, len),
        0 <= k <= offsets.len(),
    ensures
        crate::input::surface::woven(
            content,
            backwards(offsets.skip(k), len),
            new,
            text::index_of(
                content,
                if k == 0 {
                    0
                } else {
                    offsets[k - 1] + len
                },
            ),
        ) == strings::joined(between_matches(content, offsets, len).skip(k), new),
    decreases offsets.len() - k,
{
    let pieces = between_matches(content, offsets, len);
    let from = text::index_of(
        content,
        if k == 0 {
            0
        } else {
            offsets[k - 1] + len
        },
    );
    let ranges = backwards(offsets.skip(k), len);
    text::lemma_offset_ends(content);
    text::lemma_index_of_offset(content, content.len() as int);
    if k == offsets.len() {
        assert(pieces.skip(k) =~= seq![pieces[k]]);
        assert(text::index_of(content, text::byte_len(content) as int) == content.len());
        assert(content.skip(from) =~= content.subrange(from, content.len() as int));
    } else {
        lemma_woven_is_joined(content, offsets, len, new, k + 1);
        assert(offsets.skip(k)[0] == offsets[k]);
        assert(ranges.last() == (offsets[k] as int, offsets[k] + len));
        assert(ranges.drop_last() =~= backwards(offsets.skip(k + 1), len));
        assert(pieces.skip(k) =~= seq![pieces[k]] + pieces.skip(k + 1));
        lemma_joined_first(pieces[k], pieces.skip(k + 1), new);
    }
}

/// Replacing all replaces every match that was found, as many as there are, and nothing else: what
/// is between the matches stays, and the replacement stands between these pieces. It takes
/// something to look for, a box to replace from, and matches that still fit the text.
pub proof fn every_match_is_replaced(view: RequestView)
    requires
        view.body_search is Some,
        view.kind@.primary() is Some,
        view.body_search->0.replace is Some,
        view.body_search->0.query@.surface.text.len() > 0,
        ({
            let search = view.body_search->0;
            let content = view.kind@.primary()->0.surface.text;
            let len = text::byte_len(search.query@.surface.text);
            &&& forall|i: int|
                0 <= i < search.offsets.len() ==> text::is_span(
                    content,
                    #[trigger] search.offsets[i] as int,
                    search.offsets[i] + len,
                )
            &&& forall|i: int, j: int|
                0 <= i < j < search.offsets.len() ==> #[trigger] search.offsets[i] + len
                    <= #[trigger] search.offsets[j]
        }),
        view.kind@.primary()->0.surface.wf(),
    ensures
        ({
            let search = view.body_search->0;
            let content = view.kind@.primary()->0.surface.text;
            let len = text::byte_len(search.query@.surface.text) as int;
            &&& all_replacements(view) matches Some((editor, ranges, with)) && {
                &&& Some(editor) == view.kind@.primary()
                &&& with == search.replace->0@.surface.text
                &&& ranges.len() == search.offsets.len()
                &&& forall|i: int|
                    0 <= i < search.offsets.len() ==> ranges.contains(
                        (#[trigger] search.offsets[i] as int, search.offsets[i] + len),
                    )
                &&& editor.surface.replaced_each(ranges, with).text == strings::joined(
                    between_matches(content, search.offsets@, len),
                    with,
                )
            }
        }),
{
    let search = view.body_search->0;
    let editor = view.kind@.primary()->0;
    let content = editor.surface.text;
    let len = text::byte_len(search.query@.surface.text) as int;
    let offsets = search.offsets@;
    let ranges = backwards(offsets, len);
    let with = search.replace->0@.surface.text;
    assert forall|i: int| 0 <= i < offsets.len() implies text::is_span(
        content,
        #[trigger] offsets[i] as int,
        offsets[i] + len,
    ) by {
        assert(search.offsets[i] == offsets[i]);
    }
    assert forall|i: int, j: int| 0 <= i < j < offsets.len() implies #[trigger] offsets[i] + len
        <= #[trigger] offsets[j] by {
        assert(search.offsets[i] + len <= search.offsets[j]);
    }
    assert forall|i: int| 0 <= i < search.offsets.len() implies ranges.contains(
        (#[trigger] search.offsets[i] as int, search.offsets[i] + len),
    ) by {
        assert(ranges[offsets.len() - 1 - i] == (offsets[i] as int, offsets[i] + len));
    }
    lemma_backwards_descends(content, offsets, len);
    crate::input::surface::replacing_backwards_is_replacing_at_once(editor.surface, ranges, with);
    lemma_woven_is_joined(content, offsets, len, with, 0);
    text::lemma_offset_ends(content);
    text::lemma_index_of_offset(content, 0);
    assert(offsets.skip(0) =~= offsets);
    assert(between_matches(content, offsets, len).skip(0) =~= between_matches(
        content,
        offsets,
        len,
    ));
}

/// Nothing is replaced where nothing is looked for, where there is no box to replace from, or
/// where the surface is not on screen.
pub proof fn nothing_sought_is_nothing_replaced(view: RequestView)
    ensures
        view.body_search is None ==> replacement(view) is None && all_replacements(view) is None,
        view.kind@.primary() is None ==> replacement(view) is None && all_replacements(view) is None,
        view.body_search matches Some(search) && search.replace is None ==> replacement(view)
            is None && all_replacements(view) is None,
        view.body_search matches Some(search) && search.query@.surface.text.len() == 0
            ==> all_replacements(view) is None,
        view.body_search matches Some(search) && search.current >= search.offsets.len()
            ==> replacement(view) is None,
{
}

/// Replacing the current match replaces the bytes that it takes up, by what is in the box, and
/// leaves the rest of the text.
pub proof fn the_current_match_is_what_is_replaced(view: RequestView)
    requires
        view.body_search matches Some(search) && search.current < search.offsets.len()
            && search.replace is Some,
        view.kind@.primary() is Some,
    ensures
        ({
            let search = view.body_search->0;
            let from = search.offsets[search.current as int] as int;
            replacement(view) matches Some((editor, span, with)) && {
                &&& Some(editor) == view.kind@.primary()
                &&& span.0 == from
                &&& span.1 - span.0 == text::byte_len(search.query@.surface.text)
                &&& with == search.replace->0@.surface.text
                &&& text::is_span(editor.surface.text, span.0, span.1) ==> editor.surface.replaced(
                    span,
                    with,
                ).text == text::sliced(editor.surface.text, 0, span.0) + with + text::sliced(
                    editor.surface.text,
                    span.1,
                    text::byte_len(editor.surface.text) as int,
                )
            }
        }),
{
    let editor = view.kind@.primary()->0;
    let content = editor.surface.text;
    text::lemma_offset_ends(content);
    text::lemma_index_of_offset(content, 0);
    text::lemma_index_of_offset(content, content.len() as int);
    let (_e, span, with) = replacement(view)->0;
    if text::is_span(content, span.0, span.1) {
        text::lemma_offset_of_index(content, span.0);
        text::lemma_offset_of_index(content, span.1);
        assert(content.take(text::index_of(content, span.0)) =~= text::sliced(content, 0, span.0));
        assert(content.skip(text::index_of(content, span.1)) =~= text::sliced(
            content,
            span.1,
            text::byte_len(content) as int,
        ));
    }
}

/// Going to a match selects it, with the caret at its end, and changes no text; a match that no
/// longer fits is left alone.
pub proof fn the_match_gone_to_is_what_is_selected(kind: KindEditorView, search: TextSearch)
    requires
        kind.primary() is Some,
        search.current < search.offsets.len(),
    ensures
        ({
            let from = search.offsets[search.current as int] as int;
            let to = from + text::byte_len(search.query@.surface.text);
            let before = kind.primary()->0.surface;
            let after = with_match_selected(kind, Some(search));
            if text::is_span(before.text, from, to) {
                &&& after.primary() matches Some(editor) && {
                    &&& editor.surface.text == before.text
                    &&& editor.surface.anchor() == from
                    &&& editor.surface.cursor() == to
                    &&& editor.surface.history.past == before.history.past
                }
                &&& after == kind.with_primary(after.primary()->0)
            } else {
                after == kind
            }
        }),
{
}

/// Without a current match there is nothing to go to.
pub proof fn no_match_selects_nothing(kind: KindEditorView, search: Option<TextSearch>)
    requires
        search matches Some(open) ==> open.current >= open.offsets.len(),
    ensures
        with_match_selected(kind, search) == kind,
{
}

/// A bar that is gone back to has all of its query selected, so that typing replaces it, and
/// nothing else of it changes.
pub proof fn a_query_gone_back_to_is_selected(input: InputView)
    ensures
        all_selected(input).surface.text == input.surface.text,
        all_selected(input).surface.start == 0,
        all_selected(input).surface.end == text::byte_len(input.surface.text),
        all_selected(input).placeholder == input.placeholder,
        all_selected(input).key_context == input.key_context,
{
}

/// A match that is gone to is on screen where it is said to be, and none is said to be anywhere
/// where there is none.
pub proof fn a_match_gone_to_is_on_screen(
    before: RequestView,
    search: TextSearch,
    after: RequestView,
    at: Option<usize>,
)
    requires
        is_match_revealed(before, search, after, at),
        before.body_view matches Some(body) ==> body@.wf(),
    ensures
        before.body_view is None ==> at is None,
        search.current >= search.offsets.len() || search.current >= search.rows.len() ==> at is None
            && (before.body_view is Some ==> after.body_view == before.body_view),
        before.body_view matches Some(body) && search.current < search.offsets.len()
            && search.current < search.rows.len() && (body@.kind matches body_view::BodyKind::Json(
            outline,
        ) && search.rows[search.current as int] < outline.rows.len()) ==> at is Some
            && after.body_view is Some && at->0 < after.body_view->0@.visible.len()
            && after.body_view->0@.visible[at->0 as int] == search.rows[search.current as int],
{
}

/// A bar that is gone back to keeps its matches, where it stands among them and its replacement;
/// its query keeps its text, and all of it is selected.
pub proof fn a_bar_gone_back_to_keeps_its_matches(before: TextSearch, after: TextSearch)
    requires
        is_refocused(before, after),
    ensures
        after.offsets == before.offsets,
        after.rows == before.rows,
        after.current == before.current,
        after.truncated == before.truncated,
        after.replace == before.replace,
        after.resume == before.resume,
        after.query@.surface.text == before.query@.surface.text,
        after.query@.surface.start == 0,
        after.query@.surface.end == text::byte_len(before.query@.surface.text),
{
    text::lemma_offset_ends(before.query@.surface.text);
}

} // verus!
