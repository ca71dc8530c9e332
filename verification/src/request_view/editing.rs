//! Structural edits: rows added, muted and removed, the body's type and parts, and what a header
//! says against the body.

use crate::input::text_input;
use crate::input::text_input::TextInput;
use crate::kinds;
use crate::kinds::http::HttpEditorView;
use crate::kinds::{HttpEditor, KindEditor, KindEditorView};
use crate::request;
use crate::request::{Assertion, Body, BodyContent, Capture, Op, RawKind, RawKindView};
use crate::request_view::rows;
use crate::request_view::rows::{
    AssertionRow, AssertionRowView, CaptureRow, CaptureRowView, KeyValueRow, MultipartRow,
    PartRowView, RowView,
};
use crate::request_view::tabs::RequestTab;
use crate::request_view::view::{RequestView, RowKind};
use crate::request_view::BodyType;
use crate::strings;
use vstd::prelude::*;
use vstd::string::*;

verus! {

/// Which cell of a row the caret goes to.
#[derive(Clone, Copy, Debug, PartialEq, Eq, Structural)]
pub enum Cell {
    Name,
    Path,
    Value,
}

/// Where focus goes to reach the body, which has to be something that is drawn.
#[derive(Clone, Copy, Debug, PartialEq, Eq, Structural)]
pub enum BodyFocus {
    /// The main text surface.
    Editor,
    /// The first row of the form.
    FormRow,
    /// The first part.
    PartRow,
    /// There is nothing to type into.
    Nowhere,
}

/// Which rows hold focus, table by table.
pub struct RowFocus {
    pub headers: Vec<bool>,
    pub query: Vec<bool>,
    pub form: Vec<bool>,
    pub multipart: Vec<bool>,
    pub captures: Vec<bool>,
    pub assertions: Vec<bool>,
}

/// A row with nothing typed into it yet.
pub open spec fn empty_row(context: Seq<char>) -> RowView {
    rows::fresh_row(
        request::KeyValueView { enabled: true, name: Seq::empty(), value: Seq::empty() },
        context,
    )
}

/// The operator after another in the cycle.
pub open spec fn next_op(op: Op) -> Op {
    match op {
        Op::Exists => Op::Equals,
        Op::Equals => Op::Contains,
        Op::Contains => Op::Exists,
    }
}

/// A capture that is only partly written.
pub open spec fn new_capture(path: Seq<char>, name: Seq<char>) -> CaptureRowView {
    rows::fresh_capture(request::CaptureView { path, name, ..request::blank_capture() })
}

/// An assertion that is only partly written.
pub open spec fn new_assertion(path: Seq<char>) -> AssertionRowView {
    rows::fresh_assertion(request::AssertionView { path, ..request::blank_assertion() })
}

/// The HTTP editors after a row has been added to one of their tables.
pub open spec fn with_row_added(http: HttpEditorView, kind: RowKind) -> HttpEditorView {
    match kind {
        RowKind::Query => HttpEditorView {
            query: http.query.push(empty_row("QueryCell"@)),
            ..http
        },
        RowKind::Form => HttpEditorView { form: http.form.push(empty_row("FormCell"@)), ..http },
        RowKind::Multipart => HttpEditorView {
            multipart: http.multipart.push(
                PartRowView { row: empty_row("PartCell"@), is_file: false },
            ),
            ..http
        },
        _ => http,
    }
}

/// How many rows a table of the HTTP editors has.
pub open spec fn http_rows(http: HttpEditorView, kind: RowKind) -> int {
    match kind {
        RowKind::Query => http.query.len() as int,
        RowKind::Form => http.form.len() as int,
        RowKind::Multipart => http.multipart.len() as int,
        _ => 0,
    }
}

/// The HTTP editors after a row of one of their tables has been flipped.
pub open spec fn with_row_flipped(http: HttpEditorView, kind: RowKind, ix: int) -> HttpEditorView {
    match kind {
        RowKind::Query => HttpEditorView {
            query: http.query.update(ix, http.query[ix].flipped()),
            ..http
        },
        RowKind::Form => HttpEditorView {
            form: http.form.update(ix, http.form[ix].flipped()),
            ..http
        },
        RowKind::Multipart => HttpEditorView {
            multipart: http.multipart.update(
                ix,
                PartRowView { row: http.multipart[ix].row.flipped(), ..http.multipart[ix] },
            ),
            ..http
        },
        _ => http,
    }
}

/// The HTTP editors after a row of one of their tables has been removed.
pub open spec fn with_row_removed(http: HttpEditorView, kind: RowKind, ix: int) -> HttpEditorView {
    match kind {
        RowKind::Query => HttpEditorView { query: http.query.remove(ix), ..http },
        RowKind::Form => HttpEditorView { form: http.form.remove(ix), ..http },
        RowKind::Multipart => HttpEditorView { multipart: http.multipart.remove(ix), ..http },
        _ => http,
    }
}

/// How many rows a table of a buffer has. A kind without the table has none.
pub open spec fn row_count(view: RequestView, kind: RowKind) -> int {
    match kind {
        RowKind::Header => view.headers.len() as int,
        RowKind::Capture => view.captures.len() as int,
        RowKind::Assert => view.assertions.len() as int,
        _ => match view.kind@ {
            KindEditorView::Http(http) => http_rows(http, kind),
            _ => 0,
        },
    }
}

/// The only thing that changed is the HTTP editors, and they are now `http`.
pub open spec fn only_http_changed(
    before: RequestView,
    after: RequestView,
    http: HttpEditorView,
) -> bool {
    &&& after == (RequestView { kind: after.kind, ..before })
    &&& after.kind@ == KindEditorView::Http(http)
}

impl HttpEditor {
    /// Add an empty row to one of the tables.
    pub fn add_row(&mut self, kind: RowKind)
        requires
            old(self)@.wf(),
        ensures
            final(self)@.wf(),
            final(self)@ == with_row_added(old(self)@, kind),
    {
        let ghost before = self@;
        proof {
            reveal_strlit("");
            assert(""@ =~= Seq::<char>::empty());
        }
        match kind {
            RowKind::Query => {
                let ghost held = self.query@;
                self.query.push(KeyValueRow::new(true, "", "", "QueryCell"));
                proof {
                    assert(rows::rows_of(self.query@) =~= rows::rows_of(held).push(
                        empty_row("QueryCell"@),
                    ));
                }
            },
            RowKind::Form => {
                let ghost held = self.form@;
                self.form.push(KeyValueRow::new(true, "", "", "FormCell"));
                proof {
                    assert(rows::rows_of(self.form@) =~= rows::rows_of(held).push(
                        empty_row("FormCell"@),
                    ));
                }
            },
            RowKind::Multipart => {
                let ghost held = self.multipart@;
                self.multipart.push(
                    MultipartRow {
                        row: KeyValueRow::new(true, "", "", "PartCell"),
                        is_file: false,
                    },
                );
                proof {
                    assert(rows::part_rows_of(self.multipart@) =~= rows::part_rows_of(held).push(
                        PartRowView { row: empty_row("PartCell"@), is_file: false },
                    ));
                }
            },
            _ => {},
        }
    }

    /// Flip a row of one of the tables. Says whether there is such a row.
    pub fn flip_row(&mut self, kind: RowKind, ix: usize) -> (r: bool)
        requires
            old(self)@.wf(),
        ensures
            final(self)@.wf(),
            r == (ix < http_rows(old(self)@, kind)),
            final(self)@ == (if r {
                with_row_flipped(old(self)@, kind, ix as int)
            } else {
                old(self)@
            }),
    {
        match kind {
            RowKind::Query => rows::flip_enabled(&mut self.query, ix),
            RowKind::Form => rows::flip_enabled(&mut self.form, ix),
            RowKind::Multipart => {
                if ix >= self.multipart.len() {
                    return false;
                }
                let ghost held = self.multipart@;
                self.multipart[ix].row.enabled = !self.multipart[ix].row.enabled;
                proof {
                    let views = rows::part_rows_of(held);
                    assert(rows::part_rows_of(self.multipart@) =~= views.update(
                        ix as int,
                        PartRowView { row: views[ix as int].row.flipped(), ..views[ix as int] },
                    ));
                }
                true
            },
            _ => false,
        }
    }

    /// Remove a row of one of the tables. Says whether there is such a row.
    pub fn remove_row(&mut self, kind: RowKind, ix: usize) -> (r: bool)
        requires
            old(self)@.wf(),
        ensures
            final(self)@.wf(),
            r == (ix < http_rows(old(self)@, kind)),
            final(self)@ == (if r {
                with_row_removed(old(self)@, kind, ix as int)
            } else {
                old(self)@
            }),
    {
        match kind {
            RowKind::Query => {
                if ix >= self.query.len() {
                    return false;
                }
                let ghost held = self.query@;
                self.query.remove(ix);
                proof {
                    assert(rows::rows_of(self.query@) =~= rows::rows_of(held).remove(ix as int));
                }
                true
            },
            RowKind::Form => {
                if ix >= self.form.len() {
                    return false;
                }
                let ghost held = self.form@;
                self.form.remove(ix);
                proof {
                    assert(rows::rows_of(self.form@) =~= rows::rows_of(held).remove(ix as int));
                }
                true
            },
            RowKind::Multipart => {
                if ix >= self.multipart.len() {
                    return false;
                }
                let ghost held = self.multipart@;
                self.multipart.remove(ix);
                proof {
                    assert(rows::part_rows_of(self.multipart@) =~= rows::part_rows_of(held).remove(
                        ix as int,
                    ));
                }
                true
            },
            _ => false,
        }
    }
}

/// Where the first flag that is set stands, if one is.
pub open spec fn first_set(flags: Seq<bool>) -> Option<usize> {
    let at = crate::lists::first_at(flags, true, 0);
    if at < flags.len() {
        Some(at as usize)
    } else {
        None
    }
}

/// Where the first flag that is set stands, if one is.
fn first_flag(flags: &Vec<bool>) -> (r: Option<usize>)
    ensures
        r == first_set(flags@),
{
    let mut i: usize = 0;
    while i < flags.len() && !flags[i]
        invariant
            i <= flags.len(),
            crate::lists::first_at(flags@, true, 0) == crate::lists::first_at(
                flags@,
                true,
                i as int,
            ),
        decreases flags.len() - i,
    {
        i = i + 1;
    }
    if i < flags.len() {
        Some(i)
    } else {
        None
    }
}

/// The row that holds focus: the first of the tables, in order, that has one. A kind without
/// query, form and multipart tables has none there.
pub open spec fn focused(focus: RowFocus, is_http: bool) -> Option<(RowKind, usize)> {
    match first_set(focus.headers@) {
        Some(ix) => Some((RowKind::Header, ix)),
        None => match (is_http, first_set(focus.query@)) {
            (true, Some(ix)) => Some((RowKind::Query, ix)),
            _ => match (is_http, first_set(focus.form@)) {
                (true, Some(ix)) => Some((RowKind::Form, ix)),
                _ => match (is_http, first_set(focus.multipart@)) {
                    (true, Some(ix)) => Some((RowKind::Multipart, ix)),
                    _ => match first_set(focus.captures@) {
                        Some(ix) => Some((RowKind::Capture, ix)),
                        None => match first_set(focus.assertions@) {
                            Some(ix) => Some((RowKind::Assert, ix)),
                            None => None,
                        },
                    },
                },
            },
        },
    }
}

/// The body a content type is held against, and the type it calls for; nothing for a body that
/// calls for none.
pub open spec fn expected_type(body: BodyContent) -> Option<Seq<char>> {
    match body {
        BodyContent::Raw { kind, .. } => Some(kind.content_type),
        BodyContent::Form(_) => Some("application/x-www-form-urlencoded"@),
        _ => None,
    }
}

/// Whether a row declares a content type: it is sent, and named so in any case.
pub open spec fn declares_type(row: RowView) -> bool {
    &&& row.enabled
    &&& strings::lowered(strings::trimmed(row.name.surface.text)) == strings::lowered(
        "content-type"@,
    )
}

/// The first row at or after `from` that declares a content type.
pub open spec fn declared_at(rows: Seq<RowView>, from: int) -> int
    decreases rows.len() - from,
{
    if from >= rows.len() {
        rows.len() as int
    } else if declares_type(rows[from]) {
        from
    } else {
        declared_at(rows, from + 1)
    }
}

/// A content type without its parameters.
pub open spec fn essence_of(declared: Seq<char>) -> Seq<char> {
    strings::trimmed(strings::split_on(declared, ';')[0])
}

/// The declared content type that disagrees with the body, and the one the body calls for.
pub open spec fn conflict(headers: Seq<RowView>, body: BodyContent) -> Option<
    (Seq<char>, Seq<char>),
> {
    match expected_type(body) {
        Some(expected) => {
            let at = declared_at(headers, 0);
            if at < headers.len() {
                let declared = headers[at].value.surface.text;
                if strings::lowered(essence_of(declared)) == strings::lowered(expected) {
                    None
                } else {
                    Some((declared, expected))
                }
            } else {
                None
            }
        },
        None => None,
    }
}

/// Where focus goes to reach the body of the HTTP editors.
pub open spec fn http_focus(http: HttpEditorView) -> BodyFocus {
    match http.body_type {
        BodyType::Raw => BodyFocus::Editor,
        BodyType::Form => if http.form.len() > 0 {
            BodyFocus::FormRow
        } else {
            BodyFocus::Nowhere
        },
        BodyType::Multipart => if http.multipart.len() > 0 {
            BodyFocus::PartRow
        } else {
            BodyFocus::Nowhere
        },
        BodyType::Binary => BodyFocus::Nowhere,
        BodyType::Empty => BodyFocus::Nowhere,
    }
}

impl RequestView {
    /// Append an empty row. Returns the cell the caret goes to, where there is a table to add to.
    pub fn add_row(&mut self, kind: RowKind) -> (cell: Option<Cell>)
        requires
            old(self).wf(),
        ensures
            final(self).wf(),
            match kind {
                RowKind::Header => {
                    &&& cell == Some(Cell::Name)
                    &&& *final(self) == (RequestView {
                        headers: final(self).headers,
                        ..*old(self)
                    })
                    &&& rows::rows_of(final(self).headers@) == rows::rows_of(
                        old(self).headers@,
                    ).push(empty_row("HeaderCell"@))
                },
                RowKind::Capture => {
                    &&& cell == Some(Cell::Path)
                    &&& capture_pushed(*old(self), *final(self), Seq::empty(), Seq::empty())
                },
                RowKind::Assert => {
                    &&& cell == Some(Cell::Path)
                    &&& assertion_pushed(*old(self), *final(self), Seq::empty())
                },
                _ => match old(self).kind@ {
                    KindEditorView::Http(http) => {
                        &&& cell == Some(Cell::Name)
                        &&& only_http_changed(*old(self), *final(self), with_row_added(http, kind))
                    },
                    _ => cell is None && *final(self) == *old(self),
                },
            },
    {
        proof {
            reveal_strlit("");
            assert(""@ =~= Seq::<char>::empty());
        }
        match kind {
            RowKind::Header => {
                let ghost held = self.headers@;
                self.headers.push(KeyValueRow::new(true, "", "", "HeaderCell"));
                proof {
                    assert(rows::rows_of(self.headers@) =~= rows::rows_of(held).push(
                        empty_row("HeaderCell"@),
                    ));
                }
                Some(Cell::Name)
            },
            RowKind::Capture => Some(self.push_capture(String::new(), String::new())),
            RowKind::Assert => Some(self.push_assertion(String::new())),
            _ => match self.kind.as_http_mut() {
                Some(http) => {
                    http.add_row(kind);
                    Some(Cell::Name)
                },
                None => None,
            },
        }
    }

    /// The row that holds focus, if one does.
    pub fn focused_row(&self, focus: &RowFocus) -> (r: Option<(RowKind, usize)>)
        ensures
            r == focused(*focus, self.kind@ is Http),
    {
        if let Some(ix) = first_flag(&focus.headers) {
            return Some((RowKind::Header, ix));
        }
        if self.http().is_some() {
            if let Some(ix) = first_flag(&focus.query) {
                return Some((RowKind::Query, ix));
            }
            if let Some(ix) = first_flag(&focus.form) {
                return Some((RowKind::Form, ix));
            }
            if let Some(ix) = first_flag(&focus.multipart) {
                return Some((RowKind::Multipart, ix));
            }
        }
        if let Some(ix) = first_flag(&focus.captures) {
            return Some((RowKind::Capture, ix));
        }
        match first_flag(&focus.assertions) {
            Some(ix) => Some((RowKind::Assert, ix)),
            None => None,
        }
    }

    /// Flip a row between sent and muted. Says whether there is such a row.
    pub fn toggle(&mut self, kind: RowKind, ix: usize) -> (r: bool)
        requires
            old(self).wf(),
        ensures
            final(self).wf(),
            r == (ix < row_count(*old(self), kind)),
            is_toggled(*old(self), *final(self), kind, ix as int),
    {
        match kind {
            RowKind::Header => rows::flip_enabled(&mut self.headers, ix),
            RowKind::Capture => {
                if ix >= self.captures.len() {
                    return false;
                }
                let ghost held = self.captures@;
                self.captures[ix].enabled = !self.captures[ix].enabled;
                proof {
                    let views = rows::capture_rows_of(held);
                    assert(rows::capture_rows_of(self.captures@) =~= views.update(
                        ix as int,
                        CaptureRowView { enabled: !views[ix as int].enabled, ..views[ix as int] },
                    ));
                }
                true
            },
            RowKind::Assert => {
                if ix >= self.assertions.len() {
                    return false;
                }
                let ghost held = self.assertions@;
                self.assertions[ix].enabled = !self.assertions[ix].enabled;
                proof {
                    let views = rows::assertion_rows_of(held);
                    assert(rows::assertion_rows_of(self.assertions@) =~= views.update(
                        ix as int,
                        AssertionRowView { enabled: !views[ix as int].enabled, ..views[ix as int] },
                    ));
                }
                true
            },
            _ => match self.kind.as_http_mut() {
                Some(http) => http.flip_row(kind, ix),
                None => false,
            },
        }
    }

    /// Remove a row. Says whether there is such a row.
    pub fn remove(&mut self, kind: RowKind, ix: usize) -> (r: bool)
        requires
            old(self).wf(),
        ensures
            final(self).wf(),
            r == (ix < row_count(*old(self), kind)),
            is_removed(*old(self), *final(self), kind, ix as int),
    {
        match kind {
            RowKind::Header => {
                if ix >= self.headers.len() {
                    return false;
                }
                let ghost held = self.headers@;
                self.headers.remove(ix);
                proof {
                    assert(rows::rows_of(self.headers@) =~= rows::rows_of(held).remove(ix as int));
                }
                true
            },
            RowKind::Capture => {
                if ix >= self.captures.len() {
                    return false;
                }
                let ghost held = self.captures@;
                self.captures.remove(ix);
                proof {
                    assert(rows::capture_rows_of(self.captures@) =~= rows::capture_rows_of(
                        held,
                    ).remove(ix as int));
                }
                true
            },
            RowKind::Assert => {
                if ix >= self.assertions.len() {
                    return false;
                }
                let ghost held = self.assertions@;
                self.assertions.remove(ix);
                proof {
                    assert(rows::assertion_rows_of(self.assertions@) =~= rows::assertion_rows_of(
                        held,
                    ).remove(ix as int));
                }
                true
            },
            _ => match self.kind.as_http_mut() {
                Some(http) => http.remove_row(kind, ix),
                None => false,
            },
        }
    }

    /// Flip the row that holds focus. Says whether one does.
    pub fn toggle_focused_row(&mut self, focus: &RowFocus) -> (r: bool)
        requires
            old(self).wf(),
        ensures
            final(self).wf(),
            match focused(*focus, old(self).kind@ is Http) {
                Some((kind, ix)) => r && is_toggled(*old(self), *final(self), kind, ix as int),
                None => !r && *final(self) == *old(self),
            },
    {
        match self.focused_row(focus) {
            Some((kind, ix)) => {
                self.toggle(kind, ix);
                true
            },
            None => false,
        }
    }

    /// Remove the row that holds focus. Says whether one does.
    pub fn remove_focused_row(&mut self, focus: &RowFocus) -> (r: bool)
        requires
            old(self).wf(),
        ensures
            final(self).wf(),
            match focused(*focus, old(self).kind@ is Http) {
                Some((kind, ix)) => r && is_removed(*old(self), *final(self), kind, ix as int),
                None => !r && *final(self) == *old(self),
            },
    {
        match self.focused_row(focus) {
            Some((kind, ix)) => {
                self.remove(kind, ix);
                true
            },
            None => false,
        }
    }

    /// Add a capture, on the tab that shows them. Returns the cell that still needs typing: the
    /// name, where the path came filled in.
    pub fn push_capture(&mut self, path: String, name: String) -> (cell: Cell)
        requires
            old(self).wf(),
        ensures
            final(self).wf(),
            capture_pushed(*old(self), *final(self), path@, name@),
            cell == (if path@.len() > 0 {
                Cell::Name
            } else {
                Cell::Path
            }),
    {
        let prefilled = !path.as_str().is_empty();
        let ghost held = self.captures@;
        let mut capture = Capture::default();
        capture.path = path;
        capture.name = name;
        self.captures.push(CaptureRow::new(&capture));
        proof {
            assert(rows::capture_rows_of(self.captures@) =~= rows::capture_rows_of(held).push(
                new_capture(path@, name@),
            ));
        }
        self.request_tab = RequestTab::Capture;
        if prefilled {
            Cell::Name
        } else {
            Cell::Path
        }
    }

    /// Add an assertion, on the tab that shows them. Returns the cell that still needs typing: the
    /// value, where the path came filled in.
    pub fn push_assertion(&mut self, path: String) -> (cell: Cell)
        requires
            old(self).wf(),
        ensures
            final(self).wf(),
            assertion_pushed(*old(self), *final(self), path@),
            cell == (if path@.len() > 0 {
                Cell::Value
            } else {
                Cell::Path
            }),
    {
        let prefilled = !path.as_str().is_empty();
        let ghost held = self.assertions@;
        let mut assertion = Assertion::default();
        assertion.path = path;
        self.assertions.push(AssertionRow::new(&assertion));
        proof {
            assert(rows::assertion_rows_of(self.assertions@) =~= rows::assertion_rows_of(
                held,
            ).push(new_assertion(path@)));
        }
        self.request_tab = RequestTab::Assert;
        if prefilled {
            Cell::Value
        } else {
            Cell::Path
        }
    }

    /// Step the operator of an assertion. Out of range is ignored.
    pub fn cycle_assert_op(&mut self, ix: usize)
        requires
            old(self).wf(),
        ensures
            final(self).wf(),
            *final(self) == (RequestView { assertions: final(self).assertions, ..*old(self) }),
            rows::assertion_rows_of(final(self).assertions@) == (if ix < old(
                self,
            ).assertions.len() {
                let views = rows::assertion_rows_of(old(self).assertions@);
                views.update(
                    ix as int,
                    AssertionRowView { op: next_op(views[ix as int].op), ..views[ix as int] },
                )
            } else {
                rows::assertion_rows_of(old(self).assertions@)
            }),
    {
        if ix < self.assertions.len() {
            let ghost held = self.assertions@;
            self.assertions[ix].op = match self.assertions[ix].op {
                Op::Exists => Op::Equals,
                Op::Equals => Op::Contains,
                Op::Contains => Op::Exists,
            };
            proof {
                let views = rows::assertion_rows_of(held);
                assert(rows::assertion_rows_of(self.assertions@) =~= views.update(
                    ix as int,
                    AssertionRowView { op: next_op(views[ix as int].op), ..views[ix as int] },
                ));
            }
        }
    }

    /// Flip whether a capture is a secret. Out of range is ignored.
    pub fn toggle_capture_secret(&mut self, ix: usize)
        requires
            old(self).wf(),
        ensures
            final(self).wf(),
            *final(self) == (RequestView { captures: final(self).captures, ..*old(self) }),
            rows::capture_rows_of(final(self).captures@) == (if ix < old(self).captures.len() {
                let views = rows::capture_rows_of(old(self).captures@);
                views.update(
                    ix as int,
                    CaptureRowView { secret: !views[ix as int].secret, ..views[ix as int] },
                )
            } else {
                rows::capture_rows_of(old(self).captures@)
            }),
    {
        if ix < self.captures.len() {
            let ghost held = self.captures@;
            self.captures[ix].secret = !self.captures[ix].secret;
            proof {
                let views = rows::capture_rows_of(held);
                assert(rows::capture_rows_of(self.captures@) =~= views.update(
                    ix as int,
                    CaptureRowView { secret: !views[ix as int].secret, ..views[ix as int] },
                ));
            }
        }
    }

    // ---- the body -----------------------------------------------------------

    /// Choose which body is sent. A kind without a body is left as it is.
    pub fn set_body_type(&mut self, body_type: BodyType)
        requires
            old(self).wf(),
        ensures
            final(self).wf(),
            match old(self).kind@ {
                KindEditorView::Http(http) => only_http_changed(
                    *old(self),
                    *final(self),
                    http.with_body_type(body_type),
                ),
                _ => *final(self) == *old(self),
            },
    {
        if let Some(http) = self.kind.as_http_mut() {
            http.set_body_type(body_type);
        }
    }

    /// Set the flavour of the raw body. A kind without a body is left as it is.
    pub fn set_body_kind(&mut self, kind: RawKind)
        requires
            old(self).wf(),
        ensures
            final(self).wf(),
            match old(self).kind@ {
                KindEditorView::Http(http) => only_http_changed(
                    *old(self),
                    *final(self),
                    HttpEditorView { body_kind: kind@, ..http },
                ),
                _ => *final(self) == *old(self),
            },
    {
        if let Some(http) = self.kind.as_http_mut() {
            http.set_body_kind(kind);
        }
    }

    /// The flavour of the raw body; the one a body has before one is chosen, where there is none.
    pub fn body_kind(&self) -> (r: RawKind)
        ensures
            r@ == (match self.kind@ {
                KindEditorView::Http(http) => http.body_kind,
                _ => request::json_kind(),
            }),
    {
        match self.http() {
            Some(http) => http.body_kind(),
            None => RawKind::default(),
        }
    }

    /// How the body type reads on screen.
    pub fn body_label(&self) -> (r: String)
        ensures
            r@ == (match self.kind@ {
                KindEditorView::Http(http) => http.body_label(),
                _ => "None"@,
            }),
    {
        match self.http() {
            Some(http) => http.body_label(),
            None => "None".to_owned(),
        }
    }

    /// Point a binary body at a file, switching the body type to match.
    pub fn set_binary_path(&mut self, path: String)
        requires
            old(self).wf(),
        ensures
            final(self).wf(),
            match old(self).kind@ {
                KindEditorView::Http(http) => only_http_changed(
                    *old(self),
                    *final(self),
                    HttpEditorView {
                        binary_path: Some(path@),
                        body_type: BodyType::Binary,
                        ..http
                    },
                ),
                _ => *final(self) == *old(self),
            },
    {
        if let Some(http) = self.kind.as_http_mut() {
            http.set_binary_path(path);
        }
    }

    pub fn multipart_is_file(&self, ix: usize) -> (r: bool)
        ensures
            r == (match self.kind@ {
                KindEditorView::Http(http) => ix < http.multipart.len()
                    && http.multipart[ix as int].is_file,
                _ => false,
            }),
    {
        match self.http() {
            Some(http) => http.multipart_is_file(ix),
            None => false,
        }
    }

    /// Switch a part between sending text and sending a file. What is typed stays.
    pub fn set_multipart_kind(&mut self, ix: usize, is_file: bool)
        requires
            old(self).wf(),
        ensures
            final(self).wf(),
            match old(self).kind@ {
                KindEditorView::Http(http) => if ix < http.multipart.len() {
                    only_http_changed(
                        *old(self),
                        *final(self),
                        HttpEditorView {
                            multipart: http.multipart.update(
                                ix as int,
                                PartRowView { is_file, ..http.multipart[ix as int] },
                            ),
                            ..http
                        },
                    )
                } else {
                    final(self).kind@ == old(self).kind@ && *final(self) == (RequestView {
                        kind: final(self).kind,
                        ..*old(self)
                    })
                },
                _ => *final(self) == *old(self),
            },
    {
        if let Some(http) = self.kind.as_http_mut() {
            if ix < http.multipart.len() {
                let ghost held = http.multipart@;
                http.multipart[ix].is_file = is_file;
                proof {
                    let views = rows::part_rows_of(held);
                    assert(rows::part_rows_of(http.multipart@) =~= views.update(
                        ix as int,
                        PartRowView { is_file, ..views[ix as int] },
                    ));
                }
            }
        }
    }

    /// Point a part at a file, which makes it a file part.
    pub fn set_multipart_file(&mut self, ix: usize, path: &str)
        requires
            old(self).wf(),
        ensures
            final(self).wf(),
            match old(self).kind@ {
                KindEditorView::Http(http) => if ix < http.multipart.len() {
                    only_http_changed(
                        *old(self),
                        *final(self),
                        HttpEditorView {
                            multipart: http.multipart.update(
                                ix as int,
                                PartRowView {
                                    row: RowView {
                                        value: text_input::fresh_input(
                                            path@,
                                            "path"@,
                                            "PartCell"@,
                                        ),
                                        ..http.multipart[ix as int].row
                                    },
                                    is_file: true,
                                },
                            ),
                            ..http
                        },
                    )
                } else {
                    final(self).kind@ == old(self).kind@ && *final(self) == (RequestView {
                        kind: final(self).kind,
                        ..*old(self)
                    })
                },
                _ => *final(self) == *old(self),
            },
    {
        if let Some(http) = self.kind.as_http_mut() {
            if ix < http.multipart.len() {
                let ghost held = http.multipart@;
                http.multipart[ix].is_file = true;
                http.multipart[ix].row.value = TextInput::new(path, "path", "PartCell");
                proof {
                    let views = rows::part_rows_of(held);
                    assert(rows::part_rows_of(http.multipart@) =~= views.update(
                        ix as int,
                        PartRowView {
                            row: RowView {
                                value: text_input::fresh_input(path@, "path"@, "PartCell"@),
                                ..views[ix as int].row
                            },
                            is_file: true,
                        },
                    ));
                }
            }
        }
    }

    /// The part that holds focus, where the body is multipart.
    pub fn focused_multipart_row(&self, focused: &Vec<bool>) -> (r: Option<usize>)
        ensures
            r == (match self.kind@ {
                KindEditorView::Http(http) => if http.body_type is Multipart {
                    first_set(focused@)
                } else {
                    None
                },
                _ => None,
            }),
    {
        match self.http() {
            Some(http) => if http.body_type == BodyType::Multipart {
                first_flag(focused)
            } else {
                None
            },
            None => None,
        }
    }

    /// Where focus goes to reach the body. It has to be something that is drawn: focus on what is
    /// not leaves every key without a path to what it is bound to.
    pub fn body_focus_target(&self) -> (r: BodyFocus)
        ensures
            r == (match self.kind@ {
                KindEditorView::Http(http) => http_focus(http),
                _ => BodyFocus::Editor,
            }),
    {
        match self.http() {
            Some(http) => match http.body_type {
                BodyType::Raw => BodyFocus::Editor,
                BodyType::Form => if http.form.len() > 0 {
                    BodyFocus::FormRow
                } else {
                    BodyFocus::Nowhere
                },
                BodyType::Multipart => if http.multipart.len() > 0 {
                    BodyFocus::PartRow
                } else {
                    BodyFocus::Nowhere
                },
                BodyType::Binary | BodyType::Empty => BodyFocus::Nowhere,
            },
            None => BodyFocus::Editor,
        }
    }

    /// The header whose name holds focus. `names` says of each name whether it does.
    pub fn focused_header_name(&self, names: &Vec<bool>) -> (r: Option<usize>)
        requires
            names.len() == self.headers.len(),
        ensures
            r == first_set(names@),
    {
        first_flag(names)
    }

    /// Whether focus is in the body's region: in what is drawn there, and not in an editor that
    /// is kept but not on screen. `text` says whether the main text surface holds it, `kind`
    /// whether anything of the kind does.
    pub fn body_region_focused(&self, focus: &RowFocus, text: bool, kind: bool) -> (r: bool)
        ensures
            r == (match self.kind@ {
                KindEditorView::Http(http) => match http.body_type {
                    BodyType::Raw => text,
                    BodyType::Form => first_set(focus.form@) is Some,
                    BodyType::Multipart => first_set(focus.multipart@) is Some,
                    BodyType::Binary | BodyType::Empty => false,
                },
                _ => kind,
            }),
    {
        match self.http() {
            Some(http) => match http.body_type {
                BodyType::Raw => text,
                BodyType::Form => first_flag(&focus.form).is_some(),
                BodyType::Multipart => first_flag(&focus.multipart).is_some(),
                BodyType::Binary | BodyType::Empty => false,
            },
            None => kind,
        }
    }

    /// A declared content type that disagrees with the body that is sent, and the one the body
    /// calls for. Only the type itself is compared, not its parameters.
    pub fn conflicting_content_type(&self) -> (r: Option<(String, String)>)
        ensures
            (match self.kind@ {
                KindEditorView::Http(http) => conflict(
                    rows::rows_of(self.headers@),
                    http.body(),
                ),
                _ => None,
            }) == (match r {
                Some((declared, expected)) => Some((declared@, expected@)),
                None => None,
            }),
    {
        let expected = match self.http() {
            Some(http) => match http.body() {
                Body::Raw { kind, .. } => kind.content_type,
                Body::Form(_) => "application/x-www-form-urlencoded".to_owned(),
                _ => {
                    return None;
                },
            },
            None => {
                return None;
            },
        };
        let ghost views = rows::rows_of(self.headers@);
        let mut i: usize = 0;
        while i < self.headers.len() && !(self.headers[i].enabled && strings::same_ignoring_case(
            strings::trim(self.headers[i].name.text()).as_str(),
            "content-type",
        ))
            invariant
                i <= self.headers.len(),
                views == rows::rows_of(self.headers@),
                declared_at(views, 0) == declared_at(views, i as int),
            decreases self.headers.len() - i,
        {
            proof {
                assert(views[i as int] == self.headers[i as int]@);
            }
            i = i + 1;
        }
        if i >= self.headers.len() {
            return None;
        }
        proof {
            assert(views[i as int] == self.headers[i as int]@);
        }
        let declared = self.headers[i].value.text().to_owned();
        let parts = strings::split(declared.as_str(), ';');
        proof {
            strings::lemma_split_is_not_empty(declared@, ';');
            assert(strings::texts(parts@)[0] == parts[0]@);
        }
        let essence = strings::trim(parts[0].as_str());
        if strings::same_ignoring_case(essence.as_str(), expected.as_str()) {
            None
        } else {
            Some((declared, expected))
        }
    }
}

/// What adding a capture does.
pub open spec fn capture_pushed(
    before: RequestView,
    after: RequestView,
    path: Seq<char>,
    name: Seq<char>,
) -> bool {
    &&& after == (RequestView {
        captures: after.captures,
        request_tab: RequestTab::Capture,
        ..before
    })
    &&& rows::capture_rows_of(after.captures@) == rows::capture_rows_of(before.captures@).push(
        new_capture(path, name),
    )
}

/// What adding an assertion does.
pub open spec fn assertion_pushed(
    before: RequestView,
    after: RequestView,
    path: Seq<char>,
) -> bool {
    &&& after == (RequestView {
        assertions: after.assertions,
        request_tab: RequestTab::Assert,
        ..before
    })
    &&& rows::assertion_rows_of(after.assertions@) == rows::assertion_rows_of(
        before.assertions@,
    ).push(new_assertion(path))
}

/// What flipping a row does: nothing where there is no such row.
pub open spec fn is_toggled(
    before: RequestView,
    after: RequestView,
    kind: RowKind,
    ix: int,
) -> bool {
    if ix >= row_count(before, kind) {
        &&& after.kind@ == before.kind@
        &&& after == (RequestView { kind: after.kind, headers: after.headers, ..before })
        &&& after.headers@ == before.headers@
    } else {
        match kind {
            RowKind::Header => {
                &&& after == (RequestView { headers: after.headers, ..before })
                &&& rows::rows_of(after.headers@) == rows::rows_of(before.headers@).update(
                    ix,
                    rows::rows_of(before.headers@)[ix].flipped(),
                )
            },
            RowKind::Capture => {
                let views = rows::capture_rows_of(before.captures@);
                &&& after == (RequestView { captures: after.captures, ..before })
                &&& rows::capture_rows_of(after.captures@) == views.update(
                    ix,
                    CaptureRowView { enabled: !views[ix].enabled, ..views[ix] },
                )
            },
            RowKind::Assert => {
                let views = rows::assertion_rows_of(before.assertions@);
                &&& after == (RequestView { assertions: after.assertions, ..before })
                &&& rows::assertion_rows_of(after.assertions@) == views.update(
                    ix,
                    AssertionRowView { enabled: !views[ix].enabled, ..views[ix] },
                )
            },
            _ => match before.kind@ {
                KindEditorView::Http(http) => only_http_changed(
                    before,
                    after,
                    with_row_flipped(http, kind, ix),
                ),
                _ => false,
            },
        }
    }
}

/// What removing a row does: nothing where there is no such row.
pub open spec fn is_removed(
    before: RequestView,
    after: RequestView,
    kind: RowKind,
    ix: int,
) -> bool {
    if ix >= row_count(before, kind) {
        &&& after.kind@ == before.kind@
        &&& after == (RequestView { kind: after.kind, ..before })
    } else {
        match kind {
            RowKind::Header => {
                &&& after == (RequestView { headers: after.headers, ..before })
                &&& rows::rows_of(after.headers@) == rows::rows_of(before.headers@).remove(ix)
            },
            RowKind::Capture => {
                &&& after == (RequestView { captures: after.captures, ..before })
                &&& rows::capture_rows_of(after.captures@) == rows::capture_rows_of(
                    before.captures@,
                ).remove(ix)
            },
            RowKind::Assert => {
                &&& after == (RequestView { assertions: after.assertions, ..before })
                &&& rows::assertion_rows_of(after.assertions@) == rows::assertion_rows_of(
                    before.assertions@,
                ).remove(ix)
            },
            _ => match before.kind@ {
                KindEditorView::Http(http) => only_http_changed(
                    before,
                    after,
                    with_row_removed(http, kind, ix),
                ),
                _ => false,
            },
        }
    }
}

/// Three steps through the operators come back.
pub proof fn the_operators_cycle(op: Op)
    ensures
        next_op(op) != op,
        next_op(next_op(next_op(op))) == op,
{
}

/// Muting a row and sending it again disturbs nothing that was typed.
pub proof fn flipping_a_row_twice_changes_nothing(row: RowView)
    ensures
        row.flipped().flipped() == row,
        row.flipped().name == row.name,
        row.flipped().value == row.value,
{
}

/// Switching a part to a file and back loses nothing.
pub proof fn a_part_keeps_its_text(part: PartRowView, is_file: bool)
    ensures
        (PartRowView { is_file: part.is_file, ..(PartRowView { is_file, ..part }) }) == part,
        (PartRowView { is_file, ..part }).row == part.row,
{
}

/// Flipping a header flips that one and leaves what is typed in it, the other headers and
/// everything else.
pub proof fn one_header_is_flipped(before: RequestView, after: RequestView, ix: int, k: int)
    requires
        is_toggled(before, after, RowKind::Header, ix),
        0 <= ix,
        0 <= k < before.headers.len(),
    ensures
        after.headers.len() == before.headers.len(),
        after.headers[k].name@ == before.headers[k].name@,
        after.headers[k].value@ == before.headers[k].value@,
        k == ix ==> after.headers[k].enabled == !before.headers[k].enabled,
        k != ix ==> after.headers[k].enabled == before.headers[k].enabled,
        after.captures == before.captures && after.assertions == before.assertions && after.url
            == before.url && after.kind@ == before.kind@,
{
    let was = rows::rows_of(before.headers@);
    let now = rows::rows_of(after.headers@);
    assert(was.len() == before.headers.len() && now.len() == after.headers.len());
    if ix < before.headers.len() {
        assert(now[k] == after.headers[k]@ && was[k] == before.headers[k]@);
    }
}

/// Flipping a capture flips that one and leaves what is typed in it and the others.
pub proof fn one_capture_is_flipped(before: RequestView, after: RequestView, ix: int, k: int)
    requires
        is_toggled(before, after, RowKind::Capture, ix),
        0 <= ix,
        0 <= k < before.captures.len(),
    ensures
        after.captures.len() == before.captures.len(),
        after.captures[k].path@ == before.captures[k].path@,
        after.captures[k].name@ == before.captures[k].name@,
        after.captures[k].secret == before.captures[k].secret,
        k == ix ==> after.captures[k].enabled == !before.captures[k].enabled,
        k != ix ==> after.captures[k].enabled == before.captures[k].enabled,
        after.headers@ == before.headers@ && after.assertions == before.assertions && after.kind@
            == before.kind@,
{
    let was = rows::capture_rows_of(before.captures@);
    let now = rows::capture_rows_of(after.captures@);
    assert(was.len() == before.captures.len() && now.len() == after.captures.len());
    if ix < before.captures.len() {
        assert(now[k] == after.captures[k]@ && was[k] == before.captures[k]@);
    }
}

/// Flipping an assertion flips that one and leaves what is typed in it and the others.
pub proof fn one_assertion_is_flipped(before: RequestView, after: RequestView, ix: int, k: int)
    requires
        is_toggled(before, after, RowKind::Assert, ix),
        0 <= ix,
        0 <= k < before.assertions.len(),
    ensures
        after.assertions.len() == before.assertions.len(),
        after.assertions[k].path@ == before.assertions[k].path@,
        after.assertions[k].op == before.assertions[k].op,
        after.assertions[k].value@ == before.assertions[k].value@,
        k == ix ==> after.assertions[k].enabled == !before.assertions[k].enabled,
        k != ix ==> after.assertions[k].enabled == before.assertions[k].enabled,
        after.headers@ == before.headers@ && after.captures == before.captures && after.kind@
            == before.kind@,
{
    let was = rows::assertion_rows_of(before.assertions@);
    let now = rows::assertion_rows_of(after.assertions@);
    assert(was.len() == before.assertions.len() && now.len() == after.assertions.len());
    if ix < before.assertions.len() {
        assert(now[k] == after.assertions[k]@ && was[k] == before.assertions[k]@);
    }
}

/// Flipping a row of the query, the form or the parts flips that row alone: no other row and no
/// other table changes, nor does what the row holds.
pub proof fn one_row_of_the_body_is_flipped(
    before: RequestView,
    after: RequestView,
    kind: RowKind,
    ix: int,
    k: int,
)
    requires
        is_toggled(before, after, kind, ix),
        kind is Query || kind is Form || kind is Multipart,
        before.kind@ is Http,
        0 <= ix,
    ensures
        after.kind@ is Http,
        ({
            let was = before.kind@->Http_0;
            let now = after.kind@->Http_0;
            &&& now.query.len() == was.query.len() && now.form.len() == was.form.len()
            &&& now.multipart.len() == was.multipart.len()
            &&& now.method == was.method && now.body_type == was.body_type && now.body_editor
                == was.body_editor && now.binary_path == was.binary_path
            &&& 0 <= k < was.query.len() ==> now.query[k].name == was.query[k].name
                && now.query[k].value == was.query[k].value && (now.query[k].enabled
                != was.query[k].enabled <==> kind is Query && k == ix)
            &&& 0 <= k < was.form.len() ==> now.form[k].name == was.form[k].name
                && now.form[k].value == was.form[k].value && (now.form[k].enabled
                != was.form[k].enabled <==> kind is Form && k == ix)
            &&& 0 <= k < was.multipart.len() ==> now.multipart[k].row.name
                == was.multipart[k].row.name && now.multipart[k].row.value
                == was.multipart[k].row.value && now.multipart[k].is_file
                == was.multipart[k].is_file && (now.multipart[k].row.enabled
                != was.multipart[k].row.enabled <==> kind is Multipart && k == ix)
        }),
        after.headers@ == before.headers@ && after.captures == before.captures && after.assertions
            == before.assertions,
{
}

/// Removing a row of a list of headers, captures or assertions takes that row out: those before it
/// stay, those after it move up by one, and the other lists are left.
pub proof fn one_row_is_removed(before: RequestView, after: RequestView, ix: int, k: int)
    requires
        0 <= ix,
    ensures
        is_removed(before, after, RowKind::Header, ix) && ix < before.headers.len() ==> {
            &&& after.headers.len() == before.headers.len() - 1
            &&& 0 <= k < ix ==> after.headers[k]@ == before.headers[k]@
            &&& ix <= k < after.headers.len() ==> after.headers[k]@ == before.headers[k + 1]@
            &&& after.captures == before.captures && after.assertions == before.assertions
            &&& after.kind == before.kind
        },
        is_removed(before, after, RowKind::Capture, ix) && ix < before.captures.len() ==> {
            &&& after.captures.len() == before.captures.len() - 1
            &&& 0 <= k < ix ==> after.captures[k]@ == before.captures[k]@
            &&& ix <= k < after.captures.len() ==> after.captures[k]@ == before.captures[k + 1]@
            &&& after.headers == before.headers && after.assertions == before.assertions
            &&& after.kind == before.kind
        },
        is_removed(before, after, RowKind::Assert, ix) && ix < before.assertions.len() ==> {
            &&& after.assertions.len() == before.assertions.len() - 1
            &&& 0 <= k < ix ==> after.assertions[k]@ == before.assertions[k]@
            &&& ix <= k < after.assertions.len() ==> after.assertions[k]@ == before.assertions[k
                + 1]@
            &&& after.headers == before.headers && after.captures == before.captures
            &&& after.kind == before.kind
        },
        is_removed(before, after, RowKind::Header, ix) && ix >= before.headers.len()
            ==> after.headers == before.headers && after.kind@ == before.kind@,
        is_removed(before, after, RowKind::Capture, ix) && ix >= before.captures.len()
            ==> after.captures == before.captures && after.kind@ == before.kind@,
        is_removed(before, after, RowKind::Assert, ix) && ix >= before.assertions.len()
            ==> after.assertions == before.assertions && after.kind@ == before.kind@,
{
    let h0 = rows::rows_of(before.headers@);
    let h1 = rows::rows_of(after.headers@);
    assert(h0.len() == before.headers.len() && h1.len() == after.headers.len());
    let c0 = rows::capture_rows_of(before.captures@);
    let c1 = rows::capture_rows_of(after.captures@);
    assert(c0.len() == before.captures.len() && c1.len() == after.captures.len());
    let a0 = rows::assertion_rows_of(before.assertions@);
    let a1 = rows::assertion_rows_of(after.assertions@);
    assert(a0.len() == before.assertions.len() && a1.len() == after.assertions.len());
    if 0 <= k < ix {
        assert(is_removed(before, after, RowKind::Header, ix) && ix < h0.len() ==> h1[k] == h0[k]);
        assert(is_removed(before, after, RowKind::Capture, ix) && ix < c0.len() ==> c1[k] == c0[k]);
        assert(is_removed(before, after, RowKind::Assert, ix) && ix < a0.len() ==> a1[k] == a0[k]);
    }
    if ix <= k {
        assert(is_removed(before, after, RowKind::Header, ix) && k < h1.len() ==> h1[k] == h0[k
            + 1] || ix >= h0.len());
        assert(is_removed(before, after, RowKind::Capture, ix) && k < c1.len() ==> c1[k] == c0[k
            + 1] || ix >= c0.len());
        assert(is_removed(before, after, RowKind::Assert, ix) && k < a1.len() ==> a1[k] == a0[k
            + 1] || ix >= a0.len());
    }
}

/// Removing a row of the query, the form or the parts takes it out of its own table alone.
pub proof fn one_row_of_the_body_is_removed(http: HttpEditorView, ix: int)
    ensures
        0 <= ix < http.query.len() ==> with_row_removed(http, RowKind::Query, ix) == (
        HttpEditorView { query: http.query.take(ix) + http.query.skip(ix + 1), ..http }),
        0 <= ix < http.form.len() ==> with_row_removed(http, RowKind::Form, ix) == (
        HttpEditorView { form: http.form.take(ix) + http.form.skip(ix + 1), ..http }),
        0 <= ix < http.multipart.len() ==> with_row_removed(http, RowKind::Multipart, ix) == (
        HttpEditorView { multipart: http.multipart.take(ix) + http.multipart.skip(ix + 1), ..http }),
        http_rows(http, RowKind::Query) == http.query.len(),
        http_rows(http, RowKind::Form) == http.form.len(),
        http_rows(http, RowKind::Multipart) == http.multipart.len(),
{
    if 0 <= ix < http.query.len() {
        assert(http.query.remove(ix) =~= http.query.take(ix) + http.query.skip(ix + 1));
    }
    if 0 <= ix < http.form.len() {
        assert(http.form.remove(ix) =~= http.form.take(ix) + http.form.skip(ix + 1));
    }
    if 0 <= ix < http.multipart.len() {
        assert(http.multipart.remove(ix) =~= http.multipart.take(ix) + http.multipart.skip(ix + 1));
    }
}

/// A row that is added comes last in its own table, is sent, and is empty; no other row and no
/// other table changes.
pub proof fn an_added_row_is_empty_and_last(http: HttpEditorView)
    ensures
        ({
            let now = with_row_added(http, RowKind::Query);
            &&& now == (HttpEditorView { query: now.query, ..http })
            &&& now.query.len() == http.query.len() + 1 && now.query.drop_last() == http.query
            &&& now.query.last().enabled && now.query.last().name.surface.text.len() == 0
                && now.query.last().value.surface.text.len() == 0
        }),
        ({
            let now = with_row_added(http, RowKind::Form);
            &&& now == (HttpEditorView { form: now.form, ..http })
            &&& now.form.len() == http.form.len() + 1 && now.form.drop_last() == http.form
            &&& now.form.last().enabled && now.form.last().name.surface.text.len() == 0
                && now.form.last().value.surface.text.len() == 0
        }),
        ({
            let now = with_row_added(http, RowKind::Multipart);
            &&& now == (HttpEditorView { multipart: now.multipart, ..http })
            &&& now.multipart.len() == http.multipart.len() + 1 && now.multipart.drop_last()
                == http.multipart
            &&& now.multipart.last().row.enabled && !now.multipart.last().is_file
                && now.multipart.last().row.name.surface.text.len() == 0
                && now.multipart.last().row.value.surface.text.len() == 0
        }),
{
    text_input::lemma_single_line_stays(Seq::empty());
    assert(with_row_added(http, RowKind::Query).query.drop_last() =~= http.query);
    assert(with_row_added(http, RowKind::Form).form.drop_last() =~= http.form);
    assert(with_row_added(http, RowKind::Multipart).multipart.drop_last() =~= http.multipart);
}

/// A capture or an assertion that is added comes last on the tab that shows it, enabled, with what
/// it was given and nothing else; the ones before it stay.
pub proof fn an_added_rule_holds_what_it_was_given(
    before: RequestView,
    after: RequestView,
    path: Seq<char>,
    name: Seq<char>,
    k: int,
)
    requires
        text_input::is_single_line(path),
        text_input::is_single_line(name),
    ensures
        capture_pushed(before, after, path, name) ==> {
            &&& after.request_tab == RequestTab::Capture
            &&& after.captures.len() == before.captures.len() + 1
            &&& 0 <= k < before.captures.len() ==> after.captures[k]@ == before.captures[k]@
            &&& ({
                let added = after.captures[after.captures.len() - 1];
                &&& added.enabled && !added.secret
                &&& added.path@.surface.text == path
                &&& added.name@.surface.text == name
            })
            &&& after.assertions == before.assertions && after.headers == before.headers
        },
        assertion_pushed(before, after, path) ==> {
            &&& after.request_tab == RequestTab::Assert
            &&& after.assertions.len() == before.assertions.len() + 1
            &&& 0 <= k < before.assertions.len() ==> after.assertions[k]@ == before.assertions[k]@
            &&& ({
                let added = after.assertions[after.assertions.len() - 1];
                &&& added.enabled && added.op == Op::Equals
                &&& added.path@.surface.text == path
                &&& added.value@.surface.text.len() == 0
            })
            &&& after.captures == before.captures && after.headers == before.headers
        },
{
    text_input::lemma_single_line_stays(path);
    text_input::lemma_single_line_stays(name);
    text_input::lemma_single_line_stays(Seq::empty());
    let c0 = rows::capture_rows_of(before.captures@);
    let c1 = rows::capture_rows_of(after.captures@);
    assert(c0.len() == before.captures.len() && c1.len() == after.captures.len());
    let a0 = rows::assertion_rows_of(before.assertions@);
    let a1 = rows::assertion_rows_of(after.assertions@);
    assert(a0.len() == before.assertions.len() && a1.len() == after.assertions.len());
    if capture_pushed(before, after, path, name) {
        assert(c1[c0.len() as int] == after.captures[after.captures.len() - 1]@);
        if 0 <= k < c0.len() {
            assert(c1[k] == c0[k]);
        }
    }
    if assertion_pushed(before, after, path) {
        assert(a1[a0.len() as int] == after.assertions[after.assertions.len() - 1]@);
        if 0 <= k < a0.len() {
            assert(a1[k] == a0[k]);
        }
    }
}

/// The operators come round in one order, from whether there is a value to what it equals to what
/// it contains.
pub proof fn the_operators_come_round_in_order()
    ensures
        next_op(Op::Exists) == Op::Equals,
        next_op(next_op(Op::Exists)) == Op::Contains,
        next_op(next_op(next_op(Op::Exists))) == Op::Exists,
{
}

/// The row that holds focus does hold it, is the first of its table that does, and no table before
/// its own has one; where none is given, no row holds focus. A kind without the body's tables has
/// none of their rows.
pub proof fn the_focused_row_holds_focus(focus: RowFocus, is_http: bool)
    ensures
        ({
            let any = |flags: Seq<bool>| exists|i: int| 0 <= i < flags.len() && #[trigger] flags[i];
            let first = |flags: Seq<bool>, ix: usize|
                ix < flags.len() && flags[ix as int] && forall|i: int|
                    0 <= i < ix ==> !#[trigger] flags[i];
            let body = is_http && (any(focus.query@) || any(focus.form@) || any(focus.multipart@));
            match focused(focus, is_http) {
                Some((RowKind::Header, ix)) => first(focus.headers@, ix),
                Some((RowKind::Query, ix)) => is_http && first(focus.query@, ix) && !any(
                    focus.headers@,
                ),
                Some((RowKind::Form, ix)) => is_http && first(focus.form@, ix) && !any(
                    focus.headers@,
                ) && !any(focus.query@),
                Some((RowKind::Multipart, ix)) => is_http && first(focus.multipart@, ix) && !any(
                    focus.headers@,
                ) && !any(focus.query@) && !any(focus.form@),
                Some((RowKind::Capture, ix)) => first(focus.captures@, ix) && !any(focus.headers@)
                    && !body,
                Some((RowKind::Assert, ix)) => first(focus.assertions@, ix) && !any(focus.headers@)
                    && !body && !any(focus.captures@),
                None => !any(focus.headers@) && !body && !any(focus.captures@) && !any(
                    focus.assertions@,
                ),
            }
        }),
{
    assert(focus.headers.len() == focus.headers@.len() && focus.query.len() == focus.query@.len());
    assert(focus.form.len() == focus.form@.len() && focus.multipart.len()
        == focus.multipart@.len());
    assert(focus.captures.len() == focus.captures@.len() && focus.assertions.len()
        == focus.assertions@.len());
    lemma_first_set(focus.headers@);
    lemma_first_set(focus.query@);
    lemma_first_set(focus.form@);
    lemma_first_set(focus.multipart@);
    lemma_first_set(focus.captures@);
    lemma_first_set(focus.assertions@);
}

proof fn lemma_first_set(flags: Seq<bool>)
    requires
        flags.len() <= usize::MAX,
    ensures
        first_set(flags) is None <==> !(exists|i: int| 0 <= i < flags.len() && #[trigger] flags[i]),
        first_set(flags) matches Some(ix) ==> ix < flags.len() && flags[ix as int] && forall|i: int|
            0 <= i < ix ==> !#[trigger] flags[i],
{
    crate::lists::nothing_is_found_later_than_it_stands(flags, true, 0);
    let at = crate::lists::first_at(flags, true, 0);
    crate::lists::lemma_first_at(flags, true, 0);
    if exists|i: int| 0 <= i < flags.len() && #[trigger] flags[i] {
        let i = choose|i: int| 0 <= i < flags.len() && #[trigger] flags[i];
        assert(flags[i] == true);
    }
    assert forall|i: int| 0 <= i < at implies !#[trigger] flags[i] by {
        assert(flags[i] != true);
    }
}

proof fn lemma_declared_at(rows: Seq<RowView>, from: int)
    requires
        0 <= from <= rows.len(),
    ensures
        from <= declared_at(rows, from) <= rows.len(),
        declared_at(rows, from) < rows.len() ==> declares_type(rows[declared_at(rows, from)]),
        forall|i: int| from <= i < declared_at(rows, from) ==> !declares_type(#[trigger] rows[i]),
    decreases rows.len() - from,
{
    if from < rows.len() && !declares_type(rows[from]) {
        lemma_declared_at(rows, from + 1);
    }
}

/// A header that is sent and names the content type, in any case, is held against the body: only
/// what stands before its parameters counts, in any case and without the whitespace around it. The
/// first such header is the one that counts.
pub proof fn a_declared_type_is_held_against_the_body(
    headers: Seq<RowView>,
    body: BodyContent,
    at: int,
    kind: Seq<char>,
    parameters: Seq<char>,
)
    requires
        0 <= at < headers.len(),
        headers[at].enabled,
        strings::lowered(strings::trimmed(headers[at].name.surface.text)) == "content-type"@,
        forall|i: int|
            0 <= i < at ==> !(#[trigger] headers[i]).enabled || strings::lowered(
                strings::trimmed(headers[i].name.surface.text),
            ) != "content-type"@,
        !kind.contains(';'),
        headers[at].value.surface.text == kind || headers[at].value.surface.text == kind.push(';')
            + parameters,
    ensures
        body matches BodyContent::Raw { kind: raw, .. } ==> conflict(headers, body) == (
        if strings::lowered(strings::trimmed(kind)) == strings::lowered(raw.content_type) {
            None
        } else {
            Some((headers[at].value.surface.text, raw.content_type))
        }),
        body is Form ==> conflict(headers, body) == (if strings::lowered(strings::trimmed(kind))
            == "application/x-www-form-urlencoded"@ {
            None
        } else {
            Some((headers[at].value.surface.text, "application/x-www-form-urlencoded"@))
        }),
        body is Empty || body is Multipart || body is Binary ==> conflict(headers, body) is None,
{
    lemma_small_literals();
    lemma_declared_at(headers, 0);
    let found = declared_at(headers, 0);
    assert(declares_type(headers[at]));
    if found < at {
        assert(declares_type(headers[found]));
    } else if at < found {
        assert(!declares_type(headers[at]));
    }
    let declared = headers[at].value.surface.text;
    strings::lemma_split_plain(kind, ';');
    if declared != kind {
        lemma_split_first(kind, parameters, ';');
    }
    assert(strings::split_on(declared, ';')[0] == kind);
}

/// Without a header that is sent and names the content type, nothing disagrees.
pub proof fn an_undeclared_type_disagrees_with_nothing(headers: Seq<RowView>, body: BodyContent)
    requires
        forall|i: int|
            0 <= i < headers.len() ==> !(#[trigger] headers[i]).enabled || strings::lowered(
                strings::trimmed(headers[i].name.surface.text),
            ) != "content-type"@,
    ensures
        conflict(headers, body) is None,
{
    lemma_small_literals();
    lemma_declared_at(headers, 0);
}

proof fn lemma_small_literals()
    ensures
        strings::lowered("content-type"@) == "content-type"@,
        strings::lowered("application/x-www-form-urlencoded"@)
            == "application/x-www-form-urlencoded"@,
{
    reveal_strlit("content-type");
    reveal_strlit("application/x-www-form-urlencoded");
    assert(strings::lowered("content-type"@) =~= "content-type"@);
    assert(strings::lowered("application/x-www-form-urlencoded"@)
        =~= "application/x-www-form-urlencoded"@);
}

proof fn lemma_split_first(first: Seq<char>, rest: Seq<char>, mark: char)
    requires
        !first.contains(mark),
    ensures
        strings::split_on(first.push(mark) + rest, mark).len() > 1,
        strings::split_on(first.push(mark) + rest, mark)[0] == first,
    decreases rest.len(),
{
    let whole = first.push(mark) + rest;
    if rest.len() == 0 {
        assert(whole =~= first.push(mark));
        assert(whole.drop_last() =~= first);
        strings::lemma_split_plain(first, mark);
    } else {
        assert(whole.drop_last() =~= first.push(mark) + rest.drop_last());
        lemma_split_first(first, rest.drop_last(), mark);
    }
}

/// Focus goes to something of the body that is drawn, and nowhere only where nothing is.
pub proof fn focus_goes_to_what_is_drawn(http: HttpEditorView)
    ensures
        http_focus(http) is Editor <==> http.body_type is Raw,
        http_focus(http) is FormRow <==> http.body_type is Form && http.form.len() > 0,
        http_focus(http) is PartRow <==> http.body_type is Multipart && http.multipart.len() > 0,
{
}

/// A table has the rows that are drawn in it, and a kind without the table has none.
pub proof fn a_table_counts_its_own_rows(view: RequestView)
    ensures
        row_count(view, RowKind::Header) == view.headers.len(),
        row_count(view, RowKind::Capture) == view.captures.len(),
        row_count(view, RowKind::Assert) == view.assertions.len(),
        view.kind@ matches KindEditorView::Http(http) ==> row_count(view, RowKind::Query)
            == http.query.len() && row_count(view, RowKind::Form) == http.form.len() && row_count(
            view,
            RowKind::Multipart,
        ) == http.multipart.len(),
        view.kind@ !is Http ==> row_count(view, RowKind::Query) == 0 && row_count(
            view,
            RowKind::Form,
        ) == 0 && row_count(view, RowKind::Multipart) == 0,
{
}

} // verus!
