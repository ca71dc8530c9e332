//! The buffer itself: what it holds, how it is opened, read back and compared, and which run of
//! it shows.

use crate::body_view::{BodyView, HtmlView};
use crate::input::editor::Editor;
use crate::input::text_input;
use crate::input::text_input::TextInput;
use crate::input::words;
use crate::kinds;
use crate::kinds::{HttpEditor, KindEditor};
use crate::request;
use crate::request::{Header, Method, RequestSettings, RequestSpec, SpecView};
use crate::request_view::rows;
use crate::request_view::rows::{AssertionRow, CaptureRow, KeyValueRow};
use crate::request_view::search::TextSearch;
use crate::request_view::tabs;
use crate::request_view::tabs::{RequestTab, ResponseView};
use crate::strings;
use crate::transcript::Transcript;
use vstd::prelude::*;
use vstd::string::*;

verus! {

/// How many earlier responses are kept to compare with.
pub const HISTORY_LIMIT: usize = 10;

/// A response, as far as a buffer decides by it.
pub struct ResponseData {
    /// The handle its bytes, headers and times are kept under.
    pub run: u64,
    pub status: u16,
    pub content_type: Option<String>,
}

/// Why a send failed, as it reads.
pub struct EngineError {
    pub text: String,
}

/// What is known of a request that has not finished. Times are in nanoseconds.
pub struct InFlight {
    pub job: u64,
    pub status: Option<(u16, String)>,
    pub headers: Vec<Header>,
    pub ttfb: Option<u64>,
    pub received: usize,
    pub total: Option<usize>,
}

/// Which table a row belongs to.
#[derive(Clone, Copy, Debug, PartialEq, Eq, Structural)]
pub enum RowKind {
    Header,
    Query,
    /// A field of a form.
    Form,
    /// A part of a multipart body.
    Multipart,
    /// A capture rule.
    Capture,
    /// An assertion.
    Assert,
}

/// Why captures run. It decides whether a refusal is reported.
#[derive(Clone, Copy, Debug, PartialEq, Eq, Structural)]
pub enum CaptureTrigger {
    Send,
    Requested,
}

/// One request buffer. The inputs own their texts; the request is read off them whenever it is
/// needed, so there is no second copy to fall out of step.
pub struct RequestView {
    pub id: u64,
    pub name: String,
    /// The request as its file has it.
    pub baseline: RequestSpec,
    /// The file this buffer is backed by, if any.
    pub path: Option<String>,
    pub url: TextInput,
    pub headers: Vec<KeyValueRow>,
    /// Everything that differs by protocol.
    pub kind: KindEditor,
    pub captures: Vec<CaptureRow>,
    pub assertions: Vec<AssertionRow>,
    /// The status a run expects, as typed.
    pub expect_status: TextInput,
    pub settings: RequestSettings,
    pub response: Option<ResponseData>,
    /// How the response differs from the one before, by the handle the comparison is kept under.
    pub diff: Option<u64>,
    /// The line-by-line comparison, likewise.
    pub body_diff: Option<u64>,
    /// Earlier responses, newest first.
    pub history: Vec<ResponseData>,
    /// Which run shows: none back is the live one, then into the history.
    pub viewing: usize,
    pub response_view: ResponseView,
    pub request_tab: RequestTab,
    /// Which half of an HTML body shows, for as long as this buffer is open: it outlasts the body
    /// it was chosen on.
    pub html_view: HtmlView,
    /// The indexed body, once it is.
    pub body_view: Option<BodyView>,
    /// Which environment a capture writes into, taken as the request is sent.
    pub capture_target: Option<String>,
    pub search: Option<TextSearch>,
    /// The find bar over what is being sent. Both may be open.
    pub body_search: Option<TextSearch>,
    pub inflight: Option<InFlight>,
    /// The conversation, where this buffer holds one. It outlives the connection.
    pub session: Option<Transcript>,
    /// Which row of the conversation is shown in full.
    pub session_selected: Option<usize>,
    pub error: Option<EngineError>,
    pub status: Option<String>,
}

/// An expected status as it is typed.
pub open spec fn status_digits(status: Option<u16>) -> Seq<char> {
    match status {
        Some(code) => strings::decimal(code as nat),
        None => Seq::empty(),
    }
}

/// An expected status as it is read: nothing where the text is not a status code.
pub open spec fn status_read(text: Seq<char>) -> Option<u16> {
    match strings::number_in(strings::trimmed(text), u16::MAX as int) {
        Some(code) => Some(code as u16),
        None => None,
    }
}

impl RequestView {
    pub open spec fn wf(&self) -> bool {
        &&& self.edits_wf()
        &&& self.runs_wf()
        &&& self.body_view matches Some(body) ==> body@.wf()
        &&& self.search matches Some(search) ==> search.wf()
        &&& self.body_search matches Some(search) ==> search.wf()
        &&& self.session matches Some(session) ==> session.wf()
    }

    /// Every surface the request is edited through is sound.
    pub open spec fn edits_wf(&self) -> bool {
        &&& self.url@.wf()
        &&& rows::rows_wf(rows::rows_of(self.headers@))
        &&& self.kind@.wf()
        &&& rows::capture_rows_wf(rows::capture_rows_of(self.captures@))
        &&& rows::assertion_rows_wf(rows::assertion_rows_of(self.assertions@))
        &&& self.expect_status@.wf()
    }

    /// The history is bounded, and the run that shows is one that is kept.
    pub open spec fn runs_wf(&self) -> bool {
        &&& self.history.len() <= HISTORY_LIMIT
        &&& self.viewing <= self.history.len()
    }

    /// The request as it appears.
    pub open spec fn said(&self) -> SpecView {
        SpecView {
            id: self.id,
            name: self.name@,
            url: self.url@.surface.text,
            headers: rows::pairs_of(rows::rows_of(self.headers@)),
            settings: self.settings@,
            kind: self.kind@.spec(),
            captures: rows::rules_of(rows::capture_rows_of(self.captures@)),
            expect_status: status_read(self.expect_status@.surface.text),
            assertions: rows::checks_of(rows::assertion_rows_of(self.assertions@)),
        }
    }

    /// The buffer has been opened on `spec` and not touched since.
    pub open spec fn holds(&self, spec: SpecView) -> bool {
        &&& self.baseline@ == spec
        &&& self.id == spec.id
        &&& self.name@ == spec.name
        &&& self.url@ == text_input::fresh_input(
            spec.url,
            "https://api.example.com/…"@,
            "UrlBar"@,
        )
        &&& rows::rows_of(self.headers@) == rows::fresh_rows(spec.headers, "HeaderCell"@)
        &&& self.kind@ == kinds::kind_editor(spec.kind)
        &&& rows::capture_rows_of(self.captures@) == rows::fresh_captures(spec.captures)
        &&& rows::assertion_rows_of(self.assertions@) == rows::fresh_assertions(spec.assertions)
        &&& self.expect_status@ == text_input::fresh_input(
            status_digits(spec.expect_status),
            "200"@,
            "ExpectStatus"@,
        )
        &&& self.settings@ == spec.settings
    }

    /// No response, run in flight or search of an earlier request is left.
    pub open spec fn is_clear(&self) -> bool {
        &&& self.response is None
        &&& self.diff is None
        &&& self.body_diff is None
        &&& self.history.len() == 0
        &&& self.viewing == 0
        &&& self.body_view is None
        &&& self.inflight is None
        &&& self.error is None
        &&& self.status is None
        &&& self.search is None
        &&& self.body_search is None
    }

    /// The response that shows.
    pub open spec fn shown(&self) -> Option<ResponseData> {
        if self.viewing == 0 {
            self.response
        } else if self.viewing <= self.history.len() {
            Some(self.history[self.viewing - 1])
        } else {
            None
        }
    }

    /// A buffer opened on `spec`, on the tab that its kind opens on.
    pub fn new(spec: RequestSpec) -> (r: RequestView)
        ensures
            r.wf(),
            r.holds(spec@),
            r.is_clear(),
            r.request_tab == RequestTab::Kind(r.kind@.default_tab()),
            r.response_view == ResponseView::Body,
            r.html_view == HtmlView::Text,
            r.path is None,
            r.session is None,
            r.session_selected is None,
            r.capture_target is None,
    {
        let mut view = RequestView {
            id: spec.id,
            name: String::new(),
            baseline: spec.clone(),
            path: None,
            url: TextInput::new("", "", "UrlBar"),
            headers: Vec::new(),
            kind: KindEditor::Http(HttpEditor::new()),
            captures: Vec::new(),
            assertions: Vec::new(),
            expect_status: TextInput::new("", "200", "ExpectStatus"),
            settings: RequestSettings { encoded: String::new() },
            response: None,
            diff: None,
            body_diff: None,
            history: Vec::new(),
            viewing: 0,
            response_view: ResponseView::default(),
            request_tab: RequestTab::default(),
            html_view: HtmlView::default(),
            body_view: None,
            capture_target: None,
            search: None,
            body_search: None,
            inflight: None,
            session: None,
            session_selected: None,
            error: None,
            status: None,
        };
        view.load(spec);
        view.request_tab = RequestTab::Kind(view.kind.default_tab());
        view
    }

    /// Replace what this buffer holds with another request. The tab stays where the new kind has
    /// it. The old request's responses, history and searches go; a conversation stays, with the row
    /// of it that shows, and so does the environment that captures write into.
    pub fn load(&mut self, spec: RequestSpec)
        requires
            old(self).session matches Some(session) ==> session.wf(),
        ensures
            final(self).wf(),
            final(self).holds(spec@),
            final(self).is_clear(),
            final(self).request_tab == (if tabs::strip(kinds::kind_editor(spec@.kind)).contains(
                old(self).request_tab,
            ) {
                old(self).request_tab
            } else {
                RequestTab::Kind(kinds::kind_editor(spec@.kind).default_tab())
            }),
            final(self).path == old(self).path,
            final(self).response_view == old(self).response_view,
            final(self).html_view == old(self).html_view,
            final(self).session == old(self).session,
            final(self).session_selected == old(self).session_selected,
            final(self).capture_target == old(self).capture_target,
    {
        self.baseline = spec.clone();
        let url = TextInput::new(spec.url.as_str(), "https://api.example.com/…", "UrlBar");
        let headers = rows::build_rows(&spec.headers, "HeaderCell");
        // Built before any field is replaced.
        let kind = KindEditor::from_spec(&spec.kind);
        let strip = RequestTab::for_kind(&kind);
        if tabs::position(&strip, self.request_tab) >= strip.len() {
            self.request_tab = RequestTab::Kind(kind.default_tab());
        }
        self.captures = rows::build_captures(&spec.captures);
        self.assertions = rows::build_assertions(&spec.assertions);
        let typed_status = match spec.expect_status {
            Some(code) => strings::decimal_string(code as u64),
            None => String::new(),
        };
        self.expect_status = TextInput::new(typed_status.as_str(), "200", "ExpectStatus");
        self.id = spec.id;
        self.name = spec.name;
        self.kind = kind;
        self.url = url;
        self.headers = headers;
        self.settings = spec.settings;
        self.response = None;
        self.diff = None;
        self.body_diff = None;
        self.history = Vec::new();
        self.viewing = 0;
        self.body_view = None;
        self.inflight = None;
        self.error = None;
        self.status = None;
        self.search = None;
        self.body_search = None;
    }

    /// The HTTP editors, where this buffer is authoring an HTTP request.
    pub fn http(&self) -> (r: Option<&HttpEditor>)
        ensures
            r is Some <==> self.kind@ is Http,
            r matches Some(http) ==> self.kind@ == kinds::KindEditorView::Http(http@),
    {
        self.kind.as_http()
    }

    /// Replace the authoring state with another kind's, on the tab that kind opens on.
    pub fn set_kind(&mut self, kind: KindEditor)
        ensures
            *final(self) == (RequestView {
                kind,
                request_tab: RequestTab::Kind(kind@.default_tab()),
                ..*old(self)
            }),
    {
        self.request_tab = RequestTab::Kind(kind.default_tab());
        self.kind = kind;
    }

    /// The verb, for the kinds that have one.
    pub fn method(&self) -> (r: Option<Method>)
        ensures
            (r matches Some(method) ==> self.kind@.method() == Some(method@)),
            r is None ==> self.kind@.method() is None,
    {
        self.kind.method()
    }

    pub fn set_method(&mut self, method: Method)
        ensures
            final(self).kind@ == old(self).kind@.with_method(method@),
            *final(self) == (RequestView { kind: final(self).kind, ..*old(self) }),
    {
        self.kind.set_method(method);
    }

    /// The text surface that the find bar and the formatter act on.
    pub fn primary_editor(&self) -> (r: Option<&Editor>)
        ensures
            (r matches Some(editor) ==> self.kind@.primary() == Some(editor@)),
            r is None ==> self.kind@.primary() is None,
    {
        self.kind.primary_editor()
    }

    /// The typed expectation as a status code; nothing where the box is empty or holds anything
    /// else.
    pub fn expect_status_value(&self) -> (r: Option<u16>)
        ensures
            r == status_read(self.expect_status@.surface.text),
    {
        let typed = strings::trim(self.expect_status.text());
        strings::parse_u16(typed.as_str())
    }

    /// The request exactly as it appears.
    pub fn spec(&self) -> (r: RequestSpec)
        ensures
            r@ == self.said(),
    {
        RequestSpec {
            expect_status: self.expect_status_value(),
            assertions: rows::read_assertions(&self.assertions),
            captures: rows::read_captures(&self.captures),
            id: self.id,
            name: self.name.clone(),
            url: self.url.text().to_owned(),
            kind: self.kind.to_spec(),
            headers: rows::read_rows(&self.headers),
            settings: self.settings.clone(),
        }
    }

    /// Whether this buffer says anything but what its file says, asked without building the
    /// request. Neither the handle nor the name counts.
    pub fn is_dirty(&self) -> (r: bool)
        ensures
            r == !request::spec_agrees(self.said(), self.baseline@),
    {
        let base = &self.baseline;
        let spine_changed = self.settings.encoded != base.settings.encoded || !strings::same(
            self.url.text(),
            base.url.as_str(),
        ) || !rows::rows_match(&self.headers, &base.headers) || !rows::captures_match(
            &self.captures,
            &base.captures,
        ) || !self.expects(base.expect_status) || !rows::assertions_match(
            &self.assertions,
            &base.assertions,
        );
        if spine_changed {
            return true;
        }
        self.kind.is_dirty(&base.kind)
    }

    /// Whether the typed expectation is `status`.
    fn expects(&self, status: Option<u16>) -> (r: bool)
        ensures
            r == (status_read(self.expect_status@.surface.text) == status),
    {
        match (self.expect_status_value(), status) {
            (Some(typed), Some(was)) => typed == was,
            (None, None) => true,
            _ => false,
        }
    }

    // ---- tabs ---------------------------------------------------------------

    /// Step through the sections of the request.
    pub fn cycle_request_tab(&mut self, delta: isize)
        ensures
            *final(self) == (RequestView {
                request_tab: final(self).request_tab,
                ..*old(self)
            }),
            final(self).request_tab == tabs::stepped(
                old(self).request_tab,
                delta as int,
                old(self).kind@,
            ),
    {
        self.request_tab = self.request_tab.step(delta, &self.kind);
    }

    /// Show a section of the request. Says whether that changed anything.
    pub fn show_request_tab(&mut self, tab: RequestTab) -> (changed: bool)
        ensures
            *final(self) == (RequestView { request_tab: tab, ..*old(self) }),
            changed == (old(self).request_tab != tab),
    {
        if self.request_tab == tab {
            return false;
        }
        self.request_tab = tab;
        true
    }

    /// Step through the sections of the response.
    pub fn cycle_response_view(&mut self, delta: isize)
        ensures
            *final(self) == (RequestView {
                response_view: final(self).response_view,
                ..*old(self)
            }),
            final(self).response_view.place() == crate::lists::wrapped(
                old(self).response_view.place(),
                delta as int,
                4,
            ),
    {
        self.response_view = self.response_view.step(delta);
    }

    /// Show a section of the response. Says whether that changed anything.
    pub fn show_response_view(&mut self, view: ResponseView) -> (changed: bool)
        ensures
            *final(self) == (RequestView { response_view: view, ..*old(self) }),
            changed == (old(self).response_view != view),
    {
        if self.response_view == view {
            return false;
        }
        self.response_view = view;
        true
    }

    /// Swap an HTML body between the text that can be read in it and the markup. `showing` is the
    /// half that the body shows, and nothing where the body is not one that has two. The choice is
    /// kept here too, so the next response opens the way this one is left. Returns the half to show.
    pub fn toggle_html_view(&mut self, showing: Option<HtmlView>) -> (next: Option<HtmlView>)
        ensures
            next == (match showing {
                Some(half) => Some(half.spec_other()),
                None => None,
            }),
            *final(self) == (RequestView {
                html_view: (match next {
                    Some(half) => half,
                    None => old(self).html_view,
                }),
                ..*old(self)
            }),
    {
        match showing {
            Some(half) => {
                let next = half.other();
                self.html_view = next;
                Some(next)
            },
            None => None,
        }
    }

    // ---- runs ---------------------------------------------------------------

    /// The response that shows: the live one, or an earlier run.
    pub fn displayed(&self) -> (r: Option<&ResponseData>)
        ensures
            r is Some <==> self.shown() is Some,
            r matches Some(response) ==> self.shown() == Some(*response),
    {
        if self.viewing == 0 {
            match &self.response {
                Some(response) => Some(response),
                None => None,
            }
        } else if self.viewing <= self.history.len() {
            Some(&self.history[self.viewing - 1])
        } else {
            None
        }
    }

    /// How many runs back the display is.
    pub fn viewing(&self) -> (r: usize)
        ensures
            r == self.viewing,
    {
        self.viewing
    }

    /// The line-by-line comparison, but only where it describes what shows: beside an earlier run
    /// it would be wrong.
    pub fn diff_to_show(&self) -> (r: Option<u64>)
        ensures
            r == (if self.viewing == 0 {
                self.body_diff
            } else {
                None
            }),
    {
        if self.viewing == 0 {
            self.body_diff
        } else {
            None
        }
    }

    /// Every run that can be shown, newest first: how far back it is, and its handle.
    pub fn runs(&self) -> (r: Vec<(usize, u64)>)
        ensures
            r@ == run_list(self.response, self.history@),
    {
        let mut r: Vec<(usize, u64)> = Vec::new();
        if let Some(response) = &self.response {
            r.push((0, response.run));
        }
        let ghost live = r@;
        let mut i: usize = 0;
        proof {
            assert(live =~= live_run(self.response));
            assert(r@ =~= live + earlier_runs(self.history@.take(0)));
        }
        while i < self.history.len()
            invariant
                i <= self.history.len(),
                live == live_run(self.response),
                r@ == live + earlier_runs(self.history@.take(i as int)),
            decreases self.history.len() - i,
        {
            r.push((i + 1, self.history[i].run));
            i = i + 1;
            proof {
                assert(r@ =~= live + earlier_runs(self.history@.take(i as int)));
            }
        }
        proof {
            assert(self.history@.take(i as int) =~= self.history@);
        }
        r
    }

    /// Show a run. Out of range is ignored, as that would blank the pane with no way back. Says
    /// whether the body has to be indexed anew.
    pub fn view_run(&mut self, offset: usize) -> (reindex: bool)
        requires
            old(self).wf(),
        ensures
            final(self).wf(),
            ({
                let moves = offset <= old(self).history.len() && offset != old(self).viewing;
                &&& !moves ==> *final(self) == *old(self) && !reindex
                &&& moves ==> *final(self) == (RequestView {
                    viewing: offset,
                    body_view: None,
                    ..*old(self)
                })
                &&& moves ==> reindex == (final(self).shown() is Some)
            }),
    {
        if offset > self.history.len() || self.viewing == offset {
            return false;
        }
        self.viewing = offset;
        self.index_body()
    }

    /// Forget the indexed body. Says whether there is a body to index in its place.
    pub fn index_body(&mut self) -> (index: bool)
        ensures
            *final(self) == (RequestView { body_view: None, ..*old(self) }),
            index == (old(self).shown() is Some),
    {
        self.body_view = None;
        match self.displayed() {
            Some(_) => true,
            None => false,
        }
    }
}

/// The live run, as far as there is one.
pub open spec fn live_run(response: Option<ResponseData>) -> Seq<(usize, u64)> {
    match response {
        Some(response) => seq![(0usize, response.run)],
        None => Seq::empty(),
    }
}

/// The earlier runs, each with how far back it is.
pub open spec fn earlier_runs(history: Seq<ResponseData>) -> Seq<(usize, u64)> {
    Seq::new(history.len(), |i: int| ((i + 1) as usize, history[i].run))
}

/// Every run, newest first.
pub open spec fn run_list(
    response: Option<ResponseData>,
    history: Seq<ResponseData>,
) -> Seq<(usize, u64)> {
    live_run(response) + earlier_runs(history)
}

/// Whether a buffer can hold a request as it is: cells hold one line each, and the kind's editors
/// can hold their half.
pub open spec fn is_editable(spec: SpecView) -> bool {
    &&& text_input::is_single_line(spec.url)
    &&& forall|i: int|
        0 <= i < spec.headers.len() ==> kinds::http::pair_is_single_line(#[trigger] spec.headers[i])
    &&& forall|i: int|
        0 <= i < spec.captures.len() ==> text_input::is_single_line(
            (#[trigger] spec.captures[i]).path,
        ) && text_input::is_single_line(spec.captures[i].name)
    &&& forall|i: int|
        0 <= i < spec.assertions.len() ==> text_input::is_single_line(
            (#[trigger] spec.assertions[i]).path,
        ) && text_input::is_single_line(spec.assertions[i].value)
    &&& kinds::is_editable(spec.kind)
}

/// An expected status survives being typed and read back.
pub proof fn an_expected_status_is_read_back(status: Option<u16>)
    ensures
        status_read(text_input::single_line(status_digits(status))) == status,
{
    let typed = status_digits(status);
    match status {
        Some(code) => {
            let n = code as nat;
            strings::lemma_decimal(n);
            assert forall|i: int| 0 <= i < typed.len() implies #[trigger] typed[i] != '\n'
                && typed[i] != '\r' && !words::is_whitespace_char(typed[i]) by {
                assert(strings::is_digit(typed[i]));
            }
            text_input::lemma_single_line_stays(typed);
            assert(!words::is_whitespace_char(typed[0]));
            assert(!words::is_whitespace_char(typed[typed.len() - 1]));
            strings::lemma_trimmed_stays(typed);
            strings::a_written_number_is_read_back(n, u16::MAX as int);
        },
        None => {
            text_input::lemma_single_line_stays(typed);
            assert(strings::trimmed(Seq::<char>::empty()) =~= Seq::<char>::empty());
        },
    }
}

/// A buffer that was opened and not touched says what it was opened on, and is not dirty.
pub proof fn a_freshly_loaded_request_is_clean(view: RequestView, spec: SpecView)
    requires
        view.holds(spec),
        is_editable(spec),
    ensures
        view.said() == spec,
        request::spec_agrees(view.said(), view.baseline@),
{
    text_input::lemma_single_line_stays(spec.url);
    kinds::http::lemma_fresh_rows_say_their_pairs(spec.headers, "HeaderCell"@);
    kinds::a_loaded_request_is_read_back(spec.kind);
    an_expected_status_is_read_back(spec.expect_status);
    let rules = rows::rules_of(rows::fresh_captures(spec.captures));
    assert forall|i: int| 0 <= i < spec.captures.len() implies rules[i]
        == #[trigger] spec.captures[i] by {
        text_input::lemma_single_line_stays(spec.captures[i].path);
        text_input::lemma_single_line_stays(spec.captures[i].name);
    }
    assert(rules =~= spec.captures);
    let checks = rows::checks_of(rows::fresh_assertions(spec.assertions));
    assert forall|i: int| 0 <= i < spec.assertions.len() implies checks[i]
        == #[trigger] spec.assertions[i] by {
        text_input::lemma_single_line_stays(spec.assertions[i].path);
        text_input::lemma_single_line_stays(spec.assertions[i].value);
    }
    assert(checks =~= spec.assertions);
}

/// A request says what its boxes hold, row for row: an edit to any of them is an edit to it.
pub proof fn a_request_says_what_its_boxes_hold(view: RequestView)
    ensures
        view.said().id == view.id,
        view.said().name == view.name@,
        view.said().url == view.url@.surface.text,
        view.said().settings == view.settings@,
        view.said().kind == view.kind@.spec(),
        view.said().headers.len() == view.headers.len(),
        view.said().captures.len() == view.captures.len(),
        view.said().assertions.len() == view.assertions.len(),
        forall|i: int|
            0 <= i < view.headers.len() ==> {
                &&& (#[trigger] view.said().headers[i]).enabled == view.headers[i].enabled
                &&& view.said().headers[i].name == view.headers[i].name@.surface.text
                &&& view.said().headers[i].value == view.headers[i].value@.surface.text
            },
        forall|i: int|
            0 <= i < view.captures.len() ==> {
                &&& (#[trigger] view.said().captures[i]).enabled == view.captures[i].enabled
                &&& view.said().captures[i].path == view.captures[i].path@.surface.text
                &&& view.said().captures[i].name == view.captures[i].name@.surface.text
                &&& view.said().captures[i].secret == view.captures[i].secret
            },
        forall|i: int|
            0 <= i < view.assertions.len() ==> {
                &&& (#[trigger] view.said().assertions[i]).enabled == view.assertions[i].enabled
                &&& view.said().assertions[i].path == view.assertions[i].path@.surface.text
                &&& view.said().assertions[i].op == view.assertions[i].op
                &&& view.said().assertions[i].value == view.assertions[i].value@.surface.text
            },
        view.said().expect_status == (match strings::number_in(
            strings::trimmed(view.expect_status@.surface.text),
            0xffff,
        ) {
            Some(code) => Some(code as u16),
            None => None,
        }),
{
}

/// A buffer that is not dirty holds in every box what its file has there: a header that was
/// changed, muted, added or taken out makes it dirty, and so does any other part of it.
pub proof fn a_clean_buffer_holds_what_its_file_has(view: RequestView)
    requires
        request::spec_agrees(view.said(), view.baseline@),
    ensures
        view.url@.surface.text == view.baseline.url@,
        view.settings.encoded@ == view.baseline.settings.encoded@,
        view.headers.len() == view.baseline.headers.len(),
        forall|i: int|
            0 <= i < view.headers.len() ==> {
                &&& (#[trigger] view.headers[i]).enabled == view.baseline.headers[i].enabled
                &&& view.headers[i].name@.surface.text == view.baseline.headers[i].name@
                &&& view.headers[i].value@.surface.text == view.baseline.headers[i].value@
            },
        view.captures.len() == view.baseline.captures.len(),
        forall|i: int|
            0 <= i < view.captures.len() ==> {
                &&& (#[trigger] view.captures[i]).enabled == view.baseline.captures[i].enabled
                &&& view.captures[i].path@.surface.text == view.baseline.captures[i].path@
                &&& view.captures[i].name@.surface.text == view.baseline.captures[i].name@
                &&& view.captures[i].secret == view.baseline.captures[i].secret
            },
        view.assertions.len() == view.baseline.assertions.len(),
        forall|i: int|
            0 <= i < view.assertions.len() ==> {
                &&& (#[trigger] view.assertions[i]).enabled == view.baseline.assertions[i].enabled
                &&& view.assertions[i].path@.surface.text == view.baseline.assertions[i].path@
                &&& view.assertions[i].op == view.baseline.assertions[i].op
                &&& view.assertions[i].value@.surface.text == view.baseline.assertions[i].value@
            },
        status_read(view.expect_status@.surface.text) == view.baseline.expect_status,
        request::kind_agrees(view.kind@.spec(), view.baseline.kind@),
{
    let said = view.said();
    let base = view.baseline@;
    assert(said.headers.len() == base.headers.len());
    assert(said.captures.len() == base.captures.len());
    assert(said.assertions.len() == base.assertions.len());
    assert forall|i: int| 0 <= i < view.headers.len() implies {
        &&& (#[trigger] view.headers[i]).enabled == view.baseline.headers[i].enabled
        &&& view.headers[i].name@.surface.text == view.baseline.headers[i].name@
        &&& view.headers[i].value@.surface.text == view.baseline.headers[i].value@
    } by {
        assert(said.headers[i] == base.headers[i]);
    }
    assert forall|i: int| 0 <= i < view.captures.len() implies {
        &&& (#[trigger] view.captures[i]).enabled == view.baseline.captures[i].enabled
        &&& view.captures[i].path@.surface.text == view.baseline.captures[i].path@
        &&& view.captures[i].name@.surface.text == view.baseline.captures[i].name@
        &&& view.captures[i].secret == view.baseline.captures[i].secret
    } by {
        assert(said.captures[i] == base.captures[i]);
    }
    assert forall|i: int| 0 <= i < view.assertions.len() implies {
        &&& (#[trigger] view.assertions[i]).enabled == view.baseline.assertions[i].enabled
        &&& view.assertions[i].path@.surface.text == view.baseline.assertions[i].path@
        &&& view.assertions[i].op == view.baseline.assertions[i].op
        &&& view.assertions[i].value@.surface.text == view.baseline.assertions[i].value@
    } by {
        assert(said.assertions[i] == base.assertions[i]);
    }
}

/// A buffer whose file says what it says is not dirty: saving makes it clean, and changing back by
/// hand what was changed does too. Neither the handle nor the name it goes by counts.
pub proof fn what_its_file_says_is_not_dirty(view: RequestView)
    requires
        ({
            let said = view.said();
            let base = view.baseline@;
            &&& said.url == base.url
            &&& said.headers == base.headers
            &&& said.settings == base.settings
            &&& said.captures == base.captures
            &&& said.expect_status == base.expect_status
            &&& said.assertions == base.assertions
            &&& said.kind == base.kind
        }),
    ensures
        request::spec_agrees(view.said(), view.baseline@),
{
}

/// Every run that is listed can be shown and shows as itself, every run that can be shown is
/// listed, and none twice: the live one first, and then back through the history.
pub proof fn the_runs_listed_are_those_that_can_be_shown(view: RequestView, offset: usize)
    requires
        view.runs_wf(),
    ensures
        ({
            let list = run_list(view.response, view.history@);
            let shown = (RequestView { viewing: offset, ..view }).shown();
            &&& shown matches Some(response) ==> list.contains((offset, response.run))
            &&& forall|i: int|
                0 <= i < list.len() && (#[trigger] list[i]).0 == offset ==> shown is Some
                    && shown->0.run == list[i].1
            &&& forall|i: int, j: int|
                0 <= i < j < list.len() ==> (#[trigger] list[i]).0 < (#[trigger] list[j]).0
            &&& offset == 0 ==> shown == view.response
            &&& 0 < offset <= view.history.len() ==> shown == Some(view.history[offset - 1])
        }),
{
    let list = run_list(view.response, view.history@);
    let live = live_run(view.response);
    let earlier = earlier_runs(view.history@);
    if offset == 0 {
        if view.response is Some {
            assert(list[0] == live[0]);
        }
    } else if offset <= view.history.len() {
        assert(list[live.len() + offset - 1] == earlier[offset - 1]);
    }
}

} // verus!
