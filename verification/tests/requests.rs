//! A request buffer: what it edits, sends, remembers and publishes.

use zuno::body_view::{BodyView, HtmlView, RowSource, TextLines};
use zuno::kinds::{KindChoice, KindEditor};
use zuno::outline::{Outline, OutlineKind, OutlineRow};
use zuno::request::{
    Assertion, Body, Capture, HttpRequest, KeyValue, Method, Op, RawKind, RequestKind,
    RequestSettings, RequestSpec, WebSocketRequest,
};
use zuno::request_pane::{
    add_control, body_region, body_rows, captures_on, control_id, count_label, count_suffix,
    empty_headline, file_note, limit_note, lines_label, offers_format, part_chip, row_prefix,
    rows_on, secret_hint, section, section_tabs, send_button, takes_value, BodyRegion, Section,
};
use zuno::request_view::session::at_transcript_end;
use zuno::request_view::{
    BodyFocus, BodyType, CaptureStep, CaptureTrigger, Cell, Edge, EngineError, Event, Hits,
    Published, Refusal, RequestTab, RequestView, ResponseData, ResponseView, RowFocus, RowKind,
    HISTORY_LIMIT,
};
use zuno::commands::Action;
use zuno::transcript::{Direction, Frame, Payload, Transport, MAX_TRANSCRIPT_BYTES};

fn spec(kind: RequestKind) -> RequestSpec {
    RequestSpec {
        id: 7,
        name: "Login".into(),
        url: "https://example.com".into(),
        headers: vec![KeyValue {
            enabled: true,
            name: "Accept".into(),
            value: "application/json".into(),
        }],
        settings: RequestSettings { encoded: "{}".into() },
        kind,
        captures: Vec::new(),
        expect_status: Some(204),
        assertions: Vec::new(),
    }
}

fn raw(text: &str) -> RequestKind {
    RequestKind::Http(HttpRequest {
        method: Method::Post,
        query: Vec::new(),
        body: Body::Raw { text: text.into(), kind: RawKind::default() },
    })
}

fn buffer() -> RequestView {
    RequestView::new(spec(raw("one two one")))
}

fn response(run: u64, status: u16) -> ResponseData {
    ResponseData { run, status, content_type: Some("application/json".into()) }
}

/// `{"a":1}` as rows.
fn json_body() -> BodyView {
    let rows = vec![
        OutlineRow { kind: OutlineKind::Open { close: 2 }, depth: 0, key_len: 0, value_len: 1 },
        OutlineRow { kind: OutlineKind::Scalar, depth: 1, key_len: 3, value_len: 1 },
        OutlineRow { kind: OutlineKind::Close, depth: 0, key_len: 0, value_len: 1 },
    ];
    BodyView::build(
        b"{\"a\":1}",
        None,
        false,
        Some(Ok(Outline { rows })),
        TextLines { count: 1, widest: 0, widest_chars: 7 },
    )
}

#[test]
fn a_fresh_buffer_says_what_it_was_given() {
    let mut view = buffer();
    assert!(!view.is_dirty());
    assert_eq!(view.expect_status_value(), Some(204));
    assert_eq!(view.spec().headers[0].value, "application/json");
    view.url.paste("/login");
    assert!(view.is_dirty());
    assert_eq!(view.spec().url, "https://example.com/login");
    view.load(spec(raw("again")));
    assert!(!view.is_dirty());
    view.expect_status.paste("9");
    assert_eq!(view.expect_status_value(), Some(2049));
    view.expect_status.paste("99");
    assert_eq!(view.expect_status_value(), None, "no status is that large");
}

#[test]
fn tabs_follow_the_kind() {
    let mut view = buffer();
    assert_eq!(view.request_tab, RequestTab::Kind(1));
    view.cycle_request_tab(1);
    assert_eq!(view.request_tab, RequestTab::Capture);
    view.set_kind(KindEditor::empty(KindChoice::WebSocket));
    assert!(!RequestTab::for_kind(&view.kind).contains(&RequestTab::Capture));
    assert_eq!(RequestTab::Assert.step(1, &view.kind), RequestTab::Kind(0), "from the first");
    assert!(view.show_request_tab(RequestTab::Headers));
    assert!(!view.show_request_tab(RequestTab::Headers));
    let shown = view.response_view;
    view.cycle_response_view(1);
    assert!(view.response_view != shown);
    assert!(view.show_response_view(shown));
    assert_eq!(ResponseView::default().step(0), ResponseView::default());
}

#[test]
fn a_strip_is_composed_from_the_kind() {
    let mut view = buffer();
    let said: Vec<(String, bool)> =
        section_tabs(&view).into_iter().map(|tab| (tab.label, tab.active)).collect();
    let labels: Vec<&str> = said.iter().map(|(label, _)| label.as_str()).collect();
    assert_eq!(labels, vec!["Headers 1", "Params", "Body JSON", "Capture", "Assert"]);
    assert_eq!(said.iter().filter(|(_, active)| *active).count(), 1);
    assert_eq!(section_tabs(&view)[2].id, "request-tab-kind-1");
    assert_eq!(section(RequestTab::Kind(0), &view.kind), Section::Rows(RowKind::Query));
    assert_eq!(section(RequestTab::Kind(1), &view.kind), Section::Body);
    assert_eq!(section(RequestTab::Assert, &view.kind), Section::Rows(RowKind::Assert));
    view.set_kind(KindEditor::empty(KindChoice::GraphQl));
    assert_eq!(section(RequestTab::Kind(0), &view.kind), Section::Document);
    assert_eq!(section(RequestTab::Kind(1), &view.kind), Section::Variables);
}

#[test]
fn the_pane_says_what_it_holds() {
    assert_eq!(count_suffix("Headers", 0), "Headers");
    assert_eq!(count_suffix("Headers", 3), "Headers 3");
    assert_eq!(count_label(0, 0), "empty");
    assert_eq!(count_label(1, 3), "1 of 3 enabled");
    assert_eq!(lines_label(2), "2 lines");
    assert_eq!(body_rows(Some(BodyType::Form)), Some(RowKind::Form));
    assert_eq!(body_rows(Some(BodyType::Raw)), None);
    assert!(offers_format(Some(BodyType::Raw), &RawKind::default()));
    assert!(!offers_format(Some(BodyType::Form), &RawKind::default()));
    assert!(send_button(true) == ("Cancel", Action::CancelRequest));
    assert!(send_button(false) == ("Send", Action::SendRequest));
    assert_eq!(add_control(RowKind::Query), ("add-query", "Add query parameter"));
    assert_eq!(row_prefix(RowKind::Header, None), "hdr");
    assert_eq!(row_prefix(RowKind::Multipart, Some(true)), "fil");
    assert_eq!(control_id("hdr", "toggle", 12), "hdr-toggle-12");
    assert_eq!(empty_headline(RowKind::Multipart), "No parts");
    assert!(!takes_value(Op::Exists));
    assert!(takes_value(Op::Contains));
    assert_eq!(secret_hint(false), "Written to the committed file");
    assert_eq!(part_chip(false).0, "text");
    assert_eq!(body_region(None), BodyRegion::Nothing);
    assert_eq!(body_region(Some(BodyType::Empty)), BodyRegion::NoBody);
    assert_eq!(file_note(false), None);
    assert_eq!(limit_note(true, 1000), Some("first 1000 only".to_string()));
    assert_eq!(limit_note(false, 1000), None);
    let view = buffer();
    assert_eq!(rows_on(&view.headers), 1);
    assert_eq!(captures_on(&view.captures), 0);
}

#[test]
fn rows_are_added_muted_and_removed() {
    let mut view = buffer();
    assert!(view.add_row(RowKind::Query).is_some());
    assert_eq!(view.http().expect("http").query.len(), 1);
    assert!(view.toggle(RowKind::Header, 0));
    assert!(!view.spec().headers[0].enabled);
    assert!(view.toggle(RowKind::Header, 0));
    assert!(view.spec().headers[0].enabled);
    let focus = RowFocus {
        headers: vec![true],
        query: vec![false],
        form: Vec::new(),
        multipart: Vec::new(),
        captures: Vec::new(),
        assertions: Vec::new(),
    };
    assert_eq!(view.focused_row(&focus), Some((RowKind::Header, 0)));
    assert!(view.toggle_focused_row(&focus));
    assert!(!view.headers[0].enabled);
    assert!(view.remove_focused_row(&focus));
    assert!(view.headers.is_empty());
    assert!(!view.remove(RowKind::Header, 4));
    assert_eq!(view.push_capture("$.token".into(), String::new()), Cell::Name);
    assert_eq!(view.request_tab, RequestTab::Capture);
    view.toggle_capture_secret(0);
    assert!(view.captures[0].secret);
    view.push_assertion("$.id".into());
    let before = view.assertions[0].op;
    view.cycle_assert_op(0);
    view.cycle_assert_op(0);
    view.cycle_assert_op(0);
    assert!(view.assertions[0].op == before);
}

#[test]
fn a_body_may_contradict_its_header() {
    let mut view = buffer();
    assert!(view.conflicting_content_type().is_none());
    view.add_row(RowKind::Header);
    view.headers[1].name.paste("content-TYPE");
    view.headers[1].value.paste("text/xml; charset=utf-8");
    assert!(view.conflicting_content_type().is_some());
    view.set_body_type(BodyType::Form);
    let (_, expected) = view.conflicting_content_type().expect("a form is not XML");
    assert_eq!(expected, "application/x-www-form-urlencoded");
    assert_eq!(view.body_focus_target(), BodyFocus::Nowhere);
    view.add_row(RowKind::Form);
    assert_eq!(view.body_focus_target(), BodyFocus::FormRow);
    view.set_body_type(BodyType::Multipart);
    view.add_row(RowKind::Multipart);
    view.set_multipart_kind(0, true);
    assert!(view.multipart_is_file(0));
    view.set_multipart_file(0, "/p.png");
    assert_eq!(view.focused_multipart_row(&vec![true]), Some(0));
    view.set_binary_path("/b".into());
    assert_eq!(view.body_label(), "Binary");
}

fn done(job: u64, run: u64, status: u16) -> Event {
    Event::Done { job, response: response(run, status) }
}

#[test]
fn only_what_is_waited_on_is_taken() {
    let mut view = buffer();
    assert!(!view.apply(done(1, 1, 200), true).more, "nothing is under way");
    assert!(view.response.is_none());
    assert_eq!(view.prepare_send(Some("prod".into())), None);
    view.sent(2);
    assert!(view.is_sending());
    assert!(view.apply(done(1, 1, 200), true).more, "an old job is passed over");
    let head = Event::Head {
        job: 2,
        status: 200,
        status_text: "OK".into(),
        headers: Vec::new(),
        ttfb: 5,
    };
    assert!(view.apply(head, true).more);
    assert!(view.apply(Event::Progress { job: 2, received: 10, total: None }, true).more);
    assert_eq!(view.inflight.as_ref().map(|inflight| inflight.received), Some(10));
    let applied = view.apply(done(2, 1, 200), true);
    assert!(!applied.more && applied.index && !applied.compare);
    assert_eq!(view.displayed().map(|response| response.run), Some(1));
    view.sent(3);
    assert_eq!(view.prepare_send(None), Some(3), "the attempt that is out is given up");
}

#[test]
fn the_last_response_becomes_history_and_is_bounded() {
    let mut view = buffer();
    for run in 0..(HISTORY_LIMIT as u64 + 3) {
        view.sent(run);
        view.apply(done(run, run, 200), true);
    }
    assert_eq!(view.history.len(), HISTORY_LIMIT);
    assert_eq!(view.history[0].run, HISTORY_LIMIT as u64 + 1);
    assert!(view.view_run(1));
    assert_eq!(view.viewing(), 1);
    assert_eq!(view.displayed().map(|response| response.run), Some(HISTORY_LIMIT as u64 + 1));
    assert_eq!(view.diff_to_show(), None, "an earlier run is not compared");
    assert!(!view.view_run(HISTORY_LIMIT + 5));
    assert_eq!(view.runs().len(), HISTORY_LIMIT + 1);
}

fn frame(job: u64, text: &str, len: usize) -> Event {
    Event::Frame {
        job,
        at: 0,
        direction: Direction::Received,
        frame: Frame { payload: Payload::Text(text.into()), len },
    }
}

fn connected() -> RequestView {
    let mut view = RequestView::new(spec(RequestKind::WebSocket(WebSocketRequest::default())));
    view.sent(1);
    view.apply(
        Event::Opened {
            job: 1,
            transport: Transport::WebSocket,
            status: 101,
            status_text: "Switching Protocols".into(),
            headers: Vec::new(),
            protocol: None,
            elapsed: 3,
        },
        true,
    );
    view
}

#[test]
fn a_conversation_keeps_its_newest_rows() {
    let mut view = connected();
    assert!(view.is_connected());
    assert_eq!(view.apply(frame(1, "a", 10), true).reveal, Some(0));
    assert_eq!(view.apply(frame(1, "b", 10), false).reveal, None, "not parked at the end");
    view.select_frame(1);
    assert_eq!(view.selected_frame_text(), Some("b".to_string()));
    view.apply(frame(1, "c", MAX_TRANSCRIPT_BYTES - 10), true);
    let session = view.session.as_ref().expect("open");
    assert_eq!(session.rows.len(), 2, "the oldest went");
    assert_eq!(session.dropped, 1);
    assert_eq!(session.frames(), 2);
    assert_eq!(view.session_selected, Some(0), "the selection keeps its row");
    assert_eq!(view.selected_frame_text(), Some("b".to_string()));
    assert!(at_transcript_end(0, Some(2), 2));
    assert!(!at_transcript_end(0, Some(1), 2));
}

#[test]
fn a_conversation_that_fails_is_closed() {
    let mut view = connected();
    view.apply(Event::Reconnecting { job: 1, attempt: 1, seconds: 2 }, true);
    assert_eq!(view.session.as_ref().map(|session| session.rows.len()), Some(1));
    let applied = view.apply(
        Event::Failed { job: 1, error: EngineError { text: "refused".into() } },
        true,
    );
    assert!(!applied.more);
    assert!(!view.is_connected());
    assert_eq!(view.error.as_ref().map(|error| error.text.as_str()), Some("refused"));
}

#[test]
fn what_is_composed_is_sent_once() {
    let mut view = connected();
    assert!(view.take_frame().is_none(), "nothing is typed");
    let socket = view.kind.as_websocket_mut().expect("a socket");
    socket.set_compose("hello");
    view.save_message("hello".into());
    assert_eq!(view.take_frame(), Some((1, "hello".to_string())));
    assert!(view.take_frame().is_none());
    view.load_message(0);
    assert_eq!(view.primary_editor().map(|editor| editor.text()), Some("hello"));
    view.forget_message(0);
    assert!(view.kind.as_websocket().expect("a socket").messages.is_empty());
}

fn capturing() -> RequestView {
    let mut asked = spec(raw("{}"));
    asked.captures = vec![Capture {
        enabled: true,
        path: "$.a".into(),
        name: "a".into(),
        secret: false,
    }];
    asked.assertions = vec![Assertion {
        enabled: true,
        path: "$.a".into(),
        op: Op::Equals,
        value: "1".into(),
    }];
    RequestView::new(asked)
}

#[test]
fn captures_are_refused_for_a_reason() {
    let mut view = capturing();
    let refused = |view: &RequestView, root: bool| match view.next_capture_step(root) {
        CaptureStep::Refused(why) => Some(why),
        _ => None,
    };
    assert_eq!(buffer().next_capture_step(true), CaptureStep::Idle);
    assert_eq!(refused(&view, true), Some(Refusal::NothingSent));
    view.response = Some(response(1, 404));
    assert_eq!(refused(&view, true), Some(Refusal::NotSuccessful));
    view.response = Some(response(1, 200));
    assert_eq!(refused(&view, true), Some(Refusal::NoEnvironment));
    assert!(view.run_captures(CaptureTrigger::Send, None).is_none());
    assert_eq!(view.status.as_deref(), Some("Select an environment to capture into"));
    view.capture_target = Some("prod".into());
    assert_eq!(refused(&view, false), Some(Refusal::NoCollection));
    assert_eq!(refused(&view, true), Some(Refusal::NotJson));
    view.body_indexed(json_body());
    assert_eq!(view.next_capture_step(true), CaptureStep::Publish);
    view.captures[0].enabled = false;
    assert_eq!(refused(&view, true), Some(Refusal::NoRule));
    view.captures[0].enabled = true;
    view.history.push(response(0, 200));
    view.viewing = 1;
    assert_eq!(refused(&view, true), Some(Refusal::EarlierRun));
    view.status = None;
    assert!(view.run_captures(CaptureTrigger::Send, Some("/c".into())).is_none());
    assert!(view.status.is_none(), "after a send it is nothing to report");
}

#[test]
fn captures_publish_where_they_are_asked_to() {
    let mut view = capturing();
    view.response = Some(response(1, 201));
    view.body_indexed(json_body());
    let plan = view
        .publish_captures(Some("staging".into()), Some("/c/environments".into()))
        .expect("a live success");
    assert_eq!((plan.target.as_str(), plan.root.as_str()), ("staging", "/c/environments"));
    assert_eq!(plan.rules.len(), 1);
    view.captured(Ok(Published {
        target: "staging".into(),
        written: vec!["a".into(), "b".into()],
        missed: Vec::new(),
        ignored: true,
    }));
    assert_eq!(
        view.status.as_deref(),
        Some("Captured a, b into staging — added *.local.json to .gitignore")
    );
    view.captured(Ok(Published {
        target: "staging".into(),
        written: Vec::new(),
        missed: vec!["$.x".into()],
        ignored: false,
    }));
    assert_eq!(view.status.as_deref(), Some("No match for $.x"));
}

#[test]
fn a_find_bar_steps_and_says_where_it_is() {
    let mut view = buffer();
    view.body_indexed(json_body());
    view.open_search();
    assert!(view.is_searching());
    assert_eq!(view.search_query(), Some(String::new()));
    let at = view.apply_search(Hits { offsets: vec![1, 5], truncated: false }, vec![1, 1]);
    assert_eq!(at, Some(1));
    assert_eq!(view.search.as_ref().map(|search| search.status()), Some("1 of 2".to_string()));
    view.step_search(-1);
    assert_eq!(view.search.as_ref().map(|search| search.status()), Some("2 of 2".to_string()));
    assert_eq!(view.current_match_row(), Some(1));
    let search = view.search.as_mut().expect("open");
    assert_eq!(search.current_bytes(), None, "nothing is typed");
    search.query.paste("ab");
    assert_eq!(search.current_bytes(), Some(5..7));
    assert_eq!(view.current_match_bytes(), Some(5..7));
    view.set_match_clipped(true);
    assert!(view.close_search());
    assert!(!view.close_search());
}

#[test]
fn replacing_all_replaces_each_where_it_stood() {
    let mut view = buffer();
    view.open_body_search();
    assert!(view.is_searching_body());
    let search = view.body_search.as_mut().expect("open");
    search.query.paste("one");
    search.replace.as_mut().expect("it can be edited").paste("1");
    view.run_body_search(Hits { offsets: vec![0, 8], truncated: false });
    view.step_body_search(1);
    assert_eq!(view.replace_current(), 1);
    assert_eq!(view.primary_editor().map(|editor| editor.text()), Some("one two 1"));
    view.run_body_search(Hits { offsets: vec![0], truncated: false });
    assert_eq!(view.replace_all(), 1);
    assert_eq!(view.primary_editor().map(|editor| editor.text()), Some("1 two 1"));
    assert!(view.close_body_search());
}

#[test]
fn replacing_moves_to_the_next_match() {
    let mut view = RequestView::new(spec(raw("one one one")));
    view.open_body_search();
    let search = view.body_search.as_mut().expect("open");
    search.query.paste("one");
    search.replace.as_mut().expect("it can be edited").paste("1");
    view.run_body_search(Hits { offsets: vec![0, 4, 8], truncated: false });
    view.step_body_search(1);
    assert_eq!(view.replace_current(), 1);
    assert_eq!(view.primary_editor().map(|editor| editor.text()), Some("one 1 one"));
    view.run_body_search(Hits { offsets: vec![0, 6], truncated: false });
    let status = |view: &RequestView| view.body_search.as_ref().map(|search| search.status());
    assert_eq!(status(&view), Some("2 of 2".to_string()));
    assert_eq!(view.primary_editor().map(|editor| editor.selection()), Some(6..9));
    assert_eq!(view.replace_current(), 1);
    view.run_body_search(Hits { offsets: vec![0], truncated: false });
    assert_eq!(status(&view), Some("1 of 1".to_string()), "going round at the end");
    assert_eq!(view.primary_editor().map(|editor| editor.text()), Some("one 1 1"));
}

#[test]
fn a_body_is_walked_and_folded() {
    let mut view = buffer();
    assert_eq!(view.selected_body_row(), None);
    view.body_indexed(json_body());
    assert!(view.select_body_row_at(0));
    assert!(view.selected_is_container());
    let moved = view.move_body_selection(1);
    assert_eq!(moved.map(|(at, _)| at), Some(1));
    assert_eq!(view.selected_body_row(), Some(1));
    let back = view.move_body_selection(-1);
    assert!(matches!(back, Some((0, Edge::Top))));
    view.toggle_selected_fold();
    assert!(view.selected_is_folded());
    view.set_all_folded(false);
    assert!(!view.selected_is_folded());
    view.compared(4, 5);
    assert_eq!((view.diff, view.body_diff), (Some(4), Some(5)));
    view.set_method(Method::Put);
    assert!(matches!(view.method(), Some(Method::Put)));
    assert!(view.body_kind().json);
    view.set_body_kind(RawKind { json: false, label: "Text".into(), content_type: "text/plain".into() });
    assert!(!view.body_kind().json);
}

#[test]
fn what_is_copied_is_read_from_the_selected_row() {
    let mut view = buffer();
    assert_eq!(view.selected_body_value(), None);
    assert_eq!(view.selected_body_path(), None);
    assert_eq!(view.current_match_bytes(), None);
    view.body_indexed(json_body());
    assert_eq!(view.selected_body_value(), None, "no row is selected");
    assert!(view.select_body_row_at(1));
    assert_eq!(view.selected_body_value(), Some(RowSource::Value(1)));
    assert_eq!(view.selected_body_path(), Some(1));
}

#[test]
fn focus_counts_for_the_body_only_where_it_is_drawn() {
    let mut view = buffer();
    let focus = RowFocus {
        headers: vec![true],
        query: Vec::new(),
        form: vec![false, true],
        multipart: vec![false],
        captures: Vec::new(),
        assertions: Vec::new(),
    };
    assert_eq!(view.focused_header_name(&focus.headers), Some(0));
    assert_eq!(view.focused_header_name(&vec![false]), None);
    assert!(view.body_region_focused(&focus, true, false));
    assert!(!view.body_region_focused(&focus, false, true));
    view.set_body_type(BodyType::Form);
    assert!(view.body_region_focused(&focus, false, false));
    view.set_body_type(BodyType::Multipart);
    assert!(!view.body_region_focused(&focus, true, true));
    view.set_body_type(BodyType::Empty);
    assert!(!view.body_region_focused(&focus, true, true));
    view.set_kind(KindEditor::empty(KindChoice::GraphQl));
    assert!(view.body_region_focused(&focus, false, true));
}

#[test]
fn the_half_of_a_page_that_shows_is_kept() {
    let mut view = buffer();
    assert_eq!(view.html_view, HtmlView::Text);
    assert_eq!(view.toggle_html_view(None), None, "not a page");
    assert_eq!(view.html_view, HtmlView::Text);
    assert_eq!(view.toggle_html_view(Some(HtmlView::Text)), Some(HtmlView::Raw));
    view.load(spec(raw("another")));
    assert_eq!(view.html_view, HtmlView::Raw);
    assert_eq!(view.toggle_html_view(Some(HtmlView::Raw)), Some(HtmlView::Text));
}

#[test]
fn finding_in_the_body_shows_the_text_it_searches() {
    let mut view = buffer();
    view.show_request_tab(RequestTab::Headers);
    view.open_body_search();
    assert_eq!(view.request_tab, RequestTab::Kind(1));
    view.set_kind(KindEditor::empty(KindChoice::GraphQl));
    view.show_request_tab(RequestTab::Headers);
    view.open_body_search();
    assert_eq!(view.request_tab, RequestTab::Kind(0), "the query is on the first tab");
}

#[test]
fn a_bar_that_is_opened_afresh_is_empty() {
    let mut view = buffer();
    view.open_search();
    let search = view.search.as_ref().expect("open");
    assert_eq!(search.query.text(), "");
    assert_eq!(search.query.key_context(), "TextInput ResponseSearch");
    assert!(search.replace.is_none());
    assert!(search.offsets.is_empty() && search.rows.is_empty());
    assert!(!search.truncated && !search.current_clipped);
    assert_eq!((search.current, search.resume), (0, None));
    view.open_body_search();
    let search = view.body_search.as_ref().expect("open");
    assert_eq!(search.query.text(), "");
    assert_eq!(search.query.key_context(), "TextInput BodySearch");
    assert_eq!(search.replace.as_ref().map(|replace| replace.text()), Some(""));
    assert!(search.offsets.is_empty() && search.rows.is_empty());
    assert!(!search.truncated && !search.current_clipped);
    assert_eq!((search.current, search.resume), (0, None));
}
