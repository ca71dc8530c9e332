//! The send loop: what each event of a run does to the buffer that waits on it, and the
//! conversation a buffer may hold.

use crate::body_view::BodyView;
use crate::kinds::{KindEditor, KindEditorView};
use crate::request;
use crate::request::{Header, KeyValueView};
use crate::request_view::view::{
    EngineError, InFlight, RequestView, ResponseData, HISTORY_LIMIT,
};
use crate::strings;
use crate::text;
use crate::transcript::{
    Direction, Frame, Payload, Transcript, TranscriptKind, TranscriptRow, TranscriptView, Transport,
};
use vstd::prelude::*;
use vstd::string::*;

verus! {

/// What the engine reports of a job. Times are in nanoseconds.
pub enum Event {
    Started { job: u64 },
    /// A conversation is open.
    Opened {
        job: u64,
        transport: Transport,
        status: u16,
        status_text: String,
        headers: Vec<Header>,
        protocol: Option<String>,
        elapsed: u64,
    },
    /// The status line and the headers of a response have come.
    Head { job: u64, status: u16, status_text: String, headers: Vec<Header>, ttfb: u64 },
    /// Some of the body has come.
    Progress { job: u64, received: usize, total: Option<usize> },
    /// A message of a conversation.
    Frame { job: u64, at: u64, direction: Direction, frame: Frame },
    /// The conversation dropped, and is tried again after a delay in whole seconds.
    Reconnecting { job: u64, attempt: u64, seconds: u64 },
    /// The conversation is over.
    Closed { job: u64, code: Option<u16>, reason: String },
    Done { job: u64, response: ResponseData },
    Failed { job: u64, error: EngineError },
}

impl Event {
    pub open spec fn spec_job(self) -> u64 {
        match self {
            Event::Started { job } => job,
            Event::Opened { job, .. } => job,
            Event::Head { job, .. } => job,
            Event::Progress { job, .. } => job,
            Event::Frame { job, .. } => job,
            Event::Reconnecting { job, .. } => job,
            Event::Closed { job, .. } => job,
            Event::Done { job, .. } => job,
            Event::Failed { job, .. } => job,
        }
    }

    /// The job that an event is about.
    pub fn job(&self) -> (r: u64)
        ensures
            r == self.spec_job(),
    {
        match self {
            Event::Started { job } => *job,
            Event::Opened { job, .. } => *job,
            Event::Head { job, .. } => *job,
            Event::Progress { job, .. } => *job,
            Event::Frame { job, .. } => *job,
            Event::Reconnecting { job, .. } => *job,
            Event::Closed { job, .. } => *job,
            Event::Done { job, .. } => *job,
            Event::Failed { job, .. } => *job,
        }
    }
}

/// What is left to do once an event has been taken.
pub struct Applied {
    /// Whether to go on reading events.
    pub more: bool,
    /// The row of the conversation to scroll to.
    pub reveal: Option<usize>,
    /// Whether to compare the response with the newest of the history.
    pub compare: bool,
    /// Whether to index the body.
    pub index: bool,
}

/// Nothing is left to do but to go on, or to stop.
pub open spec fn only(more: bool) -> Applied {
    Applied { more, reveal: None, compare: false, index: false }
}

/// The notice that stands where a conversation dropped.
pub open spec fn notice_text(attempt: u64, seconds: u64) -> Seq<char> {
    if attempt == 1 {
        "disconnected · reconnecting in "@ + strings::decimal(seconds as nat) + "s"@
    } else {
        "still disconnected · retrying in "@ + strings::decimal(seconds as nat) + "s (attempt "@
            + strings::decimal(attempt as nat) + ")"@
    }
}

/// An index into rows of which some have gone from the front; nothing where its row has gone.
pub open spec fn reindexed(selected: Option<usize>, evicted: int) -> Option<usize> {
    match selected {
        Some(ix) => if ix >= evicted {
            Some((ix - evicted) as usize)
        } else {
            None
        },
        None => None,
    }
}

/// Whether the selected row has gone.
pub open spec fn is_gone(selected: Option<usize>, evicted: int) -> bool {
    selected matches Some(ix) && ix < evicted
}

/// The history with a run put before it, as far as it is kept.
pub open spec fn newest_first(
    previous: Option<ResponseData>,
    history: Seq<ResponseData>,
) -> Seq<ResponseData> {
    match previous {
        Some(run) => {
            let all = seq![run] + history;
            if all.len() > HISTORY_LIMIT {
                all.take(HISTORY_LIMIT as int)
            } else {
                all
            }
        },
        None => history,
    }
}

/// Whether a conversation can take a row without running out of numbers to count it with.
pub open spec fn takes(session: Option<Transcript>, row: TranscriptRow) -> bool {
    session matches Some(session) ==> session@.has_room(row)
}

/// When a notice happened: with the last row before it.
pub open spec fn last_at(rows: Seq<TranscriptRow>) -> u64 {
    if rows.len() == 0 {
        0
    } else {
        rows.last().at
    }
}

/// Whether a conversation can take what an event adds to it.
pub open spec fn has_room_for(session: Option<Transcript>, event: Event) -> bool {
    match event {
        Event::Frame { at, direction, frame, .. } => takes(
            session,
            TranscriptRow { at, kind: TranscriptKind::Frame { direction, frame } },
        ),
        Event::Reconnecting { attempt, seconds, .. } => session matches Some(session) ==> {
            &&& crate::transcript::total_weight(session@.rows) + text::byte_len(
                notice_text(attempt, seconds),
            ) <= usize::MAX
            &&& session@.dropped + session@.rows.len() < usize::MAX
        },
        _ => true,
    }
}

/// What taking a row does to a buffer: the conversation grows, and the selection follows what
/// went from its front.
pub open spec fn row_taken(before: RequestView, after: RequestView, row: TranscriptRow) -> bool {
    match before.session {
        Some(session) => {
            let evicted = session@.evicted_by(row);
            &&& after.session matches Some(now) && now.wf() && now@ == session@.pushed(row)
            &&& after == (RequestView {
                session: after.session,
                session_selected: reindexed(before.session_selected, evicted),
                body_view: if is_gone(before.session_selected, evicted) {
                    None
                } else {
                    before.body_view
                },
                ..before
            })
        },
        None => after == before,
    }
}

/// What an event of the job that is waited on does.
pub open spec fn event_taken(
    before: RequestView,
    inflight: InFlight,
    event: Event,
    following: bool,
    after: RequestView,
    applied: Applied,
) -> bool {
    match event {
        Event::Started { .. } => after == before && applied == only(true),
        Event::Opened { transport, status, status_text, headers, protocol, elapsed, .. } => {
            &&& applied == only(true)
            &&& after == (RequestView {
                inflight: after.inflight,
                session: after.session,
                ..before
            })
            &&& after.inflight matches Some(now) && now == (InFlight {
                status: Some((status, status_text)),
                headers: now.headers,
                ttfb: Some(elapsed),
                ..inflight
            }) && request::key_values(now.headers@) == request::key_values(headers@)
            &&& after.session matches Some(session) && session.wf() && session@ == (TranscriptView {
                job: inflight.job,
                transport,
                protocol,
                status: Some((status, status_text)),
                headers: request::key_values(headers@),
                rows: Seq::empty(),
                dropped: 0,
                closed: None,
            })
        },
        Event::Head { status, status_text, headers, ttfb, .. } => {
            &&& applied == only(true)
            &&& after == (RequestView {
                inflight: Some(
                    InFlight {
                        status: Some((status, status_text)),
                        headers,
                        ttfb: Some(ttfb),
                        ..inflight
                    },
                ),
                ..before
            })
        },
        Event::Progress { received, total, .. } => {
            &&& applied == only(true)
            &&& after == (RequestView {
                inflight: Some(InFlight { received, total, ..inflight }),
                ..before
            })
        },
        Event::Frame { at, direction, frame, .. } => {
            &&& applied == (Applied {
                reveal: match after.session {
                    Some(session) if following => Some((session@.rows.len() - 1) as usize),
                    _ => None,
                },
                ..only(true)
            })
            &&& row_taken(
                before,
                after,
                TranscriptRow { at, kind: TranscriptKind::Frame { direction, frame } },
            )
        },
        Event::Reconnecting { attempt, seconds, .. } => {
            &&& applied == only(true)
            &&& exists|notice: String| #[trigger]
                notice@ == notice_text(attempt, seconds) && row_taken(
                    before,
                    after,
                    TranscriptRow {
                        at: match before.session {
                            Some(session) => last_at(session@.rows),
                            None => 0,
                        },
                        kind: TranscriptKind::Notice(notice),
                    },
                )
        },
        Event::Closed { code, reason, .. } => {
            &&& applied == only(false)
            &&& after == (RequestView {
                inflight: None,
                session: match before.session {
                    Some(session) => Some(Transcript { closed: Some((code, reason)), ..session }),
                    None => None,
                },
                ..before
            })
        },
        Event::Done { response, .. } => {
            &&& applied == (Applied {
                more: false,
                reveal: None,
                compare: before.response is Some,
                index: true,
            })
            &&& after == (RequestView {
                inflight: None,
                response: Some(response),
                diff: None,
                body_diff: None,
                viewing: 0,
                history: after.history,
                body_view: None,
                ..before
            })
            &&& after.history@ == newest_first(before.response, before.history@)
        },
        Event::Failed { error, .. } => {
            &&& applied == only(false)
            &&& after == (RequestView {
                inflight: None,
                session: match before.session {
                    Some(session) if session.closed is None => Some(
                        Transcript { closed: Some((None, error.text)), ..session },
                    ),
                    _ => before.session,
                },
                diff: None,
                error: Some(error),
                ..before
            })
        },
    }
}

/// The notice that stands where a conversation dropped.
fn notice_for(attempt: u64, seconds: u64) -> (r: String)
    ensures
        r@ == notice_text(attempt, seconds),
{
    if attempt == 1 {
        let mut r = "disconnected · reconnecting in ".to_owned();
        r.append(strings::decimal_string(seconds).as_str());
        r.append("s");
        r
    } else {
        let mut r = "still disconnected · retrying in ".to_owned();
        r.append(strings::decimal_string(seconds).as_str());
        r.append("s (attempt ");
        r.append(strings::decimal_string(attempt).as_str());
        r.append(")");
        r
    }
}

/// Whether a list of `total` rows is parked at its newest: `visible` rows show from row `top` on.
/// A list that was never painted is.
pub fn at_transcript_end(top: usize, visible: Option<usize>, total: usize) -> (r: bool)
    ensures
        r == (total == 0 || match visible {
            Some(visible) => top + visible >= total,
            None => true,
        }),
{
    if total == 0 {
        return true;
    }
    match visible {
        Some(visible) => top >= total || visible >= total - top,
        None => true,
    }
}

impl RequestView {
    /// Make ready to send: captures will publish into `environment`, and an attempt that is still
    /// out is abandoned. Returns the job to cancel.
    pub fn prepare_send(&mut self, environment: Option<String>) -> (abandoned: Option<u64>)
        ensures
            *final(self) == (RequestView {
                capture_target: environment,
                inflight: None,
                ..*old(self)
            }),
            abandoned == (match old(self).inflight {
                Some(inflight) => Some(inflight.job),
                None => None,
            }),
    {
        self.capture_target = environment;
        self.cancel()
    }

    /// A job has been sent. The old conversation goes only now, so it can be read until somebody
    /// starts again; the old response stays until the new one lands, to be compared with.
    pub fn sent(&mut self, job: u64)
        ensures
            *final(self) == (RequestView {
                error: None,
                body_view: None,
                status: None,
                session: None,
                session_selected: None,
                inflight: final(self).inflight,
                ..*old(self)
            }),
            final(self).inflight matches Some(inflight) && inflight == (InFlight {
                job,
                status: None,
                headers: inflight.headers,
                ttfb: None,
                received: 0,
                total: None,
            }) && inflight.headers@.len() == 0,
    {
        self.error = None;
        self.body_view = None;
        self.status = None;
        self.session = None;
        self.session_selected = None;
        self.inflight = Some(
            InFlight {
                job,
                status: None,
                headers: Vec::new(),
                ttfb: None,
                received: 0,
                total: None,
            },
        );
    }

    /// Abandon what is in flight. Returns the job to cancel.
    pub fn cancel(&mut self) -> (abandoned: Option<u64>)
        ensures
            *final(self) == (RequestView { inflight: None, ..*old(self) }),
            abandoned == (match old(self).inflight {
                Some(inflight) => Some(inflight.job),
                None => None,
            }),
    {
        let abandoned = match &self.inflight {
            Some(inflight) => Some(inflight.job),
            None => None,
        };
        self.inflight = None;
        abandoned
    }

    pub fn is_sending(&self) -> (r: bool)
        ensures
            r == (self.inflight is Some),
    {
        self.inflight.is_some()
    }

    /// Slide the selected row down by however many went from the front. Where it went itself
    /// there is nothing honest left to show.
    pub fn reindex_selection(&mut self, evicted: usize)
        ensures
            *final(self) == (RequestView {
                session_selected: reindexed(old(self).session_selected, evicted as int),
                body_view: if is_gone(old(self).session_selected, evicted as int) {
                    None
                } else {
                    old(self).body_view
                },
                ..*old(self)
            }),
    {
        if let Some(ix) = self.session_selected {
            if ix >= evicted {
                self.session_selected = Some(ix - evicted);
            } else {
                self.session_selected = None;
                self.body_view = None;
            }
        }
    }

    /// Take a row into the conversation, if there is one. Says how many rows there are then.
    fn take_row(&mut self, row: TranscriptRow) -> (rows: Option<usize>)
        requires
            old(self).wf(),
            takes(old(self).session, row),
        ensures
            final(self).wf(),
            row_taken(*old(self), *final(self), row),
            rows == (match final(self).session {
                Some(session) => Some(session@.rows.len() as usize),
                None => None,
            }),
            rows matches Some(n) ==> n > 0 && n == final(self).session->0@.rows.len(),
    {
        let ghost before = *self;
        let mut evicted: usize = 0;
        let mut rows: Option<usize> = None;
        match self.session.take() {
            Some(mut session) => {
                proof {
                    crate::transcript::eviction_keeps_the_newest(session@.rows.push(row));
                }
                evicted = session.push(row);
                rows = Some(session.rows.len());
                self.session = Some(session);
            },
            None => {},
        }
        self.reindex_selection(evicted);
        proof {
            assert(before.session is None ==> *self == before);
        }
        rows
    }

    /// Take an event. Events of a job that is no longer waited on are passed over; with nothing
    /// in flight there is nothing to wait for. `following` says whether the conversation is parked
    /// at its newest row.
    pub fn apply(&mut self, event: Event, following: bool) -> (applied: Applied)
        requires
            old(self).wf(),
            has_room_for(old(self).session, event),
        ensures
            final(self).wf(),
            match old(self).inflight {
                None => *final(self) == *old(self) && applied == only(false),
                Some(inflight) => if event.spec_job() != inflight.job {
                    *final(self) == *old(self) && applied == only(true)
                } else {
                    event_taken(*old(self), inflight, event, following, *final(self), applied)
                },
            },
    {
        let ghost before = *self;
        let current: u64 = match &self.inflight {
            Some(inflight) => inflight.job,
            None => {
                return Applied { more: false, reveal: None, compare: false, index: false };
            },
        };
        if event.job() != current {
            return Applied { more: true, reveal: None, compare: false, index: false };
        }
        match event {
            Event::Started { .. } => {
                Applied { more: true, reveal: None, compare: false, index: false }
            },
            Event::Opened { job, transport, status, status_text, headers, protocol, elapsed } => {
                if let Some(inflight) = &mut self.inflight {
                    inflight.status = Some((status, status_text.clone()));
                    inflight.headers = request::clone_key_values(&headers);
                    inflight.ttfb = Some(elapsed);
                }
                self.session = Some(
                    Transcript::new(
                        current,
                        transport,
                        protocol,
                        Some((status, status_text)),
                        headers,
                    ),
                );
                Applied { more: true, reveal: None, compare: false, index: false }
            },
            Event::Frame { job, at, direction, frame } => {
                let rows = self.take_row(
                    TranscriptRow { at, kind: TranscriptKind::Frame { direction, frame } },
                );
                let reveal: Option<usize> = match rows {
                    Some(n) => if following {
                        Some(n - 1)
                    } else {
                        None
                    },
                    None => None,
                };
                Applied { more: true, reveal, compare: false, index: false }
            },
            Event::Reconnecting { job, attempt, seconds } => {
                let notice = notice_for(attempt, seconds);
                let at: u64 = match &self.session {
                    Some(session) => if session.rows.len() > 0 {
                        session.rows[session.rows.len() - 1].at
                    } else {
                        0
                    },
                    None => 0,
                };
                let ghost said = notice;
                let row = TranscriptRow { at, kind: TranscriptKind::Notice(notice) };
                let rows = self.take_row(row);
                proof {
                    assert(said@ == notice_text(attempt, seconds));
                }
                Applied { more: true, reveal: None, compare: false, index: false }
            },
            Event::Closed { job, code, reason } => {
                if let Some(session) = &mut self.session {
                    session.closed = Some((code, reason));
                }
                self.inflight = None;
                Applied { more: false, reveal: None, compare: false, index: false }
            },
            Event::Done { job, response } => {
                self.inflight = None;
                let previous = self.response.take();
                self.diff = None;
                self.body_diff = None;
                self.response = Some(response);
                self.viewing = 0;
                let compare = previous.is_some();
                if let Some(previous) = previous {
                    self.history.insert(0, previous);
                    self.history.truncate(HISTORY_LIMIT);
                    proof {
                        assert(self.history@ =~= newest_first(before.response, before.history@));
                    }
                }
                let index = self.index_body();
                Applied { more: false, reveal: None, compare, index }
            },
            Event::Failed { job, error } => {
                if let Some(session) = &mut self.session {
                    if session.closed.is_none() {
                        session.closed = Some((None, error.text.clone()));
                    }
                }
                self.inflight = None;
                self.diff = None;
                self.error = Some(error);
                Applied { more: false, reveal: None, compare: false, index: false }
            },
            Event::Head { job, status, status_text, headers, ttfb } => {
                if let Some(inflight) = &mut self.inflight {
                    inflight.status = Some((status, status_text));
                    inflight.headers = headers;
                    inflight.ttfb = Some(ttfb);
                }
                Applied { more: true, reveal: None, compare: false, index: false }
            },
            Event::Progress { job, received, total } => {
                if let Some(inflight) = &mut self.inflight {
                    inflight.received = received;
                    inflight.total = total;
                }
                Applied { more: true, reveal: None, compare: false, index: false }
            },
        }
    }
}

/// The bytes of a message, without what is about it rather than part of it.
pub open spec fn payload_bytes(payload: Payload) -> Seq<u8> {
    match payload {
        Payload::Text(text) => vstd::utf8::encode_utf8(text@),
        Payload::Event { data } => vstd::utf8::encode_utf8(data@),
        Payload::Binary(bytes) => bytes@,
        Payload::Ping(bytes) => bytes@,
        Payload::Pong(bytes) => bytes@,
    }
}

/// The text of a message, where it is text.
pub open spec fn payload_text(payload: Payload) -> Option<Seq<char>> {
    match payload {
        Payload::Text(text) => Some(text@),
        Payload::Event { data } => Some(data@),
        _ => None,
    }
}

/// The message at a row of a conversation, where there is one.
pub open spec fn message_at(session: Option<Transcript>, ix: int) -> Option<Frame> {
    match session {
        Some(session) => if 0 <= ix < session@.rows.len() {
            match session@.rows[ix].kind {
                TranscriptKind::Frame { frame, .. } => Some(frame),
                TranscriptKind::Notice(_) => None,
            }
        } else {
            None
        },
        None => None,
    }
}

/// Whether there is a conversation, and it is open.
pub open spec fn is_open(session: Option<Transcript>) -> bool {
    match session {
        Some(session) => session@.is_open(),
        None => false,
    }
}

/// Whether the composer of a socket holds anything but whitespace.
pub open spec fn is_composing(kind: KindEditorView) -> bool {
    match kind {
        KindEditorView::WebSocket(socket) => !strings::is_blank(socket.compose.surface.text),
        _ => false,
    }
}

/// A copy of some bytes.
fn copy_bytes(bytes: &Vec<u8>) -> (r: Vec<u8>)
    ensures
        r@ == bytes@,
{
    vstd::slice::slice_to_vec(bytes.as_slice())
}

impl RequestView {
    /// The message at a row of the conversation.
    fn message(&self, ix: usize) -> (r: Option<&Frame>)
        ensures
            r is Some <==> message_at(self.session, ix as int) is Some,
            r matches Some(frame) ==> message_at(self.session, ix as int) == Some(*frame),
    {
        match &self.session {
            Some(session) => if ix < session.rows.len() {
                session.rows[ix].kind.frame()
            } else {
                None
            },
            None => None,
        }
    }

    /// Show a message in full. Returns its bytes, which are indexed as a response body would be;
    /// a notice is no message and changes nothing.
    pub fn select_frame(&mut self, ix: usize) -> (body: Option<Vec<u8>>)
        ensures
            match message_at(old(self).session, ix as int) {
                Some(frame) => {
                    &&& *final(self) == (RequestView {
                        session_selected: Some(ix),
                        body_view: None,
                        ..*old(self)
                    })
                    &&& body matches Some(bytes) && bytes@ == payload_bytes(frame.payload)
                },
                None => *final(self) == *old(self) && body is None,
            },
    {
        let body = match self.message(ix) {
            Some(frame) => match &frame.payload {
                Payload::Text(text) => text.as_str().as_bytes_vec(),
                Payload::Event { data } => data.as_str().as_bytes_vec(),
                Payload::Binary(bytes) => copy_bytes(bytes),
                Payload::Ping(bytes) => copy_bytes(bytes),
                Payload::Pong(bytes) => copy_bytes(bytes),
            },
            None => {
                return None;
            },
        };
        self.session_selected = Some(ix);
        self.body_view = None;
        Some(body)
    }

    /// The selected message as text, where it is text: what is pasted is the payload.
    pub fn selected_frame_text(&self) -> (r: Option<String>)
        ensures
            strings::opt_text(r) == (match self.session_selected {
                Some(ix) => match message_at(self.session, ix as int) {
                    Some(frame) => payload_text(frame.payload),
                    None => None,
                },
                None => None,
            }),
    {
        match self.session_selected {
            Some(ix) => match self.message(ix) {
                Some(frame) => match &frame.payload {
                    Payload::Text(text) => Some(text.clone()),
                    Payload::Event { data } => Some(data.clone()),
                    _ => None,
                },
                None => None,
            },
            None => None,
        }
    }

    /// Whether a conversation is open right now, as opposed to having been.
    pub fn is_connected(&self) -> (r: bool)
        ensures
            r == (self.inflight is Some && is_open(self.session)),
    {
        match &self.session {
            Some(session) => session.is_open() && self.inflight.is_some(),
            None => false,
        }
    }

    /// Keep what is being composed with the request. The composer is left as it is. `shortened`
    /// is used where the message is named by a first line too long to stand as it is.
    pub fn save_message(&mut self, shortened: String)
        requires
            old(self).wf(),
        ensures
            final(self).wf(),
            *final(self) == (RequestView { kind: final(self).kind, ..*old(self) }),
            match old(self).kind@ {
                KindEditorView::WebSocket(socket) => if strings::is_blank(
                    socket.compose.surface.text,
                ) {
                    final(self).kind@ == old(self).kind@
                } else {
                    final(self).kind@ == KindEditorView::WebSocket(
                        crate::kinds::websocket::saved(
                            socket,
                            socket.compose.surface.text,
                            shortened@,
                        ),
                    )
                },
                _ => final(self).kind@ == old(self).kind@,
            },
    {
        match &mut self.kind {
            KindEditor::WebSocket(socket) => {
                let body = socket.compose.text().to_owned();
                if !strings::blank(body.as_str()) {
                    socket.save(body, shortened);
                }
            },
            _ => {},
        }
    }

    /// Put a saved message back into the composer, to be edited or sent.
    pub fn load_message(&mut self, ix: usize)
        requires
            old(self).wf(),
        ensures
            final(self).wf(),
            *final(self) == (RequestView { kind: final(self).kind, ..*old(self) }),
            match old(self).kind@ {
                KindEditorView::WebSocket(socket) => if ix < socket.messages.len() {
                    final(self).kind@ == KindEditorView::WebSocket(
                        crate::kinds::websocket::composing(socket, socket.messages[ix as int].body),
                    )
                } else {
                    final(self).kind@ == old(self).kind@
                },
                _ => final(self).kind@ == old(self).kind@,
            },
    {
        match &mut self.kind {
            KindEditor::WebSocket(socket) => {
                if ix < socket.messages.len() {
                    let body = socket.messages[ix].body.clone();
                    socket.set_compose(body.as_str());
                }
            },
            _ => {},
        }
    }

    /// Forget a saved message.
    pub fn forget_message(&mut self, ix: usize)
        requires
            old(self).wf(),
        ensures
            final(self).wf(),
            *final(self) == (RequestView { kind: final(self).kind, ..*old(self) }),
            final(self).kind@ == (match old(self).kind@ {
                KindEditorView::WebSocket(socket) => KindEditorView::WebSocket(
                    socket.without(ix as int),
                ),
                _ => old(self).kind@,
            }),
    {
        match &mut self.kind {
            KindEditor::WebSocket(socket) => socket.forget(ix),
            _ => {},
        }
    }

    /// Take what is being composed, to be sent down the open conversation; the composer is left
    /// empty. Nothing is taken where no conversation is open or the composer is blank.
    pub fn take_frame(&mut self) -> (r: Option<(u64, String)>)
        requires
            old(self).wf(),
        ensures
            final(self).wf(),
            ({
                let sends = is_open(old(self).session) && is_composing(old(self).kind@);
                &&& !sends ==> r is None && *final(self) == *old(self)
                &&& sends ==> {
                    let socket = old(self).kind@->WebSocket_0;
                    &&& r matches Some((job, message)) && job == old(self).session->0@.job
                        && message@ == socket.compose.surface.text
                    &&& *final(self) == (RequestView { kind: final(self).kind, ..*old(self) })
                    &&& final(self).kind@ == KindEditorView::WebSocket(
                        crate::kinds::websocket::composing(socket, Seq::empty()),
                    )
                }
            }),
    {
        let job: u64 = match &self.session {
            Some(session) => if session.is_open() {
                session.job
            } else {
                return None;
            },
            None => {
                return None;
            },
        };
        match &mut self.kind {
            KindEditor::WebSocket(socket) => {
                let message = socket.compose.text().to_owned();
                if strings::blank(message.as_str()) {
                    return None;
                }
                proof {
                    reveal_strlit("");
                    assert(""@ =~= Seq::<char>::empty());
                }
                socket.set_compose("");
                Some((job, message))
            },
            _ => None,
        }
    }
}

/// The selection stays on its row: whatever goes from the front, the row that shows in full is
/// the one that was chosen, or none.
pub proof fn the_selection_keeps_its_row(
    before: RequestView,
    after: RequestView,
    row: TranscriptRow,
)
    requires
        before.session is Some,
        row_taken(before, after, row),
        before.session_selected matches Some(ix) ==> ix < before.session->0@.rows.len(),
    ensures
        after.session_selected matches Some(now) ==> {
            &&& before.session_selected is Some
            &&& now < after.session->0@.rows.len()
            &&& after.session->0@.rows[now as int] == before.session->0@.rows[
                before.session_selected->0 as int
            ]
        },
{
    let session = before.session->0@;
    crate::transcript::eviction_keeps_the_newest(session.rows.push(row));
    if let Some(ix) = before.session_selected {
        if ix >= session.evicted_by(row) {
            crate::transcript::rows_shift_by_the_eviction_count(session, row, ix as int);
        }
    }
}

/// A failed conversation is a closed one.
pub proof fn a_failed_session_is_closed(
    before: RequestView,
    inflight: InFlight,
    event: Event,
    following: bool,
    after: RequestView,
    applied: Applied,
)
    requires
        event is Failed || event is Closed,
        event_taken(before, inflight, event, following, after, applied),
    ensures
        after.session matches Some(session) ==> !session@.is_open(),
        after.session is Some <==> before.session is Some,
{
}

/// The loop ends exactly with the events that leave nothing in flight.
pub proof fn the_loop_ends_with_the_run(
    before: RequestView,
    inflight: InFlight,
    event: Event,
    following: bool,
    after: RequestView,
    applied: Applied,
)
    requires
        before.inflight == Some(inflight),
        event_taken(before, inflight, event, following, after, applied),
    ensures
        applied.more <==> after.inflight is Some,
        after.inflight matches Some(now) ==> now.job == inflight.job,
{
    match event {
        Event::Reconnecting { attempt, seconds, .. } => {
            let notice = choose|notice: String| #[trigger]
                notice@ == notice_text(attempt, seconds) && row_taken(
                    before,
                    after,
                    TranscriptRow {
                        at: match before.session {
                            Some(session) => last_at(session@.rows),
                            None => 0,
                        },
                        kind: TranscriptKind::Notice(notice),
                    },
                );
            assert(after.inflight == before.inflight);
        },
        _ => {},
    }
}

/// A new response is the live one, and the one before it is the first of the history.
pub proof fn the_last_response_becomes_history(
    before: RequestView,
    inflight: InFlight,
    event: Event,
    following: bool,
    after: RequestView,
    applied: Applied,
)
    requires
        before.response is Some,
        event is Done,
        event_taken(before, inflight, event, following, after, applied),
    ensures
        after.shown() == after.response,
        after.history@[0] == before.response->0,
        applied.compare && applied.index,
        forall|i: int|
            1 <= i < after.history.len() ==> after.history@[i] == #[trigger] before.history@[i - 1],
{
}

/// A row that was chosen stays chosen for as long as it is kept, and only then; what shows of it
/// in full stays with it.
pub proof fn a_chosen_row_stays_chosen_while_it_is_kept(
    before: RequestView,
    after: RequestView,
    row: TranscriptRow,
)
    requires
        before.session is Some,
        row_taken(before, after, row),
        before.session_selected matches Some(ix) && ix < before.session->0@.rows.len(),
    ensures
        ({
            let went = after.session->0@.dropped - before.session->0@.dropped;
            let ix = before.session_selected->0;
            &&& ix >= went ==> after.session_selected is Some && after.session_selected->0 == ix
                - went && after.body_view == before.body_view
            &&& ix < went ==> after.session_selected is None && after.body_view is None
        }),
{
    crate::transcript::eviction_keeps_the_newest(before.session->0@.rows.push(row));
}

/// No event touches what is being edited: the request, its rules and its settings stay as they are
/// while a response comes.
pub proof fn an_event_leaves_what_is_edited(
    before: RequestView,
    inflight: InFlight,
    event: Event,
    following: bool,
    after: RequestView,
    applied: Applied,
)
    requires
        event_taken(before, inflight, event, following, after, applied),
    ensures
        after.url == before.url,
        after.headers == before.headers,
        after.kind == before.kind,
        after.captures == before.captures,
        after.assertions == before.assertions,
        after.expect_status == before.expect_status,
        after.settings == before.settings,
        after.baseline == before.baseline,
        after.id == before.id && after.name == before.name && after.path == before.path,
        after.capture_target == before.capture_target,
        after.search == before.search && after.body_search == before.body_search,
        after.request_tab == before.request_tab && after.response_view == before.response_view,
        after.html_view == before.html_view,
        !(event is Done) ==> after.response == before.response && after.history == before.history
            && after.viewing == before.viewing && !applied.compare && !applied.index,
        !(event is Failed) ==> after.error == before.error,
        !(event is Frame) ==> applied.reveal is None,
{
    match event {
        Event::Reconnecting { attempt, seconds, .. } => {
            let notice = choose|notice: String| #[trigger]
                notice@ == notice_text(attempt, seconds) && row_taken(
                    before,
                    after,
                    TranscriptRow {
                        at: match before.session {
                            Some(session) => last_at(session@.rows),
                            None => 0,
                        },
                        kind: TranscriptKind::Notice(notice),
                    },
                );
            assert(after.kind == before.kind);
        },
        _ => {},
    }
}

/// A message that comes is the newest row of the conversation, and is gone to where the reader was
/// following; nothing else of the conversation changes but what had to go for it.
pub proof fn a_message_that_comes_is_the_newest_row(
    before: RequestView,
    inflight: InFlight,
    event: Event,
    following: bool,
    after: RequestView,
    applied: Applied,
)
    requires
        event is Frame,
        before.session is Some,
        event_taken(before, inflight, event, following, after, applied),
    ensures
        after.session is Some,
        ({
            let rows = after.session->0@.rows;
            &&& rows.len() > 0
            &&& event matches Event::Frame { at, direction, frame, .. } && rows.last() == (
            TranscriptRow { at, kind: TranscriptKind::Frame { direction, frame } })
            &&& following ==> applied.reveal == Some((rows.len() - 1) as usize)
            &&& !following ==> applied.reveal is None
            &&& after.session->0@.job == before.session->0@.job
            &&& after.session->0@.closed == before.session->0@.closed
        }),
{
    if let Event::Frame { at, direction, frame, .. } = event {
        crate::transcript::every_row_is_kept_or_counted(
            before.session->0@,
            TranscriptRow { at, kind: TranscriptKind::Frame { direction, frame } },
        );
    }
}

/// A drop is noted as the newest row, with when it is tried again, and the conversation stays open.
pub proof fn a_drop_is_noted_in_the_conversation(
    before: RequestView,
    inflight: InFlight,
    event: Event,
    following: bool,
    after: RequestView,
    applied: Applied,
)
    requires
        event is Reconnecting,
        before.session is Some,
        event_taken(before, inflight, event, following, after, applied),
    ensures
        after.session is Some,
        ({
            let rows = after.session->0@.rows;
            &&& rows.len() > 0
            &&& rows.last().kind is Notice
            &&& rows.last().kind->Notice_0@ == notice_text(event->attempt, event->seconds)
            &&& before.session->0@.rows.len() > 0 ==> rows.last().at
                == before.session->0@.rows.last().at
            &&& after.session->0@.closed == before.session->0@.closed
        }),
{
    if let Event::Reconnecting { attempt, seconds, .. } = event {
        let at = last_at(before.session->0@.rows);
        let notice = choose|notice: String| #[trigger]
            notice@ == notice_text(attempt, seconds) && row_taken(
                before,
                after,
                TranscriptRow {
                    at: match before.session {
                        Some(session) => last_at(session@.rows),
                        None => 0,
                    },
                    kind: TranscriptKind::Notice(notice),
                },
            );
        crate::transcript::every_row_is_kept_or_counted(
            before.session->0@,
            TranscriptRow { at, kind: TranscriptKind::Notice(notice) },
        );
    }
}

/// A notice says in how many seconds it is tried again, and from the second attempt on which
/// attempt it is.
pub proof fn a_notice_says_when_it_is_tried_again(attempt: u64, seconds: u64)
    ensures
        strings::has_substring(notice_text(attempt, seconds), strings::decimal(seconds as nat)),
        attempt != 1 ==> strings::has_substring(
            notice_text(attempt, seconds),
            strings::decimal(attempt as nat),
        ),
        strings::has_prefix(
            notice_text(attempt, seconds),
            if attempt == 1 {
                "disconnected"@
            } else {
                "still disconnected"@
            },
        ),
{
    let wait = strings::decimal(seconds as nat);
    let count = strings::decimal(attempt as nat);
    reveal_strlit("disconnected");
    reveal_strlit("still disconnected");
    reveal_strlit("disconnected · reconnecting in ");
    reveal_strlit("still disconnected · retrying in ");
    let whole = notice_text(attempt, seconds);
    if attempt == 1 {
        let lead = "disconnected · reconnecting in "@;
        strings::a_substring_has_something_on_either_side(lead, wait, "s"@, whole);
        assert(whole.subrange(0, "disconnected"@.len() as int) =~= "disconnected"@);
    } else {
        let lead = "still disconnected · retrying in "@;
        strings::a_substring_has_something_on_either_side(
            lead,
            wait,
            "s (attempt "@ + count + ")"@,
            whole,
        );
        assert(lead + wait + ("s (attempt "@ + count + ")"@) =~= whole);
        strings::a_substring_has_something_on_either_side(
            lead + wait + "s (attempt "@,
            count,
            ")"@,
            whole,
        );
        assert(whole.subrange(0, "still disconnected"@.len() as int) =~= "still disconnected"@);
    }
}

/// What is told of a run under way is kept with it: the status line and headers once they come,
/// and how much of the body has.
pub proof fn what_is_told_of_a_run_is_kept_with_it(
    before: RequestView,
    inflight: InFlight,
    event: Event,
    following: bool,
    after: RequestView,
    applied: Applied,
)
    requires
        before.inflight == Some(inflight),
        event_taken(before, inflight, event, following, after, applied),
    ensures
        event is Head ==> after.inflight is Some && ({
            let now = after.inflight->0;
            &&& now.status is Some && (now.status->0).0 == event->Head_status
            &&& now.headers == event->Head_headers
            &&& now.ttfb == Some(event->ttfb)
            &&& now.received == inflight.received && now.total == inflight.total
        }),
        event is Progress ==> after.inflight is Some && ({
            let now = after.inflight->0;
            &&& now.received == event->received
            &&& now.total == event->total
            &&& now.status == inflight.status && now.headers == inflight.headers && now.ttfb
                == inflight.ttfb
        }),
        event is Started ==> after == before,
        event is Opened ==> after.session is Some && ({
            let session = after.session->0@;
            &&& session.is_open() && session.rows.len() == 0 && session.dropped == 0
            &&& session.job == inflight.job
            &&& session.transport == event->transport && session.protocol == event->protocol
            &&& session.status is Some && (session.status->0).0 == event->Opened_status
        }),
        event is Head || event is Progress ==> after.session == before.session,
{
}

/// A conversation that ends keeps its rows, and says how: with the code and the reason it was
/// closed for, or with the error that ended it, unless it was closed before.
pub proof fn a_conversation_that_ends_says_how(
    before: RequestView,
    inflight: InFlight,
    event: Event,
    following: bool,
    after: RequestView,
    applied: Applied,
)
    requires
        before.session is Some,
        event is Closed || event is Failed,
        event_taken(before, inflight, event, following, after, applied),
    ensures
        after.session is Some,
        after.session->0@.rows == before.session->0@.rows,
        after.session->0@.dropped == before.session->0@.dropped,
        event is Closed ==> after.session->0@.closed == Some((event->code, event->reason)),
        event is Failed && before.session->0@.closed is None ==> after.session->0@.closed == Some(
            (None::<u16>, event->error.text),
        ),
        event is Failed && before.session->0@.closed is Some ==> after.session == before.session,
        event is Failed ==> after.error == Some(event->error),
        after.inflight is None,
{
}

/// A response that lands is the live one and is shown; nothing that described the one before
/// stays beside it.
pub proof fn a_response_that_lands_is_shown(
    before: RequestView,
    inflight: InFlight,
    event: Event,
    following: bool,
    after: RequestView,
    applied: Applied,
)
    requires
        event is Done,
        event_taken(before, inflight, event, following, after, applied),
    ensures
        after.response == Some(event->response),
        after.viewing == 0,
        after.inflight is None && after.diff is None && after.body_diff is None && after.body_view
            is None,
        after.session == before.session,
        applied.compare <==> before.response is Some,
        before.response is None ==> after.history@ == before.history@,
{
}

/// The history takes the run that was live in front and keeps the others in order; only the oldest
/// goes, and only from a history that is full.
pub proof fn a_full_history_loses_its_oldest_run(
    previous: ResponseData,
    history: Seq<ResponseData>,
    i: int,
)
    requires
        history.len() <= HISTORY_LIMIT,
    ensures
        newest_first(Some(previous), history)[0] == previous,
        newest_first(Some(previous), history).len() == (if history.len() < HISTORY_LIMIT {
            history.len() + 1
        } else {
            HISTORY_LIMIT as nat
        }),
        0 <= i && i + 1 < newest_first(Some(previous), history).len() ==> newest_first(
            Some(previous),
            history,
        )[i + 1] == history[i],
        newest_first(None, history) == history,
{
}

/// The text of a message is what its bytes spell, and only what is text has one.
pub proof fn a_text_is_what_its_bytes_spell(payload: Payload)
    ensures
        payload_text(payload) matches Some(said) ==> payload_bytes(payload)
            == vstd::utf8::encode_utf8(said),
        payload_text(payload) is Some <==> payload is Text || payload is Event,
        payload matches Payload::Text(said) ==> payload_text(payload) == Some(said@),
        payload matches Payload::Event { data } ==> payload_text(payload) == Some(data@),
        payload matches Payload::Binary(bytes) ==> payload_bytes(payload) == bytes@,
        payload matches Payload::Ping(bytes) ==> payload_bytes(payload) == bytes@,
        payload matches Payload::Pong(bytes) ==> payload_bytes(payload) == bytes@,
{
}

/// A row is a message or a notice, and only a message has anything to show in full.
pub proof fn only_a_message_shows_in_full(session: Transcript, ix: int)
    requires
        0 <= ix < session@.rows.len(),
    ensures
        message_at(Some(session), ix) is Some <==> session@.rows[ix].kind is Frame,
        message_at(Some(session), ix) matches Some(frame) ==> session@.rows[ix].kind->frame
            == frame,
        message_at(None, ix) is None,
        message_at(Some(session), session@.rows.len() as int) is None,
{
}

/// There is something to send exactly where a socket's composer holds something that is not blank.
pub proof fn only_a_written_message_can_be_sent(kind: KindEditorView)
    ensures
        is_composing(kind) <==> kind is WebSocket && strings::trimmed(
            kind->WebSocket_0.compose.surface.text,
        ).len() > 0,
{
}

/// A session is open from when it opens until it says how it ended.
pub proof fn a_session_is_open_until_it_is_closed(session: Transcript)
    ensures
        is_open(Some(session)) <==> session.closed is None,
        !is_open(None),
{
}

/// Every event carries the job that it is about.
pub proof fn an_event_is_about_its_job(job: u64, received: usize, error: EngineError)
    ensures
        (Event::Started { job }).spec_job() == job,
        (Event::Progress { job, received, total: None }).spec_job() == job,
        (Event::Failed { job, error }).spec_job() == job,
{
}

} // verus!
