//! The record of a conversation: a ring of messages and notices, bounded in bytes and in rows.

use crate::request;
use crate::request::{Header, KeyValueView};
use crate::text;
use std::collections::VecDeque;
use vstd::prelude::*;
use vstd::string::*;

verus! {

/// The bytes of payload a transcript may hold.
pub const MAX_TRANSCRIPT_BYTES: usize = 16_777_216;

/// The rows a transcript may hold, for streams whose messages are twenty bytes each.
pub const MAX_TRANSCRIPT_FRAMES: usize = 10_000;

/// Who sent a message.
#[derive(Clone, Copy, Debug, PartialEq, Eq, Structural)]
pub enum Direction {
    Sent,
    Received,
}

/// What carries a conversation.
#[derive(Clone, Copy, Debug, PartialEq, Eq, Structural)]
pub enum Transport {
    WebSocket,
    EventStream,
}

/// What a message holds.
pub enum Payload {
    Text(String),
    /// A server-sent event; its name and id are about the message, not part of it.
    Event { data: String },
    Binary(Vec<u8>),
    Ping(Vec<u8>),
    Pong(Vec<u8>),
}

/// One message, and how many bytes it counts for.
pub struct Frame {
    pub payload: Payload,
    pub len: usize,
}

/// What a row of a transcript is.
pub enum TranscriptKind {
    Frame { direction: Direction, frame: Frame },
    /// A break in the conversation: a drop, a reconnect, a give-up.
    Notice(String),
}

/// One row of a transcript.
pub struct TranscriptRow {
    /// Nanoseconds since the connect.
    pub at: u64,
    pub kind: TranscriptKind,
}

impl TranscriptKind {
    pub open spec fn spec_weight(self) -> nat {
        match self {
            TranscriptKind::Frame { frame, .. } => frame.len as nat,
            TranscriptKind::Notice(text) => text::byte_len(text@),
        }
    }

    /// How many bytes a row counts for.
    pub fn weight(&self) -> (r: usize)
        ensures
            r == self.spec_weight(),
    {
        match self {
            TranscriptKind::Frame { frame, .. } => frame.len,
            TranscriptKind::Notice(text) => text::byte_length(text.as_str()),
        }
    }

    /// The message, where the row is one.
    pub fn frame(&self) -> (r: Option<&Frame>)
        ensures
            r is Some <==> *self is Frame,
            r matches Some(f) ==> self matches TranscriptKind::Frame { frame, .. } && *f == frame,
    {
        match self {
            TranscriptKind::Frame { frame, .. } => Some(frame),
            TranscriptKind::Notice(_) => None,
        }
    }
}

/// The bytes that a sequence of rows counts for.
pub open spec fn total_weight(rows: Seq<TranscriptRow>) -> nat
    decreases rows.len(),
{
    if rows.len() == 0 {
        0
    } else {
        rows[0].kind.spec_weight() + total_weight(rows.drop_first())
    }
}

/// How many of a sequence of rows are messages.
pub open spec fn frames_in(rows: Seq<TranscriptRow>) -> nat
    decreases rows.len(),
{
    if rows.len() == 0 {
        0
    } else {
        (if rows[0].kind is Frame {
            1nat
        } else {
            0
        }) + frames_in(rows.drop_first())
    }
}

/// Whether a sequence of rows is over either budget. A single row never is, however large.
pub open spec fn is_over(rows: Seq<TranscriptRow>) -> bool {
    ||| rows.len() > MAX_TRANSCRIPT_FRAMES
    ||| total_weight(rows) > MAX_TRANSCRIPT_BYTES && rows.len() > 1
}

/// The rows left once the oldest have gone until both budgets hold.
pub open spec fn kept(rows: Seq<TranscriptRow>) -> Seq<TranscriptRow>
    decreases rows.len(),
{
    if rows.len() > 0 && is_over(rows) {
        kept(rows.drop_first())
    } else {
        rows
    }
}

/// What a transcript holds.
pub struct TranscriptView {
    pub job: u64,
    pub transport: Transport,
    pub protocol: Option<String>,
    pub status: Option<(u16, String)>,
    pub headers: Seq<KeyValueView>,
    pub rows: Seq<TranscriptRow>,
    pub dropped: nat,
    pub closed: Option<(Option<u16>, String)>,
}

impl TranscriptView {
    /// The transcript with a row added and the oldest gone that no longer fit.
    pub open spec fn pushed(self, row: TranscriptRow) -> TranscriptView {
        let rows = kept(self.rows.push(row));
        TranscriptView {
            rows,
            dropped: (self.dropped + self.evicted_by(row)) as nat,
            ..self
        }
    }

    /// How many rows adding one pushes out.
    pub open spec fn evicted_by(self, row: TranscriptRow) -> int {
        self.rows.len() + 1 - kept(self.rows.push(row)).len()
    }

    /// Whether a row of this weight can be counted without running out of numbers.
    pub open spec fn has_room(self, row: TranscriptRow) -> bool {
        &&& total_weight(self.rows) + row.kind.spec_weight() <= usize::MAX
        &&& self.dropped + self.rows.len() < usize::MAX
    }

    pub open spec fn is_open(self) -> bool {
        self.closed is None
    }
}

/// A conversation, live or finished. It is kept after the connection closes: a transcript is the
/// result of a session the way a response is the result of a request.
pub struct Transcript {
    pub job: u64,
    pub transport: Transport,
    /// The subprotocol the server picked.
    pub protocol: Option<String>,
    /// The handshake's status line and headers.
    pub status: Option<(u16, String)>,
    pub headers: Vec<Header>,
    pub rows: VecDeque<TranscriptRow>,
    /// How many rows have been pushed out.
    pub dropped: usize,
    /// Bytes that `rows` count for.
    pub retained: usize,
    /// How many of `rows` are messages.
    pub frame_count: usize,
    /// The close code and reason, once closed. No code means the peer vanished.
    pub closed: Option<(Option<u16>, String)>,
}

impl View for Transcript {
    type V = TranscriptView;

    open spec fn view(&self) -> TranscriptView {
        TranscriptView {
            job: self.job,
            transport: self.transport,
            protocol: self.protocol,
            status: self.status,
            headers: request::key_values(self.headers@),
            rows: self.rows@,
            dropped: self.dropped as nat,
            closed: self.closed,
        }
    }
}

proof fn lemma_weight_push(rows: Seq<TranscriptRow>, row: TranscriptRow)
    ensures
        total_weight(rows.push(row)) == total_weight(rows) + row.kind.spec_weight(),
        frames_in(rows.push(row)) == frames_in(rows) + (if row.kind is Frame {
            1nat
        } else {
            0
        }),
    decreases rows.len(),
{
    reveal_with_fuel(total_weight, 2);
    reveal_with_fuel(frames_in, 2);
    if rows.len() > 0 {
        assert(rows.push(row).drop_first() =~= rows.drop_first().push(row));
        lemma_weight_push(rows.drop_first(), row);
    } else {
        assert(rows.push(row).drop_first() =~= Seq::empty());
    }
}

proof fn lemma_frames_bound(rows: Seq<TranscriptRow>)
    ensures
        frames_in(rows) <= rows.len(),
    decreases rows.len(),
{
    if rows.len() > 0 {
        lemma_frames_bound(rows.drop_first());
    }
}

/// What eviction leaves is within both budgets, is the newest stretch of what there was, and is
/// not empty where there was anything.
pub proof fn eviction_keeps_the_newest(rows: Seq<TranscriptRow>)
    ensures
        !is_over(kept(rows)),
        kept(rows).len() <= rows.len(),
        kept(rows) == rows.skip(rows.len() - kept(rows).len()),
        rows.len() > 0 ==> kept(rows).len() > 0 && kept(rows).last() == rows.last(),
    decreases rows.len(),
{
    if rows.len() > 0 && is_over(rows) {
        eviction_keeps_the_newest(rows.drop_first());
        let rest = rows.drop_first();
        assert(rest.skip(rest.len() - kept(rest).len()) =~= rows.skip(
            rows.len() - kept(rows).len(),
        ));
    } else {
        assert(rows.skip(0) =~= rows);
    }
}

/// A row that was kept has moved forward by exactly the number of rows pushed out.
pub proof fn rows_shift_by_the_eviction_count(t: TranscriptView, row: TranscriptRow, i: int)
    requires
        t.evicted_by(row) <= i < t.rows.len(),
    ensures
        t.pushed(row).rows[i - t.evicted_by(row)] == t.rows[i],
        t.evicted_by(row) >= 0,
{
    eviction_keeps_the_newest(t.rows.push(row));
}

impl Transcript {
    /// The counters say what the rows hold.
    pub open spec fn wf(&self) -> bool {
        &&& self.retained == total_weight(self.rows@)
        &&& self.frame_count == frames_in(self.rows@)
    }

    /// A conversation that has just opened.
    pub fn new(
        job: u64,
        transport: Transport,
        protocol: Option<String>,
        status: Option<(u16, String)>,
        headers: Vec<Header>,
    ) -> (r: Transcript)
        ensures
            r.wf(),
            r@ == (TranscriptView {
                job,
                transport,
                protocol,
                status,
                headers: request::key_values(headers@),
                rows: Seq::empty(),
                dropped: 0,
                closed: None,
            }),
    {
        Transcript {
            job,
            transport,
            protocol,
            status,
            headers,
            rows: VecDeque::new(),
            dropped: 0,
            retained: 0,
            frame_count: 0,
            closed: None,
        }
    }

    pub fn is_open(&self) -> (r: bool)
        ensures
            r == self@.is_open(),
    {
        self.closed.is_none()
    }

    /// Record a row, pushing out the oldest until both budgets hold. Returns how many went, which
    /// is how far every index into the rows has shifted.
    pub fn push(&mut self, row: TranscriptRow) -> (evicted: usize)
        requires
            old(self).wf(),
            old(self)@.has_room(row),
        ensures
            final(self).wf(),
            final(self)@ == old(self)@.pushed(row),
            evicted == old(self)@.evicted_by(row),
    {
        let ghost before = self@;
        let ghost all = self.rows@.push(row);
        proof {
            lemma_weight_push(self.rows@, row);
            lemma_frames_bound(self.rows@);
        }
        self.retained = self.retained + row.kind.weight();
        if let TranscriptKind::Frame { .. } = row.kind {
            self.frame_count = self.frame_count + 1;
        }
        self.rows.push_back(row);
        let mut evicted: usize = 0;
        while self.rows.len() > MAX_TRANSCRIPT_FRAMES || (self.retained > MAX_TRANSCRIPT_BYTES
            && self.rows.len() > 1)
            invariant
                self.wf(),
                before.dropped + before.rows.len() < usize::MAX,
                all == before.rows.push(row),
                self@ == (TranscriptView { rows: self@.rows, ..before }),
                kept(self.rows@) == kept(all),
                evicted + self.rows@.len() == all.len(),
            decreases self.rows@.len(),
        {
            let ghost held = self.rows@;
            let gone = self.rows.pop_front().unwrap();
            proof {
                assert(self.rows@ =~= held.drop_first());
            }
            self.retained = self.retained.saturating_sub(gone.kind.weight());
            if let TranscriptKind::Frame { .. } = gone.kind {
                self.frame_count = self.frame_count.saturating_sub(1);
            }
            evicted = evicted + 1;
        }
        self.dropped = self.dropped + evicted;
        evicted
    }

    /// How many rows are messages.
    pub fn frames(&self) -> (r: usize)
        requires
            self.wf(),
        ensures
            r == frames_in(self@.rows),
    {
        self.frame_count
    }
}

/// No more rows go than have to: with one more of those that went, the rest would be over a budget,
/// and nothing goes from rows that are within both.
pub proof fn no_more_rows_go_than_have_to(rows: Seq<TranscriptRow>)
    ensures
        kept(rows).len() < rows.len() ==> ({
            let more = rows.skip(rows.len() - kept(rows).len() - 1);
            more.len() > MAX_TRANSCRIPT_FRAMES || (total_weight(more) > MAX_TRANSCRIPT_BYTES
                && more.len() > 1)
        }),
        rows.len() <= MAX_TRANSCRIPT_FRAMES && total_weight(rows) <= MAX_TRANSCRIPT_BYTES ==> kept(
            rows,
        ) == rows,
        kept(rows).len() <= MAX_TRANSCRIPT_FRAMES,
        total_weight(kept(rows)) <= MAX_TRANSCRIPT_BYTES || kept(rows).len() <= 1,
    decreases rows.len(),
{
    eviction_keeps_the_newest(rows);
    if rows.len() > 0 && is_over(rows) {
        let rest = rows.drop_first();
        no_more_rows_go_than_have_to(rest);
        eviction_keeps_the_newest(rest);
        if kept(rest).len() < rest.len() {
            assert(rest.skip(rest.len() - kept(rest).len() - 1) =~= rows.skip(
                rows.len() - kept(rows).len() - 1,
            ));
        } else {
            assert(rows.skip(0) =~= rows);
        }
    }
}

/// A row that is added is the newest, and every row is either there or counted among those that
/// went.
pub proof fn every_row_is_kept_or_counted(t: TranscriptView, row: TranscriptRow)
    ensures
        t.pushed(row).rows.len() > 0,
        t.pushed(row).rows.last() == row,
        t.pushed(row).dropped + t.pushed(row).rows.len() == t.dropped + t.rows.len() + 1,
        t.pushed(row).job == t.job,
        t.pushed(row).closed == t.closed,
        t.pushed(row).status == t.status,
        t.pushed(row).protocol == t.protocol,
        t.pushed(row).headers == t.headers,
        t.pushed(row).transport == t.transport,
{
    eviction_keeps_the_newest(t.rows.push(row));
    assert(t.rows.push(row).last() == row);
}

/// Rows weigh what they weigh one by one, a message its length and a notice its text, and a row
/// counts as a message where it is one.
pub proof fn rows_weigh_what_they_hold(rows: Seq<TranscriptRow>, row: TranscriptRow)
    ensures
        total_weight(rows.push(row)) == total_weight(rows) + (match row.kind {
            TranscriptKind::Frame { frame, .. } => frame.len as nat,
            TranscriptKind::Notice(said) => text::byte_len(said@),
        }),
        total_weight(Seq::<TranscriptRow>::empty()) == 0,
        frames_in(rows.push(row)) == frames_in(rows) + (if row.kind is Frame {
            1nat
        } else {
            0
        }),
        frames_in(Seq::<TranscriptRow>::empty()) == 0,
{
    lemma_weight_push(rows, row);
}

/// A conversation is open until something closed it.
pub proof fn a_conversation_is_open_until_it_is_closed(
    view: TranscriptView,
    code: Option<u16>,
    reason: String,
)
    ensures
        view.closed == Some((code, reason)) ==> !view.is_open(),
        !view.is_open() ==> view.closed is Some,
{
}

} // verus!
