//! Authoring a socket: what to offer at the handshake, and what to say once it is open.
//!
//! A socket is a conversation, so its editor is a composer: the next message is typed there, and
//! what is worth keeping is kept beside it.

use crate::input::editor;
use crate::input::editor::{Editor, EditorView};
use crate::input::text_input;
use crate::input::text_input::{InputView, TextInput};
use crate::input::words;
use crate::request;
use crate::request::{MessageView, SavedMessage, WebSocketRequest, WebSocketView};
use crate::strings;
use vstd::prelude::*;
use vstd::string::*;

verus! {

/// How many characters of a payload's first line a saved message is named by.
pub const NAME_CHARS: usize = 24;

/// What the socket editors hold.
pub struct WebSocketEditorView {
    pub subprotocols: InputView,
    pub compose: EditorView,
    pub messages: Seq<MessageView>,
}

/// The protocols among the first `n` parts of a list split at its commas.
pub open spec fn protocols_before(parts: Seq<Seq<char>>, n: int) -> Seq<Seq<char>>
    decreases n,
{
    if n <= 0 {
        Seq::empty()
    } else if strings::is_blank(parts[n - 1]) {
        protocols_before(parts, n - 1)
    } else {
        protocols_before(parts, n - 1).push(strings::trimmed(parts[n - 1]))
    }
}

/// The protocols a comma-separated list names. Whitespace and empty entries are typing, not
/// protocols.
pub open spec fn protocols_in(text: Seq<char>) -> Seq<Seq<char>> {
    let parts = strings::split_on(text, ',');
    protocols_before(parts, parts.len() as int)
}

impl WebSocketEditorView {
    pub open spec fn wf(self) -> bool {
        &&& self.subprotocols.wf()
        &&& self.compose.wf()
    }

    /// The request the editors spell out. What is being composed is the next message, not part of
    /// the request.
    pub open spec fn spec(self) -> WebSocketView {
        WebSocketView {
            subprotocols: protocols_in(self.subprotocols.surface.text),
            messages: self.messages,
        }
    }

    /// Whether anything has been typed or kept.
    pub open spec fn has_content(self) -> bool {
        ||| !strings::is_blank(self.subprotocols.surface.text)
        ||| !strings::is_blank(self.compose.surface.text)
        ||| self.messages.len() > 0
    }

    /// The messages without message `ix`; out of range changes nothing.
    pub open spec fn without(self, ix: int) -> WebSocketEditorView {
        if 0 <= ix < self.messages.len() {
            WebSocketEditorView { messages: self.messages.remove(ix), ..self }
        } else {
            self
        }
    }
}

/// The editors a saved request is opened in. The composer starts empty.
pub open spec fn websocket_editor(socket: WebSocketView) -> WebSocketEditorView {
    WebSocketEditorView {
        subprotocols: text_input::fresh_input(
            strings::joined(socket.subprotocols, ", "@),
            "graphql-transport-ws, wamp.2.json"@,
            "WebSocketSubprotocols"@,
        ),
        compose: editor::fresh_editor(Seq::empty(), "{ \"type\": \"ping\" }"@),
        messages: socket.messages,
    }
}

/// The editors with a message kept, under the name its payload gives it.
pub open spec fn saved(
    editors: WebSocketEditorView,
    body: Seq<char>,
    shortened: Seq<char>,
) -> WebSocketEditorView {
    WebSocketEditorView {
        messages: editors.messages.push(
            MessageView {
                name: name_text(source_of(json_string_member(body, "type"@), body), shortened),
                body,
            },
        ),
        ..editors
    }
}

/// The editors with `text` in the composer, put there as one edit.
pub open spec fn composing(editors: WebSocketEditorView, text: Seq<char>) -> WebSocketEditorView {
    let held = editors.compose.surface;
    WebSocketEditorView {
        compose: editors.compose.with(
            held.replaced((0, crate::text::byte_len(held.text) as int), text).forward(),
        ),
        ..editors
    }
}

/// Everything a socket is edited through.
pub struct WebSocketEditor {
    /// What to offer at the handshake, separated by commas as the header is.
    pub subprotocols: TextInput,
    /// The next message to send.
    pub compose: Editor,
    /// Messages kept with the request. Nothing edits them in place.
    pub messages: Vec<SavedMessage>,
}

impl View for WebSocketEditor {
    type V = WebSocketEditorView;

    open spec fn view(&self) -> WebSocketEditorView {
        WebSocketEditorView {
            subprotocols: self.subprotocols@,
            compose: self.compose@,
            messages: request::messages_of(self.messages@),
        }
    }
}

impl WebSocketEditor {
    /// A blank socket.
    pub fn new() -> (r: WebSocketEditor)
        ensures
            r@ == websocket_editor(request::blank_websocket()),
            r@.wf(),
    {
        WebSocketEditor::from_spec(&WebSocketRequest::default())
    }

    /// The editors a saved request is opened in.
    pub fn from_spec(socket: &WebSocketRequest) -> (r: WebSocketEditor)
        ensures
            r@ == websocket_editor(socket@),
            r@.wf(),
    {
        let offered = strings::join(&socket.subprotocols, ", ");
        proof {
            reveal_strlit("");
            assert(""@ =~= Seq::<char>::empty());
        }
        WebSocketEditor {
            subprotocols: TextInput::new(
                offered.as_str(),
                "graphql-transport-ws, wamp.2.json",
                "WebSocketSubprotocols",
            ),
            compose: Editor::new("", "{ \"type\": \"ping\" }"),
            messages: request::clone_messages(&socket.messages),
        }
    }

    /// Keep a message under a name that says what it is. `shortened` is used where the name is a
    /// first line too long to stand as it is.
    pub fn save(&mut self, body: String, shortened: String)
        ensures
            final(self)@ == saved(old(self)@, body@, shortened@),
    {
        let ghost before = self.messages@;
        let name = name_for(body.as_str(), shortened);
        self.messages.push(SavedMessage { name, body });
        proof {
            assert(request::messages_of(self.messages@) =~= request::messages_of(before).push(
                self.messages@.last()@,
            ));
        }
    }

    /// Put a text into the composer in place of what it holds, as one edit.
    pub fn set_compose(&mut self, text: &str)
        requires
            old(self)@.wf(),
        ensures
            final(self)@.wf(),
            final(self)@ == composing(old(self)@, text@),
    {
        let end: usize = crate::text::byte_length(self.compose.text());
        proof {
            crate::text::lemma_offset_ends(self.compose@.surface.text);
        }
        self.compose.replace_range(0..end, text);
    }

    /// Forget a message. Out of range is ignored: the list can have changed since its row was
    /// drawn.
    pub fn forget(&mut self, ix: usize)
        ensures
            final(self)@ == old(self)@.without(ix as int),
    {
        if ix < self.messages.len() {
            let ghost before = self.messages@;
            self.messages.remove(ix);
            proof {
                assert(request::messages_of(self.messages@) =~= request::messages_of(before).remove(
                    ix as int,
                ));
            }
        }
    }

    /// Whether anything has been typed or kept.
    pub fn has_content(&self) -> (r: bool)
        ensures
            r == self@.has_content(),
    {
        !strings::blank(self.subprotocols.text()) || !strings::blank(self.compose.text())
            || self.messages.len() > 0
    }

    /// The request the editors spell out.
    pub fn to_spec(&self) -> (r: WebSocketRequest)
        ensures
            r@ == self@.spec(),
    {
        WebSocketRequest {
            subprotocols: split_protocols(self.subprotocols.text()),
            messages: request::clone_messages(&self.messages),
        }
    }

    /// Whether the editors spell out anything but `base`.
    pub fn is_dirty(&self, base: &WebSocketRequest) -> (r: bool)
        ensures
            r == (self@.spec() != base@),
    {
        !strings::same_texts(&split_protocols(self.subprotocols.text()), &base.subprotocols)
            || !request::same_messages(&self.messages, &base.messages)
    }

    /// The composer.
    pub fn primary_editor(&self) -> (r: &Editor)
        ensures
            r@ == self@.compose,
    {
        &self.compose
    }
}

/// Where the name of a saved message comes from.
pub enum NameSource {
    /// The name itself.
    Name(String),
    /// A first line too long to stand as it is; the name is a shortened form of it.
    LongLine(String),
}

/// What a `NameSource` is.
pub enum NameSourceView {
    Name(Seq<char>),
    LongLine(Seq<char>),
}

impl View for NameSource {
    type V = NameSourceView;

    open spec fn view(&self) -> NameSourceView {
        match *self {
            NameSource::Name(name) => NameSourceView::Name(name@),
            NameSource::LongLine(line) => NameSourceView::LongLine(line@),
        }
    }
}

/// The first line of a payload, without the whitespace around it.
pub open spec fn first_line(body: Seq<char>) -> Seq<char> {
    strings::trimmed(strings::split_on(strings::trimmed(body), '\n')[0])
}

/// Where the name of a payload comes from, given the text under its `type`: that text unless it
/// is blank, then the first line, then the word "message".
pub open spec fn source_of(kind: Option<Seq<char>>, body: Seq<char>) -> NameSourceView {
    match kind {
        Some(kind) if !strings::is_blank(kind) => NameSourceView::Name(strings::trimmed(kind)),
        _ => if first_line(body).len() == 0 {
            NameSourceView::Name("message"@)
        } else if first_line(body).len() <= NAME_CHARS {
            NameSourceView::Name(first_line(body))
        } else {
            NameSourceView::LongLine(first_line(body))
        },
    }
}

/// The name, given what a line too long would be shortened to.
pub open spec fn name_text(source: NameSourceView, shortened: Seq<char>) -> Seq<char> {
    match source {
        NameSourceView::Name(name) => name,
        NameSourceView::LongLine(_) => shortened,
    }
}

/// What `serde_json::from_str` makes of `text`, as far as one member of an object: the string
/// under `key`, unless `text` is not JSON, not an object, or holds anything but a string there.
pub uninterp spec fn json_string_member(text: Seq<char>, key: Seq<char>) -> Option<Seq<char>>;

/// Parses with `serde_json::from_str`, then reads `Value::get` and `Value::as_str`. What comes
/// back is what those make of the text and the key; nothing more is claimed of it.
#[verifier::external_body]
fn string_member(text: &str, key: &str) -> (r: Option<String>)
    ensures
        strings::opt_text(r) == json_string_member(text@, key@),
{
    let value = serde_json::from_str::<serde_json::Value>(text).ok()?;
    Some(value.get(key)?.as_str()?.to_owned())
}

/// Where the name of a payload comes from, given the text under its `type`.
pub fn name_source(kind: Option<String>, body: &str) -> (r: NameSource)
    ensures
        r@ == source_of(strings::opt_text(kind), body@),
{
    if let Some(kind) = kind {
        let name = strings::trim(kind.as_str());
        if !name.as_str().is_empty() {
            return NameSource::Name(name);
        }
    }
    let whole = strings::trim(body);
    let lines = strings::split(whole.as_str(), '\n');
    proof {
        strings::lemma_split_is_not_empty(whole@, '\n');
        assert(strings::texts(lines@)[0] == lines[0]@);
    }
    let first = strings::trim(lines[0].as_str());
    let chars = crate::text::chars_of(first.as_str());
    if chars.len() == 0 {
        NameSource::Name("message".to_owned())
    } else if chars.len() <= NAME_CHARS {
        NameSource::Name(first)
    } else {
        NameSource::LongLine(first)
    }
}

/// Where the name of a payload comes from.
pub fn name_source_of(body: &str) -> (r: NameSource)
    ensures
        r@ == source_of(json_string_member(body@, "type"@), body@),
{
    name_source(string_member(body, "type"), body)
}

/// A label for a payload, taken from the payload: its `type` where it has one, else its first
/// line. `shortened` stands for a first line that is too long.
pub fn name_for(body: &str, shortened: String) -> (r: String)
    ensures
        r@ == name_text(source_of(json_string_member(body@, "type"@), body@), shortened@),
{
    match name_source_of(body) {
        NameSource::Name(name) => name,
        NameSource::LongLine(_) => shortened,
    }
}

/// The protocols a comma-separated list names.
pub fn split_protocols(text: &str) -> (r: Vec<String>)
    ensures
        strings::texts(r@) == protocols_in(text@),
{
    let parts = strings::split(text, ',');
    let ghost views = strings::texts(parts@);
    let mut r: Vec<String> = Vec::new();
    let mut i: usize = 0;
    proof {
        assert(strings::texts(r@) =~= Seq::empty());
    }
    while i < parts.len()
        invariant
            i <= parts.len(),
            views == strings::texts(parts@),
            strings::texts(r@) == protocols_before(views, i as int),
        decreases parts.len() - i,
    {
        let ghost held = r@;
        proof {
            assert(views[i as int] == parts[i as int]@);
        }
        let protocol = strings::trim(parts[i].as_str());
        if !protocol.as_str().is_empty() {
            r.push(protocol);
            proof {
                assert(strings::texts(r@) =~= strings::texts(held).push(r@.last()@));
            }
        }
        i = i + 1;
    }
    r
}

/// Whether a list of protocols can be told apart once it is written out: each is not empty,
/// without commas and without whitespace around it.
pub open spec fn are_separable(protocols: Seq<Seq<char>>) -> bool {
    forall|i: int| 0 <= i < protocols.len() ==> is_separable(#[trigger] protocols[i])
}

pub open spec fn is_separable(protocol: Seq<char>) -> bool {
    &&& protocol.len() > 0
    &&& !protocol.contains(',')
    &&& strings::trimmed(protocol) == protocol
}

/// Whether a list of protocols can be edited: it can be told apart, and each is one line.
pub open spec fn are_protocols(protocols: Seq<Seq<char>>) -> bool {
    &&& are_separable(protocols)
    &&& forall|i: int|
        0 <= i < protocols.len() ==> text_input::is_single_line(#[trigger] protocols[i])
}

/// The list of protocols survives being written out and read back.
pub proof fn subprotocols_survive_one_line(protocols: Seq<Seq<char>>)
    requires
        are_separable(protocols),
    ensures
        protocols_in(strings::joined(protocols, ", "@)) == protocols,
    decreases protocols.len(),
{
    reveal_strlit(", ");
    assert(", "@ =~= seq![',', ' ']);
    if protocols.len() == 0 {
        let parts = strings::split_on(Seq::<char>::empty(), ',');
        assert(parts.len() == 1 && parts[0] =~= Seq::<char>::empty());
        assert(strings::is_blank(parts[0]));
        reveal_with_fuel(protocols_before, 2);
        assert(protocols_before(parts, 1) =~= Seq::empty());
        assert(protocols =~= Seq::empty());
    } else if protocols.len() == 1 {
        let only = protocols[0];
        strings::lemma_split_plain(only, ',');
        let parts = strings::split_on(only, ',');
        reveal_with_fuel(protocols_before, 2);
        assert(parts[0] == only);
        assert(protocols_before(parts, 1) =~= protocols);
    } else {
        let rest = protocols.drop_last();
        let last = protocols.last();
        let line = strings::joined(rest, ", "@);
        assert forall|i: int| 0 <= i < rest.len() implies is_separable(#[trigger] rest[i]) by {
            assert(rest[i] == protocols[i]);
        }
        assert(is_separable(protocols[protocols.len() - 1]));
        subprotocols_survive_one_line(rest);
        let tail = seq![' '] + last;
        assert(!tail.contains(',')) by {
            if tail.contains(',') {
                let k = choose|k: int| 0 <= k < tail.len() && tail[k] == ',';
                assert(k > 0 && last[k - 1] == ',');
                assert(last.contains(','));
            }
        }
        assert(line + ", "@ + last =~= line.push(',') + tail);
        strings::lemma_split_append(line, tail, ',');
        let parts = strings::split_on(line, ',');
        let all = strings::split_on(strings::joined(protocols, ", "@), ',');
        assert(all == parts.push(tail));
        lemma_protocols_of_a_prefix(all, parts, parts.len() as int);
        strings::lemma_trim_leading_space(last);
        assert(all[all.len() - 1] == tail);
        assert(protocols_before(all, all.len() as int) =~= protocols);
    }
}

proof fn lemma_protocols_of_a_prefix(all: Seq<Seq<char>>, parts: Seq<Seq<char>>, n: int)
    requires
        0 <= n <= parts.len(),
        n <= all.len(),
        forall|i: int| 0 <= i < n ==> #[trigger] all[i] == parts[i],
    ensures
        protocols_before(all, n) == protocols_before(parts, n),
    decreases n,
{
    if n > 0 {
        lemma_protocols_of_a_prefix(all, parts, n - 1);
        assert(all[n - 1] == parts[n - 1]);
    }
}

proof fn lemma_joined_is_single_line(protocols: Seq<Seq<char>>)
    requires
        are_protocols(protocols),
    ensures
        text_input::is_single_line(strings::joined(protocols, ", "@)),
    decreases protocols.len(),
{
    reveal_strlit(", ");
    if protocols.len() == 1 {
        assert(text_input::is_single_line(protocols[0]));
    } else if protocols.len() > 1 {
        let rest = protocols.drop_last();
        assert forall|i: int| 0 <= i < rest.len() implies is_separable(
            #[trigger] rest[i],
        ) && text_input::is_single_line(rest[i]) by {
            assert(rest[i] == protocols[i]);
            assert(is_separable(protocols[i]));
        }
        assert(text_input::is_single_line(protocols[protocols.len() - 1]));
        lemma_joined_is_single_line(rest);
    }
}

/// What is opened and not touched is written back as it was.
pub proof fn a_loaded_socket_is_read_back(socket: WebSocketView)
    requires
        are_protocols(socket.subprotocols),
    ensures
        websocket_editor(socket).spec() == socket,
{
    subprotocols_survive_one_line(socket.subprotocols);
    lemma_joined_is_single_line(socket.subprotocols);
    text_input::lemma_single_line_stays(strings::joined(socket.subprotocols, ", "@));
}

/// What is being composed never reaches the request: an unsent draft is not saved.
pub proof fn a_draft_is_not_saved(editors: WebSocketEditorView, compose: EditorView)
    ensures
        (WebSocketEditorView { compose, ..editors }).spec() == editors.spec(),
{
}

/// The protocols are what stands between the commas, in order, without the whitespace around each;
/// what is blank is none.
pub proof fn protocols_are_what_stands_between_commas(line: Seq<char>)
    ensures
        protocols_in(line) == strings::split_on(line, ',').filter(
            |part: Seq<char>| strings::trimmed(part).len() > 0,
        ).map_values(|part: Seq<char>| strings::trimmed(part)),
{
    let parts = strings::split_on(line, ',');
    lemma_protocols_are_a_filter(parts, parts.len() as int);
    assert(parts.take(parts.len() as int) =~= parts);
}

proof fn lemma_protocols_are_a_filter(parts: Seq<Seq<char>>, n: int)
    requires
        0 <= n <= parts.len(),
    ensures
        protocols_before(parts, n) == parts.take(n).filter(
            |part: Seq<char>| strings::trimmed(part).len() > 0,
        ).map_values(|part: Seq<char>| strings::trimmed(part)),
    decreases n,
{
    reveal(Seq::filter);
    let keep = |part: Seq<char>| strings::trimmed(part).len() > 0;
    let trim = |part: Seq<char>| strings::trimmed(part);
    if n > 0 {
        lemma_protocols_are_a_filter(parts, n - 1);
        assert(parts.take(n).drop_last() =~= parts.take(n - 1));
        assert(parts.take(n).last() == parts[n - 1]);
        let before = parts.take(n - 1).filter(keep);
        if !strings::is_blank(parts[n - 1]) {
            assert(before.push(parts[n - 1]).map_values(trim) =~= before.map_values(trim).push(
                strings::trimmed(parts[n - 1]),
            ));
        }
    } else {
        assert(parts.take(0).filter(keep).map_values(trim) =~= Seq::<Seq<char>>::empty());
    }
}

/// The request is what the editors hold but for the message being composed, and there is something
/// to lose exactly where something is typed or kept.
pub proof fn the_socket_is_what_the_editors_hold(editors: WebSocketEditorView)
    ensures
        editors.spec().messages == editors.messages,
        editors.spec().subprotocols == protocols_in(editors.subprotocols.surface.text),
        !editors.has_content() <==> editors.messages.len() == 0 && strings::trimmed(
            editors.subprotocols.surface.text,
        ).len() == 0 && strings::trimmed(editors.compose.surface.text).len() == 0,
{
}

/// A message that is kept comes last, with its payload as it was sent, and taking a message out
/// leaves the others in order.
pub proof fn messages_keep_their_order(
    editors: WebSocketEditorView,
    body: Seq<char>,
    shortened: Seq<char>,
    ix: int,
)
    ensures
        saved(editors, body, shortened).messages.len() == editors.messages.len() + 1,
        saved(editors, body, shortened).messages.last().body == body,
        saved(editors, body, shortened).messages.drop_last() == editors.messages,
        saved(editors, body, shortened).compose == editors.compose,
        saved(editors, body, shortened).without(editors.messages.len() as int).messages
            == editors.messages,
        0 <= ix < editors.messages.len() ==> editors.without(ix).messages == editors.messages.take(
            ix,
        ) + editors.messages.skip(ix + 1),
        ix < 0 || ix >= editors.messages.len() ==> editors.without(ix) == editors,
        editors.without(ix).compose == editors.compose,
        editors.without(ix).subprotocols == editors.subprotocols,
{
    let kept = saved(editors, body, shortened);
    assert(kept.messages.drop_last() =~= editors.messages);
    assert(kept.messages.remove(editors.messages.len() as int) =~= editors.messages);
    if 0 <= ix < editors.messages.len() {
        assert(editors.messages.remove(ix) =~= editors.messages.take(ix) + editors.messages.skip(
            ix + 1,
        ));
    }
}

/// A message put into the composer is all that is in it, and one undo brings back what was there.
pub proof fn a_message_put_back_takes_the_composer(editors: WebSocketEditorView, message: Seq<char>)
    requires
        editors.wf(),
        editors.compose.surface.marked is None,
        editors.compose.surface.text.len() > 0,
    ensures
        composing(editors, message).compose.surface.text == message,
        composing(editors, message).compose.surface.undone().text == editors.compose.surface.text,
        composing(editors, message).messages == editors.messages,
        composing(editors, message).subprotocols == editors.subprotocols,
{
    let held = editors.compose.surface;
    let n = held.text.len() as int;
    crate::text::lemma_offset_ends(held.text);
    crate::text::lemma_index_of_offset(held.text, 0);
    crate::text::lemma_index_of_offset(held.text, n);
    crate::text::lemma_len_positive(held.text);
    assert(held.text.take(0) + message + held.text.skip(n) =~= message);
}

/// A kept message is named by its `type` where that says something, else by its first line, and
/// only where it is blank by a word of our own. A line that stands as it is is short, has nothing
/// blank around it, and begins the payload.
pub proof fn a_message_is_named_by_what_it_says(
    kind: Option<Seq<char>>,
    body: Seq<char>,
    shortened: Seq<char>,
)
    ensures
        kind matches Some(said) && strings::trimmed(said).len() > 0 ==> name_text(
            source_of(kind, body),
            shortened,
        ) == strings::trimmed(kind->0),
        (kind matches Some(said) ==> strings::trimmed(said).len() == 0) ==> {
            &&& strings::trimmed(body).len() == 0 ==> name_text(source_of(kind, body), shortened)
                == "message"@
            &&& strings::trimmed(body).len() > 0 ==> {
                let line = first_line(body);
                &&& line.len() > 0
                &&& strings::has_prefix(strings::trimmed(body), line)
                &&& !line.contains('\n')
                &&& source_of(kind, body) == (if line.len() <= NAME_CHARS {
                    NameSourceView::Name(line)
                } else {
                    NameSourceView::LongLine(line)
                })
            }
        },
{
    lemma_first_line_begins(body);
}

#[verifier::rlimit(60)]
#[verifier::spinoff_prover]
proof fn lemma_first_line_begins(body: Seq<char>)
    ensures
        strings::trimmed(body).len() == 0 ==> first_line(body).len() == 0,
        strings::trimmed(body).len() > 0 ==> first_line(body).len() > 0 && strings::has_prefix(
            strings::trimmed(body),
            first_line(body),
        ) && !first_line(body).contains('\n'),
{
    let text = strings::trimmed(body);
    let parts = strings::split_on(text, '\n');
    strings::joining_undoes_splitting(text, '\n');
    strings::lemma_split_is_not_empty(text, '\n');
    lemma_joined_begins(parts, seq!['\n']);
    strings::trimming_takes_the_whitespace_around(body);
    let (p, q) = choose|a: int, b: int|
        0 <= a <= b <= body.len() && text == #[trigger] body.subrange(a, b) && (forall|k: int|
            (0 <= k < a || b <= k < body.len()) ==> words::is_whitespace_char(#[trigger] body[k]))
            && (a < b ==> !words::is_whitespace_char(body[a]) && !words::is_whitespace_char(
            body[b - 1],
        ));
    let first = parts[0];
    strings::trimming_takes_the_whitespace_around(first);
    let line = strings::trimmed(first);
    let (a, b) = choose|a: int, b: int|
        0 <= a <= b <= first.len() && line == #[trigger] first.subrange(a, b) && (forall|k: int|
            (0 <= k < a || b <= k < first.len()) ==> words::is_whitespace_char(#[trigger] first[k]))
            && (a < b ==> !words::is_whitespace_char(first[a]) && !words::is_whitespace_char(
            first[b - 1],
        ));
    if text.len() > 0 {
        assert(text[0] == body[p]);
        assert(!words::is_whitespace_char(text[0]));
        assert(text.subrange(0, first.len() as int) == first);
        if first.len() == 0 {
            assert(text[0] == '\n');
        }
        assert(first[0] == text[0]);
        assert(a == 0);
        assert(line =~= text.subrange(0, b));
        assert(!first.contains('\n'));
        if line.contains('\n') {
            let k = line.index_of('\n');
            assert(first[k] == '\n');
        }
    } else {
        strings::lemma_split_plain(text, '\n');
        assert(line.len() == 0);
    }
}

proof fn lemma_joined_begins(parts: Seq<Seq<char>>, between: Seq<char>)
    requires
        parts.len() > 0,
    ensures
        strings::joined(parts, between).len() >= parts[0].len(),
        strings::joined(parts, between).subrange(0, parts[0].len() as int) == parts[0],
        parts.len() > 1 && between.len() == 1 ==> strings::joined(parts, between).len()
            > parts[0].len() && strings::joined(parts, between)[parts[0].len() as int]
            == between[0],
    decreases parts.len(),
{
    let whole = strings::joined(parts, between);
    if parts.len() == 1 {
        assert(whole.subrange(0, parts[0].len() as int) =~= parts[0]);
    } else {
        let front = parts.drop_last();
        lemma_joined_begins(front, between);
        let before = strings::joined(front, between);
        assert(front[0] == parts[0]);
        assert(whole.subrange(0, parts[0].len() as int) =~= before.subrange(
            0,
            parts[0].len() as int,
        ));
    }
}

} // verus!
