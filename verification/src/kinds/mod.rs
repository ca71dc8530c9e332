//! Authoring state by kind of request: one kind, one module, one variant.

pub mod graphql;
pub mod grpc;
pub mod http;
pub mod websocket;

pub use graphql::GraphQlEditor;
pub use grpc::GrpcEditor;
pub use http::HttpEditor;
pub use websocket::WebSocketEditor;

use crate::input::editor::{Editor, EditorView};
use crate::kinds::graphql::GraphQlEditorView;
use crate::kinds::http::HttpEditorView;
use crate::kinds::websocket::WebSocketEditorView;
use crate::request;
use crate::request::{Body, Method, MethodView, RequestKind, RequestKindView};
use crate::request_view::rows;
use crate::request_view::BodyType;
use crate::strings;
use vstd::prelude::*;
use vstd::string::*;

verus! {

/// One tab a kind contributes to the strip of a request.
#[derive(Clone, Copy, Debug, PartialEq, Eq)]
pub struct KindTab {
    pub label: &'static str,
}

/// Which kind a request is, as a value that a picker can carry.
#[derive(Clone, Copy, Debug, PartialEq, Eq, Structural)]
pub enum KindChoice {
    Http,
    GraphQl,
    WebSocket,
}

impl KindChoice {
    /// What the kind picker offers.
    pub const ALL: [KindChoice; 3] = [KindChoice::Http, KindChoice::GraphQl, KindChoice::WebSocket];

    pub open spec fn spec_label(self) -> Seq<char> {
        match self {
            KindChoice::Http => "HTTP"@,
            KindChoice::GraphQl => "GraphQL"@,
            KindChoice::WebSocket => "WebSocket"@,
        }
    }

    pub fn label(self) -> (r: &'static str)
        ensures
            r@ == self.spec_label(),
    {
        match self {
            KindChoice::Http => "HTTP",
            KindChoice::GraphQl => "GraphQL",
            KindChoice::WebSocket => "WebSocket",
        }
    }

    pub open spec fn spec_detail(self) -> Seq<char> {
        match self {
            KindChoice::Http => "a verb, params and a body"@,
            KindChoice::GraphQl => "a query and variables"@,
            KindChoice::WebSocket => "a connection you send messages down"@,
        }
    }

    /// What picking it gets you.
    pub fn detail(self) -> (r: &'static str)
        ensures
            r@ == self.spec_detail(),
    {
        match self {
            KindChoice::Http => "a verb, params and a body",
            KindChoice::GraphQl => "a query and variables",
            KindChoice::WebSocket => "a connection you send messages down",
        }
    }
}

/// What the editors of a request hold, by kind.
pub enum KindEditorView {
    Http(HttpEditorView),
    GraphQl(GraphQlEditorView),
    WebSocket(WebSocketEditorView),
}

/// `name` and a number after it.
pub open spec fn numbered(name: Seq<char>, n: nat) -> Seq<char> {
    name + " "@ + strings::decimal(n)
}

/// A list in words: "a", "a and b", "a, b and c"; "nothing" where it is empty.
pub open spec fn listed(parts: Seq<Seq<char>>) -> Seq<char> {
    if parts.len() == 0 {
        "nothing"@
    } else if parts.len() == 1 {
        parts[0]
    } else {
        strings::joined(parts.drop_last(), ", "@) + " and "@ + parts.last()
    }
}

/// One entry, if it counts.
pub open spec fn entry(counts: bool, name: Seq<char>) -> Seq<Seq<char>> {
    if counts {
        seq![name]
    } else {
        Seq::empty()
    }
}

impl KindEditorView {
    pub open spec fn wf(self) -> bool {
        match self {
            KindEditorView::Http(http) => http.wf(),
            KindEditorView::GraphQl(graphql) => graphql.wf(),
            KindEditorView::WebSocket(socket) => socket.wf(),
        }
    }

    pub open spec fn choice(self) -> KindChoice {
        match self {
            KindEditorView::Http(_) => KindChoice::Http,
            KindEditorView::GraphQl(_) => KindChoice::GraphQl,
            KindEditorView::WebSocket(_) => KindChoice::WebSocket,
        }
    }

    /// The request the editors spell out.
    pub open spec fn spec(self) -> RequestKindView {
        match self {
            KindEditorView::Http(http) => RequestKindView::Http(http.spec()),
            KindEditorView::GraphQl(graphql) => RequestKindView::GraphQl(graphql.spec()),
            KindEditorView::WebSocket(socket) => RequestKindView::WebSocket(socket.spec()),
        }
    }

    pub open spec fn has_content(self) -> bool {
        match self {
            KindEditorView::Http(http) => http.has_content(),
            KindEditorView::GraphQl(graphql) => graphql.has_content(),
            KindEditorView::WebSocket(socket) => socket.has_content(),
        }
    }

    /// What a switch to another kind would throw away, entry by entry.
    pub open spec fn lost(self) -> Seq<Seq<char>> {
        match self {
            KindEditorView::Http(http) => entry(http.holds_a_body(), "the body"@) + entry(
                rows::any_typed(http.query),
                "the query params"@,
            ) + entry(true, "the method"@),
            KindEditorView::GraphQl(graphql) => entry(
                !strings::is_blank(graphql.query.surface.text),
                "the query"@,
            ) + entry(!strings::is_blank(graphql.variables.surface.text), "the variables"@) + entry(
                !strings::is_blank(graphql.operation.surface.text),
                "the operation name"@,
            ),
            KindEditorView::WebSocket(socket) => entry(
                !strings::is_blank(socket.compose.surface.text),
                "the message you are composing"@,
            ) + entry(
                !strings::is_blank(socket.subprotocols.surface.text),
                "the subprotocols"@,
            ) + entry(socket.messages.len() > 0, "the saved messages"@),
        }
    }

    /// The labels of the kind's tabs, as they stand before anything is counted.
    pub open spec fn tab_names(self) -> Seq<Seq<char>> {
        match self {
            KindEditorView::Http(_) => seq!["Params"@, "Body"@],
            KindEditorView::GraphQl(_) => seq!["Query"@, "Variables"@],
            KindEditorView::WebSocket(_) => seq!["Handshake"@, "Message"@],
        }
    }

    /// What a tab is called, with a count or the flavour of the body. A count of none is left out.
    pub open spec fn tab_label(self, slot: u8) -> Seq<char> {
        match self {
            KindEditorView::Http(http) => if slot == 0 {
                if http.query.len() == 0 {
                    "Params"@
                } else {
                    numbered("Params"@, http.query.len())
                }
            } else if http.body_type is Empty {
                "Body"@
            } else {
                "Body "@ + http.body_label()
            },
            KindEditorView::GraphQl(_) => if slot == 0 {
                "Query"@
            } else {
                "Variables"@
            },
            KindEditorView::WebSocket(socket) => if slot == 0 {
                "Handshake"@
            } else if socket.messages.len() == 0 {
                "Message"@
            } else {
                numbered("Message"@, socket.messages.len())
            },
        }
    }

    /// Whether there is a single response for captures to read and assertions to check.
    pub open spec fn checks_a_response(self) -> bool {
        self !is WebSocket
    }

    pub open spec fn default_tab(self) -> u8 {
        match self {
            KindEditorView::Http(_) => 1,
            KindEditorView::GraphQl(_) => 0,
            KindEditorView::WebSocket(_) => 1,
        }
    }

    /// The main text surface, where there is one on screen.
    pub open spec fn primary(self) -> Option<EditorView> {
        match self {
            KindEditorView::Http(http) => if http.body_type is Raw {
                Some(http.body_editor)
            } else {
                None
            },
            KindEditorView::GraphQl(graphql) => Some(graphql.query),
            KindEditorView::WebSocket(socket) => Some(socket.compose),
        }
    }

    /// The state with another main text surface, where there is one on screen.
    pub open spec fn with_primary(self, editor: EditorView) -> KindEditorView {
        match self {
            KindEditorView::Http(http) => if http.body_type is Raw {
                KindEditorView::Http(HttpEditorView { body_editor: editor, ..http })
            } else {
                self
            },
            KindEditorView::GraphQl(graphql) => KindEditorView::GraphQl(
                GraphQlEditorView { query: editor, ..graphql },
            ),
            KindEditorView::WebSocket(socket) => KindEditorView::WebSocket(
                WebSocketEditorView { compose: editor, ..socket },
            ),
        }
    }

    /// The verb, for the kinds that have one.
    pub open spec fn method(self) -> Option<MethodView> {
        match self {
            KindEditorView::Http(http) => Some(http.method),
            KindEditorView::GraphQl(graphql) => Some(graphql.method),
            KindEditorView::WebSocket(_) => None,
        }
    }

    pub open spec fn with_method(self, method: MethodView) -> KindEditorView {
        match self {
            KindEditorView::Http(http) => KindEditorView::Http(HttpEditorView { method, ..http }),
            KindEditorView::GraphQl(graphql) => KindEditorView::GraphQl(
                GraphQlEditorView { method, ..graphql },
            ),
            KindEditorView::WebSocket(_) => self,
        }
    }
}

/// The editors a saved request is opened in.
pub open spec fn kind_editor(kind: RequestKindView) -> KindEditorView {
    match kind {
        RequestKindView::Http(spec) => KindEditorView::Http(http::http_editor(spec)),
        RequestKindView::GraphQl(spec) => KindEditorView::GraphQl(graphql::graphql_editor(spec)),
        RequestKindView::WebSocket(spec) => KindEditorView::WebSocket(
            websocket::websocket_editor(spec),
        ),
    }
}

/// A blank request of a kind.
pub open spec fn blank_kind(choice: KindChoice) -> RequestKindView {
    match choice {
        KindChoice::Http => RequestKindView::Http(request::blank_http()),
        KindChoice::GraphQl => RequestKindView::GraphQl(request::blank_graphql()),
        KindChoice::WebSocket => RequestKindView::WebSocket(request::blank_websocket()),
    }
}

/// `list` in words.
pub fn in_words(list: &Vec<String>) -> (r: String)
    ensures
        r@ == listed(strings::texts(list@)),
{
    let ghost views = strings::texts(list@);
    if list.len() == 0 {
        "nothing".to_owned()
    } else if list.len() == 1 {
        list[0].clone()
    } else {
        let mut rest = strings::clone_list(list);
        let last = rest.pop();
        proof {
            assert(strings::texts(rest@) =~= views.drop_last());
        }
        let mut r = strings::join(&rest, ", ");
        r.append(" and ");
        r.append(list[list.len() - 1].as_str());
        r
    }
}

/// Add an entry to a list, if it counts.
fn push_entry(list: &mut Vec<String>, counts: bool, name: &str)
    ensures
        strings::texts(final(list)@) == strings::texts(old(list)@) + entry(counts, name@),
{
    let ghost before = list@;
    if counts {
        list.push(name.to_owned());
        proof {
            assert(strings::texts(list@) =~= strings::texts(before) + seq![name@]);
        }
    } else {
        proof {
            assert(strings::texts(list@) =~= strings::texts(before) + Seq::<Seq<char>>::empty());
        }
    }
}

/// `name` and a number after it.
pub fn with_number(name: &str, n: usize) -> (r: String)
    ensures
        r@ == numbered(name@, n as nat),
{
    let mut r = name.to_owned();
    r.append(" ");
    r.append(strings::decimal_string(n as u64).as_str());
    r
}

/// The labels of a list of tabs.
pub open spec fn labels_of(tabs: Seq<KindTab>) -> Seq<Seq<char>> {
    tabs.map_values(|tab: KindTab| tab.label@)
}

/// The authoring state for whichever kind a buffer is editing.
pub enum KindEditor {
    Http(HttpEditor),
    GraphQl(GraphQlEditor),
    WebSocket(WebSocketEditor),
}

impl View for KindEditor {
    type V = KindEditorView;

    open spec fn view(&self) -> KindEditorView {
        match *self {
            KindEditor::Http(http) => KindEditorView::Http(http@),
            KindEditor::GraphQl(graphql) => KindEditorView::GraphQl(graphql@),
            KindEditor::WebSocket(socket) => KindEditorView::WebSocket(socket@),
        }
    }
}

impl KindEditor {
    /// The editors a saved request is opened in.
    pub fn from_spec(kind: &RequestKind) -> (r: KindEditor)
        ensures
            r@ == kind_editor(kind@),
            r@.wf(),
    {
        match kind {
            RequestKind::Http(http) => KindEditor::Http(HttpEditor::from_spec(http)),
            RequestKind::GraphQl(graphql) => KindEditor::GraphQl(GraphQlEditor::from_spec(graphql)),
            RequestKind::WebSocket(socket) => KindEditor::WebSocket(
                WebSocketEditor::from_spec(socket),
            ),
        }
    }

    /// A blank buffer of the chosen kind.
    pub fn empty(choice: KindChoice) -> (r: KindEditor)
        ensures
            r@ == kind_editor(blank_kind(choice)),
            r@.wf(),
    {
        match choice {
            KindChoice::Http => KindEditor::Http(HttpEditor::new()),
            KindChoice::GraphQl => KindEditor::GraphQl(GraphQlEditor::new()),
            KindChoice::WebSocket => KindEditor::WebSocket(WebSocketEditor::new()),
        }
    }

    pub fn choice(&self) -> (r: KindChoice)
        ensures
            r == self@.choice(),
    {
        match self {
            KindEditor::Http(_) => KindChoice::Http,
            KindEditor::GraphQl(_) => KindChoice::GraphQl,
            KindEditor::WebSocket(_) => KindChoice::WebSocket,
        }
    }

    /// Whether switching to another kind would throw away something that was typed.
    pub fn has_content(&self) -> (r: bool)
        ensures
            r == self@.has_content(),
    {
        match self {
            KindEditor::Http(http) => http.has_content(),
            KindEditor::GraphQl(graphql) => graphql.has_content(),
            KindEditor::WebSocket(socket) => socket.has_content(),
        }
    }

    /// What a switch to another kind would throw away, in words.
    pub fn discards(&self) -> (r: String)
        ensures
            r@ == listed(self@.lost()),
    {
        let mut parts: Vec<String> = Vec::new();
        match self {
            KindEditor::Http(http) => {
                push_entry(&mut parts, http.holds_a_body(), "the body");
                push_entry(&mut parts, rows::has_typed(&http.query), "the query params");
                push_entry(&mut parts, true, "the method");
            },
            KindEditor::GraphQl(graphql) => {
                push_entry(&mut parts, !strings::blank(graphql.query.text()), "the query");
                push_entry(&mut parts, !strings::blank(graphql.variables.text()), "the variables");
                push_entry(
                    &mut parts,
                    !strings::blank(graphql.operation.text()),
                    "the operation name",
                );
            },
            KindEditor::WebSocket(socket) => {
                push_entry(
                    &mut parts,
                    !strings::blank(socket.compose.text()),
                    "the message you are composing",
                );
                push_entry(
                    &mut parts,
                    !strings::blank(socket.subprotocols.text()),
                    "the subprotocols",
                );
                push_entry(&mut parts, socket.messages.len() > 0, "the saved messages");
            },
        }
        proof {
            assert(strings::texts(parts@) =~= self@.lost());
        }
        in_words(&parts)
    }

    /// The request the editors spell out.
    pub fn to_spec(&self) -> (r: RequestKind)
        ensures
            r@ == self@.spec(),
    {
        match self {
            KindEditor::Http(http) => RequestKind::Http(http.to_spec()),
            KindEditor::GraphQl(graphql) => RequestKind::GraphQl(graphql.to_spec()),
            KindEditor::WebSocket(socket) => RequestKind::WebSocket(socket.to_spec()),
        }
    }

    /// Whether the editors spell out anything but `base`. A different kind is itself a change.
    pub fn is_dirty(&self, base: &RequestKind) -> (r: bool)
        ensures
            r == !request::kind_agrees(self@.spec(), base@),
    {
        match (self, base) {
            (KindEditor::Http(editor), RequestKind::Http(base)) => editor.is_dirty(base),
            (KindEditor::GraphQl(editor), RequestKind::GraphQl(base)) => editor.is_dirty(base),
            (KindEditor::WebSocket(editor), RequestKind::WebSocket(base)) => editor.is_dirty(base),
            _ => true,
        }
    }

    /// The tabs this kind contributes.
    pub fn tabs(&self) -> (r: Vec<KindTab>)
        ensures
            labels_of(r@) == self@.tab_names(),
    {
        let (first, second) = match self {
            KindEditor::Http(_) => ("Params", "Body"),
            KindEditor::GraphQl(_) => ("Query", "Variables"),
            KindEditor::WebSocket(_) => ("Handshake", "Message"),
        };
        let mut tabs: Vec<KindTab> = Vec::new();
        tabs.push(KindTab { label: first });
        tabs.push(KindTab { label: second });
        proof {
            assert(labels_of(tabs@) =~= self@.tab_names());
        }
        tabs
    }

    /// What a tab is called, with a count or the flavour of the body. A count of none is left out:
    /// it says nothing.
    pub fn tab_label(&self, slot: u8) -> (r: String)
        ensures
            r@ == self@.tab_label(slot),
    {
        match self {
            KindEditor::Http(http) => if slot == 0 {
                if http.query.len() == 0 {
                    "Params".to_owned()
                } else {
                    with_number("Params", http.query.len())
                }
            } else {
                match http.body_type {
                    BodyType::Empty => "Body".to_owned(),
                    _ => {
                        let mut r = "Body ".to_owned();
                        r.append(http.body_label().as_str());
                        r
                    },
                }
            },
            KindEditor::GraphQl(_) => if slot == 0 {
                "Query".to_owned()
            } else {
                "Variables".to_owned()
            },
            KindEditor::WebSocket(socket) => if slot == 0 {
                "Handshake".to_owned()
            } else if socket.messages.len() == 0 {
                "Message".to_owned()
            } else {
                with_number("Message", socket.messages.len())
            },
        }
    }

    /// Whether there is a single response for captures to read and assertions to check. A
    /// conversation has none.
    pub fn checks_a_response(&self) -> (r: bool)
        ensures
            r == self@.checks_a_response(),
    {
        match self {
            KindEditor::Http(_) | KindEditor::GraphQl(_) => true,
            KindEditor::WebSocket(_) => false,
        }
    }

    /// Which of the kind's tabs a buffer opens on.
    pub fn default_tab(&self) -> (r: u8)
        ensures
            r == self@.default_tab(),
            r < self@.tab_names().len(),
    {
        match self {
            KindEditor::Http(_) => 1,
            KindEditor::GraphQl(_) => 0,
            KindEditor::WebSocket(_) => 1,
        }
    }

    /// The main text surface, where there is one on screen.
    pub fn primary_editor(&self) -> (r: Option<&Editor>)
        ensures
            (r matches Some(editor) ==> self@.primary() == Some(editor@)),
            r is None ==> self@.primary() is None,
    {
        match self {
            KindEditor::Http(http) => http.primary_editor(),
            KindEditor::GraphQl(graphql) => Some(graphql.primary_editor()),
            KindEditor::WebSocket(socket) => Some(socket.primary_editor()),
        }
    }

    /// The main text surface, to be edited.
    pub fn primary_editor_mut(&mut self) -> (r: Option<&mut Editor>)
        ensures
            r is Some <==> old(self)@.primary() is Some,
            r matches Some(editor) ==> {
                &&& (*editor)@ == old(self)@.primary()->0
                &&& final(self)@ == old(self)@.with_primary((*final(editor))@)
            },
            r is None ==> *final(self) == *old(self),
    {
        match self {
            KindEditor::Http(http) => match http.body_type {
                BodyType::Raw => Some(&mut http.body_editor),
                _ => None,
            },
            KindEditor::GraphQl(graphql) => Some(&mut graphql.query),
            KindEditor::WebSocket(socket) => Some(&mut socket.compose),
        }
    }

    /// The verb, for the kinds that have one. A handshake is always a GET, so a socket has none
    /// to choose.
    pub fn method(&self) -> (r: Option<Method>)
        ensures
            (r matches Some(method) ==> self@.method() == Some(method@)),
            r is None ==> self@.method() is None,
    {
        match self {
            KindEditor::Http(http) => Some(http.method.clone()),
            KindEditor::GraphQl(graphql) => Some(graphql.method.clone()),
            KindEditor::WebSocket(_) => None,
        }
    }

    /// Set the verb, for the kinds that have one.
    pub fn set_method(&mut self, method: Method)
        ensures
            final(self)@ == old(self)@.with_method(method@),
    {
        match self {
            KindEditor::Http(http) => http.method = method,
            KindEditor::GraphQl(graphql) => graphql.method = method,
            KindEditor::WebSocket(_) => {},
        }
    }

    pub fn as_http(&self) -> (r: Option<&HttpEditor>)
        ensures
            r is Some <==> self@ is Http,
            r matches Some(http) ==> self@ == KindEditorView::Http(http@),
    {
        match self {
            KindEditor::Http(http) => Some(http),
            _ => None,
        }
    }

    pub fn as_http_mut(&mut self) -> (r: Option<&mut HttpEditor>)
        ensures
            r is Some <==> old(self)@ is Http,
            r matches Some(http) ==> {
                &&& old(self)@ == KindEditorView::Http((*http)@)
                &&& final(self)@ == KindEditorView::Http((*final(http))@)
            },
            r is None ==> *final(self) == *old(self),
    {
        match self {
            KindEditor::Http(http) => Some(http),
            _ => None,
        }
    }

    pub fn as_graphql(&self) -> (r: Option<&GraphQlEditor>)
        ensures
            r is Some <==> self@ is GraphQl,
            r matches Some(graphql) ==> self@ == KindEditorView::GraphQl(graphql@),
    {
        match self {
            KindEditor::GraphQl(graphql) => Some(graphql),
            _ => None,
        }
    }

    pub fn as_graphql_mut(&mut self) -> (r: Option<&mut GraphQlEditor>)
        ensures
            r is Some <==> old(self)@ is GraphQl,
            r matches Some(graphql) ==> {
                &&& old(self)@ == KindEditorView::GraphQl((*graphql)@)
                &&& final(self)@ == KindEditorView::GraphQl((*final(graphql))@)
            },
            r is None ==> *final(self) == *old(self),
    {
        match self {
            KindEditor::GraphQl(graphql) => Some(graphql),
            _ => None,
        }
    }

    pub fn as_websocket_mut(&mut self) -> (r: Option<&mut WebSocketEditor>)
        ensures
            r is Some <==> old(self)@ is WebSocket,
            r matches Some(socket) ==> {
                &&& old(self)@ == KindEditorView::WebSocket((*socket)@)
                &&& final(self)@ == KindEditorView::WebSocket((*final(socket))@)
            },
            r is None ==> *final(self) == *old(self),
    {
        match self {
            KindEditor::WebSocket(socket) => Some(socket),
            _ => None,
        }
    }

    pub fn as_websocket(&self) -> (r: Option<&WebSocketEditor>)
        ensures
            r is Some <==> self@ is WebSocket,
            r matches Some(socket) ==> self@ == KindEditorView::WebSocket(socket@),
    {
        match self {
            KindEditor::WebSocket(socket) => Some(socket),
            _ => None,
        }
    }
}

/// Whether the editors can hold a request as it is.
pub open spec fn is_editable(kind: RequestKindView) -> bool {
    match kind {
        RequestKindView::Http(spec) => http::is_editable(spec),
        RequestKindView::GraphQl(spec) => graphql::is_editable(spec),
        RequestKindView::WebSocket(spec) => websocket::are_protocols(spec.subprotocols),
    }
}

/// What is opened and not touched is written back as it was, whatever its kind.
pub proof fn a_loaded_request_is_read_back(kind: RequestKindView)
    requires
        is_editable(kind),
    ensures
        kind_editor(kind).spec() == kind,
        request::kind_agrees(kind_editor(kind).spec(), kind),
{
    match kind {
        RequestKindView::Http(spec) => {
            http::a_loaded_http_request_is_read_back(spec);
        },
        RequestKindView::GraphQl(spec) => {
            graphql::a_loaded_graphql_request_is_read_back(spec);
        },
        RequestKindView::WebSocket(spec) => {
            websocket::a_loaded_socket_is_read_back(spec);
        },
    }
}

/// A blank buffer of any kind holds nothing that a switch of kind would lose without asking, and
/// reads back as the blank request.
pub proof fn a_blank_buffer_holds_nothing(choice: KindChoice)
    ensures
        !kind_editor(blank_kind(choice)).has_content(),
        kind_editor(blank_kind(choice)).spec() == blank_kind(choice),
{
    let editors = kind_editor(blank_kind(choice));
    crate::input::text_input::lemma_single_line_stays(Seq::empty());
    assert(strings::is_blank(Seq::<char>::empty()));
    a_loaded_request_is_read_back(blank_kind(choice));
    match editors {
        KindEditorView::Http(http) => {
            assert(http.query =~= Seq::empty());
        },
        _ => {},
    }
}

/// A switch of kind names each thing it would throw away, and nothing that is not there: a body
/// however it is held, the query rows, and always the method for an HTTP request; each text for
/// the other kinds.
pub proof fn what_a_switch_loses_is_named(editors: KindEditorView)
    ensures
        editors matches KindEditorView::Http(http) ==> {
            &&& editors.lost().contains("the body"@) <==> http.holds_a_body()
            &&& editors.lost().contains("the query params"@) <==> rows::any_typed(http.query)
            &&& editors.lost().contains("the method"@)
            &&& editors.has_content() <==> editors.lost().len() > 1
        },
        editors !is Http ==> (editors.has_content() <==> editors.lost().len() > 0),
{
    if let KindEditorView::Http(http) = editors {
        reveal_strlit("the body");
        reveal_strlit("the query params");
        reveal_strlit("the method");
        let lost = editors.lost();
        assert("the body"@.len() == 8 && "the query params"@.len() == 16 && "the method"@.len()
            == 10);
        if http.holds_a_body() {
            assert(lost[0] == "the body"@);
        }
        if rows::any_typed(http.query) {
            assert(lost[lost.len() - 2] == "the query params"@);
        }
        assert(lost[lost.len() - 1] == "the method"@);
    }
}

/// The main text surface that is put in is the one that is there, and nothing else changes with
/// it. It is the body's text for a raw body, the document for GraphQL, and the composer for a
/// socket; any other body has none.
pub proof fn the_main_surface_is_the_one_put_in(editors: KindEditorView, editor: EditorView)
    ensures
        editors.primary() is Some ==> editors.with_primary(editor).primary() == Some(editor),
        editors.primary() is None ==> editors.with_primary(editor) == editors,
        editors.primary() matches Some(held) ==> editors.with_primary(held) == editors,
        editors.with_primary(editor).choice() == editors.choice(),
        editors.with_primary(editor).method() == editors.method(),
        editors matches KindEditorView::Http(http) ==> {
            &&& editors.primary() is Some <==> http.body_type is Raw
            &&& editors.primary() matches Some(held) ==> held == http.body_editor
        },
        editors matches KindEditorView::GraphQl(graphql) ==> editors.primary() == Some(
            graphql.query,
        ),
        editors matches KindEditorView::WebSocket(socket) ==> editors.primary() == Some(
            socket.compose,
        ),
{
}

/// A verb that is set is the one that is read and sent, and setting it changes nothing else; a
/// socket has none.
pub proof fn a_verb_that_is_set_is_sent(editors: KindEditorView, method: MethodView)
    ensures
        editors is WebSocket ==> editors.method() is None && editors.with_method(method) == editors,
        editors !is WebSocket ==> editors.with_method(method).method() == Some(method),
        editors.method() matches Some(was) ==> editors.with_method(method).with_method(was)
            == editors,
        editors.with_method(method).spec() matches RequestKindView::Http(spec) ==> spec.method
            == method,
        editors.with_method(method).spec() matches RequestKindView::GraphQl(spec) ==> spec.method
            == method,
        editors.with_method(method).primary() == editors.primary(),
{
}

/// The editors of a kind spell out, and open on, a request of that kind.
pub proof fn a_kind_spells_out_its_own_kind(editors: KindEditorView, kind: RequestKindView)
    ensures
        editors is Http <==> editors.spec() is Http,
        editors is GraphQl <==> editors.spec() is GraphQl,
        editors is WebSocket <==> editors.spec() is WebSocket,
        kind is Http <==> kind_editor(kind) is Http,
        kind is GraphQl <==> kind_editor(kind) is GraphQl,
        kind is WebSocket <==> kind_editor(kind) is WebSocket,
        kind_editor(blank_kind(editors.choice())).choice() == editors.choice(),
        editors is Http <==> editors.choice() == KindChoice::Http,
        editors is GraphQl <==> editors.choice() == KindChoice::GraphQl,
        editors.checks_a_response() <==> editors.method() is Some,
{
}

/// The tab a kind opens on is the one its main surface is on, and is one of its tabs.
pub proof fn a_kind_opens_on_a_tab_of_its_own(editors: KindEditorView)
    ensures
        editors.default_tab() < editors.tab_names().len(),
        editors is Http ==> editors.tab_names()[editors.default_tab() as int] == "Body"@,
        editors is GraphQl ==> editors.tab_names()[editors.default_tab() as int] == "Query"@,
        editors is WebSocket ==> editors.tab_names()[editors.default_tab() as int] == "Message"@,
{
}

/// A tab is called by its name, with what it holds after it: how many rows or messages there are,
/// unless there are none, and which body is sent, unless none is.
pub proof fn a_tab_is_called_by_its_name(editors: KindEditorView, slot: u8)
    requires
        slot < editors.tab_names().len(),
    ensures
        strings::has_prefix(editors.tab_label(slot), editors.tab_names()[slot as int]),
        ({
            let after = editors.tab_label(slot).skip(editors.tab_names()[slot as int].len() as int);
            match editors {
                KindEditorView::Http(http) => if slot == 0 {
                    after == (if http.query.len() == 0 {
                        Seq::empty()
                    } else {
                        " "@ + strings::decimal(http.query.len())
                    })
                } else {
                    after == (if http.body_type is Empty {
                        Seq::empty()
                    } else {
                        " "@ + http.body_label()
                    })
                },
                KindEditorView::GraphQl(_) => after == Seq::<char>::empty(),
                KindEditorView::WebSocket(socket) => after == (if slot == 0 || socket.messages.len()
                    == 0 {
                    Seq::empty()
                } else {
                    " "@ + strings::decimal(socket.messages.len())
                }),
            }
        }),
{
    reveal_strlit("Body");
    reveal_strlit("Body ");
    reveal_strlit(" ");
    let name = editors.tab_names()[slot as int];
    let label = editors.tab_label(slot);
    assert("Body "@ =~= "Body"@ + " "@);
    assert(label.subrange(0, name.len() as int) =~= name);
    let after = label.skip(name.len() as int);
    match editors {
        KindEditorView::Http(http) => {
            if slot == 0 {
                if http.query.len() > 0 {
                    assert(after =~= " "@ + strings::decimal(http.query.len()));
                } else {
                    assert(after =~= Seq::empty());
                }
            } else if http.body_type is Empty {
                assert(after =~= Seq::empty());
            } else {
                assert(after =~= " "@ + http.body_label());
            }
        },
        KindEditorView::GraphQl(_) => {
            assert(after =~= Seq::empty());
        },
        KindEditorView::WebSocket(socket) => {
            if slot == 0 || socket.messages.len() == 0 {
                assert(after =~= Seq::empty());
            } else {
                assert(after =~= " "@ + strings::decimal(socket.messages.len()));
            }
        },
    }
}

/// A switch away from GraphQL or a socket names each text that is not blank, and the messages
/// where any are kept, and nothing else.
pub proof fn each_text_a_switch_loses_is_named(editors: KindEditorView)
    ensures
        editors matches KindEditorView::GraphQl(graphql) ==> {
            &&& editors.lost().contains("the query"@) <==> strings::trimmed(
                graphql.query.surface.text,
            ).len() > 0
            &&& editors.lost().contains("the variables"@) <==> strings::trimmed(
                graphql.variables.surface.text,
            ).len() > 0
            &&& editors.lost().contains("the operation name"@) <==> strings::trimmed(
                graphql.operation.surface.text,
            ).len() > 0
            &&& editors.lost().len() <= 3
        },
        editors matches KindEditorView::WebSocket(socket) ==> {
            &&& editors.lost().contains("the message you are composing"@) <==> strings::trimmed(
                socket.compose.surface.text,
            ).len() > 0
            &&& editors.lost().contains("the subprotocols"@) <==> strings::trimmed(
                socket.subprotocols.surface.text,
            ).len() > 0
            &&& editors.lost().contains("the saved messages"@) <==> socket.messages.len() > 0
            &&& editors.lost().len() <= 3
        },
{
    reveal_strlit("the query");
    reveal_strlit("the variables");
    reveal_strlit("the operation name");
    reveal_strlit("the message you are composing");
    reveal_strlit("the subprotocols");
    reveal_strlit("the saved messages");
    let lost = editors.lost();
    match editors {
        KindEditorView::GraphQl(graphql) => {
            let first = entry(!strings::is_blank(graphql.query.surface.text), "the query"@);
            let second = entry(
                !strings::is_blank(graphql.variables.surface.text),
                "the variables"@,
            );
            if !strings::is_blank(graphql.query.surface.text) {
                assert(lost[0] == "the query"@);
            }
            if !strings::is_blank(graphql.variables.surface.text) {
                assert(lost[first.len() as int] == "the variables"@);
            }
            if !strings::is_blank(graphql.operation.surface.text) {
                assert(lost[(first.len() + second.len()) as int] == "the operation name"@);
            }
        },
        KindEditorView::WebSocket(socket) => {
            let first = entry(
                !strings::is_blank(socket.compose.surface.text),
                "the message you are composing"@,
            );
            let second = entry(
                !strings::is_blank(socket.subprotocols.surface.text),
                "the subprotocols"@,
            );
            if !strings::is_blank(socket.compose.surface.text) {
                assert(lost[0] == "the message you are composing"@);
            }
            if !strings::is_blank(socket.subprotocols.surface.text) {
                assert(lost[first.len() as int] == "the subprotocols"@);
            }
            if socket.messages.len() > 0 {
                assert(lost[(first.len() + second.len()) as int] == "the saved messages"@);
            }
        },
        _ => {},
    }
}

/// A list in words holds every entry in order: commas between them, and the word before the last.
pub proof fn a_list_in_words_names_every_entry(front: Seq<Seq<char>>, a: Seq<char>, b: Seq<char>)
    ensures
        listed(seq![a]) == a,
        listed(seq![a, b]) == a + " and "@ + b,
        front.len() > 0 ==> listed(front.push(a).push(b)) == strings::joined(front, ", "@) + ", "@
            + a + " and "@ + b,
        listed(Seq::empty()) == "nothing"@,
{
    assert(seq![a, b].drop_last() =~= seq![a]);
    assert(strings::joined(seq![a], ", "@) == a);
    let whole = front.push(a).push(b);
    assert(whole.drop_last() =~= front.push(a));
    assert(front.push(a).drop_last() =~= front);
}

} // verus!
