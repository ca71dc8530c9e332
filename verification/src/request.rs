//! A request as plain values: what is written down, compared and sent.

use crate::paths;
use crate::strings;
use vstd::prelude::*;
use vstd::string::*;

verus! {

/// The HTTP verb.
#[derive(Debug)]
pub enum Method {
    Get,
    Post,
    Put,
    Patch,
    Delete,
    Head,
    Options,
    /// Any other verb, as it was typed.
    Other(String),
}

/// What a `Method` is.
pub enum MethodView {
    Get,
    Post,
    Put,
    Patch,
    Delete,
    Head,
    Options,
    Other(Seq<char>),
}

impl View for Method {
    type V = MethodView;

    open spec fn view(&self) -> MethodView {
        match *self {
            Method::Get => MethodView::Get,
            Method::Post => MethodView::Post,
            Method::Put => MethodView::Put,
            Method::Patch => MethodView::Patch,
            Method::Delete => MethodView::Delete,
            Method::Head => MethodView::Head,
            Method::Options => MethodView::Options,
            Method::Other(verb) => MethodView::Other(verb@),
        }
    }
}

impl Clone for Method {
    fn clone(&self) -> (r: Method)
        ensures
            r == *self,
    {
        match self {
            Method::Get => Method::Get,
            Method::Post => Method::Post,
            Method::Put => Method::Put,
            Method::Patch => Method::Patch,
            Method::Delete => Method::Delete,
            Method::Head => Method::Head,
            Method::Options => Method::Options,
            Method::Other(verb) => Method::Other(verb.clone()),
        }
    }
}

impl Default for Method {
    fn default() -> (r: Method)
        ensures
            r@ == MethodView::Get,
    {
        Method::Get
    }
}

/// Whether two verbs are the same.
pub fn same_method(a: &Method, b: &Method) -> (r: bool)
    ensures
        r == (a@ == b@),
{
    match (a, b) {
        (Method::Get, Method::Get) => true,
        (Method::Post, Method::Post) => true,
        (Method::Put, Method::Put) => true,
        (Method::Patch, Method::Patch) => true,
        (Method::Delete, Method::Delete) => true,
        (Method::Head, Method::Head) => true,
        (Method::Options, Method::Options) => true,
        (Method::Other(x), Method::Other(y)) => *x == *y,
        _ => false,
    }
}

/// A header, a query parameter or a field of a form.
pub struct KeyValue {
    /// A muted row is kept and not sent.
    pub enabled: bool,
    pub name: String,
    pub value: String,
}

/// What a `KeyValue` is.
pub struct KeyValueView {
    pub enabled: bool,
    pub name: Seq<char>,
    pub value: Seq<char>,
}

impl View for KeyValue {
    type V = KeyValueView;

    open spec fn view(&self) -> KeyValueView {
        KeyValueView {
            enabled: self.enabled,
            name: self.name@,
            value: self.value@,
        }
    }
}

impl Clone for KeyValue {
    fn clone(&self) -> (r: KeyValue)
        ensures
            r == *self,
    {
        KeyValue {
            enabled: self.enabled,
            name: self.name.clone(),
            value: self.value.clone(),
        }
    }
}

/// What a list of key-value pairs is.
pub open spec fn key_values(list: Seq<KeyValue>) -> Seq<KeyValueView> {
    list.map_values(|x: KeyValue| x@)
}

/// A copy of a list of key-value pairs.
pub fn clone_key_values(list: &Vec<KeyValue>) -> (r: Vec<KeyValue>)
    ensures
        r@ == list@,
{
    let r = list.clone();
    proof {
        assert forall|i: int| 0 <= i < list.len() implies r@[i] == #[trigger] list@[i] by {
            assert(cloned::<KeyValue>(list[i], r[i]));
        }
        assert(r@ =~= list@);
    }
    r
}

/// A header of a request or a response.
pub type Header = KeyValue;

/// The flavour of a raw body.
pub struct RawKind {
    /// Whether it is JSON, which is what the editor colours.
    pub json: bool,
    /// How it reads on screen.
    pub label: String,
    /// The content type sent for it.
    pub content_type: String,
}

/// What a `RawKind` is.
pub struct RawKindView {
    pub json: bool,
    pub label: Seq<char>,
    pub content_type: Seq<char>,
}

impl View for RawKind {
    type V = RawKindView;

    open spec fn view(&self) -> RawKindView {
        RawKindView { json: self.json, label: self.label@, content_type: self.content_type@ }
    }
}

impl Clone for RawKind {
    fn clone(&self) -> (r: RawKind)
        ensures
            r == *self,
    {
        RawKind {
            json: self.json,
            label: self.label.clone(),
            content_type: self.content_type.clone(),
        }
    }
}

/// The flavour a body has before one is chosen.
pub open spec fn json_kind() -> RawKindView {
    RawKindView { json: true, label: "JSON"@, content_type: "application/json"@ }
}

impl Default for RawKind {
    fn default() -> (r: RawKind)
        ensures
            r@ == json_kind(),
    {
        RawKind {
            json: true,
            label: "JSON".to_owned(),
            content_type: "application/json".to_owned(),
        }
    }
}

/// Whether two flavours are the same.
pub fn same_raw_kind(a: &RawKind, b: &RawKind) -> (r: bool)
    ensures
        r == (a@ == b@),
{
    a.json == b.json && a.label == b.label && a.content_type == b.content_type
}

/// What a part of a multipart body sends.
pub enum MultipartValue {
    Text(String),
    /// The contents of a file, by its path.
    File(String),
}

/// What a `MultipartValue` is.
pub enum PartValueView {
    Text(Seq<char>),
    File(Seq<char>),
}

impl View for MultipartValue {
    type V = PartValueView;

    open spec fn view(&self) -> PartValueView {
        match *self {
            MultipartValue::Text(text) => PartValueView::Text(text@),
            MultipartValue::File(path) => PartValueView::File(path@),
        }
    }
}

impl Clone for MultipartValue {
    fn clone(&self) -> (r: MultipartValue)
        ensures
            r == *self,
    {
        match self {
            MultipartValue::Text(text) => MultipartValue::Text(text.clone()),
            MultipartValue::File(path) => MultipartValue::File(path.clone()),
        }
    }
}

/// A part of a multipart body.
pub struct MultipartField {
    pub enabled: bool,
    pub name: String,
    pub value: MultipartValue,
}

/// What a `MultipartField` is.
pub struct PartView {
    pub enabled: bool,
    pub name: Seq<char>,
    pub value: PartValueView,
}

impl View for MultipartField {
    type V = PartView;

    open spec fn view(&self) -> PartView {
        PartView { enabled: self.enabled, name: self.name@, value: self.value@ }
    }
}

impl Clone for MultipartField {
    fn clone(&self) -> (r: MultipartField)
        ensures
            r == *self,
    {
        MultipartField {
            enabled: self.enabled,
            name: self.name.clone(),
            value: self.value.clone(),
        }
    }
}

/// What a list of parts is.
pub open spec fn parts_of(list: Seq<MultipartField>) -> Seq<PartView> {
    list.map_values(|x: MultipartField| x@)
}

/// A copy of a list of parts.
pub fn clone_parts(list: &Vec<MultipartField>) -> (r: Vec<MultipartField>)
    ensures
        r@ == list@,
{
    let r = list.clone();
    proof {
        assert forall|i: int| 0 <= i < list.len() implies r@[i] == #[trigger] list@[i] by {
            assert(cloned::<MultipartField>(list[i], r[i]));
        }
        assert(r@ =~= list@);
    }
    r
}

/// What a request sends.
pub enum Body {
    Empty,
    Raw { text: String, kind: RawKind },
    Form(Vec<KeyValue>),
    Multipart(Vec<MultipartField>),
    /// The contents of a file, by its path.
    Binary(String),
}

/// What a `Body` is.
pub enum BodyContent {
    Empty,
    Raw { text: Seq<char>, kind: RawKindView },
    Form(Seq<KeyValueView>),
    Multipart(Seq<PartView>),
    Binary(Seq<char>),
}

impl View for Body {
    type V = BodyContent;

    open spec fn view(&self) -> BodyContent {
        match *self {
            Body::Empty => BodyContent::Empty,
            Body::Raw { text, kind } => BodyContent::Raw { text: text@, kind: kind@ },
            Body::Form(fields) => BodyContent::Form(key_values(fields@)),
            Body::Multipart(fields) => BodyContent::Multipart(parts_of(fields@)),
            Body::Binary(path) => BodyContent::Binary(path@),
        }
    }
}

impl Clone for Body {
    fn clone(&self) -> (r: Body)
        ensures
            r@ == self@,
    {
        match self {
            Body::Empty => Body::Empty,
            Body::Raw { text, kind } => Body::Raw { text: text.clone(), kind: kind.clone() },
            Body::Form(fields) => Body::Form(clone_key_values(fields)),
            Body::Multipart(fields) => Body::Multipart(clone_parts(fields)),
            Body::Binary(path) => Body::Binary(path.clone()),
        }
    }
}

/// Whether two bodies send the same. A file is the same however its path is spelled.
pub open spec fn body_agrees(a: BodyContent, b: BodyContent) -> bool {
    match (a, b) {
        (BodyContent::Binary(x), BodyContent::Binary(y)) => paths::same(x, y),
        _ => a == b,
    }
}

/// An HTTP request: a verb, query parameters and a body.
pub struct HttpRequest {
    pub method: Method,
    pub query: Vec<KeyValue>,
    pub body: Body,
}

/// What an `HttpRequest` is.
pub struct HttpView {
    pub method: MethodView,
    pub query: Seq<KeyValueView>,
    pub body: BodyContent,
}

impl View for HttpRequest {
    type V = HttpView;

    open spec fn view(&self) -> HttpView {
        HttpView { method: self.method@, query: key_values(self.query@), body: self.body@ }
    }
}

impl Clone for HttpRequest {
    fn clone(&self) -> (r: HttpRequest)
        ensures
            r@ == self@,
    {
        HttpRequest {
            method: self.method.clone(),
            query: clone_key_values(&self.query),
            body: self.body.clone(),
        }
    }
}

/// A GET of nothing in particular.
pub open spec fn blank_http() -> HttpView {
    HttpView { method: MethodView::Get, query: Seq::empty(), body: BodyContent::Empty }
}

impl Default for HttpRequest {
    fn default() -> (r: HttpRequest)
        ensures
            r@ == blank_http(),
    {
        let r = HttpRequest { method: Method::Get, query: Vec::new(), body: Body::Empty };
        proof {
            assert(r@.query =~= Seq::empty());
        }
        r
    }
}

/// Whether two HTTP requests ask the same.
pub open spec fn http_agrees(a: HttpView, b: HttpView) -> bool {
    &&& a.method == b.method
    &&& a.query == b.query
    &&& body_agrees(a.body, b.body)
}

/// A GraphQL request: a document, its variables, and which operation to run.
pub struct GraphQlRequest {
    pub method: Method,
    pub query: String,
    /// The variables, as JSON text.
    pub variables: String,
    /// Which operation of the document to run, where it holds more than one.
    pub operation: Option<String>,
}

/// What a `GraphQlRequest` is.
pub struct GraphQlView {
    pub method: MethodView,
    pub query: Seq<char>,
    pub variables: Seq<char>,
    pub operation: Option<Seq<char>>,
}

impl View for GraphQlRequest {
    type V = GraphQlView;

    open spec fn view(&self) -> GraphQlView {
        GraphQlView {
            method: self.method@,
            query: self.query@,
            variables: self.variables@,
            operation: strings::opt_text(self.operation),
        }
    }
}

impl Clone for GraphQlRequest {
    fn clone(&self) -> (r: GraphQlRequest)
        ensures
            r@ == self@,
    {
        GraphQlRequest {
            method: self.method.clone(),
            query: self.query.clone(),
            variables: self.variables.clone(),
            operation: strings::clone_option(&self.operation),
        }
    }
}

/// An empty document, posted.
pub open spec fn blank_graphql() -> GraphQlView {
    GraphQlView {
        method: MethodView::Post,
        query: Seq::empty(),
        variables: Seq::empty(),
        operation: None,
    }
}

impl Default for GraphQlRequest {
    fn default() -> (r: GraphQlRequest)
        ensures
            r@ == blank_graphql(),
    {
        GraphQlRequest {
            method: Method::Post,
            query: String::new(),
            variables: String::new(),
            operation: None,
        }
    }
}

/// A message kept with a socket, to be sent again.
pub struct SavedMessage {
    /// A label, not a key.
    pub name: String,
    pub body: String,
}

/// What a `SavedMessage` is.
pub struct MessageView {
    pub name: Seq<char>,
    pub body: Seq<char>,
}

impl View for SavedMessage {
    type V = MessageView;

    open spec fn view(&self) -> MessageView {
        MessageView {
            name: self.name@,
            body: self.body@,
        }
    }
}

impl Clone for SavedMessage {
    fn clone(&self) -> (r: SavedMessage)
        ensures
            r == *self,
    {
        SavedMessage {
            name: self.name.clone(),
            body: self.body.clone(),
        }
    }
}

/// What a list of saved messages is.
pub open spec fn messages_of(list: Seq<SavedMessage>) -> Seq<MessageView> {
    list.map_values(|x: SavedMessage| x@)
}

/// A copy of a list of saved messages.
pub fn clone_messages(list: &Vec<SavedMessage>) -> (r: Vec<SavedMessage>)
    ensures
        r@ == list@,
{
    let r = list.clone();
    proof {
        assert forall|i: int| 0 <= i < list.len() implies r@[i] == #[trigger] list@[i] by {
            assert(cloned::<SavedMessage>(list[i], r[i]));
        }
        assert(r@ =~= list@);
    }
    r
}

/// Whether two lists hold the same messages.
pub fn same_messages(a: &Vec<SavedMessage>, b: &Vec<SavedMessage>) -> (r: bool)
    ensures
        r == (messages_of(a@) == messages_of(b@)),
{
    if a.len() != b.len() {
        proof {
            assert(messages_of(a@).len() != messages_of(b@).len());
        }
        return false;
    }
    let mut i: usize = 0;
    while i < a.len()
        invariant
            i <= a.len(),
            a.len() == b.len(),
            forall|k: int| 0 <= k < i ==> (#[trigger] a[k])@ == b[k]@,
        decreases a.len() - i,
    {
        if a[i].name != b[i].name || a[i].body != b[i].body {
            proof {
                assert(messages_of(a@)[i as int] != messages_of(b@)[i as int]);
            }
            return false;
        }
        i = i + 1;
    }
    proof {
        assert(messages_of(a@) =~= messages_of(b@));
    }
    true
}

/// A socket: what to offer at the handshake, and the messages kept with it.
pub struct WebSocketRequest {
    pub subprotocols: Vec<String>,
    pub messages: Vec<SavedMessage>,
}

/// What a `WebSocketRequest` is.
pub struct WebSocketView {
    pub subprotocols: Seq<Seq<char>>,
    pub messages: Seq<MessageView>,
}

impl View for WebSocketRequest {
    type V = WebSocketView;

    open spec fn view(&self) -> WebSocketView {
        WebSocketView {
            subprotocols: strings::texts(self.subprotocols@),
            messages: messages_of(self.messages@),
        }
    }
}

impl Clone for WebSocketRequest {
    fn clone(&self) -> (r: WebSocketRequest)
        ensures
            r@ == self@,
    {
        WebSocketRequest {
            subprotocols: strings::clone_list(&self.subprotocols),
            messages: clone_messages(&self.messages),
        }
    }
}

/// A socket that offers nothing and keeps nothing.
pub open spec fn blank_websocket() -> WebSocketView {
    WebSocketView { subprotocols: Seq::empty(), messages: Seq::empty() }
}

impl Default for WebSocketRequest {
    fn default() -> (r: WebSocketRequest)
        ensures
            r@ == blank_websocket(),
    {
        let r = WebSocketRequest { subprotocols: Vec::new(), messages: Vec::new() };
        proof {
            assert(r@.subprotocols =~= Seq::empty());
            assert(r@.messages =~= Seq::empty());
        }
        r
    }
}

/// A gRPC call: which schema, which method, and the request message.
pub struct GrpcRequest {
    /// A file name inside the collection, or a path to a schema anywhere.
    pub proto: String,
    pub service: String,
    pub method: String,
    /// The request message as JSON.
    pub message: String,
    pub client_streaming: bool,
    pub server_streaming: bool,
}

/// What a `GrpcRequest` is.
pub struct GrpcView {
    pub proto: Seq<char>,
    pub service: Seq<char>,
    pub method: Seq<char>,
    pub message: Seq<char>,
    pub client_streaming: bool,
    pub server_streaming: bool,
}

impl View for GrpcRequest {
    type V = GrpcView;

    open spec fn view(&self) -> GrpcView {
        GrpcView {
            proto: self.proto@,
            service: self.service@,
            method: self.method@,
            message: self.message@,
            client_streaming: self.client_streaming,
            server_streaming: self.server_streaming,
        }
    }
}

impl Clone for GrpcRequest {
    fn clone(&self) -> (r: GrpcRequest)
        ensures
            r == *self,
    {
        GrpcRequest {
            proto: self.proto.clone(),
            service: self.service.clone(),
            method: self.method.clone(),
            message: self.message.clone(),
            client_streaming: self.client_streaming,
            server_streaming: self.server_streaming,
        }
    }
}

/// No call in particular.
pub open spec fn blank_grpc() -> GrpcView {
    GrpcView {
        proto: Seq::empty(),
        service: Seq::empty(),
        method: Seq::empty(),
        message: Seq::empty(),
        client_streaming: false,
        server_streaming: false,
    }
}

impl Default for GrpcRequest {
    fn default() -> (r: GrpcRequest)
        ensures
            r@ == blank_grpc(),
    {
        GrpcRequest {
            proto: String::new(),
            service: String::new(),
            method: String::new(),
            message: String::new(),
            client_streaming: false,
            server_streaming: false,
        }
    }
}

/// The half of a request that differs by protocol.
pub enum RequestKind {
    Http(HttpRequest),
    GraphQl(GraphQlRequest),
    WebSocket(WebSocketRequest),
}

/// What a `RequestKind` is.
pub enum RequestKindView {
    Http(HttpView),
    GraphQl(GraphQlView),
    WebSocket(WebSocketView),
}

impl View for RequestKind {
    type V = RequestKindView;

    open spec fn view(&self) -> RequestKindView {
        match *self {
            RequestKind::Http(http) => RequestKindView::Http(http@),
            RequestKind::GraphQl(graphql) => RequestKindView::GraphQl(graphql@),
            RequestKind::WebSocket(socket) => RequestKindView::WebSocket(socket@),
        }
    }
}

impl Clone for RequestKind {
    fn clone(&self) -> (r: RequestKind)
        ensures
            r@ == self@,
    {
        match self {
            RequestKind::Http(http) => RequestKind::Http(http.clone()),
            RequestKind::GraphQl(graphql) => RequestKind::GraphQl(graphql.clone()),
            RequestKind::WebSocket(socket) => RequestKind::WebSocket(socket.clone()),
        }
    }
}

/// Whether two requests ask the same. Requests of different kinds never do.
pub open spec fn kind_agrees(a: RequestKindView, b: RequestKindView) -> bool {
    match (a, b) {
        (RequestKindView::Http(x), RequestKindView::Http(y)) => http_agrees(x, y),
        _ => a == b,
    }
}

/// What an assertion holds a value to.
#[derive(Clone, Copy, Debug, PartialEq, Eq, Structural)]
pub enum Op {
    Exists,
    Equals,
    Contains,
}

/// A rule that publishes a value of a response into the environment.
pub struct Capture {
    pub enabled: bool,
    /// Where in the response the value is.
    pub path: String,
    /// The variable it is published as.
    pub name: String,
    pub secret: bool,
}

/// What a `Capture` is.
pub struct CaptureView {
    pub enabled: bool,
    pub path: Seq<char>,
    pub name: Seq<char>,
    pub secret: bool,
}

impl View for Capture {
    type V = CaptureView;

    open spec fn view(&self) -> CaptureView {
        CaptureView {
            enabled: self.enabled,
            path: self.path@,
            name: self.name@,
            secret: self.secret,
        }
    }
}

impl Clone for Capture {
    fn clone(&self) -> (r: Capture)
        ensures
            r == *self,
    {
        Capture {
            enabled: self.enabled,
            path: self.path.clone(),
            name: self.name.clone(),
            secret: self.secret,
        }
    }
}

/// What a list of captures is.
pub open spec fn captures_of(list: Seq<Capture>) -> Seq<CaptureView> {
    list.map_values(|x: Capture| x@)
}

/// A copy of a list of captures.
pub fn clone_captures(list: &Vec<Capture>) -> (r: Vec<Capture>)
    ensures
        r@ == list@,
{
    let r = list.clone();
    proof {
        assert forall|i: int| 0 <= i < list.len() implies r@[i] == #[trigger] list@[i] by {
            assert(cloned::<Capture>(list[i], r[i]));
        }
        assert(r@ =~= list@);
    }
    r
}

/// A rule that says nothing yet.
pub open spec fn blank_capture() -> CaptureView {
    CaptureView { enabled: true, path: Seq::empty(), name: Seq::empty(), secret: false }
}

impl Default for Capture {
    fn default() -> (r: Capture)
        ensures
            r@ == blank_capture(),
    {
        Capture { enabled: true, path: String::new(), name: String::new(), secret: false }
    }
}

/// A check that a run makes of a response.
pub struct Assertion {
    pub enabled: bool,
    /// Where in the response the value is.
    pub path: String,
    pub op: Op,
    /// What the value is held to.
    pub value: String,
}

/// What a `Assertion` is.
pub struct AssertionView {
    pub enabled: bool,
    pub path: Seq<char>,
    pub op: Op,
    pub value: Seq<char>,
}

impl View for Assertion {
    type V = AssertionView;

    open spec fn view(&self) -> AssertionView {
        AssertionView {
            enabled: self.enabled,
            path: self.path@,
            op: self.op,
            value: self.value@,
        }
    }
}

impl Clone for Assertion {
    fn clone(&self) -> (r: Assertion)
        ensures
            r == *self,
    {
        Assertion {
            enabled: self.enabled,
            path: self.path.clone(),
            op: self.op,
            value: self.value.clone(),
        }
    }
}

/// What a list of assertions is.
pub open spec fn assertions_of(list: Seq<Assertion>) -> Seq<AssertionView> {
    list.map_values(|x: Assertion| x@)
}

/// A copy of a list of assertions.
pub fn clone_assertions(list: &Vec<Assertion>) -> (r: Vec<Assertion>)
    ensures
        r@ == list@,
{
    let r = list.clone();
    proof {
        assert forall|i: int| 0 <= i < list.len() implies r@[i] == #[trigger] list@[i] by {
            assert(cloned::<Assertion>(list[i], r[i]));
        }
        assert(r@ =~= list@);
    }
    r
}

/// A check that says nothing yet. Its operator is one that takes a value, as the value is what is
/// typed next.
pub open spec fn blank_assertion() -> AssertionView {
    AssertionView { enabled: true, path: Seq::empty(), op: Op::Equals, value: Seq::empty() }
}

impl Default for Assertion {
    fn default() -> (r: Assertion)
        ensures
            r@ == blank_assertion(),
    {
        Assertion { enabled: true, path: String::new(), op: Op::Equals, value: String::new() }
    }
}

/// The settings of a request, in their written form. Nothing here reads them but to compare them.
pub struct RequestSettings {
    pub encoded: String,
}

/// What a `RequestSettings` is.
pub struct SettingsView {
    pub encoded: Seq<char>,
}

impl View for RequestSettings {
    type V = SettingsView;

    open spec fn view(&self) -> SettingsView {
        SettingsView {
            encoded: self.encoded@,
        }
    }
}

impl Clone for RequestSettings {
    fn clone(&self) -> (r: RequestSettings)
        ensures
            r == *self,
    {
        RequestSettings {
            encoded: self.encoded.clone(),
        }
    }
}

/// A whole request.
pub struct RequestSpec {
    /// A handle that lasts as long as the session.
    pub id: u64,
    pub name: String,
    pub url: String,
    pub headers: Vec<Header>,
    pub settings: RequestSettings,
    pub kind: RequestKind,
    pub captures: Vec<Capture>,
    pub expect_status: Option<u16>,
    pub assertions: Vec<Assertion>,
}

/// What a `RequestSpec` is.
pub struct SpecView {
    pub id: u64,
    pub name: Seq<char>,
    pub url: Seq<char>,
    pub headers: Seq<KeyValueView>,
    pub settings: SettingsView,
    pub kind: RequestKindView,
    pub captures: Seq<CaptureView>,
    pub expect_status: Option<u16>,
    pub assertions: Seq<AssertionView>,
}

impl View for RequestSpec {
    type V = SpecView;

    open spec fn view(&self) -> SpecView {
        SpecView {
            id: self.id,
            name: self.name@,
            url: self.url@,
            headers: key_values(self.headers@),
            settings: self.settings@,
            kind: self.kind@,
            captures: captures_of(self.captures@),
            expect_status: self.expect_status,
            assertions: assertions_of(self.assertions@),
        }
    }
}

impl Clone for RequestSpec {
    fn clone(&self) -> (r: RequestSpec)
        ensures
            r@ == self@,
    {
        RequestSpec {
            id: self.id,
            name: self.name.clone(),
            url: self.url.clone(),
            headers: clone_key_values(&self.headers),
            settings: self.settings.clone(),
            kind: self.kind.clone(),
            captures: clone_captures(&self.captures),
            expect_status: self.expect_status,
            assertions: clone_assertions(&self.assertions),
        }
    }
}

/// Whether two requests say the same. Neither the handle nor the name counts: one is given anew
/// on every open, the other follows from the URL.
pub open spec fn spec_agrees(a: SpecView, b: SpecView) -> bool {
    &&& a.settings == b.settings
    &&& a.url == b.url
    &&& a.headers == b.headers
    &&& a.captures == b.captures
    &&& a.expect_status == b.expect_status
    &&& a.assertions == b.assertions
    &&& kind_agrees(a.kind, b.kind)
}

/// Requests agree only where every part of them that is written down is the same: the address, the
/// headers, the settings, what is captured, what is expected and checked, and what is sent. Where
/// all of it is, they do, whatever their handles and names.
pub proof fn requests_agree_where_all_that_is_written_is_the_same(a: SpecView, b: SpecView)
    ensures
        spec_agrees(a, b) ==> a.url == b.url && a.headers == b.headers && a.settings == b.settings
            && a.captures == b.captures && a.expect_status == b.expect_status && a.assertions
            == b.assertions && kind_agrees(a.kind, b.kind),
        spec_agrees(a, a),
        spec_agrees(a, b) == spec_agrees(b, a),
        spec_agrees(a, SpecView { id: b.id, name: b.name, ..a }),
{
}

/// Requests of different kinds never agree; of one kind they do only where all of it is the same,
/// but that the path of a file may be spelled otherwise.
pub proof fn only_the_spelling_of_a_file_may_differ(
    a: RequestKindView,
    b: RequestKindView,
    path: Seq<char>,
)
    ensures
        kind_agrees(a, a),
        kind_agrees(a, b) == kind_agrees(b, a),
        kind_agrees(a, b) ==> a == b || {
            &&& a matches RequestKindView::Http(x) && x.body is Binary
            &&& b matches RequestKindView::Http(y) && y.body is Binary
            &&& a->Http_0.method == b->Http_0.method
            &&& a->Http_0.query == b->Http_0.query
            &&& paths::same(a->Http_0.body->Binary_0, b->Http_0.body->Binary_0)
        },
        a is Http && a->Http_0.body is Binary && paths::same(a->Http_0.body->Binary_0, path)
            ==> kind_agrees(
            a,
            RequestKindView::Http(HttpView { body: BodyContent::Binary(path), ..a->Http_0 }),
        ),
{
}

/// A rule and a check that were just made are on and say nothing, and a check asks for a value;
/// a body is JSON before anything is chosen.
pub proof fn what_is_new_is_on_and_empty()
    ensures
        blank_capture().enabled && !blank_capture().secret,
        blank_capture().path.len() == 0 && blank_capture().name.len() == 0,
        blank_assertion().enabled && blank_assertion().op != Op::Exists,
        blank_assertion().op == Op::Equals,
        blank_assertion().path.len() == 0 && blank_assertion().value.len() == 0,
        json_kind().json,
        json_kind().label == "JSON"@,
        json_kind().content_type == "application/json"@,
{
}

/// A request that was just made asks for nothing in particular: an HTTP one is a GET without
/// parameters or a body, a query is posted, a socket offers nothing and a call names nothing.
pub proof fn a_new_request_asks_for_nothing()
    ensures
        blank_http().method is Get && blank_http().query.len() == 0 && blank_http().body is Empty,
        blank_graphql().method is Post && blank_graphql().query.len() == 0,
        blank_graphql().variables.len() == 0 && blank_graphql().operation is None,
        blank_websocket().subprotocols.len() == 0 && blank_websocket().messages.len() == 0,
        blank_grpc().proto.len() == 0 && blank_grpc().service.len() == 0,
        blank_grpc().method.len() == 0 && blank_grpc().message.len() == 0,
        !blank_grpc().client_streaming && !blank_grpc().server_streaming,
{
}

} // verus!
