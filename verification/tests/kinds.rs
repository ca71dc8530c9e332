//! The editors of each kind of request.

use zuno::kinds::graphql::GraphQlEditor;
use zuno::kinds::grpc::{GrpcEditor, GrpcMethod};
use zuno::kinds::http::HttpEditor;
use zuno::kinds::websocket::{name_for, name_source, split_protocols, NameSource, WebSocketEditor};
use zuno::kinds::{in_words, KindChoice, KindEditor};
use zuno::request::{
    Body, GraphQlRequest, GrpcRequest, HttpRequest, KeyValue, Method, MultipartField,
    MultipartValue, RawKind, RequestKind, SavedMessage, WebSocketRequest,
};
use zuno::request_view::BodyType;

/// A first line cut to what fits.
fn shortened(body: &str) -> String {
    body.trim().lines().next().unwrap_or("").chars().take(23).chain(['…']).collect()
}

fn named(body: &str) -> String {
    name_for(body, shortened(body))
}

/// The label comes from the payload, which is the whole reason saving needs no prompt.
#[test]
fn a_saved_message_is_named_by_its_own_type_field() {
    assert_eq!(
        named(r#"{"type":"subscribe","id":"1"}"#),
        "subscribe",
        "an envelope's discriminator is the name a person would have typed"
    );
    assert_eq!(named("SUBSCRIBE topic=prices\nmore"), "SUBSCRIBE topic=prices");
    assert_eq!(named(r#"{"op":"ping"}"#), r#"{"op":"ping"}"#);
    assert_eq!(named("   "), "message");
}

#[test]
fn a_name_is_read_only_from_a_string_under_type() {
    assert_eq!(named(r#"{"type":7}"#), r#"{"type":7}"#);
    assert_eq!(named(r#"["type"]"#), r#"["type"]"#);
    assert_eq!(named(r#"{"type":"  "}"#), r#"{"type":"  "}"#);
    assert_eq!(named("abcdefghijklmnopqrstuvwxyz"), "abcdefghijklmnopqrstuvw…");
    assert!(matches!(
        name_source(None, "abcdefghijklmnopqrstuvwxyz"),
        NameSource::LongLine(line) if line == "abcdefghijklmnopqrstuvwxyz"
    ));
}

#[test]
fn subprotocols_round_trip_through_one_line() {
    assert_eq!(
        split_protocols(" graphql-transport-ws , wamp.2.json ,, "),
        vec!["graphql-transport-ws".to_string(), "wamp.2.json".to_string()],
        "whitespace and a trailing comma are typing, not protocols"
    );
    assert!(split_protocols("   ").is_empty());
}

fn pair(enabled: bool, name: &str, value: &str) -> KeyValue {
    KeyValue { enabled, name: name.into(), value: value.into() }
}

fn text_kind() -> RawKind {
    RawKind { json: false, label: "Text".into(), content_type: "text/plain".into() }
}

#[test]
fn a_loaded_request_is_clean_until_it_is_touched() {
    let request = HttpRequest {
        method: Method::Post,
        query: vec![pair(true, "page", "2"), pair(false, "debug", "")],
        body: Body::Raw { text: "hello\nworld".into(), kind: text_kind() },
    };
    let mut editor = HttpEditor::from_spec(&request);
    assert!(!editor.is_dirty(&request));
    assert!(editor.has_content());
    assert_eq!(editor.body_label(), "Text");
    assert!(!editor.highlights_json());
    editor.query[1].value.paste("1");
    assert!(editor.is_dirty(&request));
    let said = editor.to_spec();
    assert_eq!(said.query[1].value, "1");
    assert!(!said.query[1].enabled);
    assert!(matches!(said.body, Body::Raw { text, .. } if text == "hello\nworld"));
}

#[test]
fn switching_the_body_type_keeps_what_was_typed() {
    let mut editor = HttpEditor::new();
    editor.set_body_type(BodyType::Raw);
    editor.body_editor.paste("{}");
    editor.set_body_type(BodyType::Empty);
    assert!(matches!(editor.body(), Body::Empty));
    editor.set_body_type(BodyType::Raw);
    assert!(matches!(editor.body(), Body::Raw { text, .. } if text == "{}"));
    editor.set_body_kind(text_kind());
    assert!(!editor.body_kind().json);
    editor.set_binary_path("/tmp/a.bin".into());
    assert!(matches!(editor.body(), Body::Binary(path) if path == "/tmp/a.bin"));
    assert!(editor.primary_editor().is_none());
    editor.set_body_type(BodyType::Empty);
    assert!(editor.primary_editor().is_none(), "there is no body to search");
    editor.set_body_type(BodyType::Raw);
    assert_eq!(editor.primary_editor().map(|editor| editor.text()), Some("{}"));
}

#[test]
fn what_is_kept_behind_a_body_type_is_content_and_is_named() {
    let form = HttpRequest {
        method: Method::Post,
        query: Vec::new(),
        body: Body::Form(vec![pair(true, "a", "")]),
    };
    let parts = HttpRequest {
        method: Method::Post,
        query: Vec::new(),
        body: Body::Multipart(vec![MultipartField {
            enabled: true,
            name: "".into(),
            value: MultipartValue::Text("hi".into()),
        }]),
    };
    let file = HttpRequest {
        method: Method::Put,
        query: Vec::new(),
        body: Body::Binary("/tmp/a.bin".into()),
    };
    let text = HttpRequest {
        method: Method::Put,
        query: Vec::new(),
        body: Body::Raw { text: "hello".into(), kind: text_kind() },
    };
    for request in [form, parts, file, text] {
        let mut editor = HttpEditor::from_spec(&request);
        editor.set_body_type(BodyType::Empty);
        assert!(matches!(editor.body(), Body::Empty));
        assert!(editor.holds_a_body());
        assert!(editor.has_content());
        let kind = KindEditor::Http(editor);
        assert_eq!(kind.discards(), "the body and the method");
    }
    let mut blank = HttpEditor::new();
    blank.set_body_type(BodyType::Empty);
    assert!(!blank.has_content());
    assert_eq!(KindEditor::Http(blank).discards(), "the method");
}

#[test]
fn a_file_is_the_same_by_its_path() {
    let request = HttpRequest {
        method: Method::Put,
        query: Vec::new(),
        body: Body::Binary("/tmp/./a.bin".into()),
    };
    let editor = HttpEditor::from_spec(&request);
    assert!(editor.body_matches(&Body::Binary("/tmp/a.bin".into())));
    assert!(!editor.body_matches(&Body::Binary("/tmp/b.bin".into())));
    assert!(!editor.body_matches(&Body::Empty));
}

#[test]
fn parts_are_text_or_files() {
    let request = HttpRequest {
        method: Method::Post,
        query: Vec::new(),
        body: Body::Multipart(vec![
            MultipartField {
                enabled: true,
                name: "note".into(),
                value: MultipartValue::Text("hi".into()),
            },
            MultipartField {
                enabled: true,
                name: "photo".into(),
                value: MultipartValue::File("/p.png".into()),
            },
        ]),
    };
    let editor = HttpEditor::from_spec(&request);
    assert!(!editor.is_dirty(&request));
    assert!(!editor.multipart_is_file(0));
    assert!(editor.multipart_is_file(1));
    assert!(!editor.multipart_is_file(2));
}

#[test]
fn a_query_document_is_read_back() {
    let request = GraphQlRequest {
        method: Method::Post,
        query: "query A { a }".into(),
        variables: "{}".into(),
        operation: Some("A".into()),
    };
    let mut editor = GraphQlEditor::from_spec(&request);
    assert!(!editor.is_dirty(&request));
    assert_eq!(editor.primary_editor().text(), "query A { a }");
    editor.query.paste(" ");
    assert!(editor.is_dirty(&request));
    assert!(!GraphQlEditor::new().has_content());
}

#[test]
fn a_call_is_chosen_from_a_schema() {
    let mut editor = GrpcEditor::new();
    assert_eq!(editor.chosen(), None);
    assert!(!editor.has_content());
    editor.choose_method(&GrpcMethod {
        service: "pkg.Greeter".into(),
        name: "SayHello".into(),
        client_streaming: true,
        server_streaming: false,
    });
    assert!(editor.sends_more());
    assert!(editor.chosen().is_some());
    let said = editor.to_spec();
    assert_eq!((said.service.as_str(), said.method.as_str()), ("pkg.Greeter", "SayHello"));
    assert!(!editor.is_dirty(&said));
    assert!(editor.is_dirty(&GrpcRequest::default()));
}

#[test]
fn a_draft_is_not_part_of_a_socket() {
    let request = WebSocketRequest {
        subprotocols: vec!["graphql-transport-ws".into(), "wamp".into()],
        messages: vec![SavedMessage { name: "ping".into(), body: "ping".into() }],
    };
    let mut editor = WebSocketEditor::from_spec(&request);
    editor.set_compose("draft");
    assert!(!editor.is_dirty(&request));
    assert_eq!(editor.primary_editor().text(), "draft");
    editor.save(r#"{"type":"join"}"#.into(), "unused".into());
    assert_eq!(editor.messages[1].name, "join");
    assert!(editor.is_dirty(&request));
    editor.forget(1);
    assert!(!editor.is_dirty(&request));
}

#[test]
fn what_a_switch_loses_is_said() {
    assert_eq!(in_words(&Vec::new()), "nothing");
    assert_eq!(in_words(&vec!["a".into()]), "a");
    assert_eq!(in_words(&vec!["a".into(), "b".into(), "c".into()]), "a, b and c");
    let blank = KindEditor::empty(KindChoice::Http);
    assert_eq!(blank.discards(), "the method");
    assert!(!blank.has_content());
    assert_eq!(KindEditor::empty(KindChoice::GraphQl).discards(), "nothing");
    let http = KindEditor::from_spec(&RequestKind::Http(HttpRequest {
        method: Method::Get,
        query: vec![pair(true, "page", "2")],
        body: Body::Form(vec![pair(true, "a", "b")]),
    }));
    assert_eq!(http.discards(), "the body, the query params and the method");
}

#[test]
fn a_kind_names_its_tabs() {
    let http = KindEditor::empty(KindChoice::Http);
    assert_eq!(http.choice().label(), "HTTP");
    assert_eq!(http.tabs().len(), 2);
    assert!(http.checks_a_response());
    let socket = KindEditor::empty(KindChoice::WebSocket);
    assert_eq!(socket.tab_label(0), "Handshake");
    assert_eq!(socket.tab_label(1), "Message");
    assert!(!socket.checks_a_response());
    assert!(socket.method().is_none());
    assert!(socket.as_http().is_none());
    assert!(KindChoice::ALL.iter().all(|choice| !choice.detail().is_empty()));
    let mut graphql = KindEditor::empty(KindChoice::GraphQl);
    assert!(matches!(graphql.method(), Some(Method::Post)));
    graphql.set_method(Method::Get);
    assert!(matches!(graphql.method(), Some(Method::Get)));
    assert!(graphql.primary_editor_mut().is_some());
    assert!(graphql.as_graphql().is_some());
    assert!(graphql.as_graphql_mut().is_some());
    assert!(graphql.as_websocket().is_none());
}
