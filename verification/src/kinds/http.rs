//! Authoring an HTTP request: a verb, query rows, and one of five body shapes.

use crate::input::editor;
use crate::input::editor::{Editor, EditorView};
use crate::input::text_input;
use crate::paths;
use crate::request;
use crate::request::{
    Body, BodyContent, HttpRequest, HttpView, Method, MethodView, RawKind, RawKindView,
};
use crate::request_view::rows;
use crate::request_view::rows::{KeyValueRow, MultipartRow, PartRowView, RowView};
use crate::request_view::BodyType;
use crate::strings;
use vstd::prelude::*;
use vstd::string::*;

verus! {

/// What the HTTP editors hold.
pub struct HttpEditorView {
    pub method: MethodView,
    pub query: Seq<RowView>,
    pub body_editor: EditorView,
    pub body_type: BodyType,
    pub body_kind: RawKindView,
    pub form: Seq<RowView>,
    pub multipart: Seq<PartRowView>,
    pub binary_path: Option<Seq<char>>,
}

impl HttpEditorView {
    /// Every surface is sound.
    pub open spec fn wf(self) -> bool {
        &&& self.body_editor.wf()
        &&& rows::rows_wf(self.query)
        &&& rows::rows_wf(self.form)
        &&& rows::part_rows_wf(self.multipart)
    }

    /// The body that would be sent. A blank editor and a missing file are no body at all.
    pub open spec fn body(self) -> BodyContent {
        match self.body_type {
            BodyType::Empty => BodyContent::Empty,
            BodyType::Raw => if strings::is_blank(self.body_editor.surface.text) {
                BodyContent::Empty
            } else {
                BodyContent::Raw { text: self.body_editor.surface.text, kind: self.body_kind }
            },
            BodyType::Form => BodyContent::Form(rows::pairs_of(self.form)),
            BodyType::Multipart => BodyContent::Multipart(rows::sent_parts(self.multipart)),
            BodyType::Binary => match self.binary_path {
                Some(path) => BodyContent::Binary(path),
                None => BodyContent::Empty,
            },
        }
    }

    /// The request the editors spell out.
    pub open spec fn spec(self) -> HttpView {
        HttpView {
            method: self.method,
            query: rows::pairs_of(self.query),
            body: self.body(),
        }
    }

    /// Whether there is a body to lose: one that would be sent, or text, fields, parts or a file
    /// kept behind another body type.
    pub open spec fn holds_a_body(self) -> bool {
        ||| self.body() !is Empty
        ||| !strings::is_blank(self.body_editor.surface.text)
        ||| rows::any_typed(self.form)
        ||| rows::any_part_typed(self.multipart)
        ||| self.binary_path is Some
    }

    /// Whether anything has been typed. What is kept behind another body type counts.
    pub open spec fn has_content(self) -> bool {
        ||| self.holds_a_body()
        ||| rows::any_typed(self.query)
    }

    /// How the body type reads on screen.
    pub open spec fn body_label(self) -> Seq<char> {
        match self.body_type {
            BodyType::Empty => "None"@,
            BodyType::Form => "Form"@,
            BodyType::Binary => "Binary"@,
            BodyType::Multipart => "Multipart"@,
            BodyType::Raw => self.body_kind.label,
        }
    }

    pub open spec fn with_body_type(self, body_type: BodyType) -> HttpEditorView {
        HttpEditorView { body_type, ..self }
    }
}

/// The editors a saved request is opened in. A body that is not raw leaves the text editor empty
/// and of the flavour a body has before one is chosen.
pub open spec fn http_editor(http: HttpView) -> HttpEditorView {
    let (text, kind, body_type) = match http.body {
        BodyContent::Raw { text, kind } => (text, kind, BodyType::Raw),
        BodyContent::Empty => (Seq::empty(), request::json_kind(), BodyType::Empty),
        BodyContent::Form(_) => (Seq::empty(), request::json_kind(), BodyType::Form),
        BodyContent::Binary(_) => (Seq::empty(), request::json_kind(), BodyType::Binary),
        BodyContent::Multipart(_) => (Seq::empty(), request::json_kind(), BodyType::Multipart),
    };
    HttpEditorView {
        method: http.method,
        query: rows::fresh_rows(http.query, "QueryCell"@),
        body_editor: editor::fresh_editor(text, "Request body…"@),
        body_type,
        body_kind: kind,
        form: match http.body {
            BodyContent::Form(fields) => rows::fresh_rows(fields, "FormCell"@),
            _ => Seq::empty(),
        },
        multipart: match http.body {
            BodyContent::Multipart(parts) => rows::fresh_parts(parts),
            _ => Seq::empty(),
        },
        binary_path: match http.body {
            BodyContent::Binary(path) => Some(path),
            _ => None,
        },
    }
}

/// Everything an HTTP request is edited through.
pub struct HttpEditor {
    pub method: Method,
    pub query: Vec<KeyValueRow>,
    pub body_editor: Editor,
    /// Which body is sent. Stored rather than inferred: a form without fields and no body at all
    /// look alike.
    pub body_type: BodyType,
    /// The flavour of a raw body. The editor's colouring follows from it.
    pub body_kind: RawKind,
    pub form: Vec<KeyValueRow>,
    pub multipart: Vec<MultipartRow>,
    /// Only the path: the file is read as the request is sent.
    pub binary_path: Option<String>,
}

impl View for HttpEditor {
    type V = HttpEditorView;

    open spec fn view(&self) -> HttpEditorView {
        HttpEditorView {
            method: self.method@,
            query: rows::rows_of(self.query@),
            body_editor: self.body_editor@,
            body_type: self.body_type,
            body_kind: self.body_kind@,
            form: rows::rows_of(self.form@),
            multipart: rows::part_rows_of(self.multipart@),
            binary_path: strings::opt_text(self.binary_path),
        }
    }
}

impl HttpEditor {
    /// A blank request.
    pub fn new() -> (r: HttpEditor)
        ensures
            r@ == http_editor(request::blank_http()),
            r@.wf(),
    {
        HttpEditor::from_spec(&HttpRequest::default())
    }

    /// The editors a saved request is opened in.
    pub fn from_spec(http: &HttpRequest) -> (r: HttpEditor)
        ensures
            r@ == http_editor(http@),
            r@.wf(),
    {
        let query = rows::build_rows(&http.query, "QueryCell");
        let mut body_text = String::new();
        let mut body_kind = RawKind::default();
        let mut form: Vec<KeyValueRow> = Vec::new();
        let mut multipart: Vec<MultipartRow> = Vec::new();
        let mut binary_path: Option<String> = None;
        proof {
            assert(rows::rows_of(form@) =~= Seq::empty());
            assert(rows::part_rows_of(multipart@) =~= Seq::empty());
        }
        let body_type = match &http.body {
            Body::Raw { text, kind } => {
                body_text = text.clone();
                body_kind = kind.clone();
                BodyType::Raw
            },
            Body::Empty => BodyType::Empty,
            Body::Form(fields) => {
                form = rows::build_rows(fields, "FormCell");
                BodyType::Form
            },
            Body::Binary(path) => {
                binary_path = Some(path.clone());
                BodyType::Binary
            },
            Body::Multipart(fields) => {
                multipart = rows::build_parts(fields);
                BodyType::Multipart
            },
        };
        HttpEditor {
            method: http.method.clone(),
            query,
            body_editor: Editor::new(body_text.as_str(), "Request body…"),
            body_type,
            body_kind,
            form,
            multipart,
            binary_path,
        }
    }

    /// Whether there is a body to lose. A body type that is not chosen keeps what was typed for it,
    /// so its text, fields, parts and file count too.
    pub fn holds_a_body(&self) -> (r: bool)
        ensures
            r == self@.holds_a_body(),
    {
        let sends_a_body = match self.body() {
            Body::Empty => false,
            _ => true,
        };
        sends_a_body || !strings::blank(self.body_editor.text()) || rows::has_typed(&self.form)
            || rows::has_typed_part(&self.multipart) || self.binary_path.is_some()
    }

    /// Whether anything has been typed. Query rows count: they are lost with the rest.
    pub fn has_content(&self) -> (r: bool)
        ensures
            r == self@.has_content(),
    {
        self.holds_a_body() || rows::has_typed(&self.query)
    }

    /// The request the editors spell out.
    pub fn to_spec(&self) -> (r: HttpRequest)
        ensures
            r@ == self@.spec(),
    {
        HttpRequest {
            method: self.method.clone(),
            query: rows::read_rows(&self.query),
            body: self.body(),
        }
    }

    /// The body that would be sent. A blank editor means no body, not an empty raw one; so does a
    /// binary body with no file chosen.
    pub fn body(&self) -> (r: Body)
        ensures
            r@ == self@.body(),
    {
        match self.body_type {
            BodyType::Form => Body::Form(rows::read_rows(&self.form)),
            BodyType::Multipart => Body::Multipart(rows::read_parts(&self.multipart)),
            BodyType::Binary => match &self.binary_path {
                Some(path) => Body::Binary(path.clone()),
                None => Body::Empty,
            },
            BodyType::Empty => Body::Empty,
            BodyType::Raw => {
                let text = self.body_editor.text();
                if strings::blank(text) {
                    Body::Empty
                } else {
                    Body::Raw { text: text.to_owned(), kind: self.body_kind.clone() }
                }
            },
        }
    }

    /// Whether the editors spell out anything but `base`.
    pub fn is_dirty(&self, base: &HttpRequest) -> (r: bool)
        ensures
            r == !request::http_agrees(self@.spec(), base@),
    {
        !request::same_method(&self.method, &base.method) || !rows::rows_match(
            &self.query,
            &base.query,
        ) || !self.body_matches(&base.body)
    }

    /// Whether `body` would agree with `base`, asked without building it.
    pub fn body_matches(&self, base: &Body) -> (r: bool)
        ensures
            r == request::body_agrees(self@.body(), base@),
    {
        match self.body_type {
            BodyType::Empty => match base {
                Body::Empty => true,
                _ => false,
            },
            BodyType::Raw => {
                let text = self.body_editor.text();
                match base {
                    Body::Empty => strings::blank(text),
                    Body::Raw { text: was, kind } => {
                        !strings::blank(text) && strings::same(was.as_str(), text)
                            && request::same_raw_kind(kind, &self.body_kind)
                    },
                    _ => false,
                }
            },
            BodyType::Binary => match (&self.binary_path, base) {
                (Some(path), Body::Binary(was)) => paths::same_path(path.as_str(), was.as_str()),
                (None, Body::Empty) => true,
                _ => false,
            },
            BodyType::Form => match base {
                Body::Form(fields) => rows::rows_match(&self.form, fields),
                _ => false,
            },
            BodyType::Multipart => match base {
                Body::Multipart(fields) => rows::parts_match(&self.multipart, fields),
                _ => false,
            },
        }
    }

    /// The body editor, but only while a raw body is what shows: there is no text on screen to
    /// search over a form, a file, parts or no body at all.
    pub fn primary_editor(&self) -> (r: Option<&Editor>)
        ensures
            r is Some <==> self@.body_type is Raw,
            r matches Some(editor) ==> editor@ == self@.body_editor,
    {
        match self.body_type {
            BodyType::Raw => Some(&self.body_editor),
            _ => None,
        }
    }

    /// Choose which body is sent. Nothing is discarded, so only what is sent changes.
    pub fn set_body_type(&mut self, body_type: BodyType)
        ensures
            final(self)@ == old(self)@.with_body_type(body_type),
    {
        self.body_type = body_type;
    }

    pub fn body_kind(&self) -> (r: RawKind)
        ensures
            r@ == self@.body_kind,
    {
        self.body_kind.clone()
    }

    /// Whether the body editor colours its text as JSON: it follows the flavour.
    pub fn highlights_json(&self) -> (r: bool)
        ensures
            r == self@.body_kind.json,
    {
        self.body_kind.json
    }

    /// Set the flavour of the raw body.
    pub fn set_body_kind(&mut self, kind: RawKind)
        ensures
            final(self)@ == (HttpEditorView {
                body_kind: kind@,
                ..old(self)@
            }),
    {
        self.body_kind = kind;
    }

    /// How the body type reads on screen. No body reads "None", whatever flavour is kept.
    pub fn body_label(&self) -> (r: String)
        ensures
            r@ == self@.body_label(),
    {
        match self.body_type {
            BodyType::Empty => "None".to_owned(),
            BodyType::Form => "Form".to_owned(),
            BodyType::Binary => "Binary".to_owned(),
            BodyType::Multipart => "Multipart".to_owned(),
            BodyType::Raw => self.body_kind.label.clone(),
        }
    }

    /// Point a binary body at a file, switching the body type to match.
    pub fn set_binary_path(&mut self, path: String)
        ensures
            final(self)@ == (HttpEditorView {
                binary_path: Some(path@),
                body_type: BodyType::Binary,
                ..old(self)@
            }),
    {
        self.binary_path = Some(path);
        self.set_body_type(BodyType::Binary);
    }

    pub fn multipart_is_file(&self, ix: usize) -> (r: bool)
        ensures
            r == (ix < self@.multipart.len() && self@.multipart[ix as int].is_file),
    {
        ix < self.multipart.len() && self.multipart[ix].is_file
    }
}

/// Whether a pair holds no line break.
pub open spec fn pair_is_single_line(pair: request::KeyValueView) -> bool {
    &&& text_input::is_single_line(pair.name)
    &&& text_input::is_single_line(pair.value)
}

/// Whether the editors can hold a request as it is: cells hold one line each, and a raw body is
/// not blank.
pub open spec fn is_editable(http: HttpView) -> bool {
    &&& forall|i: int| 0 <= i < http.query.len() ==> pair_is_single_line(#[trigger] http.query[i])
    &&& match http.body {
        BodyContent::Raw { text, .. } => !strings::is_blank(text),
        BodyContent::Form(fields) => forall|i: int|
            0 <= i < fields.len() ==> pair_is_single_line(#[trigger] fields[i]),
        BodyContent::Multipart(parts) => forall|i: int|
            0 <= i < parts.len() ==> text_input::is_single_line((#[trigger] parts[i]).name)
                && text_input::is_single_line(
                match parts[i].value {
                    request::PartValueView::Text(text) => text,
                    request::PartValueView::File(path) => path,
                },
            ),
        _ => true,
    }
}

pub proof fn lemma_fresh_rows_say_their_pairs(
    pairs: Seq<request::KeyValueView>,
    context: Seq<char>,
)
    requires
        forall|i: int| 0 <= i < pairs.len() ==> pair_is_single_line(#[trigger] pairs[i]),
    ensures
        rows::pairs_of(rows::fresh_rows(pairs, context)) == pairs,
{
    assert forall|i: int| 0 <= i < pairs.len() implies rows::pairs_of(
        rows::fresh_rows(pairs, context),
    )[i] == #[trigger] pairs[i] by {
        text_input::lemma_single_line_stays(pairs[i].name);
        text_input::lemma_single_line_stays(pairs[i].value);
    }
    assert(rows::pairs_of(rows::fresh_rows(pairs, context)) =~= pairs);
}

/// What is opened and not touched is written back as it was.
pub proof fn a_loaded_http_request_is_read_back(http: HttpView)
    requires
        is_editable(http),
    ensures
        http_editor(http).spec() == http,
{
    let editors = http_editor(http);
    lemma_fresh_rows_say_their_pairs(http.query, "QueryCell"@);
    match http.body {
        BodyContent::Form(fields) => {
            lemma_fresh_rows_say_their_pairs(fields, "FormCell"@);
        },
        BodyContent::Multipart(parts) => {
            let back = rows::sent_parts(rows::fresh_parts(parts));
            assert forall|i: int| 0 <= i < parts.len() implies back[i] == #[trigger] parts[i] by {
                text_input::lemma_single_line_stays(parts[i].name);
                match parts[i].value {
                    request::PartValueView::Text(text) => {
                        text_input::lemma_single_line_stays(text);
                    },
                    request::PartValueView::File(path) => {
                        text_input::lemma_single_line_stays(path);
                    },
                }
            }
            assert(back =~= parts);
        },
        _ => {},
    }
}

/// What is opened and not touched is not dirty.
pub proof fn a_freshly_loaded_http_request_is_clean(http: HttpView)
    requires
        is_editable(http),
    ensures
        request::http_agrees(http_editor(http).spec(), http),
{
    a_loaded_http_request_is_read_back(http);
}

/// Choosing another body type and going back changes nothing: a mistaken choice is never
/// destructive.
pub proof fn switching_the_body_type_loses_nothing(editors: HttpEditorView, other: BodyType)
    ensures
        editors.with_body_type(other).with_body_type(editors.body_type) == editors,
        editors.with_body_type(other).with_body_type(editors.body_type).body() == editors.body(),
{
}

/// Choosing another body type hides nothing from the question of what there is to lose: what was
/// typed for any type still counts.
pub proof fn what_is_kept_behind_a_body_type_counts(editors: HttpEditorView, other: BodyType)
    requires
        editors.wf(),
    ensures
        !strings::is_blank(editors.body_editor.surface.text) || rows::any_typed(editors.form)
            || rows::any_part_typed(editors.multipart) || editors.binary_path is Some
            || rows::any_typed(editors.query) ==> editors.with_body_type(other).has_content(),
{
}

/// A body without a type sends nothing, whatever is kept behind it.
pub proof fn no_body_means_no_body(editors: HttpEditorView)
    ensures
        editors.with_body_type(BodyType::Empty).body() is Empty,
{
}

/// What is sent is what the rows and boxes of the chosen body type hold, row for row, and nothing
/// that is kept behind another type.
pub proof fn the_request_is_what_the_editors_hold(editors: HttpEditorView)
    ensures
        editors.spec().method == editors.method,
        editors.spec().query.len() == editors.query.len(),
        forall|i: int|
            0 <= i < editors.query.len() ==> {
                &&& (#[trigger] editors.spec().query[i]).enabled == editors.query[i].enabled
                &&& editors.spec().query[i].name == editors.query[i].name.surface.text
                &&& editors.spec().query[i].value == editors.query[i].value.surface.text
            },
        match editors.body_type {
            BodyType::Empty => editors.spec().body is Empty,
            BodyType::Raw => {
                let text = editors.body_editor.surface.text;
                if strings::trimmed(text).len() == 0 {
                    editors.spec().body is Empty
                } else {
                    editors.spec().body == (BodyContent::Raw { text, kind: editors.body_kind })
                }
            },
            BodyType::Form => editors.spec().body matches BodyContent::Form(fields) && fields.len()
                == editors.form.len() && forall|i: int|
                0 <= i < fields.len() ==> (#[trigger] fields[i]).enabled == editors.form[i].enabled
                    && fields[i].name == editors.form[i].name.surface.text && fields[i].value
                    == editors.form[i].value.surface.text,
            BodyType::Multipart => editors.spec().body matches BodyContent::Multipart(parts)
                && parts.len() == editors.multipart.len() && forall|i: int|
                0 <= i < parts.len() ==> {
                    let row = editors.multipart[i].row;
                    &&& (#[trigger] parts[i]).enabled == row.enabled
                    &&& parts[i].name == row.name.surface.text
                    &&& editors.multipart[i].is_file ==> parts[i].value
                        == request::PartValueView::File(row.value.surface.text)
                    &&& !editors.multipart[i].is_file ==> parts[i].value
                        == request::PartValueView::Text(row.value.surface.text)
                },
            BodyType::Binary => match editors.binary_path {
                Some(path) => editors.spec().body == BodyContent::Binary(path),
                None => editors.spec().body is Empty,
            },
        },
{
}

/// There is something to lose exactly where something is typed or chosen for any body type, in the
/// query, or where the type itself is one that is sent without rows.
pub proof fn there_is_something_to_lose_where_something_is_typed(editors: HttpEditorView)
    ensures
        editors.has_content() <==> {
            ||| editors.body_type is Form
            ||| editors.body_type is Multipart
            ||| strings::trimmed(editors.body_editor.surface.text).len() > 0
            ||| editors.binary_path is Some
            ||| exists|i: int|
                0 <= i < editors.query.len() && (strings::trimmed(
                    (#[trigger] editors.query[i]).name.surface.text,
                ).len() > 0 || strings::trimmed(editors.query[i].value.surface.text).len() > 0)
            ||| exists|i: int|
                0 <= i < editors.form.len() && (strings::trimmed(
                    (#[trigger] editors.form[i]).name.surface.text,
                ).len() > 0 || strings::trimmed(editors.form[i].value.surface.text).len() > 0)
            ||| exists|i: int|
                0 <= i < editors.multipart.len() && (strings::trimmed(
                    (#[trigger] editors.multipart[i]).row.name.surface.text,
                ).len() > 0 || strings::trimmed(editors.multipart[i].row.value.surface.text).len()
                    > 0)
        },
{
    assert(forall|i: int|
        0 <= i < editors.query.len() ==> ((#[trigger] editors.query[i]).is_typed() <==> (
        strings::trimmed(editors.query[i].name.surface.text).len() > 0 || strings::trimmed(
            editors.query[i].value.surface.text,
        ).len() > 0)));
}

/// How a body type reads tells them apart, and a raw body reads as its flavour.
pub proof fn a_raw_body_reads_as_its_flavour(editors: HttpEditorView, other: BodyType)
    ensures
        editors.with_body_type(BodyType::Raw).body_label() == editors.body_kind.label,
        editors.body_type != other && !(editors.body_type is Raw) && !(other is Raw)
            ==> editors.body_label() != editors.with_body_type(other).body_label(),
        editors.with_body_type(other).body_type == other,
        editors.with_body_type(other).body_editor == editors.body_editor,
        editors.with_body_type(other).form == editors.form,
        editors.with_body_type(other).multipart == editors.multipart,
        editors.with_body_type(other).binary_path == editors.binary_path,
        editors.with_body_type(other).query == editors.query,
{
    reveal_strlit("None");
    reveal_strlit("Form");
    reveal_strlit("Binary");
    reveal_strlit("Multipart");
    assert("None"@[0] != "Form"@[0]);
    assert("None"@.len() == 4 && "Form"@.len() == 4 && "Binary"@.len() == 6 && "Multipart"@.len()
        == 9);
}

} // verus!
