//! Authoring a GraphQL request: a document, its variables, and which operation to run.

use crate::input::editor;
use crate::input::editor::{Editor, EditorView};
use crate::input::text_input;
use crate::input::text_input::{InputView, TextInput};
use crate::request;
use crate::request::{GraphQlRequest, GraphQlView, Method, MethodView};
use crate::strings;
use vstd::prelude::*;
use vstd::string::*;

verus! {

/// What the GraphQL editors hold.
pub struct GraphQlEditorView {
    pub method: MethodView,
    pub query: EditorView,
    pub variables: EditorView,
    pub operation: InputView,
}

/// What is left of a text without the whitespace around it, or nothing.
pub open spec fn named(text: Seq<char>) -> Option<Seq<char>> {
    if strings::is_blank(text) {
        None
    } else {
        Some(strings::trimmed(text))
    }
}

impl GraphQlEditorView {
    pub open spec fn wf(self) -> bool {
        &&& self.query.wf()
        &&& self.variables.wf()
        &&& self.operation.wf()
    }

    /// The request the editors spell out. A blank operation name is none at all.
    pub open spec fn spec(self) -> GraphQlView {
        GraphQlView {
            method: self.method,
            query: self.query.surface.text,
            variables: self.variables.surface.text,
            operation: named(self.operation.surface.text),
        }
    }

    /// Whether anything has been typed. The operation name counts.
    pub open spec fn has_content(self) -> bool {
        ||| !strings::is_blank(self.query.surface.text)
        ||| !strings::is_blank(self.variables.surface.text)
        ||| !strings::is_blank(self.operation.surface.text)
    }
}

/// The editors a saved request is opened in.
pub open spec fn graphql_editor(graphql: GraphQlView) -> GraphQlEditorView {
    GraphQlEditorView {
        method: graphql.method,
        query: editor::fresh_editor(graphql.query, "query { … }"@),
        variables: editor::fresh_editor(graphql.variables, "{ }"@),
        operation: text_input::fresh_input(
            match graphql.operation {
                Some(name) => name,
                None => Seq::empty(),
            },
            "operation name"@,
            "GraphQlOperation"@,
        ),
    }
}

/// Everything a GraphQL request is edited through.
pub struct GraphQlEditor {
    /// POST as a rule; GET where the query is to be cached like any other page.
    pub method: Method,
    pub query: Editor,
    /// The variables, as JSON text.
    pub variables: Editor,
    pub operation: TextInput,
}

impl View for GraphQlEditor {
    type V = GraphQlEditorView;

    open spec fn view(&self) -> GraphQlEditorView {
        GraphQlEditorView {
            method: self.method@,
            query: self.query@,
            variables: self.variables@,
            operation: self.operation@,
        }
    }
}

impl GraphQlEditor {
    /// A blank request.
    pub fn new() -> (r: GraphQlEditor)
        ensures
            r@ == graphql_editor(request::blank_graphql()),
            r@.wf(),
    {
        GraphQlEditor::from_spec(&GraphQlRequest::default())
    }

    /// The editors a saved request is opened in.
    pub fn from_spec(graphql: &GraphQlRequest) -> (r: GraphQlEditor)
        ensures
            r@ == graphql_editor(graphql@),
            r@.wf(),
    {
        let operation = match &graphql.operation {
            Some(name) => name.clone(),
            None => String::new(),
        };
        GraphQlEditor {
            method: graphql.method.clone(),
            query: Editor::new(graphql.query.as_str(), "query { … }"),
            variables: Editor::new(graphql.variables.as_str(), "{ }"),
            operation: TextInput::new(operation.as_str(), "operation name", "GraphQlOperation"),
        }
    }

    /// Whether anything has been typed.
    pub fn has_content(&self) -> (r: bool)
        ensures
            r == self@.has_content(),
    {
        !strings::blank(self.query.text()) || !strings::blank(self.variables.text())
            || !strings::blank(self.operation.text())
    }

    /// The operation name, without the whitespace around it, unless it is blank.
    fn operation_name(&self) -> (r: Option<String>)
        ensures
            strings::opt_text(r) == named(self@.operation.surface.text),
    {
        let operation = strings::trim(self.operation.text());
        if operation.as_str().is_empty() {
            None
        } else {
            Some(operation)
        }
    }

    /// The request the editors spell out.
    pub fn to_spec(&self) -> (r: GraphQlRequest)
        ensures
            r@ == self@.spec(),
    {
        GraphQlRequest {
            method: self.method.clone(),
            query: self.query.text().to_owned(),
            variables: self.variables.text().to_owned(),
            operation: self.operation_name(),
        }
    }

    /// Whether the editors spell out anything but `base`.
    pub fn is_dirty(&self, base: &GraphQlRequest) -> (r: bool)
        ensures
            r == (self@.spec() != base@),
    {
        let same_operation = match (&self.operation_name(), &base.operation) {
            (Some(typed), Some(was)) => *typed == *was,
            (None, None) => true,
            _ => false,
        };
        !request::same_method(&self.method, &base.method) || !strings::same(
            self.query.text(),
            base.query.as_str(),
        ) || !strings::same(self.variables.text(), base.variables.as_str()) || !same_operation
    }

    /// The document editor.
    pub fn primary_editor(&self) -> (r: &Editor)
        ensures
            r@ == self@.query,
    {
        &self.query
    }
}

/// Whether the editors can hold a request as it is: an operation name is one line, not blank, and
/// has no whitespace around it.
pub open spec fn is_editable(graphql: GraphQlView) -> bool {
    graphql.operation matches Some(name) ==> {
        &&& text_input::is_single_line(name)
        &&& name.len() > 0
        &&& strings::trimmed(name) == name
    }
}

/// What is opened and not touched is written back as it was.
pub proof fn a_loaded_graphql_request_is_read_back(graphql: GraphQlView)
    requires
        is_editable(graphql),
    ensures
        graphql_editor(graphql).spec() == graphql,
{
    match graphql.operation {
        Some(name) => {
            text_input::lemma_single_line_stays(name);
        },
        None => {
            text_input::lemma_single_line_stays(Seq::empty());
        },
    }
}

/// The request is what the editors hold, text for text; an operation name is what is typed without
/// the whitespace around it, and none where nothing is.
pub proof fn the_request_is_what_the_editors_hold(editors: GraphQlEditorView)
    ensures
        editors.spec().method == editors.method,
        editors.spec().query == editors.query.surface.text,
        editors.spec().variables == editors.variables.surface.text,
        editors.spec().operation is None <==> strings::trimmed(
            editors.operation.surface.text,
        ).len() == 0,
        editors.spec().operation matches Some(name) ==> name == strings::trimmed(
            editors.operation.surface.text,
        ),
        editors.has_content() <==> {
            ||| strings::trimmed(editors.query.surface.text).len() > 0
            ||| strings::trimmed(editors.variables.surface.text).len() > 0
            ||| editors.spec().operation is Some
        },
{
}

} // verus!
