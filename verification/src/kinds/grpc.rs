//! Authoring a gRPC call: which schema, which method, and the request message.

use crate::input::editor;
use crate::input::editor::{Editor, EditorView};
use crate::input::text_input;
use crate::input::text_input::{InputView, TextInput};
use crate::request;
use crate::request::{GrpcRequest, GrpcView};
use crate::strings;
use vstd::prelude::*;
use vstd::string::*;

verus! {

/// A method of a service, as a schema describes it.
pub struct GrpcMethod {
    /// The service with its package.
    pub service: String,
    /// The bare name.
    pub name: String,
    pub client_streaming: bool,
    pub server_streaming: bool,
}

/// What the gRPC editors hold.
pub struct GrpcEditorView {
    pub proto: InputView,
    pub service: Seq<char>,
    pub method: Seq<char>,
    pub client_streaming: bool,
    pub server_streaming: bool,
    pub message: EditorView,
}

impl GrpcEditorView {
    pub open spec fn wf(self) -> bool {
        &&& self.proto.wf()
        &&& self.message.wf()
    }

    /// The call the editors spell out.
    pub open spec fn spec(self) -> GrpcView {
        GrpcView {
            proto: strings::trimmed(self.proto.surface.text),
            service: self.service,
            method: self.method,
            message: self.message.surface.text,
            client_streaming: self.client_streaming,
            server_streaming: self.server_streaming,
        }
    }

    /// Whether anything has been typed or chosen.
    pub open spec fn has_content(self) -> bool {
        ||| !strings::is_blank(self.proto.surface.text)
        ||| !strings::is_blank(self.service)
        ||| !strings::is_blank(self.method)
        ||| !strings::is_blank(self.message.surface.text)
    }

    /// The chosen method as a person writes it, if one is chosen.
    pub open spec fn chosen(self) -> Option<Seq<char>> {
        if strings::is_blank(self.service) || strings::is_blank(self.method) {
            None
        } else {
            Some(self.service + seq!['/'] + self.method)
        }
    }
}

/// The editors a saved call is opened in.
pub open spec fn grpc_editor(grpc: GrpcView) -> GrpcEditorView {
    GrpcEditorView {
        proto: text_input::fresh_input(grpc.proto, "greeter.proto"@, "GrpcProto"@),
        service: grpc.service,
        method: grpc.method,
        client_streaming: grpc.client_streaming,
        server_streaming: grpc.server_streaming,
        message: editor::fresh_editor(grpc.message, "{ \"name\": \"zuno\" }"@),
    }
}

/// Everything a gRPC call is edited through. The chosen method is kept as plain fields: it has to
/// survive a schema that is missing or does not compile.
pub struct GrpcEditor {
    pub proto: TextInput,
    pub service: String,
    pub method: String,
    pub client_streaming: bool,
    pub server_streaming: bool,
    pub message: Editor,
}

impl View for GrpcEditor {
    type V = GrpcEditorView;

    open spec fn view(&self) -> GrpcEditorView {
        GrpcEditorView {
            proto: self.proto@,
            service: self.service@,
            method: self.method@,
            client_streaming: self.client_streaming,
            server_streaming: self.server_streaming,
            message: self.message@,
        }
    }
}

impl GrpcEditor {
    /// A blank call.
    pub fn new() -> (r: GrpcEditor)
        ensures
            r@ == grpc_editor(request::blank_grpc()),
            r@.wf(),
    {
        GrpcEditor::from_spec(&GrpcRequest::default())
    }

    /// The editors a saved call is opened in.
    pub fn from_spec(grpc: &GrpcRequest) -> (r: GrpcEditor)
        ensures
            r@ == grpc_editor(grpc@),
            r@.wf(),
    {
        GrpcEditor {
            proto: TextInput::new(grpc.proto.as_str(), "greeter.proto", "GrpcProto"),
            service: grpc.service.clone(),
            method: grpc.method.clone(),
            client_streaming: grpc.client_streaming,
            server_streaming: grpc.server_streaming,
            message: Editor::new(grpc.message.as_str(), "{ \"name\": \"zuno\" }"),
        }
    }

    /// Record a method chosen from the schema, all of it at once: it is one fact.
    pub fn choose_method(&mut self, method: &GrpcMethod)
        ensures
            final(self)@ == (GrpcEditorView {
                service: method.service@,
                method: method.name@,
                client_streaming: method.client_streaming,
                server_streaming: method.server_streaming,
                ..old(self)@
            }),
    {
        self.service = method.service.clone();
        self.method = method.name.clone();
        self.client_streaming = method.client_streaming;
        self.server_streaming = method.server_streaming;
    }

    /// The chosen method as a person writes it, `helloworld.Greeter/SayHello`, if one is chosen.
    pub fn chosen(&self) -> (r: Option<String>)
        ensures
            strings::opt_text(r) == self@.chosen(),
    {
        if strings::blank(self.service.as_str()) || strings::blank(self.method.as_str()) {
            return None;
        }
        let mut name = self.service.clone();
        name.push('/');
        name.append(self.method.as_str());
        proof {
            assert(name@ =~= self.service@ + seq!['/'] + self.method@);
        }
        Some(name)
    }

    /// Whether more messages may be sent into an open call: only the client's half decides.
    pub fn sends_more(&self) -> (r: bool)
        ensures
            r == self@.client_streaming,
    {
        self.client_streaming
    }

    /// Whether anything has been typed or chosen.
    pub fn has_content(&self) -> (r: bool)
        ensures
            r == self@.has_content(),
    {
        !strings::blank(self.proto.text()) || !strings::blank(self.service.as_str())
            || !strings::blank(self.method.as_str()) || !strings::blank(self.message.text())
    }

    /// The call the editors spell out.
    pub fn to_spec(&self) -> (r: GrpcRequest)
        ensures
            r@ == self@.spec(),
    {
        GrpcRequest {
            proto: strings::trim(self.proto.text()),
            service: self.service.clone(),
            method: self.method.clone(),
            message: self.message.text().to_owned(),
            client_streaming: self.client_streaming,
            server_streaming: self.server_streaming,
        }
    }

    /// Whether the editors spell out anything but `base`.
    pub fn is_dirty(&self, base: &GrpcRequest) -> (r: bool)
        ensures
            r == (self@.spec() != base@),
    {
        strings::trim(self.proto.text()) != base.proto || self.service != base.service
            || self.method != base.method || !strings::same(
            self.message.text(),
            base.message.as_str(),
        ) || self.client_streaming != base.client_streaming || self.server_streaming
            != base.server_streaming
    }

    /// The message editor.
    pub fn primary_editor(&self) -> (r: &Editor)
        ensures
            r@ == self@.message,
    {
        &self.message
    }
}

/// What is opened and not touched is written back as it was, where the schema's name is one line
/// with no whitespace around it.
pub proof fn a_loaded_grpc_call_is_read_back(grpc: GrpcView)
    requires
        text_input::is_single_line(grpc.proto),
        strings::trimmed(grpc.proto) == grpc.proto,
    ensures
        grpc_editor(grpc).spec() == grpc,
{
    text_input::lemma_single_line_stays(grpc.proto);
}

/// The call is what the editors hold, and what was chosen is kept as it was chosen.
pub proof fn the_call_is_what_the_editors_hold(editors: GrpcEditorView)
    ensures
        editors.spec().proto == strings::trimmed(editors.proto.surface.text),
        editors.spec().service == editors.service,
        editors.spec().method == editors.method,
        editors.spec().message == editors.message.surface.text,
        editors.spec().client_streaming == editors.client_streaming,
        editors.spec().server_streaming == editors.server_streaming,
        !editors.has_content() <==> strings::trimmed(editors.proto.surface.text).len() == 0
            && strings::trimmed(editors.service).len() == 0 && strings::trimmed(
            editors.method,
        ).len() == 0 && strings::trimmed(editors.message.surface.text).len() == 0,
{
}

/// A method is chosen once both it and its service are, and reads as the service, a slash, and the
/// method.
pub proof fn a_chosen_method_names_both_halves(editors: GrpcEditorView)
    ensures
        editors.chosen() is Some <==> strings::trimmed(editors.service).len() > 0
            && strings::trimmed(editors.method).len() > 0,
        editors.chosen() matches Some(name) ==> strings::has_prefix(name, editors.service)
            && name.len() == editors.service.len() + 1 + editors.method.len()
            && name[editors.service.len() as int] == '/' && name.skip(
            (editors.service.len() + 1) as int,
        ) == editors.method,
{
    if let Some(name) = editors.chosen() {
        assert(name.subrange(0, editors.service.len() as int) =~= editors.service);
        assert(name.skip((editors.service.len() + 1) as int) =~= editors.method);
    }
}

} // verus!
