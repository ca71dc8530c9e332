//! The commands: every verb of the application, those the palette offers by name, and why the
//! rest are kept out of it.

use crate::strings;
use vstd::prelude::*;

verus! {

/// A verb of the application.
#[derive(Clone, Copy, Debug, PartialEq, Eq, Structural)]
pub enum Action {
    FocusUrl,
    FocusBody,
    FocusResponse,
    FocusNext,
    FocusPrev,
    OpenRequest,
    SwitchEnvironment,
    ShowHistory,
    OpenPalette,
    OpenAppMenu,
    PickerNext,
    PickerPrev,
    PickerConfirm,
    PickerDismiss,
    ToggleCollectionPanel,
    CollectionNext,
    CollectionPrev,
    CollectionConfirm,
    CollectionCollapse,
    CollectionExpand,
    CollectionCollapseAll,
    CollectionExpandAll,
    OpenCollectionMenu,
    DeleteRequest,
    ConfirmDeleteRequest,
    TrashRequest,
    DuplicateRequest,
    RevealRequest,
    OpenRequestExternally,
    CopyRequestPath,
    CopyRequestRelativePath,
    RenameRequest,
    CommitRename,
    CancelRename,
    NewFolder,
    MoveRequest,
    ImportOpenApi,
    ImportConfirm,
    ImportDismiss,
    NewTab,
    CloseTab,
    NextTab,
    PrevTab,
    OpenMethod,
    AddHeader,
    AddQuery,
    ToggleRow,
    RemoveRow,
    OpenBodyType,
    AddFormField,
    ChooseBodyFile,
    AddMultipartField,
    ImportCurl,
    NextRequestTab,
    PrevRequestTab,
    ShowHeadersTab,
    ShowParamsTab,
    ShowBodyTab,
    ToggleResponseView,
    FindInResponse,
    FindNext,
    FindPrev,
    CloseFind,
    FindInBody,
    BodyFindNext,
    BodyFindPrev,
    CloseBodyFind,
    ReplaceNext,
    ReplaceAll,
    FoldAll,
    UnfoldAll,
    ResponseRowNext,
    ResponseRowPrev,
    ScrollLeft,
    ScrollRight,
    ScrollStart,
    ToggleFold,
    CopyRowValue,
    CopyRowPath,
    OpenRowMenu,
    MenuNext,
    MenuPrev,
    MenuConfirm,
    MenuDismiss,
    CopyResponse,
    SaveResponse,
    CopyAsCurl,
    OpenSettings,
    SettingNext,
    SettingPrev,
    SettingIncrease,
    SettingDecrease,
    SettingConfirm,
    SettingsDismiss,
    ClearCookies,
    SaveRequest,
    SendRequest,
    CancelRequest,
    ToggleTheme,
    Quit,
    ConfirmClose,
    CancelClose,
    CloseChoiceNext,
    CloseChoicePrev,
}

/// One row of the palette.
#[derive(Clone, Copy, Debug)]
pub struct Command {
    /// Phrased as what it does.
    pub label: &'static str,
    pub action: Action,
}

impl Action {
    /// What the palette calls a verb; nothing for one it does not offer.
    pub open spec fn spec_label(self) -> Option<Seq<char>> {
        match self {
            Action::SendRequest => Some("Send request"@),
            Action::CancelRequest => Some("Cancel request"@),
            Action::SaveRequest => Some("Save request to collection"@),
            Action::ImportCurl => Some("Import request from curl on the clipboard"@),
            Action::ImportOpenApi => Some("Import from an OpenAPI spec"@),
            Action::OpenRequest => Some("Find request"@),
            Action::ToggleCollectionPanel => Some("Show or hide the collection panel"@),
            Action::NewFolder => Some("New folder in collection"@),
            Action::CollectionCollapseAll => Some("Collapse all folders"@),
            Action::CollectionExpandAll => Some("Expand all folders"@),
            Action::SwitchEnvironment => Some("Switch environment"@),
            Action::NewTab => Some("New tab"@),
            Action::CloseTab => Some("Close tab"@),
            Action::NextTab => Some("Next tab"@),
            Action::PrevTab => Some("Previous tab"@),
            Action::AddHeader => Some("Add header"@),
            Action::AddQuery => Some("Add query parameter"@),
            Action::ToggleRow => Some("Toggle focused row"@),
            Action::RemoveRow => Some("Remove focused row"@),
            Action::OpenMethod => Some("Change method"@),
            Action::OpenBodyType => Some("Change body type"@),
            Action::AddFormField => Some("Add form field"@),
            Action::ShowHeadersTab => Some("Show request headers"@),
            Action::ShowParamsTab => Some("Show request params"@),
            Action::ShowBodyTab => Some("Show request body"@),
            Action::NextRequestTab => Some("Next request tab"@),
            Action::PrevRequestTab => Some("Previous request tab"@),
            Action::AddMultipartField => Some("Add multipart part"@),
            Action::ChooseBodyFile => Some("Attach a file to the body"@),
            Action::FocusUrl => Some("Focus URL"@),
            Action::FocusBody => Some("Focus body"@),
            Action::FocusResponse => Some("Focus response"@),
            Action::CopyResponse => Some("Copy response body"@),
            Action::SaveResponse => Some("Save response body to a file"@),
            Action::CopyAsCurl => Some("Copy request as a curl command"@),
            Action::ShowHistory => Some("Show response history"@),
            Action::ToggleResponseView => Some("Switch between response body and headers"@),
            Action::FindInResponse => Some("Find in response"@),
            Action::FindInBody => Some("Find and replace in request body"@),
            Action::FoldAll => Some("Fold all"@),
            Action::UnfoldAll => Some("Unfold all"@),
            Action::CopyRowValue => Some("Copy selected row's value"@),
            Action::CopyRowPath => Some("Copy selected row's path"@),
            Action::ToggleFold => Some("Fold or unfold the selected row"@),
            Action::OpenSettings => Some("Request settings"@),
            Action::ClearCookies => Some("Clear stored cookies"@),
            Action::ToggleTheme => Some("Toggle theme"@),
            Action::Quit => Some("Quit"@),
            _ => None,
        }
    }

    /// Why a verb is kept out of the palette; nothing for one it offers.
    pub open spec fn spec_exclusion(self) -> Option<Seq<char>> {
        match self {
            Action::PickerNext => Some("only valid inside the picker"@),
            Action::PickerPrev => Some("only valid inside the picker"@),
            Action::PickerConfirm => Some("only valid inside the picker"@),
            Action::PickerDismiss => Some("only valid inside the picker"@),
            Action::OpenPalette => Some("this is the palette"@),
            Action::OpenAppMenu => Some("a menu reached from the palette is backwards"@),
            Action::SettingNext => Some("only valid inside the settings panel"@),
            Action::SettingPrev => Some("only valid inside the settings panel"@),
            Action::SettingIncrease => Some("only valid inside the settings panel"@),
            Action::SettingDecrease => Some("only valid inside the settings panel"@),
            Action::SettingConfirm => Some("only valid inside the settings panel"@),
            Action::SettingsDismiss => Some("only valid inside the settings panel"@),
            Action::ConfirmClose => Some("only valid inside the unsaved-changes prompt"@),
            Action::CancelClose => Some("only valid inside the unsaved-changes prompt"@),
            Action::CloseChoiceNext => Some("only valid inside the unsaved-changes prompt"@),
            Action::CloseChoicePrev => Some("only valid inside the unsaved-changes prompt"@),
            Action::FindNext => Some("only valid inside the find bar"@),
            Action::FindPrev => Some("only valid inside the find bar"@),
            Action::CloseFind => Some("only valid inside the find bar"@),
            Action::BodyFindNext => Some("only valid inside the body find bar"@),
            Action::BodyFindPrev => Some("only valid inside the body find bar"@),
            Action::CloseBodyFind => Some("only valid inside the body find bar"@),
            Action::ReplaceNext => Some("only valid inside the body find bar"@),
            Action::ReplaceAll => Some("only valid inside the body find bar"@),
            Action::OpenCollectionMenu => Some("needs a selected row in the collection panel"@),
            Action::DeleteRequest => Some("acts on the panel's selection, which the palette cannot show"@),
            Action::ConfirmDeleteRequest => Some("only valid inside the delete confirmation"@),
            Action::TrashRequest => Some("acts on the panel's selection, which the palette cannot show"@),
            Action::DuplicateRequest => Some("acts on the panel's selection, which the palette cannot show"@),
            Action::RevealRequest => Some("acts on the panel's selection, which the palette cannot show"@),
            Action::OpenRequestExternally => Some("acts on the panel's selection, which the palette cannot show"@),
            Action::CopyRequestPath => Some("acts on the panel's selection, which the palette cannot show"@),
            Action::CopyRequestRelativePath => Some("acts on the panel's selection, which the palette cannot show"@),
            Action::RenameRequest => Some("acts on the panel's selection, which the palette cannot show"@),
            Action::MoveRequest => Some("acts on the panel's selection, which the palette cannot show"@),
            Action::CommitRename => Some("only valid while renaming a row"@),
            Action::ImportConfirm => Some("only valid inside the import dialog"@),
            Action::ImportDismiss => Some("only valid inside the import dialog"@),
            Action::CancelRename => Some("only valid while renaming a row"@),
            Action::CollectionNext => Some("only valid inside the collection panel"@),
            Action::CollectionPrev => Some("only valid inside the collection panel"@),
            Action::CollectionConfirm => Some("only valid inside the collection panel"@),
            Action::CollectionCollapse => Some("only valid inside the collection panel"@),
            Action::CollectionExpand => Some("only valid inside the collection panel"@),
            Action::OpenRowMenu => Some("needs a click position; its items are all offered directly"@),
            Action::MenuNext => Some("only valid inside the row menu"@),
            Action::MenuPrev => Some("only valid inside the row menu"@),
            Action::MenuConfirm => Some("only valid inside the row menu"@),
            Action::MenuDismiss => Some("only valid inside the row menu"@),
            Action::ResponseRowNext => Some("cursor movement; the arrow keys are the interface"@),
            Action::ResponseRowPrev => Some("cursor movement; the arrow keys are the interface"@),
            Action::ScrollLeft => Some("view movement; the arrow keys are the interface"@),
            Action::ScrollRight => Some("view movement; the arrow keys are the interface"@),
            Action::ScrollStart => Some("view movement; the arrow keys are the interface"@),
            Action::FocusNext => Some("keystroke-only; no meaningful name"@),
            Action::FocusPrev => Some("keystroke-only; no meaningful name"@),
            _ => None,
        }
    }

    /// What the palette calls a verb.
    pub fn label(self) -> (r: Option<&'static str>)
        ensures
            self.spec_label() == strings::str_text(r),
    {
        match self {
            Action::SendRequest => Some("Send request"),
            Action::CancelRequest => Some("Cancel request"),
            Action::SaveRequest => Some("Save request to collection"),
            Action::ImportCurl => Some("Import request from curl on the clipboard"),
            Action::ImportOpenApi => Some("Import from an OpenAPI spec"),
            Action::OpenRequest => Some("Find request"),
            Action::ToggleCollectionPanel => Some("Show or hide the collection panel"),
            Action::NewFolder => Some("New folder in collection"),
            Action::CollectionCollapseAll => Some("Collapse all folders"),
            Action::CollectionExpandAll => Some("Expand all folders"),
            Action::SwitchEnvironment => Some("Switch environment"),
            Action::NewTab => Some("New tab"),
            Action::CloseTab => Some("Close tab"),
            Action::NextTab => Some("Next tab"),
            Action::PrevTab => Some("Previous tab"),
            Action::AddHeader => Some("Add header"),
            Action::AddQuery => Some("Add query parameter"),
            Action::ToggleRow => Some("Toggle focused row"),
            Action::RemoveRow => Some("Remove focused row"),
            Action::OpenMethod => Some("Change method"),
            Action::OpenBodyType => Some("Change body type"),
            Action::AddFormField => Some("Add form field"),
            Action::ShowHeadersTab => Some("Show request headers"),
            Action::ShowParamsTab => Some("Show request params"),
            Action::ShowBodyTab => Some("Show request body"),
            Action::NextRequestTab => Some("Next request tab"),
            Action::PrevRequestTab => Some("Previous request tab"),
            Action::AddMultipartField => Some("Add multipart part"),
            Action::ChooseBodyFile => Some("Attach a file to the body"),
            Action::FocusUrl => Some("Focus URL"),
            Action::FocusBody => Some("Focus body"),
            Action::FocusResponse => Some("Focus response"),
            Action::CopyResponse => Some("Copy response body"),
            Action::SaveResponse => Some("Save response body to a file"),
            Action::CopyAsCurl => Some("Copy request as a curl command"),
            Action::ShowHistory => Some("Show response history"),
            Action::ToggleResponseView => Some("Switch between response body and headers"),
            Action::FindInResponse => Some("Find in response"),
            Action::FindInBody => Some("Find and replace in request body"),
            Action::FoldAll => Some("Fold all"),
            Action::UnfoldAll => Some("Unfold all"),
            Action::CopyRowValue => Some("Copy selected row's value"),
            Action::CopyRowPath => Some("Copy selected row's path"),
            Action::ToggleFold => Some("Fold or unfold the selected row"),
            Action::OpenSettings => Some("Request settings"),
            Action::ClearCookies => Some("Clear stored cookies"),
            Action::ToggleTheme => Some("Toggle theme"),
            Action::Quit => Some("Quit"),
            _ => None,
        }
    }

    /// Why a verb is kept out of the palette.
    pub fn exclusion(self) -> (r: Option<&'static str>)
        ensures
            self.spec_exclusion() == strings::str_text(r),
    {
        match self {
            Action::PickerNext => Some("only valid inside the picker"),
            Action::PickerPrev => Some("only valid inside the picker"),
            Action::PickerConfirm => Some("only valid inside the picker"),
            Action::PickerDismiss => Some("only valid inside the picker"),
            Action::OpenPalette => Some("this is the palette"),
            Action::OpenAppMenu => Some("a menu reached from the palette is backwards"),
            Action::SettingNext => Some("only valid inside the settings panel"),
            Action::SettingPrev => Some("only valid inside the settings panel"),
            Action::SettingIncrease => Some("only valid inside the settings panel"),
            Action::SettingDecrease => Some("only valid inside the settings panel"),
            Action::SettingConfirm => Some("only valid inside the settings panel"),
            Action::SettingsDismiss => Some("only valid inside the settings panel"),
            Action::ConfirmClose => Some("only valid inside the unsaved-changes prompt"),
            Action::CancelClose => Some("only valid inside the unsaved-changes prompt"),
            Action::CloseChoiceNext => Some("only valid inside the unsaved-changes prompt"),
            Action::CloseChoicePrev => Some("only valid inside the unsaved-changes prompt"),
            Action::FindNext => Some("only valid inside the find bar"),
            Action::FindPrev => Some("only valid inside the find bar"),
            Action::CloseFind => Some("only valid inside the find bar"),
            Action::BodyFindNext => Some("only valid inside the body find bar"),
            Action::BodyFindPrev => Some("only valid inside the body find bar"),
            Action::CloseBodyFind => Some("only valid inside the body find bar"),
            Action::ReplaceNext => Some("only valid inside the body find bar"),
            Action::ReplaceAll => Some("only valid inside the body find bar"),
            Action::OpenCollectionMenu => Some("needs a selected row in the collection panel"),
            Action::DeleteRequest => Some("acts on the panel's selection, which the palette cannot show"),
            Action::ConfirmDeleteRequest => Some("only valid inside the delete confirmation"),
            Action::TrashRequest => Some("acts on the panel's selection, which the palette cannot show"),
            Action::DuplicateRequest => Some("acts on the panel's selection, which the palette cannot show"),
            Action::RevealRequest => Some("acts on the panel's selection, which the palette cannot show"),
            Action::OpenRequestExternally => Some("acts on the panel's selection, which the palette cannot show"),
            Action::CopyRequestPath => Some("acts on the panel's selection, which the palette cannot show"),
            Action::CopyRequestRelativePath => Some("acts on the panel's selection, which the palette cannot show"),
            Action::RenameRequest => Some("acts on the panel's selection, which the palette cannot show"),
            Action::MoveRequest => Some("acts on the panel's selection, which the palette cannot show"),
            Action::CommitRename => Some("only valid while renaming a row"),
            Action::ImportConfirm => Some("only valid inside the import dialog"),
            Action::ImportDismiss => Some("only valid inside the import dialog"),
            Action::CancelRename => Some("only valid while renaming a row"),
            Action::CollectionNext => Some("only valid inside the collection panel"),
            Action::CollectionPrev => Some("only valid inside the collection panel"),
            Action::CollectionConfirm => Some("only valid inside the collection panel"),
            Action::CollectionCollapse => Some("only valid inside the collection panel"),
            Action::CollectionExpand => Some("only valid inside the collection panel"),
            Action::OpenRowMenu => Some("needs a click position; its items are all offered directly"),
            Action::MenuNext => Some("only valid inside the row menu"),
            Action::MenuPrev => Some("only valid inside the row menu"),
            Action::MenuConfirm => Some("only valid inside the row menu"),
            Action::MenuDismiss => Some("only valid inside the row menu"),
            Action::ResponseRowNext => Some("cursor movement; the arrow keys are the interface"),
            Action::ResponseRowPrev => Some("cursor movement; the arrow keys are the interface"),
            Action::ScrollLeft => Some("view movement; the arrow keys are the interface"),
            Action::ScrollRight => Some("view movement; the arrow keys are the interface"),
            Action::ScrollStart => Some("view movement; the arrow keys are the interface"),
            Action::FocusNext => Some("keystroke-only; no meaningful name"),
            Action::FocusPrev => Some("keystroke-only; no meaningful name"),
            _ => None,
        }
    }
}

/// The verbs the palette offers, in its order: by how often they are reached for.
pub open spec fn offered() -> Seq<Action> {
    seq![
        Action::SendRequest,
        Action::CancelRequest,
        Action::SaveRequest,
        Action::ImportCurl,
        Action::ImportOpenApi,
        Action::OpenRequest,
        Action::ToggleCollectionPanel,
        Action::NewFolder,
        Action::CollectionCollapseAll,
        Action::CollectionExpandAll,
        Action::SwitchEnvironment,
        Action::NewTab,
        Action::CloseTab,
        Action::NextTab,
        Action::PrevTab,
        Action::AddHeader,
        Action::AddQuery,
        Action::ToggleRow,
        Action::RemoveRow,
        Action::OpenMethod,
        Action::OpenBodyType,
        Action::AddFormField,
        Action::ShowHeadersTab,
        Action::ShowParamsTab,
        Action::ShowBodyTab,
        Action::NextRequestTab,
        Action::PrevRequestTab,
        Action::AddMultipartField,
        Action::ChooseBodyFile,
        Action::FocusUrl,
        Action::FocusBody,
        Action::FocusResponse,
        Action::CopyResponse,
        Action::SaveResponse,
        Action::CopyAsCurl,
        Action::ShowHistory,
        Action::ToggleResponseView,
        Action::FindInResponse,
        Action::FindInBody,
        Action::FoldAll,
        Action::UnfoldAll,
        Action::CopyRowValue,
        Action::CopyRowPath,
        Action::ToggleFold,
        Action::OpenSettings,
        Action::ClearCookies,
        Action::ToggleTheme,
        Action::Quit,
    ]
}

/// The verbs of a list of commands.
pub open spec fn actions_of(commands: Seq<Command>) -> Seq<Action> {
    commands.map_values(|command: Command| command.action)
}

/// Add a verb to a list, under the name the palette has for it.
fn offer(commands: &mut Vec<Command>, action: Action)
    requires
        action.spec_label() is Some,
        all_labelled(old(commands)@),
    ensures
        actions_of(final(commands)@) == actions_of(old(commands)@).push(action),
        all_labelled(final(commands)@),
{
    if let Some(label) = action.label() {
        let ghost before = commands@;
        commands.push(Command { label, action });
        proof {
            assert(actions_of(commands@) =~= actions_of(before).push(action));
        }
    }
}

/// Every command stands under the name the palette has for its verb.
pub open spec fn all_labelled(commands: Seq<Command>) -> bool {
    forall|i: int|
        0 <= i < commands.len() ==> (#[trigger] commands[i]).action.spec_label() == Some(
            commands[i].label@,
        )
}

/// Every command the palette offers, in the order it offers them.
pub fn palette() -> (r: Vec<Command>)
    ensures
        actions_of(r@) == offered(),
        all_labelled(r@),
{
    let mut r: Vec<Command> = Vec::new();
    offer(&mut r, Action::SendRequest);
    offer(&mut r, Action::CancelRequest);
    offer(&mut r, Action::SaveRequest);
    offer(&mut r, Action::ImportCurl);
    offer(&mut r, Action::ImportOpenApi);
    offer(&mut r, Action::OpenRequest);
    offer(&mut r, Action::ToggleCollectionPanel);
    offer(&mut r, Action::NewFolder);
    offer(&mut r, Action::CollectionCollapseAll);
    offer(&mut r, Action::CollectionExpandAll);
    offer(&mut r, Action::SwitchEnvironment);
    offer(&mut r, Action::NewTab);
    offer(&mut r, Action::CloseTab);
    offer(&mut r, Action::NextTab);
    offer(&mut r, Action::PrevTab);
    offer(&mut r, Action::AddHeader);
    offer(&mut r, Action::AddQuery);
    offer(&mut r, Action::ToggleRow);
    offer(&mut r, Action::RemoveRow);
    offer(&mut r, Action::OpenMethod);
    offer(&mut r, Action::OpenBodyType);
    offer(&mut r, Action::AddFormField);
    offer(&mut r, Action::ShowHeadersTab);
    offer(&mut r, Action::ShowParamsTab);
    offer(&mut r, Action::ShowBodyTab);
    offer(&mut r, Action::NextRequestTab);
    offer(&mut r, Action::PrevRequestTab);
    offer(&mut r, Action::AddMultipartField);
    offer(&mut r, Action::ChooseBodyFile);
    offer(&mut r, Action::FocusUrl);
    offer(&mut r, Action::FocusBody);
    offer(&mut r, Action::FocusResponse);
    offer(&mut r, Action::CopyResponse);
    offer(&mut r, Action::SaveResponse);
    offer(&mut r, Action::CopyAsCurl);
    offer(&mut r, Action::ShowHistory);
    offer(&mut r, Action::ToggleResponseView);
    offer(&mut r, Action::FindInResponse);
    offer(&mut r, Action::FindInBody);
    offer(&mut r, Action::FoldAll);
    offer(&mut r, Action::UnfoldAll);
    offer(&mut r, Action::CopyRowValue);
    offer(&mut r, Action::CopyRowPath);
    offer(&mut r, Action::ToggleFold);
    offer(&mut r, Action::OpenSettings);
    offer(&mut r, Action::ClearCookies);
    offer(&mut r, Action::ToggleTheme);
    offer(&mut r, Action::Quit);
    proof {
        assert(actions_of(r@) =~= offered());
    }
    r
}

/// Every verb is either offered by the palette or kept out of it for a reason, never both and
/// never neither.
pub proof fn every_action_is_offered_or_excluded(action: Action)
    ensures
        action.spec_label() is Some <==> action.spec_exclusion() is None,
        offered().contains(action) <==> action.spec_label() is Some,
{
    match action {
        Action::SendRequest => {
            assert(offered()[0] == action);
        },
        Action::CancelRequest => {
            assert(offered()[1] == action);
        },
        Action::SaveRequest => {
            assert(offered()[2] == action);
        },
        Action::ImportCurl => {
            assert(offered()[3] == action);
        },
        Action::ImportOpenApi => {
            assert(offered()[4] == action);
        },
        Action::OpenRequest => {
            assert(offered()[5] == action);
        },
        Action::ToggleCollectionPanel => {
            assert(offered()[6] == action);
        },
        Action::NewFolder => {
            assert(offered()[7] == action);
        },
        Action::CollectionCollapseAll => {
            assert(offered()[8] == action);
        },
        Action::CollectionExpandAll => {
            assert(offered()[9] == action);
        },
        Action::SwitchEnvironment => {
            assert(offered()[10] == action);
        },
        Action::NewTab => {
            assert(offered()[11] == action);
        },
        Action::CloseTab => {
            assert(offered()[12] == action);
        },
        Action::NextTab => {
            assert(offered()[13] == action);
        },
        Action::PrevTab => {
            assert(offered()[14] == action);
        },
        Action::AddHeader => {
            assert(offered()[15] == action);
        },
        Action::AddQuery => {
            assert(offered()[16] == action);
        },
        Action::ToggleRow => {
            assert(offered()[17] == action);
        },
        Action::RemoveRow => {
            assert(offered()[18] == action);
        },
        Action::OpenMethod => {
            assert(offered()[19] == action);
        },
        Action::OpenBodyType => {
            assert(offered()[20] == action);
        },
        Action::AddFormField => {
            assert(offered()[21] == action);
        },
        Action::ShowHeadersTab => {
            assert(offered()[22] == action);
        },
        Action::ShowParamsTab => {
            assert(offered()[23] == action);
        },
        Action::ShowBodyTab => {
            assert(offered()[24] == action);
        },
        Action::NextRequestTab => {
            assert(offered()[25] == action);
        },
        Action::PrevRequestTab => {
            assert(offered()[26] == action);
        },
        Action::AddMultipartField => {
            assert(offered()[27] == action);
        },
        Action::ChooseBodyFile => {
            assert(offered()[28] == action);
        },
        Action::FocusUrl => {
            assert(offered()[29] == action);
        },
        Action::FocusBody => {
            assert(offered()[30] == action);
        },
        Action::FocusResponse => {
            assert(offered()[31] == action);
        },
        Action::CopyResponse => {
            assert(offered()[32] == action);
        },
        Action::SaveResponse => {
            assert(offered()[33] == action);
        },
        Action::CopyAsCurl => {
            assert(offered()[34] == action);
        },
        Action::ShowHistory => {
            assert(offered()[35] == action);
        },
        Action::ToggleResponseView => {
            assert(offered()[36] == action);
        },
        Action::FindInResponse => {
            assert(offered()[37] == action);
        },
        Action::FindInBody => {
            assert(offered()[38] == action);
        },
        Action::FoldAll => {
            assert(offered()[39] == action);
        },
        Action::UnfoldAll => {
            assert(offered()[40] == action);
        },
        Action::CopyRowValue => {
            assert(offered()[41] == action);
        },
        Action::CopyRowPath => {
            assert(offered()[42] == action);
        },
        Action::ToggleFold => {
            assert(offered()[43] == action);
        },
        Action::OpenSettings => {
            assert(offered()[44] == action);
        },
        Action::ClearCookies => {
            assert(offered()[45] == action);
        },
        Action::ToggleTheme => {
            assert(offered()[46] == action);
        },
        Action::Quit => {
            assert(offered()[47] == action);
        },
        _ => {
            lemma_offered_are_labelled(action);
        },
    }
}

proof fn lemma_offered_are_labelled(action: Action)
    requires
        action.spec_label() is None,
    ensures
        !offered().contains(action),
{
    if offered().contains(action) {
        let i = choose|i: int| 0 <= i < offered().len() && offered()[i] == action;
        assert(offered()[i].spec_label() is Some);
    }
}

/// No verb is offered twice.
pub proof fn no_action_is_offered_twice()
    ensures
        offered().no_duplicates(),
{
}

} // verus!
