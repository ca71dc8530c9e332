//! The palette and the keymap.

use std::collections::BTreeSet;
use zuno::commands::{palette, Action};
use zuno::keymap::{keymap, Binding, EditorAction, KeyAction, TextAction};

const ACTIONS: [Action; 104] = [
    Action::FocusUrl,
    Action::FocusBody,
    Action::FocusResponse,
    Action::FocusNext,
    Action::FocusPrev,
    Action::OpenRequest,
    Action::SwitchEnvironment,
    Action::ShowHistory,
    Action::OpenPalette,
    Action::OpenAppMenu,
    Action::PickerNext,
    Action::PickerPrev,
    Action::PickerConfirm,
    Action::PickerDismiss,
    Action::ToggleCollectionPanel,
    Action::CollectionNext,
    Action::CollectionPrev,
    Action::CollectionConfirm,
    Action::CollectionCollapse,
    Action::CollectionExpand,
    Action::CollectionCollapseAll,
    Action::CollectionExpandAll,
    Action::OpenCollectionMenu,
    Action::DeleteRequest,
    Action::ConfirmDeleteRequest,
    Action::TrashRequest,
    Action::DuplicateRequest,
    Action::RevealRequest,
    Action::OpenRequestExternally,
    Action::CopyRequestPath,
    Action::CopyRequestRelativePath,
    Action::RenameRequest,
    Action::CommitRename,
    Action::CancelRename,
    Action::NewFolder,
    Action::MoveRequest,
    Action::ImportOpenApi,
    Action::ImportConfirm,
    Action::ImportDismiss,
    Action::NewTab,
    Action::CloseTab,
    Action::NextTab,
    Action::PrevTab,
    Action::OpenMethod,
    Action::AddHeader,
    Action::AddQuery,
    Action::ToggleRow,
    Action::RemoveRow,
    Action::OpenBodyType,
    Action::AddFormField,
    Action::ChooseBodyFile,
    Action::AddMultipartField,
    Action::ImportCurl,
    Action::NextRequestTab,
    Action::PrevRequestTab,
    Action::ShowHeadersTab,
    Action::ShowParamsTab,
    Action::ShowBodyTab,
    Action::ToggleResponseView,
    Action::FindInResponse,
    Action::FindNext,
    Action::FindPrev,
    Action::CloseFind,
    Action::FindInBody,
    Action::BodyFindNext,
    Action::BodyFindPrev,
    Action::CloseBodyFind,
    Action::ReplaceNext,
    Action::ReplaceAll,
    Action::FoldAll,
    Action::UnfoldAll,
    Action::ResponseRowNext,
    Action::ResponseRowPrev,
    Action::ScrollLeft,
    Action::ScrollRight,
    Action::ScrollStart,
    Action::ToggleFold,
    Action::CopyRowValue,
    Action::CopyRowPath,
    Action::OpenRowMenu,
    Action::MenuNext,
    Action::MenuPrev,
    Action::MenuConfirm,
    Action::MenuDismiss,
    Action::CopyResponse,
    Action::SaveResponse,
    Action::CopyAsCurl,
    Action::OpenSettings,
    Action::SettingNext,
    Action::SettingPrev,
    Action::SettingIncrease,
    Action::SettingDecrease,
    Action::SettingConfirm,
    Action::SettingsDismiss,
    Action::ClearCookies,
    Action::SaveRequest,
    Action::SendRequest,
    Action::CancelRequest,
    Action::ToggleTheme,
    Action::Quit,
    Action::ConfirmClose,
    Action::CancelClose,
    Action::CloseChoiceNext,
    Action::CloseChoicePrev,
];

#[test]
fn labels_are_unique_and_readable() {
    let mut seen = BTreeSet::new();
    for command in palette() {
        assert!(
            seen.insert(command.label),
            "duplicate label {:?} — two rows would be indistinguishable",
            command.label
        );
        assert!(
            command.label.contains(' ') || command.label == "Quit",
            "{:?} reads like a type name, not a command",
            command.label
        );
        assert!(
            !command.label.ends_with('.'),
            "{:?} should not end in a period",
            command.label
        );
    }
}

#[test]
fn every_action_is_either_in_the_palette_or_deliberately_excluded() {
    let offered: Vec<Action> = palette().iter().map(|command| command.action).collect();
    for action in ACTIONS {
        assert!(
            offered.contains(&action) != action.exclusion().is_some(),
            "{action:?} is neither in the palette nor excluded, or both"
        );
        assert_eq!(offered.contains(&action), action.label().is_some());
    }
    for action in offered {
        assert!(ACTIONS.contains(&action), "the palette offers {action:?}, which is no action");
    }
}

#[test]
fn a_palette_row_is_called_what_its_action_is() {
    let commands = palette();
    assert!(commands.iter().all(|command| command.action.label() == Some(command.label)));
    let send = commands.iter().find(|command| command.action == Action::SendRequest);
    assert_eq!(send.map(|command| command.label), Some("Send request"));
}

fn bound(keys: &str, context: Option<&str>) -> Vec<KeyAction> {
    keymap()
        .iter()
        .filter(|binding| binding.keys == keys && binding.context == context)
        .map(|binding| binding.action)
        .collect()
}

#[test]
fn keys_do_one_thing_in_one_place() {
    let all: Vec<Binding> = keymap();
    let mut seen = BTreeSet::new();
    for binding in &all {
        assert!(
            seen.insert((binding.keys, binding.context)),
            "{:?} is bound twice in {:?}",
            binding.keys,
            binding.context
        );
    }
    assert_eq!(bound("ctrl-q", None), vec![KeyAction::App(Action::Quit)]);
    assert_eq!(bound("backspace", Some("TextInput")), vec![KeyAction::Text(TextAction::Backspace)]);
    assert_eq!(bound("enter", Some("BodyEditor")), vec![KeyAction::Editor(EditorAction::Newline)]);
}

#[test]
fn what_is_scoped_stands_after_what_is_not() {
    let all = keymap();
    for (at, binding) in all.iter().enumerate() {
        if binding.context.is_some() {
            for later in &all[at..] {
                assert!(
                    later.context.is_some() || later.keys != binding.keys,
                    "{:?} everywhere would beat the one in {:?}",
                    binding.keys,
                    binding.context
                );
            }
        }
    }
}
