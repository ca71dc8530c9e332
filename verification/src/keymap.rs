//! The keymap: the one place that says what a key does.
//!
//! Order matters. A binding without a context ties with one that has a context, and the later of
//! the two wins; so what is scoped to an overlay stands after what works everywhere.

use crate::commands::Action;
use crate::strings;
use vstd::prelude::*;

verus! {

/// An edit or a movement in any text surface.
#[derive(Clone, Copy, Debug, PartialEq, Eq, Structural)]
pub enum TextAction {
    Backspace,
    Delete,
    Left,
    Right,
    SelectLeft,
    SelectRight,
    WordLeft,
    WordRight,
    SelectWordLeft,
    SelectWordRight,
    DeleteWordLeft,
    DeleteWordRight,
    DocStart,
    DocEnd,
    SelectDocStart,
    SelectDocEnd,
    Undo,
    Redo,
    Home,
    End,
    SelectHome,
    SelectEnd,
    SelectAll,
    Copy,
    Paste,
    Cut,
}

/// An edit or a movement that needs several lines.
#[derive(Clone, Copy, Debug, PartialEq, Eq, Structural)]
pub enum EditorAction {
    PageUp,
    PageDown,
    SelectPageUp,
    SelectPageDown,
    Up,
    Down,
    SelectUp,
    SelectDown,
    Newline,
}

/// What a key does.
#[derive(Clone, Copy, Debug, PartialEq, Eq, Structural)]
pub enum KeyAction {
    App(Action),
    Text(TextAction),
    Editor(EditorAction),
}

/// A key, what it does, and the context it does so in.
#[derive(Clone, Copy, Debug)]
pub struct Binding {
    pub keys: &'static str,
    pub action: KeyAction,
    pub context: Option<&'static str>,
}

/// What a `Binding` is.
pub struct BindingView {
    pub keys: Seq<char>,
    pub action: KeyAction,
    pub context: Option<Seq<char>>,
}

impl View for Binding {
    type V = BindingView;

    open spec fn view(&self) -> BindingView {
        BindingView {
            keys: self.keys@,
            action: self.action,
            context: strings::str_text(self.context),
        }
    }
}

/// What a list of bindings is.
pub open spec fn bindings_of(list: Seq<Binding>) -> Seq<BindingView> {
    list.map_values(|binding: Binding| binding@)
}

/// A key that works everywhere.
pub open spec fn anywhere(keys: Seq<char>, action: KeyAction) -> BindingView {
    BindingView { keys, action, context: None }
}

/// A key that works in a context.
pub open spec fn within(context: Seq<char>, keys: Seq<char>, action: KeyAction) -> BindingView {
    BindingView { keys, action, context: Some(context) }
}

fn bind(list: &mut Vec<Binding>, keys: &'static str, action: KeyAction)
    ensures
        bindings_of(final(list)@) == bindings_of(old(list)@).push(anywhere(keys@, action)),
{
    let ghost before = list@;
    list.push(Binding { keys, action, context: None });
    proof {
        assert(bindings_of(list@) =~= bindings_of(before).push(anywhere(keys@, action)));
    }
}

fn bind_in(list: &mut Vec<Binding>, context: &'static str, keys: &'static str, action: KeyAction)
    ensures
        bindings_of(final(list)@) == bindings_of(old(list)@).push(
            within(context@, keys@, action),
        ),
{
    let ghost before = list@;
    list.push(Binding { keys, action, context: Some(context) });
    proof {
        assert(bindings_of(list@) =~= bindings_of(before).push(within(context@, keys@, action)));
    }
}

/// The keys that work everywhere, and those of the response pane and the address bar.
pub open spec fn global_bindings() -> Seq<BindingView> {
    seq![
        anywhere("ctrl-l"@, KeyAction::App(Action::FocusUrl)),
        anywhere("ctrl-b"@, KeyAction::App(Action::FocusBody)),
        anywhere("ctrl-shift-r"@, KeyAction::App(Action::FocusResponse)),
        anywhere("tab"@, KeyAction::App(Action::FocusNext)),
        anywhere("shift-tab"@, KeyAction::App(Action::FocusPrev)),
        anywhere("ctrl-t"@, KeyAction::App(Action::NewTab)),
        anywhere("ctrl-w"@, KeyAction::App(Action::CloseTab)),
        anywhere("ctrl-tab"@, KeyAction::App(Action::NextTab)),
        anywhere("ctrl-shift-tab"@, KeyAction::App(Action::PrevTab)),
        anywhere("ctrl-m"@, KeyAction::App(Action::OpenMethod)),
        anywhere("ctrl-shift-h"@, KeyAction::App(Action::AddHeader)),
        anywhere("ctrl-shift-y"@, KeyAction::App(Action::AddQuery)),
        anywhere("alt-t"@, KeyAction::App(Action::ToggleRow)),
        anywhere("ctrl-shift-k"@, KeyAction::App(Action::RemoveRow)),
        anywhere("ctrl-shift-b"@, KeyAction::App(Action::OpenBodyType)),
        anywhere("ctrl-shift-f"@, KeyAction::App(Action::AddFormField)),
        anywhere("ctrl-shift-o"@, KeyAction::App(Action::ChooseBodyFile)),
        anywhere("ctrl-shift-m"@, KeyAction::App(Action::AddMultipartField)),
        anywhere("ctrl-shift-v"@, KeyAction::App(Action::ImportCurl)),
        anywhere("alt-q"@, KeyAction::App(Action::NextRequestTab)),
        anywhere("alt-shift-q"@, KeyAction::App(Action::PrevRequestTab)),
        anywhere("alt-r"@, KeyAction::App(Action::ToggleResponseView)),
        anywhere("alt-f"@, KeyAction::App(Action::FoldAll)),
        anywhere("alt-e"@, KeyAction::App(Action::UnfoldAll)),
        within("ResponsePane"@, "down"@, KeyAction::App(Action::ResponseRowNext)),
        within("ResponsePane"@, "up"@, KeyAction::App(Action::ResponseRowPrev)),
        within("ResponsePane"@, "ctrl-c"@, KeyAction::App(Action::CopyRowValue)),
        within("ResponsePane"@, "alt-c"@, KeyAction::App(Action::CopyRowPath)),
        anywhere("ctrl-shift-c"@, KeyAction::App(Action::CopyResponse)),
        anywhere("ctrl-shift-s"@, KeyAction::App(Action::SaveResponse)),
        anywhere("ctrl-shift-x"@, KeyAction::App(Action::CopyAsCurl)),
        anywhere("ctrl-s"@, KeyAction::App(Action::SaveRequest)),
        anywhere("ctrl-enter"@, KeyAction::App(Action::SendRequest)),
        within("UrlBar"@, "enter"@, KeyAction::App(Action::SendRequest)),
        anywhere("escape"@, KeyAction::App(Action::CancelRequest)),
        anywhere("ctrl-shift-t"@, KeyAction::App(Action::ToggleTheme)),
        anywhere("ctrl-q"@, KeyAction::App(Action::Quit)),
    ]
}

fn bind_global(list: &mut Vec<Binding>)
    ensures
        bindings_of(final(list)@) == bindings_of(old(list)@) + global_bindings(),
{
    let ghost before = bindings_of(list@);
    bind(list, "ctrl-l", KeyAction::App(Action::FocusUrl));
    bind(list, "ctrl-b", KeyAction::App(Action::FocusBody));
    bind(list, "ctrl-shift-r", KeyAction::App(Action::FocusResponse));
    bind(list, "tab", KeyAction::App(Action::FocusNext));
    bind(list, "shift-tab", KeyAction::App(Action::FocusPrev));
    bind(list, "ctrl-t", KeyAction::App(Action::NewTab));
    bind(list, "ctrl-w", KeyAction::App(Action::CloseTab));
    bind(list, "ctrl-tab", KeyAction::App(Action::NextTab));
    bind(list, "ctrl-shift-tab", KeyAction::App(Action::PrevTab));
    bind(list, "ctrl-m", KeyAction::App(Action::OpenMethod));
    bind(list, "ctrl-shift-h", KeyAction::App(Action::AddHeader));
    bind(list, "ctrl-shift-y", KeyAction::App(Action::AddQuery));
    bind(list, "alt-t", KeyAction::App(Action::ToggleRow));
    bind(list, "ctrl-shift-k", KeyAction::App(Action::RemoveRow));
    bind(list, "ctrl-shift-b", KeyAction::App(Action::OpenBodyType));
    bind(list, "ctrl-shift-f", KeyAction::App(Action::AddFormField));
    bind(list, "ctrl-shift-o", KeyAction::App(Action::ChooseBodyFile));
    bind(list, "ctrl-shift-m", KeyAction::App(Action::AddMultipartField));
    bind(list, "ctrl-shift-v", KeyAction::App(Action::ImportCurl));
    bind(list, "alt-q", KeyAction::App(Action::NextRequestTab));
    bind(list, "alt-shift-q", KeyAction::App(Action::PrevRequestTab));
    bind(list, "alt-r", KeyAction::App(Action::ToggleResponseView));
    bind(list, "alt-f", KeyAction::App(Action::FoldAll));
    bind(list, "alt-e", KeyAction::App(Action::UnfoldAll));
    bind_in(list, "ResponsePane", "down", KeyAction::App(Action::ResponseRowNext));
    bind_in(list, "ResponsePane", "up", KeyAction::App(Action::ResponseRowPrev));
    bind_in(list, "ResponsePane", "ctrl-c", KeyAction::App(Action::CopyRowValue));
    bind_in(list, "ResponsePane", "alt-c", KeyAction::App(Action::CopyRowPath));
    bind(list, "ctrl-shift-c", KeyAction::App(Action::CopyResponse));
    bind(list, "ctrl-shift-s", KeyAction::App(Action::SaveResponse));
    bind(list, "ctrl-shift-x", KeyAction::App(Action::CopyAsCurl));
    bind(list, "ctrl-s", KeyAction::App(Action::SaveRequest));
    bind(list, "ctrl-enter", KeyAction::App(Action::SendRequest));
    bind_in(list, "UrlBar", "enter", KeyAction::App(Action::SendRequest));
    bind(list, "escape", KeyAction::App(Action::CancelRequest));
    bind(list, "ctrl-shift-t", KeyAction::App(Action::ToggleTheme));
    bind(list, "ctrl-q", KeyAction::App(Action::Quit));
    proof {
        assert(bindings_of(list@) =~= before + global_bindings());
    }
}

/// The keys of the picker, the find bar and the settings panel, with those that open them.
pub open spec fn overlay_bindings() -> Seq<BindingView> {
    seq![
        anywhere("ctrl-p"@, KeyAction::App(Action::OpenRequest)),
        anywhere("ctrl-k"@, KeyAction::App(Action::OpenPalette)),
        anywhere("ctrl-e"@, KeyAction::App(Action::SwitchEnvironment)),
        anywhere("ctrl-h"@, KeyAction::App(Action::ShowHistory)),
        within("Picker"@, "down"@, KeyAction::App(Action::PickerNext)),
        within("Picker"@, "up"@, KeyAction::App(Action::PickerPrev)),
        within("Picker"@, "enter"@, KeyAction::App(Action::PickerConfirm)),
        within("Picker"@, "escape"@, KeyAction::App(Action::PickerDismiss)),
        anywhere("ctrl-f"@, KeyAction::App(Action::FindInResponse)),
        within("ResponseSearch"@, "enter"@, KeyAction::App(Action::FindNext)),
        within("ResponseSearch"@, "shift-enter"@, KeyAction::App(Action::FindPrev)),
        within("ResponseSearch"@, "escape"@, KeyAction::App(Action::CloseFind)),
        anywhere("ctrl-,"@, KeyAction::App(Action::OpenSettings)),
        within("SettingsPanel"@, "down"@, KeyAction::App(Action::SettingNext)),
        within("SettingsPanel"@, "up"@, KeyAction::App(Action::SettingPrev)),
        within("SettingsPanel"@, "right"@, KeyAction::App(Action::SettingIncrease)),
        within("SettingsPanel"@, "left"@, KeyAction::App(Action::SettingDecrease)),
        within("SettingsPanel"@, "enter"@, KeyAction::App(Action::SettingConfirm)),
        within("SettingsPanel"@, "escape"@, KeyAction::App(Action::SettingsDismiss)),
    ]
}

fn bind_overlay(list: &mut Vec<Binding>)
    ensures
        bindings_of(final(list)@) == bindings_of(old(list)@) + overlay_bindings(),
{
    let ghost before = bindings_of(list@);
    bind(list, "ctrl-p", KeyAction::App(Action::OpenRequest));
    bind(list, "ctrl-k", KeyAction::App(Action::OpenPalette));
    bind(list, "ctrl-e", KeyAction::App(Action::SwitchEnvironment));
    bind(list, "ctrl-h", KeyAction::App(Action::ShowHistory));
    bind_in(list, "Picker", "down", KeyAction::App(Action::PickerNext));
    bind_in(list, "Picker", "up", KeyAction::App(Action::PickerPrev));
    bind_in(list, "Picker", "enter", KeyAction::App(Action::PickerConfirm));
    bind_in(list, "Picker", "escape", KeyAction::App(Action::PickerDismiss));
    bind(list, "ctrl-f", KeyAction::App(Action::FindInResponse));
    bind_in(list, "ResponseSearch", "enter", KeyAction::App(Action::FindNext));
    bind_in(list, "ResponseSearch", "shift-enter", KeyAction::App(Action::FindPrev));
    bind_in(list, "ResponseSearch", "escape", KeyAction::App(Action::CloseFind));
    bind(list, "ctrl-,", KeyAction::App(Action::OpenSettings));
    bind_in(list, "SettingsPanel", "down", KeyAction::App(Action::SettingNext));
    bind_in(list, "SettingsPanel", "up", KeyAction::App(Action::SettingPrev));
    bind_in(list, "SettingsPanel", "right", KeyAction::App(Action::SettingIncrease));
    bind_in(list, "SettingsPanel", "left", KeyAction::App(Action::SettingDecrease));
    bind_in(list, "SettingsPanel", "enter", KeyAction::App(Action::SettingConfirm));
    bind_in(list, "SettingsPanel", "escape", KeyAction::App(Action::SettingsDismiss));
    proof {
        assert(bindings_of(list@) =~= before + overlay_bindings());
    }
}

/// The keys of a text surface.
pub open spec fn text_bindings() -> Seq<BindingView> {
    seq![
        within("TextInput"@, "backspace"@, KeyAction::Text(TextAction::Backspace)),
        within("TextInput"@, "delete"@, KeyAction::Text(TextAction::Delete)),
        within("TextInput"@, "left"@, KeyAction::Text(TextAction::Left)),
        within("TextInput"@, "right"@, KeyAction::Text(TextAction::Right)),
        within("TextInput"@, "shift-left"@, KeyAction::Text(TextAction::SelectLeft)),
        within("TextInput"@, "shift-right"@, KeyAction::Text(TextAction::SelectRight)),
        within("TextInput"@, "ctrl-left"@, KeyAction::Text(TextAction::WordLeft)),
        within("TextInput"@, "ctrl-right"@, KeyAction::Text(TextAction::WordRight)),
        within("TextInput"@, "ctrl-shift-left"@, KeyAction::Text(TextAction::SelectWordLeft)),
        within("TextInput"@, "ctrl-shift-right"@, KeyAction::Text(TextAction::SelectWordRight)),
        within("TextInput"@, "ctrl-backspace"@, KeyAction::Text(TextAction::DeleteWordLeft)),
        within("TextInput"@, "ctrl-delete"@, KeyAction::Text(TextAction::DeleteWordRight)),
        within("TextInput"@, "ctrl-home"@, KeyAction::Text(TextAction::DocStart)),
        within("TextInput"@, "ctrl-end"@, KeyAction::Text(TextAction::DocEnd)),
        within("TextInput"@, "ctrl-shift-home"@, KeyAction::Text(TextAction::SelectDocStart)),
        within("TextInput"@, "ctrl-shift-end"@, KeyAction::Text(TextAction::SelectDocEnd)),
        within("TextInput"@, "ctrl-z"@, KeyAction::Text(TextAction::Undo)),
        within("TextInput"@, "ctrl-shift-z"@, KeyAction::Text(TextAction::Redo)),
        within("TextInput"@, "ctrl-y"@, KeyAction::Text(TextAction::Redo)),
        within("BodyEditor"@, "pageup"@, KeyAction::Editor(EditorAction::PageUp)),
        within("BodyEditor"@, "pagedown"@, KeyAction::Editor(EditorAction::PageDown)),
        within("BodyEditor"@, "shift-pageup"@, KeyAction::Editor(EditorAction::SelectPageUp)),
        within("BodyEditor"@, "shift-pagedown"@, KeyAction::Editor(EditorAction::SelectPageDown)),
        within("TextInput"@, "home"@, KeyAction::Text(TextAction::Home)),
        within("TextInput"@, "end"@, KeyAction::Text(TextAction::End)),
        within("TextInput"@, "shift-home"@, KeyAction::Text(TextAction::SelectHome)),
        within("TextInput"@, "shift-end"@, KeyAction::Text(TextAction::SelectEnd)),
        within("TextInput"@, "ctrl-a"@, KeyAction::Text(TextAction::SelectAll)),
        within("TextInput"@, "ctrl-c"@, KeyAction::Text(TextAction::Copy)),
        within("TextInput"@, "ctrl-v"@, KeyAction::Text(TextAction::Paste)),
        within("TextInput"@, "ctrl-x"@, KeyAction::Text(TextAction::Cut)),
    ]
}

fn bind_text(list: &mut Vec<Binding>)
    ensures
        bindings_of(final(list)@) == bindings_of(old(list)@) + text_bindings(),
{
    let ghost before = bindings_of(list@);
    bind_in(list, "TextInput", "backspace", KeyAction::Text(TextAction::Backspace));
    bind_in(list, "TextInput", "delete", KeyAction::Text(TextAction::Delete));
    bind_in(list, "TextInput", "left", KeyAction::Text(TextAction::Left));
    bind_in(list, "TextInput", "right", KeyAction::Text(TextAction::Right));
    bind_in(list, "TextInput", "shift-left", KeyAction::Text(TextAction::SelectLeft));
    bind_in(list, "TextInput", "shift-right", KeyAction::Text(TextAction::SelectRight));
    bind_in(list, "TextInput", "ctrl-left", KeyAction::Text(TextAction::WordLeft));
    bind_in(list, "TextInput", "ctrl-right", KeyAction::Text(TextAction::WordRight));
    bind_in(list, "TextInput", "ctrl-shift-left", KeyAction::Text(TextAction::SelectWordLeft));
    bind_in(list, "TextInput", "ctrl-shift-right", KeyAction::Text(TextAction::SelectWordRight));
    bind_in(list, "TextInput", "ctrl-backspace", KeyAction::Text(TextAction::DeleteWordLeft));
    bind_in(list, "TextInput", "ctrl-delete", KeyAction::Text(TextAction::DeleteWordRight));
    bind_in(list, "TextInput", "ctrl-home", KeyAction::Text(TextAction::DocStart));
    bind_in(list, "TextInput", "ctrl-end", KeyAction::Text(TextAction::DocEnd));
    bind_in(list, "TextInput", "ctrl-shift-home", KeyAction::Text(TextAction::SelectDocStart));
    bind_in(list, "TextInput", "ctrl-shift-end", KeyAction::Text(TextAction::SelectDocEnd));
    bind_in(list, "TextInput", "ctrl-z", KeyAction::Text(TextAction::Undo));
    bind_in(list, "TextInput", "ctrl-shift-z", KeyAction::Text(TextAction::Redo));
    bind_in(list, "TextInput", "ctrl-y", KeyAction::Text(TextAction::Redo));
    bind_in(list, "BodyEditor", "pageup", KeyAction::Editor(EditorAction::PageUp));
    bind_in(list, "BodyEditor", "pagedown", KeyAction::Editor(EditorAction::PageDown));
    bind_in(list, "BodyEditor", "shift-pageup", KeyAction::Editor(EditorAction::SelectPageUp));
    bind_in(list, "BodyEditor", "shift-pagedown", KeyAction::Editor(EditorAction::SelectPageDown));
    bind_in(list, "TextInput", "home", KeyAction::Text(TextAction::Home));
    bind_in(list, "TextInput", "end", KeyAction::Text(TextAction::End));
    bind_in(list, "TextInput", "shift-home", KeyAction::Text(TextAction::SelectHome));
    bind_in(list, "TextInput", "shift-end", KeyAction::Text(TextAction::SelectEnd));
    bind_in(list, "TextInput", "ctrl-a", KeyAction::Text(TextAction::SelectAll));
    bind_in(list, "TextInput", "ctrl-c", KeyAction::Text(TextAction::Copy));
    bind_in(list, "TextInput", "ctrl-v", KeyAction::Text(TextAction::Paste));
    bind_in(list, "TextInput", "ctrl-x", KeyAction::Text(TextAction::Cut));
    proof {
        assert(bindings_of(list@) =~= before + text_bindings());
    }
}

/// The keys of text of several lines.
pub open spec fn editor_bindings() -> Seq<BindingView> {
    seq![
        within("BodyEditor"@, "up"@, KeyAction::Editor(EditorAction::Up)),
        within("BodyEditor"@, "down"@, KeyAction::Editor(EditorAction::Down)),
        within("BodyEditor"@, "shift-up"@, KeyAction::Editor(EditorAction::SelectUp)),
        within("BodyEditor"@, "shift-down"@, KeyAction::Editor(EditorAction::SelectDown)),
        within("BodyEditor"@, "enter"@, KeyAction::Editor(EditorAction::Newline)),
    ]
}

fn bind_editor(list: &mut Vec<Binding>)
    ensures
        bindings_of(final(list)@) == bindings_of(old(list)@) + editor_bindings(),
{
    let ghost before = bindings_of(list@);
    bind_in(list, "BodyEditor", "up", KeyAction::Editor(EditorAction::Up));
    bind_in(list, "BodyEditor", "down", KeyAction::Editor(EditorAction::Down));
    bind_in(list, "BodyEditor", "shift-up", KeyAction::Editor(EditorAction::SelectUp));
    bind_in(list, "BodyEditor", "shift-down", KeyAction::Editor(EditorAction::SelectDown));
    bind_in(list, "BodyEditor", "enter", KeyAction::Editor(EditorAction::Newline));
    proof {
        assert(bindings_of(list@) =~= before + editor_bindings());
    }
}

/// Every binding, in the order they are registered.
pub fn keymap() -> (r: Vec<Binding>)
    ensures
        bindings_of(r@) == global_bindings() + overlay_bindings() + text_bindings()
            + editor_bindings(),
{
    let mut r: Vec<Binding> = Vec::new();
    bind_global(&mut r);
    bind_overlay(&mut r);
    bind_text(&mut r);
    bind_editor(&mut r);
    proof {
        assert(bindings_of(r@) =~= global_bindings() + overlay_bindings() + text_bindings()
            + editor_bindings());
    }
    r
}

/// A verb of the window answers to its keys, wherever they work, and to no others.
pub proof fn the_keys_of_the_window_do_what_they_are_for(binding: BindingView)
    ensures
        global_bindings().contains(binding) <==> (match binding.action {
            KeyAction::App(Action::FocusUrl) => binding.keys == "ctrl-l"@ && binding.context is None,
            KeyAction::App(Action::FocusBody) => binding.keys == "ctrl-b"@ && binding.context is None,
            KeyAction::App(Action::FocusResponse) => binding.keys == "ctrl-shift-r"@ && binding.context is None,
            KeyAction::App(Action::FocusNext) => binding.keys == "tab"@ && binding.context is None,
            KeyAction::App(Action::FocusPrev) => binding.keys == "shift-tab"@ && binding.context is None,
            KeyAction::App(Action::NewTab) => binding.keys == "ctrl-t"@ && binding.context is None,
            KeyAction::App(Action::CloseTab) => binding.keys == "ctrl-w"@ && binding.context is None,
            KeyAction::App(Action::NextTab) => binding.keys == "ctrl-tab"@ && binding.context is None,
            KeyAction::App(Action::PrevTab) => binding.keys == "ctrl-shift-tab"@ && binding.context is None,
            KeyAction::App(Action::OpenMethod) => binding.keys == "ctrl-m"@ && binding.context is None,
            KeyAction::App(Action::AddHeader) => binding.keys == "ctrl-shift-h"@ && binding.context is None,
            KeyAction::App(Action::AddQuery) => binding.keys == "ctrl-shift-y"@ && binding.context is None,
            KeyAction::App(Action::ToggleRow) => binding.keys == "alt-t"@ && binding.context is None,
            KeyAction::App(Action::RemoveRow) => binding.keys == "ctrl-shift-k"@ && binding.context is None,
            KeyAction::App(Action::OpenBodyType) => binding.keys == "ctrl-shift-b"@ && binding.context is None,
            KeyAction::App(Action::AddFormField) => binding.keys == "ctrl-shift-f"@ && binding.context is None,
            KeyAction::App(Action::ChooseBodyFile) => binding.keys == "ctrl-shift-o"@ && binding.context is None,
            KeyAction::App(Action::AddMultipartField) => binding.keys == "ctrl-shift-m"@ && binding.context is None,
            KeyAction::App(Action::ImportCurl) => binding.keys == "ctrl-shift-v"@ && binding.context is None,
            KeyAction::App(Action::NextRequestTab) => binding.keys == "alt-q"@ && binding.context is None,
            KeyAction::App(Action::PrevRequestTab) => binding.keys == "alt-shift-q"@ && binding.context is None,
            KeyAction::App(Action::ToggleResponseView) => binding.keys == "alt-r"@ && binding.context is None,
            KeyAction::App(Action::FoldAll) => binding.keys == "alt-f"@ && binding.context is None,
            KeyAction::App(Action::UnfoldAll) => binding.keys == "alt-e"@ && binding.context is None,
            KeyAction::App(Action::ResponseRowNext) => binding.keys == "down"@ && binding.context == Some("ResponsePane"@),
            KeyAction::App(Action::ResponseRowPrev) => binding.keys == "up"@ && binding.context == Some("ResponsePane"@),
            KeyAction::App(Action::CopyRowValue) => binding.keys == "ctrl-c"@ && binding.context == Some("ResponsePane"@),
            KeyAction::App(Action::CopyRowPath) => binding.keys == "alt-c"@ && binding.context == Some("ResponsePane"@),
            KeyAction::App(Action::CopyResponse) => binding.keys == "ctrl-shift-c"@ && binding.context is None,
            KeyAction::App(Action::SaveResponse) => binding.keys == "ctrl-shift-s"@ && binding.context is None,
            KeyAction::App(Action::CopyAsCurl) => binding.keys == "ctrl-shift-x"@ && binding.context is None,
            KeyAction::App(Action::SaveRequest) => binding.keys == "ctrl-s"@ && binding.context is None,
            KeyAction::App(Action::SendRequest) => (binding.keys == "ctrl-enter"@ && binding.context is None) || (binding.keys == "enter"@ && binding.context == Some("UrlBar"@)),
            KeyAction::App(Action::CancelRequest) => binding.keys == "escape"@ && binding.context is None,
            KeyAction::App(Action::ToggleTheme) => binding.keys == "ctrl-shift-t"@ && binding.context is None,
            KeyAction::App(Action::Quit) => binding.keys == "ctrl-q"@ && binding.context is None,
            _ => false,
        }),
{
    let all = global_bindings();
    match binding.action {
        KeyAction::App(Action::FocusUrl) => {
            assert(all[0] == anywhere("ctrl-l"@, binding.action));
        },
        KeyAction::App(Action::FocusBody) => {
            assert(all[1] == anywhere("ctrl-b"@, binding.action));
        },
        KeyAction::App(Action::FocusResponse) => {
            assert(all[2] == anywhere("ctrl-shift-r"@, binding.action));
        },
        KeyAction::App(Action::FocusNext) => {
            assert(all[3] == anywhere("tab"@, binding.action));
        },
        KeyAction::App(Action::FocusPrev) => {
            assert(all[4] == anywhere("shift-tab"@, binding.action));
        },
        KeyAction::App(Action::NewTab) => {
            assert(all[5] == anywhere("ctrl-t"@, binding.action));
        },
        KeyAction::App(Action::CloseTab) => {
            assert(all[6] == anywhere("ctrl-w"@, binding.action));
        },
        KeyAction::App(Action::NextTab) => {
            assert(all[7] == anywhere("ctrl-tab"@, binding.action));
        },
        KeyAction::App(Action::PrevTab) => {
            assert(all[8] == anywhere("ctrl-shift-tab"@, binding.action));
        },
        KeyAction::App(Action::OpenMethod) => {
            assert(all[9] == anywhere("ctrl-m"@, binding.action));
        },
        KeyAction::App(Action::AddHeader) => {
            assert(all[10] == anywhere("ctrl-shift-h"@, binding.action));
        },
        KeyAction::App(Action::AddQuery) => {
            assert(all[11] == anywhere("ctrl-shift-y"@, binding.action));
        },
        KeyAction::App(Action::ToggleRow) => {
            assert(all[12] == anywhere("alt-t"@, binding.action));
        },
        KeyAction::App(Action::RemoveRow) => {
            assert(all[13] == anywhere("ctrl-shift-k"@, binding.action));
        },
        KeyAction::App(Action::OpenBodyType) => {
            assert(all[14] == anywhere("ctrl-shift-b"@, binding.action));
        },
        KeyAction::App(Action::AddFormField) => {
            assert(all[15] == anywhere("ctrl-shift-f"@, binding.action));
        },
        KeyAction::App(Action::ChooseBodyFile) => {
            assert(all[16] == anywhere("ctrl-shift-o"@, binding.action));
        },
        KeyAction::App(Action::AddMultipartField) => {
            assert(all[17] == anywhere("ctrl-shift-m"@, binding.action));
        },
        KeyAction::App(Action::ImportCurl) => {
            assert(all[18] == anywhere("ctrl-shift-v"@, binding.action));
        },
        KeyAction::App(Action::NextRequestTab) => {
            assert(all[19] == anywhere("alt-q"@, binding.action));
        },
        KeyAction::App(Action::PrevRequestTab) => {
            assert(all[20] == anywhere("alt-shift-q"@, binding.action));
        },
        KeyAction::App(Action::ToggleResponseView) => {
            assert(all[21] == anywhere("alt-r"@, binding.action));
        },
        KeyAction::App(Action::FoldAll) => {
            assert(all[22] == anywhere("alt-f"@, binding.action));
        },
        KeyAction::App(Action::UnfoldAll) => {
            assert(all[23] == anywhere("alt-e"@, binding.action));
        },
        KeyAction::App(Action::ResponseRowNext) => {
            assert(all[24] == within("ResponsePane"@, "down"@, binding.action));
        },
        KeyAction::App(Action::ResponseRowPrev) => {
            assert(all[25] == within("ResponsePane"@, "up"@, binding.action));
        },
        KeyAction::App(Action::CopyRowValue) => {
            assert(all[26] == within("ResponsePane"@, "ctrl-c"@, binding.action));
        },
        KeyAction::App(Action::CopyRowPath) => {
            assert(all[27] == within("ResponsePane"@, "alt-c"@, binding.action));
        },
        KeyAction::App(Action::CopyResponse) => {
            assert(all[28] == anywhere("ctrl-shift-c"@, binding.action));
        },
        KeyAction::App(Action::SaveResponse) => {
            assert(all[29] == anywhere("ctrl-shift-s"@, binding.action));
        },
        KeyAction::App(Action::CopyAsCurl) => {
            assert(all[30] == anywhere("ctrl-shift-x"@, binding.action));
        },
        KeyAction::App(Action::SaveRequest) => {
            assert(all[31] == anywhere("ctrl-s"@, binding.action));
        },
        KeyAction::App(Action::SendRequest) => {
            assert(all[32] == anywhere("ctrl-enter"@, binding.action));
            assert(all[33] == within("UrlBar"@, "enter"@, binding.action));
        },
        KeyAction::App(Action::CancelRequest) => {
            assert(all[34] == anywhere("escape"@, binding.action));
        },
        KeyAction::App(Action::ToggleTheme) => {
            assert(all[35] == anywhere("ctrl-shift-t"@, binding.action));
        },
        KeyAction::App(Action::Quit) => {
            assert(all[36] == anywhere("ctrl-q"@, binding.action));
        },
        _ => {},
    }
}

/// A verb of an overlay answers to its keys inside it, the verbs that open one answer everywhere,
/// and neither answers to others.
pub proof fn the_keys_of_an_overlay_do_what_they_are_for(binding: BindingView)
    ensures
        overlay_bindings().contains(binding) <==> (match binding.action {
            KeyAction::App(Action::OpenRequest) => binding.keys == "ctrl-p"@ && binding.context is None,
            KeyAction::App(Action::OpenPalette) => binding.keys == "ctrl-k"@ && binding.context is None,
            KeyAction::App(Action::SwitchEnvironment) => binding.keys == "ctrl-e"@ && binding.context is None,
            KeyAction::App(Action::ShowHistory) => binding.keys == "ctrl-h"@ && binding.context is None,
            KeyAction::App(Action::PickerNext) => binding.keys == "down"@ && binding.context == Some("Picker"@),
            KeyAction::App(Action::PickerPrev) => binding.keys == "up"@ && binding.context == Some("Picker"@),
            KeyAction::App(Action::PickerConfirm) => binding.keys == "enter"@ && binding.context == Some("Picker"@),
            KeyAction::App(Action::PickerDismiss) => binding.keys == "escape"@ && binding.context == Some("Picker"@),
            KeyAction::App(Action::FindInResponse) => binding.keys == "ctrl-f"@ && binding.context is None,
            KeyAction::App(Action::FindNext) => binding.keys == "enter"@ && binding.context == Some("ResponseSearch"@),
            KeyAction::App(Action::FindPrev) => binding.keys == "shift-enter"@ && binding.context == Some("ResponseSearch"@),
            KeyAction::App(Action::CloseFind) => binding.keys == "escape"@ && binding.context == Some("ResponseSearch"@),
            KeyAction::App(Action::OpenSettings) => binding.keys == "ctrl-,"@ && binding.context is None,
            KeyAction::App(Action::SettingNext) => binding.keys == "down"@ && binding.context == Some("SettingsPanel"@),
            KeyAction::App(Action::SettingPrev) => binding.keys == "up"@ && binding.context == Some("SettingsPanel"@),
            KeyAction::App(Action::SettingIncrease) => binding.keys == "right"@ && binding.context == Some("SettingsPanel"@),
            KeyAction::App(Action::SettingDecrease) => binding.keys == "left"@ && binding.context == Some("SettingsPanel"@),
            KeyAction::App(Action::SettingConfirm) => binding.keys == "enter"@ && binding.context == Some("SettingsPanel"@),
            KeyAction::App(Action::SettingsDismiss) => binding.keys == "escape"@ && binding.context == Some("SettingsPanel"@),
            _ => false,
        }),
{
    let all = overlay_bindings();
    match binding.action {
        KeyAction::App(Action::OpenRequest) => {
            assert(all[0] == anywhere("ctrl-p"@, binding.action));
        },
        KeyAction::App(Action::OpenPalette) => {
            assert(all[1] == anywhere("ctrl-k"@, binding.action));
        },
        KeyAction::App(Action::SwitchEnvironment) => {
            assert(all[2] == anywhere("ctrl-e"@, binding.action));
        },
        KeyAction::App(Action::ShowHistory) => {
            assert(all[3] == anywhere("ctrl-h"@, binding.action));
        },
        KeyAction::App(Action::PickerNext) => {
            assert(all[4] == within("Picker"@, "down"@, binding.action));
        },
        KeyAction::App(Action::PickerPrev) => {
            assert(all[5] == within("Picker"@, "up"@, binding.action));
        },
        KeyAction::App(Action::PickerConfirm) => {
            assert(all[6] == within("Picker"@, "enter"@, binding.action));
        },
        KeyAction::App(Action::PickerDismiss) => {
            assert(all[7] == within("Picker"@, "escape"@, binding.action));
        },
        KeyAction::App(Action::FindInResponse) => {
            assert(all[8] == anywhere("ctrl-f"@, binding.action));
        },
        KeyAction::App(Action::FindNext) => {
            assert(all[9] == within("ResponseSearch"@, "enter"@, binding.action));
        },
        KeyAction::App(Action::FindPrev) => {
            assert(all[10] == within("ResponseSearch"@, "shift-enter"@, binding.action));
        },
        KeyAction::App(Action::CloseFind) => {
            assert(all[11] == within("ResponseSearch"@, "escape"@, binding.action));
        },
        KeyAction::App(Action::OpenSettings) => {
            assert(all[12] == anywhere("ctrl-,"@, binding.action));
        },
        KeyAction::App(Action::SettingNext) => {
            assert(all[13] == within("SettingsPanel"@, "down"@, binding.action));
        },
        KeyAction::App(Action::SettingPrev) => {
            assert(all[14] == within("SettingsPanel"@, "up"@, binding.action));
        },
        KeyAction::App(Action::SettingIncrease) => {
            assert(all[15] == within("SettingsPanel"@, "right"@, binding.action));
        },
        KeyAction::App(Action::SettingDecrease) => {
            assert(all[16] == within("SettingsPanel"@, "left"@, binding.action));
        },
        KeyAction::App(Action::SettingConfirm) => {
            assert(all[17] == within("SettingsPanel"@, "enter"@, binding.action));
        },
        KeyAction::App(Action::SettingsDismiss) => {
            assert(all[18] == within("SettingsPanel"@, "escape"@, binding.action));
        },
        _ => {},
    }
}

/// A movement or an edit of a text answers to its keys, and to no others.
pub proof fn the_keys_of_a_text_do_what_they_are_for(binding: BindingView)
    ensures
        text_bindings().contains(binding) <==> (match binding.action {
            KeyAction::Text(TextAction::Backspace) => binding.keys == "backspace"@ && binding.context == Some("TextInput"@),
            KeyAction::Text(TextAction::Delete) => binding.keys == "delete"@ && binding.context == Some("TextInput"@),
            KeyAction::Text(TextAction::Left) => binding.keys == "left"@ && binding.context == Some("TextInput"@),
            KeyAction::Text(TextAction::Right) => binding.keys == "right"@ && binding.context == Some("TextInput"@),
            KeyAction::Text(TextAction::SelectLeft) => binding.keys == "shift-left"@ && binding.context == Some("TextInput"@),
            KeyAction::Text(TextAction::SelectRight) => binding.keys == "shift-right"@ && binding.context == Some("TextInput"@),
            KeyAction::Text(TextAction::WordLeft) => binding.keys == "ctrl-left"@ && binding.context == Some("TextInput"@),
            KeyAction::Text(TextAction::WordRight) => binding.keys == "ctrl-right"@ && binding.context == Some("TextInput"@),
            KeyAction::Text(TextAction::SelectWordLeft) => binding.keys == "ctrl-shift-left"@ && binding.context == Some("TextInput"@),
            KeyAction::Text(TextAction::SelectWordRight) => binding.keys == "ctrl-shift-right"@ && binding.context == Some("TextInput"@),
            KeyAction::Text(TextAction::DeleteWordLeft) => binding.keys == "ctrl-backspace"@ && binding.context == Some("TextInput"@),
            KeyAction::Text(TextAction::DeleteWordRight) => binding.keys == "ctrl-delete"@ && binding.context == Some("TextInput"@),
            KeyAction::Text(TextAction::DocStart) => binding.keys == "ctrl-home"@ && binding.context == Some("TextInput"@),
            KeyAction::Text(TextAction::DocEnd) => binding.keys == "ctrl-end"@ && binding.context == Some("TextInput"@),
            KeyAction::Text(TextAction::SelectDocStart) => binding.keys == "ctrl-shift-home"@ && binding.context == Some("TextInput"@),
            KeyAction::Text(TextAction::SelectDocEnd) => binding.keys == "ctrl-shift-end"@ && binding.context == Some("TextInput"@),
            KeyAction::Text(TextAction::Undo) => binding.keys == "ctrl-z"@ && binding.context == Some("TextInput"@),
            KeyAction::Text(TextAction::Redo) => (binding.keys == "ctrl-shift-z"@ && binding.context == Some("TextInput"@)) || (binding.keys == "ctrl-y"@ && binding.context == Some("TextInput"@)),
            KeyAction::Editor(EditorAction::PageUp) => binding.keys == "pageup"@ && binding.context == Some("BodyEditor"@),
            KeyAction::Editor(EditorAction::PageDown) => binding.keys == "pagedown"@ && binding.context == Some("BodyEditor"@),
            KeyAction::Editor(EditorAction::SelectPageUp) => binding.keys == "shift-pageup"@ && binding.context == Some("BodyEditor"@),
            KeyAction::Editor(EditorAction::SelectPageDown) => binding.keys == "shift-pagedown"@ && binding.context == Some("BodyEditor"@),
            KeyAction::Text(TextAction::Home) => binding.keys == "home"@ && binding.context == Some("TextInput"@),
            KeyAction::Text(TextAction::End) => binding.keys == "end"@ && binding.context == Some("TextInput"@),
            KeyAction::Text(TextAction::SelectHome) => binding.keys == "shift-home"@ && binding.context == Some("TextInput"@),
            KeyAction::Text(TextAction::SelectEnd) => binding.keys == "shift-end"@ && binding.context == Some("TextInput"@),
            KeyAction::Text(TextAction::SelectAll) => binding.keys == "ctrl-a"@ && binding.context == Some("TextInput"@),
            KeyAction::Text(TextAction::Copy) => binding.keys == "ctrl-c"@ && binding.context == Some("TextInput"@),
            KeyAction::Text(TextAction::Paste) => binding.keys == "ctrl-v"@ && binding.context == Some("TextInput"@),
            KeyAction::Text(TextAction::Cut) => binding.keys == "ctrl-x"@ && binding.context == Some("TextInput"@),
            _ => false,
        }),
{
    let all = text_bindings();
    match binding.action {
        KeyAction::Text(TextAction::Backspace) => {
            assert(all[0] == within("TextInput"@, "backspace"@, binding.action));
        },
        KeyAction::Text(TextAction::Delete) => {
            assert(all[1] == within("TextInput"@, "delete"@, binding.action));
        },
        KeyAction::Text(TextAction::Left) => {
            assert(all[2] == within("TextInput"@, "left"@, binding.action));
        },
        KeyAction::Text(TextAction::Right) => {
            assert(all[3] == within("TextInput"@, "right"@, binding.action));
        },
        KeyAction::Text(TextAction::SelectLeft) => {
            assert(all[4] == within("TextInput"@, "shift-left"@, binding.action));
        },
        KeyAction::Text(TextAction::SelectRight) => {
            assert(all[5] == within("TextInput"@, "shift-right"@, binding.action));
        },
        KeyAction::Text(TextAction::WordLeft) => {
            assert(all[6] == within("TextInput"@, "ctrl-left"@, binding.action));
        },
        KeyAction::Text(TextAction::WordRight) => {
            assert(all[7] == within("TextInput"@, "ctrl-right"@, binding.action));
        },
        KeyAction::Text(TextAction::SelectWordLeft) => {
            assert(all[8] == within("TextInput"@, "ctrl-shift-left"@, binding.action));
        },
        KeyAction::Text(TextAction::SelectWordRight) => {
            assert(all[9] == within("TextInput"@, "ctrl-shift-right"@, binding.action));
        },
        KeyAction::Text(TextAction::DeleteWordLeft) => {
            assert(all[10] == within("TextInput"@, "ctrl-backspace"@, binding.action));
        },
        KeyAction::Text(TextAction::DeleteWordRight) => {
            assert(all[11] == within("TextInput"@, "ctrl-delete"@, binding.action));
        },
        KeyAction::Text(TextAction::DocStart) => {
            assert(all[12] == within("TextInput"@, "ctrl-home"@, binding.action));
        },
        KeyAction::Text(TextAction::DocEnd) => {
            assert(all[13] == within("TextInput"@, "ctrl-end"@, binding.action));
        },
        KeyAction::Text(TextAction::SelectDocStart) => {
            assert(all[14] == within("TextInput"@, "ctrl-shift-home"@, binding.action));
        },
        KeyAction::Text(TextAction::SelectDocEnd) => {
            assert(all[15] == within("TextInput"@, "ctrl-shift-end"@, binding.action));
        },
        KeyAction::Text(TextAction::Undo) => {
            assert(all[16] == within("TextInput"@, "ctrl-z"@, binding.action));
        },
        KeyAction::Text(TextAction::Redo) => {
            assert(all[17] == within("TextInput"@, "ctrl-shift-z"@, binding.action));
            assert(all[18] == within("TextInput"@, "ctrl-y"@, binding.action));
        },
        KeyAction::Editor(EditorAction::PageUp) => {
            assert(all[19] == within("BodyEditor"@, "pageup"@, binding.action));
        },
        KeyAction::Editor(EditorAction::PageDown) => {
            assert(all[20] == within("BodyEditor"@, "pagedown"@, binding.action));
        },
        KeyAction::Editor(EditorAction::SelectPageUp) => {
            assert(all[21] == within("BodyEditor"@, "shift-pageup"@, binding.action));
        },
        KeyAction::Editor(EditorAction::SelectPageDown) => {
            assert(all[22] == within("BodyEditor"@, "shift-pagedown"@, binding.action));
        },
        KeyAction::Text(TextAction::Home) => {
            assert(all[23] == within("TextInput"@, "home"@, binding.action));
        },
        KeyAction::Text(TextAction::End) => {
            assert(all[24] == within("TextInput"@, "end"@, binding.action));
        },
        KeyAction::Text(TextAction::SelectHome) => {
            assert(all[25] == within("TextInput"@, "shift-home"@, binding.action));
        },
        KeyAction::Text(TextAction::SelectEnd) => {
            assert(all[26] == within("TextInput"@, "shift-end"@, binding.action));
        },
        KeyAction::Text(TextAction::SelectAll) => {
            assert(all[27] == within("TextInput"@, "ctrl-a"@, binding.action));
        },
        KeyAction::Text(TextAction::Copy) => {
            assert(all[28] == within("TextInput"@, "ctrl-c"@, binding.action));
        },
        KeyAction::Text(TextAction::Paste) => {
            assert(all[29] == within("TextInput"@, "ctrl-v"@, binding.action));
        },
        KeyAction::Text(TextAction::Cut) => {
            assert(all[30] == within("TextInput"@, "ctrl-x"@, binding.action));
        },
        _ => {},
    }
}

/// A movement between lines answers to its keys, and to no others.
pub proof fn the_keys_of_several_lines_do_what_they_are_for(binding: BindingView)
    ensures
        editor_bindings().contains(binding) <==> (match binding.action {
            KeyAction::Editor(EditorAction::Up) => binding.keys == "up"@ && binding.context == Some("BodyEditor"@),
            KeyAction::Editor(EditorAction::Down) => binding.keys == "down"@ && binding.context == Some("BodyEditor"@),
            KeyAction::Editor(EditorAction::SelectUp) => binding.keys == "shift-up"@ && binding.context == Some("BodyEditor"@),
            KeyAction::Editor(EditorAction::SelectDown) => binding.keys == "shift-down"@ && binding.context == Some("BodyEditor"@),
            KeyAction::Editor(EditorAction::Newline) => binding.keys == "enter"@ && binding.context == Some("BodyEditor"@),
            _ => false,
        }),
{
    let all = editor_bindings();
    match binding.action {
        KeyAction::Editor(EditorAction::Up) => {
            assert(all[0] == within("BodyEditor"@, "up"@, binding.action));
        },
        KeyAction::Editor(EditorAction::Down) => {
            assert(all[1] == within("BodyEditor"@, "down"@, binding.action));
        },
        KeyAction::Editor(EditorAction::SelectUp) => {
            assert(all[2] == within("BodyEditor"@, "shift-up"@, binding.action));
        },
        KeyAction::Editor(EditorAction::SelectDown) => {
            assert(all[3] == within("BodyEditor"@, "shift-down"@, binding.action));
        },
        KeyAction::Editor(EditorAction::Newline) => {
            assert(all[4] == within("BodyEditor"@, "enter"@, binding.action));
        },
        _ => {},
    }
}

} // verus!
