//! The panels and overlays.

use zuno::app_state::Appearance;
use zuno::cert_panel::{entry, is_identity, name_of, CertPanel, Row, TlsFiles};
use zuno::chrome::{
    bar_press, controls, resize_handles, theme_glyph, BarPress, Control, Glyph, ResizeCursor,
    ResizeEdge,
};
use zuno::close_panel::{Choice, CloseConfirm};
use zuno::collection_panel::{
    empty_notice, is_expanded, list_count, list_row, method_label, overflows, title, verb_head,
    ListRow, Node, NodeKind,
};
use zuno::commands::Action;
use zuno::context_menu::{ContextMenu, ContextMenuEvent, MenuCommand, MenuItem, MenuRow};
use zuno::cookie_panel::{
    count_label, entry_detail, expiry_label, has_heading, reach_note, stepped, CookiePanel,
    StoredCookie,
};
use zuno::import_panel::{ImportEvent, ImportPanel};
use zuno::lists::{wrap, wrap_from};
use zuno::picker::{split_budget, Item, Picker, PickerEvent, Target, ROW_CHARS};
use zuno::request::Method;

/// The width of the verb column.
const METHOD_WIDTH: f32 = 38.0;

#[test]
fn rows_describe_both_sections_and_their_shapes() {
    let files = TlsFiles {
        identity: Some("/k/a.pem".into()),
        identities: vec!["/k/a.pem".into(), "/k/b.pem".into()],
        root_cas: vec!["/k/corp.pem".into()],
    };
    let rows = CertPanel::rows(&files);

    assert_eq!(
        rows,
        vec![
            Row::UseNoIdentity,
            Row::UseIdentity("/k/a.pem".into()),
            Row::UseIdentity("/k/b.pem".into()),
            Row::ChooseIdentity,
            Row::RootCa("/k/corp.pem".into()),
            Row::ChooseRootCa,
        ]
    );
    assert!(matches!(rows[1], Row::UseIdentity(_)));
}

#[test]
fn an_empty_panel_still_offers_both_choosers() {
    assert_eq!(
        CertPanel::rows(&TlsFiles::default()),
        vec![Row::UseNoIdentity, Row::ChooseIdentity, Row::ChooseRootCa]
    );
}

#[test]
fn a_certificate_row_says_what_is_in_force() {
    let active = Some("/k/./a.pem".to_string());
    let used = entry(&Row::UseIdentity("/k/a.pem".into()), &active);
    assert_eq!((used.marker.as_str(), used.label.as_str(), used.removable), ("●", "a.pem", true));
    let none = entry(&Row::UseNoIdentity, &active);
    assert_eq!((none.marker.as_str(), none.label.as_str(), none.removable), ("○", "None", false));
    let issuer = entry(&Row::RootCa("/k/corp.pem".into()), &active);
    assert_eq!(issuer.marker, "");
    assert_eq!(entry(&Row::ChooseRootCa, &active).label, "Choose a file…");
    assert!(is_identity(&Row::ChooseIdentity));
    assert!(!is_identity(&Row::ChooseRootCa));
    assert_eq!(name_of("/"), "/");

    let mut panel = CertPanel::new();
    panel.step(-1, &TlsFiles::default());
    assert_eq!(panel.row(&TlsFiles::default()), Some(Row::ChooseRootCa));
}

#[test]
fn an_expiry_reads_as_the_time_left() {
    let now = 1_000_000;
    assert_eq!(expiry_label(None, now), "session");
    assert_eq!(expiry_label(Some(now + 30), now), "in 30s");
    assert_eq!(expiry_label(Some(now + 90), now), "in 1m");
    assert_eq!(expiry_label(Some(now + 3 * 3_600 + 5), now), "in 3h");
    assert_eq!(expiry_label(Some(now + 2 * 86_400), now), "in 2d");
    assert_eq!(expiry_label(Some(now + 400 * 86_400), now), "in 1y");
    assert_eq!(expiry_label(Some(now - 1), now), "expired");
}

#[test]
fn the_selection_wraps_at_both_ends() {
    assert_eq!(stepped(0, -1, 3), 2, "up from the top wraps to the bottom");
    assert_eq!(stepped(2, 1, 3), 0, "down from the bottom wraps to the top");
    assert_eq!(stepped(0, 1, 0), 0, "an empty list has nothing to step through");
}

#[test]
fn stepping_goes_round_however_far() {
    assert_eq!(wrap(1, 7, 3), 2);
    assert_eq!(wrap(1, -7, 3), 0);
    assert_eq!(wrap(0, isize::MIN, 5), wrap_from(10, isize::MIN, 5));
    assert_eq!(wrap_from(7, 0, 3), 1, "a list may have shrunk");
    let there = wrap(2, -4, 5);
    assert_eq!(wrap(there, 4, 5), 2, "and back comes home");
}

fn cookie(domain: &str, host_only: bool) -> StoredCookie {
    StoredCookie {
        domain: domain.into(),
        host_only,
        name: "sid".into(),
        value: "1".into(),
        path: "/".into(),
        secure: true,
        http_only: false,
        expires: None,
    }
}

#[test]
fn cookies_stand_under_their_domain_and_reach() {
    let cookies = vec![cookie("a.com", true), cookie("a.com", true), cookie("a.com", false)];
    assert!(has_heading(&cookies, 0));
    assert!(!has_heading(&cookies, 1));
    assert!(has_heading(&cookies, 2));
    assert_eq!(reach_note(true), "this host only");
    assert_eq!(reach_note(false), "and its subdomains");
    assert_eq!(entry_detail(&cookies[0], 0), "secure · session");
    let mut kept = cookie("a.com", true);
    kept.path = "/api".into();
    kept.http_only = true;
    kept.expires = Some(60);
    assert_eq!(entry_detail(&kept, 0), "/api · secure · httponly · in 1m");
    assert_eq!(count_label(1), "1 cookie");
    assert_eq!(count_label(0), "0 cookies");

    let mut panel = CookiePanel::new();
    panel.step(-1, 3);
    assert_eq!(panel.selected, 2);
    panel.clamp(1);
    assert_eq!(panel.selected, 0);
}

#[test]
fn a_close_prompt_opens_on_the_harmless_button() {
    let mut prompt = CloseConfirm::new(vec![4, 7], 2, "Login".into());
    assert_eq!(prompt.choice, Choice::Cancel);
    assert_eq!(prompt.message(), "2 requests have unsaved changes.");
    prompt.step(1);
    assert_eq!(prompt.choice, Choice::Save, "round the end");
    assert_eq!(prompt.choice.label(true), "Save all");
    assert_eq!(prompt.choice.label(false), "Save");
    assert_eq!(Choice::Discard.id(), "close-discard");
    assert_eq!(Choice::ORDER.map(|choice| choice.step(-1)), [
        Choice::Cancel,
        Choice::Save,
        Choice::Discard,
    ]);
    assert_eq!(CloseConfirm::new(vec![4], 1, "Login".into()).message(), "Login has unsaved changes.");
}

#[test]
fn a_short_column_donates_its_slack_to_the_long_one() {
    assert_eq!(split_budget(10, 20), (10, 20));
    assert_eq!(split_budget(0, 0), (0, 0));

    let (label, detail) = split_budget(12, 400);
    assert_eq!(label, 12, "a short label must not be padded out to half a row");
    assert_eq!(label + detail, ROW_CHARS);
    assert!(detail > ROW_CHARS / 2, "the slack has to go somewhere: {detail}");

    let (label, detail) = split_budget(400, 12);
    assert_eq!(detail, 12);
    assert_eq!(label + detail, ROW_CHARS);

    let (label, detail) = split_budget(400, 400);
    assert_eq!(label, ROW_CHARS / 2);
    assert_eq!(label + detail, ROW_CHARS);
}

#[test]
fn a_split_never_exceeds_the_row() {
    for label in 0..140 {
        for detail in 0..140 {
            let (l, d) = split_budget(label, detail);
            assert!(l <= label && d <= detail, "{label}/{detail} -> {l}/{d}");
            assert!(
                l + d <= ROW_CHARS.max(label + detail),
                "{label}/{detail} -> {l}/{d}"
            );
        }
    }
}

fn item(label: &str) -> Item {
    Item { label: label.into(), detail: String::new(), target: Target::File(label.into()) }
}

#[test]
fn the_highlight_follows_its_item() {
    let mut picker = Picker::new(vec![item("a"), item("b")], "Open…", vec![0, 1]);
    picker.select(1);
    picker.extend(vec![item("c")], vec![2, 1, 0], None);
    assert_eq!(picker.selected_item_index(), Some(1));
    assert!(matches!(picker.chosen(), Some(Target::File(path)) if path == "b"));
    assert_eq!(picker.visible_count(), 3);
    picker.select_row(0);
    assert!(matches!(picker.chosen(), Some(Target::File(path)) if path == "c"));
    picker.select_row(1);
    picker.extend(Vec::new(), vec![2, 0], None);
    assert_eq!(picker.selected, 0, "what no longer matches loses it");
    assert!(PickerEvent::Dismissed != PickerEvent::Confirmed);
}

#[test]
fn the_query_itself_may_be_picked() {
    let mut picker = Picker::new(vec![item("a")], "Open…", vec![0]);
    picker.filter.paste("PURGE");
    picker.refilter(Vec::new(), Some(Item {
        label: "PURGE".into(),
        detail: String::new(),
        target: Target::Method(Method::Other("PURGE".into())),
    }));
    assert_eq!(picker.query(), "PURGE");
    assert_eq!(picker.visible_count(), 1);
    assert!(matches!(picker.chosen(), Some(Target::Method(Method::Other(_)))));
    picker.extend(vec![item("b"), item("c")], vec![1, 2], Some(Item {
        label: "PURGE".into(),
        detail: String::new(),
        target: Target::Method(Method::Other("PURGE".into())),
    }));
    assert_eq!(picker.selected, 2, "the highlight stays on the row that was chosen");
    assert!(matches!(picker.chosen(), Some(Target::Method(Method::Other(_)))));
    picker.refilter(Vec::new(), None);
    assert!(picker.chosen().is_none());
    assert_eq!(picker.empty_message(), "Nothing matches “PURGE”");
}

#[test]
fn every_method_gets_its_own_label_and_all_of_them_fit_the_column() {
    let methods = [
        Method::Get,
        Method::Post,
        Method::Put,
        Method::Patch,
        Method::Delete,
        Method::Head,
        Method::Options,
        Method::Other("REPORT".into()),
    ];

    let mut seen: Vec<String> = Vec::new();
    for method in &methods {
        let label = method_label(method);
        assert!(!label.is_empty(), "{method:?} has no label");
        assert!(
            !seen.contains(&label),
            "{method:?} reuses the label of an earlier method"
        );
        let width = label.chars().count() as f32 * 12. * 0.6;
        assert!(
            width <= METHOD_WIDTH,
            "{method:?} label {label:?} needs {width}px of a {METHOD_WIDTH}px column"
        );
        seen.push(label);
    }

    assert_eq!(method_label(&Method::Other(String::new())), "?");
}

#[test]
fn a_verb_is_cut_and_shown_in_capitals() {
    assert_eq!(verb_head("propfind"), "propf");
    assert_eq!(method_label(&Method::Other("propfind".into())), "PROPF");
    assert_eq!(method_label(&Method::Other("é".into())), "É");
}

#[test]
fn a_draft_takes_a_row_of_its_own() {
    let visible = vec![0, 2, 5];
    assert_eq!(list_count(&visible, None), 3);
    assert_eq!(list_count(&visible, Some(1)), 4);
    let rows: Vec<ListRow> = (0..4).map(|at| list_row(&visible, 6, Some(1), at)).collect();
    assert_eq!(rows, vec![ListRow::Node(0), ListRow::Draft, ListRow::Node(2), ListRow::Node(5)]);
    assert_eq!(list_row(&visible, 5, None, 2), ListRow::Blank, "the tree has shrunk");
    assert_eq!(list_row(&visible, 6, None, 3), ListRow::Blank);
}

#[test]
fn only_a_directory_is_open_or_not() {
    let directory = Node {
        name: "billing".into(),
        path: "/c/billing".into(),
        depth: 1,
        kind: NodeKind::Directory,
    };
    assert!(is_expanded(&directory, &Vec::new()));
    assert!(!is_expanded(&directory, &vec!["/c/billing/".into()]));
    let request = Node { kind: NodeKind::Request { method: Method::Get }, ..directory };
    assert!(!is_expanded(&request, &Vec::new()));
    assert!(overflows("héllo", 4));
    assert!(!overflows("héllo", 5));
}

#[test]
fn an_empty_collection_says_why() {
    assert_eq!(empty_notice(3, false, true, 0), None);
    assert_eq!(empty_notice(0, true, true, 0), None, "a row is being named");
    assert_eq!(empty_notice(0, false, false, 2), Some("Reading the collection…".to_string()));
    assert_eq!(
        empty_notice(0, false, true, 0),
        Some(
            "Nothing saved yet. Ctrl+S writes the request you're editing into the collection."
                .to_string()
        )
    );
    assert_eq!(
        empty_notice(0, false, true, 1),
        Some("No requests here — 1 other file was skipped.".to_string())
    );
    assert_eq!(
        empty_notice(0, false, true, 12),
        Some("No requests here — 12 other files were skipped.".to_string())
    );
    assert_eq!(title(None), "No collection");
    assert_eq!(title(Some("api".into())), "api");
}

fn menu() -> ContextMenu {
    ContextMenu::new(vec![
        MenuRow::Separator,
        MenuRow::Item(MenuItem::new("Copy", Action::CopyResponse, "ctrl-c")),
        MenuRow::Separator,
        MenuRow::Separator,
        MenuRow::Item(MenuItem::url("About", "1.0", "https://example.com")),
        MenuRow::Item(MenuItem::dismiss("Cancel")),
        MenuRow::Separator,
    ])
}

#[test]
fn a_menu_steps_over_its_separators() {
    let mut menu = menu();
    assert_eq!(menu.selected, 1);
    menu.select(-1);
    assert_eq!(menu.selected, 1, "it does not go round");
    menu.select(1);
    assert_eq!(menu.selected, 4);
    menu.select(-5);
    assert_eq!(menu.selected, 1, "one row at a time, and back");
    menu.select(0);
    assert_eq!(menu.selected, 1);
    menu.hover(5);
    menu.select(1);
    assert_eq!(menu.selected, 5, "nothing can be chosen past it");
}

#[test]
fn a_menu_hands_out_what_is_chosen() {
    let mut menu = menu();
    assert!(matches!(
        menu.confirm(),
        Some(ContextMenuEvent::Chose(MenuCommand::Dispatch(Action::CopyResponse)))
    ));
    assert!(matches!(
        menu.choose_row(4),
        Some(ContextMenuEvent::Chose(MenuCommand::OpenUrl(url))) if url == "https://example.com"
    ));
    assert!(matches!(
        menu.choose_row(5),
        Some(ContextMenuEvent::Chose(MenuCommand::Dismiss))
    ));
    let empty = ContextMenu::new(vec![MenuRow::Separator]);
    assert!(empty.confirm().is_none());
    let plain = MenuItem::plain("Delete for good", Action::Quit);
    assert_eq!(plain.detail, "");
}

#[test]
fn an_import_needs_a_source_and_runs_once() {
    let mut panel = ImportPanel::new();
    assert!(panel.confirm().is_none());
    assert_eq!(
        panel.message.as_deref(),
        Some("Paste a spec URL, or the path to a .json file")
    );
    assert!(!panel.busy);
    panel.source.paste(" api.json ");
    let Some(ImportEvent::Confirmed(source)) = panel.confirm() else {
        panic!("a source was typed");
    };
    assert_eq!(source, " api.json ", "exactly as typed");
    assert!(panel.busy);
    assert_eq!(panel.hint(), "Reading…");
    assert!(panel.confirm().is_none(), "one at a time");
    panel.report("no such file".into());
    assert!(!panel.busy);
    assert_eq!(panel.typed(), " api.json ");
    assert_eq!(panel.hint(), "Reads OpenAPI 3.x in JSON. Enter to import, Escape to close.");
    assert!(matches!(panel.dismiss(), ImportEvent::Dismissed));
}

#[test]
fn a_window_has_the_buttons_it_can_use() {
    assert_eq!(controls(true, true), vec![Control::Minimize, Control::Maximize, Control::Close]);
    assert_eq!(controls(false, false), vec![Control::Close]);
    assert_eq!(Control::Maximize.glyph(true), Glyph::Restore);
    assert_eq!(Control::Maximize.glyph(false), Glyph::Maximize);
    assert!(Control::Close.is_danger());
    assert_eq!(Control::Minimize.id(), "minimize");
    assert_eq!(theme_glyph(Appearance::Dark), Glyph::Sun);
    assert_eq!(theme_glyph(Appearance::Light), Glyph::Moon);
    assert_eq!(bar_press(1), BarPress::Move);
    assert_eq!(bar_press(2), BarPress::Zoom);
}

#[test]
fn corners_are_laid_over_edges() {
    let edges = resize_handles(false);
    assert_eq!(edges.len(), 8);
    assert_eq!(edges[3], ResizeEdge::Right);
    assert_eq!(edges[4], ResizeEdge::TopLeft);
    assert_eq!(edges[4].id(), "resize-top-left");
    assert_eq!(edges[4].cursor(), ResizeCursor::UpLeftDownRight);
    assert!(resize_handles(true).is_empty());
}
