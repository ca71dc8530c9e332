//! The environment and flow editors.

use zuno::environment_panel::{
    position, secret_hint, EnvEvent, EnvironmentFile, EnvironmentPanel, Naming, Resolved, Variable,
};
use zuno::flow_panel::{step_number, Flow, FlowEvent, FlowPanel};

fn var(name: &str, value: &str) -> Variable {
    Variable { name: name.into(), value: value.into() }
}

fn resolved(name: &str, value: &str, secret: bool) -> Resolved {
    Resolved { name: name.into(), value: value.into(), secret }
}

/// An editor on `staging`, whose token is secret with a stand-in and whose host is not.
fn staging() -> EnvironmentPanel {
    let mut panel = EnvironmentPanel::new(vec!["prod".into(), "staging".into()], Some("staging"));
    panel.load(
        EnvironmentFile {
            name: "staging".into(),
            committed: vec![var("host", "example.com"), var("token", "changeme")],
            local: vec![var("token", "s3cret")],
        },
        &vec![resolved("host", "example.com", false), resolved("token", "s3cret", true)],
    );
    panel
}

fn find<'a>(vars: &'a [Variable], name: &str) -> Option<&'a str> {
    vars.iter().find(|var| var.name == name).map(|var| var.value.as_str())
}

#[test]
fn globals_come_first_and_cannot_go() {
    let mut panel = EnvironmentPanel::new(vec!["prod".into()], Some("gone"));
    assert_eq!(panel.names, vec!["globals", "prod"]);
    assert_eq!(panel.selected, 0, "an environment that is gone falls back to the first");
    assert!(!panel.is_editable());
    panel.start_rename();
    assert_eq!(panel.message.as_deref(), Some("globals is always active — it has no other name"));
    assert!(panel.renaming.is_none());
    assert!(panel.trash_selected().is_none());
    assert_eq!(panel.message.as_deref(), Some("globals is always active — it cannot be removed"));
    assert_eq!(position(&panel.names, None), 0);
}

#[test]
fn looking_writes_nothing() {
    let panel = staging();
    assert_eq!(panel.name(), "staging");
    assert!(panel.prepare_save().is_none());
}

#[test]
fn a_secret_keeps_its_stand_in() {
    let mut panel = staging();
    panel.rows[1].value.paste("-2");
    let write = panel.prepare_save().expect("a change");
    assert!(!write.new_secret);
    assert_eq!(find(&write.file.committed, "token"), Some("changeme"));
    assert_eq!(find(&write.file.local, "token"), Some("s3cret-2"));
    assert!(panel.saved(write, Ok(())).is_none());
    assert!(panel.prepare_save().is_none());
}

#[test]
fn what_is_made_secret_leaves_the_committed_file() {
    let mut panel = staging();
    assert!(panel.toggle_secret(0));
    let write = panel.prepare_save().expect("a change");
    assert!(write.new_secret);
    assert_eq!(find(&write.file.committed, "host"), None);
    assert_eq!(find(&write.file.local, "host"), Some("example.com"));
    assert!(matches!(panel.saved(write, Ok(())), Some(EnvEvent::SecretWritten)));
    assert!(!panel.toggle_secret(9));
}

#[test]
fn a_write_that_fails_is_said_and_stays_to_be_written() {
    let mut panel = staging();
    assert!(panel.remove_variable(0));
    assert!(!panel.remove_variable(7));
    let write = panel.prepare_save().expect("a change");
    assert!(panel.saved(write, Err("disk full".into())).is_none());
    assert_eq!(panel.message.as_deref(), Some("disk full"));
    assert!(panel.prepare_save().is_some());
}

#[test]
fn a_row_without_a_name_is_left_out_and_the_last_of_a_name_counts() {
    let mut panel = staging();
    panel.add_variable();
    panel.rows[2].value.paste("orphan");
    assert!(panel.prepare_save().is_none());
    panel.rows[2].name.paste("  host ");
    let write = panel.prepare_save().expect("a change");
    assert_eq!(find(&write.file.committed, "host"), Some("orphan"));
    assert_eq!(write.file.committed.len(), 2);
}

#[test]
fn naming_an_environment_holds_the_selection() {
    let mut panel = staging();
    assert_eq!(panel.select(1), Some(0), "round the end");
    assert_eq!(panel.select_at(2), None, "it is the one that shows");
    assert_eq!(panel.select_at(1), Some(1));
    panel.start_rename();
    assert_eq!(panel.select(1), None);
    panel.renaming.as_mut().expect("open").paste("-eu");
    let Some(naming) = panel.confirm() else {
        panic!("a box is open");
    };
    let Naming::Rename { ref from, ref label } = naming else {
        panic!("it renames");
    };
    assert_eq!((from.as_str(), label.as_str()), ("staging", "staging-eu"));
    let (event, select) = panel.named(naming, Ok("staging-eu".into()));
    assert!(matches!(event, Some(EnvEvent::Renamed { from, to }) if from == "staging" && to == "staging-eu"));
    panel.rescan(select, vec!["prod".into(), "staging-eu".into()]);
    assert_eq!(panel.name(), "staging-eu");
    assert!(panel.renaming.is_none());
    assert!(!panel.cancel(), "nothing is left to back out of");
}

#[test]
fn a_name_that_is_refused_leaves_its_box_open() {
    let mut panel = staging();
    panel.start_new();
    let naming = panel.confirm().expect("a box is open");
    assert!(matches!(naming, Naming::Create { .. }));
    let (event, select) = panel.named(naming, Err("needs a name".into()));
    assert!(event.is_none() && select.is_none());
    assert!(panel.creating.is_some());
    assert!(panel.cancel());
    assert!(panel.creating.is_none());
    let name = panel.trash_selected().expect("not globals");
    assert!(matches!(panel.trashed(name, Ok(())), Some(EnvEvent::Removed(name)) if name == "staging"));
    panel.rescan(None, vec!["prod".into()]);
    assert_eq!(panel.name(), "globals", "what was selected is gone");
    panel.show(1);
    assert_eq!(panel.name(), "prod");
    assert_eq!(secret_hint(true), "Secret — kept in the gitignored file");
    assert_eq!(secret_hint(false), "Committed with the collection");
}

fn flows() -> FlowPanel {
    FlowPanel::new(vec![
        Flow { name: "login".into(), steps: vec!["a".into(), "b".into(), "c".into()] },
        Flow { name: "logout".into(), steps: Vec::new() },
    ])
}

#[test]
fn a_moved_step_stays_selected() {
    let mut panel = flows();
    assert!(panel.move_step(1));
    assert!(panel.move_step(1));
    assert_eq!(panel.flows[0].steps, vec!["b", "c", "a"]);
    assert_eq!(panel.step, 2);
    assert!(!panel.move_step(1), "it is at the end");
    assert!(panel.move_step(-2));
    assert_eq!(panel.flows[0].steps, vec!["a", "c", "b"]);
    assert!(!panel.move_step(isize::MIN));
}

#[test]
fn a_removed_step_leaves_the_selection_on_a_step() {
    let mut panel = flows();
    panel.step_selection(-1);
    assert_eq!(panel.step, 2);
    assert!(panel.remove_step());
    assert_eq!(panel.step, 1);
    assert!(panel.remove_step());
    assert!(panel.remove_step());
    assert!(!panel.remove_step());
    assert_eq!(panel.step, 0);
    panel.persisted(Err("read-only".into()));
    assert_eq!(panel.message.as_deref(), Some("read-only"));
}

#[test]
fn flows_are_named_like_environments() {
    let mut panel = flows();
    panel.select_step(2);
    panel.select(-1);
    assert_eq!((panel.selected, panel.step), (1, 0));
    panel.start_rename();
    panel.select(1);
    assert_eq!(panel.selected, 1, "not while one is being named");
    let (open, naming) = panel.confirm();
    assert!(open);
    let naming = naming.expect("a flow is selected");
    let (event, select) = panel.named(&naming, Ok("bye".into()));
    assert!(event == Some(FlowEvent::Changed));
    panel.rescan(select, vec![
        Flow { name: "login".into(), steps: Vec::new() },
        Flow { name: "bye".into(), steps: Vec::new() },
    ]);
    assert_eq!(panel.selected, 1);
    panel.select_at(0);
    assert_eq!(panel.trash_selected(), Some("login".to_string()));
    assert!(panel.trashed(Ok(())) == Some(FlowEvent::Changed));
    panel.rescan(None, Vec::new());
    assert_eq!(panel.trash_selected(), None);
    assert!(!panel.confirm().0);
    panel.start_new();
    assert!(panel.cancel());
    assert_eq!(step_number(0), "1");
}
