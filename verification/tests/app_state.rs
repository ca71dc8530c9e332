//! The registry of workspaces.

use zuno::app_state::{
    accept, adopts_legacy_session, allocate_id, config_dir, data_dir, default_new_location, label,
    session_path, AppFile, AppState, Appearance, WorkspaceEntry, CURRENT_VERSION, DEFAULT_ID,
};
use zuno::collections::{default_path, CollectionRoot};
use zuno::paths::{absolute, file_name, join, same_path};

/// A name as it stands in a file name: runs of anything else become one hyphen.
fn slug(path: &str) -> String {
    let name = path.rsplit('/').next().unwrap_or("");
    let mut out = String::new();
    for c in name.chars() {
        if c.is_alphanumeric() {
            out.push(c);
        } else if !out.ends_with('-') {
            out.push('-');
        }
    }
    out
}

fn entry(id: &str, path: &str) -> WorkspaceEntry {
    WorkspaceEntry { id: id.into(), path: path.into() }
}

fn state(last: Option<&str>, workspaces: Vec<WorkspaceEntry>) -> AppState {
    AppState {
        dir: None,
        file: AppFile {
            version: CURRENT_VERSION,
            theme: Appearance::Dark,
            last: last.map(str::to_string),
            workspaces,
        },
    }
}

#[test]
fn the_config_dir_sits_under_xdg_config() {
    let homes = [
        (Some("/home/ann/.config"), Some("/home/ann")),
        (None, Some("/home/ann")),
        (Some(""), Some("/home/ann")),
        (None, None),
    ];
    for (config, home) in homes {
        if let Some(dir) = config_dir(config.map(str::to_string), home.map(str::to_string)) {
            assert!(dir.ends_with("zuno"), "{dir:?}");
            assert!(absolute(&dir), "{dir:?}");
        }
    }
    assert_eq!(
        config_dir(None, Some("/home/ann".into())),
        Some("/home/ann/.config/zuno".to_string())
    );
    assert_eq!(config_dir(None, None), None);
}

#[test]
fn a_session_path_is_derived_from_the_id() {
    let dir = "/cfg/zuno";
    assert_eq!(session_path(dir, DEFAULT_ID), "/cfg/zuno/sessions/default.json");
    assert_eq!(session_path(dir, "a1b2"), "/cfg/zuno/sessions/a1b2.json");
}

#[test]
fn a_last_that_names_a_missing_workspace_falls_back_to_the_first() {
    let state = AppState {
        dir: None,
        file: AppFile {
            version: CURRENT_VERSION,
            theme: Appearance::Dark,
            last: Some("gone".into()),
            workspaces: vec![WorkspaceEntry {
                id: DEFAULT_ID.into(),
                path: "/w/default".into(),
            }],
        },
    };
    assert_eq!(state.active().map(|e| e.id.as_str()), Some(DEFAULT_ID));
}

#[test]
fn an_empty_registry_has_no_active_workspace() {
    let state = AppState {
        dir: None,
        file: AppFile {
            version: CURRENT_VERSION,
            theme: Appearance::Dark,
            last: None,
            workspaces: Vec::new(),
        },
    };
    assert!(state.active().is_none());
}

#[test]
fn ids_derive_from_the_directory_and_never_collide() {
    let mut existing: Vec<WorkspaceEntry> = Vec::new();
    let path = "/code/Payments API";
    let id = allocate_id(&existing, path, &slug(path));
    assert_eq!(id, "payments-api", "the id should read like the folder");

    existing.push(WorkspaceEntry { id: id.clone(), path: "/code/Payments API".into() });
    let path = "/elsewhere/payments-api";
    let second = allocate_id(&existing, path, &slug(path));
    assert_eq!(second, "payments-api-2", "a taken id takes a suffix, like `allocate`");

    let path = "/code/default";
    let reserved = allocate_id(&existing, path, &slug(path));
    assert_ne!(reserved, DEFAULT_ID);
    assert_eq!(reserved, "workspace");
}

#[test]
fn the_default_path_sits_under_the_xdg_data_dir() {
    let homes = [
        (Some("/home/ann/.local/share"), Some("/home/ann")),
        (None, Some("/home/ann")),
        (None, None),
    ];
    for (data, home) in homes {
        if let Some(path) = default_path(data.map(str::to_string), home.map(str::to_string)) {
            assert!(path.ends_with("zuno/collections"), "{path:?}");
            assert!(absolute(&path), "{path:?}");
            assert!(!path.contains("/.config/"), "{path:?}");
        }
    }
    assert_eq!(
        default_path(None, Some("/home/ann".into())),
        Some("/home/ann/.local/share/zuno/collections".to_string())
    );
    assert_eq!(
        data_dir(Some("/data".into()), None, "workspaces"),
        Some("/data/zuno/workspaces".to_string())
    );
    assert_eq!(
        data_dir(Some("data".into()), Some("/home/ann".into()), "workspaces"),
        Some("/home/ann/.local/share/zuno/workspaces".to_string()),
        "one that does not start at the root counts for nothing"
    );
    assert_eq!(
        default_new_location(None, Some("/home/ann".into())),
        Some("/home/ann/.local/share/zuno/workspaces".to_string())
    );
}

#[test]
fn capitals_in_any_script_are_made_small() {
    assert_eq!(allocate_id(&Vec::new(), "/code/ÄÖÜ", "ÄÖÜ"), "äöü");
}

#[test]
fn a_registered_directory_is_not_registered_twice() {
    let mut state = state(None, vec![entry(DEFAULT_ID, "/w/default")]);
    let (id, changed) = state.add_workspace("/code/api".into(), "api");
    assert_eq!(id, "api");
    assert!(changed);
    let (again, changed) = state.add_workspace("/code/./api/".into(), "api");
    assert_eq!(again, "api", "the same directory, spelled otherwise");
    assert!(!changed);
    assert_eq!(state.workspaces().len(), 2);
}

#[test]
fn forgetting_moves_on_and_says_which_session_to_drop() {
    let mut state = state(Some("api"), vec![entry(DEFAULT_ID, "/w/default"), entry("api", "/api")]);
    state.dir = Some("/cfg".into());
    let (forgotten, session) = state.forget_workspace("api");
    assert!(forgotten);
    assert_eq!(session, Some("/cfg/sessions/api.json".to_string()));
    assert_eq!(state.active_id(), Some(DEFAULT_ID.to_string()));
    assert_eq!(state.forget_workspace("api"), (false, None));
}

#[test]
fn only_a_registered_workspace_becomes_active() {
    let mut state = state(None, vec![entry(DEFAULT_ID, "/w/default"), entry("api", "/api")]);
    assert!(!state.set_active("gone"));
    assert!(state.set_active("api"));
    assert_eq!(state.active_id(), Some("api".to_string()));
}

#[test]
fn a_theme_is_kept() {
    let mut state = state(None, Vec::new());
    assert!(state.set_theme(Appearance::Light));
    assert!(state.theme() == Appearance::Light);
    assert!(!state.set_theme(Appearance::Light), "nothing changed");
}

#[test]
fn a_file_from_the_future_is_refused() {
    let newer = AppFile {
        version: CURRENT_VERSION + 1,
        theme: Appearance::Dark,
        last: None,
        workspaces: Vec::new(),
    };
    let Err(said) = accept(newer) else {
        panic!("a newer file must not be read");
    };
    assert!(said.contains(&format!("{}", CURRENT_VERSION + 1)), "{said}");
    let current = AppState::fresh(Some("/w".into()));
    assert!(accept(current).is_ok());
}

#[test]
fn a_fresh_registry_holds_the_default_workspace() {
    let file = AppState::fresh(Some("/w/default".into()));
    assert_eq!(file.workspaces, vec![entry(DEFAULT_ID, "/w/default")]);
    assert_eq!(AppState::default_workspace_path(&file), Some("/w/default".to_string()));
    assert!(AppState::fresh(None).workspaces.is_empty());
}

#[test]
fn a_legacy_session_is_adopted_only_where_nothing_is_lost() {
    assert!(adopts_legacy_session(false, true));
    assert!(!adopts_legacy_session(true, true));
    assert!(!adopts_legacy_session(false, false));
}

#[test]
fn a_workspace_is_called_by_its_directory() {
    assert_eq!(label("/code/Payments API"), "Payments API");
    assert_eq!(label("/"), "/");
    assert_eq!(file_name("/code/api/"), Some("api".to_string()));
    assert_eq!(file_name("/code/.."), None);
    assert!(same_path("/a//b/", "/a/./b"));
    assert!(!same_path("/a/b", "a/b"));
    assert_eq!(join("/a", "b"), "/a/b");
    assert_eq!(join("/a", "/b"), "/b");
    assert_eq!(CollectionRoot(Some("/c".into())).root(), Some("/c"));
}

#[test]
fn a_registry_resolves_to_a_collection_and_a_session() {
    let mut state = state(Some("api"), vec![entry(DEFAULT_ID, "/w"), entry("api", "/api")]);
    assert_eq!(state.resolve(), (Some("/api".to_string()), None), "nowhere to keep a session");
    state.dir = Some("/cfg".into());
    assert_eq!(
        state.resolve(),
        (Some("/api".to_string()), Some("/cfg/sessions/api.json".to_string()))
    );
}
