//! The logic of an API client, verified: text editing, the response body's fold state, the
//! request editors and their dirty state, the transcript of a connection, and the panels around
//! them. Drawing, files and the network stay with the program that embeds this library.

pub mod app_state;
pub mod body_view;
pub mod cert_panel;
pub mod chrome;
pub mod close_panel;
pub mod collection_panel;
pub mod collections;
pub mod commands;
pub mod context_menu;
pub mod cookie_panel;
pub mod environment_panel;
pub mod flow_panel;
pub mod import_panel;
pub mod input;
pub mod keymap;
pub mod kinds;
pub mod lists;
pub mod outline;
pub mod paths;
pub mod picker;
pub mod request;
pub mod request_pane;
pub mod request_view;
pub mod strings;
pub mod text;
pub mod transcript;
