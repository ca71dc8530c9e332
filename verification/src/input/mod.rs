//! Text editing primitives: word and line geometry, undo history, and the two text surfaces.

pub mod editor;
pub mod history;
pub mod lines;
pub mod runs;
pub mod surface;
pub mod text_input;
pub mod words;

pub use editor::Editor;
pub use history::{EditSnapshot, History};
pub use text_input::TextInput;
pub use words::{line_at, next_word_boundary, prev_word_boundary, word_at};
