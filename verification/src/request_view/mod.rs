//! One request buffer: the request being edited, its runs, and the conversation it holds.

pub mod captures;
pub mod editing;
pub mod finding;
pub mod reading;
pub mod rows;
pub mod search;
pub mod session;
pub mod tabs;
pub mod view;

pub use captures::{CapturePlan, CaptureStep, Published, Refusal};
pub use editing::{BodyFocus, Cell, RowFocus};
pub use reading::Edge;
pub use rows::{AssertionRow, CaptureRow, KeyValueRow, MultipartRow};
pub use search::{Hits, TextSearch};
pub use session::{Applied, Event};
pub use tabs::{RequestTab, ResponseView};
pub use view::{
    CaptureTrigger, EngineError, InFlight, RequestView, ResponseData, RowKind, HISTORY_LIMIT,
};

use vstd::prelude::*;

verus! {

/// Which body a request sends.
#[derive(Clone, Copy, Debug, PartialEq, Eq, Structural)]
pub enum BodyType {
    Empty,
    Raw,
    Form,
    /// The contents of a file, sent as they are.
    Binary,
    /// Text and file parts, mixed.
    Multipart,
}

} // verus!
