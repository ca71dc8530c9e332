//! Where a collection is kept. It holds its user's own documents, so it lies with data and not
//! with configuration.

use crate::app_state;
use crate::strings;
use vstd::prelude::*;

verus! {

/// The root of the collection that is open; nothing where there is nowhere to save.
pub struct CollectionRoot(pub Option<String>);

impl CollectionRoot {
    /// The root, where there is one.
    pub fn root(&self) -> (r: Option<&str>)
        ensures
            strings::str_text(r) == strings::opt_text(self.0),
    {
        match &self.0 {
            Some(path) => Some(path.as_str()),
            None => None,
        }
    }
}

/// The collection that is there before any other, given `XDG_DATA_HOME` and `HOME` as they are
/// set.
pub fn default_path(data_home: Option<String>, home: Option<String>) -> (r: Option<String>)
    ensures
        strings::opt_text(r) == app_state::data_place(
            strings::opt_text(data_home),
            strings::opt_text(home),
            "collections"@,
        ),
{
    app_state::data_dir(data_home, home, "collections")
}

} // verus!
