//! The import dialog: one field that takes a link or a path.

use crate::input::text_input;
use crate::input::text_input::TextInput;
use crate::strings;
use vstd::prelude::*;
use vstd::string::*;

verus! {

/// What the dialog reports.
pub enum ImportEvent {
    Dismissed,
    /// The source to read, exactly as typed.
    Confirmed(String),
}

/// The dialog.
pub struct ImportPanel {
    pub source: TextInput,
    /// What happened, once something has.
    pub message: Option<String>,
    /// Whether a source is being read, so that a second one is not started.
    pub busy: bool,
}

/// What is said of a source that holds nothing.
pub open spec fn nothing_typed() -> Seq<char> {
    "Paste a spec URL, or the path to a .json file"@
}

impl ImportPanel {
    pub fn new() -> (r: ImportPanel)
        ensures
            r.source@.wf(),
            r.source@ == text_input::fresh_input(
                Seq::empty(),
                "https://api.example.com/openapi.json, or a path to a .json file"@,
                "ImportSource"@,
            ),
            r.message is None,
            !r.busy,
    {
        proof {
            reveal_strlit("");
            assert(""@ =~= Seq::<char>::empty());
        }
        ImportPanel {
            source: TextInput::new(
                "",
                "https://api.example.com/openapi.json, or a path to a .json file",
                "ImportSource",
            ),
            message: None,
            busy: false,
        }
    }

    /// The source as it is typed.
    pub fn typed(&self) -> (r: String)
        ensures
            r@ == self.source@.surface.text,
    {
        self.source.text().to_owned()
    }

    /// Say what happened and stay open, with what was typed still there.
    pub fn report(&mut self, message: String)
        ensures
            *final(self) == (ImportPanel { message: Some(message), busy: false, ..*old(self) }),
    {
        self.message = Some(message);
        self.busy = false;
    }

    /// Close.
    pub fn dismiss(&self) -> (r: ImportEvent)
        ensures
            r == ImportEvent::Dismissed,
    {
        ImportEvent::Dismissed
    }

    /// Begin to read what is typed. Not while something is being read, and not where nothing is
    /// typed, which is said.
    pub fn confirm(&mut self) -> (r: Option<ImportEvent>)
        ensures
            if old(self).busy {
                *final(self) == *old(self) && r is None
            } else if strings::is_blank(old(self).source@.surface.text) {
                *final(self) == (ImportPanel { message: final(self).message, ..*old(self) })
                    && strings::opt_text(final(self).message) == Some(nothing_typed()) && r is None
            } else {
                *final(self) == (ImportPanel { busy: true, ..*old(self) }) && (r matches Some(
                    ImportEvent::Confirmed(source),
                ) && source@ == old(self).source@.surface.text)
            },
    {
        if self.busy {
            return None;
        }
        let typed = self.typed();
        if strings::blank(typed.as_str()) {
            self.report("Paste a spec URL, or the path to a .json file".to_owned());
            return None;
        }
        self.busy = true;
        Some(ImportEvent::Confirmed(typed))
    }

    /// The line below the field.
    pub fn hint(&self) -> (r: &'static str)
        ensures
            r@ == (if self.busy {
                "Reading…"@
            } else {
                "Reads OpenAPI 3.x in JSON. Enter to import, Escape to close."@
            }),
    {
        if self.busy {
            "Reading…"
        } else {
            "Reads OpenAPI 3.x in JSON. Enter to import, Escape to close."
        }
    }
}

} // verus!
