//! The prompt before unsaved changes are closed.

use crate::lists;
use crate::strings;
use vstd::prelude::*;
use vstd::string::*;

verus! {

/// Which button is selected, in the order they are drawn.
#[derive(Clone, Copy, Debug, PartialEq, Eq, Structural)]
pub enum Choice {
    Save,
    Discard,
    Cancel,
}

impl Choice {
    pub const ORDER: [Choice; 3] = [Choice::Save, Choice::Discard, Choice::Cancel];

    /// Where a button stands.
    pub open spec fn place(self) -> int {
        match self {
            Choice::Save => 0,
            Choice::Discard => 1,
            Choice::Cancel => 2,
        }
    }

    pub open spec fn spec_label(self, many: bool) -> Seq<char> {
        match self {
            Choice::Save => if many {
                "Save all"@
            } else {
                "Save"@
            },
            Choice::Discard => "Don't save"@,
            Choice::Cancel => "Cancel"@,
        }
    }

    pub fn label(self, many: bool) -> (r: &'static str)
        ensures
            r@ == self.spec_label(many),
    {
        match self {
            Choice::Save => if many {
                "Save all"
            } else {
                "Save"
            },
            Choice::Discard => "Don't save",
            Choice::Cancel => "Cancel",
        }
    }

    pub open spec fn spec_id(self) -> Seq<char> {
        match self {
            Choice::Save => "close-save"@,
            Choice::Discard => "close-discard"@,
            Choice::Cancel => "close-cancel"@,
        }
    }

    pub fn id(self) -> (r: &'static str)
        ensures
            r@ == self.spec_id(),
    {
        match self {
            Choice::Save => "close-save",
            Choice::Discard => "close-discard",
            Choice::Cancel => "close-cancel",
        }
    }

    /// The button some steps on, going round at both ends.
    pub fn step(self, delta: isize) -> (r: Choice)
        ensures
            r.place() == lists::wrapped(self.place(), delta as int, 3),
    {
        let at: usize = match self {
            Choice::Save => 0,
            Choice::Discard => 1,
            Choice::Cancel => 2,
        };
        let to: usize = lists::wrap(at, delta, 3);
        if to == 0 {
            Choice::Save
        } else if to == 1 {
            Choice::Discard
        } else {
            Choice::Cancel
        }
    }
}

/// The prompt while it is open.
pub struct CloseConfirm {
    /// The handles of the buffers to close. Handles and not places: every close renumbers what
    /// is left.
    pub targets: Vec<u64>,
    /// How many of them have unsaved changes.
    pub unsaved: usize,
    /// The name of the one, where it is one.
    pub label: String,
    pub choice: Choice,
}

/// What the prompt says.
pub open spec fn message_text(unsaved: int, label: Seq<char>) -> Seq<char> {
    if unsaved == 1 {
        label + " has unsaved changes."@
    } else {
        strings::decimal(unsaved as nat) + " requests have unsaved changes."@
    }
}

impl CloseConfirm {
    /// The prompt as it opens, on the button that changes nothing: Enter is the key most likely
    /// to be pressed without thinking.
    pub fn new(targets: Vec<u64>, unsaved: usize, label: String) -> (r: CloseConfirm)
        ensures
            r == (CloseConfirm { targets, unsaved, label, choice: Choice::Cancel }),
    {
        CloseConfirm { targets, unsaved, label, choice: Choice::Cancel }
    }

    pub fn step(&mut self, delta: isize)
        ensures
            *final(self) == (CloseConfirm { choice: final(self).choice, ..*old(self) }),
            final(self).choice.place() == lists::wrapped(
                old(self).choice.place(),
                delta as int,
                3,
            ),
    {
        self.choice = self.choice.step(delta);
    }

    /// What the prompt says: the name where one is unsaved, a count past that.
    pub fn message(&self) -> (r: String)
        ensures
            r@ == message_text(self.unsaved as int, self.label@),
    {
        if self.unsaved == 1 {
            let mut said = self.label.clone();
            said.append(" has unsaved changes.");
            said
        } else {
            let mut said = strings::decimal_string(self.unsaved as u64);
            said.append(" requests have unsaved changes.");
            said
        }
    }
}

/// The buttons stand in one order, saving first and cancelling last, and are told apart by what
/// they say.
pub proof fn the_buttons_stand_in_order(a: Choice, b: Choice, many: bool)
    ensures
        0 <= Choice::Save.place() < Choice::Discard.place(),
        Choice::Discard.place() < Choice::Cancel.place() < 3,
        a != b ==> a.spec_label(many) != b.spec_label(many) && a.spec_id() != b.spec_id(),
        Choice::Save.spec_label(true) != Choice::Save.spec_label(false),
        strings::has_prefix(Choice::Save.spec_label(many), "Save"@),
        Choice::Cancel.spec_label(many) == "Cancel"@,
{
    reveal_strlit("Save");
    reveal_strlit("Save all");
    reveal_strlit("Don't save");
    reveal_strlit("Cancel");
    reveal_strlit("close-save");
    reveal_strlit("close-discard");
    reveal_strlit("close-cancel");
    assert("Save all"@.subrange(0, 4) =~= "Save"@);
    assert("Save"@.subrange(0, 4) =~= "Save"@);
    assert("Save"@.len() == 4 && "Save all"@.len() == 8 && "Don't save"@.len() == 10
        && "Cancel"@.len() == 6);
    assert("close-save"@.len() == 10 && "close-discard"@.len() == 13 && "close-cancel"@.len()
        == 12);
}

/// The prompt names the one request that is unsaved, and counts them where they are more.
pub proof fn the_prompt_says_what_is_unsaved(unsaved: int, label: Seq<char>)
    requires
        0 <= unsaved,
    ensures
        unsaved == 1 ==> strings::has_prefix(message_text(unsaved, label), label),
        unsaved != 1 ==> strings::has_prefix(
            message_text(unsaved, label),
            strings::decimal(unsaved as nat),
        ),
        strings::has_substring(message_text(unsaved, label), "unsaved changes."@),
{
    reveal_strlit(" has unsaved changes.");
    reveal_strlit(" requests have unsaved changes.");
    reveal_strlit(" has ");
    reveal_strlit(" requests have ");
    reveal_strlit("unsaved changes.");
    let told = "unsaved changes."@;
    let whole = message_text(unsaved, label);
    assert(" has unsaved changes."@ =~= " has "@ + told);
    assert(" requests have unsaved changes."@ =~= " requests have "@ + told);
    let count = strings::decimal(unsaved as nat);
    let lead = if unsaved == 1 {
        label + " has "@
    } else {
        count + " requests have "@
    };
    assert(lead + told + Seq::<char>::empty() =~= whole);
    strings::a_substring_has_something_on_either_side(lead, told, Seq::empty(), whole);
    if unsaved == 1 {
        assert(whole.subrange(0, label.len() as int) =~= label);
    } else {
        assert(whole.subrange(0, count.len() as int) =~= count);
    }
}

/// With several buffers to save the first button saves them all, and says so; the others say the
/// same however many there are, and no two say the same.
pub proof fn only_the_save_button_counts(a: Choice, b: Choice, many: bool)
    ensures
        Choice::Save.spec_label(true) == "Save all"@,
        Choice::Save.spec_label(false) == "Save"@,
        !(a is Save) ==> a.spec_label(true) == a.spec_label(false),
        Choice::Discard.spec_label(many) == "Don't save"@,
        Choice::Cancel.spec_label(many) == "Cancel"@,
        a.spec_label(many) == b.spec_label(many) ==> a == b,
{
    reveal_strlit("Save all");
    reveal_strlit("Save");
    reveal_strlit("Don't save");
    reveal_strlit("Cancel");
    assert("Save"@[0] == 'S');
    assert("Save all"@[0] == 'S');
    assert("Don't save"@[0] == 'D');
    assert("Cancel"@[0] == 'C');
}

} // verus!
