//! The picker: a filter over a list, with the best matches first.

use crate::commands::Action;
use crate::input::text_input;
use crate::input::text_input::TextInput;
use crate::lists;
use crate::request::{Method, RawKind};
use crate::request_view::BodyType;
use crate::strings;
use vstd::prelude::*;
use vstd::string::*;

verus! {

/// How many characters of a row's two columns fit side by side.
pub const ROW_CHARS: usize = 94;

/// How a row is split between its label and its detail: whichever column is short gives what it
/// does not need to the other, and only where both want more than half do they take half each.
pub open spec fn budgets(label: int, detail: int) -> (int, int) {
    let half = ROW_CHARS as int / 2;
    if label + detail <= ROW_CHARS {
        (label, detail)
    } else if label <= half {
        (label, ROW_CHARS - label)
    } else if detail <= half {
        (ROW_CHARS - detail, detail)
    } else {
        (half, ROW_CHARS - half)
    }
}

/// How a row is split between its label and its detail.
pub fn split_budget(label: usize, detail: usize) -> (r: (usize, usize))
    ensures
        (r.0 as int, r.1 as int) == budgets(label as int, detail as int),
{
    if label <= ROW_CHARS && detail <= ROW_CHARS - label {
        return (label, detail);
    }
    let half: usize = ROW_CHARS / 2;
    if label <= half {
        (label, ROW_CHARS - label)
    } else if detail <= half {
        (ROW_CHARS - detail, detail)
    } else {
        (half, ROW_CHARS - half)
    }
}

/// No column gets more than it wants, the row is never overrun, and where it is contended it is
/// used up.
pub proof fn a_split_fits_the_row(label: int, detail: int)
    requires
        0 <= label,
        0 <= detail,
    ensures
        0 <= budgets(label, detail).0 <= label,
        0 <= budgets(label, detail).1 <= detail,
        budgets(label, detail).0 + budgets(label, detail).1 <= ROW_CHARS,
        label + detail > ROW_CHARS ==> budgets(label, detail).0 + budgets(label, detail).1
            == ROW_CHARS,
{
}

/// What choosing a row does. The picker hands it back without reading it.
pub enum Target {
    /// Go to a buffer that is open, by its place.
    Buffer(usize),
    /// Open a request from a file.
    File(String),
    /// Run a command.
    Action(Action),
    Method(Method),
    /// Select an environment, or none.
    Environment(Option<String>),
    /// Show a run: none back is the live one.
    Run(usize),
    BodyType(BodyType, Option<RawKind>),
    /// Move the selected request into a directory.
    Folder(String),
}

/// A row.
pub struct Item {
    /// What the filter is matched against.
    pub label: String,
    /// What stands beside it. The filter does not read it.
    pub detail: String,
    pub target: Target,
}

/// What a picker reports.
#[derive(Clone, Copy, Debug, PartialEq, Eq, Structural)]
pub enum PickerEvent {
    /// Close without choosing.
    Dismissed,
    /// Act on what is chosen, then close.
    Confirmed,
}

/// A picker that is open.
pub struct Picker {
    pub filter: TextInput,
    pub items: Vec<Item>,
    /// Places in `items`, best match first.
    pub matches: Vec<usize>,
    pub selected: usize,
    /// What is said where there is nothing to pick from.
    pub empty_hint: String,
    /// The query itself as a candidate, where it can be one. It stands last however it would
    /// score, and is kept apart so that it cannot pile up.
    pub derived: Option<Item>,
}

/// What shows where nothing matches: filtering everything out is not the same as having nothing.
pub open spec fn empty_text(query: Seq<char>, hint: Seq<char>) -> Seq<char> {
    if query.len() == 0 {
        hint
    } else {
        "Nothing matches “"@ + query + "”"@
    }
}

impl Picker {
    /// Every match is an item, and the selection is on a row where there is any.
    pub open spec fn wf(&self) -> bool {
        &&& self.filter@.wf()
        &&& forall|i: int| 0 <= i < self.matches.len() ==> #[trigger] self.matches[i]
            < self.items.len()
        &&& self.matches.len() < usize::MAX
    }

    /// How many rows there are.
    pub open spec fn rows(&self) -> int {
        self.matches.len() + (if self.derived is Some {
            1int
        } else {
            0
        })
    }

    /// The item of a row.
    pub open spec fn item(&self, row: int) -> Option<Item> {
        if 0 <= row < self.matches.len() {
            Some(self.items[self.matches[row] as int])
        } else {
            self.derived
        }
    }

    /// A picker over `items`. `matches` ranks them against an empty query.
    pub fn new(items: Vec<Item>, placeholder: &str, matches: Vec<usize>) -> (r: Picker)
        requires
            forall|i: int| 0 <= i < matches.len() ==> #[trigger] matches[i] < items.len(),
            matches.len() < usize::MAX,
        ensures
            r.wf(),
            r.items == items,
            r.matches == matches,
            r.selected == 0,
            r.derived is None,
            r.empty_hint@ == placeholder@,
            r.filter@ == text_input::fresh_input(Seq::empty(), placeholder@, "Picker"@),
    {
        proof {
            reveal_strlit("");
            assert(""@ =~= Seq::<char>::empty());
        }
        Picker {
            filter: TextInput::new("", placeholder, "Picker"),
            items,
            matches,
            selected: 0,
            empty_hint: placeholder.to_owned(),
            derived: None,
        }
    }

    /// The query as it is typed.
    pub fn query(&self) -> (r: &str)
        ensures
            r@ == self.filter@.surface.text,
    {
        self.filter.text()
    }

    /// Take a new ranking of the items against the query, and what the query itself offers. The
    /// selection goes back to the top.
    pub fn refilter(&mut self, matches: Vec<usize>, derived: Option<Item>)
        requires
            old(self).wf(),
            forall|i: int| 0 <= i < matches.len() ==> #[trigger] matches[i]
                < old(self).items.len(),
            matches.len() < usize::MAX,
        ensures
            final(self).wf(),
            *final(self) == (Picker { matches, derived, selected: 0, ..*old(self) }),
    {
        self.matches = matches;
        self.derived = derived;
        self.selected = 0;
    }

    /// How many rows there are: the matches, and the query's own where there is one.
    pub fn visible_count(&self) -> (r: usize)
        requires
            self.wf(),
        ensures
            r == self.rows(),
    {
        if self.derived.is_some() {
            self.matches.len() + 1
        } else {
            self.matches.len()
        }
    }

    /// The item of a row.
    pub fn item_at(&self, visible: usize) -> (r: Option<&Item>)
        requires
            self.wf(),
        ensures
            r is Some <==> self.item(visible as int) is Some,
            r matches Some(item) ==> self.item(visible as int) == Some(*item),
    {
        if visible < self.matches.len() {
            let ix: usize = self.matches[visible];
            Some(&self.items[ix])
        } else {
            match &self.derived {
                Some(item) => Some(item),
                None => None,
            }
        }
    }

    /// Move the selection, going round at both ends. With no rows there is nothing to move.
    pub fn select(&mut self, delta: isize)
        requires
            old(self).wf(),
        ensures
            final(self).wf(),
            *final(self) == (Picker { selected: final(self).selected, ..*old(self) }),
            final(self).selected == (if old(self).rows() == 0 {
                old(self).selected as int
            } else {
                lists::wrapped(old(self).selected as int, delta as int, old(self).rows())
            }),
    {
        let count: usize = self.visible_count();
        if count == 0 {
            return ;
        }
        self.selected = lists::wrap_from(self.selected, delta, count);
    }

    /// Add items that came after the picker opened. `matches` ranks all of them against what has
    /// been typed meanwhile. The selection stays on the row that was chosen, an item that still
    /// matches or the row that the query itself makes, and goes to the top where that row is gone.
    pub fn extend(&mut self, items: Vec<Item>, matches: Vec<usize>, derived: Option<Item>)
        requires
            old(self).wf(),
            forall|i: int| 0 <= i < matches.len() ==> #[trigger] matches[i]
                < old(self).items.len() + items.len(),
            matches.len() < usize::MAX,
        ensures
            final(self).wf(),
            *final(self) == (Picker {
                items: final(self).items,
                matches,
                derived,
                selected: final(self).selected,
                ..*old(self)
            }),
            final(self).items@ == old(self).items@ + items@,
            final(self).selected == kept_row(*old(self), matches@, derived is Some),
    {
        let before: Option<usize> = self.selected_item_index();
        let mut items = items;
        self.items.append(&mut items);
        let at: usize = match before {
            Some(item) => place(&matches, item),
            None => matches.len(),
        };
        let on_derived = self.selected >= self.matches.len() && self.derived.is_some();
        self.selected = if at < matches.len() {
            at
        } else if on_derived && derived.is_some() {
            matches.len()
        } else {
            0
        };
        self.matches = matches;
        self.derived = derived;
    }

    /// The item the selection is on, by its place among the items, which a new ranking does not
    /// change.
    pub fn selected_item_index(&self) -> (r: Option<usize>)
        ensures
            r == (if self.selected < self.matches.len() {
                Some(self.matches[self.selected as int])
            } else {
                None
            }),
    {
        if self.selected < self.matches.len() {
            Some(self.matches[self.selected])
        } else {
            None
        }
    }

    /// Select a row that was clicked.
    pub fn select_row(&mut self, row: usize)
        requires
            old(self).wf(),
        ensures
            final(self).wf(),
            *final(self) == (Picker { selected: row, ..*old(self) }),
    {
        self.selected = row;
    }

    /// What is chosen. With nothing to choose from it is nothing, and not something arbitrary.
    pub fn chosen(&self) -> (r: Option<&Target>)
        requires
            self.wf(),
        ensures
            r is Some <==> self.item(self.selected as int) is Some,
            r matches Some(target) ==> *target == self.item(self.selected as int)->0.target,
    {
        match self.item_at(self.selected) {
            Some(item) => Some(&item.target),
            None => None,
        }
    }

    /// What shows where there are no rows.
    pub fn empty_message(&self) -> (r: String)
        ensures
            r@ == empty_text(self.filter@.surface.text, self.empty_hint@),
    {
        let query = self.filter.text();
        if query.is_empty() {
            self.empty_hint.clone()
        } else {
            let mut said = "Nothing matches “".to_owned();
            said.append(query);
            said.append("”");
            said
        }
    }
}

/// Where the selection goes when more items come: it stays on the row that the query makes, where
/// it was there and there still is one, and otherwise follows its item.
pub open spec fn kept_row(before: Picker, after: Seq<usize>, derived: bool) -> int {
    if before.selected >= before.matches.len() && before.derived is Some && derived {
        after.len() as int
    } else {
        kept_place(before.matches@, before.selected as int, after)
    }
}

/// Where the selection goes when the ranking changes: to where its item now stands, or to the
/// top.
pub open spec fn kept_place(before: Seq<usize>, selected: int, after: Seq<usize>) -> int {
    if 0 <= selected < before.len() {
        let at = lists::first_at(after, before[selected], 0);
        if at < after.len() {
            at
        } else {
            0
        }
    } else {
        0
    }
}

/// Where an item first stands in a ranking; the length where it does not.
fn place(matches: &Vec<usize>, item: usize) -> (r: usize)
    ensures
        r == lists::first_at(matches@, item, 0),
        r <= matches.len(),
{
    let mut i: usize = 0;
    while i < matches.len() && matches[i] != item
        invariant
            i <= matches.len(),
            lists::first_at(matches@, item, 0) == lists::first_at(matches@, item, i as int),
        decreases matches.len() - i,
    {
        i = i + 1;
    }
    i
}

/// What was highlighted stays highlighted when more items come: an item as long as it still
/// matches, and the row the query makes as long as it makes one.
pub proof fn the_highlight_stays_on_its_item(before: Picker, after: Picker)
    requires
        before.wf(),
        after.wf(),
        after.items@.len() >= before.items@.len(),
        after.items@.take(before.items@.len() as int) == before.items@,
        after.selected == kept_row(before, after.matches@, after.derived is Some),
    ensures
        before.selected < before.matches.len() && after.matches@.contains(
            before.matches@[before.selected as int],
        ) ==> after.selected < after.matches.len() && after.item(after.selected as int)
            == before.item(before.selected as int),
        before.selected >= before.matches.len() && before.derived is Some && after.derived is Some
            ==> after.selected == after.matches.len() && after.item(after.selected as int) == after.derived,
{
    if before.selected < before.matches.len() && after.matches@.contains(
        before.matches@[before.selected as int],
    ) {
        let item = before.matches@[before.selected as int];
        lists::lemma_first_at(after.matches@, item, 0);
        assert(after.items@.take(before.items@.len() as int)[item as int] == after.items@[item as int]);
    }
}

/// A column that wants no more than half of the row gets what it wants, and where both want more
/// they share the row evenly.
pub proof fn a_short_column_gets_what_it_wants(label: int, detail: int)
    requires
        0 <= label,
        0 <= detail,
    ensures
        2 * label <= ROW_CHARS ==> budgets(label, detail).0 == label,
        2 * detail <= ROW_CHARS ==> budgets(label, detail).1 == detail,
        label + detail <= ROW_CHARS ==> budgets(label, detail) == (label, detail),
        2 * label > ROW_CHARS && 2 * detail > ROW_CHARS && label + detail > ROW_CHARS + 1
            ==> budgets(label, detail).0 <= budgets(label, detail).1 <= budgets(label, detail).0 + 1,
{
}

/// The rows are the matches in their order, each the item it stands for, and after them the one
/// that the query makes.
pub proof fn the_rows_are_the_matches_and_what_the_query_makes(picker: Picker, row: int)
    requires
        picker.wf(),
    ensures
        0 <= row < picker.matches.len() ==> picker.item(row) == Some(
            picker.items[picker.matches[row] as int],
        ),
        row >= picker.matches.len() ==> picker.item(row) == picker.derived,
        picker.derived is None ==> picker.rows() == picker.matches.len(),
        picker.derived is Some ==> picker.rows() == picker.matches.len() + 1 && picker.item(
            picker.rows() - 1,
        ) == picker.derived,
{
}

/// Where the row that was highlighted is gone, the highlight goes to the top.
pub proof fn a_highlight_that_is_lost_goes_to_the_top(
    before: Picker,
    matches: Seq<usize>,
    derived: bool,
)
    ensures
        before.selected < before.matches.len() && !matches.contains(
            before.matches@[before.selected as int],
        ) ==> kept_row(before, matches, derived) == 0,
        before.selected >= before.matches.len() && (before.derived is None || !derived)
            ==> kept_row(before, matches, derived) == 0,
{
    if before.selected < before.matches.len() {
        let item = before.matches@[before.selected as int];
        lists::lemma_first_at(matches, item, 0);
        let at = lists::first_at(matches, item, 0);
        if at < matches.len() {
            assert(matches.contains(matches[at]));
        }
    }
}

/// An empty list says what it would hold until something is typed, and then says what was typed.
pub proof fn an_empty_list_says_what_was_sought(query: Seq<char>, hint: Seq<char>)
    ensures
        query.len() == 0 ==> empty_text(query, hint) == hint,
        query.len() > 0 ==> strings::has_substring(empty_text(query, hint), query),
        query.len() > 0 ==> strings::has_prefix(empty_text(query, hint), "Nothing matches"@),
{
    if query.len() > 0 {
        reveal_strlit("Nothing matches");
        reveal_strlit("Nothing matches “");
        let lead = "Nothing matches “"@;
        strings::a_substring_has_something_on_either_side(
            lead,
            query,
            "”"@,
            empty_text(query, hint),
        );
        assert(empty_text(query, hint).subrange(0, "Nothing matches"@.len() as int)
            =~= "Nothing matches"@);
    }
}

} // verus!
