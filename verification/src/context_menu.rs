//! A menu of actions, opened where the pointer is.

use crate::commands::Action;
use vstd::prelude::*;
use vstd::string::*;

verus! {

/// What choosing a row does. The menu hands it out without doing it, so that it can be closed
/// first.
pub enum MenuCommand {
    Dispatch(Action),
    OpenUrl(String),
    /// Close and do nothing: the way out of a question.
    Dismiss,
}

impl Clone for MenuCommand {
    fn clone(&self) -> (r: MenuCommand)
        ensures
            r == *self,
    {
        match self {
            MenuCommand::Dispatch(action) => MenuCommand::Dispatch(*action),
            MenuCommand::OpenUrl(url) => MenuCommand::OpenUrl(url.clone()),
            MenuCommand::Dismiss => MenuCommand::Dismiss,
        }
    }
}

/// A row that can be chosen.
pub struct MenuItem {
    pub label: String,
    /// The right-hand column: a keystroke for an action, any short text otherwise.
    pub detail: String,
    pub command: MenuCommand,
}

impl MenuItem {
    /// A row that runs an action, with the keystroke that runs it where the menu was opened.
    pub fn new(label: &str, action: Action, keystroke: &str) -> (r: MenuItem)
        ensures
            r.label@ == label@,
            r.detail@ == keystroke@,
            r.command == MenuCommand::Dispatch(action),
    {
        MenuItem {
            label: label.to_owned(),
            detail: keystroke.to_owned(),
            command: MenuCommand::Dispatch(action),
        }
    }

    /// A row that opens a link.
    pub fn url(label: &str, detail: &str, url: &str) -> (r: MenuItem)
        ensures
            r.label@ == label@,
            r.detail@ == detail@,
            r.command matches MenuCommand::OpenUrl(to) && to@ == url@,
    {
        MenuItem {
            label: label.to_owned(),
            detail: detail.to_owned(),
            command: MenuCommand::OpenUrl(url.to_owned()),
        }
    }

    /// A row that just closes the menu.
    pub fn dismiss(label: &str) -> (r: MenuItem)
        ensures
            r.label@ == label@,
            r.detail@.len() == 0,
            r.command == MenuCommand::Dismiss,
    {
        MenuItem {
            label: label.to_owned(),
            detail: String::new(),
            command: MenuCommand::Dismiss,
        }
    }

    /// A row that spells out a consequence. It is reached from the row above it and has no
    /// keystroke.
    pub fn plain(label: &str, action: Action) -> (r: MenuItem)
        ensures
            r.label@ == label@,
            r.detail@.len() == 0,
            r.command == MenuCommand::Dispatch(action),
    {
        MenuItem {
            label: label.to_owned(),
            detail: String::new(),
            command: MenuCommand::Dispatch(action),
        }
    }
}

/// A row, or the rule between two groups of them.
pub enum MenuRow {
    Item(MenuItem),
    Separator,
}

/// What a menu reports.
pub enum ContextMenuEvent {
    Dismissed,
    Chose(MenuCommand),
}

/// The first row at or after `from` that can be chosen.
pub open spec fn item_from(rows: Seq<MenuRow>, from: int) -> Option<int>
    decreases rows.len() - from,
{
    if from >= rows.len() {
        None
    } else if rows[from] is Item {
        Some(from)
    } else {
        item_from(rows, from + 1)
    }
}

/// The last row before `to` that can be chosen.
pub open spec fn item_before(rows: Seq<MenuRow>, to: int) -> Option<int>
    decreases to,
{
    if to <= 0 {
        None
    } else if rows[to - 1] is Item {
        Some(to - 1)
    } else {
        item_before(rows, to - 1)
    }
}

/// Where a step leads: to the next row that can be chosen in its direction, and nowhere past the
/// last one.
pub open spec fn step_to(rows: Seq<MenuRow>, selected: int, delta: int) -> int {
    let found = if delta > 0 {
        item_from(rows, selected + 1)
    } else if delta < 0 {
        item_before(rows, selected)
    } else {
        None
    };
    match found {
        Some(at) => at,
        None => selected,
    }
}

proof fn lemma_item_from(rows: Seq<MenuRow>, from: int)
    requires
        0 <= from,
    ensures
        match item_from(rows, from) {
            Some(at) => from <= at < rows.len() && rows[at] is Item && forall|i: int|
                from <= i < at ==> !(#[trigger] rows[i] is Item),
            None => forall|i: int| from <= i < rows.len() ==> !(#[trigger] rows[i] is Item),
        },
    decreases rows.len() - from,
{
    if from < rows.len() && !(rows[from] is Item) {
        lemma_item_from(rows, from + 1);
    }
}

proof fn lemma_item_before(rows: Seq<MenuRow>, to: int)
    requires
        to <= rows.len(),
    ensures
        match item_before(rows, to) {
            Some(at) => 0 <= at < to && rows[at] is Item && forall|i: int|
                at < i < to ==> !(#[trigger] rows[i] is Item),
            None => forall|i: int| 0 <= i < to ==> !(#[trigger] rows[i] is Item),
        },
    decreases to,
{
    if to > 0 && !(rows[to - 1] is Item) {
        lemma_item_before(rows, to - 1);
    }
}

/// A menu that is open.
pub struct ContextMenu {
    pub rows: Vec<MenuRow>,
    pub selected: usize,
}

impl ContextMenu {
    /// The selection is on a row that can be chosen, where the menu has any.
    pub open spec fn wf(&self) -> bool {
        if item_from(self.rows@, 0) is Some {
            self.selected < self.rows.len() && self.rows[self.selected as int] is Item
        } else {
            self.selected == 0
        }
    }

    /// A menu over `rows`, on the first that can be chosen.
    pub fn new(rows: Vec<MenuRow>) -> (r: ContextMenu)
        ensures
            r.wf(),
            r.rows == rows,
            r.selected == (match item_from(rows@, 0) {
                Some(at) => at,
                None => 0,
            }),
    {
        proof {
            lemma_item_from(rows@, 0);
        }
        let mut i: usize = 0;
        while i < rows.len()
            invariant
                i <= rows.len(),
                item_from(rows@, 0) == item_from(rows@, i as int),
            decreases rows.len() - i,
        {
            if matches!(rows[i], MenuRow::Item(_)) {
                return ContextMenu { rows, selected: i };
            }
            i = i + 1;
        }
        ContextMenu { rows, selected: 0 }
    }

    /// Move the selection to the next row in a direction, over the separators. The menu is short
    /// enough to see whole, so it does not go round.
    pub fn select(&mut self, delta: isize)
        requires
            old(self).wf(),
        ensures
            final(self).wf(),
            *final(self) == (ContextMenu { selected: final(self).selected, ..*old(self) }),
            final(self).selected == step_to(
                old(self).rows@,
                old(self).selected as int,
                delta as int,
            ),
    {
        proof {
            lemma_item_from(self.rows@, 0);
        }
        if delta > 0 {
            if self.selected >= self.rows.len() {
                return;
            }
            let mut at: usize = self.selected + 1;
            while at < self.rows.len()
                invariant
                    self.wf(),
                    *self == *old(self),
                    self.selected < at <= self.rows.len(),
                    item_from(self.rows@, self.selected + 1) == item_from(self.rows@, at as int),
                    delta > 0,
                decreases self.rows.len() - at,
            {
                if matches!(self.rows[at], MenuRow::Item(_)) {
                    self.selected = at;
                    return;
                }
                at = at + 1;
            }
        } else if delta < 0 {
            let mut at: usize = self.selected;
            while at > 0
                invariant
                    self.wf(),
                    *self == *old(self),
                    at <= self.selected <= self.rows.len(),
                    item_before(self.rows@, self.selected as int) == item_before(
                        self.rows@,
                        at as int,
                    ),
                    delta < 0,
                decreases at,
            {
                at = at - 1;
                if matches!(self.rows[at], MenuRow::Item(_)) {
                    self.selected = at;
                    return;
                }
            }
        }
    }

    /// Put the selection on a row: the one under the pointer.
    pub fn hover(&mut self, ix: usize)
        requires
            ix < old(self).rows.len(),
            old(self).rows[ix as int] is Item,
        ensures
            final(self).wf(),
            *final(self) == (ContextMenu { selected: ix, ..*old(self) }),
    {
        proof {
            lemma_item_from(self.rows@, 0);
        }
        self.selected = ix;
    }

    /// What the selected row does; nothing where the menu has no row to choose.
    pub open spec fn chosen(&self) -> Option<MenuCommand> {
        if self.selected < self.rows.len() {
            match self.rows[self.selected as int] {
                MenuRow::Item(item) => Some(item.command),
                MenuRow::Separator => None,
            }
        } else {
            None
        }
    }

    /// What the selected row does, to be done once the menu is closed.
    pub fn confirm(&self) -> (r: Option<ContextMenuEvent>)
        ensures
            r == (match self.chosen() {
                Some(command) => Some(ContextMenuEvent::Chose(command)),
                None => None,
            }),
    {
        if self.selected < self.rows.len() {
            match &self.rows[self.selected] {
                MenuRow::Item(item) => Some(ContextMenuEvent::Chose(item.command.clone())),
                MenuRow::Separator => None,
            }
        } else {
            None
        }
    }

    /// Select a row and take it.
    pub fn choose_row(&mut self, ix: usize) -> (r: Option<ContextMenuEvent>)
        requires
            ix < old(self).rows.len(),
            old(self).rows[ix as int] is Item,
        ensures
            final(self).wf(),
            *final(self) == (ContextMenu { selected: ix, ..*old(self) }),
            r == Some(ContextMenuEvent::Chose(old(self).rows[ix as int]->Item_0.command)),
    {
        self.hover(ix);
        self.confirm()
    }
}

/// A step lands on a row that can be chosen, never on a separator, and stays in the menu.
pub proof fn a_step_lands_on_an_item(menu: ContextMenu, delta: int)
    requires
        menu.wf(),
        item_from(menu.rows@, 0) is Some,
    ensures
        0 <= step_to(menu.rows@, menu.selected as int, delta) < menu.rows.len(),
        menu.rows[step_to(menu.rows@, menu.selected as int, delta)] is Item,
{
    lemma_item_from(menu.rows@, menu.selected + 1);
    lemma_item_before(menu.rows@, menu.selected as int);
}

/// A step that moved is undone by a step the other way.
pub proof fn stepping_back_returns(menu: ContextMenu, delta: int)
    requires
        menu.wf(),
        item_from(menu.rows@, 0) is Some,
        step_to(menu.rows@, menu.selected as int, delta) != menu.selected,
    ensures
        step_to(menu.rows@, step_to(menu.rows@, menu.selected as int, delta), -delta)
            == menu.selected,
{
    let rows = menu.rows@;
    let from = menu.selected as int;
    let to = step_to(rows, from, delta);
    lemma_item_from(rows, from + 1);
    lemma_item_before(rows, from);
    if delta > 0 {
        lemma_item_before(rows, to);
        match item_before(rows, to) {
            Some(at) => {
                assert(rows[at] is Item);
                assert(rows[from] is Item);
            },
            None => {
                assert(rows[from] is Item);
            },
        }
    } else {
        lemma_item_from(rows, to + 1);
        match item_from(rows, to + 1) {
            Some(at) => {
                assert(rows[at] is Item);
                assert(rows[from] is Item);
            },
            None => {
                assert(rows[from] is Item);
            },
        }
    }
}

/// A step down goes to the nearest row below that can be chosen and a step up to the nearest
/// above, over separators alone; where there is none, it stays.
pub proof fn a_step_goes_to_the_nearest_item(rows: Seq<MenuRow>, selected: int, delta: int)
    requires
        0 <= selected < rows.len(),
    ensures
        ({
            let to = step_to(rows, selected, delta);
            &&& delta > 0 ==> to >= selected && (forall|i: int|
                selected < i < to ==> #[trigger] rows[i] is Separator)
            &&& delta > 0 && to == selected ==> forall|i: int|
                selected < i < rows.len() ==> #[trigger] rows[i] is Separator
            &&& delta < 0 ==> to <= selected && (forall|i: int|
                to < i < selected ==> #[trigger] rows[i] is Separator)
            &&& delta < 0 && to == selected ==> forall|i: int|
                0 <= i < selected ==> #[trigger] rows[i] is Separator
            &&& delta == 0 ==> to == selected
            &&& to != selected ==> 0 <= to < rows.len() && rows[to] is Item
        }),
{
    lemma_item_from(rows, selected + 1);
    lemma_item_before(rows, selected);
}

/// A menu opens on the first row that can be chosen, and what is chosen is what that row does.
pub proof fn a_menu_opens_on_its_first_item(menu: ContextMenu, first: int)
    requires
        0 <= first < menu.rows.len(),
        menu.rows[first] is Item,
        forall|i: int| 0 <= i < first ==> #[trigger] menu.rows[i] is Separator,
    ensures
        item_from(menu.rows@, 0) == Some(first),
        menu.selected == first ==> menu.chosen() == Some(menu.rows[first]->Item_0.command),
        menu.selected >= menu.rows.len() ==> menu.chosen() is None,
{
    lemma_item_from(menu.rows@, 0);
    let found = item_from(menu.rows@, 0);
    assert(menu.rows@[first] is Item);
    if let Some(at) = found {
        if at < first {
            assert(menu.rows[at] is Separator);
        }
    }
}

} // verus!
