//! The flow editor: the set of flows, and the order of the steps inside one.
//!
//! A flow is kept in a file. Reading and writing it is left to the caller.

use crate::input::text_input;
use crate::input::text_input::TextInput;
use crate::lists;
use crate::strings;
use vstd::prelude::*;
use vstd::string::*;

verus! {

/// A flow: requests by their paths, in the order in which they run.
pub struct Flow {
    pub name: String,
    pub steps: Vec<String>,
}

/// What the editor reports.
#[derive(Clone, Copy, Debug, PartialEq, Eq, Structural)]
pub enum FlowEvent {
    /// A flow was renamed or removed.
    Changed,
}

/// What the open name box asks for.
pub enum Naming {
    Create { label: String },
    Rename { from: String, label: String },
}

/// The editor.
pub struct FlowPanel {
    pub flows: Vec<Flow>,
    pub selected: usize,
    /// Which step of the selected flow the keyboard is on.
    pub step: usize,
    pub renaming: Option<TextInput>,
    pub creating: Option<TextInput>,
    pub message: Option<String>,
}

/// The names of flows.
pub open spec fn names_of(flows: Seq<Flow>) -> Seq<Seq<char>> {
    flows.map_values(|flow: Flow| flow.name@)
}

/// Where a wanted flow is listed; the first place where it is not, or none is wanted.
pub open spec fn place(names: Seq<Seq<char>>, wanted: Option<Seq<char>>) -> int {
    match wanted {
        Some(name) => if lists::first_at(names, name, 0) < names.len() {
            lists::first_at(names, name, 0)
        } else {
            0
        },
        None => 0,
    }
}

/// Two entries of a list, exchanged.
pub open spec fn exchanged<T>(list: Seq<T>, a: int, b: int) -> Seq<T> {
    list.update(a, list[b]).update(b, list[a])
}

/// Whether a box is open on a name.
pub open spec fn opens_on(
    input: Option<TextInput>,
    name: Seq<char>,
    placeholder: Seq<char>,
) -> bool {
    input matches Some(open) && open@ == text_input::fresh_input(name, placeholder, "FlowName"@)
}

fn position(flows: &Vec<Flow>, name: &str) -> (r: usize)
    ensures
        r == place(names_of(flows@), Some(name@)),
        flows.len() > 0 ==> r < flows.len(),
{
    let ghost names = names_of(flows@);
    let mut i: usize = 0;
    while i < flows.len()
        invariant
            i <= flows.len(),
            names == names_of(flows@),
            lists::first_at(names, name@, 0) == lists::first_at(names, name@, i as int),
        decreases flows.len() - i,
    {
        proof {
            assert(names[i as int] == flows[i as int].name@);
        }
        if strings::same(flows[i].name.as_str(), name) {
            return i;
        }
        i = i + 1;
    }
    0
}

impl FlowPanel {
    /// A flow is selected where there is any, and every box is sound.
    pub open spec fn wf(&self) -> bool {
        &&& self.flows.len() > 0 ==> self.selected < self.flows.len()
        &&& self.renaming matches Some(input) ==> input@.wf()
        &&& self.creating matches Some(input) ==> input@.wf()
    }

    /// The selected flow.
    pub open spec fn current(&self) -> Option<Flow> {
        if self.selected < self.flows.len() {
            Some(self.flows[self.selected as int])
        } else {
            None
        }
    }

    /// The steps of the selected flow.
    pub open spec fn steps(&self) -> Seq<String> {
        match self.current() {
            Some(flow) => flow.steps@,
            None => Seq::empty(),
        }
    }

    pub open spec fn naming(&self) -> bool {
        self.renaming is Some || self.creating is Some
    }

    /// Nothing but the steps of the selected flow, and the step that is selected, differs from
    /// `before`.
    pub open spec fn differs_in_steps(&self, before: FlowPanel) -> bool {
        &&& *self == (FlowPanel { flows: self.flows, step: self.step, ..before })
        &&& self.flows.len() == before.flows.len()
        &&& forall|i: int|
            0 <= i < self.flows.len() && i != self.selected ==> #[trigger] self.flows[i]
                == before.flows[i]
        &&& self.selected < self.flows.len() ==> self.flows[self.selected as int].name
            == before.flows[self.selected as int].name
    }

    /// The editor over the flows there are, on the first step of the first.
    pub fn new(flows: Vec<Flow>) -> (r: FlowPanel)
        ensures
            r.wf(),
            r == (FlowPanel {
                flows,
                selected: 0,
                step: 0,
                renaming: None,
                creating: None,
                message: None,
            }),
    {
        FlowPanel { flows, selected: 0, step: 0, renaming: None, creating: None, message: None }
    }

    /// Step through the flows, going round at both ends. Not while one is being named.
    pub fn select(&mut self, delta: isize)
        requires
            old(self).wf(),
        ensures
            final(self).wf(),
            if old(self).flows.len() == 0 || old(self).naming() {
                *final(self) == *old(self)
            } else {
                *final(self) == (FlowPanel {
                    selected: lists::wrapped(
                        old(self).selected as int,
                        delta as int,
                        old(self).flows.len() as int,
                    ) as usize,
                    step: 0,
                    ..*old(self)
                })
            },
    {
        if self.flows.len() == 0 || self.renaming.is_some() || self.creating.is_some() {
            return;
        }
        self.selected = lists::wrap(self.selected, delta, self.flows.len());
        self.step = 0;
    }

    /// Go to a flow.
    pub fn select_at(&mut self, ix: usize)
        requires
            old(self).wf(),
        ensures
            final(self).wf(),
            *final(self) == (if ix < old(self).flows.len() {
                (FlowPanel { selected: ix, step: 0, ..*old(self) })
            } else {
                *old(self)
            }),
    {
        if ix < self.flows.len() {
            self.selected = ix;
            self.step = 0;
        }
    }

    /// Go to a step.
    pub fn select_step(&mut self, ix: usize)
        requires
            old(self).wf(),
        ensures
            final(self).wf(),
            *final(self) == (FlowPanel { step: ix, ..*old(self) }),
    {
        self.step = ix;
    }

    /// Move between the steps, going round at both ends. The steps themselves stay.
    pub fn step_selection(&mut self, delta: isize)
        requires
            old(self).wf(),
        ensures
            final(self).wf(),
            *final(self) == (if old(self).steps().len() == 0 {
                *old(self)
            } else {
                (FlowPanel {
                    step: lists::wrapped(
                        old(self).step as int,
                        delta as int,
                        old(self).steps().len() as int,
                    ) as usize,
                    ..*old(self)
                })
            }),
    {
        if self.selected >= self.flows.len() {
            return;
        }
        let count: usize = self.flows[self.selected].steps.len();
        if count == 0 {
            return;
        }
        self.step = lists::wrap_from(self.step, delta, count);
    }

    /// Move the selected step, and the selection with it. Whether it moved: the flow is then to be
    /// written. It goes no further than either end.
    pub fn move_step(&mut self, delta: isize) -> (r: bool)
        requires
            old(self).wf(),
            0 <= old(self).step + delta < old(self).steps().len() ==> old(self).step < old(
                self,
            ).steps().len(),
        ensures
            final(self).wf(),
            r == (0 <= old(self).step + delta < old(self).steps().len()),
            !r ==> *final(self) == *old(self),
            r ==> {
                &&& final(self).differs_in_steps(*old(self))
                &&& final(self).step == old(self).step + delta
                &&& final(self).steps() == exchanged(
                    old(self).steps(),
                    old(self).step as int,
                    old(self).step + delta,
                )
            },
    {
        if self.selected >= self.flows.len() {
            return false;
        }
        let count: usize = self.flows[self.selected].steps.len();
        let from: usize = self.step;
        if from >= count {
            return false;
        }
        let to: usize = if delta >= 0 {
            let forward: usize = delta as usize;
            if forward >= count - from {
                return false;
            }
            from + forward
        } else {
            let back: usize = (-(delta + 1)) as usize;
            if back >= from {
                return false;
            }
            from - back - 1
        };
        let moved: String = self.flows[self.selected].steps[from].clone();
        let other: String = self.flows[self.selected].steps[to].clone();
        self.flows[self.selected].steps.set(from, other);
        self.flows[self.selected].steps.set(to, moved);
        self.step = to;
        true
    }

    /// Take the selected step out. Whether there was one: the flow is then to be written.
    pub fn remove_step(&mut self) -> (r: bool)
        requires
            old(self).wf(),
        ensures
            final(self).wf(),
            r == (old(self).step < old(self).steps().len()),
            !r ==> *final(self) == *old(self),
            r ==> {
                &&& final(self).differs_in_steps(*old(self))
                &&& final(self).steps() == old(self).steps().remove(old(self).step as int)
                &&& final(self).step == (if old(self).step + 1 < old(self).steps().len() {
                    old(self).step as int
                } else if old(self).steps().len() > 1 {
                    old(self).steps().len() - 2
                } else {
                    0
                })
            },
    {
        if self.selected >= self.flows.len() {
            return false;
        }
        if self.step >= self.flows[self.selected].steps.len() {
            return false;
        }
        let at: usize = self.step;
        self.flows[self.selected].steps.remove(at);
        let left: usize = self.flows[self.selected].steps.len();
        if self.step >= left {
            self.step = if left > 0 {
                left - 1
            } else {
                0
            };
        }
        true
    }

    /// Take what writing the flow came to.
    pub fn persisted(&mut self, outcome: Result<(), String>)
        requires
            old(self).wf(),
        ensures
            final(self).wf(),
            *final(self) == (match outcome {
                Ok(_) => *old(self),
                Err(error) => FlowPanel { message: Some(error), ..*old(self) },
            }),
    {
        match outcome {
            Ok(_) => {},
            Err(error) => {
                self.message = Some(error);
            },
        }
    }

    /// Open the box in which a new flow is named.
    pub fn start_new(&mut self)
        requires
            old(self).wf(),
        ensures
            final(self).wf(),
            *final(self) == (FlowPanel {
                creating: final(self).creating,
                renaming: None,
                ..*old(self)
            }),
            opens_on(final(self).creating, Seq::empty(), "user-lifecycle"@),
    {
        proof {
            reveal_strlit("");
            assert(""@ =~= Seq::<char>::empty());
        }
        self.creating = Some(TextInput::new("", "user-lifecycle", "FlowName"));
        self.renaming = None;
    }

    /// Open the box in which the selected flow is renamed.
    pub fn start_rename(&mut self)
        requires
            old(self).wf(),
        ensures
            final(self).wf(),
            match old(self).current() {
                Some(flow) => *final(self) == (FlowPanel {
                    renaming: final(self).renaming,
                    creating: None,
                    ..*old(self)
                }) && opens_on(final(self).renaming, flow.name@, "name"@),
                None => *final(self) == *old(self),
            },
    {
        if self.selected >= self.flows.len() {
            return;
        }
        let input = TextInput::new(self.flows[self.selected].name.as_str(), "name", "FlowName");
        self.renaming = Some(input);
        self.creating = None;
    }

    /// The flow to be moved to the trash.
    pub fn trash_selected(&self) -> (r: Option<String>)
        ensures
            strings::opt_text(r) == (match self.current() {
                Some(flow) => Some(flow.name@),
                None => None,
            }),
    {
        if self.selected >= self.flows.len() {
            return None;
        }
        Some(self.flows[self.selected].name.clone())
    }

    /// Take what moving a flow to the trash came to. Where it went, the flows are to be listed
    /// again.
    pub fn trashed(&mut self, outcome: Result<(), String>) -> (r: Option<FlowEvent>)
        requires
            old(self).wf(),
        ensures
            final(self).wf(),
            match outcome {
                Ok(_) => *final(self) == *old(self) && r == Some(FlowEvent::Changed),
                Err(error) => *final(self) == (FlowPanel { message: Some(error), ..*old(self) })
                    && r is None,
            },
    {
        match outcome {
            Ok(_) => Some(FlowEvent::Changed),
            Err(error) => {
                self.message = Some(error);
                None
            },
        }
    }

    /// Take Enter: whether a name box was open, and what it asks for. A box that renames closes
    /// where there is no flow to rename; any other stays open until `named` is told how it went.
    pub fn confirm(&mut self) -> (r: (bool, Option<Naming>))
        requires
            old(self).wf(),
        ensures
            final(self).wf(),
            r.0 == old(self).naming(),
            match (old(self).creating, old(self).renaming, old(self).current()) {
                (Some(input), _, _) => *final(self) == *old(self) && (r.1 matches Some(
                    Naming::Create { label },
                ) && label@ == input@.surface.text),
                (None, Some(input), Some(flow)) => *final(self) == *old(self) && (r.1 matches Some(
                    Naming::Rename { from, label },
                ) && from@ == flow.name@ && label@ == input@.surface.text),
                (None, Some(input), None) => *final(self) == (FlowPanel {
                    renaming: None,
                    ..*old(self)
                }) && r.1 is None,
                (None, None, _) => *final(self) == *old(self) && r.1 is None,
            },
    {
        match &self.creating {
            Some(input) => {
                return (true, Some(Naming::Create { label: input.text().to_owned() }));
            },
            None => {},
        }
        if self.selected >= self.flows.len() {
            let open = self.renaming.is_some();
            self.renaming = None;
            return (open, None);
        }
        match &self.renaming {
            Some(input) => (
                true,
                Some(
                    Naming::Rename {
                        from: self.flows[self.selected].name.clone(),
                        label: input.text().to_owned(),
                    },
                ),
            ),
            None => (false, None),
        }
    }

    /// Take what creating or renaming came to: the name that it has now, on which the flows are to
    /// be listed again, or what went wrong, which is said with the box still open.
    pub fn named(&mut self, naming: &Naming, outcome: Result<String, String>) -> (r: (
        Option<FlowEvent>,
        Option<String>,
    ))
        requires
            old(self).wf(),
        ensures
            final(self).wf(),
            match outcome {
                Ok(to) => *final(self) == *old(self) && r.1 == Some(to) && r.0 == (
                if naming is Rename {
                    Some(FlowEvent::Changed)
                } else {
                    None
                }),
                Err(error) => *final(self) == (FlowPanel { message: Some(error), ..*old(self) })
                    && r.0 is None && r.1 is None,
            },
    {
        match outcome {
            Ok(to) => {
                let event = match naming {
                    Naming::Create { label: _ } => None,
                    Naming::Rename { from: _, label: _ } => Some(FlowEvent::Changed),
                };
                (event, Some(to))
            },
            Err(error) => {
                self.message = Some(error);
                (None, None)
            },
        }
    }

    /// Close the open name box. Whether there was one.
    pub fn cancel(&mut self) -> (r: bool)
        requires
            old(self).wf(),
        ensures
            final(self).wf(),
            r == old(self).naming(),
            *final(self) == (if old(self).renaming is Some {
                (FlowPanel { renaming: None, ..*old(self) })
            } else {
                (FlowPanel { creating: None, ..*old(self) })
            }),
    {
        if self.renaming.is_some() {
            self.renaming = None;
            true
        } else if self.creating.is_some() {
            self.creating = None;
            true
        } else {
            false
        }
    }

    /// List the flows again, on the one that is given or else on the same as before.
    pub fn rescan(&mut self, select: Option<String>, flows: Vec<Flow>)
        requires
            old(self).wf(),
        ensures
            final(self).wf(),
            *final(self) == (FlowPanel {
                flows,
                selected: place(
                    names_of(flows@),
                    match (select, old(self).current()) {
                        (Some(name), _) => Some(name@),
                        (None, Some(flow)) => Some(flow.name@),
                        (None, None) => None,
                    },
                ) as usize,
                step: 0,
                renaming: None,
                creating: None,
                message: None,
            }),
    {
        let wanted: Option<String> = match select {
            Some(name) => Some(name),
            None => self.trash_selected(),
        };
        self.selected = match &wanted {
            Some(name) => position(&flows, name.as_str()),
            None => 0,
        };
        self.flows = flows;
        self.step = 0;
        self.renaming = None;
        self.creating = None;
        self.message = None;
    }
}

/// The number that stands before a step.
pub fn step_number(ix: usize) -> (r: String)
    requires
        ix < usize::MAX,
    ensures
        r@ == strings::decimal((ix + 1) as nat),
{
    strings::decimal_string((ix + 1) as u64)
}

/// The selection follows the step that is moved, the steps are the same ones, and moving it back
/// puts everything where it was.
pub proof fn moving_a_step_can_be_undone(steps: Seq<String>, from: int, to: int)
    requires
        0 <= from < steps.len(),
        0 <= to < steps.len(),
    ensures
        exchanged(steps, from, to)[to] == steps[from],
        exchanged(steps, from, to).to_multiset() == steps.to_multiset(),
        exchanged(exchanged(steps, from, to), to, from) == steps,
{
    let moved = exchanged(steps, from, to);
    broadcast use vstd::seq_lib::group_to_multiset_ensures;

    vstd::seq_lib::to_multiset_update(steps, from, steps[to]);
    vstd::seq_lib::to_multiset_update(steps.update(from, steps[to]), to, steps[from]);
    if from != to {
        assert(steps.update(from, steps[to])[to] == steps[to]);
    }
    assert(moved.to_multiset() =~= steps.to_multiset());
    assert(exchanged(moved, to, from) =~= steps);
}

/// A step that moves changes places with the one it passes, and no other step moves.
pub proof fn a_moved_step_changes_places(steps: Seq<String>, from: int, to: int, k: int)
    requires
        0 <= from < steps.len(),
        0 <= to < steps.len(),
        0 <= k < steps.len(),
    ensures
        exchanged(steps, from, to).len() == steps.len(),
        exchanged(steps, from, to)[to] == steps[from],
        exchanged(steps, from, to)[from] == steps[to],
        k != from && k != to ==> exchanged(steps, from, to)[k] == steps[k],
{
}

/// A flow that is wanted by name is the one that is gone to, the first of that name; where there
/// is none, or none is wanted, it is the first of all.
pub proof fn a_wanted_flow_is_gone_to(names: Seq<Seq<char>>, name: Seq<char>)
    ensures
        names.contains(name) ==> 0 <= place(names, Some(name)) < names.len() && names[place(
            names,
            Some(name),
        )] == name,
        forall|i: int| 0 <= i < place(names, Some(name)) ==> #[trigger] names[i] != name,
        !names.contains(name) ==> place(names, Some(name)) == 0,
        place(names, None) == 0,
{
    lists::lemma_first_at(names, name, 0);
    lists::nothing_is_found_later_than_it_stands(names, name, 0);
    let at = lists::first_at(names, name, 0);
    if at < names.len() {
        assert(names.contains(names[at]));
    }
    if names.contains(name) {
        let k = names.index_of(name);
        assert(names[k] == name);
    }
}

/// The steps shown are those of the selected flow.
pub proof fn the_steps_shown_are_the_selected_flows(panel: FlowPanel)
    ensures
        panel.selected < panel.flows.len() ==> panel.steps()
            == panel.flows[panel.selected as int].steps@ && panel.current() == Some(
            panel.flows[panel.selected as int],
        ),
        panel.selected >= panel.flows.len() ==> panel.steps().len() == 0 && panel.current() is None,
        panel.naming() <==> panel.renaming is Some || panel.creating is Some,
{
}

/// Editing the steps of a flow renames no flow, adds and removes none, and leaves the steps of the
/// others, which one is selected, and every field that is open.
pub proof fn editing_steps_leaves_the_flows(before: FlowPanel, after: FlowPanel, i: int)
    requires
        after.differs_in_steps(before),
        0 <= i < before.flows@.len(),
    ensures
        after.flows@.len() == before.flows@.len(),
        after.flows@[i].name == before.flows@[i].name,
        i != before.selected ==> after.flows@[i].steps == before.flows@[i].steps,
        after.selected == before.selected,
        after.renaming == before.renaming,
        after.creating == before.creating,
        after.message == before.message,
{
    assert(i != after.selected ==> after.flows[i] == before.flows[i]);
}

} // verus!
