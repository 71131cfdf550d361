//! The actions that one configuration file declares.

use crate::actions::action::{Action, ActionEntry, ActionView};
use crate::utils::error::{Error, ErrorView};
use crate::utils::report::{outcome_of, Report};
use crate::utils::text::same_text;
use vstd::prelude::*;
use vstd::string::StringExecFns;

verus! {

/// The entries of a configuration file, in the order written.
#[derive(Debug)]
pub struct GroupActions {
    actions: Vec<ActionEntry>,
}

/// The actions of a group, each under its name. No name occurs twice.
#[derive(Debug)]
pub struct Group {
    actions: Vec<(String, Action)>,
}

/// What a `Group` stands for: names and actions in the order declared.
pub type GroupView = Seq<(Seq<char>, ActionView)>;

/// The names and actions that a list of entries configures.
pub open spec fn configured_by(entries: Seq<ActionEntry>) -> GroupView {
    Seq::new(entries.len(), |i: int| (entries[i].name(), entries[i].configured()))
}

/// The names of a group, in order.
pub open spec fn names_of(group: GroupView) -> Seq<Seq<char>> {
    Seq::new(group.len(), |i: int| group[i].0)
}

/// The message for a name that a second action of a group bears.
pub open spec fn duplicate_name_message(name: Seq<char>) -> Seq<char> {
    "Duplicate action named '"@ + name + "'"@
}

/// The entries that make up the group: each one whose name no earlier entry
/// that was kept bears.
pub open spec fn kept(entries: GroupView) -> GroupView
    decreases entries.len(),
{
    if entries.len() == 0 {
        Seq::empty()
    } else if names_of(kept(entries.drop_last())).contains(entries.last().0) {
        kept(entries.drop_last())
    } else {
        kept(entries.drop_last()).push(entries.last())
    }
}

/// The errors of a list of entries: one for each entry that bears the name
/// of an earlier one, in order.
pub open spec fn repeated_names(entries: GroupView) -> Seq<ErrorView>
    decreases entries.len(),
{
    if entries.len() == 0 {
        Seq::empty()
    } else if names_of(kept(entries.drop_last())).contains(entries.last().0) {
        repeated_names(entries.drop_last()).push(
            ErrorView::Message(duplicate_name_message(entries.last().0)),
        )
    } else {
        repeated_names(entries.drop_last())
    }
}

impl GroupActions {
    /// The given entries, as a file would declare them.
    pub fn new(actions: Vec<ActionEntry>) -> (entries: GroupActions)
        ensures
            entries@ == configured_by(actions@),
    {
        GroupActions { actions }
    }
}

impl View for GroupActions {
    type V = GroupView;

    closed spec fn view(&self) -> GroupView {
        configured_by(self.actions@)
    }
}

/// The names and the views of a list of named actions.
pub open spec fn named(actions: Seq<(String, Action)>) -> GroupView {
    Seq::new(actions.len(), |i: int| (actions[i].0@, actions[i].1@))
}

impl View for Group {
    type V = GroupView;

    closed spec fn view(&self) -> GroupView {
        named(self.actions@)
    }
}

/// Whether one of the actions bears `name`.
fn contains_name(actions: &Vec<(String, Action)>, name: &str) -> (found: bool)
    ensures
        found == names_of(named(actions@)).contains(name@),
{
    let mut i: usize = 0;
    while i < actions.len()
        invariant
            i <= actions.len(),
            forall|j: int| 0 <= j < i ==> names_of(named(actions@))[j] != name@,
        decreases actions.len() - i,
    {
        if same_text(actions[i].0.as_str(), name) {
            assert(names_of(named(actions@))[i as int] == name@);
            return true;
        }
        i += 1;
    }
    false
}

impl Group {
    #[verifier::type_invariant]
    spec fn distinct(self) -> bool {
        forall|i: int, j: int|
            0 <= i < j < self.actions.len() ==> (#[trigger] self.actions[i]).0@ != (
            #[trigger] self.actions[j]).0@
    }

    /// The group that a file configures. Each action must have a name of its
    /// own: every entry that repeats a name is an error, and with one such
    /// entry there is no group.
    pub fn from_deserialized(deserialized_actions: GroupActions) -> (result: Result<Group, Error>)
        ensures
            match result {
                Ok(group) => repeated_names(deserialized_actions@).len() == 0 && group@ == kept(
                    deserialized_actions@,
                ),
                Err(error) => outcome_of(repeated_names(deserialized_actions@), ()) == Err::<
                    (),
                    _,
                >(error@),
            },
    {
        let mut actions: Vec<(String, Action)> = Vec::new();
        let mut report = Report::new();
        let ghost all = deserialized_actions@;
        assert(all.take(0) =~= Seq::<(Seq<char>, ActionView)>::empty());
        assert(named(actions@) =~= Seq::<(Seq<char>, ActionView)>::empty());
        for action_entry in iter: deserialized_actions.actions
            invariant
                iter.seq() == deserialized_actions.actions@,
                all == configured_by(deserialized_actions.actions@),
                named(actions@) == kept(all.take(iter.index() as int)),
                report@ == repeated_names(all.take(iter.index() as int)),
                forall|i: int, j: int|
                    0 <= i < j < actions.len() ==> (#[trigger] actions[i]).0@ != (
                    #[trigger] actions[j]).0@,
        {
            let ghost at = iter.index() as int;
            proof {
                assert(all.take(at + 1).drop_last() =~= all.take(at));
                assert(all.take(at + 1).last() == all[at]);
                assert(all[at] == (action_entry.name(), action_entry.configured()));
            }
            match Action::from_deserialized(action_entry) {
                Ok((name, action)) => {
                    if contains_name(&actions, name.as_str()) {
                        let mut message = String::from_str("Duplicate action named '");
                        message.append(name.as_str());
                        message.append("'");
                        report.add(Error::DynamicMessage(message));
                    } else {
                        let ghost before = named(actions@);
                        proof {
                            assert forall|i: int| 0 <= i < actions.len() implies (
                            #[trigger] actions[i]).0@ != name@ by {
                                assert(names_of(before)[i] == actions[i].0@);
                            }
                        }
                        actions.push((name, action));
                        assert(named(actions@) =~= before.push((name@, action@)));
                    }
                },
                Err(_) => {},
            }
        }
        assert(all.take(all.len() as int) =~= all);
        match report.wrap(Group { actions }) {
            Ok(group) => Ok(group),
            Err(error) => Err(error),
        }
    }

    /// How many actions the group has.
    pub fn action_count(&self) -> (count: usize)
        ensures
            count == self@.len(),
    {
        self.actions.len()
    }

    /// The names and actions of the group, in the order declared.
    pub fn enumerate_actions(&self) -> (actions: &Vec<(String, Action)>)
        ensures
            actions.len() == self@.len(),
            forall|i: int|
                0 <= i < actions.len() ==> (actions[i].0@, actions[i].1@) == #[trigger] self@[i],
    {
        &self.actions
    }

    /// The names of the actions of the group, in the order declared. No name
    /// occurs twice.
    pub fn enumerate_action_names(&self) -> (names: Vec<&str>)
        ensures
            names.len() == self@.len(),
            forall|i: int| 0 <= i < names.len() ==> names[i]@ == (#[trigger] self@[i]).0,
            names_of(self@).no_duplicates(),
    {
        proof {
            use_type_invariant(self);
            assert forall|i: int, j: int|
                0 <= i < names_of(self@).len() && 0 <= j < names_of(self@).len() && i
                    != j implies names_of(self@)[i] != names_of(self@)[j] by {
                if i < j {
                    assert(self.actions[i].0@ != self.actions[j].0@);
                } else {
                    assert(self.actions[j].0@ != self.actions[i].0@);
                }
            }
        }
        let mut names: Vec<&str> = Vec::new();
        let mut i: usize = 0;
        while i < self.actions.len()
            invariant
                i <= self.actions.len(),
                names.len() == i,
                forall|j: int| 0 <= j < i ==> names[j]@ == (#[trigger] self@[j]).0,
            decreases self.actions.len() - i,
        {
            names.push(self.actions[i].0.as_str());
            i += 1;
        }
        names
    }

    /// The names and actions of the group, in the order declared.
    pub fn into_enumerated_actions(self) -> (actions: Vec<(String, Action)>)
        ensures
            actions.len() == self@.len(),
            forall|i: int|
                0 <= i < actions.len() ==> (actions[i].0@, actions[i].1@) == #[trigger] self@[i],
    {
        self.actions
    }
}

} // verus!
