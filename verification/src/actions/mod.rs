//! Actions as they are configured.

pub mod action;
pub mod commands;
pub mod group;
pub mod host;
pub mod refs;

use crate::actions::group::{Group, GroupView};
use crate::enabled_actions::path_views;
use crate::utils::action_path::{ActionPath, ActionPathView};
use crate::utils::error::{Error, ErrorView};
use crate::utils::location::{Location, LocationView};
use crate::utils::text::same_text;
use vstd::prelude::*;
use vstd::string::StringExecFns;

verus! {

/// What was found in the directory of configuration files: the name of each
/// file and the group it configures, or why it configures none.
pub type AllGroupsResults = Vec<(String, Result<Group, Error>)>;

/// What a group that was read, or failed to read, stands for.
pub type GroupResultView = Result<GroupView, ErrorView>;

/// The groups of a configuration, each under its name. No name occurs
/// twice.
#[derive(Debug)]
pub struct AllGroups {
    groups: Vec<(String, Group)>,
}

/// The view of what was found under one name.
pub open spec fn found_view(found: (String, Result<Group, Error>)) -> (
    Seq<char>,
    GroupResultView,
) {
    (
        found.0@,
        match found.1 {
            Ok(group) => Ok(group@),
            Err(error) => Err(error@),
        },
    )
}

/// The views of what was found, in order.
pub open spec fn all_found(found: Seq<(String, Result<Group, Error>)>) -> Seq<
    (Seq<char>, GroupResultView),
> {
    Seq::new(found.len(), |i: int| found_view(found[i]))
}

/// The message for a name that a second group bears.
pub open spec fn duplicate_group_message() -> Seq<char> {
    "Duplicate group."@
}

/// What was found, with every group that bears the name of an earlier one
/// turned into an error.
pub open spec fn without_repeats(found: Seq<(Seq<char>, GroupResultView)>) -> Seq<
    (Seq<char>, GroupResultView),
> {
    Seq::new(
        found.len(),
        |i: int|
            if exists|j: int| 0 <= j < i && (#[trigger] found[j]).0 == found[i].0 {
                (found[i].0, Err(ErrorView::Message(duplicate_group_message())))
            } else {
                found[i]
            },
    )
}

/// The groups of a configuration in which nothing failed, or the first
/// failure.
pub open spec fn all_or_first_error(found: Seq<(Seq<char>, GroupResultView)>) -> Result<
    Seq<(Seq<char>, GroupView)>,
    ErrorView,
>
    decreases found.len(),
{
    if found.len() == 0 {
        Ok(Seq::empty())
    } else {
        match all_or_first_error(found.drop_last()) {
            Err(error) => Err(error),
            Ok(groups) => match found.last().1 {
                Err(error) => Err(error),
                Ok(group) => Ok(groups.push((found.last().0, group))),
            },
        }
    }
}

/// The names and the views of a list of named groups.
pub open spec fn named_groups(groups: Seq<(String, Group)>) -> Seq<(Seq<char>, GroupView)> {
    Seq::new(groups.len(), |i: int| (groups[i].0@, groups[i].1@))
}

impl View for AllGroups {
    type V = Seq<(Seq<char>, GroupView)>;

    closed spec fn view(&self) -> Seq<(Seq<char>, GroupView)> {
        named_groups(self.groups@)
    }
}

impl AllGroups {
    #[verifier::type_invariant]
    spec fn distinct(self) -> bool {
        forall|i: int, j: int|
            0 <= i < j < self.groups.len() ==> (#[trigger] self.groups[i]).0@ != (
            #[trigger] self.groups[j]).0@
    }

    /// The names and groups, in the order found. No name occurs twice.
    pub fn into_groups(self) -> (groups: Vec<(String, Group)>)
        ensures
            groups.len() == self@.len(),
            forall|i: int|
                0 <= i < groups.len() ==> (groups[i].0@, groups[i].1@) == #[trigger] self@[i],
            forall|i: int, j: int|
                0 <= i < j < groups.len() ==> (#[trigger] groups[i]).0@ != (
                #[trigger] groups[j]).0@,
    {
        proof {
            use_type_invariant(&self);
        }
        self.groups
    }
}

/// The groups of a configuration, from what was found in its directory. A
/// name may stand for one group only, and every group must have been read:
/// the first entry that failed, or that repeats a name, is the error.
pub fn read_all_groups(found: AllGroupsResults) -> (result: Result<AllGroups, Error>)
    ensures
        match result {
            Ok(groups) => all_or_first_error(without_repeats(all_found(found@))) == Ok::<
                _,
                ErrorView,
            >(groups@),
            Err(error) => all_or_first_error(without_repeats(all_found(found@))) == Err::<
                Seq<(Seq<char>, GroupView)>,
                _,
            >(error@),
        },
{
    let checked = try_read_all_groups(found);
    let ghost all = all_found(checked@);
    let mut groups: Vec<(String, Group)> = Vec::new();
    assert(all.take(0) =~= Seq::<(Seq<char>, GroupResultView)>::empty());
    assert(named_groups(groups@) =~= Seq::<(Seq<char>, GroupView)>::empty());
    for entry in iter: checked
        invariant
            iter.seq() == checked@,
            all == all_found(checked@),
            all == without_repeats(all_found(found@)),
            all_or_first_error(all.take(iter.index() as int)) == Ok::<_, ErrorView>(
                named_groups(groups@),
            ),
            groups.len() == iter.index(),
            forall|k: int|
                0 <= k < groups.len() ==> (#[trigger] groups[k]).0@ == all_found(found@)[k].0,
            forall|i: int, j: int|
                0 <= i < j < groups.len() ==> (#[trigger] groups[i]).0@ != (
                #[trigger] groups[j]).0@,
    {
        let ghost at = iter.index() as int;
        proof {
            assert(all.take(at + 1).drop_last() =~= all.take(at));
            assert(all.take(at + 1).last() == found_view(entry));
        }
        let (name, group_result) = entry;
        match group_result {
            Ok(group) => {
                let ghost before = named_groups(groups@);
                proof {
                    let given = all_found(found@);
                    assert(all[at] == found_view(entry));
                    assert(all[at].1 is Ok);
                    assert(given[at].0 == name@);
                    assert forall|k: int| 0 <= k < groups.len() implies (#[trigger] groups[k]).0@
                        != name@ by {
                        if groups[k].0@ == name@ {
                            assert(given[k].0 == given[at].0);
                        }
                    }
                }
                groups.push((name, group));
                assert(named_groups(groups@) =~= before.push((name@, group@)));
            },
            Err(error) => {
                proof {
                    lemma_first_failure_stays(all, at + 1);
                }
                return Err(error);
            },
        }
    }
    assert(all.take(all.len() as int) =~= all);
    Ok(AllGroups { groups })
}

/// A failure among the first entries is the failure of all of them.
pub proof fn lemma_first_failure_stays(found: Seq<(Seq<char>, GroupResultView)>, n: int)
    requires
        0 <= n <= found.len(),
        all_or_first_error(found.take(n)) is Err,
    ensures
        all_or_first_error(found) == all_or_first_error(found.take(n)),
    decreases found.len() - n,
{
    if n < found.len() {
        assert(found.take(n + 1).drop_last() =~= found.take(n));
        lemma_first_failure_stays(found, n + 1);
    } else {
        assert(found.take(n) =~= found);
    }
}

/// What was found in the directory of configuration files, with every group
/// that bears the name of an earlier one turned into an error.
pub fn try_read_all_groups(found: AllGroupsResults) -> (groups: AllGroupsResults)
    ensures
        all_found(groups@) == without_repeats(all_found(found@)),
{
    let mut groups: Vec<(String, Result<Group, Error>)> = Vec::new();
    let ghost all = all_found(found@);
    for entry in iter: found
        invariant
            iter.seq() == found@,
            all == all_found(found@),
            groups.len() == iter.index(),
            forall|i: int| 0 <= i < groups.len() ==> (#[trigger] groups[i]).0@ == all[i].0,
            forall|i: int|
                0 <= i < groups.len() ==> found_view(#[trigger] groups[i]) == without_repeats(
                    all,
                )[i],
    {
        let ghost at = iter.index() as int;
        assert(all[at] == found_view(entry));
        let (name, group_result) = entry;
        let mut seen = false;
        let mut j: usize = 0;
        while j < groups.len()
            invariant
                j <= groups.len(),
                at == groups.len(),
                at < all.len(),
                name@ == all[at].0,
                forall|i: int| 0 <= i < groups.len() ==> (#[trigger] groups[i]).0@ == all[i].0,
                seen == exists|k: int| 0 <= k < j && (#[trigger] all[k]).0 == all[at].0,
            decreases groups.len() - j,
        {
            if same_text(groups[j].0.as_str(), name.as_str()) {
                assert(all[j as int].0 == all[at].0);
                seen = true;
            }
            j += 1;
        }
        if seen {
            groups.push((name, Err(Error::StaticMessage("Duplicate group."))));
        } else {
            groups.push((name, group_result));
        }
    }
    assert(all_found(groups@) =~= without_repeats(all));
    groups
}

/// The paths of the actions of what was found: those of every group that
/// was read, group after group, each group in the order declared.
pub open spec fn available_in(found: Seq<(Seq<char>, GroupResultView)>) -> Seq<ActionPathView>
    decreases found.len(),
{
    if found.len() == 0 {
        Seq::empty()
    } else {
        available_in(found.drop_last()) + (match found.last().1 {
            Ok(group) => Seq::new(
                group.len(),
                |i: int| ActionPathView { group: found.last().0, action: group[i].0 },
            ),
            Err(_) => Seq::empty(),
        })
    }
}

/// The paths of the actions of what was found.
pub fn available_actions(found: &AllGroupsResults) -> (paths: Vec<ActionPath>)
    ensures
        path_views(paths@) == available_in(all_found(found@)),
{
    let ghost all = all_found(found@);
    let mut paths: Vec<ActionPath> = Vec::new();
    let mut i: usize = 0;
    assert(all.take(0) =~= Seq::<(Seq<char>, GroupResultView)>::empty());
    assert(path_views(paths@) =~= Seq::<ActionPathView>::empty());
    while i < found.len()
        invariant
            i <= found.len(),
            all == all_found(found@),
            path_views(paths@) == available_in(all.take(i as int)),
        decreases found.len() - i,
    {
        proof {
            assert(all.take(i + 1).drop_last() =~= all.take(i as int));
            assert(all.take(i + 1).last() == found_view(found[i as int]));
        }
        let ghost before = path_views(paths@);
        match &found[i].1 {
            Ok(group) => {
                let names = group.enumerate_action_names();
                let ghost members = group@;
                let ghost own = Seq::new(
                    members.len(),
                    |k: int| ActionPathView { group: found[i as int].0@, action: members[k].0 },
                );
                let mut j: usize = 0;
                assert(before + own.take(0) =~= before);
                while j < names.len()
                    invariant
                        j <= names.len(),
                        names.len() == members.len(),
                        i < found.len(),
                        forall|k: int| 0 <= k < names.len() ==> names[k]@ == (#[trigger] members[k]).0,
                        own == Seq::new(
                            members.len(),
                            |k: int|
                                ActionPathView { group: found[i as int].0@, action: members[k].0 },
                        ),
                        path_views(paths@) == before + own.take(j as int),
                    decreases names.len() - j,
                {
                    let ghost held = path_views(paths@);
                    let path = ActionPath::from_parts(found[i].0.as_str(), names[j]);
                    paths.push(path);
                    proof {
                        assert(own[j as int] == path@);
                        assert(path_views(paths@) =~= held.push(path@));
                        assert(own.take(j + 1) =~= own.take(j as int).push(own[j as int]));
                        assert(held.push(own[j as int]) =~= before + own.take(j + 1));
                    }
                    j += 1;
                }
                assert(own.take(j as int) =~= own);
            },
            Err(_) => {
                assert(before + Seq::<ActionPathView>::empty() =~= before);
            },
        }
        i += 1;
    }
    assert(all.take(i as int) =~= all);
    paths
}

/// The message for a configuration file that could not be understood.
pub open spec fn parse_failure_message(path: Seq<char>) -> Seq<char> {
    "unable to parse file "@ + path
}

/// The error for the configuration file at `path` that could not be
/// understood: `cause` says why and `position`, where there is one, gives
/// the line and the column.
pub fn parse_failure(path: &str, cause: &str, position: Option<(usize, usize)>) -> (error: Error)
    ensures
        error@ == ErrorView::Because(
            Box::new(ErrorView::Message(parse_failure_message(path@))),
            Box::new(
                match position {
                    Some((line, column)) => ErrorView::At(
                        Box::new(ErrorView::Message(cause@)),
                        LocationView { file: path@, line: line as nat, column: column as nat },
                    ),
                    None => ErrorView::Message(cause@),
                },
            ),
        ),
{
    let mut message = String::from_str("unable to parse file ");
    message.append(path);
    let err = Error::DynamicMessage(message);
    let cause = Error::message(cause);
    err.because(
        match position {
            Some((line, column)) => cause.at(Location::new(String::from_str(path), line, column)),
            None => cause,
        },
    )
}

/// The message for a group that no configuration file declares.
pub open spec fn group_not_found_message(name: Seq<char>) -> Seq<char> {
    "Group '"@ + name + "' not found."@
}

/// The error for a group that no configuration file declares.
pub fn group_not_found(name: &str) -> (error: Error)
    ensures
        error@ == ErrorView::Message(group_not_found_message(name@)),
{
    let mut message = String::from_str("Group '");
    message.append(name);
    message.append("' not found.");
    Error::DynamicMessage(message)
}

} // verus!
