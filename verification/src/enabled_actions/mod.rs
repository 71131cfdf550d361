//! Which actions are switched on.

pub mod dump;
pub mod load;

use crate::utils::action_path::{
    ActionPath, ActionPathPattern, ActionPathPatternView, ActionPathView,
};
use vstd::prelude::*;

verus! {

/// Whether a listing is narrowed to enabled or to disabled actions.
#[derive(Debug, Clone, Copy, PartialEq, Eq, Structural)]
pub enum ActionStatus {
    Enabled,
    Disabled,
}

impl ActionStatus {
    /// Turns the two listing flags into a filter: exactly one flag set selects
    /// that status, any other combination selects nothing.
    pub fn from_flags(enabled: bool, disabled: bool) -> (status: Option<ActionStatus>)
        ensures
            status == (if enabled && !disabled {
                Some(ActionStatus::Enabled)
            } else if !enabled && disabled {
                Some(ActionStatus::Disabled)
            } else {
                None
            }),
    {
        match (enabled, disabled) {
            (true, false) => Some(ActionStatus::Enabled),
            (false, true) => Some(ActionStatus::Disabled),
            (_, _) => None,
        }
    }
}

/// What is known of an action: switched on if the list holds it, switched
/// off if it does not, and nothing where there is no list.
pub open spec fn status_in(
    list: Option<Seq<ActionPathView>>,
    path: ActionPathView,
) -> Option<ActionStatus> {
    match list {
        Some(enabled) => if enabled.contains(path) {
            Some(ActionStatus::Enabled)
        } else {
            Some(ActionStatus::Disabled)
        },
        None => None,
    }
}

/// The view of an optional list.
pub open spec fn list_view(list: Option<&EnabledList>) -> Option<Seq<ActionPathView>> {
    match list {
        Some(enabled) => Some(enabled@),
        None => None,
    }
}

/// What is known of the action `action` of the group `group`, given the
/// list of enabled actions if it could be read.
pub fn action_status(enabled: Option<&EnabledList>, group: &str, action: &str) -> (status: Option<
    ActionStatus,
>)
    ensures
        status == status_in(
            list_view(enabled),
            ActionPathView { group: group@, action: action@ },
        ),
{
    match enabled {
        Some(enabled_list) => {
            if enabled_list.is_action_enabled(group, action) {
                Some(ActionStatus::Enabled)
            } else {
                Some(ActionStatus::Disabled)
            }
        },
        None => None,
    }
}

/// One line of the list of enabled actions.
#[derive(Debug)]
pub enum EnabledEntry {
    Action(ActionPath),
}

impl View for EnabledEntry {
    type V = ActionPathView;

    open spec fn view(&self) -> ActionPathView {
        match self {
            EnabledEntry::Action(path) => path@,
        }
    }
}

/// The actions that are switched on, in the order they were enabled.
#[derive(Debug)]
pub struct EnabledList {
    enabled: Vec<EnabledEntry>,
}

impl View for EnabledList {
    type V = Seq<ActionPathView>;

    closed spec fn view(&self) -> Seq<ActionPathView> {
        Seq::new(self.enabled@.len(), |i: int| self.enabled@[i]@)
    }
}

/// The paths of a list of entries, in order.
pub open spec fn paths_of(entries: Seq<EnabledEntry>) -> Seq<ActionPathView> {
    Seq::new(entries.len(), |i: int| entries[i]@)
}

/// The views of a list of paths, in order.
pub open spec fn path_views(paths: Seq<ActionPath>) -> Seq<ActionPathView> {
    Seq::new(paths.len(), |i: int| paths[i]@)
}

/// `list` without every occurrence of `path`.
pub open spec fn without(list: Seq<ActionPathView>, path: ActionPathView) -> Seq<ActionPathView>
    decreases list.len(),
{
    if list.len() == 0 {
        Seq::empty()
    } else if list.last() == path {
        without(list.drop_last(), path)
    } else {
        without(list.drop_last(), path).push(list.last())
    }
}

/// `list` with `path` as its last, unless it holds `path` already.
pub open spec fn with(list: Seq<ActionPathView>, path: ActionPathView) -> Seq<ActionPathView> {
    if list.contains(path) {
        list
    } else {
        list.push(path)
    }
}

/// What switching the actions on that a pattern selects among `available`
/// leaves of `list`: each selected path is added in turn unless it is there
/// already.
pub open spec fn enabled_by(
    list: Seq<ActionPathView>,
    available: Seq<ActionPathView>,
    pattern: ActionPathPatternView,
) -> Seq<ActionPathView>
    decreases available.len(),
{
    if available.len() == 0 {
        list
    } else {
        let before = enabled_by(list, available.drop_last(), pattern);
        if pattern.selects(available.last()) {
            with(before, available.last())
        } else {
            before
        }
    }
}

/// What switching the actions off that a pattern selects among `available`
/// leaves of `list`.
pub open spec fn disabled_by(
    list: Seq<ActionPathView>,
    available: Seq<ActionPathView>,
    pattern: ActionPathPatternView,
) -> Seq<ActionPathView>
    decreases available.len(),
{
    if available.len() == 0 {
        list
    } else {
        let before = disabled_by(list, available.drop_last(), pattern);
        if pattern.selects(available.last()) {
            without(before, available.last())
        } else {
            before
        }
    }
}

/// What became of one action that a pattern selected.
#[derive(Debug, Clone, Copy, PartialEq, Eq, Structural)]
pub struct Change {
    /// Index of the action among those available.
    pub index: usize,
    /// Whether the list changed: the action was switched on, or off, by this
    /// call and not before.
    pub changed: bool,
}

/// The changes that switching on leaves behind: one for each selected path,
/// in the order of `available`, changed where the path was not on yet.
pub open spec fn enable_changes(
    list: Seq<ActionPathView>,
    available: Seq<ActionPathView>,
    pattern: ActionPathPatternView,
) -> Seq<Change>
    decreases available.len(),
{
    if available.len() == 0 {
        Seq::empty()
    } else {
        let earlier = enable_changes(list, available.drop_last(), pattern);
        if pattern.selects(available.last()) {
            earlier.push(
                Change {
                    index: (available.len() - 1) as usize,
                    changed: !enabled_by(list, available.drop_last(), pattern).contains(
                        available.last(),
                    ),
                },
            )
        } else {
            earlier
        }
    }
}

/// The changes that switching off leaves behind: one for each selected path,
/// in the order of `available`, changed where the path was still on.
pub open spec fn disable_changes(
    list: Seq<ActionPathView>,
    available: Seq<ActionPathView>,
    pattern: ActionPathPatternView,
) -> Seq<Change>
    decreases available.len(),
{
    if available.len() == 0 {
        Seq::empty()
    } else {
        let earlier = disable_changes(list, available.drop_last(), pattern);
        if pattern.selects(available.last()) {
            earlier.push(
                Change {
                    index: (available.len() - 1) as usize,
                    changed: disabled_by(list, available.drop_last(), pattern).contains(
                        available.last(),
                    ),
                },
            )
        } else {
            earlier
        }
    }
}

impl EnabledList {
    /// The list that holds `enabled`, in that order.
    pub fn new(enabled: Vec<EnabledEntry>) -> (list: EnabledList)
        ensures
            list@ == paths_of(enabled@),
    {
        EnabledList { enabled }
    }

    /// The entries of the list, in order.
    pub fn entries(&self) -> (entries: &Vec<EnabledEntry>)
        ensures
            paths_of(entries@) == self@,
    {
        &self.enabled
    }

    /// Whether the action `action` of the group `group` is switched on.
    pub fn is_action_enabled(&self, group: &str, action: &str) -> (enabled: bool)
        ensures
            enabled == self@.contains(ActionPathView { group: group@, action: action@ }),
    {
        let path = ActionPath::from_parts(group, action);
        self.is_path_enabled(&path)
    }

    /// Whether the action at `path` is switched on.
    pub fn is_path_enabled(&self, path: &ActionPath) -> (enabled: bool)
        ensures
            enabled == self@.contains(path@),
    {
        let mut i: usize = 0;
        while i < self.enabled.len()
            invariant
                i <= self.enabled.len(),
                forall|j: int| 0 <= j < i ==> self@[j] != path@,
            decreases self.enabled.len() - i,
        {
            let found = match &self.enabled[i] {
                EnabledEntry::Action(a) => *a == *path,
            };
            if found {
                assert(self@[i as int] == path@);
                return true;
            }
            i += 1;
        }
        false
    }

    /// Switches `path` on. Says whether it was off before.
    pub fn enable_path(&mut self, path: ActionPath) -> (changed: bool)
        ensures
            changed == !old(self)@.contains(path@),
            final(self)@ == with(old(self)@, path@),
    {
        let already_enabled = self.is_path_enabled(&path);
        if !already_enabled {
            self.enabled.push(EnabledEntry::Action(path));
            assert(self@ =~= old(self)@.push(path@));
        }
        !already_enabled
    }

    /// Switches `path` off, wherever the list holds it. Says whether it was
    /// on before.
    pub fn disable_path(&mut self, path: ActionPath) -> (changed: bool)
        ensures
            changed == old(self)@.contains(path@),
            final(self)@ == without(old(self)@, path@),
    {
        let ghost before = self@;
        let mut all: Vec<EnabledEntry> = Vec::new();
        std::mem::swap(&mut all, &mut self.enabled);
        let mut kept: Vec<EnabledEntry> = Vec::new();
        let mut changed = false;
        assert(before.take(0) =~= Seq::<ActionPathView>::empty());
        for entry in iter: all
            invariant
                iter.seq() == all@,
                before == paths_of(all@),
                paths_of(kept@) == without(before.take(iter.index() as int), path@),
                changed == before.take(iter.index() as int).contains(path@),
        {
            let ghost at = iter.index() as int;
            proof {
                assert(before.take(at + 1).drop_last() =~= before.take(at));
                assert(before.take(at + 1).last() == entry@);
            }
            let same = match &entry {
                EnabledEntry::Action(a) => *a == path,
            };
            if same {
                changed = true;
                assert(before.take(at + 1)[at] == path@);
            } else {
                let ghost held = paths_of(kept@);
                kept.push(entry);
                assert(paths_of(kept@) =~= held.push(entry@));
                proof {
                    let shorter = before.take(at);
                    let longer = before.take(at + 1);
                    if longer.contains(path@) {
                        let k = choose|k: int| 0 <= k < longer.len() && longer[k] == path@;
                        assert(shorter[k] == path@);
                    }
                    if shorter.contains(path@) {
                        let k = choose|k: int| 0 <= k < shorter.len() && shorter[k] == path@;
                        assert(longer[k] == path@);
                    }
                }
            }
        }
        assert(before.take(before.len() as int) =~= before);
        self.enabled = kept;
        changed
    }

    /// Switches on every available action that `pattern` selects, and says
    /// for each what became of it. No change at all means that the pattern
    /// selected nothing.
    pub fn enable_pattern(
        &mut self,
        available: &Vec<ActionPath>,
        pattern: &ActionPathPattern,
    ) -> (changes: Vec<Change>)
        ensures
            final(self)@ == enabled_by(old(self)@, path_views(available@), pattern@),
            changes@ == enable_changes(old(self)@, path_views(available@), pattern@),
    {
        let ghost all = path_views(available@);
        let mut changes: Vec<Change> = Vec::new();
        let mut i: usize = 0;
        assert(all.take(0) =~= Seq::<ActionPathView>::empty());
        while i < available.len()
            invariant
                i <= available.len(),
                all == path_views(available@),
                self@ == enabled_by(old(self)@, all.take(i as int), pattern@),
                changes@ == enable_changes(old(self)@, all.take(i as int), pattern@),
            decreases available.len() - i,
        {
            proof {
                assert(all.take(i + 1).drop_last() =~= all.take(i as int));
                assert(all.take(i + 1).last() == available[i as int]@);
            }
            if available[i].matches(pattern) {
                let changed = self.enable_path(available[i].clone());
                changes.push(Change { index: i, changed });
            }
            i += 1;
        }
        assert(all.take(i as int) =~= all);
        changes
    }

    /// Switches off every available action that `pattern` selects, and says
    /// for each what became of it. No change at all means that the pattern
    /// selected nothing.
    pub fn disable_pattern(
        &mut self,
        available: &Vec<ActionPath>,
        pattern: &ActionPathPattern,
    ) -> (changes: Vec<Change>)
        ensures
            final(self)@ == disabled_by(old(self)@, path_views(available@), pattern@),
            changes@ == disable_changes(old(self)@, path_views(available@), pattern@),
    {
        let ghost all = path_views(available@);
        let mut changes: Vec<Change> = Vec::new();
        let mut i: usize = 0;
        assert(all.take(0) =~= Seq::<ActionPathView>::empty());
        while i < available.len()
            invariant
                i <= available.len(),
                all == path_views(available@),
                self@ == disabled_by(old(self)@, all.take(i as int), pattern@),
                changes@ == disable_changes(old(self)@, all.take(i as int), pattern@),
            decreases available.len() - i,
        {
            proof {
                assert(all.take(i + 1).drop_last() =~= all.take(i as int));
                assert(all.take(i + 1).last() == available[i as int]@);
            }
            if available[i].matches(pattern) {
                let changed = self.disable_path(available[i].clone());
                changes.push(Change { index: i, changed });
            }
            i += 1;
        }
        assert(all.take(i as int) =~= all);
        changes
    }
}

} // verus!
