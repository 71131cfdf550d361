//! The registry of actions, and the plan that a triggered action expands to.

use crate::actions::action::{Action, ActionView};
use crate::actions::commands::texts_of;
use crate::actions::group::GroupView;
use crate::actions::AllGroups;
use crate::execution::context::{steps_of, Context, ContextActionView};
use crate::utils::action_path::{
    lemma_parse_to_string, lemma_to_string_parse, parsed, ActionPath, ActionPathView,
};
use crate::utils::error::{Error, ErrorView};
use crate::utils::text::{
    lemma_first_index_of, lemma_text_lt_irreflexive, lemma_text_lt_total,
    lemma_text_lt_transitive, same_text, text_lt,
};
use vstd::pervasive::unreached;
use vstd::prelude::*;
use vstd::string::StringExecFns;

verus! {

/// The configured actions, each under its path.
#[derive(Debug)]
pub struct Actions {
    by_path: Vec<(ActionPath, Action)>,
}

/// An action of the registry together with its path.
pub struct ActionRef<'a> {
    pub path: &'a ActionPath,
    pub action: &'a Action,
}

/// The trigger that a request with this method and path sets off: the
/// method, a space, the path.
pub open spec fn trigger_of(method: Seq<char>, path: Seq<char>) -> Seq<char> {
    method + " "@ + path
}

/// The message for a reference to an action that the registry does not
/// hold.
pub open spec fn not_found_message(path: Seq<char>) -> Seq<char> {
    "action '"@ + path + "' not found"@
}

/// The message for a path that two actions of a catalog share.
pub open spec fn duplicate_message(path: Seq<char>) -> Seq<char> {
    "Duplicate action '"@ + path + "'"@
}

/// Whether the action at `path` is the one that `trigger` sets off: it has
/// exactly that trigger, and its path stands before that of any other action
/// that has it too.
pub open spec fn is_triggered(
    registry: Map<ActionPathView, ActionView>,
    trigger: Seq<char>,
    path: ActionPathView,
) -> bool {
    &&& registry.dom().contains(path)
    &&& registry[path].trigger == trigger
    &&& forall|other: ActionPathView|
        registry.dom().contains(other) && (#[trigger] registry[other]).trigger == trigger
            && other != path ==> path.precedes(other)
}

/// The path of the action that `trigger` sets off, if there is one.
pub open spec fn triggered(registry: Map<ActionPathView, ActionView>, trigger: Seq<char>) -> Option<
    ActionPathView,
> {
    if exists|path: ActionPathView| is_triggered(registry, trigger, path) {
        Some(choose|path: ActionPathView| is_triggered(registry, trigger, path))
    } else {
        None
    }
}

/// A trigger sets off at most one action.
pub proof fn lemma_triggered_is_unique(
    registry: Map<ActionPathView, ActionView>,
    trigger: Seq<char>,
    path: ActionPathView,
)
    requires
        is_triggered(registry, trigger, path),
    ensures
        triggered(registry, trigger) == Some(path),
{
    let chosen = choose|p: ActionPathView| is_triggered(registry, trigger, p);
    if chosen != path {
        assert(registry[chosen].trigger == trigger);
        assert(registry[path].trigger == trigger);
        assert(path.precedes(chosen));
        assert(chosen.precedes(path));
        lemma_precedes_transitive(path, chosen, path);
        lemma_precedes_irreflexive(path);
    }
}

/// Where no action has a trigger, the trigger sets off none.
pub proof fn lemma_triggered_none(registry: Map<ActionPathView, ActionView>, trigger: Seq<char>)
    requires
        forall|other: ActionPathView|
            registry.dom().contains(other) ==> (#[trigger] registry[other]).trigger != trigger,
    ensures
        triggered(registry, trigger) is None,
{
    if exists|path: ActionPathView| is_triggered(registry, trigger, path) {
        let path = choose|path: ActionPathView| is_triggered(registry, trigger, path);
        assert(registry[path].trigger == trigger);
    }
}

/// The action that a trigger sets off has exactly that trigger.
pub proof fn lemma_triggered_is_exact(
    registry: Map<ActionPathView, ActionView>,
    trigger: Seq<char>,
)
    ensures
        triggered(registry, trigger) matches Some(path) ==> registry.dom().contains(path)
            && registry[path].trigger == trigger,
{
}

/// Requests for the same path with different methods have different
/// triggers.
pub proof fn lemma_trigger_names_method(first: Seq<char>, second: Seq<char>, path: Seq<char>)
    requires
        first != second,
    ensures
        trigger_of(first, path) != trigger_of(second, path),
{
    let a = trigger_of(first, path);
    let b = trigger_of(second, path);
    if a == b {
        assert(first.len() + " "@.len() + path.len() == a.len());
        assert(second.len() + " "@.len() + path.len() == b.len());
        assert(first =~= a.subrange(0, first.len() as int));
        assert(second =~= b.subrange(0, second.len() as int));
    }
}

/// An action is set off only by requests with the method and the path of
/// its trigger: a request for the same path with another method does not
/// set it off.
pub proof fn lemma_lookup_is_method_sensitive(
    registry: Map<ActionPathView, ActionView>,
    action: ActionPathView,
    method: Seq<char>,
    other_method: Seq<char>,
    path: Seq<char>,
)
    requires
        registry.dom().contains(action),
        registry[action].trigger == trigger_of(method, path),
        other_method != method,
    ensures
        triggered(registry, trigger_of(other_method, path)) != Some(action),
{
    lemma_trigger_names_method(other_method, method, path);
    lemma_triggered_is_exact(registry, trigger_of(other_method, path));
}

/// No path stands before itself.
pub proof fn lemma_precedes_irreflexive(a: ActionPathView)
    ensures
        !a.precedes(a),
{
    lemma_text_lt_irreflexive(a.group);
    lemma_text_lt_irreflexive(a.action);
}

/// The order of paths is transitive.
pub proof fn lemma_precedes_transitive(a: ActionPathView, b: ActionPathView, c: ActionPathView)
    requires
        a.precedes(b),
        b.precedes(c),
    ensures
        a.precedes(c),
{
    if text_lt(a.group, b.group) && text_lt(b.group, c.group) {
        lemma_text_lt_transitive(a.group, b.group, c.group);
    } else if a.group == b.group && b.group == c.group {
        lemma_text_lt_transitive(a.action, b.action, c.action);
    }
}

/// Of two different paths one stands before the other.
pub proof fn lemma_precedes_total(a: ActionPathView, b: ActionPathView)
    ensures
        a.precedes(b) || a == b || b.precedes(a),
{
    lemma_text_lt_total(a.group, b.group);
    lemma_text_lt_total(a.action, b.action);
}

/// What expanding an action gives: the steps of the plan, or the reference
/// that could not be followed.
pub type Expansion = Result<Seq<ContextActionView>, Seq<char>>;

/// The plan of the action at `path`, followed through at most `depth` levels
/// of references: the plans of the actions it names under `before`, in the
/// order written, then the action itself, then the plans of those it names
/// under `after`. A path or a reference that the registry does not hold ends
/// the expansion with that reference. `None` where `depth` levels do not
/// reach the end.
pub open spec fn expand(
    registry: Map<ActionPathView, ActionView>,
    path: ActionPathView,
    depth: nat,
) -> Option<Expansion>
    decreases depth, 0nat,
{
    if !registry.dom().contains(path) {
        Some(Err(path.text()))
    } else if depth == 0 {
        None
    } else {
        let action = registry[path];
        match expand_all(registry, action.before, (depth - 1) as nat) {
            None => None,
            Some(Err(missing)) => Some(Err(missing)),
            Some(Ok(before)) => match expand_all(registry, action.after, (depth - 1) as nat) {
                None => None,
                Some(Err(missing)) => Some(Err(missing)),
                Some(Ok(after)) => Some(
                    Ok(
                        before + seq![
                            ContextActionView { path, commands: action.pipeline },
                        ] + after,
                    ),
                ),
            },
        }
    }
}

/// The plans of the actions that `refs` name, one after the other, each
/// followed through at most `depth` levels. A reference that names no path,
/// or a path that the registry does not hold, ends the expansion with that
/// reference as it is written.
pub open spec fn expand_all(
    registry: Map<ActionPathView, ActionView>,
    refs: Seq<Seq<char>>,
    depth: nat,
) -> Option<Expansion>
    decreases depth, refs.len() + 1,
{
    if refs.len() == 0 {
        Some(Ok(Seq::empty()))
    } else {
        match parsed(refs[0]) {
            None => Some(Err(refs[0])),
            Some(path) => match expand(registry, path, depth) {
                None => None,
                Some(Err(missing)) => Some(Err(missing)),
                Some(Ok(first)) => match expand_all(registry, refs.drop_first(), depth) {
                    None => None,
                    Some(Err(missing)) => Some(Err(missing)),
                    Some(Ok(rest)) => Some(Ok(first + rest)),
                },
            },
        }
    }
}

/// Whether following the references from `path` comes to an end.
pub open spec fn resolves(registry: Map<ActionPathView, ActionView>, path: ActionPathView) -> bool {
    exists|depth: nat| expand(registry, path, depth) is Some
}

/// The plan of the action at `path`, where following its references comes to
/// an end.
pub open spec fn resolution(
    registry: Map<ActionPathView, ActionView>,
    path: ActionPathView,
) -> Expansion
    recommends
        resolves(registry, path),
{
    expand(registry, path, choose|depth: nat| expand(registry, path, depth) is Some)->0
}

/// An expansion that has come to an end stays what it is at any greater
/// depth.
pub proof fn lemma_expand_settles(
    registry: Map<ActionPathView, ActionView>,
    path: ActionPathView,
    depth: nat,
    deeper: nat,
)
    requires
        expand(registry, path, depth) is Some,
        depth <= deeper,
    ensures
        expand(registry, path, deeper) == expand(registry, path, depth),
    decreases depth, 0nat,
{
    if registry.dom().contains(path) {
        let action = registry[path];
        let d = (depth - 1) as nat;
        let e = (deeper - 1) as nat;
        lemma_expand_all_settles(registry, action.before, d, e);
        if expand_all(registry, action.before, d) matches Some(Ok(_)) {
            lemma_expand_all_settles(registry, action.after, d, e);
        }
    }
}

/// An expansion of several references that has come to an end stays what it
/// is at any greater depth.
pub proof fn lemma_expand_all_settles(
    registry: Map<ActionPathView, ActionView>,
    refs: Seq<Seq<char>>,
    depth: nat,
    deeper: nat,
)
    requires
        expand_all(registry, refs, depth) is Some,
        depth <= deeper,
    ensures
        expand_all(registry, refs, deeper) == expand_all(registry, refs, depth),
    decreases depth, refs.len() + 1,
{
    if refs.len() > 0 {
        match parsed(refs[0]) {
            None => {},
            Some(path) => {
                lemma_expand_settles(registry, path, depth, deeper);
                if expand(registry, path, depth) matches Some(Ok(_)) {
                    lemma_expand_all_settles(registry, refs.drop_first(), depth, deeper);
                }
            },
        }
    }
}

/// Where an expansion comes to an end at some depth, it is the resolution.
pub proof fn lemma_resolution_is_expansion(
    registry: Map<ActionPathView, ActionView>,
    path: ActionPathView,
    depth: nat,
)
    requires
        expand(registry, path, depth) is Some,
    ensures
        resolves(registry, path),
        expand(registry, path, depth) == Some(resolution(registry, path)),
{
    let chosen = choose|d: nat| expand(registry, path, d) is Some;
    if chosen <= depth {
        lemma_expand_settles(registry, path, chosen, depth);
    } else {
        lemma_expand_settles(registry, path, depth, chosen);
    }
}

/// Whether the registry cannot follow a reference: it names no path, or a
/// path that the registry does not hold.
pub open spec fn is_missing(registry: Map<ActionPathView, ActionView>, reference: Seq<char>) -> bool {
    match parsed(reference) {
        Some(path) => !registry.dom().contains(path),
        None => true,
    }
}

/// The plan of an action that names no other is the action alone.
pub proof fn lemma_resolve_alone(registry: Map<ActionPathView, ActionView>, path: ActionPathView)
    requires
        registry.dom().contains(path),
        registry[path].before.len() == 0,
        registry[path].after.len() == 0,
    ensures
        resolves(registry, path),
        resolution(registry, path) == Ok::<_, Seq<char>>(
            seq![ContextActionView { path, commands: registry[path].pipeline }],
        ),
{
    let own = seq![ContextActionView { path, commands: registry[path].pipeline }];
    assert(expand_all(registry, registry[path].before, 0) == Some(
        Ok::<Seq<ContextActionView>, Seq<char>>(Seq::empty()),
    ));
    assert(Seq::<ContextActionView>::empty() + own + Seq::<ContextActionView>::empty() =~= own);
    assert(expand(registry, path, 1) == Some(Ok::<_, Seq<char>>(own)));
    lemma_resolution_is_expansion(registry, path, 1);
}

/// The plan of an action that names one action before it and one after it
/// is the plan of the first, the action itself, and the plan of the second.
/// Where the first cannot be resolved, nor can the action, for the same
/// reason; likewise for the second once the first is resolved.
pub proof fn lemma_resolve_structure(
    registry: Map<ActionPathView, ActionView>,
    path: ActionPathView,
    before: ActionPathView,
    after: ActionPathView,
)
    requires
        registry.dom().contains(path),
        registry[path].before.len() == 1,
        registry[path].after.len() == 1,
        parsed(registry[path].before[0]) == Some(before),
        parsed(registry[path].after[0]) == Some(after),
        resolves(registry, path),
    ensures
        resolves(registry, before),
        match resolution(registry, before) {
            Err(missing) => resolution(registry, path) == Err::<Seq<ContextActionView>, _>(
                missing,
            ),
            Ok(first) => resolves(registry, after) && match resolution(registry, after) {
                Err(missing) => resolution(registry, path) == Err::<Seq<ContextActionView>, _>(
                    missing,
                ),
                Ok(second) => resolution(registry, path) == Ok::<_, Seq<char>>(
                    first + seq![ContextActionView { path, commands: registry[path].pipeline }]
                        + second,
                ),
            },
        },
{
    let depth = choose|depth: nat| expand(registry, path, depth) is Some;
    let below = (depth - 1) as nat;
    let action = registry[path];
    assert(depth > 0);
    assert(expand_all(registry, action.before.drop_first(), below) == Some(
        Ok::<Seq<ContextActionView>, Seq<char>>(Seq::empty()),
    ));
    assert(expand_all(registry, action.after.drop_first(), below) == Some(
        Ok::<Seq<ContextActionView>, Seq<char>>(Seq::empty()),
    ));
    assert(expand_all(registry, action.before, below) is Some);
    assert(expand(registry, before, below) is Some);
    lemma_resolution_is_expansion(registry, before, below);
    match resolution(registry, before) {
        Err(_) => {},
        Ok(first) => {
            assert(first + Seq::<ContextActionView>::empty() =~= first);
            assert(expand_all(registry, action.before, below) == Some(
                Ok::<_, Seq<char>>(first),
            ));
            assert(expand_all(registry, action.after, below) is Some);
            assert(expand(registry, after, below) is Some);
            lemma_resolution_is_expansion(registry, after, below);
            match resolution(registry, after) {
                Err(_) => {},
                Ok(second) => {
                    assert(second + Seq::<ContextActionView>::empty() =~= second);
                },
            }
        },
    }
}

/// Expanding references of which one cannot be followed gives no plan.
pub proof fn lemma_expand_all_missing(
    registry: Map<ActionPathView, ActionView>,
    refs: Seq<Seq<char>>,
    depth: nat,
    at: int,
)
    requires
        0 <= at < refs.len(),
        is_missing(registry, refs[at]),
        expand_all(registry, refs, depth) is Some,
    ensures
        expand_all(registry, refs, depth) matches Some(Err(_)),
        at == 0 ==> expand_all(registry, refs, depth) == Some(
            Err::<Seq<ContextActionView>, _>(refs[0]),
        ),
    decreases refs.len(),
{
    if at == 0 {
        match parsed(refs[0]) {
            None => {},
            Some(path) => {
                lemma_to_string_parse(refs[0]);
            },
        }
    } else {
        match parsed(refs[0]) {
            None => {},
            Some(path) => {
                if expand(registry, path, depth) matches Some(Ok(_)) {
                    assert(refs.drop_first()[at - 1] == refs[at]);
                    lemma_expand_all_missing(registry, refs.drop_first(), depth, at - 1);
                }
            },
        }
    }
}

/// An action that names an action which the registry does not hold has no
/// plan: resolving it fails. Where the reference is the first that the
/// action names, the failure names it.
pub proof fn lemma_resolve_missing_reference(
    registry: Map<ActionPathView, ActionView>,
    path: ActionPathView,
    reference: Seq<char>,
)
    requires
        registry.dom().contains(path),
        registry[path].before.contains(reference) || registry[path].after.contains(reference),
        is_missing(registry, reference),
        resolves(registry, path),
    ensures
        resolution(registry, path) is Err,
        registry[path].before.len() > 0 && registry[path].before[0] == reference ==> resolution(
            registry,
            path,
        ) == Err::<Seq<ContextActionView>, _>(reference),
{
    let depth = choose|depth: nat| expand(registry, path, depth) is Some;
    let below = (depth - 1) as nat;
    let action = registry[path];
    if action.before.contains(reference) {
        let at = choose|at: int| 0 <= at < action.before.len() && action.before[at] == reference;
        lemma_expand_all_missing(registry, action.before, below, at);
        if action.before[0] == reference {
            lemma_expand_all_missing(registry, action.before, below, 0);
        }
    } else {
        let at = choose|at: int| 0 <= at < action.after.len() && action.after[at] == reference;
        if expand_all(registry, action.before, below) matches Some(Ok(_)) {
            lemma_expand_all_missing(registry, action.after, below, at);
        }
    }
}

/// The text that reads as a path is the text of that path, and the group of
/// the path holds no slash.
pub proof fn lemma_parsed_is_plain(reference: Seq<char>)
    requires
        parsed(reference) is Some,
    ensures
        parsed(reference)->0.text() == reference,
        !parsed(reference)->0.group.contains('/'),
{
    lemma_to_string_parse(reference);
    lemma_first_index_of(reference, '/');
    let group = parsed(reference)->0.group;
    if group.contains('/') {
        let k = choose|k: int| 0 <= k < group.len() && group[k] == '/';
        assert(reference[k] == '/');
    }
}

/// Where resolving fails, it names a reference that the registry cannot
/// follow. The path that is resolved must read back from its text.
pub proof fn lemma_expand_names_missing(
    registry: Map<ActionPathView, ActionView>,
    path: ActionPathView,
    depth: nat,
)
    requires
        !path.group.contains('/'),
    ensures
        expand(registry, path, depth) matches Some(Err(missing)) ==> is_missing(registry, missing),
    decreases depth, 0nat,
{
    if !registry.dom().contains(path) {
        lemma_parse_to_string(path);
    } else if depth > 0 {
        let action = registry[path];
        lemma_expand_all_names_missing(registry, action.before, (depth - 1) as nat);
        lemma_expand_all_names_missing(registry, action.after, (depth - 1) as nat);
    }
}

/// Where expanding references fails, it names a reference that the registry
/// cannot follow.
pub proof fn lemma_expand_all_names_missing(
    registry: Map<ActionPathView, ActionView>,
    refs: Seq<Seq<char>>,
    depth: nat,
)
    ensures
        expand_all(registry, refs, depth) matches Some(Err(missing)) ==> is_missing(
            registry,
            missing,
        ),
    decreases depth, refs.len() + 1,
{
    if refs.len() > 0 {
        match parsed(refs[0]) {
            None => {},
            Some(path) => {
                lemma_parsed_is_plain(refs[0]);
                lemma_expand_names_missing(registry, path, depth);
                lemma_expand_all_names_missing(registry, refs.drop_first(), depth);
            },
        }
    }
}

/// A failure to resolve an action names a reference that the registry
/// cannot follow.
pub proof fn lemma_resolve_names_missing(
    registry: Map<ActionPathView, ActionView>,
    path: ActionPathView,
)
    requires
        !path.group.contains('/'),
        resolves(registry, path),
    ensures
        resolution(registry, path) matches Err(missing) ==> is_missing(registry, missing),
{
    let depth = choose|depth: nat| expand(registry, path, depth) is Some;
    lemma_expand_names_missing(registry, path, depth);
}

impl View for Actions {
    type V = Map<ActionPathView, ActionView>;

    closed spec fn view(&self) -> Map<ActionPathView, ActionView> {
        Map::new(
            |path: ActionPathView| self.holds(path),
            |path: ActionPathView| self.by_path[self.index_of(path)].1@,
        )
    }
}

impl Actions {
    #[verifier::type_invariant]
    spec fn ordered(self) -> bool {
        forall|i: int, j: int|
            0 <= i < j < self.by_path.len() ==> (#[trigger] self.by_path[i]).0@.precedes(
                (#[trigger] self.by_path[j]).0@,
            )
    }

    /// Whether some entry has `path`.
    spec fn holds(self, path: ActionPathView) -> bool {
        exists|i: int| 0 <= i < self.by_path.len() && (#[trigger] self.by_path[i]).0@ == path
    }

    /// The index of the entry that has `path`.
    spec fn index_of(self, path: ActionPathView) -> int {
        choose|i: int| 0 <= i < self.by_path.len() && (#[trigger] self.by_path[i]).0@ == path
    }

    /// Under its own path the registry holds each of its entries.
    proof fn lemma_entry(self, i: int)
        requires
            self.ordered(),
            0 <= i < self.by_path.len(),
        ensures
            self@.dom().contains(self.by_path[i].0@),
            self@[self.by_path[i].0@] == self.by_path[i].1@,
            self.index_of(self.by_path[i].0@) == i,
    {
        let path = self.by_path[i].0@;
        assert(self.holds(path));
        let k = self.index_of(path);
        lemma_precedes_irreflexive(path);
        if k < i {
            assert(self.by_path[k].0@.precedes(self.by_path[i].0@));
        } else if i < k {
            assert(self.by_path[i].0@.precedes(self.by_path[k].0@));
        }
    }

    /// A registry without actions.
    pub fn new() -> (actions: Actions)
        ensures
            actions@ == Map::<ActionPathView, ActionView>::empty(),
    {
        let actions = Actions { by_path: Vec::new() };
        assert(actions@ =~= Map::<ActionPathView, ActionView>::empty());
        actions
    }

    /// How many actions the registry holds.
    pub fn len(&self) -> (count: usize)
        ensures
            count == self@.dom().len(),
            self@.dom().finite(),
    {
        proof {
            use_type_invariant(self);
            self.lemma_count(self.by_path.len() as int);
            assert(self.keys_below(self.by_path.len() as int) =~= self@.dom());
        }
        self.by_path.len()
    }

    /// The paths of the first `n` entries.
    spec fn keys_below(self, n: int) -> Set<ActionPathView> {
        Set::new(
            |path: ActionPathView|
                exists|i: int| 0 <= i < n && (#[trigger] self.by_path[i]).0@ == path,
        )
    }

    /// The first `n` entries have `n` different paths.
    proof fn lemma_count(self, n: int)
        requires
            self.ordered(),
            0 <= n <= self.by_path.len(),
        ensures
            self.keys_below(n).finite(),
            self.keys_below(n).len() == n,
        decreases n,
    {
        if n == 0 {
            assert(self.keys_below(0) =~= Set::<ActionPathView>::empty());
        } else {
            self.lemma_count(n - 1);
            let last = self.by_path[n - 1].0@;
            assert(self.keys_below(n) =~= self.keys_below(n - 1).insert(last));
            if self.keys_below(n - 1).contains(last) {
                let i = choose|i: int| 0 <= i < n - 1 && (#[trigger] self.by_path[i]).0@ == last;
                assert(self.by_path[i].0@.precedes(self.by_path[n - 1].0@));
                lemma_precedes_irreflexive(last);
            }
        }
    }

    /// Index of the first entry whose path does not stand before `path`,
    /// found by halving the range in which it lies.
    fn position(&self, path: &ActionPath) -> (at: usize)
        ensures
            at <= self.by_path.len(),
            forall|i: int| 0 <= i < at ==> (#[trigger] self.by_path[i]).0@.precedes(path@),
            at < self.by_path.len() ==> !self.by_path[at as int].0@.precedes(path@),
    {
        proof {
            use_type_invariant(self);
        }
        let mut low: usize = 0;
        let mut high: usize = self.by_path.len();
        while low < high
            invariant
                low <= high <= self.by_path.len(),
                self.ordered(),
                forall|i: int| 0 <= i < low ==> (#[trigger] self.by_path[i]).0@.precedes(path@),
                forall|i: int|
                    high <= i < self.by_path.len() ==> !(#[trigger] self.by_path[i]).0@.precedes(
                        path@,
                    ),
            decreases high - low,
        {
            let middle = low + (high - low) / 2;
            if self.by_path[middle].0.precedes(path) {
                proof {
                    assert forall|i: int| 0 <= i < middle + 1 implies (
                    #[trigger] self.by_path[i]).0@.precedes(path@) by {
                        if i < middle {
                            assert(self.by_path[i].0@.precedes(self.by_path[middle as int].0@));
                            lemma_precedes_transitive(
                                self.by_path[i].0@,
                                self.by_path[middle as int].0@,
                                path@,
                            );
                        }
                    }
                }
                low = middle + 1;
            } else {
                proof {
                    assert forall|i: int| middle <= i < self.by_path.len() implies !(
                    #[trigger] self.by_path[i]).0@.precedes(path@) by {
                        if i > middle && self.by_path[i].0@.precedes(path@) {
                            assert(self.by_path[middle as int].0@.precedes(self.by_path[i].0@));
                            lemma_precedes_transitive(
                                self.by_path[middle as int].0@,
                                self.by_path[i].0@,
                                path@,
                            );
                        }
                    }
                }
                high = middle;
            }
        }
        low
    }

    /// The action at `path`, if the registry holds one.
    pub fn find(&self, path: &ActionPath) -> (found: Option<ActionRef<'_>>)
        ensures
            match found {
                Some(action_ref) => self@.dom().contains(path@) && action_ref.path@ == path@
                    && action_ref.action@ == self@[path@],
                None => !self@.dom().contains(path@),
            },
    {
        proof {
            use_type_invariant(self);
        }
        let at = self.position(path);
        if at < self.by_path.len() && self.by_path[at].0 == *path {
            proof {
                self.lemma_entry(at as int);
            }
            Some(ActionRef { path: &self.by_path[at].0, action: &self.by_path[at].1 })
        } else {
            proof {
                if self.holds(path@) {
                    let k = self.index_of(path@);
                    lemma_precedes_irreflexive(path@);
                    if k < at {
                        assert(self.by_path[k].0@.precedes(path@));
                    } else if k > at {
                        assert(self.by_path[at as int].0@.precedes(self.by_path[k].0@));
                    }
                }
            }
            None
        }
    }

    /// Adds an action under a path that the registry does not hold yet; hands
    /// the action back where the path is taken.
    pub fn insert(&mut self, path: ActionPath, action: Action) -> (taken: Option<
        (ActionPath, Action),
    >)
        ensures
            match taken {
                None => !old(self)@.dom().contains(path@) && final(self)@ == old(self)@.insert(
                    path@,
                    action@,
                ),
                Some(back) => old(self)@.dom().contains(path@) && final(self)@ == old(self)@
                    && back.0@ == path@ && back.1@ == action@,
            },
    {
        proof {
            use_type_invariant(&*self);
        }
        let at = self.position(&path);
        if at < self.by_path.len() && self.by_path[at].0 == path {
            proof {
                self.lemma_entry(at as int);
            }
            Some((path, action))
        } else {
            let ghost before = *self;
            let mut by_path: Vec<(ActionPath, Action)> = Vec::new();
            std::mem::swap(&mut by_path, &mut self.by_path);
            by_path.insert(at, (path, action));
            let ghost after = Actions { by_path };
            proof {
                lemma_precedes_irreflexive(path@);
                assert forall|i: int, j: int| 0 <= i < j < after.by_path.len() implies (
                #[trigger] after.by_path[i]).0@.precedes((#[trigger] after.by_path[j]).0@) by {
                    let low = if i < at { i } else { i - 1 };
                    let high = if j < at { j } else { j - 1 };
                    if i == at {
                        // the new entry stands before everything from `at` on
                        if high > at {
                            assert(before.by_path[at as int].0@.precedes(before.by_path[high].0@));
                        }
                        lemma_precedes_total(path@, before.by_path[at as int].0@);
                        if high > at {
                            lemma_precedes_transitive(
                                path@,
                                before.by_path[at as int].0@,
                                before.by_path[high].0@,
                            );
                        }
                    } else if j == at {
                        assert(before.by_path[low].0@.precedes(path@));
                    } else {
                        assert(before.by_path[low].0@.precedes(before.by_path[high].0@));
                    }
                }
                assert(!before.holds(path@)) by {
                    if before.holds(path@) {
                        let k = before.index_of(path@);
                        if k < at {
                            assert(before.by_path[k].0@.precedes(path@));
                        } else if k > at {
                            assert(before.by_path[at as int].0@.precedes(before.by_path[k].0@));
                        }
                    }
                }
                assert(after@ =~= before@.insert(path@, action@)) by {
                    assert forall|p: ActionPathView| after@.dom().contains(p) <==> before@.insert(
                        path@,
                        action@,
                    ).dom().contains(p) by {
                        if after.holds(p) {
                            let k = after.index_of(p);
                            if k < at {
                                assert(before.by_path[k].0@ == p);
                            } else if k > at {
                                assert(before.by_path[k - 1].0@ == p);
                            }
                        }
                        if before.holds(p) {
                            let k = before.index_of(p);
                            if k < at {
                                assert(after.by_path[k].0@ == p);
                            } else {
                                assert(after.by_path[k + 1].0@ == p);
                            }
                        }
                        if p == path@ {
                            assert(after.by_path[at as int].0@ == p);
                        }
                    }
                    assert forall|p: ActionPathView| after@.dom().contains(p) implies after@[p]
                        == before@.insert(path@, action@)[p] by {
                        let k = after.index_of(p);
                        after.lemma_entry(k);
                        if k < at {
                            before.lemma_entry(k);
                        } else if k > at {
                            before.lemma_entry(k - 1);
                        }
                    }
                }
            }
            self.by_path = by_path;
            None
        }
    }

    /// The action that a request with this method and path triggers: the one
    /// whose trigger is exactly the method, a space and the path. Where
    /// several actions have that trigger, the one whose path stands first.
    pub fn lookup_by_trigger(&self, method: &str, path: &str) -> (found: Option<ActionRef<'_>>)
        ensures
            match found {
                Some(action_ref) => {
                    &&& triggered(self@, trigger_of(method@, path@)) == Some(action_ref.path@)
                    &&& is_triggered(self@, trigger_of(method@, path@), action_ref.path@)
                    &&& self@[action_ref.path@] == action_ref.action@
                },
                None => {
                    &&& triggered(self@, trigger_of(method@, path@)) is None
                    &&& forall|other: ActionPathView|
                        self@.dom().contains(other) ==> (#[trigger] self@[other]).trigger
                            != trigger_of(method@, path@)
                },
            },
    {
        proof {
            use_type_invariant(self);
        }
        let mut wanted = String::from_str(method);
        wanted.append(" ");
        wanted.append(path);
        let mut i: usize = 0;
        while i < self.by_path.len()
            invariant
                i <= self.by_path.len(),
                self.ordered(),
                wanted@ == trigger_of(method@, path@),
                forall|j: int| 0 <= j < i ==> (#[trigger] self.by_path[j]).1@.trigger != wanted@,
            decreases self.by_path.len() - i,
        {
            if same_text(self.by_path[i].1.trigger(), wanted.as_str()) {
                proof {
                    self.lemma_entry(i as int);
                    assert forall|other: ActionPathView|
                        self@.dom().contains(other) && (#[trigger] self@[other]).trigger
                            == wanted@ && other != self.by_path[i as int].0@ implies self.by_path[i as int].0@.precedes(
                        other,
                    ) by {
                        let k = self.index_of(other);
                        self.lemma_entry(k);
                        assert(self.by_path[k].1@.trigger == wanted@);
                        assert(self.by_path[i as int].0@.precedes(self.by_path[k].0@));
                    }
                    lemma_triggered_is_unique(self@, wanted@, self.by_path[i as int].0@);
                }
                return Some(ActionRef { path: &self.by_path[i].0, action: &self.by_path[i].1 });
            }
            i += 1;
        }
        proof {
            assert forall|other: ActionPathView| self@.dom().contains(other) implies (
            #[trigger] self@[other]).trigger != wanted@ by {
                let k = self.index_of(other);
                self.lemma_entry(k);
                assert(self.by_path[k].1@.trigger != wanted@);
            }
            lemma_triggered_none(self@, wanted@);
        }
        None
    }

    /// The plan of the action at `path`: see `expand`. Following the
    /// references must come to an end; where they lead in a circle it never
    /// does.
    pub fn resolve(&self, path: &ActionPath) -> (result: Result<Context, Error>)
        requires
            resolves(self@, path@),
        ensures
            match result {
                Ok(context) => resolution(self@, path@) == Ok::<_, Seq<char>>(context@),
                Err(error) => resolution(self@, path@) matches Err(missing) && error@
                    == ErrorView::Message(not_found_message(missing)),
            },
    {
        let ghost depth = choose|depth: nat| expand(self@, path@, depth) is Some;
        let mut plan: Vec<ActionRef<'_>> = Vec::new();
        assert(steps_of(plan@) =~= Seq::<ContextActionView>::empty());
        match self.load_actions_from_path(path, &mut plan, None, Ghost(depth)) {
            Ok(()) => {
                assert(Seq::<ContextActionView>::empty() + resolution(self@, path@)->Ok_0
                    =~= resolution(self@, path@)->Ok_0);
                Ok(Context::from(plan))
            },
            Err(Stop::Missing(error)) => Err(error),
            Err(Stop::TooDeep) => unreached(),
        }
    }

    /// The plan of the action at `path`, as far as `depth` levels of
    /// references reach: what `resolve` gives where that is far enough, and
    /// `None` where it is not. References that lead in a circle are too deep
    /// for any depth.
    pub fn resolve_within(&self, path: &ActionPath, depth: usize) -> (result: Option<
        Result<Context, Error>,
    >)
        ensures
            match result {
                Some(Ok(context)) => expand(self@, path@, depth as nat) == Some(
                    Ok::<_, Seq<char>>(context@),
                ),
                Some(Err(error)) => expand(self@, path@, depth as nat) matches Some(Err(missing))
                    && error@ == ErrorView::Message(not_found_message(missing)),
                None => expand(self@, path@, depth as nat) is None,
            },
            result is Some ==> resolves(self@, path@) && expand(self@, path@, depth as nat)
                == Some(resolution(self@, path@)),
    {
        let mut plan: Vec<ActionRef<'_>> = Vec::new();
        assert(steps_of(plan@) =~= Seq::<ContextActionView>::empty());
        let loaded = self.load_actions_from_path(path, &mut plan, Some(depth), Ghost(depth as nat));
        proof {
            if expand(self@, path@, depth as nat) is Some {
                lemma_resolution_is_expansion(self@, path@, depth as nat);
            }
        }
        match loaded {
            Ok(()) => {
                assert(Seq::<ContextActionView>::empty() + expand(
                    self@,
                    path@,
                    depth as nat,
                )->0->Ok_0 =~= expand(self@, path@, depth as nat)->0->Ok_0);
                Some(Ok(Context::from(plan)))
            },
            Err(Stop::Missing(error)) => Some(Err(error)),
            Err(Stop::TooDeep) => None,
        }
    }

    /// The plan of an action that was looked up in this registry.
    pub fn load_context_for<'a>(&'a self, action_ref: ActionRef<'a>) -> (result: Result<
        Context,
        Error,
    >)
        requires
            self@.dom().contains(action_ref.path@),
            self@[action_ref.path@] == action_ref.action@,
            resolves(self@, action_ref.path@),
        ensures
            match result {
                Ok(context) => resolution(self@, action_ref.path@) == Ok::<_, Seq<char>>(
                    context@,
                ),
                Err(error) => resolution(self@, action_ref.path@) matches Err(missing) && error@
                    == ErrorView::Message(not_found_message(missing)),
            },
    {
        let ghost path = action_ref.path@;
        let ghost depth = choose|depth: nat| expand(self@, path, depth) is Some;
        let mut plan: Vec<ActionRef<'a>> = Vec::new();
        assert(steps_of(plan@) =~= Seq::<ContextActionView>::empty());
        match self.load_actions_from_ref(action_ref, &mut plan, None, Ghost(depth)) {
            Ok(()) => {
                assert(Seq::<ContextActionView>::empty() + resolution(self@, path)->Ok_0
                    =~= resolution(self@, path)->Ok_0);
                Ok(Context::from(plan))
            },
            Err(Stop::Missing(error)) => Err(error),
            Err(Stop::TooDeep) => unreached(),
        }
    }

    /// The plan of an action that was looked up in this registry, as far as
    /// `depth` levels of references reach.
    pub fn load_context_within<'a>(&'a self, action_ref: ActionRef<'a>, depth: usize) -> (result:
        Option<Result<Context, Error>>)
        requires
            self@.dom().contains(action_ref.path@),
            self@[action_ref.path@] == action_ref.action@,
        ensures
            match result {
                Some(Ok(context)) => expand(self@, action_ref.path@, depth as nat) == Some(
                    Ok::<_, Seq<char>>(context@),
                ),
                Some(Err(error)) => expand(self@, action_ref.path@, depth as nat) matches Some(
                    Err(missing),
                ) && error@ == ErrorView::Message(not_found_message(missing)),
                None => expand(self@, action_ref.path@, depth as nat) is None,
            },
    {
        let ghost path = action_ref.path@;
        let mut plan: Vec<ActionRef<'a>> = Vec::new();
        assert(steps_of(plan@) =~= Seq::<ContextActionView>::empty());
        match self.load_actions_from_ref(action_ref, &mut plan, Some(depth), Ghost(depth as nat)) {
            Ok(()) => {
                assert(Seq::<ContextActionView>::empty() + expand(
                    self@,
                    path,
                    depth as nat,
                )->0->Ok_0 =~= expand(self@, path, depth as nat)->0->Ok_0);
                Some(Ok(Context::from(plan)))
            },
            Err(Stop::Missing(error)) => Some(Err(error)),
            Err(Stop::TooDeep) => None,
        }
    }

    fn load_actions_from_path<'a>(
        &'a self,
        action_path: &ActionPath,
        plan: &mut Vec<ActionRef<'a>>,
        limit: Option<usize>,
        Ghost(depth): Ghost<nat>,
    ) -> (result: Result<(), Stop>)
        requires
            within(limit, depth, expand(self@, action_path@, depth)),
        ensures
            stops_as(
                result,
                limit,
                expand(self@, action_path@, depth),
                steps_of(old(plan)@),
                steps_of(final(plan)@),
            ),
        decreases depth, 1nat,
    {
        match self.find(action_path) {
            None => {
                let text = action_path.to_string();
                Err(Stop::Missing(not_found(text.as_str())))
            },
            Some(action_ref) => self.load_actions_from_ref(action_ref, plan, limit, Ghost(depth)),
        }
    }

    fn load_actions_from_ref<'a>(
        &'a self,
        action_ref: ActionRef<'a>,
        plan: &mut Vec<ActionRef<'a>>,
        limit: Option<usize>,
        Ghost(depth): Ghost<nat>,
    ) -> (result: Result<(), Stop>)
        requires
            self@.dom().contains(action_ref.path@),
            self@[action_ref.path@] == action_ref.action@,
            within(limit, depth, expand(self@, action_ref.path@, depth)),
        ensures
            stops_as(
                result,
                limit,
                expand(self@, action_ref.path@, depth),
                steps_of(old(plan)@),
                steps_of(final(plan)@),
            ),
        decreases depth, 0nat,
    {
        let ghost start = steps_of(plan@);
        let ghost below = (depth - 1) as nat;
        let left = match limit {
            Some(levels) => {
                if levels == 0 {
                    return Err(Stop::TooDeep);
                }
                Some(levels - 1)
            },
            None => None,
        };
        match self.load_actions_from_refs(action_ref.action.before(), plan, left, Ghost(below)) {
            Err(stop) => {
                return Err(stop);
            },
            Ok(()) => {},
        }
        let ghost before = expand_all(self@, action_ref.action@.before, below)->0->Ok_0;
        let ghost own = ContextActionView {
            path: action_ref.path@,
            commands: action_ref.action@.pipeline,
        };
        plan.push(ActionRef { path: action_ref.path, action: action_ref.action });
        assert(steps_of(plan@) =~= start + before + seq![own]);
        match self.load_actions_from_refs(action_ref.action.after(), plan, left, Ghost(below)) {
            Err(stop) => {
                return Err(stop);
            },
            Ok(()) => {},
        }
        let ghost after = expand_all(self@, action_ref.action@.after, below)->0->Ok_0;
        assert(steps_of(plan@) =~= start + (before + seq![own] + after));
        Ok(())
    }

    fn load_actions_from_refs<'a>(
        &'a self,
        refs: &Vec<String>,
        plan: &mut Vec<ActionRef<'a>>,
        limit: Option<usize>,
        Ghost(depth): Ghost<nat>,
    ) -> (result: Result<(), Stop>)
        requires
            within(limit, depth, expand_all(self@, texts_of(refs@), depth)),
        ensures
            stops_as(
                result,
                limit,
                expand_all(self@, texts_of(refs@), depth),
                steps_of(old(plan)@),
                steps_of(final(plan)@),
            ),
        decreases depth, 2nat,
    {
        let ghost start = steps_of(plan@);
        let ghost written = texts_of(refs@);
        let ghost mut done = Seq::<ContextActionView>::empty();
        let mut i: usize = 0;
        assert(written.skip(0) =~= written);
        assert(start + done =~= start);
        while i < refs.len()
            invariant
                i <= refs.len(),
                written == texts_of(refs@),
                start == steps_of(old(plan)@),
                steps_of(plan@) == start + done,
                within(limit, depth, expand_all(self@, written.skip(i as int), depth)),
                expand_all(self@, written, depth) == (match expand_all(
                    self@,
                    written.skip(i as int),
                    depth,
                ) {
                    Some(Ok(rest)) => Some(Ok::<_, Seq<char>>(done + rest)),
                    other => other,
                }),
            decreases refs.len() - i,
        {
            let ghost rest = written.skip(i as int);
            assert(rest[0] == refs[i as int]@);
            assert(rest.drop_first() =~= written.skip(i + 1));
            let path = match ActionPath::parse(refs[i].as_str()) {
                Ok(path) => path,
                Err(_) => {
                    return Err(Stop::Missing(not_found(refs[i].as_str())));
                },
            };
            match self.load_actions_from_path(&path, plan, limit, Ghost(depth)) {
                Err(stop) => {
                    return Err(stop);
                },
                Ok(()) => {},
            }
            proof {
                let first = expand(self@, path@, depth)->0->Ok_0;
                let before = done;
                done = done + first;
                assert(steps_of(plan@) =~= start + done);
                match expand_all(self@, written.skip(i + 1), depth) {
                    Some(Ok(more)) => {
                        assert(before + (first + more) =~= done + more);
                    },
                    _ => {},
                }
            }
            i += 1;
        }
        assert(written.skip(i as int) =~= Seq::<Seq<char>>::empty());
        assert(done + Seq::<ContextActionView>::empty() =~= done);
        Ok(())
    }

    /// The registry of a catalog. Two actions of a catalog may not share a
    /// path: the first path that occurs a second time is refused.
    pub fn build(catalog: Vec<(ActionPath, Action)>) -> (result: Result<Actions, Error>)
        ensures
            match result {
                Ok(actions) => first_repeat(catalog_view(catalog@)) is None && actions@
                    == registry_of(catalog_view(catalog@)),
                Err(error) => first_repeat(catalog_view(catalog@)) matches Some(at) && 0 <= at
                    < catalog.len() && error@ == ErrorView::Message(
                    duplicate_message(catalog[at].0@.text()),
                ),
            },
    {
        let mut actions = Actions::new();
        let ghost all = catalog_view(catalog@);
        assert(all.take(0) =~= Seq::<(ActionPathView, ActionView)>::empty());
        for entry in iter: catalog
            invariant
                iter.seq() == catalog@,
                all == catalog_view(catalog@),
                first_repeat(all.take(iter.index() as int)) is None,
                actions@ == registry_of(all.take(iter.index() as int)),
        {
            let ghost at = iter.index() as int;
            proof {
                assert(all.take(at + 1).drop_last() =~= all.take(at));
                assert(all.take(at + 1).last() == all[at]);
                assert(all[at] == (entry.0@, entry.1@));
            }
            let (path, action) = entry;
            match actions.insert(path, action) {
                None => {},
                Some(back) => {
                    let mut message = String::from_str("Duplicate action '");
                    let text = back.0.to_string();
                    message.append(text.as_str());
                    message.append("'");
                    proof {
                        lemma_first_repeat_extends(all, at + 1);
                    }
                    assert(first_repeat(all) == Some(at));
                    return Err(Error::DynamicMessage(message));
                },
            }
        }
        assert(all.take(all.len() as int) =~= all);
        Ok(actions)
    }
}

/// A path that repeats within the first entries of a catalog is the first
/// to repeat in all of it.
pub proof fn lemma_first_repeat_extends(catalog: Seq<(ActionPathView, ActionView)>, n: int)
    requires
        0 <= n <= catalog.len(),
        first_repeat(catalog.take(n)) is Some,
    ensures
        first_repeat(catalog) == first_repeat(catalog.take(n)),
    decreases catalog.len() - n,
{
    if n < catalog.len() {
        assert(catalog.take(n + 1).drop_last() =~= catalog.take(n));
        lemma_first_repeat_extends(catalog, n + 1);
    } else {
        assert(catalog.take(n) =~= catalog);
    }
}

/// The paths and actions of one group.
pub open spec fn group_catalog(name: Seq<char>, group: GroupView) -> Seq<
    (ActionPathView, ActionView),
> {
    Seq::new(
        group.len(),
        |i: int| (ActionPathView { group: name, action: group[i].0 }, group[i].1),
    )
}

/// The paths and actions of a configuration, group after group.
pub open spec fn catalog_of(groups: Seq<(Seq<char>, GroupView)>) -> Seq<
    (ActionPathView, ActionView),
>
    decreases groups.len(),
{
    if groups.len() == 0 {
        Seq::empty()
    } else {
        catalog_of(groups.drop_last()) + group_catalog(groups.last().0, groups.last().1)
    }
}

/// The registry of a configuration: each action under the path made of the
/// name of its group and its own name.
pub fn load_initial_actions(groups: AllGroups) -> (result: Result<Actions, Error>)
    ensures
        match result {
            Ok(actions) => first_repeat(catalog_of(groups@)) is None && actions@ == registry_of(
                catalog_of(groups@),
            ),
            Err(error) => first_repeat(catalog_of(groups@)) matches Some(at) && error@
                == ErrorView::Message(duplicate_message(catalog_of(groups@)[at].0.text())),
        },
{
    let ghost all = groups@;
    let named = groups.into_groups();
    let mut catalog: Vec<(ActionPath, Action)> = Vec::new();
    assert(all.take(0) =~= Seq::<(Seq<char>, GroupView)>::empty());
    assert(catalog_view(catalog@) =~= Seq::<(ActionPathView, ActionView)>::empty());
    for entry in outer: named
        invariant
            outer.seq() == named@,
            named.len() == all.len(),
            forall|i: int|
                0 <= i < named.len() ==> (named[i].0@, named[i].1@) == #[trigger] all[i],
            catalog_view(catalog@) == catalog_of(all.take(outer.index() as int)),
    {
        let ghost at = outer.index() as int;
        let ghost before = catalog_view(catalog@);
        proof {
            assert(all.take(at + 1).drop_last() =~= all.take(at));
            assert(all.take(at + 1).last() == all[at]);
        }
        let (group_name, group) = entry;
        let ghost members = group@;
        let actions = group.into_enumerated_actions();
        assert(group_catalog(group_name@, members).take(0) =~= Seq::<
            (ActionPathView, ActionView),
        >::empty());
        assert(before + group_catalog(group_name@, members).take(0) =~= before);
        for member in inner: actions
            invariant
                inner.seq() == actions@,
                actions.len() == members.len(),
                forall|i: int|
                    0 <= i < actions.len() ==> (actions[i].0@, actions[i].1@)
                        == #[trigger] members[i],
                catalog_view(catalog@) == before + group_catalog(group_name@, members).take(
                    inner.index() as int,
                ),
        {
            let ghost k = inner.index() as int;
            let (action_name, action) = member;
            let path = ActionPath::from_parts(group_name.as_str(), action_name.as_str());
            assert(members[k] == (action_name@, action@));
            let ghost held = catalog_view(catalog@);
            let ghost own = group_catalog(group_name@, members);
            catalog.push((path, action));
            proof {
                assert(own[k] == (path@, action@));
                assert(catalog_view(catalog@) =~= held.push((path@, action@)));
                assert(own.take(k + 1) =~= own.take(k).push(own[k]));
                assert(held.push(own[k]) =~= before + own.take(k + 1));
            }
        }
        assert(group_catalog(group_name@, members).take(members.len() as int)
            =~= group_catalog(group_name@, members));
    }
    assert(all.take(all.len() as int) =~= all);
    Actions::build(catalog)
}

/// Why an expansion stopped short of a plan.
enum Stop {
    /// A reference could not be followed.
    Missing(Error),
    /// The levels that were allowed did not reach the end.
    TooDeep,
}

/// What an expansion that is allowed `limit` levels starts from: the levels
/// are those of `depth`, and an expansion without a limit comes to an end.
spec fn within(limit: Option<usize>, depth: nat, expansion: Option<Expansion>) -> bool {
    match limit {
        Some(levels) => levels == depth,
        None => expansion is Some,
    }
}

/// How the outcome of following references stands to their expansion:
/// a plan was added to what was there, a reference was missing, or the
/// levels that were allowed did not reach the end.
spec fn stops_as(
    result: Result<(), Stop>,
    limit: Option<usize>,
    expansion: Option<Expansion>,
    before: Seq<ContextActionView>,
    after: Seq<ContextActionView>,
) -> bool {
    match result {
        Ok(()) => expansion matches Some(Ok(steps)) && after == before + steps,
        Err(Stop::Missing(error)) => expansion matches Some(Err(missing)) && error@
            == ErrorView::Message(not_found_message(missing)),
        Err(Stop::TooDeep) => limit is Some && expansion is None,
    }
}

/// The error for a reference to an action that the registry does not hold.
fn not_found(path: &str) -> (error: Error)
    ensures
        error@ == ErrorView::Message(not_found_message(path@)),
{
    let mut message = String::from_str("action '");
    message.append(path);
    message.append("' not found");
    Error::DynamicMessage(message)
}

/// The paths and actions of a catalog.
pub open spec fn catalog_view(catalog: Seq<(ActionPath, Action)>) -> Seq<
    (ActionPathView, ActionView),
> {
    Seq::new(catalog.len(), |i: int| (catalog[i].0@, catalog[i].1@))
}

/// The registry that holds each action of a catalog under its path.
pub open spec fn registry_of(catalog: Seq<(ActionPathView, ActionView)>) -> Map<
    ActionPathView,
    ActionView,
>
    decreases catalog.len(),
{
    if catalog.len() == 0 {
        Map::empty()
    } else {
        registry_of(catalog.drop_last()).insert(catalog.last().0, catalog.last().1)
    }
}

/// Index of the first entry of a catalog whose path an earlier entry has.
pub open spec fn first_repeat(catalog: Seq<(ActionPathView, ActionView)>) -> Option<int>
    decreases catalog.len(),
{
    if catalog.len() == 0 {
        None
    } else {
        match first_repeat(catalog.drop_last()) {
            Some(at) => Some(at),
            None => if registry_of(catalog.drop_last()).dom().contains(catalog.last().0) {
                Some(catalog.len() - 1)
            } else {
                None
            },
        }
    }
}

} // verus!
