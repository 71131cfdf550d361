//! The plan of one run: the actions to execute, in order.

use crate::actions::commands::Commands;
use crate::state::actions::ActionRef;
use crate::utils::action_path::{ActionPath, ActionPathView};
use vstd::prelude::*;

verus! {

/// One step of a plan: an action and its command lines.
#[derive(Debug)]
pub struct ContextAction {
    path: ActionPath,
    commands: Commands,
}

/// What a `ContextAction` stands for.
pub struct ContextActionView {
    pub path: ActionPathView,
    pub commands: Seq<Seq<char>>,
}

/// The actions of one run, in the order they are to be executed.
#[derive(Debug)]
pub struct Context {
    actions: Vec<ContextAction>,
}

impl View for ContextAction {
    type V = ContextActionView;

    closed spec fn view(&self) -> ContextActionView {
        ContextActionView { path: self.path@, commands: self.commands@ }
    }
}

/// The step that a reference to an action stands for.
pub open spec fn step_of(action_ref: ActionRef) -> ContextActionView {
    ContextActionView { path: action_ref.path@, commands: action_ref.action@.pipeline }
}

/// The steps that a list of references stands for.
pub open spec fn steps_of(refs: Seq<ActionRef>) -> Seq<ContextActionView> {
    Seq::new(refs.len(), |i: int| step_of(refs[i]))
}

impl View for Context {
    type V = Seq<ContextActionView>;

    closed spec fn view(&self) -> Seq<ContextActionView> {
        Seq::new(self.actions@.len(), |i: int| self.actions@[i]@)
    }
}

impl Context {
    /// The steps of the plan, in order.
    pub fn actions(&self) -> (actions: &Vec<ContextAction>)
        ensures
            actions.len() == self@.len(),
            forall|i: int| 0 <= i < actions.len() ==> actions[i]@ == #[trigger] self@[i],
    {
        &self.actions
    }

    /// The plan that runs the referenced actions in the order given.
    pub fn from(value: Vec<ActionRef<'_>>) -> (context: Context)
        ensures
            context@ == steps_of(value@),
    {
        let mut actions: Vec<ContextAction> = Vec::new();
        let mut i: usize = 0;
        while i < value.len()
            invariant
                i <= value.len(),
                actions.len() == i,
                forall|j: int| 0 <= j < i ==> actions[j]@ == step_of(value[j]),
            decreases value.len() - i,
        {
            actions.push(ContextAction::from(&value[i]));
            i += 1;
        }
        let context = Context { actions };
        assert(context@ =~= steps_of(value@));
        context
    }
}

impl ContextAction {
    /// The step that runs the referenced action.
    pub fn from(value: &ActionRef<'_>) -> (step: ContextAction)
        ensures
            step@ == step_of(*value),
    {
        ContextAction { path: value.path.clone(), commands: value.action.action().clone() }
    }

    /// The path of the action.
    pub fn path(&self) -> (path: &ActionPath)
        ensures
            path@ == self@.path,
    {
        &self.path
    }

    /// The command lines of the action.
    pub fn commands(&self) -> (commands: &Commands)
        ensures
            commands@ == self@.commands,
    {
        &self.commands
    }
}

} // verus!
