//! Running a plan, one command at a time.
//!
//! The runner decides; whoever drives it executes. `Runner::start` hands out
//! the first command of a plan, and each `Runner::report` takes the outcome of
//! the command that was handed out last and hands out the next one. The
//! commands of an action run in order, and the actions of a plan in order. The
//! first command that fails ends the run: the rest of its action and every
//! later action are left out.

use crate::execution::context::{Context, ContextActionView};
use vstd::prelude::*;
use vstd::string::StringExecFns;

verus! {

/// Whether a run is still going.
#[derive(Debug, Clone, Copy, PartialEq, Eq, Structural)]
pub enum ActionRunStatus {
    Running,
    Failed,
}

/// How a command ended.
#[derive(Debug, Clone, Copy, PartialEq, Eq, Structural)]
pub enum CommandOutcome {
    /// The command ran and reported success.
    Succeeded,
    /// The command ran and reported failure.
    Failed,
    /// The command could not be started.
    NotStarted,
}

/// Something to tell about an action of the plan, named by its index.
#[derive(Debug, Clone, Copy, PartialEq, Eq, Structural)]
pub enum Notice {
    /// The action is about to run.
    Started(usize),
    /// All commands of the action succeeded.
    Succeeded(usize),
    /// A command of the action failed.
    Failed(usize),
    /// The action is left out because an earlier one failed.
    Skipped(usize),
}

impl Notice {
    /// The index of the action that the notice is about.
    pub open spec fn about(self) -> usize {
        match self {
            Notice::Started(action) => action,
            Notice::Succeeded(action) => action,
            Notice::Failed(action) => action,
            Notice::Skipped(action) => action,
        }
    }

    /// The index of the action that the notice is about.
    pub fn action(&self) -> (action: usize)
        ensures
            action == self.about(),
    {
        match self {
            Notice::Started(action) => *action,
            Notice::Succeeded(action) => *action,
            Notice::Failed(action) => *action,
            Notice::Skipped(action) => *action,
        }
    }

    /// Whether the notice tells of a failure.
    pub fn is_failure(&self) -> (failure: bool)
        ensures
            failure == (self is Failed),
    {
        match self {
            Notice::Failed(_) => true,
            _ => false,
        }
    }
}

/// A notice in words, for an action at `path`.
pub open spec fn notice_text(notice: Notice, path: Seq<char>) -> Seq<char> {
    match notice {
        Notice::Started(_) => "Running action '"@ + path + "'"@,
        Notice::Succeeded(_) => "  OK"@,
        Notice::Failed(_) => "  Failed to run action '"@ + path + "' due to the error above."@,
        Notice::Skipped(_) => "Skipping action '"@ + path + "'"@,
    }
}

/// A notice about an action of `context` in words; `None` for a notice
/// about an action that the plan does not have.
pub fn describe(context: &Context, notice: Notice) -> (text: Option<String>)
    ensures
        match text {
            Some(words) => notice.about() < context@.len() && words@ == notice_text(
                notice,
                context@[notice.about() as int].path.text(),
            ),
            None => notice.about() >= context@.len(),
        },
{
    let actions = context.actions();
    let action = notice.action();
    if action >= actions.len() {
        return None;
    }
    let path = actions[action].path().to_string();
    let mut words = String::new();
    match notice {
        Notice::Started(_) => {
            words.append("Running action '");
            words.append(path.as_str());
            words.append("'");
        },
        Notice::Succeeded(_) => {
            words.append("  OK");
        },
        Notice::Failed(_) => {
            words.append("  Failed to run action '");
            words.append(path.as_str());
            words.append("' due to the error above.");
        },
        Notice::Skipped(_) => {
            words.append("Skipping action '");
            words.append(path.as_str());
            words.append("'");
        },
    }
    assert(words@ =~= notice_text(notice, context@[action as int].path.text()));
    Some(words)
}

/// A command of the plan: the index of its action, and its index among the
/// commands of that action.
pub type Position = (usize, usize);

/// What a step of the run leads to.
#[derive(Debug)]
pub struct Step {
    /// What there is to tell, in order.
    pub notices: Vec<Notice>,
    /// The command to execute next; `None` when the run is over.
    pub command: Option<Position>,
}

/// The notices for leaving out the actions from `from` up to `to`.
pub open spec fn skipped(from: int, to: int) -> Seq<Notice> {
    Seq::new(
        if to >= from {
            (to - from) as nat
        } else {
            0
        },
        |i: int| Notice::Skipped((from + i) as usize),
    )
}

/// Where a run goes on from the point before command `command` of action
/// `action`: the notices up to the next command there is, and the position of
/// that command. An action is announced before its first command, and
/// reported as done after its last; an action without commands is done at
/// once. `None` for the position when the plan is exhausted.
pub open spec fn settled(plan: Seq<ContextActionView>, action: int, command: int) -> (
    Seq<Notice>,
    Option<(int, int)>,
)
    decreases plan.len() - action,
{
    if action < 0 || action >= plan.len() {
        (Seq::empty(), None)
    } else {
        let announced = if command == 0 {
            seq![Notice::Started(action as usize)]
        } else {
            Seq::empty()
        };
        if command < plan[action].commands.len() {
            (announced, Some((action, command)))
        } else {
            let onward = settled(plan, action + 1, 0);
            (announced + seq![Notice::Succeeded(action as usize)] + onward.0, onward.1)
        }
    }
}

/// The position that `settled` gives is that of a command of the plan.
pub proof fn lemma_settled_in_plan(plan: Seq<ContextActionView>, action: int, command: int)
    requires
        0 <= action,
        0 <= command,
    ensures
        settled(plan, action, command).1 matches Some(next) ==> {
            &&& action <= next.0 < plan.len()
            &&& 0 <= next.1 < plan[next.0].commands.len()
            &&& next.0 == action ==> next.1 == command
        },
    decreases plan.len() - action,
{
    if action < plan.len() && command >= plan[action].commands.len() {
        lemma_settled_in_plan(plan, action + 1, 0);
    }
}

/// How each command of a plan ends if it is run: the outcome of command
/// `command` of action `action`.
pub type Outcomes = spec_fn(int, int) -> CommandOutcome;

/// Something that happens during a run.
pub enum Event {
    /// A notice is given.
    Told(Notice),
    /// Command `command` of action `action` is executed.
    Ran { action: int, command: int },
}

/// The events of giving `notices`, in order.
pub open spec fn told(notices: Seq<Notice>) -> Seq<Event> {
    Seq::new(notices.len(), |i: int| Event::Told(notices[i]))
}

/// Running the commands of action `action` from command `command` on: the
/// commands run in order until one does not succeed. Gives the commands that
/// were run, and whether all of them succeeded.
pub open spec fn pipeline_run(
    plan: Seq<ContextActionView>,
    outcomes: Outcomes,
    action: int,
    command: int,
) -> (Seq<Event>, bool)
    decreases plan[action].commands.len() - command,
{
    if command < 0 || command >= plan[action].commands.len() {
        (Seq::empty(), true)
    } else if outcomes(action, command) == CommandOutcome::Succeeded {
        let rest = pipeline_run(plan, outcomes, action, command + 1);
        (seq![Event::Ran { action, command }] + rest.0, rest.1)
    } else {
        (seq![Event::Ran { action, command }], false)
    }
}

/// Running a plan from action `action` on. While the run has not failed,
/// each action is announced, its commands are run, and it is reported as
/// done or as failed; once an action has failed, every later one is left out
/// and none of its commands is run.
pub open spec fn plan_run(
    plan: Seq<ContextActionView>,
    outcomes: Outcomes,
    action: int,
    status: ActionRunStatus,
) -> Seq<Event>
    decreases plan.len() - action,
{
    if action < 0 || action >= plan.len() {
        Seq::empty()
    } else if status == ActionRunStatus::Failed {
        seq![Event::Told(Notice::Skipped(action as usize))] + plan_run(
            plan,
            outcomes,
            action + 1,
            ActionRunStatus::Failed,
        )
    } else {
        let own = pipeline_run(plan, outcomes, action, 0);
        seq![Event::Told(Notice::Started(action as usize))] + own.0 + seq![
            Event::Told(
                if own.1 {
                    Notice::Succeeded(action as usize)
                } else {
                    Notice::Failed(action as usize)
                },
            ),
        ] + plan_run(
            plan,
            outcomes,
            action + 1,
            if own.1 {
                ActionRunStatus::Running
            } else {
                ActionRunStatus::Failed
            },
        )
    }
}

/// What a runner brings about from the moment it has handed out command
/// `command` of action `action`, when each command that it hands out is
/// executed and its outcome reported back: the events that `Runner::report`
/// leads to, one report after the other.
pub open spec fn driven_from(
    plan: Seq<ContextActionView>,
    outcomes: Outcomes,
    action: int,
    command: int,
) -> Seq<Event>
    decreases plan.len() - action, plan[action].commands.len() - command,
{
    if !(0 <= action < plan.len() && 0 <= command < plan[action].commands.len()) {
        Seq::empty()
    } else if outcomes(action, command) == CommandOutcome::Succeeded {
        let onward = settled(plan, action, command + 1);
        proof {
            lemma_settled_in_plan(plan, action, command + 1);
        }
        seq![Event::Ran { action, command }] + told(onward.0) + (match onward.1 {
            Some((next_action, next_command)) => driven_from(
                plan,
                outcomes,
                next_action,
                next_command,
            ),
            None => Seq::empty(),
        })
    } else {
        seq![Event::Ran { action, command }] + told(
            seq![Notice::Failed(action as usize)] + skipped(action + 1, plan.len() as int),
        )
    }
}

/// What a runner brings about once it stands where `settled` has led it.
pub open spec fn driven_after(
    plan: Seq<ContextActionView>,
    outcomes: Outcomes,
    reached: (Seq<Notice>, Option<(int, int)>),
) -> Seq<Event> {
    told(reached.0) + (match reached.1 {
        Some((action, command)) => driven_from(plan, outcomes, action, command),
        None => Seq::empty(),
    })
}

/// All that a runner brings about for a plan, from `Runner::start` to the
/// report after which no command is left.
pub open spec fn driven(plan: Seq<ContextActionView>, outcomes: Outcomes) -> Seq<Event> {
    driven_after(plan, outcomes, settled(plan, 0, 0))
}

/// Once a run has failed, every action that is left is left out.
pub proof fn lemma_failed_run_skips(plan: Seq<ContextActionView>, outcomes: Outcomes, action: int)
    requires
        0 <= action <= plan.len() <= usize::MAX,
    ensures
        plan_run(plan, outcomes, action, ActionRunStatus::Failed) == told(
            skipped(action, plan.len() as int),
        ),
    decreases plan.len() - action,
{
    if action < plan.len() {
        lemma_failed_run_skips(plan, outcomes, action + 1);
        assert(seq![Event::Told(Notice::Skipped(action as usize))] + told(
            skipped(action + 1, plan.len() as int),
        ) =~= told(skipped(action, plan.len() as int)));
    } else {
        assert(told(skipped(action, plan.len() as int)) =~= Seq::<Event>::empty());
    }
}

/// From a command that it has handed out, a runner goes on as the plan is
/// meant to run: through the rest of the action, and then through the rest
/// of the plan.
pub proof fn lemma_driven_from_runs_plan(
    plan: Seq<ContextActionView>,
    outcomes: Outcomes,
    action: int,
    command: int,
)
    requires
        plan.len() <= usize::MAX,
        0 <= action < plan.len(),
        0 <= command < plan[action].commands.len(),
    ensures
        driven_from(plan, outcomes, action, command) == ({
            let own = pipeline_run(plan, outcomes, action, command);
            own.0 + seq![
                Event::Told(
                    if own.1 {
                        Notice::Succeeded(action as usize)
                    } else {
                        Notice::Failed(action as usize)
                    },
                ),
            ] + plan_run(
                plan,
                outcomes,
                action + 1,
                if own.1 {
                    ActionRunStatus::Running
                } else {
                    ActionRunStatus::Failed
                },
            )
        }),
    decreases plan.len() - action, plan[action].commands.len() - command, 0nat,
{
    let own = pipeline_run(plan, outcomes, action, command);
    let ran = seq![Event::Ran { action, command }];
    if outcomes(action, command) == CommandOutcome::Succeeded {
        let onward = settled(plan, action, command + 1);
        let rest = pipeline_run(plan, outcomes, action, command + 1);
        if command + 1 < plan[action].commands.len() {
            lemma_driven_from_runs_plan(plan, outcomes, action, command + 1);
            assert(told(onward.0) =~= Seq::<Event>::empty());
            let verdict = seq![
                Event::Told(
                    if rest.1 {
                        Notice::Succeeded(action as usize)
                    } else {
                        Notice::Failed(action as usize)
                    },
                ),
            ];
            let after = plan_run(
                plan,
                outcomes,
                action + 1,
                if rest.1 {
                    ActionRunStatus::Running
                } else {
                    ActionRunStatus::Failed
                },
            );
            assert(ran + Seq::<Event>::empty() + (rest.0 + verdict + after) =~= (ran + rest.0)
                + verdict + after);
        } else {
            lemma_settled_runs_plan(plan, outcomes, action + 1);
            let further = settled(plan, action + 1, 0);
            let done = seq![Event::Told(Notice::Succeeded(action as usize))];
            assert(told(onward.0) =~= done + told(further.0));
            assert(rest.0 =~= Seq::<Event>::empty());
            let tail = match further.1 {
                Some((a, c)) => driven_from(plan, outcomes, a, c),
                None => Seq::empty(),
            };
            assert(ran + (done + told(further.0)) + tail =~= (ran + Seq::<Event>::empty()) + done
                + (told(further.0) + tail));
        }
    } else {
        lemma_failed_run_skips(plan, outcomes, action + 1);
        let failed = seq![Event::Told(Notice::Failed(action as usize))];
        assert(told(seq![Notice::Failed(action as usize)] + skipped(action + 1, plan.len() as int))
            =~= failed + told(skipped(action + 1, plan.len() as int)));
        assert(ran + (failed + told(skipped(action + 1, plan.len() as int))) =~= ran + failed
            + told(skipped(action + 1, plan.len() as int)));
    }
}

/// From the point before an action, a runner goes on as the plan is meant
/// to run from that action.
pub proof fn lemma_settled_runs_plan(plan: Seq<ContextActionView>, outcomes: Outcomes, action: int)
    requires
        plan.len() <= usize::MAX,
        0 <= action <= plan.len(),
    ensures
        driven_after(plan, outcomes, settled(plan, action, 0)) == plan_run(
            plan,
            outcomes,
            action,
            ActionRunStatus::Running,
        ),
    decreases plan.len() - action, plan[action].commands.len() + 1, 0nat,
{
    if action < plan.len() {
        let reached = settled(plan, action, 0);
        let begun = seq![Event::Told(Notice::Started(action as usize))];
        let own = pipeline_run(plan, outcomes, action, 0);
        if plan[action].commands.len() == 0 {
            lemma_settled_runs_plan(plan, outcomes, action + 1);
            let further = settled(plan, action + 1, 0);
            let done = seq![Event::Told(Notice::Succeeded(action as usize))];
            assert(told(reached.0) =~= begun + done + told(further.0));
            assert(own.0 =~= Seq::<Event>::empty());
            let tail = match further.1 {
                Some((a, c)) => driven_from(plan, outcomes, a, c),
                None => Seq::empty(),
            };
            assert((begun + done + told(further.0)) + tail =~= begun + Seq::<Event>::empty()
                + done + (told(further.0) + tail));
        } else {
            lemma_driven_from_runs_plan(plan, outcomes, action, 0);
            assert(told(reached.0) =~= begun);
            let verdict = seq![
                Event::Told(
                    if own.1 {
                        Notice::Succeeded(action as usize)
                    } else {
                        Notice::Failed(action as usize)
                    },
                ),
            ];
            let after = plan_run(
                plan,
                outcomes,
                action + 1,
                if own.1 {
                    ActionRunStatus::Running
                } else {
                    ActionRunStatus::Failed
                },
            );
            assert(begun + (own.0 + verdict + after) =~= begun + own.0 + verdict + after);
        }
    } else {
        assert(told(settled(plan, action, 0).0) =~= Seq::<Event>::empty());
    }
}

/// A runner that is driven to the end brings about the run of its plan.
pub proof fn lemma_runner_runs_plan(plan: Seq<ContextActionView>, outcomes: Outcomes)
    requires
        plan.len() <= usize::MAX,
    ensures
        driven(plan, outcomes) == plan_run(plan, outcomes, 0, ActionRunStatus::Running),
{
    lemma_settled_runs_plan(plan, outcomes, 0);
}

/// The run stops at the first action that fails: the action is announced,
/// its commands run up to the one that does not succeed, it is reported as
/// failed, and every later action is left out.
pub proof fn lemma_failure_ends_run(plan: Seq<ContextActionView>, outcomes: Outcomes, action: int)
    requires
        plan.len() <= usize::MAX,
        0 <= action < plan.len(),
        !pipeline_run(plan, outcomes, action, 0).1,
    ensures
        plan_run(plan, outcomes, action, ActionRunStatus::Running) == seq![
            Event::Told(Notice::Started(action as usize)),
        ] + pipeline_run(plan, outcomes, action, 0).0 + seq![
            Event::Told(Notice::Failed(action as usize)),
        ] + told(skipped(action + 1, plan.len() as int)),
{
    lemma_failed_run_skips(plan, outcomes, action + 1);
}

/// Running the commands of an action touches no other action, and runs the
/// commands in order without a gap: the events are the commands from
/// `command` up to the last that was run.
pub proof fn lemma_pipeline_run_in_order(
    plan: Seq<ContextActionView>,
    outcomes: Outcomes,
    action: int,
    command: int,
)
    requires
        0 <= command,
    ensures
        ({
            let own = pipeline_run(plan, outcomes, action, command);
            &&& forall|i: int|
                0 <= i < own.0.len() ==> {
                    &&& #[trigger] own.0[i] == (Event::Ran { action, command: command + i })
                    &&& i < own.0.len() - 1 ==> outcomes(action, command + i)
                        == CommandOutcome::Succeeded
                }
            &&& own.1 ==> own.0.len() == (if command < plan[action].commands.len() {
                plan[action].commands.len() - command
            } else {
                0
            })
            &&& !own.1 ==> own.0.len() > 0 && outcomes(action, command + own.0.len() - 1)
                != CommandOutcome::Succeeded
        }),
    decreases plan[action].commands.len() - command,
{
    if command < plan[action].commands.len() && outcomes(action, command)
        == CommandOutcome::Succeeded {
        lemma_pipeline_run_in_order(plan, outcomes, action, command + 1);
    }
}

/// The state of one run.
#[derive(Debug)]
pub struct Runner {
    context: Context,
    /// The command that was handed out and whose outcome is due.
    current: Option<Position>,
    status: ActionRunStatus,
}

/// The view of an optional position.
pub open spec fn position_view(position: Option<Position>) -> Option<(int, int)> {
    match position {
        Some((action, command)) => Some((action as int, command as int)),
        None => None,
    }
}

impl Runner {
    #[verifier::type_invariant]
    spec fn well_formed(self) -> bool {
        match self.current {
            Some((action, command)) => {
                &&& self.status == ActionRunStatus::Running
                &&& action < self.context@.len()
                &&& command < self.context@[action as int].commands.len()
            },
            None => true,
        }
    }

    /// The plan that is run.
    pub closed spec fn plan(&self) -> Seq<ContextActionView> {
        self.context@
    }

    /// The command whose outcome is due, if the run is not over.
    pub closed spec fn awaited(&self) -> Option<(int, int)> {
        position_view(self.current)
    }

    /// Whether a command has failed.
    pub closed spec fn outcome(&self) -> ActionRunStatus {
        self.status
    }

    /// Begins the run of a plan: announces the first action and hands out its
    /// first command.
    pub fn start(context: Context) -> (begun: (Runner, Step))
        ensures
            begun.0.plan() == context@,
            begun.0.outcome() == ActionRunStatus::Running,
            begun.0.awaited() == settled(context@, 0, 0).1,
            begun.1.notices@ == settled(context@, 0, 0).0,
            position_view(begun.1.command) == settled(context@, 0, 0).1,
    {
        let mut notices: Vec<Notice> = Vec::new();
        let command = settle(&context, 0, 0, &mut notices);
        assert(Seq::<Notice>::empty() + settled(context@, 0, 0).0 =~= settled(context@, 0, 0).0);
        proof {
            lemma_settled_in_plan(context@, 0, 0);
        }
        (
            Runner { context, current: command, status: ActionRunStatus::Running },
            Step { notices, command },
        )
    }

    /// Takes the outcome of the command that was handed out last.
    ///
    /// After a success the run goes on with the next command there is. After
    /// a failure the action is reported as failed, every later action as left
    /// out, and the run is over: no command is handed out again. A report
    /// that comes when the run is over changes nothing.
    pub fn report(&mut self, outcome: CommandOutcome) -> (step: Step)
        ensures
            final(self).plan() == old(self).plan(),
            position_view(step.command) == final(self).awaited(),
            match old(self).awaited() {
                None => {
                    &&& step.notices@ == Seq::<Notice>::empty()
                    &&& final(self).awaited() is None
                    &&& final(self).outcome() == old(self).outcome()
                },
                Some((action, command)) => if outcome == CommandOutcome::Succeeded {
                    &&& step.notices@ == settled(old(self).plan(), action, command + 1).0
                    &&& final(self).awaited() == settled(old(self).plan(), action, command + 1).1
                    &&& final(self).outcome() == ActionRunStatus::Running
                } else {
                    &&& step.notices@ == seq![Notice::Failed(action as usize)] + skipped(
                        action + 1,
                        old(self).plan().len() as int,
                    )
                    &&& final(self).awaited() is None
                    &&& final(self).outcome() == ActionRunStatus::Failed
                },
            },
            old(self).outcome() == ActionRunStatus::Failed ==> final(self).outcome()
                == ActionRunStatus::Failed,
            final(self).outcome() == ActionRunStatus::Failed ==> step.command is None,
    {
        proof {
            use_type_invariant(&*self);
        }
        let mut notices: Vec<Notice> = Vec::new();
        match self.current {
            None => Step { notices, command: None },
            Some((action, command)) => {
                match outcome {
                    CommandOutcome::Succeeded => {
                        let length = self.context.actions()[action].commands().len();
                        assert(command < length);
                        let next = settle(&self.context, action, command + 1, &mut notices);
                        proof {
                            let onward = settled(self.context@, action as int, command + 1);
                            assert(Seq::<Notice>::empty() + onward.0 =~= onward.0);
                            lemma_settled_in_plan(self.context@, action as int, command + 1);
                        }
                        self.current = next;
                        Step { notices, command: next }
                    },
                    _ => {
                        notices.push(Notice::Failed(action));
                        let count = self.context.actions().len();
                        let mut left_out = action + 1;
                        while left_out < count
                            invariant
                                action < left_out <= count,
                                count == self.context@.len(),
                                notices@ == seq![Notice::Failed(action)] + skipped(
                                    action + 1,
                                    left_out as int,
                                ),
                            decreases count - left_out,
                        {
                            notices.push(Notice::Skipped(left_out));
                            assert(notices@ =~= seq![Notice::Failed(action)] + skipped(
                                action + 1,
                                left_out + 1,
                            ));
                            left_out += 1;
                        }
                        self.current = None;
                        self.status = ActionRunStatus::Failed;
                        Step { notices, command: None }
                    },
                }
            },
        }
    }

    /// The plan that is run.
    pub fn context(&self) -> (context: &Context)
        ensures
            context@ == self.plan(),
    {
        &self.context
    }

    /// Whether a command has failed.
    pub fn status(&self) -> (status: ActionRunStatus)
        ensures
            status == self.outcome(),
    {
        self.status
    }

    /// The command line whose outcome is due, if the run is not over.
    pub fn command_line(&self) -> (line: Option<&str>)
        ensures
            match line {
                Some(text) => self.awaited() matches Some((action, command)) && text@
                    == self.plan()[action].commands[command],
                None => self.awaited() is None,
            },
    {
        proof {
            use_type_invariant(self);
        }
        match self.current {
            Some((action, command)) => Some(
                self.context.actions()[action].commands().get(command),
            ),
            None => None,
        }
    }
}

/// Moves from the point before command `command` of action `action` to the
/// next command there is, collecting the notices on the way.
fn settle(
    context: &Context,
    from_action: usize,
    from_command: usize,
    notices: &mut Vec<Notice>,
) -> (next: Option<Position>)
    requires
        from_action < context@.len() ==> from_command <= context@[from_action as int].commands.len(),
    ensures
        final(notices)@ == old(notices)@ + settled(
            context@,
            from_action as int,
            from_command as int,
        ).0,
        position_view(next) == settled(context@, from_action as int, from_command as int).1,
{
    let actions = context.actions();
    let mut action = from_action;
    let mut command = from_command;
    let ghost whole = settled(context@, from_action as int, from_command as int);
    let ghost mut told = Seq::<Notice>::empty();
    assert(notices@ + told =~= notices@);
    assert(told + whole.0 =~= whole.0);
    while action < actions.len()
        invariant
            actions.len() == context@.len(),
            forall|i: int| 0 <= i < actions.len() ==> actions[i]@ == #[trigger] context@[i],
            action < context@.len() ==> command <= context@[action as int].commands.len(),
            whole == settled(context@, from_action as int, from_command as int),
            notices@ == old(notices)@ + told,
            whole.0 == told + settled(context@, action as int, command as int).0,
            whole.1 == settled(context@, action as int, command as int).1,
        decreases actions.len() - action,
    {
        let ghost onward = settled(context@, action as int, command as int);
        let ghost before = told;
        if command == 0 {
            notices.push(Notice::Started(action));
            proof {
                told = told.push(Notice::Started(action));
            }
        }
        assert(notices@ =~= old(notices)@ + told);
        if command < actions[action].commands().len() {
            proof {
                assert(whole.0 =~= told);
            }
            return Some((action, command));
        }
        notices.push(Notice::Succeeded(action));
        proof {
            told = told.push(Notice::Succeeded(action));
            let further = settled(context@, action + 1, 0);
            assert(before + onward.0 =~= told + further.0);
            assert(notices@ =~= old(notices)@ + told);
        }
        action += 1;
        command = 0;
    }
    proof {
        assert(told + Seq::<Notice>::empty() =~= told);
    }
    None
}

} // verus!
