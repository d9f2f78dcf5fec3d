//! One invocation of the external tool as a state machine.
//!
//! The stages follow one another in a fixed order:
//!
//! `Idle → SignalArmed → TargetsBuilt → OperationChosen → ChildSpawned`
//!
//! and from any of them the invocation may end, as `Succeeded`, `Cancelled`
//! or `Failed`. The driver performs what a step asks for and reports what
//! came of it; [`Invocation::step`] decides what follows.

use crate::error::{ErrorView, TfocusError};
use crate::executor::{
    apply_suggestion, apply_suggestion_of, are_operation_choices, arguments_of, command_arguments,
    command_line, command_line_of, conclude, create_target_options, get_working_directory,
    operation_choices, operation_for, outcome_of, select_operation, target_options,
    working_directory_of, ChildExit, ChildExitView, Operation, Outcome, OutcomeView, SelectItem,
    SignalState,
};
use crate::types::{Resource, ResourceView};
use vstd::prelude::*;

verus! {

/// Where an invocation stands.
#[derive(Clone, Copy, Debug, PartialEq, Eq, Structural)]
pub enum Stage {
    /// Nothing has been done yet.
    Idle,
    /// The interrupt handler is being installed.
    SignalArmed,
    /// The target flags are built; the user is picking the operation.
    TargetsBuilt,
    /// The operation is chosen; the external tool is being started.
    OperationChosen,
    /// The external tool runs.
    ChildSpawned,
    /// The invocation has ended well.
    Succeeded,
    /// The invocation has ended because the user asked to stop.
    Cancelled,
    /// The invocation has ended in failure.
    Failed,
}

impl Stage {
    /// The invocation has ended.
    pub open spec fn is_final(self) -> bool {
        self == Stage::Succeeded || self == Stage::Cancelled || self == Stage::Failed
    }

    /// The target flags are built and the invocation has not ended.
    pub open spec fn has_targets(self) -> bool {
        self == Stage::TargetsBuilt || self == Stage::OperationChosen || self
            == Stage::ChildSpawned
    }

    /// The operation is chosen and the invocation has not ended.
    pub open spec fn has_operation(self) -> bool {
        self == Stage::OperationChosen || self == Stage::ChildSpawned
    }

    /// How far the stage is from the start.
    pub open spec fn rank(self) -> nat {
        match self {
            Stage::Idle => 0,
            Stage::SignalArmed => 1,
            Stage::TargetsBuilt => 2,
            Stage::OperationChosen => 3,
            Stage::ChildSpawned => 4,
            Stage::Succeeded => 5,
            Stage::Cancelled => 5,
            Stage::Failed => 5,
        }
    }
}

/// What the driver reports to the invocation.
#[derive(Debug)]
pub enum Event {
    /// The driver is ready.
    Started,
    /// The interrupt handler is in place.
    HandlerInstalled,
    /// The interrupt handler could not be installed; the reason.
    HandlerFailed(String),
    /// The selection interface has answered: the payload chosen, or `None`
    /// where the user chose nothing.
    OperationPicked(Option<String>),
    /// The external tool has been started and its process id recorded.
    ChildStarted,
    /// The external tool could not be started; the system's message.
    SpawnFailed(String),
    /// Waiting for the external tool has ended. `still_running` is the
    /// shared flag as it was read afterwards.
    ChildEnded { exit: ChildExit, still_running: bool },
}

/// The external command to start.
#[derive(Debug)]
pub struct Command {
    /// The arguments after the program's name.
    pub arguments: Vec<String>,
    /// The directory to run in.
    pub working_dir: String,
    /// The command as it is shown to the user.
    pub display: String,
}

/// What the invocation asks of the driver.
#[derive(Debug)]
pub enum Action {
    /// Install the interrupt handler.
    InstallHandler,
    /// Let the user pick among these entries.
    ChooseOperation(Vec<SelectItem>),
    /// Start the external tool.
    Spawn(Command),
    /// Wait for the external tool.
    Wait,
    /// Report the outcome and, where there is one, suggest the command to
    /// run next.
    Finish { outcome: Outcome, follow_up: Option<String> },
    /// Leave without running anything: the user chose no operation.
    Quit,
    /// Nothing: the event does not belong to the stage.
    Ignore,
}

/// One run of the external tool on a list of entities, from the first step
/// to the outcome.
pub struct Invocation {
    stage: Stage,
    resources: Vec<Resource>,
    target_options: Vec<String>,
    operation: Option<Operation>,
}

/// The mathematical value of an [`Invocation`].
pub ghost struct InvocationView {
    /// Where the invocation stands.
    pub stage: Stage,
    /// The entities to target.
    pub entities: Seq<ResourceView>,
    /// The target flags, once built.
    pub targets: Seq<Seq<char>>,
    /// The operation, once chosen.
    pub operation: Option<Operation>,
}

impl InvocationView {
    /// What holds of an invocation at every stage: while the target flags
    /// count, there is at least one entity and the flags are those of the
    /// entities; while the operation counts, it is known.
    pub open spec fn well_formed(self) -> bool {
        &&& self.stage.has_targets() ==> self.entities.len() > 0 && self.targets
            == target_options(self.entities)
        &&& self.stage.has_operation() ==> self.operation is Some
    }
}

impl View for Invocation {
    type V = InvocationView;

    closed spec fn view(&self) -> InvocationView {
        InvocationView {
            stage: self.stage,
            entities: self.resources.deep_view(),
            targets: self.target_options.deep_view(),
            operation: self.operation,
        }
    }
}

/// `action` ends the invocation with the outcome `outcome` and suggests
/// `follow_up`.
pub open spec fn finishes_with(
    action: Action,
    outcome: OutcomeView,
    follow_up: Option<Seq<char>>,
) -> bool {
    action matches Action::Finish { outcome: reported, follow_up: suggested } && reported@
        == outcome && suggested.deep_view() == follow_up
}

/// The invocation `before` fails with `error`: it ends in the stage
/// `Failed` and reports the failure.
pub open spec fn fails_with(
    before: InvocationView,
    after: InvocationView,
    action: Action,
    error: ErrorView,
) -> bool {
    after == (InvocationView { stage: Stage::Failed, ..before }) && finishes_with(
        action,
        OutcomeView::Failed(error),
        None,
    )
}

/// The stage in which an invocation with the outcome `outcome` ends.
pub open spec fn final_stage(outcome: OutcomeView) -> Stage {
    match outcome {
        OutcomeView::Succeeded => Stage::Succeeded,
        OutcomeView::Cancelled => Stage::Cancelled,
        OutcomeView::Failed(_) => Stage::Failed,
    }
}

/// The command to suggest once the operation `operation` has ended with
/// `outcome`: after a plan that succeeded, the apply of the same targets.
pub open spec fn follow_up_of(
    operation: Option<Operation>,
    outcome: OutcomeView,
    targets: Seq<Seq<char>>,
) -> Option<Seq<char>> {
    if outcome is Succeeded && operation == Some(Operation::Plan) {
        Some(apply_suggestion_of(targets))
    } else {
        None
    }
}

/// `command` runs `operation` on `targets` for the entities `entities`, in
/// the directory of the first entity's declaring file.
pub open spec fn is_command_for(
    command: Command,
    operation: Operation,
    targets: Seq<Seq<char>>,
    entities: Seq<ResourceView>,
) -> bool {
    &&& command.arguments.deep_view() == arguments_of(operation, targets)
    &&& command.display@ == command_line_of(operation, targets)
    &&& entities.len() > 0
    &&& command.working_dir@ == working_directory_of(entities[0].file_path)
}

/// The handler is in place: the target flags are built and the user is
/// asked for the operation, or the invocation fails for want of a target.
pub open spec fn arms(before: InvocationView, after: InvocationView, action: Action) -> bool {
    if before.entities.len() > 0 {
        &&& after == (InvocationView {
            stage: Stage::TargetsBuilt,
            targets: target_options(before.entities),
            ..before
        })
        &&& action matches Action::ChooseOperation(items) && are_operation_choices(items@)
    } else {
        fails_with(before, after, action, ErrorView::ParseError("No targets specified"@))
    }
}

/// The user has answered. Without a choice the invocation ends well and
/// nothing is run. A payload that was not offered fails it. Otherwise the
/// operation is recorded and the external tool is to be started, in the
/// directory of the first entity's file.
pub open spec fn picks(
    before: InvocationView,
    choice: Option<String>,
    after: InvocationView,
    action: Action,
) -> bool {
    match choice {
        None => after == (InvocationView { stage: Stage::Succeeded, ..before })
            && action is Quit,
        Some(payload) => match operation_for(payload@) {
            None => fails_with(before, after, action, ErrorView::InvalidOperation(payload@)),
            Some(operation) => if before.entities.len() > 0 {
                &&& after == (InvocationView {
                    stage: Stage::OperationChosen,
                    operation: Some(operation),
                    ..before
                })
                &&& action matches Action::Spawn(command) && is_command_for(
                    command,
                    operation,
                    before.targets,
                    before.entities,
                )
            } else {
                fails_with(before, after, action, ErrorView::ParseError("No resources specified"@))
            },
        },
    }
}

/// Waiting has ended: the invocation ends in the stage of its outcome and
/// reports it, with the command to suggest after a plan that succeeded.
pub open spec fn ends(
    before: InvocationView,
    exit: ChildExitView,
    still_running: bool,
    after: InvocationView,
    action: Action,
) -> bool {
    let outcome = outcome_of(exit, still_running);
    &&& after == (InvocationView { stage: final_stage(outcome), ..before })
    &&& finishes_with(action, outcome, follow_up_of(before.operation, outcome, before.targets))
}

/// What one step may do: the invocation `before` takes `event`, becomes
/// `after` and asks for `action`. An event that does not belong to the
/// stage changes nothing and asks for nothing.
pub open spec fn step_allows(
    before: InvocationView,
    event: Event,
    after: InvocationView,
    action: Action,
) -> bool {
    match (before.stage, event) {
        (Stage::Idle, Event::Started) => after == (InvocationView {
            stage: Stage::SignalArmed,
            ..before
        }) && action is InstallHandler,
        (Stage::SignalArmed, Event::HandlerInstalled) => arms(before, after, action),
        (Stage::SignalArmed, Event::HandlerFailed(reason)) => fails_with(
            before,
            after,
            action,
            ErrorView::CommandExecutionError(reason@),
        ),
        (Stage::TargetsBuilt, Event::OperationPicked(choice)) => picks(
            before,
            choice,
            after,
            action,
        ),
        (Stage::OperationChosen, Event::ChildStarted) => after == (InvocationView {
            stage: Stage::ChildSpawned,
            ..before
        }) && action is Wait,
        (Stage::OperationChosen, Event::SpawnFailed(reason)) => fails_with(
            before,
            after,
            action,
            ErrorView::CommandExecutionError(reason@),
        ),
        (Stage::ChildSpawned, Event::ChildEnded { exit, still_running }) => ends(
            before,
            exit@,
            still_running,
            after,
            action,
        ),
        _ => after == before && action is Ignore,
    }
}

impl Invocation {
    #[verifier::type_invariant]
    closed spec fn sound(self) -> bool {
        self@.well_formed()
    }

    /// Prepares an invocation on `resources`. Nothing has been done yet.
    pub fn new(resources: Vec<Resource>) -> (r: Invocation)
        ensures
            r@ == (InvocationView {
                stage: Stage::Idle,
                entities: resources.deep_view(),
                targets: Seq::empty(),
                operation: None,
            }),
    {
        let r = Invocation {
            stage: Stage::Idle,
            resources,
            target_options: Vec::new(),
            operation: None,
        };
        assert(r@.targets =~= Seq::<Seq<char>>::empty());
        r
    }

    /// Returns the stage at which the invocation stands.
    pub fn stage(&self) -> (r: Stage)
        ensures
            r == self@.stage,
            self@.well_formed(),
    {
        proof {
            use_type_invariant(self);
        }
        self.stage
    }

    /// Ends the invocation in failure.
    fn fail(&mut self, error: TfocusError) -> (action: Action)
        ensures
            fails_with(old(self)@, final(self)@, action, error@),
    {
        proof {
            use_type_invariant(&*self);
        }
        self.stage = Stage::Failed;
        Action::Finish { outcome: Outcome::Failed(error), follow_up: None }
    }

    /// Builds the target flags once the handler is in place.
    fn arm(&mut self) -> (action: Action)
        requires
            old(self)@.stage == Stage::SignalArmed,
        ensures
            arms(old(self)@, final(self)@, action),
    {
        match create_target_options(self.resources.as_slice()) {
            Ok(options) => {
                self.target_options = options;
                self.stage = Stage::TargetsBuilt;
                Action::ChooseOperation(operation_choices())
            },
            Err(error) => self.fail(error),
        }
    }

    /// Reads the user's answer and prepares the command.
    fn pick(&mut self, choice: Option<String>) -> (action: Action)
        requires
            old(self)@.stage == Stage::TargetsBuilt,
        ensures
            picks(old(self)@, choice, final(self)@, action),
    {
        proof {
            use_type_invariant(&*self);
        }
        let operation = match select_operation(choice) {
            Ok(Some(operation)) => operation,
            Ok(None) => {
                self.stage = Stage::Succeeded;
                return Action::Quit;
            },
            Err(error) => {
                return self.fail(error);
            },
        };
        let working_dir = match get_working_directory(self.resources.as_slice()) {
            Ok(directory) => directory,
            Err(error) => {
                return self.fail(error);
            },
        };
        let command = Command {
            arguments: command_arguments(operation, self.target_options.as_slice()),
            working_dir,
            display: command_line(operation, self.target_options.as_slice()),
        };
        self.operation = Some(operation);
        self.stage = Stage::OperationChosen;
        Action::Spawn(command)
    }

    /// Decides the outcome once waiting has ended.
    fn end(&mut self, exit: ChildExit, still_running: bool) -> (action: Action)
        requires
            old(self)@.stage == Stage::ChildSpawned,
        ensures
            ends(old(self)@, exit@, still_running, final(self)@, action),
    {
        proof {
            use_type_invariant(&*self);
        }
        let outcome = conclude(exit, still_running);
        let follow_up = match (&outcome, self.operation) {
            (Outcome::Succeeded, Some(Operation::Plan)) => Some(
                apply_suggestion(self.target_options.as_slice()),
            ),
            _ => None,
        };
        self.stage = match &outcome {
            Outcome::Succeeded => Stage::Succeeded,
            Outcome::Cancelled => Stage::Cancelled,
            Outcome::Failed(_) => Stage::Failed,
        };
        Action::Finish { outcome, follow_up }
    }

    /// Takes what the driver reports and says what it is to do next.
    pub fn step(&mut self, event: Event) -> (action: Action)
        ensures
            step_allows(old(self)@, event, final(self)@, action),
            old(self)@.well_formed(),
            final(self)@.well_formed(),
    {
        proof {
            use_type_invariant(&*self);
        }
        match (self.stage, event) {
            (Stage::Idle, Event::Started) => {
                self.stage = Stage::SignalArmed;
                Action::InstallHandler
            },
            (Stage::SignalArmed, Event::HandlerInstalled) => self.arm(),
            (Stage::SignalArmed, Event::HandlerFailed(reason)) => self.fail(
                TfocusError::CommandExecutionError(reason),
            ),
            (Stage::TargetsBuilt, Event::OperationPicked(choice)) => self.pick(choice),
            (Stage::OperationChosen, Event::ChildStarted) => {
                self.stage = Stage::ChildSpawned;
                Action::Wait
            },
            (Stage::OperationChosen, Event::SpawnFailed(reason)) => self.fail(
                TfocusError::CommandExecutionError(reason),
            ),
            (Stage::ChildSpawned, Event::ChildEnded { exit, still_running }) => self.end(
                exit,
                still_running,
            ),
            _ => Action::Ignore,
        }
    }
}

/// An invocation only moves forward: no step leads to an earlier stage,
/// and an invocation that has ended stays as it is. A step that asks for
/// nothing changes nothing.
pub proof fn lemma_steps_advance(
    before: InvocationView,
    event: Event,
    after: InvocationView,
    action: Action,
)
    requires
        step_allows(before, event, after, action),
    ensures
        before.stage.rank() <= after.stage.rank(),
        after.entities == before.entities,
        before.stage.is_final() ==> after == before && action is Ignore,
        action is Ignore ==> after == before,
{
}

/// The interrupt handler is installed once in an invocation: it is asked
/// for by the step that leaves the first stage and by no other, and no step
/// leads back to the first stage.
pub proof fn lemma_handler_is_installed_once(
    before: InvocationView,
    event: Event,
    after: InvocationView,
    action: Action,
)
    requires
        step_allows(before, event, after, action),
    ensures
        action is InstallHandler <==> before.stage == Stage::Idle && event is Started,
        action is InstallHandler ==> after.stage == Stage::SignalArmed,
        before.stage != Stage::Idle ==> after.stage != Stage::Idle,
{
}

/// The external tool is never started without a target: the command that
/// a step asks to start names the operation and holds one target flag for
/// each entity, of which there is at least one; and it runs in the
/// directory of the first entity's declaring file.
pub proof fn lemma_spawn_is_targeted(
    before: InvocationView,
    event: Event,
    after: InvocationView,
    action: Action,
)
    requires
        before.well_formed(),
        step_allows(before, event, after, action),
        action is Spawn,
    ensures
        before.entities.len() > 0,
        after.operation is Some,
        action->Spawn_0.arguments.deep_view() == arguments_of(
            after.operation->0,
            target_options(before.entities),
        ),
        action->Spawn_0.arguments@.len() > before.entities.len(),
        action->Spawn_0.working_dir@ == working_directory_of(before.entities[0].file_path),
{
}

/// The want of entities is found when the target flags are built, so the
/// working directory is never asked for in vain: no step of a well-formed
/// invocation fails for want of a resource.
pub proof fn lemma_working_directory_never_fails(
    before: InvocationView,
    event: Event,
    after: InvocationView,
    action: Action,
)
    requires
        before.well_formed(),
        step_allows(before, event, after, action),
    ensures
        !fails_with(before, after, action, ErrorView::ParseError("No resources specified"@)),
{
    reveal_strlit("No resources specified");
    reveal_strlit("No targets specified");
    assert("No resources specified"@.len() != "No targets specified"@.len());
}

/// A step keeps an invocation well formed.
pub proof fn lemma_step_keeps_well_formed(
    before: InvocationView,
    event: Event,
    after: InvocationView,
    action: Action,
)
    requires
        before.well_formed(),
        step_allows(before, event, after, action),
    ensures
        after.well_formed(),
{
}

/// A plan that runs to a good end: on entities that are not none, with the
/// handler in place, the plan chosen, the tool started and ended with
/// success, and no interrupt, the invocation passes through its stages in
/// order, ends as succeeded, and suggests the apply of the same targets.
pub proof fn lemma_plan_runs_to_suggestion(
    stages: Seq<InvocationView>,
    actions: Seq<Action>,
    payload: String,
    status: String,
)
    requires
        stages.len() == 6,
        actions.len() == 5,
        stages[0].stage == Stage::Idle,
        stages[0].entities.len() > 0,
        operation_for(payload@) == Some(Operation::Plan),
        step_allows(stages[0], Event::Started, stages[1], actions[0]),
        step_allows(stages[1], Event::HandlerInstalled, stages[2], actions[1]),
        step_allows(stages[2], Event::OperationPicked(Some(payload)), stages[3], actions[2]),
        step_allows(stages[3], Event::ChildStarted, stages[4], actions[3]),
        step_allows(
            stages[4],
            Event::ChildEnded {
                exit: ChildExit::Exited { success: true, status },
                still_running: true,
            },
            stages[5],
            actions[4],
        ),
    ensures
        stages[1].stage == Stage::SignalArmed && actions[0] is InstallHandler,
        stages[2].stage == Stage::TargetsBuilt && actions[1] is ChooseOperation,
        stages[3].stage == Stage::OperationChosen && actions[2] is Spawn,
        stages[4].stage == Stage::ChildSpawned && actions[3] is Wait,
        stages[5].stage == Stage::Succeeded,
        finishes_with(
            actions[4],
            OutcomeView::Succeeded,
            Some(apply_suggestion_of(target_options(stages[0].entities))),
        ),
{
}

/// If the handler fires before the child process exits, the invocation
/// ends as cancelled and says so, whatever the child's exit status then
/// is: also where it exits with success.
pub proof fn lemma_interrupted_invocation_is_cancelled(
    before: InvocationView,
    signal: SignalState,
    exit: ChildExit,
    after: InvocationView,
    action: Action,
)
    requires
        before.stage == Stage::ChildSpawned,
        exit is Exited,
        step_allows(
            before,
            Event::ChildEnded { exit, still_running: signal.interrupted().running },
            after,
            action,
        ),
    ensures
        after.stage == Stage::Cancelled,
        finishes_with(action, OutcomeView::Cancelled, None),
{
}

} // verus!
