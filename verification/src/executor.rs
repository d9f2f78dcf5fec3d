//! Targeted execution: from a list of entities to the command line of the
//! external tool, and from what became of the child process to the outcome
//! of the invocation.
//!
//! Nothing here starts a process or waits for one. The driver does that and
//! reports back; this module decides.

use crate::error::{ErrorView, TfocusError};
use crate::text::{join, joined, same_text};
use crate::types::{Resource, ResourceView};
use vstd::prelude::*;
use vstd::string::StringExecFns;

verus! {

/// The operation that the external tool is asked to perform.
#[derive(Clone, Copy, Debug, PartialEq, Eq, Structural)]
pub enum Operation {
    Plan,
    Apply,
}

impl Operation {
    /// The word that names the operation on the command line.
    pub open spec fn keyword_text(self) -> Seq<char> {
        match self {
            Operation::Plan => "plan"@,
            Operation::Apply => "apply"@,
        }
    }

    /// Returns the word that names the operation on the command line.
    pub fn keyword(&self) -> (r: &'static str)
        ensures
            r@ == self.keyword_text(),
    {
        match self {
            Operation::Plan => "plan",
            Operation::Apply => "apply",
        }
    }
}

/// One entry offered to the user by the selection interface.
#[derive(Debug)]
pub struct SelectItem {
    /// The line shown.
    pub display: String,
    /// The text that a search is matched against.
    pub search_text: String,
    /// What the interface hands back when the entry is chosen.
    pub data: String,
}

/// The operation that the payload `choice` stands for, if any.
pub open spec fn operation_for(choice: Seq<char>) -> Option<Operation> {
    if choice == "1"@ {
        Some(Operation::Plan)
    } else if choice == "2"@ {
        Some(Operation::Apply)
    } else {
        None
    }
}

/// The two payloads offered are different texts.
proof fn lemma_payloads_differ()
    ensures
        "1"@ != "2"@,
{
    reveal_strlit("1");
    reveal_strlit("2");
    assert("1"@[0] != "2"@[0]);
}

/// `items` are the entries from which the user picks the operation: plan
/// first, then apply.
pub open spec fn are_operation_choices(items: Seq<SelectItem>) -> bool {
    &&& items.len() == 2
    &&& items[0].display@ == "plan  - Show changes to be made"@
    &&& items[0].search_text@ == "plan terraform show changes"@
    &&& items[0].data@ == "1"@
    &&& items[1].display@ == "apply - Execute the planned changes"@
    &&& items[1].search_text@ == "apply terraform execute changes"@
    &&& items[1].data@ == "2"@
}

/// Every entry offered stands for an operation: the first for a plan, the
/// second for an apply. A choice among them is never refused.
pub proof fn lemma_offered_choices_are_operations(items: Seq<SelectItem>)
    requires
        are_operation_choices(items),
    ensures
        operation_for(items[0].data@) == Some(Operation::Plan),
        operation_for(items[1].data@) == Some(Operation::Apply),
{
    lemma_payloads_differ();
}

/// The entries from which the user picks the operation.
pub fn operation_choices() -> (r: Vec<SelectItem>)
    ensures
        are_operation_choices(r@),
{
    let mut r: Vec<SelectItem> = Vec::new();
    r.push(
        SelectItem {
            display: String::from_str("plan  - Show changes to be made"),
            search_text: String::from_str("plan terraform show changes"),
            data: String::from_str("1"),
        },
    );
    r.push(
        SelectItem {
            display: String::from_str("apply - Execute the planned changes"),
            search_text: String::from_str("apply terraform execute changes"),
            data: String::from_str("2"),
        },
    );
    r
}

/// Reads the answer of the selection interface: the operation chosen, or
/// `None` where the user chose nothing. A payload that was not offered is
/// refused.
pub fn select_operation(choice: Option<String>) -> (r: Result<Option<Operation>, TfocusError>)
    ensures
        match choice {
            None => r == Ok::<Option<Operation>, TfocusError>(None),
            Some(payload) => match operation_for(payload@) {
                Some(operation) => r == Ok::<Option<Operation>, TfocusError>(Some(operation)),
                None => r matches Err(e) && e@ == ErrorView::InvalidOperation(payload@),
            },
        },
{
    match choice {
        None => Ok(None),
        Some(payload) => {
            if same_text(payload.as_str(), "1") {
                Ok(Some(Operation::Plan))
            } else if same_text(payload.as_str(), "2") {
                Ok(Some(Operation::Apply))
            } else {
                Err(TfocusError::InvalidOperation(payload))
            }
        },
    }
}

/// The `-target` flag of the entity `e`.
pub open spec fn target_option(e: ResourceView) -> Seq<char> {
    "-target="@ + e.target_string()
}

/// The `-target` flags of `entities`, one for each, in their order.
pub open spec fn target_options(entities: Seq<ResourceView>) -> Seq<Seq<char>> {
    entities.map_values(|e: ResourceView| target_option(e))
}

/// Creates the `-target` flags for the external tool, one for each entity,
/// in the order given. An invocation without a target is refused.
pub fn create_target_options(resources: &[Resource]) -> (r: Result<Vec<String>, TfocusError>)
    ensures
        match r {
            Ok(options) => resources@.len() > 0 && options.deep_view() == target_options(
                resources.deep_view(),
            ),
            Err(e) => resources@.len() == 0 && e@ == ErrorView::ParseError(
                "No targets specified"@,
            ),
        },
{
    let mut options: Vec<String> = Vec::new();
    let mut i: usize = 0;
    while i < resources.len()
        invariant
            i <= resources@.len(),
            options@.len() == i,
            forall|j: int| 0 <= j < i ==> options@[j]@ == target_option(#[trigger] resources@[j]@),
        decreases resources@.len() - i,
    {
        let mut option = String::from_str("-target=");
        let target = resources[i].target_string();
        option.append(target.as_str());
        options.push(option);
        i += 1;
    }
    if options.len() == 0 {
        return Err(TfocusError::ParseError(String::from_str("No targets specified")));
    }
    Ok(options)
}

/// The arguments of the external tool: the operation's keyword, every
/// target flag, and the unattended-approval flag where the operation
/// applies changes.
pub open spec fn arguments_of(operation: Operation, options: Seq<Seq<char>>) -> Seq<Seq<char>> {
    seq![operation.keyword_text()] + options + match operation {
        Operation::Plan => Seq::<Seq<char>>::empty(),
        Operation::Apply => seq!["-auto-approve"@],
    }
}

/// Builds the arguments that the external tool is started with.
pub fn command_arguments(operation: Operation, target_options: &[String]) -> (r: Vec<String>)
    ensures
        r.deep_view() == arguments_of(operation, target_options.deep_view()),
{
    let mut arguments: Vec<String> = Vec::new();
    arguments.push(String::from_str(operation.keyword()));
    let mut i: usize = 0;
    while i < target_options.len()
        invariant
            i <= target_options@.len(),
            arguments@.len() == i + 1,
            arguments@[0]@ == operation.keyword_text(),
            forall|j: int| 0 <= j < i ==> (#[trigger] arguments@[j + 1])@ == target_options@[j]@,
        decreases target_options@.len() - i,
    {
        arguments.push(target_options[i].clone());
        i += 1;
    }
    match operation {
        Operation::Plan => {},
        Operation::Apply => {
            arguments.push(String::from_str("-auto-approve"));
        },
    }
    proof {
        let built = arguments.deep_view();
        let wanted = arguments_of(operation, target_options.deep_view());
        assert forall|k: int| 0 <= k < built.len() implies built[k] == wanted[k] by {
            if 0 < k <= target_options@.len() {
                assert(arguments@[(k - 1) + 1]@ == target_options@[k - 1]@);
            }
        }
    }
    arguments
}

/// The command as it is shown to the user before it runs.
pub open spec fn command_line_of(operation: Operation, options: Seq<Seq<char>>) -> Seq<char> {
    "terraform "@ + operation.keyword_text() + " "@ + joined(options, " "@) + match operation {
        Operation::Plan => Seq::<char>::empty(),
        Operation::Apply => " -auto-approve"@,
    }
}

/// Writes out the command that is about to run.
pub fn command_line(operation: Operation, target_options: &[String]) -> (r: String)
    ensures
        r@ == command_line_of(operation, target_options.deep_view()),
{
    let mut line = String::from_str("terraform ");
    line.append(operation.keyword());
    line.append(" ");
    let targets = join(target_options, " ");
    line.append(targets.as_str());
    match operation {
        Operation::Plan => {},
        Operation::Apply => {
            line.append(" -auto-approve");
        },
    }
    line
}

/// The command that applies what a plan of the same targets has shown.
pub open spec fn apply_suggestion_of(options: Seq<Seq<char>>) -> Seq<char> {
    "terraform apply "@ + joined(options, " "@)
}

/// Writes out the command to suggest after a plan has succeeded: an apply
/// with the same target flags.
pub fn apply_suggestion(target_options: &[String]) -> (r: String)
    ensures
        r@ == apply_suggestion_of(target_options.deep_view()),
{
    let mut line = String::from_str("terraform apply ");
    let targets = join(target_options, " ");
    line.append(targets.as_str());
    line
}

/// The directory to run in, given the parent of the declaring file as the
/// path library found it: the parent, or the current directory where the
/// file has none.
pub fn working_directory_from(parent: Option<String>) -> (r: String)
    ensures
        r@ == match parent {
            Some(directory) => directory@,
            None => "."@,
        },
{
    match parent {
        Some(directory) => directory,
        None => String::from_str("."),
    }
}

/// What `std::path::Path::parent` gives for the path `path`, as text: the
/// path without its final component, or `None` where the path ends in a
/// root or is empty. How a path falls into components is the standard
/// library's matter, for the platform the library is built for.
pub uninterp spec fn path_parent(path: Seq<char>) -> Option<Seq<char>>;

/// `std::path::Path::parent` on the path `path`, the result converted back
/// to text.
///
/// Trusted: that the result is what [`path_parent`] names, which depends
/// on the text of the path alone; and that a parent, being the path
/// without its final component, is an initial part of `path` and shorter
/// than it.
#[verifier::external_body]
fn parent_of(path: &str) -> (r: Option<String>)
    ensures
        r.deep_view() == path_parent(path@),
        match r {
            Some(parent) => parent@.is_prefix_of(path@) && parent@.len() < path@.len(),
            None => true,
        },
{
    std::path::Path::new(path).parent().map(|parent| parent.to_string_lossy().into_owned())
}

/// The directory in which the external tool runs for a declaration in
/// `file`: the parent of the file's path, or the current directory where
/// the path has no parent.
pub open spec fn working_directory_of(file: Seq<char>) -> Seq<char> {
    match path_parent(file) {
        Some(parent) => parent,
        None => "."@,
    }
}

/// Gets the working directory from the first entity: the parent directory
/// of its declaring file, which is an initial part of the file's path, or
/// the current directory where the path has no parent. Fails where there
/// is no entity.
pub fn get_working_directory(resources: &[Resource]) -> (r: Result<String, TfocusError>)
    ensures
        match r {
            Ok(directory) => {
                &&& resources@.len() > 0
                &&& directory@ == working_directory_of(resources@[0]@.file_path)
                &&& path_parent(resources@[0]@.file_path) is Some ==> directory@.is_prefix_of(
                    resources@[0]@.file_path,
                ) && directory@.len() < resources@[0]@.file_path.len()
            },
            Err(e) => resources@.len() == 0 && e@ == ErrorView::ParseError(
                "No resources specified"@,
            ),
        },
{
    if resources.len() == 0 {
        return Err(TfocusError::ParseError(String::from_str("No resources specified")));
    }
    let parent = parent_of(resources[0].file_path.as_str());
    Ok(working_directory_from(parent))
}

/// The flag and the process id that the interrupt handler shares with the
/// invocation.
#[derive(Clone, Copy, Debug, PartialEq, Eq)]
pub struct SignalState {
    /// True until the user asks to stop.
    pub running: bool,
    /// The child process, once it has been started.
    pub child_pid: Option<u32>,
}

impl SignalState {
    /// The state once the handler has fired: the flag is cleared, the
    /// process id is kept.
    pub open spec fn interrupted(self) -> SignalState {
        SignalState { running: false, child_pid: self.child_pid }
    }

    /// The state at the start of an invocation: running, no child yet.
    pub fn new() -> (r: SignalState)
        ensures
            r == (SignalState { running: true, child_pid: None }),
    {
        SignalState { running: true, child_pid: None }
    }

    /// Records the child process that has just been started.
    pub fn record_child(&mut self, pid: u32)
        ensures
            *final(self) == (SignalState { running: old(self).running, child_pid: Some(pid) }),
    {
        self.child_pid = Some(pid);
    }

    /// What the interrupt handler does: it clears the flag, and names the
    /// child to ask to terminate, if one has been recorded.
    pub fn interrupt(&mut self) -> (terminate: Option<u32>)
        ensures
            *final(self) == old(self).interrupted(),
            terminate == old(self).child_pid,
    {
        self.running = false;
        self.child_pid
    }
}

/// How waiting for the child process ended.
#[derive(Debug)]
pub enum ChildExit {
    /// The child ran to its end; `status` is the system's description of it.
    Exited { success: bool, status: String },
    /// Waiting failed; the system's message.
    WaitFailed(String),
}

/// The mathematical value of a [`ChildExit`].
pub ghost enum ChildExitView {
    Exited { success: bool, status: Seq<char> },
    WaitFailed(Seq<char>),
}

impl View for ChildExit {
    type V = ChildExitView;

    open spec fn view(&self) -> ChildExitView {
        match self {
            ChildExit::Exited { success, status } => ChildExitView::Exited {
                success: *success,
                status: status@,
            },
            ChildExit::WaitFailed(message) => ChildExitView::WaitFailed(message@),
        }
    }
}

/// The outcome of an invocation.
#[derive(Debug)]
pub enum Outcome {
    /// The external tool ran and reported success.
    Succeeded,
    /// The user asked to stop while the external tool ran.
    Cancelled,
    /// The external tool could not be run, or ran and reported failure.
    Failed(TfocusError),
}

/// The mathematical value of an [`Outcome`].
pub ghost enum OutcomeView {
    Succeeded,
    Cancelled,
    Failed(ErrorView),
}

impl View for Outcome {
    type V = OutcomeView;

    open spec fn view(&self) -> OutcomeView {
        match self {
            Outcome::Succeeded => OutcomeView::Succeeded,
            Outcome::Cancelled => OutcomeView::Cancelled,
            Outcome::Failed(e) => OutcomeView::Failed(e@),
        }
    }
}

/// The outcome, given how waiting for the child ended and whether the flag
/// still said "running" then. Once the user has asked to stop, the child's
/// own status no longer counts.
pub open spec fn outcome_of(exit: ChildExitView, still_running: bool) -> OutcomeView {
    match exit {
        ChildExitView::Exited { success, status } => if !still_running {
            OutcomeView::Cancelled
        } else if success {
            OutcomeView::Succeeded
        } else {
            OutcomeView::Failed(
                ErrorView::TerraformError("Terraform command failed with status: "@ + status),
            )
        },
        ChildExitView::WaitFailed(message) => OutcomeView::Failed(
            ErrorView::CommandExecutionError("Failed to execute terraform command: "@ + message),
        ),
    }
}

/// Decides the outcome once waiting for the child has ended.
pub fn conclude(exit: ChildExit, still_running: bool) -> (r: Outcome)
    ensures
        r@ == outcome_of(exit@, still_running),
{
    match exit {
        ChildExit::Exited { success, status } => {
            if !still_running {
                Outcome::Cancelled
            } else if success {
                Outcome::Succeeded
            } else {
                let mut message = String::from_str("Terraform command failed with status: ");
                message.append(status.as_str());
                Outcome::Failed(TfocusError::TerraformError(message))
            }
        },
        ChildExit::WaitFailed(reason) => {
            let mut message = String::from_str("Failed to execute terraform command: ");
            message.append(reason.as_str());
            Outcome::Failed(TfocusError::CommandExecutionError(message))
        },
    }
}

/// If the handler fires before the child process exits, the invocation is
/// reported as cancelled, whatever the child's exit status then is: also
/// where it exits with success.
pub proof fn lemma_interrupt_before_exit_cancels(
    signal: SignalState,
    success: bool,
    status: Seq<char>,
)
    ensures
        outcome_of(ChildExitView::Exited { success, status }, signal.interrupted().running)
            == OutcomeView::Cancelled,
{
}

} // verus!
