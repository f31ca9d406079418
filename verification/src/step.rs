//! The steps that a host's unit of work is made of, and what a result means for each.

use crate::outcome::{ExecutionOutcome, OutcomeView, TransferStage};
use vstd::prelude::*;

verus! {

/// How a source pattern is matched against the local disk.
#[derive(Clone, Copy, Debug, PartialEq, Eq, Structural)]
pub struct GlobOptions {
    pub case_sensitive: bool,
    pub require_literal_separator: bool,
    pub require_literal_leading_dot: bool,
}

/// How a file on the host is opened.
#[derive(Clone, Copy, Debug, PartialEq, Eq, Structural)]
pub struct OpenFlags {
    pub read: bool,
    pub write: bool,
    pub create: bool,
    pub truncate: bool,
}

/// One piece of outside work.
#[derive(Clone, Debug, PartialEq, Eq)]
pub enum Operation {
    /// Open the session to the host.
    OpenSession,
    /// Open the file channel over the session, as the subsystem `subsystem`.
    OpenChannel { subsystem: String },
    /// Run `line` in the host's shell; `command` is the line without its environment.
    RunCommand { command: String, line: String, timeout: i32 },
    /// Expand `pattern` on the local disk.
    ResolveGlob { pattern: String, options: GlobOptions },
    /// Create the directory `path` on the host.
    CreateDirectory { path: String },
    /// Set the permission bits of `path` on the host to `mode`.
    SetPermissions { path: String, mode: u32 },
    /// Write the matched files into a tar archive at the local `path`.
    BuildArchive { path: String },
    /// Compress the local file `source` into `target` at `level`.
    Compress { source: String, target: String, level: i32 },
    /// Remove the local file `path`.
    RemoveLocal { path: String },
    /// Open the file `path` on the host.
    OpenRemote { path: String, flags: OpenFlags },
    /// Copy the local file `source` into the open remote file, `chunk` bytes at a time.
    Upload { source: String, chunk: usize },
    /// Close the open remote file.
    CloseRemote,
    /// Unpack the uploaded archive by running `line` in the host's shell.
    Extract { line: String },
    /// Remove the uploaded archive by running `line` in the host's shell.
    RemoveRemote { line: String },
    /// Close the file channel.
    CloseChannel,
    /// Close the session.
    CloseSession,
}

/// An [`Operation`] with its texts as sequences of characters.
pub enum OperationView {
    OpenSession,
    OpenChannel { subsystem: Seq<char> },
    RunCommand { command: Seq<char>, line: Seq<char>, timeout: i32 },
    ResolveGlob { pattern: Seq<char>, options: GlobOptions },
    CreateDirectory { path: Seq<char> },
    SetPermissions { path: Seq<char>, mode: u32 },
    BuildArchive { path: Seq<char> },
    Compress { source: Seq<char>, target: Seq<char>, level: i32 },
    RemoveLocal { path: Seq<char> },
    OpenRemote { path: Seq<char>, flags: OpenFlags },
    Upload { source: Seq<char>, chunk: usize },
    CloseRemote,
    Extract { line: Seq<char> },
    RemoveRemote { line: Seq<char> },
    CloseChannel,
    CloseSession,
}

impl View for Operation {
    type V = OperationView;

    open spec fn view(&self) -> OperationView {
        match *self {
            Operation::OpenSession => OperationView::OpenSession,
            Operation::OpenChannel { subsystem } => OperationView::OpenChannel {
                subsystem: subsystem@,
            },
            Operation::RunCommand { command, line, timeout } => OperationView::RunCommand {
                command: command@,
                line: line@,
                timeout,
            },
            Operation::ResolveGlob { pattern, options } => OperationView::ResolveGlob {
                pattern: pattern@,
                options,
            },
            Operation::CreateDirectory { path } => OperationView::CreateDirectory { path: path@ },
            Operation::SetPermissions { path, mode } => OperationView::SetPermissions {
                path: path@,
                mode,
            },
            Operation::BuildArchive { path } => OperationView::BuildArchive { path: path@ },
            Operation::Compress { source, target, level } => OperationView::Compress {
                source: source@,
                target: target@,
                level,
            },
            Operation::RemoveLocal { path } => OperationView::RemoveLocal { path: path@ },
            Operation::OpenRemote { path, flags } => OperationView::OpenRemote {
                path: path@,
                flags,
            },
            Operation::Upload { source, chunk } => OperationView::Upload { source: source@, chunk },
            Operation::CloseRemote => OperationView::CloseRemote,
            Operation::Extract { line } => OperationView::Extract { line: line@ },
            Operation::RemoveRemote { line } => OperationView::RemoveRemote { line: line@ },
            Operation::CloseChannel => OperationView::CloseChannel,
            Operation::CloseSession => OperationView::CloseSession,
        }
    }
}

/// Whether `operation` works on the local disk alone. Such work blocks
/// while it lasts, and belongs where it holds up no other host.
pub open spec fn is_disk_bound(operation: OperationView) -> bool {
    ||| operation is ResolveGlob
    ||| operation is BuildArchive
    ||| operation is Compress
    ||| operation is RemoveLocal
}

impl Operation {
    /// Whether this operation works on the local disk alone.
    pub fn is_disk_bound(&self) -> (b: bool)
        ensures
            b == is_disk_bound(self@),
    {
        match self {
            Operation::ResolveGlob { .. } => true,
            Operation::BuildArchive { .. } => true,
            Operation::Compress { .. } => true,
            Operation::RemoveLocal { .. } => true,
            _ => false,
        }
    }
}

/// The kind of failure that a step stands for when it ends the work.
#[derive(Clone, Copy, Debug, PartialEq, Eq, Structural)]
pub enum FailureClass {
    Connection,
    Command,
    Transfer(TransferStage),
}

/// What a failed step means for the work after it.
#[derive(Clone, Copy, Debug, PartialEq, Eq, Structural)]
pub enum Policy {
    /// A failure is reported and the work goes on.
    BestEffort,
    /// A failure ends the work.
    Fatal(FailureClass),
    /// A failure ends the work, unless it says that the thing to create is already there.
    FatalUnlessPresent(FailureClass),
}

/// One step of a unit of work.
///
/// A step with `reach == 0` is an ordinary step: it runs only while nothing
/// has failed. A step with `reach > 0` releases what the `reach` steps before
/// it have acquired: it also runs after a failure at one of those.
#[derive(Clone, Debug, PartialEq, Eq)]
pub struct Step {
    pub operation: Operation,
    pub policy: Policy,
    pub reach: usize,
}

/// A [`Step`] with its texts as sequences of characters.
pub struct StepView {
    pub operation: OperationView,
    pub policy: Policy,
    pub reach: nat,
}

impl View for Step {
    type V = StepView;

    open spec fn view(&self) -> StepView {
        StepView { operation: self.operation@, policy: self.policy, reach: self.reach as nat }
    }
}

/// A step that runs only while nothing has failed.
pub open spec fn ordinary(operation: OperationView, policy: Policy) -> StepView {
    StepView { operation, policy, reach: 0 }
}

/// A step that releases what the `reach` steps before it have acquired; its
/// own failure is reported and no more.
pub open spec fn releasing(operation: OperationView, reach: nat) -> StepView {
    StepView { operation, policy: Policy::BestEffort, reach }
}

/// A step whose failure ends the transfer at `stage`.
pub open spec fn stage_step(operation: OperationView, stage: TransferStage) -> StepView {
    ordinary(operation, Policy::Fatal(FailureClass::Transfer(stage)))
}

/// The step that opens the session to the host.
pub open spec fn spec_open_session() -> StepView {
    ordinary(OperationView::OpenSession, Policy::Fatal(FailureClass::Connection))
}

impl Step {
    /// A step that runs only while nothing has failed.
    pub fn ordinary(operation: Operation, policy: Policy) -> (step: Step)
        ensures
            step@ == ordinary(operation@, policy),
    {
        Step { operation, policy, reach: 0 }
    }

    /// A step that releases what the `reach` steps before it have acquired.
    pub fn releasing(operation: Operation, reach: usize) -> (step: Step)
        ensures
            step@ == releasing(operation@, reach as nat),
    {
        Step { operation, policy: Policy::BestEffort, reach }
    }

    /// A step whose failure ends the transfer at `stage`.
    pub fn stage(operation: Operation, stage: TransferStage) -> (step: Step)
        ensures
            step@ == stage_step(operation@, stage),
    {
        Step { operation, policy: Policy::Fatal(FailureClass::Transfer(stage)), reach: 0 }
    }

    /// The step that opens the session to the host.
    pub fn open_session() -> (step: Step)
        ensures
            step@ == spec_open_session(),
    {
        Step::ordinary(Operation::OpenSession, Policy::Fatal(FailureClass::Connection))
    }
}

/// The views of a sequence of steps.
pub open spec fn steps_view(steps: Seq<Step>) -> Seq<StepView> {
    Seq::new(steps.len(), |i: int| steps[i]@)
}

/// What the outside world reports of one step.
#[derive(Clone, Debug, PartialEq, Eq)]
pub enum StepResult {
    /// The work was done.
    Completed,
    /// A command ran and ended with `code`, or with none.
    Exited { code: Option<i32> },
    /// The thing to create was already there.
    AlreadyPresent,
    /// The work failed.
    Failed { cause: String },
    /// The work did not end in the time it was given.
    TimedOut,
}

/// A [`StepResult`] with its text as a sequence of characters.
pub enum ResultView {
    Completed,
    Exited { code: Option<i32> },
    AlreadyPresent,
    Failed { cause: Seq<char> },
    TimedOut,
}

impl View for StepResult {
    type V = ResultView;

    open spec fn view(&self) -> ResultView {
        match *self {
            StepResult::Completed => ResultView::Completed,
            StepResult::Exited { code } => ResultView::Exited { code },
            StepResult::AlreadyPresent => ResultView::AlreadyPresent,
            StepResult::Failed { cause } => ResultView::Failed { cause: cause@ },
            StepResult::TimedOut => ResultView::TimedOut,
        }
    }
}

/// Whether `result` reports that the step did not do its work.
pub open spec fn is_failure(result: ResultView) -> bool {
    match result {
        ResultView::Completed => false,
        ResultView::Exited { code } => code != Some(0i32),
        ResultView::AlreadyPresent => true,
        ResultView::Failed { .. } => true,
        ResultView::TimedOut => true,
    }
}

/// The failure class under which `result` ends the work of a step with
/// `policy`, if it does.
pub open spec fn fatal_class(policy: Policy, result: ResultView) -> Option<FailureClass> {
    match policy {
        Policy::BestEffort => None,
        Policy::Fatal(class) => if is_failure(result) {
            Some(class)
        } else {
            None
        },
        Policy::FatalUnlessPresent(class) => if is_failure(result) && !(result
            is AlreadyPresent) {
            Some(class)
        } else {
            None
        },
    }
}

/// The cause that `result` gives for a failure.
pub open spec fn failure_cause(result: ResultView) -> Seq<char> {
    match result {
        ResultView::Failed { cause } => cause,
        ResultView::TimedOut => "timed out"@,
        ResultView::AlreadyPresent => "already present"@,
        ResultView::Exited { .. } => "exited with a failure status"@,
        ResultView::Completed => Seq::empty(),
    }
}

/// The outcome of a unit of work that `result` ends under `class`.
pub open spec fn failure_outcome(class: FailureClass, result: ResultView) -> OutcomeView {
    match class {
        FailureClass::Connection => OutcomeView::ConnectionFailed { cause: failure_cause(result) },
        FailureClass::Command => match result {
            ResultView::Exited { code } => OutcomeView::CommandFailed { code, timed_out: false },
            ResultView::TimedOut => OutcomeView::CommandFailed { code: None, timed_out: true },
            _ => OutcomeView::CommandTransportFailed { cause: failure_cause(result) },
        },
        FailureClass::Transfer(stage) => OutcomeView::TransferFailed {
            stage,
            cause: failure_cause(result),
        },
    }
}

impl StepResult {
    /// Whether this result reports that the step did not do its work.
    pub fn is_failure(&self) -> (b: bool)
        ensures
            b == is_failure(self@),
    {
        match self {
            StepResult::Completed => false,
            StepResult::Exited { code } => match code {
                Some(c) => *c != 0,
                None => true,
            },
            StepResult::AlreadyPresent => true,
            StepResult::Failed { .. } => true,
            StepResult::TimedOut => true,
        }
    }

    /// The cause that this result gives for a failure.
    pub fn into_cause(self) -> (cause: String)
        ensures
            cause@ == failure_cause(self@),
    {
        match self {
            StepResult::Failed { cause } => cause,
            StepResult::TimedOut => String::from_str("timed out"),
            StepResult::AlreadyPresent => String::from_str("already present"),
            StepResult::Exited { .. } => String::from_str("exited with a failure status"),
            StepResult::Completed => String::new(),
        }
    }
}

impl Policy {
    /// The failure class under which `result` ends the work of a step with
    /// this policy, if it does.
    pub fn fatal_class(self, result: &StepResult) -> (class: Option<FailureClass>)
        ensures
            class == fatal_class(self, result@),
    {
        match self {
            Policy::BestEffort => None,
            Policy::Fatal(class) => if result.is_failure() {
                Some(class)
            } else {
                None
            },
            Policy::FatalUnlessPresent(class) => {
                let present = match result {
                    StepResult::AlreadyPresent => true,
                    _ => false,
                };
                if result.is_failure() && !present {
                    Some(class)
                } else {
                    None
                }
            },
        }
    }
}

impl FailureClass {
    /// The outcome of a unit of work that `result` ends under this class.
    pub fn outcome(self, result: StepResult) -> (outcome: ExecutionOutcome)
        ensures
            outcome@ == failure_outcome(self, result@),
    {
        match self {
            FailureClass::Connection => ExecutionOutcome::ConnectionFailed {
                cause: result.into_cause(),
            },
            FailureClass::Command => match result {
                StepResult::Exited { code } => ExecutionOutcome::CommandFailed {
                    code,
                    timed_out: false,
                },
                StepResult::TimedOut => ExecutionOutcome::CommandFailed {
                    code: None,
                    timed_out: true,
                },
                other => ExecutionOutcome::CommandTransportFailed { cause: other.into_cause() },
            },
            FailureClass::Transfer(stage) => ExecutionOutcome::TransferFailed {
                stage,
                cause: result.into_cause(),
            },
        }
    }
}

} // verus!
