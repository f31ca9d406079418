//! What a host's unit of work ends with, and the status the process reports for it.

use vstd::prelude::*;

verus! {

/// The stage of a file transfer at which a failure ends the host's work.
#[derive(Clone, Copy, Debug, PartialEq, Eq, Structural)]
pub enum TransferStage {
    /// Expanding the source pattern on the local disk.
    Glob,
    /// Creating the destination directory and its ancestors on the host.
    Provisioning,
    /// Building the local archive.
    Archive,
    /// Compressing the local archive.
    Compress,
    /// Writing the archive to the host.
    Upload,
}

/// The result of one host's unit of work.
#[derive(Clone, Debug, PartialEq, Eq)]
pub enum ExecutionOutcome {
    /// Every step that could end the work went through.
    Success,
    /// No session could be opened to the host.
    ConnectionFailed { cause: String },
    /// A command ended with a status other than zero, with none at all, or ran out of time.
    CommandFailed { code: Option<i32>, timed_out: bool },
    /// A command could not be run: the transport failed under it.
    CommandTransportFailed { cause: String },
    /// A stage of a file transfer failed.
    TransferFailed { stage: TransferStage, cause: String },
}

/// An [`ExecutionOutcome`] with its texts as sequences of characters.
pub enum OutcomeView {
    Success,
    ConnectionFailed { cause: Seq<char> },
    CommandFailed { code: Option<i32>, timed_out: bool },
    CommandTransportFailed { cause: Seq<char> },
    TransferFailed { stage: TransferStage, cause: Seq<char> },
}

impl View for ExecutionOutcome {
    type V = OutcomeView;

    open spec fn view(&self) -> OutcomeView {
        match *self {
            ExecutionOutcome::Success => OutcomeView::Success,
            ExecutionOutcome::ConnectionFailed { cause } => OutcomeView::ConnectionFailed {
                cause: cause@,
            },
            ExecutionOutcome::CommandFailed { code, timed_out } => OutcomeView::CommandFailed {
                code,
                timed_out,
            },
            ExecutionOutcome::CommandTransportFailed {
                cause,
            } => OutcomeView::CommandTransportFailed { cause: cause@ },
            ExecutionOutcome::TransferFailed { stage, cause } => OutcomeView::TransferFailed {
                stage,
                cause: cause@,
            },
        }
    }
}

/// The process status for a run in which every host succeeded.
pub const STATUS_SUCCESS: i32 = 0;

/// The process status for a command that failed.
pub const STATUS_COMMAND_FAILED: i32 = 1;

/// The process status for a command that the transport could not run.
pub const STATUS_COMMAND_TRANSPORT: i32 = 2;

/// The process status for a host that could not be reached.
pub const STATUS_CONNECTION_FAILED: i32 = 3;

/// The process status for a run that was given no commands or no files.
pub const STATUS_NOTHING_SUPPLIED: i32 = 4;

/// The process status for a transfer that failed at `stage`.
pub open spec fn spec_stage_status(stage: TransferStage) -> i32 {
    match stage {
        TransferStage::Glob => 5,
        TransferStage::Provisioning => 6,
        TransferStage::Archive => 7,
        TransferStage::Compress => 8,
        TransferStage::Upload => 9,
    }
}

/// The process status that stands for `outcome`.
pub open spec fn spec_exit_status(outcome: OutcomeView) -> i32 {
    match outcome {
        OutcomeView::Success => STATUS_SUCCESS,
        OutcomeView::ConnectionFailed { .. } => STATUS_CONNECTION_FAILED,
        OutcomeView::CommandFailed { .. } => STATUS_COMMAND_FAILED,
        OutcomeView::CommandTransportFailed { .. } => STATUS_COMMAND_TRANSPORT,
        OutcomeView::TransferFailed { stage, .. } => spec_stage_status(stage),
    }
}

impl TransferStage {
    /// The process status for a transfer that failed at this stage.
    pub fn exit_status(self) -> (status: i32)
        ensures
            status == spec_stage_status(self),
    {
        match self {
            TransferStage::Glob => 5,
            TransferStage::Provisioning => 6,
            TransferStage::Archive => 7,
            TransferStage::Compress => 8,
            TransferStage::Upload => 9,
        }
    }
}

impl ExecutionOutcome {
    /// Whether the host's work went through.
    pub fn is_success(&self) -> (b: bool)
        ensures
            b == (self@ is Success),
    {
        match self {
            ExecutionOutcome::Success => true,
            _ => false,
        }
    }

    /// The process status that stands for this outcome.
    pub fn exit_status(&self) -> (status: i32)
        ensures
            status == spec_exit_status(self@),
    {
        match self {
            ExecutionOutcome::Success => STATUS_SUCCESS,
            ExecutionOutcome::ConnectionFailed { .. } => STATUS_CONNECTION_FAILED,
            ExecutionOutcome::CommandFailed { .. } => STATUS_COMMAND_FAILED,
            ExecutionOutcome::CommandTransportFailed { .. } => STATUS_COMMAND_TRANSPORT,
            ExecutionOutcome::TransferFailed { stage, .. } => stage.exit_status(),
        }
    }

    /// A copy of this outcome.
    pub fn duplicate(&self) -> (copy: ExecutionOutcome)
        ensures
            copy@ == self@,
    {
        match self {
            ExecutionOutcome::Success => ExecutionOutcome::Success,
            ExecutionOutcome::ConnectionFailed { cause } => ExecutionOutcome::ConnectionFailed {
                cause: cause.clone(),
            },
            ExecutionOutcome::CommandFailed { code, timed_out } => ExecutionOutcome::CommandFailed {
                code: *code,
                timed_out: *timed_out,
            },
            ExecutionOutcome::CommandTransportFailed {
                cause,
            } => ExecutionOutcome::CommandTransportFailed { cause: cause.clone() },
            ExecutionOutcome::TransferFailed { stage, cause } => ExecutionOutcome::TransferFailed {
                stage: *stage,
                cause: cause.clone(),
            },
        }
    }
}

/// The failure class that an outcome belongs to; two outcomes of one class
/// differ only in their cause or exit code.
pub open spec fn same_class(a: OutcomeView, b: OutcomeView) -> bool {
    match (a, b) {
        (OutcomeView::Success, OutcomeView::Success) => true,
        (OutcomeView::ConnectionFailed { .. }, OutcomeView::ConnectionFailed { .. }) => true,
        (OutcomeView::CommandFailed { .. }, OutcomeView::CommandFailed { .. }) => true,
        (
            OutcomeView::CommandTransportFailed { .. },
            OutcomeView::CommandTransportFailed { .. },
        ) => true,
        (
            OutcomeView::TransferFailed { stage: s, .. },
            OutcomeView::TransferFailed { stage: t, .. },
        ) => s == t,
        _ => false,
    }
}

/// Two outcomes have the same process status exactly when they are of the
/// same failure class, the status is zero for success alone, and none
/// coincides with the status for a run that was given nothing to do.
pub proof fn lemma_status_tells_classes_apart(a: OutcomeView, b: OutcomeView)
    ensures
        spec_exit_status(a) == spec_exit_status(b) <==> same_class(a, b),
        spec_exit_status(a) == STATUS_SUCCESS <==> a is Success,
        spec_exit_status(a) != STATUS_NOTHING_SUPPLIED,
        0 <= spec_exit_status(a) <= 9,
{
}

} // verus!
