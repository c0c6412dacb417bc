//! The switch orchestrator: the two workflows as explicit linear state
//! machines.
//!
//! The machines decide; a runner performs each emitted action (terminate,
//! settle, store work, launch) and reports the outcome.  A failed step is
//! recorded in the trace and, unless the phase marks it fatal, the workflow
//! continues — the caller should end in a recoverable state rather than stop
//! halfway.

use vstd::prelude::*;
use vstd::string::StringExecFns;
use crate::errors::{spec_error_label, AgentError};

verus! {

/// The phases of the sign-out-and-relaunch workflow, in order.
#[derive(Clone, Copy, Debug, PartialEq, Eq, Structural)]
pub enum SignOutPhase {
    Idle,
    Terminating,
    ExtractingIdentity,
    Capturing,
    Clearing,
    Launching,
    Done,
    Failed,
}

/// The phases of the switch-to-account workflow, in order.
#[derive(Clone, Copy, Debug, PartialEq, Eq, Structural)]
pub enum SwitchPhase {
    Idle,
    Terminating,
    Restoring,
    Launching,
    Done,
    Failed,
}

/// What the runner must perform next.  A settle delay is the runner's duty
/// after every terminate action, before the next store access.
#[derive(Clone, Copy, Debug, PartialEq, Eq, Structural)]
pub enum WorkflowAction {
    Terminate,
    ReadIdentity,
    Capture,
    ClearAll,
    Restore,
    Launch,
}

/// How one performed step went.
#[derive(Clone, Debug)]
pub enum StepOutcome {
    Completed(String),
    Failed(AgentError),
}

/// A failure in this sign-out phase aborts the workflow: there is nothing to
/// snapshot without an identity, and a capture failure must not clear state.
pub open spec fn spec_signout_fatal(p: SignOutPhase) -> bool {
    match p {
        SignOutPhase::ExtractingIdentity => true,
        SignOutPhase::Capturing => true,
        _ => false,
    }
}

/// A failure in this switch phase aborts the workflow: a failed restore must
/// not launch the application on the wrong account's state.
pub open spec fn spec_switch_fatal(p: SwitchPhase) -> bool {
    p is Restoring
}

/// The sign-out phase after one step's outcome.
pub open spec fn spec_signout_next(p: SignOutPhase, o: StepOutcome) -> SignOutPhase {
    if o is Failed && spec_signout_fatal(p) {
        SignOutPhase::Failed
    } else {
        match p {
            SignOutPhase::Idle => SignOutPhase::Idle,
            SignOutPhase::Terminating => SignOutPhase::ExtractingIdentity,
            SignOutPhase::ExtractingIdentity => SignOutPhase::Capturing,
            SignOutPhase::Capturing => SignOutPhase::Clearing,
            SignOutPhase::Clearing => SignOutPhase::Launching,
            SignOutPhase::Launching => SignOutPhase::Done,
            SignOutPhase::Done => SignOutPhase::Done,
            SignOutPhase::Failed => SignOutPhase::Failed,
        }
    }
}

/// The switch phase after one step's outcome.
pub open spec fn spec_switch_next(p: SwitchPhase, o: StepOutcome) -> SwitchPhase {
    if o is Failed && spec_switch_fatal(p) {
        SwitchPhase::Failed
    } else {
        match p {
            SwitchPhase::Idle => SwitchPhase::Idle,
            SwitchPhase::Terminating => SwitchPhase::Restoring,
            SwitchPhase::Restoring => SwitchPhase::Launching,
            SwitchPhase::Launching => SwitchPhase::Done,
            SwitchPhase::Done => SwitchPhase::Done,
            SwitchPhase::Failed => SwitchPhase::Failed,
        }
    }
}

/// The action performed in a sign-out phase.
pub open spec fn spec_signout_action(p: SignOutPhase) -> Option<WorkflowAction> {
    match p {
        SignOutPhase::Terminating => Some(WorkflowAction::Terminate),
        SignOutPhase::ExtractingIdentity => Some(WorkflowAction::ReadIdentity),
        SignOutPhase::Capturing => Some(WorkflowAction::Capture),
        SignOutPhase::Clearing => Some(WorkflowAction::ClearAll),
        SignOutPhase::Launching => Some(WorkflowAction::Launch),
        _ => None,
    }
}

/// The action performed in a switch phase.
pub open spec fn spec_switch_action(p: SwitchPhase) -> Option<WorkflowAction> {
    match p {
        SwitchPhase::Terminating => Some(WorkflowAction::Terminate),
        SwitchPhase::Restoring => Some(WorkflowAction::Restore),
        SwitchPhase::Launching => Some(WorkflowAction::Launch),
        _ => None,
    }
}

/// The label of a sign-out step in the composite trace.
pub open spec fn spec_signout_label(p: SignOutPhase) -> Seq<char> {
    match p {
        SignOutPhase::Idle => "idle"@,
        SignOutPhase::Terminating => "terminate"@,
        SignOutPhase::ExtractingIdentity => "extract identity"@,
        SignOutPhase::Capturing => "capture"@,
        SignOutPhase::Clearing => "clear"@,
        SignOutPhase::Launching => "launch"@,
        SignOutPhase::Done => "done"@,
        SignOutPhase::Failed => "failed"@,
    }
}

/// The label of a switch step in the composite trace.
pub open spec fn spec_switch_label(p: SwitchPhase) -> Seq<char> {
    match p {
        SwitchPhase::Idle => "idle"@,
        SwitchPhase::Terminating => "terminate"@,
        SwitchPhase::Restoring => "restore"@,
        SwitchPhase::Launching => "launch"@,
        SwitchPhase::Done => "done"@,
        SwitchPhase::Failed => "failed"@,
    }
}

/// One line of the composite trace: the step's label and its outcome.
pub open spec fn spec_trace_line(label: Seq<char>, o: StepOutcome) -> Seq<char> {
    match o {
        StepOutcome::Completed(n) => label + ": ok - "@ + n@,
        StepOutcome::Failed(e) => label + ": failed - "@ + spec_error_label(e),
    }
}

/// Render one trace line.
fn trace_line(label: &str, outcome: &StepOutcome) -> (r: String)
    ensures
        r@ == spec_trace_line(label@, *outcome),
{
    match outcome {
        StepOutcome::Completed(n) => String::from_str(label).concat(": ok - ").concat(n.as_str()),
        StepOutcome::Failed(e) => {
            let msg = e.message();
            String::from_str(label).concat(": failed - ").concat(msg.as_str())
        },
    }
}

/// The executable label of a sign-out phase.
fn signout_label(p: SignOutPhase) -> (r: &'static str)
    ensures
        r@ == spec_signout_label(p),
{
    match p {
        SignOutPhase::Idle => "idle",
        SignOutPhase::Terminating => "terminate",
        SignOutPhase::ExtractingIdentity => "extract identity",
        SignOutPhase::Capturing => "capture",
        SignOutPhase::Clearing => "clear",
        SignOutPhase::Launching => "launch",
        SignOutPhase::Done => "done",
        SignOutPhase::Failed => "failed",
    }
}

/// The executable label of a switch phase.
fn switch_label(p: SwitchPhase) -> (r: &'static str)
    ensures
        r@ == spec_switch_label(p),
{
    match p {
        SwitchPhase::Idle => "idle",
        SwitchPhase::Terminating => "terminate",
        SwitchPhase::Restoring => "restore",
        SwitchPhase::Launching => "launch",
        SwitchPhase::Done => "done",
        SwitchPhase::Failed => "failed",
    }
}

/// One sign-out-and-relaunch run: the current phase and the trace of every
/// step performed so far.
pub struct SignOutRun {
    pub phase: SignOutPhase,
    pub trace: Vec<String>,
}

impl SignOutRun {
    /// A fresh run, not yet started.
    pub fn new() -> (r: SignOutRun)
        ensures
            r.phase == SignOutPhase::Idle,
            r.trace@.len() == 0,
    {
        SignOutRun { phase: SignOutPhase::Idle, trace: Vec::new() }
    }

    /// Start the workflow: the first action is terminating the target.
    pub fn begin(&mut self) -> (a: WorkflowAction)
        requires
            old(self).phase == SignOutPhase::Idle,
        ensures
            final(self).phase == SignOutPhase::Terminating,
            final(self).trace == old(self).trace,
            a == WorkflowAction::Terminate,
    {
        self.phase = SignOutPhase::Terminating;
        WorkflowAction::Terminate
    }

    /// Record one step's outcome, move to the next phase, and return the
    /// action to perform there, if any.  A failure advances past the step
    /// unless the phase is fatal, in which case the run ends failed.
    pub fn advance(&mut self, outcome: &StepOutcome) -> (a: Option<WorkflowAction>)
        requires
            spec_signout_action(old(self).phase) is Some,
        ensures
            final(self).phase == spec_signout_next(old(self).phase, *outcome),
            a == spec_signout_action(final(self).phase),
            final(self).trace@.len() == old(self).trace@.len() + 1,
            final(self).trace@.last()@ == spec_trace_line(
                spec_signout_label(old(self).phase),
                *outcome,
            ),
            forall|i: int|
                0 <= i < old(self).trace@.len() ==> final(self).trace@[i] == old(self).trace@[i],
    {
        let line = trace_line(signout_label(self.phase), outcome);
        self.trace.push(line);
        let failed = outcome matches StepOutcome::Failed(_);
        let fatal = match self.phase {
            SignOutPhase::ExtractingIdentity => true,
            SignOutPhase::Capturing => true,
            _ => false,
        };
        self.phase = if failed && fatal {
            SignOutPhase::Failed
        } else {
            match self.phase {
                SignOutPhase::Idle => SignOutPhase::Idle,
                SignOutPhase::Terminating => SignOutPhase::ExtractingIdentity,
                SignOutPhase::ExtractingIdentity => SignOutPhase::Capturing,
                SignOutPhase::Capturing => SignOutPhase::Clearing,
                SignOutPhase::Clearing => SignOutPhase::Launching,
                SignOutPhase::Launching => SignOutPhase::Done,
                SignOutPhase::Done => SignOutPhase::Done,
                SignOutPhase::Failed => SignOutPhase::Failed,
            }
        };
        match self.phase {
            SignOutPhase::Terminating => Some(WorkflowAction::Terminate),
            SignOutPhase::ExtractingIdentity => Some(WorkflowAction::ReadIdentity),
            SignOutPhase::Capturing => Some(WorkflowAction::Capture),
            SignOutPhase::Clearing => Some(WorkflowAction::ClearAll),
            SignOutPhase::Launching => Some(WorkflowAction::Launch),
            _ => None,
        }
    }
}

/// One switch-to-account run: the current phase and the trace so far.
pub struct SwitchRun {
    pub phase: SwitchPhase,
    pub trace: Vec<String>,
}

impl SwitchRun {
    /// A fresh run, not yet started.
    pub fn new() -> (r: SwitchRun)
        ensures
            r.phase == SwitchPhase::Idle,
            r.trace@.len() == 0,
    {
        SwitchRun { phase: SwitchPhase::Idle, trace: Vec::new() }
    }

    /// Start the workflow: the first action is terminating the target.
    pub fn begin(&mut self) -> (a: WorkflowAction)
        requires
            old(self).phase == SwitchPhase::Idle,
        ensures
            final(self).phase == SwitchPhase::Terminating,
            final(self).trace == old(self).trace,
            a == WorkflowAction::Terminate,
    {
        self.phase = SwitchPhase::Terminating;
        WorkflowAction::Terminate
    }

    /// Record one step's outcome, move to the next phase, and return the
    /// action to perform there, if any.  Only a restore failure is fatal.
    pub fn advance(&mut self, outcome: &StepOutcome) -> (a: Option<WorkflowAction>)
        requires
            spec_switch_action(old(self).phase) is Some,
        ensures
            final(self).phase == spec_switch_next(old(self).phase, *outcome),
            a == spec_switch_action(final(self).phase),
            final(self).trace@.len() == old(self).trace@.len() + 1,
            final(self).trace@.last()@ == spec_trace_line(
                spec_switch_label(old(self).phase),
                *outcome,
            ),
            forall|i: int|
                0 <= i < old(self).trace@.len() ==> final(self).trace@[i] == old(self).trace@[i],
    {
        let line = trace_line(switch_label(self.phase), outcome);
        self.trace.push(line);
        let failed = outcome matches StepOutcome::Failed(_);
        let fatal = self.phase matches SwitchPhase::Restoring;
        self.phase = if failed && fatal {
            SwitchPhase::Failed
        } else {
            match self.phase {
                SwitchPhase::Idle => SwitchPhase::Idle,
                SwitchPhase::Terminating => SwitchPhase::Restoring,
                SwitchPhase::Restoring => SwitchPhase::Launching,
                SwitchPhase::Launching => SwitchPhase::Done,
                SwitchPhase::Done => SwitchPhase::Done,
                SwitchPhase::Failed => SwitchPhase::Failed,
            }
        };
        match self.phase {
            SwitchPhase::Terminating => Some(WorkflowAction::Terminate),
            SwitchPhase::Restoring => Some(WorkflowAction::Restore),
            SwitchPhase::Launching => Some(WorkflowAction::Launch),
            _ => None,
        }
    }
}

/// Finding no process to terminate is not an error: after a terminate step
/// that reports the soft `NoProcessFound` outcome, the switch workflow still
/// proceeds to restoring, and the sign-out workflow to identity extraction.
pub proof fn lemma_no_process_is_not_an_error(note: StepOutcome)
    requires
        note matches StepOutcome::Failed(e) && e == AgentError::NoProcessFound,
    ensures
        spec_switch_next(SwitchPhase::Terminating, note) == SwitchPhase::Restoring,
        spec_signout_next(SignOutPhase::Terminating, note) == SignOutPhase::ExtractingIdentity,
{
}

/// A launch failure never undoes a completed restore: the switch workflow
/// ends `Done`, not `Failed`, whatever the launch step reported.
pub proof fn lemma_launch_failure_is_soft(o: StepOutcome)
    ensures
        spec_switch_next(SwitchPhase::Launching, o) == SwitchPhase::Done,
        spec_signout_next(SignOutPhase::Launching, o) == SignOutPhase::Done,
{
}

} // verus!
