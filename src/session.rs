use crate::error::PipelineError;
use vstd::prelude::*;

verus! {

/// The step that one transform invocation takes next. The steps run once
/// each, in declaration order, from `AcquireDevice` to `Done`; the first that
/// fails ends the invocation in `Failed` with no output.
#[derive(Clone, Copy, Debug, PartialEq, Eq, Structural)]
pub enum Step {
    /// Acquire a compute device and its queue.
    AcquireDevice,
    /// Create the input, output and staging resources.
    CreateResources,
    /// Write the input bytes at their natural row stride.
    Upload,
    /// Record one dispatch covering the output domain, then the copy of the
    /// output into staging at the padded row stride.
    Dispatch,
    /// Submit the recorded work and block until the device is idle.
    SubmitAndWait,
    /// Map the staging resource and strip the row padding.
    ReadBack,
    /// A complete output buffer was produced.
    Done,
    /// The invocation ended without output.
    Failed(PipelineError),
}

/// How the work of a step went.
#[derive(Clone, Copy, Debug, PartialEq, Eq, Structural)]
pub enum Outcome {
    Succeeded,
    Failed,
}

impl Step {
    /// Position of a step in the order of an invocation.
    pub open spec fn rank(self) -> nat {
        match self {
            Step::AcquireDevice => 0,
            Step::CreateResources => 1,
            Step::Upload => 2,
            Step::Dispatch => 3,
            Step::SubmitAndWait => 4,
            Step::ReadBack => 5,
            Step::Done => 6,
            Step::Failed(_) => 6,
        }
    }

    pub open spec fn is_final(self) -> bool {
        self is Done || self is Failed
    }

    /// The error with which a failure of this step ends the invocation.
    pub open spec fn spec_failure(self) -> PipelineError {
        match self {
            Step::AcquireDevice => PipelineError::DeviceUnavailable,
            Step::ReadBack => PipelineError::TruncatedReadback,
            Step::Failed(e) => e,
            _ => PipelineError::ResourceCreationFailed,
        }
    }

    pub open spec fn spec_after(self, outcome: Outcome) -> Step {
        if self.is_final() {
            self
        } else if outcome is Failed {
            Step::Failed(self.spec_failure())
        } else {
            match self {
                Step::AcquireDevice => Step::CreateResources,
                Step::CreateResources => Step::Upload,
                Step::Upload => Step::Dispatch,
                Step::Dispatch => Step::SubmitAndWait,
                Step::SubmitAndWait => Step::ReadBack,
                _ => Step::Done,
            }
        }
    }

    /// Whether the invocation has ended.
    pub fn is_finished(&self) -> (r: bool)
        ensures
            r == self.is_final(),
    {
        matches!(self, Step::Done | Step::Failed(_))
    }

    /// The step that follows this one given how its work went: the next in
    /// order on success, `Failed` with this step's error on failure; an
    /// ended invocation stays as it is.
    pub fn after(&self, outcome: Outcome) -> (r: Step)
        ensures
            r == self.spec_after(outcome),
            !self.is_final() && outcome is Succeeded ==> r.rank() == self.rank() + 1,
            !self.is_final() && outcome is Failed ==> r == Step::Failed(self.spec_failure()),
    {
        match (self, outcome) {
            (Step::Done, _) => Step::Done,
            (Step::Failed(e), _) => Step::Failed(*e),
            (Step::AcquireDevice, Outcome::Failed) => Step::Failed(PipelineError::DeviceUnavailable),
            (Step::ReadBack, Outcome::Failed) => Step::Failed(PipelineError::TruncatedReadback),
            (_, Outcome::Failed) => Step::Failed(PipelineError::ResourceCreationFailed),
            (Step::AcquireDevice, Outcome::Succeeded) => Step::CreateResources,
            (Step::CreateResources, Outcome::Succeeded) => Step::Upload,
            (Step::Upload, Outcome::Succeeded) => Step::Dispatch,
            (Step::Dispatch, Outcome::Succeeded) => Step::SubmitAndWait,
            (Step::SubmitAndWait, Outcome::Succeeded) => Step::ReadBack,
            (Step::ReadBack, Outcome::Succeeded) => Step::Done,
        }
    }
}

/// The step reached from `step` after `n` successes in a row.
pub open spec fn after_successes(step: Step, n: nat) -> Step
    decreases n,
{
    if n == 0 {
        step
    } else {
        after_successes(step, (n - 1) as nat).spec_after(Outcome::Succeeded)
    }
}

/// An invocation in which every step succeeds passes through each step
/// once and is done after six of them; no invocation goes on past its end.
pub proof fn lemma_invocation_completes(n: nat)
    ensures
        n < 6 ==> after_successes(Step::AcquireDevice, n).rank() == n && !after_successes(
            Step::AcquireDevice,
            n,
        ).is_final(),
        n >= 6 ==> after_successes(Step::AcquireDevice, n) == Step::Done,
    decreases n,
{
    if n > 0 {
        lemma_invocation_completes((n - 1) as nat);
    }
}

} // verus!
