//! The status workflow as steps: when to ask before changing a status, and
//! how a status change that also starts a timer ended.

use vstd::prelude::*;

verus! {

/// What a status change does next.
#[derive(Clone, Copy, Debug, PartialEq, Eq, Structural)]
pub enum StatusStep {
    /// Ask the user to confirm.
    AskConfirmation,
    /// Apply the update.
    Update,
    /// Stop without changing anything.
    Cancelled,
}

/// The first step of a status change: a forced change is applied at once,
/// any other is confirmed first.
pub fn first_status_step(force: bool) -> (r: StatusStep)
    ensures
        r == (if force {
            StatusStep::Update
        } else {
            StatusStep::AskConfirmation
        }),
{
    if force {
        StatusStep::Update
    } else {
        StatusStep::AskConfirmation
    }
}

/// The step after the user answered the confirmation.
pub fn after_confirmation(confirmed: bool) -> (r: StatusStep)
    ensures
        r == (if confirmed {
            StatusStep::Update
        } else {
            StatusStep::Cancelled
        }),
{
    if confirmed {
        StatusStep::Update
    } else {
        StatusStep::Cancelled
    }
}

/// How the two halves of "start working" ended: the status update and the
/// timer start are not one transaction, so each is reported.
#[derive(Clone, Copy, Debug, PartialEq, Eq, Structural)]
pub enum StartOutcome {
    BothDone,
    OnlyStatusUpdated,
    OnlyTimerStarted,
    NeitherDone,
}

/// Names the outcome of "start working" from whether each half succeeded.
pub fn start_outcome(status_updated: bool, timer_started: bool) -> (r: StartOutcome)
    ensures
        status_updated && timer_started <==> r == StartOutcome::BothDone,
        status_updated && !timer_started <==> r == StartOutcome::OnlyStatusUpdated,
        !status_updated && timer_started <==> r == StartOutcome::OnlyTimerStarted,
        !status_updated && !timer_started <==> r == StartOutcome::NeitherDone,
{
    if status_updated {
        if timer_started {
            StartOutcome::BothDone
        } else {
            StartOutcome::OnlyStatusUpdated
        }
    } else if timer_started {
        StartOutcome::OnlyTimerStarted
    } else {
        StartOutcome::NeitherDone
    }
}

} // verus!
