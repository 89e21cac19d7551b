use lticket::workflow::{after_confirmation, first_status_step, start_outcome, StartOutcome, StatusStep};

#[test]
fn forced_changes_skip_confirmation() {
    assert_eq!(first_status_step(true), StatusStep::Update);
    assert_eq!(first_status_step(false), StatusStep::AskConfirmation);
    assert_eq!(after_confirmation(true), StatusStep::Update);
    assert_eq!(after_confirmation(false), StatusStep::Cancelled);
}

#[test]
fn start_outcome_names_each_half() {
    assert_eq!(start_outcome(true, true), StartOutcome::BothDone);
    assert_eq!(start_outcome(true, false), StartOutcome::OnlyStatusUpdated);
    assert_eq!(start_outcome(false, true), StartOutcome::OnlyTimerStarted);
    assert_eq!(start_outcome(false, false), StartOutcome::NeitherDone);
}
