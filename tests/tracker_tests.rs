use lticket::tracker::{
    current_duration, ActiveTimer, PauseOutcome, ResumeOutcome, SessionLog, StopOutcome, TimeTracker,
    TimeTrackingState,
};
use lticket::validation::ValidationError;

const MIN: i64 = 60_000;
const T0: i64 = 1_700_000_000_000;

#[test]
fn pause_resume_stop_counts_only_running_time() {
    let mut t = TimeTracker::new();
    assert!(t.start(1, T0).is_none());
    assert_eq!(t.pause(1, T0 + 30 * MIN), PauseOutcome::Paused);
    assert_eq!(t.resume(1, T0 + 40 * MIN), ResumeOutcome::Resumed);
    match t.stop(1, T0 + 60 * MIN) {
        StopOutcome::Logged(log) => assert_eq!(
            log,
            SessionLog {
                ticket_id: 1,
                hours: 0,
                minutes: 50,
                started_at: T0 + 40 * MIN,
                ended_at: T0 + 60 * MIN,
            }
        ),
        other => panic!("unexpected {:?}", other),
    }
    assert!(t.get(1).is_none());
    assert_eq!(t.len(), 0);
}

#[test]
fn cancel_after_start_clears_the_entry() {
    let mut t = TimeTracker::new();
    t.start(7, T0);
    assert!(t.cancel(7));
    assert!(t.get(7).is_none());
    assert!(matches!(t.stop(7, T0 + MIN), StopOutcome::NotTracked));
    assert!(!t.cancel(7));
}

#[test]
fn pause_on_paused_changes_nothing() {
    let mut t = TimeTracker::new();
    t.start(1, T0);
    assert_eq!(t.pause(1, T0 + 10 * MIN), PauseOutcome::Paused);
    let before = t.get(1).unwrap();
    assert_eq!(t.pause(1, T0 + 20 * MIN), PauseOutcome::AlreadyPaused);
    assert_eq!(t.get(1).unwrap(), before);
    match t.stop(1, T0 + 90 * MIN) {
        StopOutcome::Logged(log) => {
            assert_eq!((log.hours, log.minutes), (0, 10));
            assert_eq!(log.ended_at, T0 + 10 * MIN);
        }
        other => panic!("unexpected {:?}", other),
    }
}

#[test]
fn operations_on_absent_entries_are_reported() {
    let mut t = TimeTracker::new();
    assert_eq!(t.pause(9, T0), PauseOutcome::NotTracked);
    assert_eq!(t.resume(9, T0), ResumeOutcome::NotTracked);
    assert!(matches!(t.stop(9, T0), StopOutcome::NotTracked));
    t.start(9, T0);
    assert_eq!(t.resume(9, T0 + MIN), ResumeOutcome::NotPaused);
    assert_eq!(t.get(9).unwrap(), TimeTrackingState { start_time: T0, paused_at: None, elapsed_time: None });
}

#[test]
fn repeated_cycles_accumulate_elapsed_time() {
    let mut t = TimeTracker::new();
    t.start(1, T0);
    let mut last = 0;
    let mut now = T0;
    for _ in 0..4 {
        now += 15 * MIN;
        t.pause(1, now);
        now += 5 * MIN;
        t.resume(1, now);
        let e = t.get(1).unwrap().elapsed_time.unwrap();
        assert!(e >= last);
        last = e;
    }
    assert_eq!(last, 60 * MIN);
}

#[test]
fn start_overwrites_an_existing_session() {
    let mut t = TimeTracker::new();
    t.start(1, T0);
    t.pause(1, T0 + MIN);
    let prev = t.start(1, T0 + 2 * MIN).unwrap();
    assert_eq!(prev.paused_at, Some(T0 + MIN));
    assert_eq!(t.get(1).unwrap(), TimeTrackingState { start_time: T0 + 2 * MIN, paused_at: None, elapsed_time: None });
    assert_eq!(t.len(), 1);
}

#[test]
fn sessions_over_a_day_are_rejected_and_kept() {
    let mut t = TimeTracker::new();
    t.start(1, T0);
    match t.stop(1, T0 + 25 * 60 * MIN) {
        StopOutcome::Rejected(ValidationError::InvalidTime(s)) => assert_eq!(s, "25h 0m"),
        other => panic!("unexpected {:?}", other),
    }
    assert!(t.get(1).is_some());
    match t.stop(1, T0 + 24 * 60 * MIN + 59 * MIN + 59_999) {
        StopOutcome::Logged(log) => assert_eq!((log.hours, log.minutes), (24, 59)),
        other => panic!("unexpected {:?}", other),
    }
}

#[test]
fn a_clock_that_runs_backwards_is_rejected() {
    let mut t = TimeTracker::new();
    t.start(1, T0);
    match t.stop(1, T0 - 30_000) {
        StopOutcome::Rejected(ValidationError::InvalidTime(s)) => assert_eq!(s, "-1h 59m"),
        other => panic!("unexpected {:?}", other),
    }
}

/// Stands for a repository that fails on one ticket id.
fn persist(log: &SessionLog, failing: i64) -> Result<(), String> {
    if log.ticket_id == failing {
        Err("disk full".to_string())
    } else {
        Ok(())
    }
}

#[test]
fn stop_all_continues_after_a_failure() {
    let mut t = TimeTracker::new();
    t.start(1, T0);
    t.start(2, T0 + MIN);
    t.start(3, T0 + 2 * MIN);
    let results = t.stop_all(T0 + 62 * MIN);
    assert_eq!(results.len(), 3);
    let mut saved = Vec::new();
    let mut failed = Vec::new();
    for (id, outcome) in &results {
        match outcome {
            StopOutcome::Logged(log) => match persist(log, 2) {
                Ok(()) => saved.push((*id, log.hours, log.minutes)),
                Err(_) => failed.push(*id),
            },
            other => panic!("unexpected {:?}", other),
        }
    }
    assert_eq!(saved, vec![(1, 1, 2), (3, 1, 0)]);
    assert_eq!(failed, vec![2]);
    assert_eq!(t.len(), 0);
}

#[test]
fn cancel_all_empties_the_store() {
    let mut t = TimeTracker::new();
    t.start(5, T0);
    t.start(3, T0);
    assert_eq!(t.tracked_ids(), vec![5, 3]);
    assert_eq!(t.cancel_all(), vec![5, 3]);
    assert_eq!(t.len(), 0);
    assert!(t.cancel_all().is_empty());
}

#[test]
fn active_timers_use_the_stop_formula() {
    let mut t = TimeTracker::new();
    t.start(1, T0);
    t.start(2, T0);
    t.pause(2, T0 + 45 * MIN);
    let timers = t.active_timers(T0 + 125 * MIN);
    assert_eq!(
        timers,
        vec![
            ActiveTimer { ticket_id: 1, hours: 2, minutes: 5, paused: false },
            ActiveTimer { ticket_id: 2, hours: 0, minutes: 45, paused: true },
        ]
    );
    assert_eq!(t.len(), 2);
    let s = TimeTrackingState { start_time: T0, paused_at: None, elapsed_time: Some(90 * MIN) };
    assert_eq!(current_duration(&s, T0 + 30 * MIN + 59_999), (2, 0));
}

#[test]
fn double_pause_then_stop_logs_the_first_pause() {
    let mut t = TimeTracker::new();
    t.start(4, T0);
    t.pause(4, T0 + 40 * MIN);
    t.pause(4, T0 + 50 * MIN);
    match t.stop(4, T0 + 70 * MIN) {
        StopOutcome::Logged(log) => {
            assert_eq!((log.hours, log.minutes), (0, 40));
            assert_eq!(log.ended_at, T0 + 40 * MIN);
        }
        other => panic!("unexpected {:?}", other),
    }
}
