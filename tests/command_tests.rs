use lticket::command::{
    resolve_command, wants_json_errors, Cli, CommandError, Commands, Notice, Request, Shell, TicketAction,
    TimeAction, UpdateTarget,
};
use lticket::validation::ValidationError;

fn s(x: &str) -> String {
    x.to_string()
}

#[test]
fn shortcuts_use_fixed_statuses() {
    let p = resolve_command(&Commands::Complete { ticket_id: s("4") }).unwrap();
    assert_eq!(p.check_ticket, Some(4));
    match p.request {
        Request::SetStatus { id, status, force, comment, start_timer } => {
            assert_eq!((id, status.as_str(), force, comment, start_timer), (4, "completed", true, None, false));
        }
        other => panic!("unexpected {:?}", other),
    }
    let p = resolve_command(&Commands::Start { ticket_id: s("2") }).unwrap();
    assert!(matches!(p.request, Request::SetStatus { start_timer: true, .. }));
    let p = resolve_command(&Commands::Block { ticket_id: s("2"), reason: Some(s("Waiting for API")) }).unwrap();
    match p.request {
        Request::SetStatus { status, comment, .. } => {
            assert_eq!(status, "blocked");
            assert_eq!(comment.unwrap(), "Blocked: Waiting for API");
        }
        other => panic!("unexpected {:?}", other),
    }
}

#[test]
fn legacy_and_modern_status_updates_agree() {
    let legacy = resolve_command(&Commands::Status { ticket_id: s("1"), status: s("In-Progress"), force: true }).unwrap();
    let modern = resolve_command(&Commands::Update {
        target: UpdateTarget::Status { ticket_id: s("1"), status: s("In-Progress"), force: true },
    })
    .unwrap();
    assert_eq!(legacy.notice, Some(Notice::Status));
    assert_eq!(modern.notice, None);
    for p in [legacy, modern] {
        match p.request {
            Request::SetStatus { id, status, force, .. } => assert_eq!((id, status.as_str(), force), (1, "in-progress", true)),
            other => panic!("unexpected {:?}", other),
        }
    }
}

#[test]
fn close_defaults_to_closed() {
    let p = resolve_command(&Commands::Close { ticket_id: s("3"), status: None, force: false }).unwrap();
    match p.request {
        Request::SetStatus { status, force, .. } => assert_eq!((status.as_str(), force), ("closed", false)),
        other => panic!("unexpected {:?}", other),
    }
}

#[test]
fn validation_errors_come_first() {
    let e = resolve_command(&Commands::Show { ticket_id: s("abc"), json: false, json_pretty: false, full: false }).unwrap_err();
    assert!(matches!(e, CommandError::Invalid(ValidationError::InvalidTicketId(t)) if t == "abc"));
    let e = resolve_command(&Commands::Add { project: s("bad name!"), name: s("test"), description: Some(s("description")) }).unwrap_err();
    assert!(matches!(e, CommandError::Invalid(ValidationError::InvalidProjectName(_))));
    let e = resolve_command(&Commands::Update {
        target: UpdateTarget::Status { ticket_id: s("1"), status: s("invalid_status"), force: true },
    })
    .unwrap_err();
    assert!(matches!(e, CommandError::Invalid(ValidationError::InvalidStatus(_))));
    let e = resolve_command(&Commands::Add { project: s("p"), name: "a".repeat(101), description: None }).unwrap_err();
    assert!(matches!(e, CommandError::Invalid(ValidationError::InvalidContentLength { .. })));
}

#[test]
fn time_commands_resolve() {
    let p = resolve_command(&Commands::Time { action: TimeAction::Log { ticket_id: s("1"), duration: s("2h30m") } }).unwrap();
    assert!(matches!(p.request, Request::LogTime { id: 1, hours: 2, minutes: 30 }));
    assert_eq!(p.check_ticket, Some(1));
    let p = resolve_command(&Commands::Time { action: TimeAction::Pause { ticket_id: s("999") } }).unwrap();
    assert!(matches!(p.request, Request::PauseTimer { id: 999 }));
    assert_eq!(p.check_ticket, None);
    let p = resolve_command(&Commands::Time { action: TimeAction::Stop { ticket_id: None } }).unwrap();
    assert!(matches!(p.request, Request::StopAllTimers));
    let e = resolve_command(&Commands::Time { action: TimeAction::Log { ticket_id: s("1"), duration: s("abc") } }).unwrap_err();
    assert!(matches!(e, CommandError::InvalidDuration));
    let e = resolve_command(&Commands::Time { action: TimeAction::Log { ticket_id: s("1"), duration: s("90m") } }).unwrap_err();
    assert!(matches!(e, CommandError::Invalid(ValidationError::InvalidTime(_))));
}

#[test]
fn legacy_log_resolves() {
    let log = |h: Option<i32>, m: Option<i32>, start: bool, end: bool| {
        resolve_command(&Commands::Log { ticket_id: s("1"), hours: h, minutes: m, start, end })
    };
    assert!(matches!(log(None, None, true, false).unwrap().request, Request::StartTimer { id: 1 }));
    assert!(matches!(log(None, None, false, true).unwrap().request, Request::StopTimer { id: 1 }));
    assert!(matches!(log(Some(1), Some(15), false, false).unwrap().request, Request::LogTime { id: 1, hours: 1, minutes: 15 }));
    assert!(matches!(log(Some(1), None, false, false).unwrap().request, Request::MissingDuration { id: 1 }));
    assert!(log(Some(30), Some(0), false, false).is_err());
}

#[test]
fn ticket_field_updates() {
    let r = |f: &str, v: &str| {
        resolve_command(&Commands::Ticket { action: TicketAction::Update { ticket_id: s("5"), field: s(f), value: s(v) } })
    };
    assert!(matches!(r("name", "New").unwrap().request, Request::UpdateName { id: 5, .. }));
    assert!(matches!(r("description", "Text").unwrap().request, Request::UpdateDescription { id: 5, description: Some(_) }));
    assert!(matches!(r("status", "CLOSED").unwrap().request, Request::SetStatus { force: false, .. }));
    assert!(matches!(r("colour", "red").unwrap().request, Request::UnknownField { id: 5, .. }));
    assert!(r("name", "").is_err());
}

#[test]
fn completions_shells() {
    let c = |x: &str| resolve_command(&Commands::Completions { shell: s(x), out_dir: None });
    assert!(matches!(c("BASH").unwrap().request, Request::Completions { shell: Shell::Bash, .. }));
    assert!(matches!(c("pwsh").unwrap().request, Request::Completions { shell: Shell::PowerShell, .. }));
    assert!(matches!(c("Tcsh").unwrap_err(), CommandError::UnsupportedShell(t) if t == "tcsh"));
}

#[test]
fn json_error_reporting() {
    let list = Commands::List { project: None, json: true, json_pretty: false, status: None, sort: s("updated") };
    assert!(wants_json_errors(&list));
    let p = resolve_command(&list).unwrap();
    assert!(matches!(p.request, Request::ListTickets { json: true, .. }));
    let show = Commands::Show { ticket_id: s("1"), json: false, json_pretty: true, full: false };
    assert!(!wants_json_errors(&show));
    let cli = Cli { command: Commands::Proj { project: s("web"), json: true, json_pretty: false } };
    let p = resolve_command(&cli.command).unwrap();
    assert_eq!(p.notice, Some(Notice::Proj));
}
