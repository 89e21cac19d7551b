//! Command resolution: every command spelling, legacy or current, is
//! validated and mapped onto one canonical request before anything touches
//! the repository or the timers.

use vstd::prelude::*;
use crate::duration::{duration_of, parse_checked_duration, DurationError};
use crate::text::same_text;
use crate::validation::{
    content_fits, content_name_of, is_canonical_status, limits_of, lower_of, ticket_id_of,
    lowercase, valid_project_name, valid_time, validate_content_length, validate_project_name, validate_status,
    validate_ticket_id, validate_time, ContentType, ValidationError,
};

verus! {

/// A parsed command line.
#[derive(Debug)]
pub struct Cli {
    pub command: Commands,
}

/// Every command spelling that the command line accepts, with its raw arguments.
#[derive(Debug)]
pub enum Commands {
    Init,
    Ticket { action: TicketAction },
    Project { action: ProjectAction },
    Comment { action: CommentAction },
    Time { action: TimeAction },
    Update { target: UpdateTarget },
    Open { ticket_id: String },
    Complete { ticket_id: String },
    Block { ticket_id: String, reason: Option<String> },
    Start { ticket_id: String },
    Projects,
    Active,
    Completions { shell: String, out_dir: Option<String> },
    Add { project: String, name: String, description: Option<String> },
    Close { ticket_id: String, status: Option<String>, force: bool },
    Status { ticket_id: String, status: String, force: bool },
    Delete { ticket_id: String, force: bool },
    List {
        project: Option<String>,
        json: bool,
        json_pretty: bool,
        status: Option<String>,
        sort: String,
    },
    Show { ticket_id: String, json: bool, json_pretty: bool, full: bool },
    Log { ticket_id: String, hours: Option<i32>, minutes: Option<i32>, start: bool, end: bool },
    Proj { project: String, json: bool, json_pretty: bool },
}

#[derive(Debug)]
pub enum TicketAction {
    Create { project: String, name: String, description: Option<String> },
    List { project: Option<String>, status: Option<String>, sort: String },
    Show { ticket_id: String, full: bool },
    Update { ticket_id: String, field: String, value: String },
    Delete { ticket_id: String, force: bool },
    Move { ticket_id: String, project: String },
    Copy { ticket_id: String, project: Option<String> },
}

#[derive(Debug)]
pub enum ProjectAction {
    Show { project: String },
    List,
    Summary { project: String },
    Stats { project: Option<String> },
}

#[derive(Debug)]
pub enum CommentAction {
    Add { ticket_id: String, content: String },
    List { ticket_id: String },
    Show { comment_id: String },
    Update { comment_id: String, content: String },
    Delete { comment_id: String },
}

#[derive(Debug)]
pub enum TimeAction {
    Start { ticket_id: String },
    Stop { ticket_id: Option<String> },
    Cancel { ticket_id: Option<String> },
    Pause { ticket_id: String },
    Resume { ticket_id: String },
    Log { ticket_id: String, duration: String },
    List { ticket_id: String },
    Active,
    Summary { ticket_id: String },
    Update { log_id: String, duration: String },
    Delete { log_id: String },
}

#[derive(Debug)]
pub enum UpdateTarget {
    Status { ticket_id: String, status: String, force: bool },
    Name { ticket_id: String, name: String },
    Description { ticket_id: String, description: Option<String> },
    Project { ticket_id: String, project: String },
}

/// Shells for which a completion script can be generated.
#[derive(Clone, Copy, Debug, PartialEq, Eq, Structural)]
pub enum Shell {
    Bash,
    Zsh,
    Fish,
    PowerShell,
    Elvish,
}

/// A deprecation notice that a legacy spelling prints before it runs.
#[derive(Clone, Copy, Debug, PartialEq, Eq, Structural)]
pub enum Notice {
    Add,
    Status,
    Proj,
}

/// A command in canonical form, its arguments validated.
#[derive(Debug)]
pub enum Request {
    Init,
    CreateTicket { project: String, name: String, description: Option<String> },
    ListTickets { project: Option<String>, status: Option<String>, sort: String, json: bool },
    ShowTicket { id: i64, json: bool },
    /// Sets a status; `comment` is added to the ticket afterwards and
    /// `start_timer` starts its timer.
    SetStatus { id: i64, status: String, force: bool, comment: Option<String>, start_timer: bool },
    UpdateName { id: i64, name: String },
    /// A description of `None` is to be asked for interactively.
    UpdateDescription { id: i64, description: Option<String> },
    UnknownField { id: i64, field: String },
    DeleteTicket { id: i64, force: bool },
    MoveTicket { id: i64, project: String },
    CopyTicket { id: i64, project: Option<String> },
    ProjectSummary { project: String, json: bool },
    ListProjects,
    AddComment { id: i64, content: String },
    ListComments { id: i64 },
    ShowComment { comment_id: i64 },
    UpdateComment { comment_id: i64, content: String },
    DeleteComment { comment_id: i64 },
    StartTimer { id: i64 },
    StopTimer { id: i64 },
    StopAllTimers,
    CancelTimer { id: i64 },
    CancelAllTimers,
    PauseTimer { id: i64 },
    ResumeTimer { id: i64 },
    LogTime { id: i64, hours: i32, minutes: i32 },
    /// A legacy log request that gave neither a duration nor a timer flag.
    MissingDuration { id: i64 },
    ListTimeLogs { id: i64 },
    ShowActiveTimers,
    TimeSummary { id: i64 },
    UpdateTimeLog { log_id: i64, hours: i32, minutes: i32 },
    DeleteTimeLog { log_id: i64 },
    Completions { shell: Shell, out_dir: Option<String> },
}

/// A resolved command: the request, the ticket that must exist before it
/// runs, and the deprecation notice to print first, if any.
#[derive(Debug)]
pub struct Plan {
    pub request: Request,
    pub check_ticket: Option<i64>,
    pub notice: Option<Notice>,
}

/// Why a command could not be resolved.
#[derive(Debug)]
pub enum CommandError {
    Invalid(ValidationError),
    /// A duration that follows neither accepted form.
    InvalidDuration,
    UnsupportedShell(String),
}

pub open spec fn bad_ticket_id(e: CommandError, s: Seq<char>) -> bool {
    e matches CommandError::Invalid(ValidationError::InvalidTicketId(t)) && t@ == s
}

pub open spec fn bad_project(e: CommandError, s: Seq<char>) -> bool {
    e matches CommandError::Invalid(ValidationError::InvalidProjectName(t)) && t@ == s
}

pub open spec fn bad_status(e: CommandError, s: Seq<char>) -> bool {
    e matches CommandError::Invalid(ValidationError::InvalidStatus(t)) && t@ == s
}

pub open spec fn bad_content(e: CommandError, k: ContentType) -> bool {
    e matches CommandError::Invalid(
        ValidationError::InvalidContentLength { field_type: f, min, max },
    ) && f@ == content_name_of(k) && (min, max) == limits_of(k)
}

pub open spec fn id_of(s: Seq<char>) -> i64 {
    ticket_id_of(s)->0
}

pub open spec fn opt_view(o: Option<String>) -> Option<Seq<char>> {
    match o {
        Some(s) => Some(s@),
        None => None,
    }
}

pub open spec fn opt_project_ok(o: Option<String>) -> bool {
    match o {
        Some(s) => valid_project_name(s@),
        None => true,
    }
}

pub open spec fn opt_content_ok(o: Option<String>, k: ContentType) -> bool {
    match o {
        Some(s) => content_fits(s@, k),
        None => true,
    }
}

fn checked_id(s: &str) -> (r: Result<i64, CommandError>)
    ensures
        match r {
            Ok(n) => ticket_id_of(s@) == Some(n),
            Err(e) => ticket_id_of(s@) is None && bad_ticket_id(e, s@),
        },
{
    match validate_ticket_id(s) {
        Ok(n) => Ok(n),
        Err(e) => Err(CommandError::Invalid(e)),
    }
}

fn project_name(s: &str) -> (r: Result<String, CommandError>)
    ensures
        match r {
            Ok(v) => valid_project_name(s@) && v@ == s@,
            Err(e) => !valid_project_name(s@) && bad_project(e, s@),
        },
{
    match validate_project_name(s) {
        Ok(v) => Ok(v),
        Err(e) => Err(CommandError::Invalid(e)),
    }
}

fn opt_project_name(o: &Option<String>) -> (r: Result<Option<String>, CommandError>)
    ensures
        match r {
            Ok(v) => opt_project_ok(*o) && opt_view(v) == opt_view(*o),
            Err(e) => !opt_project_ok(*o) && (*o matches Some(s) && bad_project(e, s@)),
        },
{
    match o {
        Some(s) => {
            let v = project_name(s.as_str())?;
            Ok(Some(v))
        },
        None => Ok(None),
    }
}

fn content(s: &str, k: ContentType) -> (r: Result<String, CommandError>)
    ensures
        match r {
            Ok(v) => content_fits(s@, k) && v@ == s@,
            Err(e) => !content_fits(s@, k) && bad_content(e, k),
        },
{
    match validate_content_length(s, k) {
        Ok(v) => Ok(v),
        Err(e) => Err(CommandError::Invalid(e)),
    }
}

fn opt_content(o: &Option<String>, k: ContentType) -> (r: Result<Option<String>, CommandError>)
    ensures
        match r {
            Ok(v) => opt_content_ok(*o, k) && opt_view(v) == opt_view(*o),
            Err(e) => !opt_content_ok(*o, k) && bad_content(e, k),
        },
{
    match o {
        Some(s) => {
            let v = content(s.as_str(), k)?;
            Ok(Some(v))
        },
        None => Ok(None),
    }
}

fn status(s: &str) -> (r: Result<String, CommandError>)
    ensures
        match r {
            Ok(v) => is_canonical_status(lower_of(s@)) && v@ == lower_of(s@),
            Err(e) => !is_canonical_status(lower_of(s@)) && bad_status(e, s@),
        },
{
    match validate_status(s) {
        Ok(v) => Ok(v),
        Err(e) => Err(CommandError::Invalid(e)),
    }
}

/// What a duration argument must resolve to.
pub open spec fn duration_result(s: Seq<char>, r: Result<(i32, i32), CommandError>) -> bool {
    match r {
        Ok(v) => duration_of(s) == Some(v) && valid_time(v.0 as int, v.1 as int),
        Err(CommandError::InvalidDuration) => duration_of(s) is None,
        Err(CommandError::Invalid(e)) => duration_of(s) matches Some(v) && !valid_time(
            v.0 as int,
            v.1 as int,
        ) && e is InvalidTime,
        Err(_) => false,
    }
}

fn duration(s: &str) -> (r: Result<(i32, i32), CommandError>)
    ensures
        duration_result(s@, r),
{
    match parse_checked_duration(s) {
        Ok(v) => Ok(v),
        Err(DurationError::InvalidFormat) => Err(CommandError::InvalidDuration),
        Err(DurationError::InvalidTime(e)) => Err(CommandError::Invalid(e)),
    }
}


/// `r` resolves a command that takes one id `s`, with `req` building the
/// request from the id, and `check` telling whether the ticket must exist.
pub open spec fn by_id(
    s: Seq<char>,
    r: Result<Plan, CommandError>,
    check: bool,
    req: spec_fn(i64) -> Request,
) -> bool {
    match r {
        Ok(p) => ticket_id_of(s) matches Some(n) && p.request == req(n) && p.check_ticket == (if check {
            Some(n)
        } else {
            None
        }) && p.notice is None,
        Err(e) => ticket_id_of(s) is None && bad_ticket_id(e, s),
    }
}

/// `r` is a plan for `req` with no existence check and no notice.
pub open spec fn bare(r: Result<Plan, CommandError>, req: Request) -> bool {
    r matches Ok(p) && p.request == req && p.check_ticket is None && p.notice is None
}

/// `r` resolves an id `s` followed by a duration `d`.
pub open spec fn by_id_and_duration(
    s: Seq<char>,
    d: Seq<char>,
    r: Result<Plan, CommandError>,
    check: bool,
    req: spec_fn(i64, i32, i32) -> Request,
) -> bool {
    match r {
        Ok(p) => ticket_id_of(s) matches Some(n) && duration_of(d) matches Some(v) && valid_time(
            v.0 as int,
            v.1 as int,
        ) && p.request == req(n, v.0, v.1) && p.check_ticket == (if check {
            Some(n)
        } else {
            None
        }) && p.notice is None,
        Err(e) => if ticket_id_of(s) is None {
            bad_ticket_id(e, s)
        } else {
            duration_result(d, Err(e))
        },
    }
}

pub open spec fn time_action_resolves(a: TimeAction, r: Result<Plan, CommandError>) -> bool {
    match a {
        TimeAction::Start { ticket_id } => by_id(ticket_id@, r, true, |n| Request::StartTimer { id: n }),
        TimeAction::Stop { ticket_id } => match ticket_id {
            Some(t) => by_id(t@, r, false, |n| Request::StopTimer { id: n }),
            None => bare(r, Request::StopAllTimers),
        },
        TimeAction::Cancel { ticket_id } => match ticket_id {
            Some(t) => by_id(t@, r, false, |n| Request::CancelTimer { id: n }),
            None => bare(r, Request::CancelAllTimers),
        },
        TimeAction::Pause { ticket_id } => by_id(ticket_id@, r, false, |n| Request::PauseTimer { id: n }),
        TimeAction::Resume { ticket_id } => by_id(
            ticket_id@,
            r,
            false,
            |n| Request::ResumeTimer { id: n },
        ),
        TimeAction::Log { ticket_id, duration } => by_id_and_duration(
            ticket_id@,
            duration@,
            r,
            true,
            |n, h, m| Request::LogTime { id: n, hours: h, minutes: m },
        ),
        TimeAction::List { ticket_id } => by_id(ticket_id@, r, true, |n| Request::ListTimeLogs { id: n }),
        TimeAction::Active => bare(r, Request::ShowActiveTimers),
        TimeAction::Summary { ticket_id } => by_id(ticket_id@, r, true, |n| Request::TimeSummary { id: n }),
        TimeAction::Update { log_id, duration } => by_id_and_duration(
            log_id@,
            duration@,
            r,
            false,
            |n, h, m| Request::UpdateTimeLog { log_id: n, hours: h, minutes: m },
        ),
        TimeAction::Delete { log_id } => by_id(log_id@, r, false, |n| Request::DeleteTimeLog { log_id: n }),
    }
}

fn plan(request: Request, check_ticket: Option<i64>) -> (r: Plan)
    ensures
        r.request == request,
        r.check_ticket == check_ticket,
        r.notice is None,
{
    Plan { request, check_ticket, notice: None }
}

/// Resolves a time-tracking subcommand.
pub fn resolve_time_action(a: &TimeAction) -> (r: Result<Plan, CommandError>)
    ensures
        time_action_resolves(*a, r),
{
    match a {
        TimeAction::Start { ticket_id } => {
            let id = checked_id(ticket_id.as_str())?;
            Ok(plan(Request::StartTimer { id }, Some(id)))
        },
        TimeAction::Stop { ticket_id: Some(t) } => {
            let id = checked_id(t.as_str())?;
            Ok(plan(Request::StopTimer { id }, None))
        },
        TimeAction::Stop { ticket_id: None } => Ok(plan(Request::StopAllTimers, None)),
        TimeAction::Cancel { ticket_id: Some(t) } => {
            let id = checked_id(t.as_str())?;
            Ok(plan(Request::CancelTimer { id }, None))
        },
        TimeAction::Cancel { ticket_id: None } => Ok(plan(Request::CancelAllTimers, None)),
        TimeAction::Pause { ticket_id } => {
            let id = checked_id(ticket_id.as_str())?;
            Ok(plan(Request::PauseTimer { id }, None))
        },
        TimeAction::Resume { ticket_id } => {
            let id = checked_id(ticket_id.as_str())?;
            Ok(plan(Request::ResumeTimer { id }, None))
        },
        TimeAction::Log { ticket_id, duration: d } => {
            let id = checked_id(ticket_id.as_str())?;
            let (hours, minutes) = duration(d.as_str())?;
            Ok(plan(Request::LogTime { id, hours, minutes }, Some(id)))
        },
        TimeAction::List { ticket_id } => {
            let id = checked_id(ticket_id.as_str())?;
            Ok(plan(Request::ListTimeLogs { id }, Some(id)))
        },
        TimeAction::Active => Ok(plan(Request::ShowActiveTimers, None)),
        TimeAction::Summary { ticket_id } => {
            let id = checked_id(ticket_id.as_str())?;
            Ok(plan(Request::TimeSummary { id }, Some(id)))
        },
        TimeAction::Update { log_id, duration: d } => {
            let id = checked_id(log_id.as_str())?;
            let (hours, minutes) = duration(d.as_str())?;
            Ok(plan(Request::UpdateTimeLog { log_id: id, hours, minutes }, None))
        },
        TimeAction::Delete { log_id } => {
            let id = checked_id(log_id.as_str())?;
            Ok(plan(Request::DeleteTimeLog { log_id: id }, None))
        },
    }
}


pub open spec fn same_opt(a: Option<String>, b: Option<String>) -> bool {
    opt_view(a) == opt_view(b)
}

pub open spec fn creates(
    project: String,
    name: String,
    description: Option<String>,
    notice: Option<Notice>,
    r: Result<Plan, CommandError>,
) -> bool {
    match r {
        Ok(p) => valid_project_name(project@) && content_fits(name@, ContentType::TicketName)
            && opt_content_ok(description, ContentType::Description) && (p.request matches Request::CreateTicket {
            project: a,
            name: b,
            description: c,
        } && a@ == project@ && b@ == name@ && same_opt(c, description)) && p.check_ticket is None
            && p.notice == notice,
        Err(e) => if !valid_project_name(project@) {
            bad_project(e, project@)
        } else if !content_fits(name@, ContentType::TicketName) {
            bad_content(e, ContentType::TicketName)
        } else {
            !opt_content_ok(description, ContentType::Description) && bad_content(
                e,
                ContentType::Description,
            )
        },
    }
}

pub open spec fn lists(
    project: Option<String>,
    status: Option<String>,
    sort: String,
    json: bool,
    r: Result<Plan, CommandError>,
) -> bool {
    match r {
        Ok(p) => opt_project_ok(project) && (p.request matches Request::ListTickets {
            project: a,
            status: b,
            sort: c,
            json: j,
        } && same_opt(a, project) && same_opt(b, status) && c@ == sort@ && j == json)
            && p.check_ticket is None && p.notice is None,
        Err(e) => !opt_project_ok(project) && (project matches Some(x) && bad_project(e, x@)),
    }
}

/// `r` resolves a status change of ticket `t` to `st`, validated, with
/// the existence check.
pub open spec fn sets_status(
    t: Seq<char>,
    st: Seq<char>,
    force: bool,
    notice: Option<Notice>,
    r: Result<Plan, CommandError>,
) -> bool {
    match r {
        Ok(p) => ticket_id_of(t) matches Some(n) && is_canonical_status(lower_of(st)) && (p.request matches Request::SetStatus {
            id,
            status,
            force: f,
            comment,
            start_timer,
        } && id == n && status@ == lower_of(st) && f == force && comment is None && !start_timer)
            && p.check_ticket == Some(n) && p.notice == notice,
        Err(e) => if ticket_id_of(t) is None {
            bad_ticket_id(e, t)
        } else {
            !is_canonical_status(lower_of(st)) && bad_status(e, st)
        },
    }
}

pub open spec fn updates_name(t: Seq<char>, name: Seq<char>, r: Result<Plan, CommandError>) -> bool {
    match r {
        Ok(p) => ticket_id_of(t) matches Some(n) && content_fits(name, ContentType::TicketName) && (
        p.request matches Request::UpdateName { id, name: v } && id == n && v@ == name)
            && p.check_ticket == Some(n) && p.notice is None,
        Err(e) => if ticket_id_of(t) is None {
            bad_ticket_id(e, t)
        } else {
            !content_fits(name, ContentType::TicketName) && bad_content(e, ContentType::TicketName)
        },
    }
}

pub open spec fn updates_description(
    t: Seq<char>,
    d: Option<String>,
    r: Result<Plan, CommandError>,
) -> bool {
    match r {
        Ok(p) => ticket_id_of(t) matches Some(n) && opt_content_ok(d, ContentType::Description) && (
        p.request matches Request::UpdateDescription { id, description: v } && id == n
            && same_opt(v, d)) && p.check_ticket == Some(n) && p.notice is None,
        Err(e) => if ticket_id_of(t) is None {
            bad_ticket_id(e, t)
        } else {
            !opt_content_ok(d, ContentType::Description) && bad_content(e, ContentType::Description)
        },
    }
}

pub open spec fn updates_field(
    t: Seq<char>,
    field: Seq<char>,
    value: String,
    r: Result<Plan, CommandError>,
) -> bool {
    if field == "name"@ {
        updates_name(t, value@, r)
    } else if field == "description"@ {
        updates_description(t, Some(value), r)
    } else if field == "status"@ {
        sets_status(t, value@, false, None, r)
    } else {
        match r {
            Ok(p) => ticket_id_of(t) matches Some(n) && (p.request matches Request::UnknownField {
                id,
                field: f,
            } && id == n && f@ == field) && p.check_ticket == Some(n) && p.notice is None,
            Err(e) => ticket_id_of(t) is None && bad_ticket_id(e, t),
        }
    }
}

pub open spec fn moves(t: Seq<char>, project: Seq<char>, r: Result<Plan, CommandError>) -> bool {
    match r {
        Ok(p) => ticket_id_of(t) matches Some(n) && valid_project_name(project) && (
        p.request matches Request::MoveTicket { id, project: q } && id == n && q@ == project)
            && p.check_ticket == Some(n) && p.notice is None,
        Err(e) => if ticket_id_of(t) is None {
            bad_ticket_id(e, t)
        } else {
            !valid_project_name(project) && bad_project(e, project)
        },
    }
}

pub open spec fn ticket_action_resolves(a: TicketAction, r: Result<Plan, CommandError>) -> bool {
    match a {
        TicketAction::Create { project, name, description } => creates(
            project,
            name,
            description,
            None,
            r,
        ),
        TicketAction::List { project, status, sort } => lists(project, status, sort, false, r),
        TicketAction::Show { ticket_id, full } => by_id(
            ticket_id@,
            r,
            false,
            |n| Request::ShowTicket { id: n, json: false },
        ),
        TicketAction::Update { ticket_id, field, value } => updates_field(
            ticket_id@,
            field@,
            value,
            r,
        ),
        TicketAction::Delete { ticket_id, force } => by_id(
            ticket_id@,
            r,
            true,
            |n| Request::DeleteTicket { id: n, force: force },
        ),
        TicketAction::Move { ticket_id, project } => moves(ticket_id@, project@, r),
        TicketAction::Copy { ticket_id, project } => match r {
            Ok(p) => ticket_id_of(ticket_id@) matches Some(n) && opt_project_ok(project) && (
            p.request matches Request::CopyTicket { id, project: q } && id == n && same_opt(
                q,
                project,
            )) && p.check_ticket == Some(n) && p.notice is None,
            Err(e) => if ticket_id_of(ticket_id@) is None {
                bad_ticket_id(e, ticket_id@)
            } else {
                !opt_project_ok(project) && (project matches Some(x) && bad_project(e, x@))
            },
        },
    }
}

fn create(
    project: &String,
    name: &String,
    description: &Option<String>,
    notice: Option<Notice>,
) -> (r: Result<Plan, CommandError>)
    ensures
        creates(*project, *name, *description, notice, r),
{
    let project = project_name(project.as_str())?;
    let name = content(name.as_str(), ContentType::TicketName)?;
    let description = opt_content(description, ContentType::Description)?;
    Ok(
        Plan {
            request: Request::CreateTicket { project, name, description },
            check_ticket: None,
            notice,
        },
    )
}

fn list(project: &Option<String>, status: &Option<String>, sort: &String, json: bool) -> (r: Result<
    Plan,
    CommandError,
>)
    ensures
        lists(*project, *status, *sort, json, r),
{
    let project = opt_project_name(project)?;
    Ok(plan(Request::ListTickets { project, status: status.clone(), sort: sort.clone(), json }, None))
}

fn set_status(t: &str, st: &str, force: bool, notice: Option<Notice>) -> (r: Result<
    Plan,
    CommandError,
>)
    ensures
        sets_status(t@, st@, force, notice, r),
{
    let id = checked_id(t)?;
    let status = status(st)?;
    Ok(
        Plan {
            request: Request::SetStatus { id, status, force, comment: None, start_timer: false },
            check_ticket: Some(id),
            notice,
        },
    )
}

fn update_name(t: &str, name: &str) -> (r: Result<Plan, CommandError>)
    ensures
        updates_name(t@, name@, r),
{
    let id = checked_id(t)?;
    let name = content(name, ContentType::TicketName)?;
    Ok(plan(Request::UpdateName { id, name }, Some(id)))
}

fn update_description(t: &str, d: &Option<String>) -> (r: Result<Plan, CommandError>)
    ensures
        updates_description(t@, *d, r),
{
    let id = checked_id(t)?;
    let description = opt_content(d, ContentType::Description)?;
    Ok(plan(Request::UpdateDescription { id, description }, Some(id)))
}

fn update_field(t: &str, field: &str, value: &String) -> (r: Result<Plan, CommandError>)
    ensures
        updates_field(t@, field@, *value, r),
{
    proof {
        reveal_strlit("name");
        reveal_strlit("description");
        reveal_strlit("status");
    }
    if same_text(field, "name") {
        update_name(t, value.as_str())
    } else if same_text(field, "description") {
        update_description(t, &Some(value.clone()))
    } else if same_text(field, "status") {
        set_status(t, value.as_str(), false, None)
    } else {
        let id = checked_id(t)?;
        Ok(plan(Request::UnknownField { id, field: field.to_string() }, Some(id)))
    }
}

fn move_ticket(t: &str, project: &str) -> (r: Result<Plan, CommandError>)
    ensures
        moves(t@, project@, r),
{
    let id = checked_id(t)?;
    let project = project_name(project)?;
    Ok(plan(Request::MoveTicket { id, project }, Some(id)))
}

/// Resolves a ticket subcommand.
pub fn resolve_ticket_action(a: &TicketAction) -> (r: Result<Plan, CommandError>)
    ensures
        ticket_action_resolves(*a, r),
{
    match a {
        TicketAction::Create { project, name, description } => create(project, name, description, None),
        TicketAction::List { project, status, sort } => list(project, status, sort, false),
        TicketAction::Show { ticket_id, full: _ } => {
            let id = checked_id(ticket_id.as_str())?;
            Ok(plan(Request::ShowTicket { id, json: false }, None))
        },
        TicketAction::Update { ticket_id, field, value } => update_field(
            ticket_id.as_str(),
            field.as_str(),
            value,
        ),
        TicketAction::Delete { ticket_id, force } => {
            let id = checked_id(ticket_id.as_str())?;
            Ok(plan(Request::DeleteTicket { id, force: *force }, Some(id)))
        },
        TicketAction::Move { ticket_id, project } => move_ticket(ticket_id.as_str(), project.as_str()),
        TicketAction::Copy { ticket_id, project } => {
            let id = checked_id(ticket_id.as_str())?;
            let project = opt_project_name(project)?;
            Ok(plan(Request::CopyTicket { id, project }, Some(id)))
        },
    }
}


pub open spec fn summarizes(project: Seq<char>, json: bool, notice: Option<Notice>, r: Result<Plan, CommandError>) -> bool {
    match r {
        Ok(p) => valid_project_name(project) && (p.request matches Request::ProjectSummary {
            project: q,
            json: j,
        } && q@ == project && j == json) && p.check_ticket is None && p.notice == notice,
        Err(e) => !valid_project_name(project) && bad_project(e, project),
    }
}

pub open spec fn project_action_resolves(a: ProjectAction, r: Result<Plan, CommandError>) -> bool {
    match a {
        ProjectAction::Show { project } => summarizes(project@, false, None, r),
        ProjectAction::List => bare(r, Request::ListProjects),
        ProjectAction::Summary { project } => summarizes(project@, false, None, r),
        ProjectAction::Stats { project } => match project {
            Some(x) => summarizes(x@, false, None, r),
            None => bare(r, Request::ListProjects),
        },
    }
}

fn summary(project: &str, json: bool, notice: Option<Notice>) -> (r: Result<Plan, CommandError>)
    ensures
        summarizes(project@, json, notice, r),
{
    let project = project_name(project)?;
    Ok(Plan { request: Request::ProjectSummary { project, json }, check_ticket: None, notice })
}

/// Resolves a project subcommand.
pub fn resolve_project_action(a: &ProjectAction) -> (r: Result<Plan, CommandError>)
    ensures
        project_action_resolves(*a, r),
{
    match a {
        ProjectAction::Show { project } => summary(project.as_str(), false, None),
        ProjectAction::List => Ok(plan(Request::ListProjects, None)),
        ProjectAction::Summary { project } => summary(project.as_str(), false, None),
        ProjectAction::Stats { project: Some(x) } => summary(x.as_str(), false, None),
        ProjectAction::Stats { project: None } => Ok(plan(Request::ListProjects, None)),
    }
}

/// `r` resolves an id `t` followed by comment text `c`.
pub open spec fn with_comment(
    t: Seq<char>,
    c: Seq<char>,
    check: bool,
    r: Result<Plan, CommandError>,
    req: spec_fn(i64, String) -> Request,
) -> bool {
    match r {
        Ok(p) => ticket_id_of(t) matches Some(n) && content_fits(c, ContentType::Comment) && (exists|
            v: String,
        | v@ == c && p.request == req(n, v)) && p.check_ticket == (if check {
            Some(n)
        } else {
            None
        }) && p.notice is None,
        Err(e) => if ticket_id_of(t) is None {
            bad_ticket_id(e, t)
        } else {
            !content_fits(c, ContentType::Comment) && bad_content(e, ContentType::Comment)
        },
    }
}

pub open spec fn comment_action_resolves(a: CommentAction, r: Result<Plan, CommandError>) -> bool {
    match a {
        CommentAction::Add { ticket_id, content } => with_comment(
            ticket_id@,
            content@,
            true,
            r,
            |n, v| Request::AddComment { id: n, content: v },
        ),
        CommentAction::List { ticket_id } => by_id(ticket_id@, r, true, |n| Request::ListComments { id: n }),
        CommentAction::Show { comment_id } => by_id(
            comment_id@,
            r,
            false,
            |n| Request::ShowComment { comment_id: n },
        ),
        CommentAction::Update { comment_id, content } => with_comment(
            comment_id@,
            content@,
            false,
            r,
            |n, v| Request::UpdateComment { comment_id: n, content: v },
        ),
        CommentAction::Delete { comment_id } => by_id(
            comment_id@,
            r,
            false,
            |n| Request::DeleteComment { comment_id: n },
        ),
    }
}

/// Resolves a comment subcommand.
pub fn resolve_comment_action(a: &CommentAction) -> (r: Result<Plan, CommandError>)
    ensures
        comment_action_resolves(*a, r),
{
    match a {
        CommentAction::Add { ticket_id, content: c } => {
            let id = checked_id(ticket_id.as_str())?;
            let c = content(c.as_str(), ContentType::Comment)?;
            Ok(plan(Request::AddComment { id, content: c }, Some(id)))
        },
        CommentAction::List { ticket_id } => {
            let id = checked_id(ticket_id.as_str())?;
            Ok(plan(Request::ListComments { id }, Some(id)))
        },
        CommentAction::Show { comment_id } => {
            let id = checked_id(comment_id.as_str())?;
            Ok(plan(Request::ShowComment { comment_id: id }, None))
        },
        CommentAction::Update { comment_id, content: c } => {
            let id = checked_id(comment_id.as_str())?;
            let c = content(c.as_str(), ContentType::Comment)?;
            Ok(plan(Request::UpdateComment { comment_id: id, content: c }, None))
        },
        CommentAction::Delete { comment_id } => {
            let id = checked_id(comment_id.as_str())?;
            Ok(plan(Request::DeleteComment { comment_id: id }, None))
        },
    }
}

pub open spec fn update_target_resolves(a: UpdateTarget, r: Result<Plan, CommandError>) -> bool {
    match a {
        UpdateTarget::Status { ticket_id, status, force } => sets_status(
            ticket_id@,
            status@,
            force,
            None,
            r,
        ),
        UpdateTarget::Name { ticket_id, name } => updates_name(ticket_id@, name@, r),
        UpdateTarget::Description { ticket_id, description } => updates_description(
            ticket_id@,
            description,
            r,
        ),
        UpdateTarget::Project { ticket_id, project } => moves(ticket_id@, project@, r),
    }
}

/// Resolves an update subcommand.
pub fn resolve_update_target(a: &UpdateTarget) -> (r: Result<Plan, CommandError>)
    ensures
        update_target_resolves(*a, r),
{
    match a {
        UpdateTarget::Status { ticket_id, status, force } => set_status(
            ticket_id.as_str(),
            status.as_str(),
            *force,
            None,
        ),
        UpdateTarget::Name { ticket_id, name } => update_name(ticket_id.as_str(), name.as_str()),
        UpdateTarget::Description { ticket_id, description } => update_description(
            ticket_id.as_str(),
            description,
        ),
        UpdateTarget::Project { ticket_id, project } => move_ticket(
            ticket_id.as_str(),
            project.as_str(),
        ),
    }
}


/// The shell that a lower-cased name stands for.
pub open spec fn shell_of(s: Seq<char>) -> Option<Shell> {
    if s == "bash"@ {
        Some(Shell::Bash)
    } else if s == "zsh"@ {
        Some(Shell::Zsh)
    } else if s == "fish"@ {
        Some(Shell::Fish)
    } else if s == "powershell"@ || s == "pwsh"@ {
        Some(Shell::PowerShell)
    } else if s == "elvish"@ {
        Some(Shell::Elvish)
    } else {
        None
    }
}

/// Reads a lower-cased shell name.
pub fn shell_from_lowered(s: &str) -> (r: Option<Shell>)
    ensures
        r == shell_of(s@),
{
    if same_text(s, "bash") {
        Some(Shell::Bash)
    } else if same_text(s, "zsh") {
        Some(Shell::Zsh)
    } else if same_text(s, "fish") {
        Some(Shell::Fish)
    } else if same_text(s, "powershell") || same_text(s, "pwsh") {
        Some(Shell::PowerShell)
    } else if same_text(s, "elvish") {
        Some(Shell::Elvish)
    } else {
        None
    }
}

/// `r` resolves a status shortcut on ticket `t`: the fixed status `lit`,
/// applied without confirmation and without the status validator.
pub open spec fn shortcut(
    t: Seq<char>,
    lit: Seq<char>,
    comment: Option<Seq<char>>,
    start_timer: bool,
    r: Result<Plan, CommandError>,
) -> bool {
    match r {
        Ok(p) => ticket_id_of(t) matches Some(n) && (p.request matches Request::SetStatus {
            id,
            status,
            force,
            comment: c,
            start_timer: st,
        } && id == n && status@ == lit && force && opt_view(c) == comment && st == start_timer)
            && p.check_ticket == Some(n) && p.notice is None,
        Err(e) => ticket_id_of(t) is None && bad_ticket_id(e, t),
    }
}

pub open spec fn block_comment(reason: Option<String>) -> Option<Seq<char>> {
    match reason {
        Some(x) => Some("Blocked: "@ + x@),
        None => None,
    }
}

pub open spec fn legacy_log_resolves(
    t: Seq<char>,
    hours: Option<i32>,
    minutes: Option<i32>,
    start: bool,
    end: bool,
    r: Result<Plan, CommandError>,
) -> bool {
    match r {
        Ok(p) => ticket_id_of(t) matches Some(n) && p.check_ticket == Some(n) && p.notice is None
            && if start {
            p.request == Request::StartTimer { id: n }
        } else if end {
            p.request == Request::StopTimer { id: n }
        } else if hours is Some && minutes is Some {
            valid_time(hours->0 as int, minutes->0 as int) && p.request == Request::LogTime {
                id: n,
                hours: hours->0,
                minutes: minutes->0,
            }
        } else {
            p.request == Request::MissingDuration { id: n }
        },
        Err(e) => if ticket_id_of(t) is None {
            bad_ticket_id(e, t)
        } else {
            !start && !end && hours is Some && minutes is Some && !valid_time(
                hours->0 as int,
                minutes->0 as int,
            ) && (e matches CommandError::Invalid(ValidationError::InvalidTime(_)))
        },
    }
}

/// What resolving `c` must give.
pub open spec fn resolves(c: Commands, r: Result<Plan, CommandError>) -> bool {
    match c {
        Commands::Init => bare(r, Request::Init),
        Commands::Ticket { action } => ticket_action_resolves(action, r),
        Commands::Project { action } => project_action_resolves(action, r),
        Commands::Comment { action } => comment_action_resolves(action, r),
        Commands::Time { action } => time_action_resolves(action, r),
        Commands::Update { target } => update_target_resolves(target, r),
        Commands::Open { ticket_id } => shortcut(ticket_id@, "open"@, None, false, r),
        Commands::Complete { ticket_id } => shortcut(ticket_id@, "completed"@, None, false, r),
        Commands::Block { ticket_id, reason } => if ticket_id_of(ticket_id@) is Some
            && !opt_content_ok(reason, ContentType::Comment) {
            r matches Err(e) && bad_content(e, ContentType::Comment)
        } else {
            shortcut(ticket_id@, "blocked"@, block_comment(reason), false, r)
        },
        Commands::Start { ticket_id } => shortcut(ticket_id@, "in-progress"@, None, true, r),
        Commands::Projects => bare(r, Request::ListProjects),
        Commands::Active => bare(r, Request::ShowActiveTimers),
        Commands::Completions { shell, out_dir } => match shell_of(lower_of(shell@)) {
            Some(sh) => r matches Ok(p) && (p.request matches Request::Completions {
                shell: s2,
                out_dir: o,
            } && s2 == sh && same_opt(o, out_dir)) && p.check_ticket is None && p.notice is None,
            None => r matches Err(CommandError::UnsupportedShell(t)) && t@ == lower_of(shell@),
        },
        Commands::Add { project, name, description } => creates(
            project,
            name,
            description,
            Some(Notice::Add),
            r,
        ),
        Commands::Close { ticket_id, status, force } => sets_status(
            ticket_id@,
            match status {
                Some(x) => x@,
                None => "closed"@,
            },
            force,
            None,
            r,
        ),
        Commands::Status { ticket_id, status, force } => sets_status(
            ticket_id@,
            status@,
            force,
            Some(Notice::Status),
            r,
        ),
        Commands::Delete { ticket_id, force } => by_id(
            ticket_id@,
            r,
            true,
            |n| Request::DeleteTicket { id: n, force: force },
        ),
        Commands::List { project, json, json_pretty, status, sort } => lists(
            project,
            status,
            sort,
            json || json_pretty,
            r,
        ),
        Commands::Show { ticket_id, json, json_pretty, full } => by_id(
            ticket_id@,
            r,
            false,
            |n| Request::ShowTicket { id: n, json: json || json_pretty },
        ),
        Commands::Log { ticket_id, hours, minutes, start, end } => legacy_log_resolves(
            ticket_id@,
            hours,
            minutes,
            start,
            end,
            r,
        ),
        Commands::Proj { project, json, json_pretty } => summarizes(
            project@,
            json || json_pretty,
            Some(Notice::Proj),
            r,
        ),
    }
}

fn status_shortcut(t: &str, lit: &str, comment: Option<String>, start_timer: bool) -> (r: Result<
    Plan,
    CommandError,
>)
    ensures
        shortcut(t@, lit@, opt_view(comment), start_timer, r),
{
    let id = checked_id(t)?;
    Ok(
        plan(
            Request::SetStatus { id, status: lit.to_string(), force: true, comment, start_timer },
            Some(id),
        ),
    )
}

fn legacy_log(t: &str, hours: Option<i32>, minutes: Option<i32>, start: bool, end: bool) -> (r: Result<
    Plan,
    CommandError,
>)
    ensures
        legacy_log_resolves(t@, hours, minutes, start, end, r),
{
    let id = checked_id(t)?;
    let request = if start {
        Request::StartTimer { id }
    } else if end {
        Request::StopTimer { id }
    } else {
        match (hours, minutes) {
            (Some(h), Some(m)) => match validate_time(h, m) {
                Ok(_) => Request::LogTime { id, hours: h, minutes: m },
                Err(e) => {
                    return Err(CommandError::Invalid(e));
                },
            },
            _ => Request::MissingDuration { id },
        }
    };
    Ok(plan(request, Some(id)))
}

/// Validates a command's arguments and maps it onto its canonical request.
pub fn resolve_command(c: &Commands) -> (r: Result<Plan, CommandError>)
    ensures
        resolves(*c, r),
{
    proof {
        reveal_strlit("open");
        reveal_strlit("completed");
        reveal_strlit("blocked");
        reveal_strlit("in-progress");
        reveal_strlit("closed");
        reveal_strlit("Blocked: ");
    }
    match c {
        Commands::Init => Ok(plan(Request::Init, None)),
        Commands::Ticket { action } => resolve_ticket_action(action),
        Commands::Project { action } => resolve_project_action(action),
        Commands::Comment { action } => resolve_comment_action(action),
        Commands::Time { action } => resolve_time_action(action),
        Commands::Update { target } => resolve_update_target(target),
        Commands::Open { ticket_id } => status_shortcut(ticket_id.as_str(), "open", None, false),
        Commands::Complete { ticket_id } => status_shortcut(
            ticket_id.as_str(),
            "completed",
            None,
            false,
        ),
        Commands::Block { ticket_id, reason } => {
            let id = checked_id(ticket_id.as_str())?;
            let comment = match reason {
                Some(x) => {
                    let v = content(x.as_str(), ContentType::Comment)?;
                    let mut text = String::from_str("Blocked: ");
                    text.append(v.as_str());
                    Some(text)
                },
                None => None,
            };
            status_shortcut(ticket_id.as_str(), "blocked", comment, false)
        },
        Commands::Start { ticket_id } => status_shortcut(
            ticket_id.as_str(),
            "in-progress",
            None,
            true,
        ),
        Commands::Projects => Ok(plan(Request::ListProjects, None)),
        Commands::Active => Ok(plan(Request::ShowActiveTimers, None)),
        Commands::Completions { shell, out_dir } => {
            let lowered = lowercase(shell.as_str());
            match shell_from_lowered(lowered.as_str()) {
                Some(sh) => Ok(plan(Request::Completions { shell: sh, out_dir: out_dir.clone() }, None)),
                None => Err(CommandError::UnsupportedShell(lowered)),
            }
        },
        Commands::Add { project, name, description } => create(
            project,
            name,
            description,
            Some(Notice::Add),
        ),
        Commands::Close { ticket_id, status, force } => match status {
            Some(x) => set_status(ticket_id.as_str(), x.as_str(), *force, None),
            None => set_status(ticket_id.as_str(), "closed", *force, None),
        },
        Commands::Status { ticket_id, status, force } => set_status(
            ticket_id.as_str(),
            status.as_str(),
            *force,
            Some(Notice::Status),
        ),
        Commands::Delete { ticket_id, force } => {
            let id = checked_id(ticket_id.as_str())?;
            Ok(plan(Request::DeleteTicket { id, force: *force }, Some(id)))
        },
        Commands::List { project, json, json_pretty, status, sort } => list(
            project,
            status,
            sort,
            *json || *json_pretty,
        ),
        Commands::Show { ticket_id, json, json_pretty, full: _ } => {
            let id = checked_id(ticket_id.as_str())?;
            Ok(plan(Request::ShowTicket { id, json: *json || *json_pretty }, None))
        },
        Commands::Log { ticket_id, hours, minutes, start, end } => legacy_log(
            ticket_id.as_str(),
            *hours,
            *minutes,
            *start,
            *end,
        ),
        Commands::Proj { project, json, json_pretty } => summary(
            project.as_str(),
            *json || *json_pretty,
            Some(Notice::Proj),
        ),
    }
}

/// Whether a validation failure of `c` is to be reported as JSON.
pub open spec fn json_errors_of(c: Commands) -> bool {
    match c {
        Commands::List { json, .. } => json,
        Commands::Show { json, .. } => json,
        Commands::Proj { json, .. } => json,
        _ => false,
    }
}

/// Tells whether a validation failure of `c` is to be reported as JSON: the
/// listing, showing and project commands given `--json`.
pub fn wants_json_errors(c: &Commands) -> (r: bool)
    ensures
        r == json_errors_of(*c),
{
    match c {
        Commands::List { json, .. } => *json,
        Commands::Show { json, .. } => *json,
        Commands::Proj { json, .. } => *json,
        _ => false,
    }
}


/// The ordering that a lower-cased sort field selects for ticket listings.
pub open spec fn order_of(sort: Seq<char>) -> Seq<char> {
    if sort == "created"@ || sort == "created_at"@ {
        "created_at DESC"@
    } else if sort == "status"@ {
        "status ASC, updated_at DESC"@
    } else if sort == "project"@ {
        "project ASC, updated_at DESC"@
    } else {
        "updated_at DESC"@
    }
}

/// Chooses the ordering of a ticket listing from a lower-cased sort field;
/// an unknown field orders by last update.
pub fn order_clause_lowered(sort: &str) -> (r: &'static str)
    ensures
        r@ == order_of(sort@),
{
    if same_text(sort, "created") || same_text(sort, "created_at") {
        "created_at DESC"
    } else if same_text(sort, "status") {
        "status ASC, updated_at DESC"
    } else if same_text(sort, "project") {
        "project ASC, updated_at DESC"
    } else {
        "updated_at DESC"
    }
}

/// Chooses the ordering of a ticket listing from a sort field in any letter case.
pub fn order_clause(sort: &str) -> (r: &'static str)
    ensures
        r@ == order_of(lower_of(sort@)),
{
    let lowered = lowercase(sort);
    order_clause_lowered(lowered.as_str())
}

} // verus!
