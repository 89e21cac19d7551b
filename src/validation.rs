//! Normalization of untrusted input: ticket ids, project names, statuses,
//! content lengths and time values. Nothing here performs I/O.

use vstd::prelude::*;
use crate::text::{i64_value, int_text, int_to_text, lemma_nat_text_value, nat_text, nat_to_text, parse_i64, same_text};

verus! {

/// Why an input was refused.
#[derive(Debug)]
pub enum ValidationError {
    InvalidTicketId(String),
    TicketNotFound(i64),
    InvalidProjectName(String),
    InvalidTime(String),
    InvalidStatus(String),
    InvalidContentLength { field_type: String, min: usize, max: usize },
}

/// The kinds of free text that carry a length bound.
#[derive(Clone, Copy, Debug, PartialEq, Eq, Structural)]
pub enum ContentType {
    TicketName,
    Description,
    Comment,
}

/// Inclusive character-count bounds of each kind of text.
pub open spec fn limits_of(t: ContentType) -> (usize, usize) {
    match t {
        ContentType::TicketName => (1, 100),
        ContentType::Description => (1, 2000),
        ContentType::Comment => (1, 1000),
    }
}

pub open spec fn content_name_of(t: ContentType) -> Seq<char> {
    match t {
        ContentType::TicketName => "ticket name"@,
        ContentType::Description => "description"@,
        ContentType::Comment => "comment"@,
    }
}

impl ContentType {
    pub fn limits(&self) -> (r: (usize, usize))
        ensures
            r == limits_of(*self),
    {
        match self {
            ContentType::TicketName => (1, 100),
            ContentType::Description => (1, 2000),
            ContentType::Comment => (1, 1000),
        }
    }

    pub fn name(&self) -> (r: &'static str)
        ensures
            r@ == content_name_of(*self),
    {
        match self {
            ContentType::TicketName => "ticket name",
            ContentType::Description => "description",
            ContentType::Comment => "comment",
        }
    }
}

/// A ticket id is an integer that fits in `i64` and is strictly positive.
pub open spec fn ticket_id_of(s: Seq<char>) -> Option<i64> {
    match i64_value(s) {
        Some(n) => if n > 0 {
            Some(n)
        } else {
            None
        },
        None => None,
    }
}

/// Parses a ticket id: every string that writes a positive integer gives
/// that integer; any other string is refused.
pub fn validate_ticket_id(id: &str) -> (r: Result<i64, ValidationError>)
    ensures
        match r {
            Ok(n) => ticket_id_of(id@) == Some(n) && n > 0,
            Err(e) => ticket_id_of(id@) is None && (e matches ValidationError::InvalidTicketId(t)
                && t@ == id@),
        },
{
    match parse_i64(id) {
        Some(n) => if n > 0 {
            Ok(n)
        } else {
            Err(ValidationError::InvalidTicketId(id.to_string()))
        },
        None => Err(ValidationError::InvalidTicketId(id.to_string())),
    }
}

/// Every positive integer, written in decimal, is accepted as a ticket id
/// and read back as itself.
pub proof fn lemma_positive_ids_accepted(n: i64)
    requires
        n > 0,
    ensures
        ticket_id_of(nat_text(n as nat)) == Some(n),
{
    lemma_nat_text_value(n as nat);
    let s = nat_text(n as nat);
    assert(crate::text::is_digit(s[0]));
}

/// Characters allowed in a project name.
pub open spec fn is_project_char(c: char) -> bool {
    ('a' <= c && c <= 'z') || ('A' <= c && c <= 'Z') || ('0' <= c && c <= '9') || c == '_'
        || c == '-'
}

/// Longest accepted project name, in characters.
pub const MAX_PROJECT_NAME: usize = 50;

pub open spec fn valid_project_name(s: Seq<char>) -> bool {
    1 <= s.len() <= MAX_PROJECT_NAME && forall|i: int| 0 <= i < s.len() ==> is_project_char(
        #[trigger] s[i],
    )
}

/// Relies on regex's `Regex::new` and `Regex::is_match`: the pattern
/// `^[a-zA-Z0-9_-]+$` compiles, and it matches exactly the non-empty texts
/// made only of characters of its class (`$` is the end of the text).
#[verifier::external_body]
fn regex_is_match(pattern: &str, text: &str) -> (r: bool)
    requires
        pattern@ == "^[a-zA-Z0-9_-]+$"@,
    ensures
        r == (text@.len() > 0 && forall|i: int| 0 <= i < text@.len() ==> is_project_char(
            #[trigger] text@[i],
        )),
{
    regex::Regex::new(pattern).unwrap().is_match(text)
}

/// Accepts a project name of 1 to 50 letters, digits, `_` and `-`.
pub fn validate_project_name(name: &str) -> (r: Result<String, ValidationError>)
    ensures
        match r {
            Ok(v) => valid_project_name(name@) && v@ == name@,
            Err(e) => !valid_project_name(name@) && (e matches ValidationError::InvalidProjectName(t)
                && t@ == name@),
        },
{
    let n = name.unicode_len();
    if n == 0 || n > MAX_PROJECT_NAME {
        return Err(ValidationError::InvalidProjectName(name.to_string()));
    }
    if !regex_is_match("^[a-zA-Z0-9_-]+$", name) {
        return Err(ValidationError::InvalidProjectName(name.to_string()));
    }
    Ok(name.to_string())
}

pub open spec fn valid_time(hours: int, minutes: int) -> bool {
    0 <= hours <= 24 && 0 <= minutes <= 59
}

/// The text that an `InvalidTime` error carries: `"<h>h <m>m"`.
pub open spec fn time_text(hours: int, minutes: int) -> Seq<char> {
    int_text(hours) + "h "@ + int_text(minutes) + "m"@
}

/// Renders a duration as `"<h>h <m>m"`.
pub fn time_to_text(hours: i64, minutes: i64) -> (r: String)
    ensures
        r@ == time_text(hours as int, minutes as int),
{
    let mut r = int_to_text(hours);
    r.append("h ");
    let m = int_to_text(minutes);
    r.append(m.as_str());
    r.append("m");
    r
}

/// Accepts hours in `0..=24` and minutes in `0..=59`.
pub fn validate_time(hours: i32, minutes: i32) -> (r: Result<(i32, i32), ValidationError>)
    ensures
        match r {
            Ok(v) => valid_time(hours as int, minutes as int) && v == (hours, minutes),
            Err(e) => !valid_time(hours as int, minutes as int) && (e matches ValidationError::InvalidTime(t)
                && t@ == time_text(hours as int, minutes as int)),
        },
{
    if hours < 0 || hours > 24 || minutes < 0 || minutes > 59 {
        return Err(ValidationError::InvalidTime(time_to_text(hours as i64, minutes as i64)));
    }
    Ok((hours, minutes))
}


/// Inclusive bounds on the character count of `t`.
pub open spec fn content_fits(s: Seq<char>, t: ContentType) -> bool {
    limits_of(t).0 <= s.len() <= limits_of(t).1
}

/// Accepts text whose character count lies within the bounds of its kind.
pub fn validate_content_length(content: &str, field_type: ContentType) -> (r: Result<
    String,
    ValidationError,
>)
    ensures
        match r {
            Ok(v) => content_fits(content@, field_type) && v@ == content@,
            Err(e) => !content_fits(content@, field_type) && (e matches ValidationError::InvalidContentLength {
                field_type: f,
                min,
                max,
            } && f@ == content_name_of(field_type) && (min, max) == limits_of(field_type)),
        },
{
    let (min, max) = field_type.limits();
    let len = content.unicode_len();
    if len < min || len > max {
        return Err(
            ValidationError::InvalidContentLength {
                field_type: field_type.name().to_string(),
                min,
                max,
            },
        );
    }
    Ok(content.to_string())
}

/// The canonical ticket statuses, in the order in which they are listed to users.
pub open spec fn canonical_statuses() -> Seq<Seq<char>> {
    seq!["open"@, "in-progress"@, "testing"@, "blocked"@, "closed"@, "cancelled"@]
}

pub open spec fn is_canonical_status(s: Seq<char>) -> bool {
    canonical_statuses().contains(s)
}

/// The canonical status at position `i` of the list.
pub fn canonical_status_at(i: usize) -> (r: &'static str)
    requires
        i < 6,
    ensures
        r@ == canonical_statuses()[i as int],
{
    if i == 0 {
        "open"
    } else if i == 1 {
        "in-progress"
    } else if i == 2 {
        "testing"
    } else if i == 3 {
        "blocked"
    } else if i == 4 {
        "closed"
    } else {
        "cancelled"
    }
}

/// Tells whether `s` is, exactly, one of the canonical statuses.
pub fn is_canonical(s: &str) -> (r: bool)
    ensures
        r == is_canonical_status(s@),
{
    let mut i: usize = 0;
    while i < 6
        invariant
            i <= 6,
            forall|j: int| 0 <= j < i ==> canonical_statuses()[j] != s@,
        decreases 6 - i,
    {
        if same_text(s, canonical_status_at(i)) {
            assert(canonical_statuses()[i as int] == s@);
            return true;
        }
        i = i + 1;
    }
    assert(canonical_statuses().len() == 6);
    false
}

/// What `str::to_lowercase` makes of a text.
pub uninterp spec fn lower_of(s: Seq<char>) -> Seq<char>;

/// Relies on `str::to_lowercase`: the Unicode lower-case mapping of the text,
/// which depends on its characters alone.
#[verifier::external_body]
pub(crate) fn lowercase(s: &str) -> (r: String)
    ensures
        r@ == lower_of(s@),
{
    s.to_lowercase()
}

/// Decides a status from its already lower-cased form: the canonical status
/// when `lowered` is one, else `InvalidStatus` carrying the text as given.
pub fn status_from_lowered(status: &str, lowered: String) -> (r: Result<String, ValidationError>)
    ensures
        match r {
            Ok(v) => is_canonical_status(lowered@) && v@ == lowered@,
            Err(e) => !is_canonical_status(lowered@) && (e matches ValidationError::InvalidStatus(t)
                && t@ == status@),
        },
{
    if is_canonical(lowered.as_str()) {
        Ok(lowered)
    } else {
        Err(ValidationError::InvalidStatus(status.to_string()))
    }
}

/// Accepts a status in any letter case and returns its lower-case canonical form.
pub fn validate_status(status: &str) -> (r: Result<String, ValidationError>)
    ensures
        match r {
            Ok(v) => is_canonical_status(lower_of(status@)) && v@ == lower_of(status@),
            Err(e) => !is_canonical_status(lower_of(status@)) && (e matches ValidationError::InvalidStatus(t)
                && t@ == status@),
        },
{
    let lowered = lowercase(status);
    status_from_lowered(status, lowered)
}


/// The Levenshtein distance: the least number of single-character
/// insertions, deletions and substitutions that turn `a` into `b`.
pub open spec fn levenshtein(a: Seq<char>, b: Seq<char>) -> nat
    decreases a.len() + b.len(),
{
    if a.len() == 0 {
        b.len()
    } else if b.len() == 0 {
        a.len()
    } else {
        let substitute = levenshtein(a.drop_last(), b.drop_last()) + if a.last() == b.last() {
            0nat
        } else {
            1nat
        };
        let delete = levenshtein(a.drop_last(), b) + 1;
        let insert = levenshtein(a, b.drop_last()) + 1;
        if substitute <= delete && substitute <= insert {
            substitute
        } else if delete <= insert {
            delete
        } else {
            insert
        }
    }
}

/// Relies on `strsim::levenshtein`: the Levenshtein distance between the
/// two texts, counted in characters.
#[verifier::external_body]
fn edit_distance(a: &str, b: &str) -> (r: usize)
    ensures
        r as nat == levenshtein(a@, b@),
{
    strsim::levenshtein(a, b)
}

/// Index of the first smallest of `d[0..n]`.
pub open spec fn first_min_index(d: Seq<usize>, n: int) -> int
    decreases n,
{
    if n <= 1 {
        0
    } else {
        let b = first_min_index(d, n - 1);
        if d[n - 1] < d[b] {
            n - 1
        } else {
            b
        }
    }
}

pub open spec fn status_list_text() -> Seq<char> {
    "open, in-progress, testing, blocked, closed, cancelled"@
}

/// The hint under an invalid-status message, given the edit distance from
/// the text to each canonical status: the closest status (the first of
/// equals) when it is within 3 edits, else the list of valid statuses.
pub open spec fn status_hint_text(d: Seq<usize>) -> Seq<char> {
    let b = first_min_index(d, 6);
    if d[b] <= 3 {
        "\n💡 Did you mean: ltm status 1 "@ + canonical_statuses()[b]
    } else {
        "\n💡 Valid statuses: "@ + status_list_text()
    }
}

/// Chooses the hint for an invalid status from its edit distances to the
/// canonical statuses, listed in their usual order.
pub fn status_hint(distances: &[usize; 6]) -> (r: String)
    ensures
        r@ == status_hint_text(distances@),
{
    let mut best: usize = 0;
    let mut i: usize = 1;
    while i < 6
        invariant
            1 <= i <= 6,
            distances@.len() == 6,
            best < i,
            best as int == first_min_index(distances@, i as int),
        decreases 6 - i,
    {
        if distances[i] < distances[best] {
            best = i;
        }
        i = i + 1;
    }
    if distances[best] <= 3 {
        let mut r = String::from_str("\n💡 Did you mean: ltm status 1 ");
        r.append(canonical_status_at(best));
        r
    } else {
        let mut r = String::from_str("\n💡 Valid statuses: ");
        r.append("open, in-progress, testing, blocked, closed, cancelled");
        r
    }
}

/// Edit distances from `s` to each canonical status.
pub open spec fn status_distances(s: Seq<char>) -> Seq<usize> {
    Seq::new(6, |i: int| levenshtein(s, canonical_statuses()[i]) as usize)
}

/// The user-facing text of a validation error, with an example or a hint.
pub open spec fn error_message(e: ValidationError) -> Seq<char> {
    match e {
        ValidationError::InvalidTicketId(id) => "❌ Error: Invalid ticket ID '"@ + id@
            + "'. Must be a positive number.\n💡 Example: ltm show 1"@,
        ValidationError::TicketNotFound(id) => "❌ Error: Ticket #"@ + int_text(id as int)
            + " not found."@,
        ValidationError::InvalidProjectName(name) => "❌ Error: Invalid project name '"@ + name@
            + "'. Only letters, numbers, hyphens, underscores allowed.\n💡 Example: ltm add my-project \"test\" \"description\""@,
        ValidationError::InvalidTime(t) => "❌ Error: Invalid time value '"@ + t@
            + "'. Hours must be 0-24, minutes must be 0-59.\n💡 Example: ltm log 1 --hours 2 --minutes 30"@,
        ValidationError::InvalidStatus(st) => "❌ Error: Invalid status '"@ + st@
            + "'. Must be one of: "@ + status_list_text() + "."@ + status_hint_text(
            status_distances(st@),
        ),
        ValidationError::InvalidContentLength { field_type, min, max } => "❌ Error: Invalid "@
            + field_type@ + " length. "@ + field_type@ + " must be between "@ + nat_text(
            min as nat,
        ) + " and "@ + nat_text(max as nat) + " characters."@,
    }
}

/// Renders a validation error for the user.
pub fn format_validation_error(error: &ValidationError) -> (r: String)
    ensures
        r@ == error_message(*error),
{
    match error {
        ValidationError::InvalidTicketId(id) => {
            let mut r = String::from_str("❌ Error: Invalid ticket ID '");
            r.append(id.as_str());
            r.append("'. Must be a positive number.\n💡 Example: ltm show 1");
            r
        },
        ValidationError::TicketNotFound(id) => {
            let mut r = String::from_str("❌ Error: Ticket #");
            let n = int_to_text(*id);
            r.append(n.as_str());
            r.append(" not found.");
            r
        },
        ValidationError::InvalidProjectName(name) => {
            let mut r = String::from_str("❌ Error: Invalid project name '");
            r.append(name.as_str());
            r.append(
                "'. Only letters, numbers, hyphens, underscores allowed.\n💡 Example: ltm add my-project \"test\" \"description\"",
            );
            r
        },
        ValidationError::InvalidTime(t) => {
            let mut r = String::from_str("❌ Error: Invalid time value '");
            r.append(t.as_str());
            r.append(
                "'. Hours must be 0-24, minutes must be 0-59.\n💡 Example: ltm log 1 --hours 2 --minutes 30",
            );
            r
        },
        ValidationError::InvalidStatus(st) => {
            let distances: [usize; 6] = [
                edit_distance(st.as_str(), canonical_status_at(0)),
                edit_distance(st.as_str(), canonical_status_at(1)),
                edit_distance(st.as_str(), canonical_status_at(2)),
                edit_distance(st.as_str(), canonical_status_at(3)),
                edit_distance(st.as_str(), canonical_status_at(4)),
                edit_distance(st.as_str(), canonical_status_at(5)),
            ];
            assert(distances@ =~= status_distances(st@));
            let hint = status_hint(&distances);
            let mut r = String::from_str("❌ Error: Invalid status '");
            r.append(st.as_str());
            r.append("'. Must be one of: ");
            r.append("open, in-progress, testing, blocked, closed, cancelled");
            r.append(".");
            r.append(hint.as_str());
            r
        },
        ValidationError::InvalidContentLength { field_type, min, max } => {
            let mut r = String::from_str("❌ Error: Invalid ");
            r.append(field_type.as_str());
            r.append(" length. ");
            r.append(field_type.as_str());
            r.append(" must be between ");
            let a = nat_to_text(*min as u64);
            r.append(a.as_str());
            r.append(" and ");
            let b = nat_to_text(*max as u64);
            r.append(b.as_str());
            r.append(" characters.");
            r
        },
    }
}

} // verus!
