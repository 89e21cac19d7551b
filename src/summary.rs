//! Counting over ticket lists and time logs.

use vstd::prelude::*;
use crate::text::same_text;
use crate::validation::{lower_of, lowercase};

verus! {

/// Ticket counts of a listing.
#[derive(Clone, Copy, Debug, PartialEq, Eq, Structural)]
pub struct TicketListSummary {
    pub total_tickets: usize,
    pub open_tickets: usize,
    pub closed_tickets: usize,
}

/// A lower-cased status that counts as closed.
pub open spec fn is_closed_status(s: Seq<char>) -> bool {
    s == "closed"@ || s == "completed"@ || s == "done"@
}

/// Tells whether an already lower-cased status counts as closed.
pub fn is_closed_lowered(s: &str) -> (r: bool)
    ensures
        r == is_closed_status(s@),
{
    same_text(s, "closed") || same_text(s, "completed") || same_text(s, "done")
}

/// Number of statuses among `s` that count as closed in any letter case.
pub open spec fn closed_count(s: Seq<String>) -> nat
    decreases s.len(),
{
    if s.len() == 0 {
        0
    } else {
        closed_count(s.drop_last()) + if is_closed_status(lower_of(s.last()@)) {
            1nat
        } else {
            0nat
        }
    }
}

proof fn lemma_closed_count_bound(s: Seq<String>)
    ensures
        closed_count(s) <= s.len(),
    decreases s.len(),
{
    if s.len() > 0 {
        lemma_closed_count_bound(s.drop_last());
    }
}

/// Counts the tickets of a listing, given their statuses: those closed,
/// completed or done (in any letter case) are closed, the rest open.
pub fn summarize_statuses(statuses: &[String]) -> (r: TicketListSummary)
    ensures
        r.total_tickets == statuses@.len(),
        r.closed_tickets == closed_count(statuses@),
        r.open_tickets == statuses@.len() - closed_count(statuses@),
{
    let mut closed: usize = 0;
    let mut i: usize = 0;
    while i < statuses.len()
        invariant
            i <= statuses@.len(),
            closed == closed_count(statuses@.take(i as int)),
        decreases statuses@.len() - i,
    {
        proof {
            assert(statuses@.take(i + 1).drop_last() =~= statuses@.take(i as int));
            lemma_closed_count_bound(statuses@.take(i as int));
        }
        let lowered = lowercase(statuses[i].as_str());
        if is_closed_lowered(lowered.as_str()) {
            closed = closed + 1;
        }
        i = i + 1;
    }
    proof {
        assert(statuses@.take(statuses@.len() as int) =~= statuses@);
        lemma_closed_count_bound(statuses@);
    }
    TicketListSummary {
        total_tickets: statuses.len(),
        open_tickets: statuses.len() - closed,
        closed_tickets: closed,
    }
}

/// Total minutes of a list of (hours, minutes) entries.
pub open spec fn logged_minutes(logs: Seq<(i32, i32)>) -> int
    decreases logs.len(),
{
    if logs.len() == 0 {
        0
    } else {
        logged_minutes(logs.drop_last()) + logs.last().0 * 60 + logs.last().1
    }
}

proof fn lemma_logged_minutes_bound(logs: Seq<(i32, i32)>)
    ensures
        -logs.len() * 0x100000000 * 61 <= logged_minutes(logs) <= logs.len() * 0x100000000 * 61,
    decreases logs.len(),
{
    if logs.len() > 0 {
        lemma_logged_minutes_bound(logs.drop_last());
    }
}

/// Adds up time logs and splits the sum into hours and minutes.
pub fn total_logged_time(logs: &[(i32, i32)]) -> (r: (i128, i128))
    ensures
        r.0 == logged_minutes(logs@) / 60,
        r.1 == logged_minutes(logs@) % 60,
{
    let mut total: i128 = 0;
    let mut i: usize = 0;
    while i < logs.len()
        invariant
            i <= logs@.len(),
            total == logged_minutes(logs@.take(i as int)),
        decreases logs@.len() - i,
    {
        proof {
            assert(logs@.take(i + 1).drop_last() =~= logs@.take(i as int));
            lemma_logged_minutes_bound(logs@.take(i as int));
        }
        let (h, m) = logs[i];
        total = total + (h as i128) * 60 + m as i128;
        i = i + 1;
    }
    proof {
        assert(logs@.take(logs@.len() as int) =~= logs@);
        lemma_logged_minutes_bound(logs@.take(i as int));
    }
    if total >= 0 {
        (total / 60, total % 60)
    } else {
        let n = -total - 1;
        proof {
            vstd::arithmetic::div_mod::lemma_fundamental_div_mod(n as int, 60);
            vstd::arithmetic::div_mod::lemma_fundamental_div_mod_converse(
                total as int,
                60,
                -(n / 60) - 1,
                59 - n % 60,
            );
        }
        (-(n / 60) - 1, 59 - n % 60)
    }
}

} // verus!
