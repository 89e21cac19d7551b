//! The per-ticket time-tracking state machine.
//!
//! Instants are milliseconds since the Unix epoch and durations are
//! milliseconds; the caller supplies "now" to every operation that needs it.

use vstd::prelude::*;
use vstd::arithmetic::div_mod::{lemma_fundamental_div_mod, lemma_fundamental_div_mod_converse};
use crate::validation::{time_text, time_to_text, valid_time, ValidationError};

verus! {

pub const MS_PER_MINUTE: i128 = 60000;

/// The in-memory record of one ticket's timing session.
#[derive(Clone, Copy, Debug, PartialEq, Eq, Structural)]
pub struct TimeTrackingState {
    /// Start of the current running segment.
    pub start_time: i64,
    /// When the session was paused; present exactly while it is paused.
    pub paused_at: Option<i64>,
    /// Duration accumulated by earlier segments.
    pub elapsed_time: Option<i64>,
}

/// The time log that a finished session yields.
#[derive(Clone, Copy, Debug, PartialEq, Eq, Structural)]
pub struct SessionLog {
    pub ticket_id: i64,
    pub hours: i32,
    pub minutes: i32,
    pub started_at: i64,
    pub ended_at: i64,
}

pub open spec fn clamp_i64(x: int) -> i64 {
    if x < i64::MIN {
        i64::MIN
    } else if x > i64::MAX {
        i64::MAX
    } else {
        x as i64
    }
}

/// Duration accumulated before the current segment.
pub open spec fn elapsed_of(s: TimeTrackingState) -> int {
    match s.elapsed_time {
        Some(e) => e as int,
        None => 0,
    }
}

/// Where the current segment ends: the pause instant, or `now` while running.
pub open spec fn segment_end(s: TimeTrackingState, now: i64) -> i64 {
    match s.paused_at {
        Some(p) => p,
        None => now,
    }
}

/// Total tracked duration as of `now`.
pub open spec fn total_ms(s: TimeTrackingState, now: i64) -> int {
    elapsed_of(s) + (segment_end(s, now) - s.start_time)
}

/// Whole minutes of a duration, rounded down.
pub open spec fn whole_minutes(ms: int) -> int {
    ms / (MS_PER_MINUTE as int)
}

pub open spec fn hours_of(ms: int) -> int {
    whole_minutes(ms) / 60
}

pub open spec fn minutes_of(ms: int) -> int {
    whole_minutes(ms) % 60
}

pub open spec fn started(now: i64) -> TimeTrackingState {
    TimeTrackingState { start_time: now, paused_at: None, elapsed_time: None }
}

pub open spec fn paused(s: TimeTrackingState, now: i64) -> TimeTrackingState {
    TimeTrackingState { paused_at: Some(now), ..s }
}

/// The segment that ended at the pause is folded into `elapsed_time` and a
/// new segment starts at `now`.
pub open spec fn resumed(s: TimeTrackingState, now: i64) -> TimeTrackingState {
    TimeTrackingState {
        start_time: now,
        paused_at: None,
        elapsed_time: Some(clamp_i64(elapsed_of(s) + (segment_end(s, now) - s.start_time))),
    }
}

/// The log that stopping `s` for ticket `id` at `now` yields, when its
/// duration is a valid time.
pub open spec fn session_log(id: i64, s: TimeTrackingState, now: i64) -> SessionLog {
    SessionLog {
        ticket_id: id,
        hours: hours_of(total_ms(s, now)) as i32,
        minutes: minutes_of(total_ms(s, now)) as i32,
        started_at: s.start_time,
        ended_at: segment_end(s, now),
    }
}

pub open spec fn stop_accepted(s: TimeTrackingState, now: i64) -> bool {
    valid_time(hours_of(total_ms(s, now)), minutes_of(total_ms(s, now)))
}

/// Rounds a division down, as `/` and `%` do on mathematical integers.
fn floor_div_mod(a: i128, b: i128) -> (r: (i128, i128))
    requires
        b > 0,
        a > i128::MIN,
    ensures
        r.0 == a as int / b as int,
        r.1 == a as int % b as int,
        0 <= r.1 < b,
        a >= 0 ==> 0 <= r.0 <= a,
        a < 0 ==> a <= r.0 < 0,
{
    if a >= 0 {
        let q = a / b;
        let m = a % b;
        proof {
            lemma_fundamental_div_mod(a as int, b as int);
            assert(0 <= q <= a) by (nonlinear_arith)
                requires
                    a == b * q + m,
                    0 <= m < b,
                    a >= 0,
            ;
        }
        (q, m)
    } else {
        let n = -a - 1;
        let q = n / b;
        let m = n % b;
        proof {
            lemma_fundamental_div_mod(n as int, b as int);
            assert(a == (-q - 1) * b + (b - 1 - m)) by (nonlinear_arith)
                requires
                    n == b * q + m,
                    a == -n - 1,
            ;
            lemma_fundamental_div_mod_converse(a as int, b as int, -q - 1, b - 1 - m);
            assert(0 <= q <= n) by (nonlinear_arith)
                requires
                    n == b * q + m,
                    0 <= m < b,
                    n >= 0,
            ;
        }
        (-q - 1, b - 1 - m)
    }
}

/// Hours and minutes of the tracked duration of `s` as of `now`, the same
/// figure that stopping at `now` would log.
pub fn current_duration(s: &TimeTrackingState, now: i64) -> (r: (i64, i64))
    ensures
        r.0 == hours_of(total_ms(*s, now)),
        r.1 == minutes_of(total_ms(*s, now)),
{
    let elapsed: i128 = match s.elapsed_time {
        Some(e) => e as i128,
        None => 0,
    };
    let end: i128 = match s.paused_at {
        Some(p) => p as i128,
        None => now as i128,
    };
    let total = elapsed + (end - s.start_time as i128);
    let (w, _) = floor_div_mod(total, MS_PER_MINUTE);
    let (h, m) = floor_div_mod(w, 60);
    (h as i64, m as i64)
}


/// What a pause request did.
#[derive(Clone, Copy, Debug, PartialEq, Eq, Structural)]
pub enum PauseOutcome {
    Paused,
    AlreadyPaused,
    NotTracked,
}

/// What a resume request did.
#[derive(Clone, Copy, Debug, PartialEq, Eq, Structural)]
pub enum ResumeOutcome {
    Resumed,
    NotPaused,
    NotTracked,
}

/// What a stop request did.
#[derive(Debug)]
pub enum StopOutcome {
    /// The session ended and this log is to be persisted.
    Logged(SessionLog),
    /// The duration is not a loggable time; the session is kept.
    Rejected(ValidationError),
    NotTracked,
}

/// The tracking sessions in progress, at most one per ticket id, kept in the
/// order in which they were started.
#[derive(Debug)]
pub struct TimeTracker {
    ids: Vec<i64>,
    states: Vec<TimeTrackingState>,
}

pub open spec fn distinct(ids: Seq<i64>) -> bool {
    forall|i: int, j: int| 0 <= i < ids.len() && 0 <= j < ids.len() && i != j ==> ids[i] != ids[j]
}

pub open spec fn map_of(ids: Seq<i64>, states: Seq<TimeTrackingState>) -> Map<i64, TimeTrackingState> {
    Map::new(
        |k: i64| ids.contains(k),
        |k: i64| states[choose|i: int| 0 <= i < ids.len() && ids[i] == k],
    )
}

proof fn lemma_map_at(ids: Seq<i64>, states: Seq<TimeTrackingState>, i: int)
    requires
        distinct(ids),
        ids.len() == states.len(),
        0 <= i < ids.len(),
    ensures
        map_of(ids, states).contains_key(ids[i]),
        map_of(ids, states)[ids[i]] == states[i],
{
    assert(ids.contains(ids[i]));
    let j = choose|j: int| 0 <= j < ids.len() && ids[j] == ids[i];
    assert(j == i);
}

proof fn lemma_map_set(ids: Seq<i64>, states: Seq<TimeTrackingState>, i: int, v: TimeTrackingState)
    requires
        distinct(ids),
        ids.len() == states.len(),
        0 <= i < ids.len(),
    ensures
        map_of(ids, states.update(i, v)) == map_of(ids, states).insert(ids[i], v),
{
    let a = map_of(ids, states.update(i, v));
    let b = map_of(ids, states).insert(ids[i], v);
    assert forall|k: i64| #[trigger] a.contains_key(k) implies a[k] == b[k] by {
        let j = choose|j: int| 0 <= j < ids.len() && ids[j] == k;
        lemma_map_at(ids, states.update(i, v), j);
        lemma_map_at(ids, states, j);
    }
    assert(a =~= b);
}

proof fn lemma_map_push(ids: Seq<i64>, states: Seq<TimeTrackingState>, k: i64, v: TimeTrackingState)
    requires
        distinct(ids),
        ids.len() == states.len(),
        !ids.contains(k),
    ensures
        distinct(ids.push(k)),
        map_of(ids.push(k), states.push(v)) == map_of(ids, states).insert(k, v),
{
    let n = ids.len() as int;
    assert forall|i: int, j: int|
        0 <= i < ids.push(k).len() && 0 <= j < ids.push(k).len() && i != j implies ids.push(k)[i]
        != ids.push(k)[j] by {
        if i == n {
            assert(ids.contains(ids[j]));
        } else if j == n {
            assert(ids.contains(ids[i]));
        }
    }
    let a = map_of(ids.push(k), states.push(v));
    let b = map_of(ids, states).insert(k, v);
    assert forall|x: i64| a.contains_key(x) <==> b.contains_key(x) by {
        if ids.contains(x) {
            let j = choose|j: int| 0 <= j < ids.len() && ids[j] == x;
            assert(ids.push(k)[j] == x);
        }
        if ids.push(k).contains(x) && x != k {
            let j = choose|j: int| 0 <= j < ids.push(k).len() && ids.push(k)[j] == x;
            assert(ids[j] == x);
        }
        assert(ids.push(k)[n] == k);
    }
    assert forall|x: i64| #[trigger] a.contains_key(x) implies a[x] == b[x] by {
        let j = choose|j: int| 0 <= j < ids.push(k).len() && ids.push(k)[j] == x;
        lemma_map_at(ids.push(k), states.push(v), j);
        if j < n {
            lemma_map_at(ids, states, j);
        }
    }
    assert(a =~= b);
}

proof fn lemma_map_remove(ids: Seq<i64>, states: Seq<TimeTrackingState>, i: int)
    requires
        distinct(ids),
        ids.len() == states.len(),
        0 <= i < ids.len(),
    ensures
        distinct(ids.remove(i)),
        map_of(ids.remove(i), states.remove(i)) == map_of(ids, states).remove(ids[i]),
{
    let r = ids.remove(i);
    assert forall|p: int, q: int| 0 <= p < r.len() && 0 <= q < r.len() && p != q implies r[p] != r[q] by {
        let old_p = if p < i { p } else { p + 1 };
        let old_q = if q < i { q } else { q + 1 };
        assert(r[p] == ids[old_p] && r[q] == ids[old_q]);
    }
    let a = map_of(r, states.remove(i));
    let b = map_of(ids, states).remove(ids[i]);
    assert forall|x: i64| a.contains_key(x) <==> b.contains_key(x) by {
        if r.contains(x) {
            let p = choose|p: int| 0 <= p < r.len() && r[p] == x;
            let old_p = if p < i { p } else { p + 1 };
            assert(ids[old_p] == x);
            assert(ids.contains(x));
        }
        if ids.contains(x) && x != ids[i] {
            let p = choose|p: int| 0 <= p < ids.len() && ids[p] == x;
            let new_p = if p < i { p } else { p - 1 };
            assert(r[new_p] == x);
        }
    }
    assert forall|x: i64| #[trigger] a.contains_key(x) implies a[x] == b[x] by {
        let p = choose|p: int| 0 <= p < r.len() && r[p] == x;
        let old_p = if p < i { p } else { p + 1 };
        lemma_map_at(r, states.remove(i), p);
        lemma_map_at(ids, states, old_p);
    }
    assert(a =~= b);
}

impl View for TimeTracker {
    type V = Map<i64, TimeTrackingState>;

    closed spec fn view(&self) -> Map<i64, TimeTrackingState> {
        map_of(self.ids@, self.states@)
    }
}

impl TimeTracker {
    /// Ticket ids with a session, in the order the sessions were started.
    pub closed spec fn order(&self) -> Seq<i64> {
        self.ids@
    }

    pub closed spec fn wf(&self) -> bool {
        &&& self.ids@.len() == self.states@.len()
        &&& distinct(self.ids@)
    }

    /// The order lists each tracked id once.
    pub proof fn lemma_order(&self)
        requires
            self.wf(),
        ensures
            distinct(self.order()),
            forall|k: i64| self@.contains_key(k) <==> self.order().contains(k),
    {
    }

    pub fn new() -> (r: TimeTracker)
        ensures
            r.wf(),
            r@ == Map::<i64, TimeTrackingState>::empty(),
            r.order() == Seq::<i64>::empty(),
    {
        let r = TimeTracker { ids: Vec::new(), states: Vec::new() };
        assert(r@ =~= Map::<i64, TimeTrackingState>::empty());
        r
    }

    pub fn len(&self) -> (r: usize)
        requires
            self.wf(),
        ensures
            r == self@.len(),
            r == self.order().len(),
    {
        proof {
            self.lemma_len();
        }
        self.ids.len()
    }

    proof fn lemma_len(&self)
        requires
            self.wf(),
        ensures
            self@.len() == self.ids@.len(),
        decreases self.ids@.len(),
    {
        self.ids@.unique_seq_to_set();
        assert(self@.dom() =~= self.ids@.to_set());
    }

    fn index_of(&self, id: i64) -> (r: Option<usize>)
        requires
            self.wf(),
        ensures
            match r {
                Some(i) => i < self.ids@.len() && self.ids@[i as int] == id,
                None => !self@.contains_key(id),
            },
    {
        let mut i: usize = 0;
        while i < self.ids.len()
            invariant
                self.wf(),
                i <= self.ids@.len(),
                forall|j: int| 0 <= j < i ==> self.ids@[j] != id,
            decreases self.ids@.len() - i,
        {
            if self.ids[i] == id {
                return Some(i);
            }
            i = i + 1;
        }
        None
    }

    /// The session of ticket `id`, if one is in progress.
    pub fn get(&self, id: i64) -> (r: Option<TimeTrackingState>)
        requires
            self.wf(),
        ensures
            match r {
                Some(s) => self@.contains_key(id) && self@[id] == s,
                None => !self@.contains_key(id),
            },
    {
        match self.index_of(id) {
            Some(i) => {
                proof {
                    lemma_map_at(self.ids@, self.states@, i as int);
                }
                Some(self.states[i])
            },
            None => None,
        }
    }

    /// The tracked ticket ids, in the order their sessions were started.
    pub fn tracked_ids(&self) -> (r: Vec<i64>)
        requires
            self.wf(),
        ensures
            r@ == self.order(),
    {
        self.ids.clone()
    }

    fn put_at(&mut self, i: usize, s: TimeTrackingState)
        requires
            old(self).wf(),
            i < old(self).ids@.len(),
        ensures
            final(self).wf(),
            final(self)@ == old(self)@.insert(old(self).ids@[i as int], s),
            final(self).order() == old(self).order(),
    {
        proof {
            lemma_map_set(self.ids@, self.states@, i as int, s);
        }
        self.states.set(i, s);
    }

    fn remove_at(&mut self, i: usize)
        requires
            old(self).wf(),
            i < old(self).ids@.len(),
        ensures
            final(self).wf(),
            final(self)@ == old(self)@.remove(old(self).ids@[i as int]),
            final(self).order() == old(self).order().remove(i as int),
    {
        proof {
            lemma_map_remove(self.ids@, self.states@, i as int);
        }
        self.ids.remove(i);
        self.states.remove(i);
    }

    /// Starts a session for `id` at `now`, replacing any session already in
    /// progress for it (its unsaved time is lost); returns the replaced one.
    pub fn start(&mut self, id: i64, now: i64) -> (r: Option<TimeTrackingState>)
        requires
            old(self).wf(),
        ensures
            final(self).wf(),
            final(self)@ == old(self)@.insert(id, started(now)),
            match r {
                Some(s) => old(self)@.contains_key(id) && old(self)@[id] == s,
                None => !old(self)@.contains_key(id),
            },
    {
        let fresh = TimeTrackingState { start_time: now, paused_at: None, elapsed_time: None };
        match self.index_of(id) {
            Some(i) => {
                proof {
                    lemma_map_at(self.ids@, self.states@, i as int);
                }
                let prev = self.states[i];
                self.put_at(i, fresh);
                Some(prev)
            },
            None => {
                proof {
                    lemma_map_push(self.ids@, self.states@, id, fresh);
                }
                self.ids.push(id);
                self.states.push(fresh);
                None
            },
        }
    }

    /// Pauses the running session of `id` at `now`. A session that is
    /// already paused, or none at all, is left as it is.
    pub fn pause(&mut self, id: i64, now: i64) -> (r: PauseOutcome)
        requires
            old(self).wf(),
        ensures
            final(self).wf(),
            final(self).order() == old(self).order(),
            !old(self)@.contains_key(id) ==> r == PauseOutcome::NotTracked && final(self)@ == old(
                self,
            )@,
            old(self)@.contains_key(id) && old(self)@[id].paused_at is Some ==> r
                == PauseOutcome::AlreadyPaused && final(self)@ == old(self)@,
            old(self)@.contains_key(id) && old(self)@[id].paused_at is None ==> r
                == PauseOutcome::Paused && final(self)@ == old(self)@.insert(
                id,
                paused(old(self)@[id], now),
            ),
    {
        match self.index_of(id) {
            Some(i) => {
                proof {
                    lemma_map_at(self.ids@, self.states@, i as int);
                }
                let s = self.states[i];
                if s.paused_at.is_some() {
                    PauseOutcome::AlreadyPaused
                } else {
                    self.put_at(i, TimeTrackingState { paused_at: Some(now), ..s });
                    PauseOutcome::Paused
                }
            },
            None => PauseOutcome::NotTracked,
        }
    }

    /// Resumes the paused session of `id` at `now`: the segment that ended at
    /// the pause is added to the elapsed time. A running session, or none at
    /// all, is left as it is.
    pub fn resume(&mut self, id: i64, now: i64) -> (r: ResumeOutcome)
        requires
            old(self).wf(),
        ensures
            final(self).wf(),
            final(self).order() == old(self).order(),
            !old(self)@.contains_key(id) ==> r == ResumeOutcome::NotTracked && final(self)@ == old(
                self,
            )@,
            old(self)@.contains_key(id) && old(self)@[id].paused_at is None ==> r
                == ResumeOutcome::NotPaused && final(self)@ == old(self)@,
            old(self)@.contains_key(id) && old(self)@[id].paused_at is Some ==> r
                == ResumeOutcome::Resumed && final(self)@ == old(self)@.insert(
                id,
                resumed(old(self)@[id], now),
            ),
    {
        match self.index_of(id) {
            Some(i) => {
                proof {
                    lemma_map_at(self.ids@, self.states@, i as int);
                }
                let s = self.states[i];
                match s.paused_at {
                    Some(p) => {
                        let prior: i128 = match s.elapsed_time {
                            Some(e) => e as i128,
                            None => 0,
                        };
                        let sum: i128 = prior + (p as i128 - s.start_time as i128);
                        let elapsed: i64 = if sum < i64::MIN as i128 {
                            i64::MIN
                        } else if sum > i64::MAX as i128 {
                            i64::MAX
                        } else {
                            sum as i64
                        };
                        self.put_at(
                            i,
                            TimeTrackingState {
                                start_time: now,
                                paused_at: None,
                                elapsed_time: Some(elapsed),
                            },
                        );
                        ResumeOutcome::Resumed
                    },
                    None => ResumeOutcome::NotPaused,
                }
            },
            None => ResumeOutcome::NotTracked,
        }
    }

    /// Ends the session of `id` at `now`. When its duration is a valid time
    /// the session is removed and its log returned; otherwise it is kept and
    /// the duration is reported as invalid.
    pub fn stop(&mut self, id: i64, now: i64) -> (r: StopOutcome)
        requires
            old(self).wf(),
        ensures
            final(self).wf(),
            !old(self)@.contains_key(id) ==> r is NotTracked && final(self)@ == old(self)@
                && final(self).order() == old(self).order(),
            old(self)@.contains_key(id) ==> stop_result(id, old(self)@[id], now, r),
            old(self)@.contains_key(id) && stop_accepted(old(self)@[id], now) ==> final(self)@
                == old(self)@.remove(id),
            old(self)@.contains_key(id) && !stop_accepted(old(self)@[id], now) ==> final(self)@
                == old(self)@ && final(self).order() == old(self).order(),
    {
        match self.index_of(id) {
            Some(i) => {
                proof {
                    lemma_map_at(self.ids@, self.states@, i as int);
                }
                let s = self.states[i];
                let (hours, minutes) = current_duration(&s, now);
                if 0 <= hours && hours <= 24 && 0 <= minutes && minutes <= 59 {
                    self.remove_at(i);
                    let end = match s.paused_at {
                        Some(p) => p,
                        None => now,
                    };
                    StopOutcome::Logged(
                        SessionLog {
                            ticket_id: id,
                            hours: hours as i32,
                            minutes: minutes as i32,
                            started_at: s.start_time,
                            ended_at: end,
                        },
                    )
                } else {
                    StopOutcome::Rejected(ValidationError::InvalidTime(time_to_text(hours, minutes)))
                }
            },
            None => StopOutcome::NotTracked,
        }
    }

    /// Discards the session of `id` without logging it; true when there was one.
    pub fn cancel(&mut self, id: i64) -> (r: bool)
        requires
            old(self).wf(),
        ensures
            final(self).wf(),
            r == old(self)@.contains_key(id),
            final(self)@ == old(self)@.remove(id),
    {
        match self.index_of(id) {
            Some(i) => {
                self.remove_at(i);
                true
            },
            None => {
                assert(old(self)@.remove(id) =~= old(self)@);
                false
            },
        }
    }
}

/// A session in progress as the active-timer display shows it.
#[derive(Clone, Copy, Debug, PartialEq, Eq, Structural)]
pub struct ActiveTimer {
    pub ticket_id: i64,
    pub hours: i64,
    pub minutes: i64,
    pub paused: bool,
}

impl TimeTracker {
    /// Stops every session in progress, each independently of the others, in
    /// the order the sessions were started. A session whose duration is not a
    /// valid time stays; every other one is finalized.
    pub fn stop_all(&mut self, now: i64) -> (r: Vec<(i64, StopOutcome)>)
        requires
            old(self).wf(),
        ensures
            final(self).wf(),
            r@.len() == old(self).order().len(),
            forall|j: int|
                0 <= j < r@.len() ==> #[trigger] r@[j].0 == old(self).order()[j] && stop_result(
                    r@[j].0,
                    old(self)@[r@[j].0],
                    now,
                    r@[j].1,
                ),
            forall|k: i64|
                #[trigger] final(self)@.contains_key(k) <==> old(self)@.contains_key(k) && !stop_accepted(
                    old(self)@[k],
                    now,
                ),
            forall|k: i64| #[trigger] final(self)@.contains_key(k) ==> final(self)@[k] == old(self)@[k],
    {
        let snap = self.tracked_ids();
        let ghost start = *self;
        proof {
            start.lemma_order();
        }
        let mut r: Vec<(i64, StopOutcome)> = Vec::new();
        let mut i: usize = 0;
        while i < snap.len()
            invariant
                self.wf(),
                start.wf(),
                snap@ == start.order(),
                distinct(snap@),
                forall|k: i64| start@.contains_key(k) <==> snap@.contains(k),
                i <= snap@.len(),
                r@.len() == i,
                forall|j: int|
                    0 <= j < i ==> #[trigger] r@[j].0 == snap@[j] && stop_result(
                        r@[j].0,
                        start@[r@[j].0],
                        now,
                        r@[j].1,
                    ),
                forall|k: i64|
                    #[trigger] self@.contains_key(k) <==> start@.contains_key(k) && !(
                    snap@.subrange(0, i as int).contains(k) && stop_accepted(start@[k], now)),
                forall|k: i64| #[trigger] self@.contains_key(k) ==> self@[k] == start@[k],
            decreases snap@.len() - i,
        {
            let id = snap[i];
            proof {
                assert(snap@.contains(id));
                let s0 = snap@.subrange(0, i as int);
                assert(!s0.contains(id)) by {
                    if s0.contains(id) {
                        let j = choose|j: int| 0 <= j < s0.len() && s0[j] == id;
                        assert(snap@[j] == id);
                    }
                }
                assert(self@.contains_key(id));
            }
            let ghost before = *self;
            let o = self.stop(id, now);
            proof {
                let s0 = snap@.subrange(0, i as int);
                let s1 = snap@.subrange(0, i + 1);
                assert forall|k: i64| #[trigger] s1.contains(k) <==> (s0.contains(k) || k == id) by {
                    if s1.contains(k) {
                        let j = choose|j: int| 0 <= j < s1.len() && s1[j] == k;
                        if j < i {
                            assert(s0[j] == k);
                        }
                    }
                    if s0.contains(k) {
                        let j = choose|j: int| 0 <= j < s0.len() && s0[j] == k;
                        assert(s1[j] == k);
                    }
                    if k == id {
                        assert(s1[i as int] == k);
                    }
                }
            }
            r.push((id, o));
            i = i + 1;
        }
        proof {
            assert(snap@.subrange(0, snap@.len() as int) =~= snap@);
        }
        r
    }

    /// Discards every session in progress; returns their ids in the order
    /// the sessions were started.
    pub fn cancel_all(&mut self) -> (r: Vec<i64>)
        requires
            old(self).wf(),
        ensures
            final(self).wf(),
            r@ == old(self).order(),
            final(self)@ == Map::<i64, TimeTrackingState>::empty(),
    {
        let r = self.tracked_ids();
        *self = TimeTracker::new();
        r
    }

    /// Every session in progress with its duration as of `now`, computed as
    /// stopping would compute it; nothing is changed.
    pub fn active_timers(&self, now: i64) -> (r: Vec<ActiveTimer>)
        requires
            self.wf(),
        ensures
            r@.len() == self.order().len(),
            forall|j: int|
                0 <= j < r@.len() ==> {
                    let t = #[trigger] r@[j];
                    &&& t.ticket_id == self.order()[j]
                    &&& self@.contains_key(t.ticket_id)
                    &&& t.hours == hours_of(total_ms(self@[t.ticket_id], now))
                    &&& t.minutes == minutes_of(total_ms(self@[t.ticket_id], now))
                    &&& t.paused == self@[t.ticket_id].paused_at is Some
                },
    {
        let mut r: Vec<ActiveTimer> = Vec::new();
        let mut i: usize = 0;
        while i < self.ids.len()
            invariant
                self.wf(),
                i <= self.ids@.len(),
                r@.len() == i,
                forall|j: int|
                    0 <= j < i ==> {
                        let t = #[trigger] r@[j];
                        &&& t.ticket_id == self.order()[j]
                        &&& self@.contains_key(t.ticket_id)
                        &&& t.hours == hours_of(total_ms(self@[t.ticket_id], now))
                        &&& t.minutes == minutes_of(total_ms(self@[t.ticket_id], now))
                        &&& t.paused == self@[t.ticket_id].paused_at is Some
                    },
            decreases self.ids@.len() - i,
        {
            proof {
                lemma_map_at(self.ids@, self.states@, i as int);
            }
            let s = self.states[i];
            let (hours, minutes) = current_duration(&s, now);
            r.push(
                ActiveTimer {
                    ticket_id: self.ids[i],
                    hours,
                    minutes,
                    paused: s.paused_at.is_some(),
                },
            );
            i = i + 1;
        }
        r
    }
}

/// `o` is what stopping session `s` of ticket `id` at `now` must report.
pub open spec fn stop_result(id: i64, s: TimeTrackingState, now: i64, o: StopOutcome) -> bool {
    match o {
        StopOutcome::Logged(l) => stop_accepted(s, now) && l == session_log(id, s, now),
        StopOutcome::Rejected(e) => !stop_accepted(s, now) && (e matches ValidationError::InvalidTime(t)
            && t@ == time_text(hours_of(total_ms(s, now)), minutes_of(total_ms(s, now)))),
        StopOutcome::NotTracked => false,
    }
}


/// The state reached from `s` by pausing at `c[i].0` and resuming at `c[i].1`
/// for each cycle `c[i]` in turn.
pub open spec fn run_cycles(s: TimeTrackingState, c: Seq<(i64, i64)>) -> TimeTrackingState
    decreases c.len(),
{
    if c.len() == 0 {
        s
    } else {
        resumed(paused(run_cycles(s, c.drop_last()), c.last().0), c.last().1)
    }
}

/// The clock never runs backwards across the cycles: each pause comes at or
/// after the start of its segment, each resume at or after its pause.
pub open spec fn clock_ordered(start: i64, c: Seq<(i64, i64)>) -> bool {
    &&& forall|i: int| 0 <= i < c.len() ==> (#[trigger] c[i]).0 <= c[i].1
    &&& c.len() > 0 ==> start <= c[0].0
    &&& forall|i: int| 0 < i < c.len() ==> c[i - 1].1 <= (#[trigger] c[i]).0
}

proof fn lemma_cycle_step(s: TimeTrackingState, c: Seq<(i64, i64)>, k: int)
    requires
        clock_ordered(s.start_time, c),
        0 <= k < c.len(),
    ensures
        elapsed_of(run_cycles(s, c.take(k))) <= elapsed_of(run_cycles(s, c.take(k + 1))),
        run_cycles(s, c.take(k + 1)).paused_at is None,
{
    let a = run_cycles(s, c.take(k));
    assert(c.take(k + 1).drop_last() =~= c.take(k));
    assert(c.take(k + 1).last() == c[k]);
    if k > 0 {
        assert(c.take(k).drop_last() =~= c.take(k - 1));
        assert(c.take(k).last() == c[k - 1]);
        assert(a.start_time == c[k - 1].1);
    } else {
        assert(c.take(0) =~= Seq::<(i64, i64)>::empty());
    }
    assert(a.start_time <= c[k].0);
}

/// Cycling a running session through pause and resume only ever adds to its
/// elapsed time, however many cycles there are, as long as the clock does
/// not run backwards.
pub proof fn lemma_elapsed_monotone(s: TimeTrackingState, c: Seq<(i64, i64)>, k1: int, k2: int)
    requires
        s.paused_at is None,
        clock_ordered(s.start_time, c),
        0 <= k1 <= k2 <= c.len(),
    ensures
        elapsed_of(run_cycles(s, c.take(k1))) <= elapsed_of(run_cycles(s, c.take(k2))),
        run_cycles(s, c.take(k2)).paused_at is None,
    decreases k2 - k1,
{
    if k1 < k2 {
        lemma_cycle_step(s, c, k2 - 1);
        lemma_elapsed_monotone(s, c, k1, k2 - 1);
    } else if k2 == 0 {
        assert(c.take(0) =~= Seq::<(i64, i64)>::empty());
    } else {
        lemma_cycle_step(s, c, k2 - 1);
    }
}


/// Where the running segment after the cycles `c` starts, for a session
/// started at `t0`.
pub open spec fn segment_start(t0: i64, c: Seq<(i64, i64)>) -> int {
    if c.len() == 0 {
        t0 as int
    } else {
        c.last().1 as int
    }
}

/// The running time of the segments that the cycles `c` closed: from each
/// segment's start to the pause that ended it.
pub open spec fn running_time(t0: i64, c: Seq<(i64, i64)>) -> int
    decreases c.len(),
{
    if c.len() == 0 {
        0
    } else {
        running_time(t0, c.drop_last()) + (c.last().0 - segment_start(t0, c.drop_last()))
    }
}

proof fn lemma_cycles_elapsed(t0: i64, c: Seq<(i64, i64)>)
    requires
        clock_ordered(t0, c),
        c.len() > 0 ==> c.last().1 - t0 <= i64::MAX,
    ensures
        elapsed_of(run_cycles(started(t0), c)) == running_time(t0, c),
        run_cycles(started(t0), c).start_time == segment_start(t0, c),
        run_cycles(started(t0), c).paused_at is None,
        0 <= running_time(t0, c) <= segment_start(t0, c) - t0,
    decreases c.len(),
{
    if c.len() > 0 {
        let d = c.drop_last();
        assert forall|i: int| 0 <= i < d.len() implies (#[trigger] d[i]).0 <= d[i].1 by {
            assert(d[i] == c[i]);
        }
        assert forall|i: int| 0 < i < d.len() implies d[i - 1].1 <= (#[trigger] d[i]).0 by {
            assert(d[i] == c[i] && d[i - 1] == c[i - 1]);
        }
        if d.len() > 0 {
            assert(d[0] == c[0]);
            assert(d.last() == c[d.len() - 1]);
            assert(c[d.len() - 1].1 <= c[d.len() as int].0);
            assert(c[d.len() as int] == c.last());
        } else {
            assert(c[0] == c.last());
        }
        lemma_cycles_elapsed(t0, d);
    }
}

/// However many times a session is paused and resumed, the time it has
/// accumulated at a pause is exactly the sum of its running segments: the
/// paused intervals are never counted, and stopping at that pause logs this
/// sum. The clock must not run backwards, and the session must span no more
/// than `i64` milliseconds.
pub proof fn lemma_accumulates_running_time(t0: i64, c: Seq<(i64, i64)>, p: i64)
    requires
        clock_ordered(t0, c),
        segment_start(t0, c) <= p,
        p - t0 <= i64::MAX,
    ensures
        elapsed_of(run_cycles(started(t0), c)) == running_time(t0, c),
        total_ms(paused(run_cycles(started(t0), c), p), p) == running_time(t0, c) + (p
            - segment_start(t0, c)),
        total_ms(paused(run_cycles(started(t0), c), p), p) == running_time(
            t0,
            c.push((p, p)),
        ),
{
    lemma_cycles_elapsed(t0, c);
    assert(c.push((p, p)).drop_last() =~= c);
}

/// Resuming adds exactly the segment that ended at the pause to the elapsed
/// time, when the sum fits in `i64`; a segment that does not run backwards
/// never lowers it.
pub proof fn lemma_resume_exact(s: TimeTrackingState, now: i64)
    requires
        s.paused_at is Some,
        i64::MIN <= elapsed_of(s) + (s.paused_at->0 - s.start_time) <= i64::MAX,
    ensures
        resumed(s, now).elapsed_time == Some(
            (elapsed_of(s) + (s.paused_at->0 - s.start_time)) as i64,
        ),
        s.start_time <= s.paused_at->0 ==> elapsed_of(s) <= elapsed_of(resumed(s, now)),
{
}

/// Stopping after a pause and a resume counts the two running segments and
/// not the paused interval between them.
pub proof fn lemma_pause_not_counted(t0: i64, p: i64, r: i64, now: i64)
    requires
        t0 <= p <= r <= now,
        p - t0 <= i64::MAX,
    ensures
        total_ms(resumed(paused(started(t0), p), r), now) == (p - t0) + (now - r),
        total_ms(paused(resumed(paused(started(t0), p), r), now), now) == (p - t0) + (now - r),
{
}

} // verus!
