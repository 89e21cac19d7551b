//! Free-form duration strings such as `2h30m`, `90m` or `1.5`.

use vstd::prelude::*;
use crate::text::{all_digits, digit_value, digits_value, find_char, first_index, i64_value, is_digit, lemma_value_front, parse_i64, pow10, scan_digits};
use vstd::arithmetic::div_mod::{lemma_div_denominator, lemma_hoist_over_denominator};
use crate::validation::{valid_time, validate_time, ValidationError};

verus! {

/// Why a duration string was refused.
#[derive(Debug)]
pub enum DurationError {
    /// The text follows neither the unit form nor the decimal form.
    InvalidFormat,
    /// The text parsed, but the hours or minutes are out of range.
    InvalidTime(ValidationError),
}

/// The integer that `s` writes when it fits in an `i32`, else zero.
pub open spec fn i32_or_zero(s: Seq<char>) -> i32 {
    match i64_value(s) {
        Some(n) => if i32::MIN <= n && n <= i32::MAX {
            n as i32
        } else {
            0
        },
        None => 0,
    }
}

/// ⌊60 × 0.s⌋ for a run of decimal digits `s`: the fraction `0.s` of an
/// hour in whole minutes, truncated.
pub open spec fn fraction_minutes(s: Seq<char>) -> nat {
    (60 * digits_value(s)) / pow10(s.len())
}

proof fn lemma_pow10_positive(k: nat)
    ensures
        pow10(k) > 0,
    decreases k,
{
    if k > 0 {
        lemma_pow10_positive((k - 1) as nat);
    }
}

/// The minutes of a fraction follow from its first digit and the minutes
/// of the rest, so they can be computed from the last digit up.
proof fn lemma_fraction_step(s: Seq<char>)
    requires
        s.len() > 0,
    ensures
        fraction_minutes(s) == (60 * digit_value(s[0]) + fraction_minutes(s.skip(1))) / 10,
{
    let m = (s.len() - 1) as nat;
    lemma_value_front(s);
    lemma_pow10_positive(m);
    let p = pow10(m) as int;
    let d = digit_value(s[0]) as int;
    let t = digits_value(s.skip(1)) as int;
    assert(s.skip(1).len() == m);
    assert(pow10(s.len()) == 10 * p);
    assert(60 * (d * p + t) == 60 * t + (60 * d) * p) by (nonlinear_arith);
    lemma_hoist_over_denominator(60 * t, 60 * d, p as nat);
    lemma_div_denominator(60 * t + (60 * d) * p, p, 10);
    assert(p * 10 == 10 * p);
}

pub open spec fn digits_or_empty(s: Seq<char>) -> bool {
    forall|i: int| 0 <= i < s.len() ==> is_digit(#[trigger] s[i])
}

/// What the text before `h` gives as (hours, minutes): an `i32` integer is
/// whole hours; otherwise a decimal gives its whole part as hours and its
/// fraction times 60, truncated, as minutes; anything else gives nothing.
pub open spec fn hour_part(t: Seq<char>) -> (i32, i32) {
    match i64_value(t) {
        Some(n) => if i32::MIN <= n && n <= i32::MAX {
            (n as i32, 0)
        } else {
            hour_part_decimal(t)
        },
        None => hour_part_decimal(t),
    }
}

pub open spec fn hour_part_decimal(t: Seq<char>) -> (i32, i32) {
    match decimal_form(t) {
        Some(v) => v,
        None => (0, 0),
    }
}

pub open spec fn clamp_i32(x: int) -> i32 {
    if x < i32::MIN {
        i32::MIN
    } else if x > i32::MAX {
        i32::MAX
    } else {
        x as i32
    }
}

/// The unit form: hours (possibly fractional) before the first `h`,
/// minutes between the `h` (or the start) and the first `m`; a part that is
/// absent or unreadable is zero. Minutes from a fractional hour are added to
/// the minutes part, the sum held within `i32`.
pub open spec fn unit_form(s: Seq<char>) -> (i32, i32) {
    let hp = match first_index(s, 'h') {
        Some(p) => hour_part(s.subrange(0, p)),
        None => (0i32, 0i32),
    };
    let start = match first_index(s, 'h') {
        Some(p) => p + 1,
        None => 0,
    };
    let minutes = match first_index(s, 'm') {
        Some(q) => if start <= q {
            i32_or_zero(s.subrange(start, q))
        } else {
            0
        },
        None => 0,
    };
    (hp.0, clamp_i32(hp.1 + minutes))
}

/// The digits of a decimal number after its sign: the whole part and the
/// fraction, split at the first `.`.
pub open spec fn decimal_split(body: Seq<char>) -> (Seq<char>, Seq<char>) {
    match first_index(body, '.') {
        Some(d) => (body.subrange(0, d), body.subrange(d + 1, body.len() as int)),
        None => (body, Seq::<char>::empty()),
    }
}

/// The decimal form: an optional sign, digits, an optional `.` and more
/// digits, with at least one digit. Only plain decimal notation is taken:
/// no exponent part, and no `inf` or `nan`. The whole part gives the hours and the
/// fraction times 60, truncated, the minutes; a `-` negates both.
pub open spec fn decimal_form(s: Seq<char>) -> Option<(i32, i32)> {
    let signed = s.len() > 0 && (s[0] == '-' || s[0] == '+');
    let body = if signed { s.skip(1) } else { s };
    let whole = decimal_split(body).0;
    let frac = decimal_split(body).1;
    if whole.len() + frac.len() > 0 && digits_or_empty(whole) && digits_or_empty(frac)
        && digits_value(whole) <= i32::MAX {
        if signed && s[0] == '-' {
            Some(((-digits_value(whole)) as i32, (-fraction_minutes(frac)) as i32))
        } else {
            Some((digits_value(whole) as i32, fraction_minutes(frac) as i32))
        }
    } else {
        None
    }
}

/// What a duration string denotes, before any range check.
pub open spec fn duration_of(s: Seq<char>) -> Option<(i32, i32)> {
    if s.contains('h') || s.contains('m') {
        Some(unit_form(s))
    } else {
        decimal_form(s)
    }
}

/// Reads the characters `from..to` as an `i32`, or zero where they do not
/// write one.
fn i32_or_zero_at(s: &str, from: usize, to: usize) -> (r: i32)
    requires
        from <= to <= s@.len(),
    ensures
        r == i32_or_zero(s@.subrange(from as int, to as int)),
{
    let part = s.substring_char(from, to);
    match parse_i64(part) {
        Some(n) => if i32::MIN as i64 <= n && n <= i32::MAX as i64 {
            n as i32
        } else {
            0
        },
        None => 0,
    }
}

/// Reads the characters `from..to` as the hour part of the unit form.
fn hour_part_at(s: &str, from: usize, to: usize) -> (r: (i32, i32))
    requires
        from <= to <= s@.len(),
    ensures
        r == hour_part(s@.subrange(from as int, to as int)),
{
    let part = s.substring_char(from, to);
    match parse_i64(part) {
        Some(n) => if i32::MIN as i64 <= n && n <= i32::MAX as i64 {
            return (n as i32, 0);
        },
        None => {},
    }
    match parse_decimal_hours(part) {
        Some(v) => v,
        None => (0, 0),
    }
}

/// Computes ⌊60 × 0.s⌋ for a run of digits, from the last digit up.
fn minutes_of_fraction(s: &str) -> (r: u32)
    requires
        digits_or_empty(s@),
    ensures
        r as nat == fraction_minutes(s@),
        r < 60,
{
    let n = s.unicode_len();
    let mut m: u32 = 0;
    let mut i: usize = n;
    assert(s@.subrange(n as int, n as int) =~= Seq::<char>::empty());
    assert(fraction_minutes(Seq::<char>::empty()) == 0);
    while i > 0
        invariant
            n == s@.len(),
            i <= n,
            digits_or_empty(s@),
            m as nat == fraction_minutes(s@.subrange(i as int, n as int)),
            m < 60,
        decreases i,
    {
        i = i - 1;
        let c = s.get_char(i);
        assert(is_digit(s@[i as int]));
        let d: u32 = c as u32 - '0' as u32;
        assert(s@.subrange(i as int, n as int).skip(1) =~= s@.subrange(i + 1, n as int));
        assert(s@.subrange(i as int, n as int)[0] == c);
        proof {
            lemma_fraction_step(s@.subrange(i as int, n as int));
        }
        m = (60 * d + m) / 10;
    }
    assert(s@.subrange(0, n as int) =~= s@);
    m
}

fn only_digits(s: &str) -> (r: bool)
    ensures
        r == digits_or_empty(s@),
{
    let n = s.unicode_len();
    let mut i: usize = 0;
    while i < n
        invariant
            n == s@.len(),
            i <= n,
            forall|j: int| 0 <= j < i ==> is_digit(#[trigger] s@[j]),
        decreases n - i,
    {
        let c = s.get_char(i);
        if !('0' <= c && c <= '9') {
            return false;
        }
        i = i + 1;
    }
    true
}

fn parse_decimal_hours(s: &str) -> (r: Option<(i32, i32)>)
    ensures
        r == decimal_form(s@),
{
    let n = s.unicode_len();
    let signed = n > 0 && (s.get_char(0) == '-' || s.get_char(0) == '+');
    let negative = signed && s.get_char(0) == '-';
    let start: usize = if signed { 1 } else { 0 };
    let body = s.substring_char(start, n);
    assert(signed ==> body@ =~= s@.skip(1));
    assert(!signed ==> body@ =~= s@);
    let blen = body.unicode_len();
    let (whole, frac) = match find_char(body, '.') {
        Some(d) => (body.substring_char(0, d), body.substring_char(d + 1, blen)),
        None => (body, body.substring_char(blen, blen)),
    };
    assert(frac@.len() == 0 ==> frac@ =~= Seq::<char>::empty());
    assert(whole@ == decimal_split(body@).0 && frac@ == decimal_split(body@).1);
    let wlen = whole.unicode_len();
    if wlen + frac.unicode_len() == 0 || !only_digits(whole) || !only_digits(frac) {
        return None;
    }
    let hours: u64 = if wlen == 0 {
        0
    } else {
        assert(whole@.subrange(0, wlen as int) =~= whole@);
        match scan_digits(whole, 0, wlen) {
            Some(v) => v,
            None => {
                assert(all_digits(whole@));
                return None;
            },
        }
    };
    if hours > i32::MAX as u64 {
        return None;
    }
    let minutes = minutes_of_fraction(frac);
    if negative {
        Some(((0 - hours as i64) as i32, (0 - minutes as i64) as i32))
    } else {
        Some((hours as i32, minutes as i32))
    }
}

/// Parses a duration string into hours and minutes, with no range check:
/// `2h30m` gives (2, 30), `1.5h` gives (1, 30) and `90m` gives (0, 90).
pub fn parse_duration(text: &str) -> (r: Result<(i32, i32), DurationError>)
    ensures
        match r {
            Ok(v) => duration_of(text@) == Some(v),
            Err(e) => duration_of(text@) is None && e is InvalidFormat,
        },
{
    let n = text.unicode_len();
    let h = find_char(text, 'h');
    let m = find_char(text, 'm');
    if h.is_some() || m.is_some() {
        proof {
            if h is Some {
                assert(text@.contains('h'));
            }
            if m is Some {
                assert(text@.contains('m'));
            }
        }
        let (hours, fraction) = match h {
            Some(p) => hour_part_at(text, 0, p),
            None => (0, 0),
        };
        let start: usize = match h {
            Some(p) => p + 1,
            None => 0,
        };
        let minutes = match m {
            Some(q) => if start <= q {
                i32_or_zero_at(text, start, q)
            } else {
                0
            },
            None => 0,
        };
        let sum: i64 = fraction as i64 + minutes as i64;
        let total: i32 = if sum < i32::MIN as i64 {
            i32::MIN
        } else if sum > i32::MAX as i64 {
            i32::MAX
        } else {
            sum as i32
        };
        Ok((hours, total))
    } else {
        assert(!text@.contains('h') && !text@.contains('m'));
        match parse_decimal_hours(text) {
            Some(v) => Ok(v),
            None => Err(DurationError::InvalidFormat),
        }
    }
}

/// Parses a duration string and checks that it is a loggable time.
pub fn parse_checked_duration(text: &str) -> (r: Result<(i32, i32), DurationError>)
    ensures
        match r {
            Ok(v) => duration_of(text@) == Some(v) && valid_time(v.0 as int, v.1 as int),
            Err(DurationError::InvalidFormat) => duration_of(text@) is None,
            Err(DurationError::InvalidTime(e)) => duration_of(text@) matches Some(v) && !valid_time(
                v.0 as int,
                v.1 as int,
            ) && e is InvalidTime,
        },
{
    let (hours, minutes) = parse_duration(text)?;
    match validate_time(hours, minutes) {
        Ok(v) => Ok(v),
        Err(e) => Err(DurationError::InvalidTime(e)),
    }
}

} // verus!
