//! Symbols and icons that decorate statuses and sections on screen.

use vstd::prelude::*;

verus! {

/// `x` and `y` are the same character up to ASCII letter case.
pub open spec fn same_ascii_fold(x: char, y: char) -> bool {
    x == y || ('A' <= x && x <= 'Z' && y as u32 == x as u32 + 32) || ('A' <= y && y <= 'Z'
        && x as u32 == y as u32 + 32)
}

/// `a` equals `b` when ASCII letter case is ignored.
pub open spec fn eq_ignore_ascii_case(a: Seq<char>, b: Seq<char>) -> bool {
    a.len() == b.len() && forall|i: int| 0 <= i < a.len() ==> same_ascii_fold(#[trigger] a[i], b[i])
}

/// Compares two texts ignoring ASCII letter case.
pub fn matches_ignoring_case(a: &str, b: &str) -> (r: bool)
    ensures
        r == eq_ignore_ascii_case(a@, b@),
{
    let n = a.unicode_len();
    if n != b.unicode_len() {
        return false;
    }
    let mut i: usize = 0;
    while i < n
        invariant
            n == a@.len(),
            n == b@.len(),
            i <= n,
            forall|j: int| 0 <= j < i ==> same_ascii_fold(#[trigger] a@[j], b@[j]),
        decreases n - i,
    {
        let x = a.get_char(i);
        let y = b.get_char(i);
        let same = x == y || ('A' <= x && x <= 'Z' && y as u32 == x as u32 + 32) || ('A' <= y && y
            <= 'Z' && x as u32 == y as u32 + 32);
        if !same {
            return false;
        }
        i = i + 1;
    }
    true
}

/// The symbol shown beside a status, matched without regard to ASCII case.
pub open spec fn symbol_of(s: Seq<char>) -> Seq<char> {
    if eq_ignore_ascii_case("open"@, s) {
        "●"@
    } else if eq_ignore_ascii_case("in-progress"@, s) || eq_ignore_ascii_case("in_progress"@, s) {
        "⚠"@
    } else if eq_ignore_ascii_case("testing"@, s) {
        "⚙"@
    } else if eq_ignore_ascii_case("blocked"@, s) {
        "⚠"@
    } else if eq_ignore_ascii_case("closed"@, s) {
        "✓"@
    } else if eq_ignore_ascii_case("cancelled"@, s) {
        "✗"@
    } else if eq_ignore_ascii_case("completed"@, s) || eq_ignore_ascii_case("done"@, s) {
        "✓"@
    } else if eq_ignore_ascii_case("wontfix"@, s) {
        "⊘"@
    } else {
        "○"@
    }
}

/// Looks up the symbol of a status; an unknown status gets a hollow circle.
pub fn get_status_symbol(status: &str) -> (r: &'static str)
    ensures
        r@ == symbol_of(status@),
{
    if matches_ignoring_case("open", status) {
        "●"
    } else if matches_ignoring_case("in-progress", status) || matches_ignoring_case(
        "in_progress",
        status,
    ) {
        "⚠"
    } else if matches_ignoring_case("testing", status) {
        "⚙"
    } else if matches_ignoring_case("blocked", status) {
        "⚠"
    } else if matches_ignoring_case("closed", status) {
        "✓"
    } else if matches_ignoring_case("cancelled", status) {
        "✗"
    } else if matches_ignoring_case("completed", status) || matches_ignoring_case("done", status) {
        "✓"
    } else if matches_ignoring_case("wontfix", status) {
        "⊘"
    } else {
        "○"
    }
}

/// The icon of a section heading, matched without regard to ASCII case.
pub open spec fn icon_of(s: Seq<char>) -> Seq<char> {
    if eq_ignore_ascii_case("title"@, s) {
        "📋"@
    } else if eq_ignore_ascii_case("project"@, s) {
        "🏷️"@
    } else if eq_ignore_ascii_case("status"@, s) || eq_ignore_ascii_case("summary"@, s) {
        "📊"@
    } else if eq_ignore_ascii_case("created"@, s) {
        "📅"@
    } else if eq_ignore_ascii_case("comments"@, s) {
        "💬"@
    } else if eq_ignore_ascii_case("time"@, s) {
        "⏱️"@
    } else {
        ""@
    }
}

/// Looks up the icon of a section; an unknown section has none.
pub fn get_icon(section: &str) -> (r: &'static str)
    ensures
        r@ == icon_of(section@),
{
    if matches_ignoring_case("title", section) {
        "📋"
    } else if matches_ignoring_case("project", section) {
        "🏷️"
    } else if matches_ignoring_case("status", section) || matches_ignoring_case("summary", section) {
        "📊"
    } else if matches_ignoring_case("created", section) {
        "📅"
    } else if matches_ignoring_case("comments", section) {
        "💬"
    } else if matches_ignoring_case("time", section) {
        "⏱️"
    } else {
        ""
    }
}

/// A status with its symbol in front, as tables show it.
pub fn get_status_display(status: &str) -> (r: String)
    ensures
        r@ == symbol_of(status@) + " "@ + status@,
{
    let mut r = String::from_str(get_status_symbol(status));
    r.append(" ");
    r.append(status);
    r
}


/// What `UnicodeWidthChar::width` of unicode-width returns for a character.
pub uninterp spec fn char_width_of(c: char) -> Option<usize>;

/// What `UnicodeWidthStr::width` of unicode-width returns for a text.
pub uninterp spec fn text_width_of(s: Seq<char>) -> usize;

/// Relies on unicode-width's `UnicodeWidthChar::width`: the columns a
/// character takes, or `None` for a control character.
#[verifier::external_body]
fn char_width(c: char) -> (r: Option<usize>)
    ensures
        r == char_width_of(c),
{
    unicode_width::UnicodeWidthChar::width(c)
}

/// Relies on unicode-width's `UnicodeWidthStr::width`: the columns a text takes.
#[verifier::external_body]
fn text_width(s: &str) -> (r: usize)
    ensures
        r == text_width_of(s@),
{
    unicode_width::UnicodeWidthStr::width(s)
}

/// Column width of each character, a control character counting as none.
pub open spec fn column_widths(s: Seq<char>) -> Seq<nat> {
    Seq::new(
        s.len(),
        |i: int|
            match char_width_of(s[i]) {
                Some(w) => w as nat,
                None => 0,
            },
    )
}

/// Sum of the first `j` widths.
pub open spec fn prefix_width(ws: Seq<nat>, j: int) -> nat
    decreases j,
{
    if j <= 0 {
        0
    } else {
        prefix_width(ws, j - 1) + ws[j - 1]
    }
}

/// How many leading characters fit in `max` columns with room for `...`,
/// counting from character `j` on.
pub open spec fn kept_from(ws: Seq<nat>, max: nat, j: int) -> int
    decreases ws.len() - j,
{
    if j >= ws.len() {
        ws.len() as int
    } else if prefix_width(ws, j + 1) + 3 > max {
        j
    } else {
        kept_from(ws, max, j + 1)
    }
}

/// A text cut to `max` columns: unchanged when it fits, else its longest
/// prefix that leaves room for `...`, followed by `...`.
pub open spec fn truncated(s: Seq<char>, total: usize, ws: Seq<nat>, max: nat) -> Seq<char> {
    if total <= max {
        s
    } else {
        s.take(kept_from(ws, max, 0)) + "..."@
    }
}

/// Cuts `text` to `max_width` columns, given its width `total_width` and
/// the width of each of its characters.
pub fn truncate_with_widths(text: &str, total_width: usize, widths: &Vec<Option<usize>>, max_width: usize) -> (r: String)
    requires
        widths@.len() == text@.len(),
    ensures
        r@ == truncated(
            text@,
            total_width,
            Seq::new(
                widths@.len(),
                |i: int|
                    match widths@[i] {
                        Some(w) => w as nat,
                        None => 0nat,
                    },
            ),
            max_width as nat,
        ),
{
    let ghost ws = Seq::new(
        widths@.len(),
        |i: int|
            match widths@[i] {
                Some(w) => w as nat,
                None => 0nat,
            },
    );
    if total_width <= max_width {
        return text.to_string();
    }
    let n = text.unicode_len();
    let mut cur: u128 = 0;
    let mut i: usize = 0;
    let mut full = false;
    while i < n && !full
        invariant
            n == text@.len() == ws.len(),
            i <= n,
            full ==> i < n && prefix_width(ws, i + 1) + 3 > max_width,
            cur == prefix_width(ws, i as int),
            cur <= max_width,
            kept_from(ws, max_width as nat, 0) == kept_from(ws, max_width as nat, i as int),
            ws == Seq::new(
                widths@.len(),
                |i: int|
                    match widths@[i] {
                        Some(w) => w as nat,
                        None => 0nat,
                    },
            ),
        decreases n - i + if full {
            0int
        } else {
            1int
        },
    {
        let w: u128 = match widths[i] {
            Some(w) => w as u128,
            None => 0,
        };
        assert(w == ws[i as int]);
        if cur + w + 3 > max_width as u128 {
            full = true;
        } else {
            cur = cur + w;
            i = i + 1;
        }
    }
    assert(kept_from(ws, max_width as nat, i as int) == i);
    let kept = text.substring_char(0, i);
    assert(kept@ =~= text@.take(i as int));
    let mut r = String::from_str(kept);
    r.append("...");
    r
}

/// Cuts `text` to `max_width` display columns, ending it with `...` when
/// it does not fit.
pub fn truncate_text(text: &str, max_width: usize) -> (r: String)
    ensures
        r@ == truncated(text@, text_width_of(text@), column_widths(text@), max_width as nat),
{
    let total = text_width(text);
    let n = text.unicode_len();
    let mut widths: Vec<Option<usize>> = Vec::new();
    let mut i: usize = 0;
    while i < n
        invariant
            n == text@.len(),
            i <= n,
            widths@.len() == i,
            forall|j: int| 0 <= j < i ==> widths@[j] == char_width_of(text@[j]),
        decreases n - i,
    {
        widths.push(char_width(text.get_char(i)));
        i = i + 1;
    }
    let r = truncate_with_widths(text, total, &widths, max_width);
    assert(Seq::new(
        widths@.len(),
        |i: int|
            match widths@[i] {
                Some(w) => w as nat,
                None => 0nat,
            },
    ) =~= column_widths(text@));
    r
}

} // verus!
