//! What the picker draws: status glyphs, session lines, durations, the
//! prompt bar and the help overlay's placement. Drawing itself is the
//! terminal front end's.

use vstd::prelude::*;
use super::state::{Mode, SessionEntry, SessionStatus};
use crate::text::{decimal, pad_right, push_decimal, push_padded, push_str, push_two_digits, two_digits};

verus! {

/// Minimum terminal width.
pub const MIN_COLS: u16 = 80;

/// Minimum terminal height.
pub const MIN_ROWS: u16 = 24;

/// A rectangle of terminal cells.
#[derive(Debug, Clone, Copy, PartialEq, Eq, Structural)]
pub struct Rect {
    pub x: u16,
    pub y: u16,
    pub width: u16,
    pub height: u16,
}

impl Rect {
    pub fn new(x: u16, y: u16, width: u16, height: u16) -> (r: Self)
        ensures
            r == (Rect { x, y, width, height }),
    {
        Rect { x, y, width, height }
    }
}

/// Check if the terminal is too small.
pub fn is_too_small(area: Rect) -> (r: bool)
    ensures
        r == (area.width < MIN_COLS || area.height < MIN_ROWS),
{
    area.width < MIN_COLS || area.height < MIN_ROWS
}

/// `secs` as hours and minutes (`2h05m`), minutes alone under an hour
/// (`47m`), and `(dead)` when negative.
pub open spec fn duration_text(secs: int) -> Seq<char> {
    if secs < 0 {
        "(dead)"@
    } else {
        let hours = secs / 3600;
        let minutes = (secs % 3600) / 60;
        if hours > 0 {
            decimal(hours as nat) + "h"@ + two_digits(minutes as nat) + "m"@
        } else {
            decimal(minutes as nat) + "m"@
        }
    }
}

/// Format a duration from seconds to human-readable.
pub fn format_duration(secs: i64) -> (r: String)
    ensures
        r@ == duration_text(secs as int),
{
    let mut out = String::new();
    if secs < 0 {
        push_str(&mut out, "(dead)");
        return out;
    }
    let hours = secs / 3600;
    let minutes = (secs % 3600) / 60;
    if hours > 0 {
        push_decimal(&mut out, hours as u64);
        push_str(&mut out, "h");
        push_two_digits(&mut out, minutes as u64);
        push_str(&mut out, "m");
    } else {
        push_decimal(&mut out, minutes as u64);
        push_str(&mut out, "m");
    }
    out
}

/// The glyph for a status.
pub open spec fn indicator_text(status: SessionStatus) -> Seq<char> {
    match status {
        SessionStatus::Current => "*"@,
        SessionStatus::Attached => "\u{25CF}"@,
        SessionStatus::Detached => "\u{25CB}"@,
        SessionStatus::Dead => "\u{2717}"@,
    }
}

/// Get the status indicator: `*`, a filled circle, an empty circle or a
/// cross mark.
pub fn status_indicator(status: &SessionStatus) -> (r: &'static str)
    ensures
        r@ == indicator_text(*status),
{
    match status {
        SessionStatus::Current => "*",
        SessionStatus::Attached => "\u{25CF}",
        SessionStatus::Detached => "\u{25CB}",
        SessionStatus::Dead => "\u{2717}",
    }
}

/// The marker in front of the current session.
pub open spec fn marker_text(status: SessionStatus) -> Seq<char> {
    if status == SessionStatus::Current {
        "*"@
    } else {
        " "@
    }
}

/// Get the current-session marker.
pub fn current_marker(status: &SessionStatus) -> (r: &'static str)
    ensures
        r@ == marker_text(*status),
{
    match status {
        SessionStatus::Current => "*",
        _ => " ",
    }
}

/// One line of the session list: its text in spans, and whether it is drawn
/// dimmed.
#[derive(Debug)]
pub struct SessionLine {
    pub spans: Vec<String>,
    pub dimmed: bool,
}

/// The age column: `(dead)` for a dead session, else the time since it was
/// created, or `?` when its creation time does not parse.
pub open spec fn age_text(status: SessionStatus, elapsed: Option<i64>) -> Seq<char> {
    if status == SessionStatus::Dead {
        "(dead)"@
    } else {
        match elapsed {
            Some(secs) => duration_text(secs as int),
            None => "?"@,
        }
    }
}

/// The spans of a session's line: marker, name in 12 columns, status glyph,
/// command in 8 columns, age.
pub open spec fn line_spans(entry: SessionEntry, elapsed: Option<i64>) -> Seq<Seq<char>> {
    seq![
        "  "@ + marker_text(entry.status) + "  "@,
        pad_right(entry.meta.name@, 12),
        indicator_text(entry.status) + "  "@,
        pad_right(entry.meta.cmd@, 8),
        age_text(entry.status, elapsed),
    ]
}

/// The spans of `line` as character sequences.
pub open spec fn spans_view(line: SessionLine) -> Seq<Seq<char>> {
    Seq::new(line.spans@.len(), |i: int| line.spans@[i]@)
}

/// Build a session's line, given the seconds since it was created (`None`
/// when its creation time does not parse).
pub fn session_line(entry: &SessionEntry, elapsed: Option<i64>) -> (r: SessionLine)
    ensures
        spans_view(r) == line_spans(*entry, elapsed),
        r.dimmed == (entry.status == SessionStatus::Dead),
{
    let mut first = String::new();
    push_str(&mut first, "  ");
    push_str(&mut first, current_marker(&entry.status));
    push_str(&mut first, "  ");
    let mut name = String::new();
    push_padded(&mut name, entry.meta.name.as_str(), 12);
    let mut glyph = String::new();
    push_str(&mut glyph, status_indicator(&entry.status));
    push_str(&mut glyph, "  ");
    let mut cmd = String::new();
    push_padded(&mut cmd, entry.meta.cmd.as_str(), 8);
    let age = if entry.status == SessionStatus::Dead {
        let mut s = String::new();
        push_str(&mut s, "(dead)");
        s
    } else {
        match elapsed {
            Some(secs) => format_duration(secs),
            None => {
                let mut s = String::new();
                push_str(&mut s, "?");
                s
            },
        }
    };
    let mut spans: Vec<String> = Vec::new();
    spans.push(first);
    spans.push(name);
    spans.push(glyph);
    spans.push(cmd);
    spans.push(age);
    let r = SessionLine { spans, dimmed: entry.status == SessionStatus::Dead };
    assert(spans_view(r) =~= line_spans(*entry, elapsed));
    r
}

/// Names the instant that `chrono::DateTime::parse_from_rfc3339` reads from
/// the text, as Unix seconds and the nanoseconds past them, or `None` when
/// the text is not RFC 3339.
pub uninterp spec fn rfc3339_instant(s: Seq<char>) -> Option<(i64, u32)>;

/// Names the whole seconds (`chrono::TimeDelta::num_seconds`) from the
/// instant `then` to the instant `now`, each given as Unix seconds and
/// nanoseconds and rebuilt with `chrono::DateTime::from_timestamp`; `None`
/// when either is out of chrono's range.
pub uninterp spec fn seconds_between(
    now_secs: i64,
    now_nanos: u32,
    then_secs: i64,
    then_nanos: u32,
) -> Option<i64>;

/// Calls `chrono::DateTime::parse_from_rfc3339` and, when it parses, gives
/// the instant's `timestamp()` and `timestamp_subsec_nanos()`. Trusted: the
/// result is the name `rfc3339_instant` of the text; parsing depends on the
/// text alone.
#[verifier::external_body]
fn parse_rfc3339(s: &str) -> (r: Option<(i64, u32)>)
    ensures
        r == rfc3339_instant(s@),
{
    match chrono::DateTime::parse_from_rfc3339(s) {
        Ok(t) => Some((t.timestamp(), t.timestamp_subsec_nanos())),
        Err(_) => None,
    }
}

/// The whole seconds in a span of `nanos` nanoseconds, rounded toward zero.
pub open spec fn whole_seconds(nanos: int) -> int {
    if nanos >= 0 {
        nanos / 1_000_000_000
    } else {
        -((-nanos) / 1_000_000_000)
    }
}

/// The whole seconds from `then` to `now`, rounded toward zero, for two
/// instants that are not in a leap second.
pub open spec fn plain_seconds_between(
    now_secs: i64,
    now_nanos: u32,
    then_secs: i64,
    then_nanos: u32,
) -> int {
    whole_seconds((now_secs - then_secs) * 1_000_000_000 + now_nanos - then_nanos)
}

/// An instant that chrono can always rebuild and that is not in a leap
/// second: within 8 * 10^12 seconds (about 253,000 years) of the epoch, with
/// fewer than a billion nanoseconds.
pub open spec fn plain_instant(secs: i64, nanos: u32) -> bool {
    -8_000_000_000_000 <= secs <= 8_000_000_000_000 && nanos < 1_000_000_000
}

/// Rebuilds both instants with `chrono::DateTime::from_timestamp` and takes
/// `(now - then).num_seconds()`. Trusted: the result is the name
/// `seconds_between` of the four arguments; and when neither instant is in a
/// leap second (nanoseconds below one billion) and both are in range, it is
/// the difference rounded toward zero, as `NaiveTime::signed_duration_since`
/// and `TimeDelta::num_seconds` compute it. Two plain instants are always in
/// range (`from_timestamp` accepts days within chrono's years -262143 to
/// 262142 and nanoseconds below one billion); the exact edge of the range is
/// left unsaid.
#[verifier::external_body]
fn whole_seconds_between(
    now_secs: i64,
    now_nanos: u32,
    then_secs: i64,
    then_nanos: u32,
) -> (r: Option<i64>)
    ensures
        r == seconds_between(now_secs, now_nanos, then_secs, then_nanos),
        r is Some && now_nanos < 1_000_000_000 && then_nanos < 1_000_000_000 ==> r->0
            == plain_seconds_between(now_secs, now_nanos, then_secs, then_nanos),
        plain_instant(now_secs, now_nanos) && plain_instant(then_secs, then_nanos) ==> r is Some,
{
    match (
        chrono::DateTime::from_timestamp(now_secs, now_nanos),
        chrono::DateTime::from_timestamp(then_secs, then_nanos),
    ) {
        (Some(now), Some(then)) => Some((now - then).num_seconds()),
        _ => None,
    }
}

/// Reads `chrono::Utc::now()` as its `timestamp()` and
/// `timestamp_subsec_nanos()`. Trusted, with nothing stated of the result:
/// it is the clock.
#[verifier::external_body]
fn clock_now() -> (r: (i64, u32)) {
    let now = chrono::Utc::now();
    (now.timestamp(), now.timestamp_subsec_nanos())
}

/// The age shown for an entry at the instant `now_secs`/`now_nanos`: none
/// for a dead session, else the whole seconds since its creation time, or
/// none when that time does not parse.
pub open spec fn elapsed_at(entry: SessionEntry, now_secs: i64, now_nanos: u32) -> Option<i64> {
    if entry.status == SessionStatus::Dead {
        None
    } else {
        match rfc3339_instant(entry.meta.created_at@) {
            Some((secs, nanos)) => seconds_between(now_secs, now_nanos, secs, nanos),
            None => None,
        }
    }
}

/// Build a line for a session entry as seen at the instant
/// `now_secs`/`now_nanos` (Unix seconds and nanoseconds).
pub fn session_line_at(entry: &SessionEntry, now_secs: i64, now_nanos: u32) -> (r: SessionLine)
    ensures
        r.dimmed == (entry.status == SessionStatus::Dead),
        spans_view(r) == line_spans(*entry, elapsed_at(*entry, now_secs, now_nanos)),
        entry.status != SessionStatus::Dead ==> match rfc3339_instant(entry.meta.created_at@) {
            Some((secs, nanos)) => plain_instant(now_secs, now_nanos) && plain_instant(
                secs,
                nanos,
            ) ==> spans_view(r)[4] == duration_text(
                plain_seconds_between(now_secs, now_nanos, secs, nanos),
            ),
            None => spans_view(r)[4] == "?"@,
        },
{
    if entry.status == SessionStatus::Dead {
        return session_line(entry, None);
    }
    let elapsed = match parse_rfc3339(entry.meta.created_at.as_str()) {
        Some((secs, nanos)) => whole_seconds_between(now_secs, now_nanos, secs, nanos),
        None => None,
    };
    session_line(entry, elapsed)
}

/// Build a line for a session entry, aged by the clock.
pub fn build_session_line(entry: &SessionEntry) -> (r: SessionLine)
    ensures
        r.dimmed == (entry.status == SessionStatus::Dead),
        exists|now: (i64, u32)|
            spans_view(r) == line_spans(*entry, #[trigger] elapsed_at(*entry, now.0, now.1)),
{
    let now = clock_now();
    session_line_at(entry, now.0, now.1)
}

/// The prompt bar's text for a mode.
pub open spec fn prompt_spec(mode: Mode) -> Seq<char> {
    match mode {
        Mode::NewSession { input } => "\u{25B6} Session name: "@ + input@ + "_"@,
        Mode::Filter { input } => "\u{25B6} Filter: "@ + input@ + "_"@,
        Mode::KillConfirm { name, .. } => "\u{25B6} Kill '"@ + name@ + "'? [y/N] _"@,
        Mode::Rename { current_name, input, .. } => "\u{25B6} Rename: "@ + current_name@
            + " \u{2192} "@ + input@ + "_"@,
        _ => Seq::empty(),
    }
}

/// The prompt bar's text: what is being typed, or the kill confirmation.
pub fn prompt_text(mode: &Mode) -> (r: String)
    ensures
        r@ == prompt_spec(*mode),
{
    let mut out = String::new();
    match mode {
        Mode::NewSession { input } => {
            push_str(&mut out, "\u{25B6} Session name: ");
            push_str(&mut out, input.as_str());
            push_str(&mut out, "_");
        },
        Mode::Filter { input } => {
            push_str(&mut out, "\u{25B6} Filter: ");
            push_str(&mut out, input.as_str());
            push_str(&mut out, "_");
        },
        Mode::KillConfirm { name, .. } => {
            push_str(&mut out, "\u{25B6} Kill '");
            push_str(&mut out, name.as_str());
            push_str(&mut out, "'? [y/N] _");
        },
        Mode::Rename { current_name, input, .. } => {
            push_str(&mut out, "\u{25B6} Rename: ");
            push_str(&mut out, current_name.as_str());
            push_str(&mut out, " \u{2192} ");
            push_str(&mut out, input.as_str());
            push_str(&mut out, "_");
        },
        _ => {},
    }
    out
}

/// `a - b`, or 0 when `b` is larger.
pub open spec fn sat_sub(a: int, b: int) -> int {
    if a > b {
        a - b
    } else {
        0
    }
}

/// The help overlay's box: at most 50 by 14, at least 4 cells inside each
/// edge, centered.
pub open spec fn help_area_spec(area: Rect) -> Rect {
    let width = if sat_sub(area.width as int, 4) < 50 {
        sat_sub(area.width as int, 4)
    } else {
        50
    };
    let height = if sat_sub(area.height as int, 4) < 14 {
        sat_sub(area.height as int, 4)
    } else {
        14
    };
    Rect {
        x: (sat_sub(area.width as int, width) / 2) as u16,
        y: (sat_sub(area.height as int, height) / 2) as u16,
        width: width as u16,
        height: height as u16,
    }
}

/// Where the help overlay goes inside `area`.
pub fn help_overlay_area(area: Rect) -> (r: Rect)
    ensures
        r == help_area_spec(area),
{
    let width = if area.width.saturating_sub(4) < 50 {
        area.width.saturating_sub(4)
    } else {
        50
    };
    let height = if area.height.saturating_sub(4) < 14 {
        area.height.saturating_sub(4)
    } else {
        14
    };
    let x = area.width.saturating_sub(width) / 2;
    let y = area.height.saturating_sub(height) / 2;
    Rect::new(x, y, width, height)
}

} // verus!
