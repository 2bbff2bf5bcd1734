//! Timestamps extracted from a log's `EventTime` field. A timestamp is held as
//! plain calendar fields; parsing the text and differencing two timestamps are
//! the calendar work of an outside crate, reached through trusted wrappers,
//! while clamping and rendering are verified here.

use vstd::prelude::*;
use chrono::{Datelike, Timelike};

verus! {

/// One point in time, as the calendar fields a parsed `EventTime` carries.
#[derive(Debug, Clone, Copy, PartialEq, Eq, Structural)]
pub struct Timestamp {
    pub year: i32,
    /// Month number, 1 to 12.
    pub month: u32,
    /// Day of the month, 1 to 31.
    pub day: u32,
    pub hour: u32,
    pub minute: u32,
    pub second: u32,
    /// Nanoseconds past the second; values of a billion or more mark a leap second.
    pub nanosecond: u32,
}

/// The field ranges every parsed timestamp lies in.
pub open spec fn ts_fields_in_range(t: Timestamp) -> bool {
    &&& 1 <= t.month <= 12
    &&& 1 <= t.day <= 31
    &&& t.hour <= 23
    &&& t.minute <= 59
    &&& t.second <= 59
    &&& t.nanosecond <= 1_999_999_999
}

/// What parsing a text as `year-abbreviated_month-day hour:minute:second.fraction`
/// yields: the calendar fields, or nothing when the text does not match the format.
pub uninterp spec fn time_of(s: Seq<char>) -> Option<Timestamp>;

/// Whether the fields name a real point of the calendar.
pub uninterp spec fn valid_time(t: Timestamp) -> bool;

/// The signed distance in nanoseconds from the first time to the second.
pub uninterp spec fn delta_of(prev: Timestamp, cur: Timestamp) -> int;

/// Relies on `chrono::NaiveDateTime::parse_from_str` with the format
/// `"%Y-%b-%d %H:%M:%S.%f"`, and on the `Datelike`/`Timelike` accessors to read
/// the parsed value's fields: the outcome depends on the text alone, and chrono
/// documents the accessors' ranges and that a parsed value is a real date-time.
#[verifier::external_body]
pub(crate) fn parse_event_time(s: &str) -> (r: Option<Timestamp>)
    ensures
        r == time_of(s@),
        r matches Some(t) ==> ts_fields_in_range(t) && valid_time(t),
{
    match chrono::NaiveDateTime::parse_from_str(s, "%Y-%b-%d %H:%M:%S.%f") {
        Ok(dt) => Some(
            Timestamp {
                year: dt.year(),
                month: dt.month(),
                day: dt.day(),
                hour: dt.hour(),
                minute: dt.minute(),
                second: dt.second(),
                nanosecond: dt.nanosecond(),
            },
        ),
        Err(_) => None,
    }
}

/// Relies on `chrono::NaiveDate::from_ymd_opt` and `NaiveDate::and_hms_nano_opt`
/// to rebuild the two date-times — they succeed exactly on fields that name a
/// real date-time — and on `NaiveDateTime::signed_duration_since` for their
/// difference, whose `num_seconds` and `subsec_nanos` parts chrono documents to
/// add up to the whole difference in nanoseconds.
#[verifier::external_body]
pub(crate) fn delta_nanoseconds(prev: &Timestamp, cur: &Timestamp) -> (r: Option<(i64, i32)>)
    ensures
        r is Some <==> (valid_time(*prev) && valid_time(*cur)),
        r matches Some(d) ==> (d.0 * 1_000_000_000 + d.1 == delta_of(*prev, *cur)
            && -1_000_000_000 < d.1 < 1_000_000_000),
{
    let p = chrono::NaiveDate::from_ymd_opt(prev.year, prev.month, prev.day)?
        .and_hms_nano_opt(prev.hour, prev.minute, prev.second, prev.nanosecond)?;
    let c = chrono::NaiveDate::from_ymd_opt(cur.year, cur.month, cur.day)?
        .and_hms_nano_opt(cur.hour, cur.minute, cur.second, cur.nanosecond)?;
    let d = c.signed_duration_since(p);
    Some((d.num_seconds(), d.subsec_nanos()))
}

/// A replay delay: never negative, and saturating at what a nanosecond count
/// can hold. A negative distance (timestamps out of order) clamps to zero.
pub open spec fn spec_clamp_delay(delta: int) -> u64 {
    if delta <= 0 {
        0u64
    } else if delta > u64::MAX {
        u64::MAX
    } else {
        delta as u64
    }
}

/// Turns the two documented parts of a time difference into a replay delay.
pub fn clamp_delay(secs: i64, nanos: i32) -> (r: u64)
    ensures
        r == spec_clamp_delay(secs * 1_000_000_000 + nanos),
{
    let total: i128 = (secs as i128) * 1_000_000_000 + (nanos as i128);
    if total <= 0 {
        0
    } else if total > u64::MAX as i128 {
        u64::MAX
    } else {
        total as u64
    }
}

/// The decimal digits of `n`, at least `width` of them, shorter numbers filled
/// with leading zeros.
pub open spec fn spec_padded(n: int, width: int) -> Seq<char>
    recommends
        n >= 0,
    decreases n, width,
{
    if n >= 10 {
        spec_padded(n / 10, width - 1).push(spec_digit(n % 10))
    } else if width >= 2 {
        seq!['0'] + spec_padded(n, width - 1)
    } else {
        seq![spec_digit(n)]
    }
}

/// The character of one decimal digit.
pub open spec fn spec_digit(d: int) -> char {
    if d == 0 {
        '0'
    } else if d == 1 {
        '1'
    } else if d == 2 {
        '2'
    } else if d == 3 {
        '3'
    } else if d == 4 {
        '4'
    } else if d == 5 {
        '5'
    } else if d == 6 {
        '6'
    } else if d == 7 {
        '7'
    } else if d == 8 {
        '8'
    } else {
        '9'
    }
}

/// One decimal digit as text.
fn digit_str(d: u64) -> (s: &'static str)
    requires
        d < 10,
    ensures
        s@ == seq![spec_digit(d as int)],
{
    proof {
        reveal_strlit("0");
        reveal_strlit("1");
        reveal_strlit("2");
        reveal_strlit("3");
        reveal_strlit("4");
        reveal_strlit("5");
        reveal_strlit("6");
        reveal_strlit("7");
        reveal_strlit("8");
        reveal_strlit("9");
    }
    match d {
        0 => "0",
        1 => "1",
        2 => "2",
        3 => "3",
        4 => "4",
        5 => "5",
        6 => "6",
        7 => "7",
        8 => "8",
        _ => "9",
    }
}

/// The padding width does not matter once it is too small to pad.
proof fn lemma_padded_low_width(n: int, w1: int, w2: int)
    requires
        n >= 0,
        w1 <= 1,
        w2 <= 1,
    ensures
        spec_padded(n, w1) == spec_padded(n, w2),
    decreases n,
{
    if n >= 10 {
        lemma_padded_low_width(n / 10, w1 - 1, w2 - 1);
    }
}

/// Appends `n` in decimal, filled with leading zeros to at least `width` digits.
fn append_padded(out: &mut String, n: u64, width: u64)
    ensures
        final(out)@ == old(out)@ + spec_padded(n as int, width as int),
    decreases n, width,
{
    if n >= 10 {
        let w = if width == 0 {
            0
        } else {
            width - 1
        };
        proof {
            if width == 0 {
                lemma_padded_low_width(n as int / 10, -1, 0);
            }
        }
        append_padded(out, n / 10, w);
        out.append(digit_str(n % 10));
        proof {
            assert(old(out)@ + spec_padded(n as int / 10, width - 1) + seq![
                spec_digit(n as int % 10),
            ] =~= old(out)@ + spec_padded(n as int, width as int));
        }
    } else if width >= 2 {
        out.append("0");
        proof {
            reveal_strlit("0");
            assert("0"@ =~= seq!['0']);
        }
        append_padded(out, n, width - 1);
        proof {
            assert(old(out)@ + seq!['0'] + spec_padded(n as int, width - 1) =~= old(out)@
                + spec_padded(n as int, width as int));
        }
    } else {
        out.append(digit_str(n));
    }
}

impl Timestamp {
    /// The timestamp's text: year, month and day zero-filled and dash-separated,
    /// then hour, minute and second zero-filled and colon-separated, then the
    /// nanoseconds as nine digits after a dot.
    pub open spec fn spec_render(self) -> Seq<char> {
        (if self.year < 0 {
            seq!['-'] + spec_padded(-(self.year as int), 4)
        } else {
            spec_padded(self.year as int, 4)
        }) + seq!['-'] + spec_padded(self.month as int, 2) + seq!['-'] + spec_padded(
            self.day as int,
            2,
        ) + seq![' '] + spec_padded(self.hour as int, 2) + seq![':'] + spec_padded(
            self.minute as int,
            2,
        ) + seq![':'] + spec_padded(self.second as int, 2) + seq!['.'] + spec_padded(
            self.nanosecond as int,
            9,
        )
    }

    /// Writes the timestamp as text.
    pub fn render(&self) -> (s: String)
        ensures
            s@ == self.spec_render(),
    {
        proof {
            reveal_strlit("-");
            reveal_strlit(" ");
            reveal_strlit(":");
            reveal_strlit(".");
        }
        let mut out = String::new();
        if self.year < 0 {
            out.append("-");
            let y = -(self.year as i64);
            append_padded(&mut out, y as u64, 4);
        } else {
            append_padded(&mut out, self.year as u64, 4);
        }
        out.append("-");
        append_padded(&mut out, self.month as u64, 2);
        out.append("-");
        append_padded(&mut out, self.day as u64, 2);
        out.append(" ");
        append_padded(&mut out, self.hour as u64, 2);
        out.append(":");
        append_padded(&mut out, self.minute as u64, 2);
        out.append(":");
        append_padded(&mut out, self.second as u64, 2);
        out.append(".");
        append_padded(&mut out, self.nanosecond as u64, 9);
        proof {
            assert(out@ =~= self.spec_render());
        }
        out
    }
}

} // verus!
