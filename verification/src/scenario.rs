//! The scenario builder: an ordered log of JSON lines becomes an ordered
//! sequence of events, each the verbatim line paired with the delay since the
//! previous line's embedded timestamp. Reading the document is the work of an
//! outside crate, reached through a trusted wrapper; everything around it —
//! error taxonomy, ordering, delay clamping — is verified.

use vstd::prelude::*;
use crate::event_time::Timestamp;
use crate::event_time::time_of;
use crate::event_time::valid_time;
use crate::event_time::delta_of;
use crate::event_time::ts_fields_in_range;
use crate::event_time::parse_event_time;
use crate::event_time::delta_nanoseconds;
use crate::event_time::clamp_delay;
use crate::event_time::spec_clamp_delay;

verus! {

/// Everything that can go wrong while turning a log line into an event.
#[derive(Debug, Clone, Copy, PartialEq, Eq, Structural)]
pub enum ScenarioError {
    /// The line is not a well-formed JSON document.
    MalformedMessage,
    /// The document holds no text at `msg.EventTime`.
    MissingTimestamp,
    /// The timestamp text does not match the expected format.
    BadTimestampFormat,
}

/// Whether a line parses as a JSON document.
pub uninterp spec fn json_ok(line: Seq<char>) -> bool;

/// The text at `msg.EventTime` of a line's document, if text stands there.
pub uninterp spec fn event_time_of(line: Seq<char>) -> Option<Seq<char>>;

/// Relies on `json::parse` for whether the line is a JSON document, and on
/// `JsonValue`'s `&str` indexing and `as_str` for the text at `msg.EventTime`:
/// indexing a missing key yields the null value, and `as_str` yields text
/// exactly for a string value. All of it depends on the line alone.
#[verifier::external_body]
fn extract_event_time(line: &str) -> (r: Option<Option<String>>)
    ensures
        r is Some <==> json_ok(line@),
        r matches Some(Some(s)) ==> event_time_of(line@) == Some(s@),
        r matches Some(inner) && inner is None ==> event_time_of(line@) is None,
{
    match json::parse(line) {
        Ok(doc) => match doc["msg"]["EventTime"].as_str() {
            Some(s) => Some(Some(s.to_string())),
            None => Some(None),
        },
        Err(_) => None,
    }
}

/// The error a single log line produces, if any: the first of parsing the
/// document, finding the timestamp text, and reading its format that fails.
pub open spec fn spec_line_error(line: Seq<char>) -> Option<ScenarioError> {
    if !json_ok(line) {
        Some(ScenarioError::MalformedMessage)
    } else if event_time_of(line) is None {
        Some(ScenarioError::MissingTimestamp)
    } else if time_of(event_time_of(line).unwrap()) is None {
        Some(ScenarioError::BadTimestampFormat)
    } else {
        None
    }
}

/// The timestamp a clean log line carries.
pub open spec fn spec_line_time(line: Seq<char>) -> Timestamp
    recommends
        spec_line_error(line) is None,
{
    time_of(event_time_of(line).unwrap()).unwrap()
}

/// Reads the embedded timestamp of one log line: succeeds exactly when the
/// line is a JSON document with text at `msg.EventTime` in the expected format.
pub fn get_time(line: &str) -> (r: Result<Timestamp, ScenarioError>)
    ensures
        r matches Ok(t) ==> (spec_line_error(line@) is None && t == spec_line_time(line@)
            && ts_fields_in_range(t) && valid_time(t)),
        r matches Err(e) ==> spec_line_error(line@) == Some(e),
{
    let et = match extract_event_time(line) {
        None => {
            return Err(ScenarioError::MalformedMessage);
        },
        Some(None) => {
            return Err(ScenarioError::MissingTimestamp);
        },
        Some(Some(s)) => s,
    };
    match parse_event_time(et.as_str()) {
        None => Err(ScenarioError::BadTimestampFormat),
        Some(t) => Ok(t),
    }
}

/// One replayed message: the verbatim line text and the delay to wait before
/// sending it.
#[derive(Debug, PartialEq)]
pub struct Event {
    /// The original line, sent unmodified except for framing.
    pub payload: String,
    /// Nanoseconds to wait after the previous event before sending this one.
    pub delay_nanos: u64,
}

/// The delay of an event whose line follows `prev`'s line: the distance
/// between the two embedded timestamps, clamped at zero when they are out of
/// order and saturating at what a nanosecond count can hold.
pub open spec fn spec_delay(prev: Seq<char>, cur: Seq<char>) -> u64
    recommends
        spec_line_error(prev) is None,
        spec_line_error(cur) is None,
{
    spec_clamp_delay(delta_of(spec_line_time(prev), spec_line_time(cur)))
}

/// Turns an ordered log into an ordered scenario: each line becomes an event
/// holding the line itself, the first with delay zero, every later one with
/// the clamped distance from its predecessor's timestamp. The first flawed
/// line fails the whole call with its error.
pub fn json_to_event_vector(lines: &Vec<String>) -> (r: Result<Vec<Event>, ScenarioError>)
    ensures
        r matches Ok(events) ==> (events@.len() == lines@.len() && (forall|i: int|
            0 <= i < lines@.len() ==> #[trigger] spec_line_error(lines@[i]@) is None) && (forall|
            i: int,
        |
            0 <= i < lines@.len() ==> (#[trigger] events@[i]).payload@ == lines@[i]@) && (
        lines@.len() > 0 ==> events@[0].delay_nanos == 0) && (forall|i: int|
            1 <= i < lines@.len() ==> (#[trigger] events@[i]).delay_nanos == spec_delay(
                lines@[i - 1]@,
                lines@[i]@,
            ))),
        r matches Err(e) ==> (exists|i: int|
            0 <= i < lines@.len() && #[trigger] spec_line_error(lines@[i]@) == Some(e) && (forall|
                j: int,
            | 0 <= j < i ==> spec_line_error(lines@[j]@) is None)),
{
    let mut events: Vec<Event> = Vec::new();
    let mut prev: Option<Timestamp> = None;
    let n = lines.len();
    let mut i: usize = 0;
    while i < n
        invariant
            i <= n == lines@.len(),
            events@.len() == i,
            forall|j: int| 0 <= j < i ==> #[trigger] spec_line_error(lines@[j]@) is None,
            forall|j: int| 0 <= j < i ==> (#[trigger] events@[j]).payload@ == lines@[j]@,
            i > 0 ==> events@[0].delay_nanos == 0,
            forall|j: int|
                1 <= j < i ==> (#[trigger] events@[j]).delay_nanos == spec_delay(
                    lines@[j - 1]@,
                    lines@[j]@,
                ),
            i == 0 ==> prev is None,
            i > 0 ==> (prev matches Some(p) && p == spec_line_time(lines@[i - 1]@) && valid_time(
                p,
            )),
        decreases n - i,
    {
        let line: &String = &lines[i];
        let t = match get_time(line.as_str()) {
            Ok(t) => t,
            Err(e) => {
                return Err(e);
            },
        };
        let delay: u64 = match prev {
            None => 0,
            Some(p) => {
                match delta_nanoseconds(&p, &t) {
                    Some(d) => clamp_delay(d.0, d.1),
                    None => {
                        proof {
                            assert(false);
                        }
                        0
                    },
                }
            },
        };
        events.push(Event { payload: line.clone(), delay_nanos: delay });
        prev = Some(t);
        i = i + 1;
    }
    Ok(events)
}

} // verus!
