//! Short renderings of ISO 8601 timestamps for display.
use vstd::prelude::*;
use crate::numfmt::{int_decimal, i64_to_decimal};
use crate::text::{chars_of, concat3, find_first, first_index_of, lemma_first_index_of, substring};

verus! {

/// Where the time of day ends inside `tp` (the text after `T`): at the first `Z` if any,
/// else at the first `+`, else (when `minus` is set) at the first `-`, else at the end.
pub open spec fn time_end(tp: Seq<char>, minus: bool) -> int {
    if first_index_of(tp, 'Z') >= 0 {
        first_index_of(tp, 'Z')
    } else if first_index_of(tp, '+') >= 0 {
        first_index_of(tp, '+')
    } else if minus && first_index_of(tp, '-') >= 0 {
        first_index_of(tp, '-')
    } else {
        tp.len() as int
    }
}

/// An ASCII digit.
pub open spec fn is_digit(c: char) -> bool {
    '0' <= c <= '9'
}

/// The characters at `t + 1 ..= t + 5` of `ts` read `HH:MM` (two digits, a colon, two
/// digits).
pub open spec fn time_of_day_at(ts: Seq<char>, t: int) -> bool {
    &&& 0 <= t
    &&& t + 6 <= ts.len()
    &&& is_digit(ts[t + 1]) && is_digit(ts[t + 2]) && ts[t + 3] == ':'
    &&& is_digit(ts[t + 4]) && is_digit(ts[t + 5])
}

/// The text holds an ISO 8601 timestamp: its first `T` is followed by a time of day.
pub open spec fn holds_timestamp(ts: Seq<char>) -> bool {
    time_of_day_at(ts, first_index_of(ts, 'T'))
}

/// The time of day of a timestamp, at most `max` characters: what follows the first `T`, up
/// to the zone designator. When `guarded`, text that holds no timestamp gives its first `max`
/// characters; otherwise only text without a `T` does.
pub open spec fn extract_time_spec(ts: Seq<char>, max: nat, minus: bool, guarded: bool) -> Seq<char> {
    if (guarded && !holds_timestamp(ts)) || first_index_of(ts, 'T') < 0 {
        if ts.len() <= max { ts } else { ts.take(max as int) }
    } else {
        let tp = ts.skip(first_index_of(ts, 'T') + 1);
        let e = time_end(tp, minus);
        tp.take(if e < max { e } else { max as int })
    }
}

fn is_digit_exec(c: char) -> (r: bool)
    ensures
        r == is_digit(c),
{
    '0' <= c && c <= '9'
}

fn time_of_day_at_exec(cs: &Vec<char>, t: usize) -> (r: bool)
    ensures
        r == time_of_day_at(cs@, t as int),
{
    if t >= cs.len() || cs.len() - t < 6 {
        return false;
    }
    is_digit_exec(cs[t + 1]) && is_digit_exec(cs[t + 2]) && cs[t + 3] == ':' && is_digit_exec(cs[t + 4])
        && is_digit_exec(cs[t + 5])
}

fn extract_time_impl(ts: &str, max: usize, minus: bool, guarded: bool) -> (r: String)
    ensures
        r@ == extract_time_spec(ts@, max as nat, minus, guarded),
{
    let cs = chars_of(ts);
    let n = cs.len();
    proof {
        lemma_first_index_of(ts@, 'T');
    }
    let found = find_first(&cs, 'T');
    let stamped = match found {
        Some(t) => !guarded || time_of_day_at_exec(&cs, t),
        None => false,
    };
    match found {
        Some(t) if stamped => {
            assert(t < cs@.len());
            let tp = substring(ts, t + 1, cs.len());
            let tpc = chars_of(tp.as_str());
            let tn = tpc.len();
            proof {
                lemma_first_index_of(tp@, 'Z');
                lemma_first_index_of(tp@, '+');
                lemma_first_index_of(tp@, '-');
            }
            let e = match find_first(&tpc, 'Z') {
                Some(z) => z,
                None => match find_first(&tpc, '+') {
                    Some(p) => p,
                    None => if minus {
                        match find_first(&tpc, '-') {
                            Some(m) => m,
                            None => tpc.len(),
                        }
                    } else {
                        tpc.len()
                    },
                },
            };
            assert(e <= tpc@.len());
            let end = if e < max { e } else { max };
            substring(tp.as_str(), 0, end)
        },
        _ => {
            if cs.len() <= max {
                String::from_str(ts)
            } else {
                substring(ts, 0, max)
            }
        },
    }
}

/// The short time shown in the Lens: `HH:MM:SS` from an ISO 8601 timestamp (at most 8
/// characters after the first `T`, cut at `Z` or `+`); text without a `T` gives its first 8
/// characters. Positions are counted in characters.
pub fn extract_time(ts: &str) -> (r: String)
    ensures
        r@ == extract_time_spec(ts@, 8, false, false),
{
    extract_time_impl(ts, 8, false, false)
}

/// The time shown in each log row: `HH:MM:SS.mmm` from an ISO 8601 timestamp (at most 12
/// characters after a `T` followed by `HH:MM`, cut at `Z`, `+` or `-`); text that holds no
/// timestamp gives its first 12 characters. Positions are counted in characters.
pub fn extract_time_ms(ts: &str) -> (r: String)
    ensures
        r@ == extract_time_spec(ts@, 12, true, true),
{
    extract_time_impl(ts, 12, true, true)
}

/// A rough relative age: `à l'instant` under 2 seconds (and for dates in the future), then
/// seconds under a minute, minutes under an hour, hours beyond.
pub open spec fn relative_time_spec(secs: int) -> Seq<char> {
    if secs < 2 {
        "à l'instant"@
    } else if secs < 60 {
        "il y a "@ + int_decimal(secs) + " s"@
    } else if secs < 3600 {
        "il y a "@ + int_decimal(secs / 60) + " min"@
    } else {
        "il y a "@ + int_decimal(secs / 3600) + " h"@
    }
}

/// Renders an age given in whole seconds.
pub fn relative_time_label(secs: i64) -> (r: String)
    ensures
        r@ == relative_time_spec(secs as int),
{
    if secs < 2 {
        String::from_str("à l'instant")
    } else if secs < 60 {
        let n = i64_to_decimal(secs);
        concat3("il y a ", n.as_str(), " s")
    } else if secs < 3600 {
        let n = i64_to_decimal(secs / 60);
        concat3("il y a ", n.as_str(), " min")
    } else {
        let n = i64_to_decimal(secs / 3600);
        concat3("il y a ", n.as_str(), " h")
    }
}

/// The UNIX timestamp (seconds, and nanoseconds within the second) of the date-time that
/// `chrono` parses from an RFC 3339 text; `None` when it does not parse.
pub uninterp spec fn rfc3339_timestamp(ts: Seq<char>) -> Option<(i64, u32)>;

/// Calls `chrono::DateTime::parse_from_rfc3339` and reads the parsed date-time with
/// `timestamp` and `timestamp_subsec_nanos`. The result is named `rfc3339_timestamp`.
#[verifier::external_body]
fn parse_rfc3339(ts: &str) -> (r: Option<(i64, u32)>)
    ensures
        r == rfc3339_timestamp(ts@),
{
    chrono::DateTime::parse_from_rfc3339(ts).ok().map(|d| (d.timestamp(), d.timestamp_subsec_nanos()))
}

/// Calls `chrono::Utc::now` and gives the whole seconds elapsed since the date-time with
/// UNIX timestamp `secs` and `nanos` (`DateTime::from_timestamp`, `signed_duration_since`,
/// `TimeDelta::num_seconds`; 0 for a timestamp out of chrono's range). The value depends on
/// the clock: nothing is stated of it.
#[verifier::external_body]
fn seconds_since_timestamp(secs: i64, nanos: u32) -> i64 {
    match chrono::DateTime::from_timestamp(secs, nanos) {
        Some(then) => chrono::Utc::now().signed_duration_since(then).num_seconds(),
        None => 0,
    }
}

/// A rough age of an RFC 3339 timestamp (see `relative_time_spec`), measured on the clock;
/// empty when the timestamp does not parse.
pub fn format_relative_time(ts: &str) -> (r: String)
    ensures
        match rfc3339_timestamp(ts@) {
            None => r@ == Seq::<char>::empty(),
            Some(_) => exists|secs: i64| r@ == relative_time_spec(secs as int),
        },
{
    match parse_rfc3339(ts) {
        None => String::new(),
        Some((secs, nanos)) => {
            let age = seconds_since_timestamp(secs, nanos);
            let r = relative_time_label(age);
            assert(r@ == relative_time_spec(age as int));
            r
        },
    }
}

} // verus!
