//! Log entries as held in memory by the viewer, and the test-scenario markers they carry.
use vstd::prelude::*;
use crate::json::{
    bool_field, bool_of, json_object_fields, opt_chars, parse_json_object, str_field, str_of, JsonFieldSpec,
};
use crate::level::LuluLevel;
use crate::text::str_eq;

verus! {

/// A log entry as stored in memory by the application.
///
/// Contains data extracted from the MQTT topic and FlatBuffers payload,
/// plus the raw payload for export.
#[derive(Debug, Clone, PartialEq)]
pub struct LuluLogEntry {
    /// Full MQTT topic received (e.g. "lulu/psu/power-supply/channel-1/voltage").
    pub topic: String,
    /// Multi-level source extracted from the topic (segments 1..N-1 rejoined with "/").
    pub source: String,
    /// Attribute extracted from the topic (last segment).
    pub attribute: String,
    /// ISO 8601 UTC timestamp as received in the payload.
    pub timestamp: String,
    /// Severity level.
    pub level: LuluLevel,
    /// Data type descriptor.
    pub data_type: String,
    /// Decoded value ready for display.
    pub decoded_value: String,
    /// Raw data bytes extracted from the FlatBuffers payload (pre-interpretation).
    pub data_bytes: Vec<u8>,
    /// Raw FlatBuffers payload (kept for export).
    pub raw_payload: Vec<u8>,
}

/// The test-scenario boundary that a `beg_test_scenario` / `end_test_scenario` entry marks.
#[derive(Debug, Clone, PartialEq)]
pub enum ScenarioMarker {
    Begin { name: String },
    End { name: String, success: bool, error: String },
}

/// Copies a byte vector.
pub fn copy_bytes(v: &Vec<u8>) -> (r: Vec<u8>)
    ensures
        r@ == v@,
{
    let r = v.clone();
    assert(r@ =~= v@);
    r
}

/// What a scenario marker says.
pub enum MarkerSpec {
    Begin(Seq<char>),
    End(Seq<char>, bool, Seq<char>),
}

impl View for ScenarioMarker {
    type V = MarkerSpec;

    open spec fn view(&self) -> MarkerSpec {
        match self {
            ScenarioMarker::Begin { name } => MarkerSpec::Begin(name@),
            ScenarioMarker::End { name, success, error } => MarkerSpec::End(name@, *success, error@),
        }
    }
}

/// The marker of an entry of type `t` whose data parses to `parsed`: for the two scenario
/// types, when the data is a JSON object with a string `name`. An end marker takes the
/// boolean `success` (else `false`) and the string `error` (else empty).
pub open spec fn marker_spec(t: Seq<char>, parsed: Option<Seq<JsonFieldSpec>>) -> Option<MarkerSpec> {
    if t != "beg_test_scenario"@ && t != "end_test_scenario"@ {
        None
    } else {
        match parsed {
            None => None,
            Some(fs) => match str_of(fs, "name"@) {
                None => None,
                Some(name) => if t == "beg_test_scenario"@ {
                    Some(MarkerSpec::Begin(name))
                } else {
                    Some(
                        MarkerSpec::End(
                            name,
                            match bool_of(fs, "success"@) {
                                Some(b) => b,
                                None => false,
                            },
                            match str_of(fs, "error"@) {
                                Some(e) => e,
                                None => Seq::empty(),
                            },
                        ),
                    )
                },
            },
        }
    }
}

/// The scenario marker carried by an entry (see `marker_spec`).
pub fn scenario_marker(data_type: &str, data: &[u8]) -> (r: Option<ScenarioMarker>)
    ensures
        match r {
            Some(m) => marker_spec(data_type@, json_object_fields(data@)) == Some(m@),
            None => marker_spec(data_type@, json_object_fields(data@)) is None,
        },
{
    let is_beg = str_eq(data_type, "beg_test_scenario");
    let is_end = str_eq(data_type, "end_test_scenario");
    if !is_beg && !is_end {
        return None;
    }
    let fields = match parse_json_object(data) {
        Some(f) => f,
        None => return None,
    };
    let name = match str_field(&fields, "name") {
        Some(s) => s,
        None => return None,
    };
    if is_beg {
        return Some(ScenarioMarker::Begin { name });
    }
    let success = match bool_field(&fields, "success") {
        Some(b) => b,
        None => false,
    };
    let error = match str_field(&fields, "error") {
        Some(s) => s,
        None => String::new(),
    };
    Some(ScenarioMarker::End { name, success, error })
}

/// The `timestamp` string (empty when absent) and the optional `version` string of a
/// heartbeat's JSON payload.
pub fn pulse_payload_fields(payload: &[u8]) -> (r: (String, Option<String>))
    ensures
        match json_object_fields(payload@) {
            Some(fs) => {
                &&& r.0@ == match str_of(fs, "timestamp"@) {
                    Some(t) => t,
                    None => Seq::empty(),
                }
                &&& opt_chars(r.1) == str_of(fs, "version"@)
            },
            None => r.0@ == Seq::<char>::empty() && r.1 is None,
        },
{
    match parse_json_object(payload) {
        Some(fields) => {
            let ts = match str_field(&fields, "timestamp") {
                Some(s) => s,
                None => String::new(),
            };
            (ts, str_field(&fields, "version"))
        },
        None => (String::new(), None),
    }
}

} // verus!
