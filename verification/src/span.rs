//! Span lifecycle entry types (`span_beg`, `scenario_end`, …) and their JSON payloads.
use vstd::prelude::*;
use crate::json::{
    bool_field, bool_of, field, field_views, find_field, json_object_fields, lemma_field_from_key, opt_chars,
    parse_json_object, str_field, str_of, u64_field, u64_of, JsonField, JsonFieldSpec,
};
use crate::text::str_eq;
use serde_json::Value;

verus! {

#[derive(Debug, Clone, Copy, PartialEq, Eq, Structural)]
pub enum SpanPhase {
    Beg,
    End,
}

/// A span begin or end event decoded from a log entry.
#[derive(Debug, Clone, PartialEq)]
pub struct SpanEvent {
    pub phase: SpanPhase,
    pub span_id: String,
    pub name: Option<String>,
    pub kind: String,
    pub success: Option<bool>,
    pub error: Option<String>,
    pub duration_ms: Option<u64>,
    pub metadata: Option<Value>,
    pub result: Option<Value>,
}

pub open spec fn is_span_type_spec(t: Seq<char>) -> bool {
    t == "span_beg"@ || t == "span_end"@ || t == "scenario_beg"@ || t == "scenario_end"@ || t
        == "tool_call_beg"@ || t == "tool_call_end"@ || t == "step_beg"@ || t == "step_end"@
}

pub open spec fn is_span_begin_type_spec(t: Seq<char>) -> bool {
    t == "span_beg"@ || t == "scenario_beg"@ || t == "tool_call_beg"@ || t == "step_beg"@
}

/// The span kind that a type descriptor implies, if any.
pub open spec fn implied_kind_spec(t: Seq<char>) -> Option<Seq<char>> {
    if t == "scenario_beg"@ || t == "scenario_end"@ {
        Some("scenario"@)
    } else if t == "tool_call_beg"@ || t == "tool_call_end"@ {
        Some("tool_call"@)
    } else if t == "step_beg"@ || t == "step_end"@ {
        Some("step"@)
    } else {
        None
    }
}

impl SpanEvent {
    pub fn is_scenario(&self) -> (r: bool)
        ensures
            r == (self.kind@ == "scenario"@),
    {
        str_eq(self.kind.as_str(), "scenario")
    }

    pub fn is_step(&self) -> (r: bool)
        ensures
            r == (self.kind@ == "step"@),
    {
        str_eq(self.kind.as_str(), "step")
    }
}

/// Whether the type descriptor is one of the eight span types.
pub fn is_span_type(type_str: &str) -> (r: bool)
    ensures
        r == is_span_type_spec(type_str@),
{
    str_eq(type_str, "span_beg") || str_eq(type_str, "span_end") || str_eq(type_str, "scenario_beg")
        || str_eq(type_str, "scenario_end") || str_eq(type_str, "tool_call_beg") || str_eq(
        type_str,
        "tool_call_end",
    ) || str_eq(type_str, "step_beg") || str_eq(type_str, "step_end")
}

/// Whether the type descriptor opens a span.
pub fn is_span_begin_type(type_str: &str) -> (r: bool)
    ensures
        r == is_span_begin_type_spec(type_str@),
{
    str_eq(type_str, "span_beg") || str_eq(type_str, "scenario_beg") || str_eq(
        type_str,
        "tool_call_beg",
    ) || str_eq(type_str, "step_beg")
}

/// The span kind implied by a type descriptor (`scenario`, `tool_call` or `step`), if any.
pub fn implied_kind(type_str: &str) -> (r: Option<&'static str>)
    ensures
        match implied_kind_spec(type_str@) {
            Some(k) => r matches Some(s) && s@ == k,
            None => r is None,
        },
{
    if str_eq(type_str, "scenario_beg") || str_eq(type_str, "scenario_end") {
        Some("scenario")
    } else if str_eq(type_str, "tool_call_beg") || str_eq(type_str, "tool_call_end") {
        Some("tool_call")
    } else if str_eq(type_str, "step_beg") || str_eq(type_str, "step_end") {
        Some("step")
    } else {
        None
    }
}

/// What a span event says; of its metadata and result, only whether they are present.
pub struct SpanEventSpec {
    pub phase: SpanPhase,
    pub span_id: Seq<char>,
    pub name: Option<Seq<char>>,
    pub kind: Seq<char>,
    pub success: Option<bool>,
    pub error: Option<Seq<char>>,
    pub duration_ms: Option<u64>,
    pub has_metadata: bool,
    pub has_result: bool,
}

impl View for SpanEvent {
    type V = SpanEventSpec;

    open spec fn view(&self) -> SpanEventSpec {
        SpanEventSpec {
            phase: self.phase,
            span_id: self.span_id@,
            name: opt_chars(self.name),
            kind: self.kind@,
            success: self.success,
            error: opt_chars(self.error),
            duration_ms: self.duration_ms,
            has_metadata: self.metadata is Some,
            has_result: self.result is Some,
        }
    }
}

/// The span event of an entry of type `t` whose data parses to `parsed`: for the span types,
/// when the data is a JSON object with a string `span_id`. The kind is the one the type
/// implies, else the string `kind`, else `span`; `name`, `success`, `error` and
/// `duration_ms` are read when they have the right form, `metadata` and `result` when present.
pub open spec fn span_event_spec(t: Seq<char>, parsed: Option<Seq<JsonFieldSpec>>) -> Option<SpanEventSpec> {
    if !is_span_type_spec(t) {
        None
    } else {
        match parsed {
            None => None,
            Some(fs) => match str_of(fs, "span_id"@) {
                None => None,
                Some(id) => Some(
                    SpanEventSpec {
                        phase: if is_span_begin_type_spec(t) {
                            SpanPhase::Beg
                        } else {
                            SpanPhase::End
                        },
                        span_id: id,
                        name: str_of(fs, "name"@),
                        kind: match implied_kind_spec(t) {
                            Some(k) => k,
                            None => match str_of(fs, "kind"@) {
                                Some(k) => k,
                                None => "span"@,
                            },
                        },
                        success: bool_of(fs, "success"@),
                        error: str_of(fs, "error"@),
                        duration_ms: u64_of(fs, "duration_ms"@),
                        has_metadata: field(fs, "metadata"@) is Some,
                        has_result: field(fs, "result"@) is Some,
                    },
                ),
            },
        }
    }
}

/// Takes out of `fields` the values of the fields at `mi` and `ri` (two distinct positions,
/// when both are given).
fn take_values(fields: Vec<JsonField>, mi: Option<usize>, ri: Option<usize>) -> (r: (Option<Value>, Option<Value>))
    requires
        mi matches Some(a) ==> a < fields@.len(),
        ri matches Some(b) ==> b < fields@.len(),
        mi is Some && ri is Some ==> mi->0 != ri->0,
    ensures
        r.0 is Some <==> mi is Some,
        r.1 is Some <==> ri is Some,
{
    let mut fields = fields;
    match (mi, ri) {
        (Some(a), Some(b)) => {
            if a > b {
                let m = fields.remove(a);
                let r = fields.remove(b);
                (Some(m.value), Some(r.value))
            } else {
                let r = fields.remove(b);
                let m = fields.remove(a);
                (Some(m.value), Some(r.value))
            }
        },
        (Some(a), None) => (Some(fields.remove(a).value), None),
        (None, Some(b)) => (None, Some(fields.remove(b).value)),
        (None, None) => (None, None),
    }
}

/// Decodes a span event from a log entry (see `span_event_spec`).
pub fn parse_span_event(type_str: &str, data: &[u8]) -> (r: Option<SpanEvent>)
    ensures
        match r {
            Some(e) => span_event_spec(type_str@, json_object_fields(data@)) == Some(e@),
            None => span_event_spec(type_str@, json_object_fields(data@)) is None,
        },
{
    if !is_span_type(type_str) {
        return None;
    }
    let fields = match parse_json_object(data) {
        Some(f) => f,
        None => return None,
    };
    let phase = if is_span_begin_type(type_str) {
        SpanPhase::Beg
    } else {
        SpanPhase::End
    };
    let span_id = match str_field(&fields, "span_id") {
        Some(s) => s,
        None => return None,
    };
    let kind = match implied_kind(type_str) {
        Some(k) => String::from_str(k),
        None => match str_field(&fields, "kind") {
            Some(k) => k,
            None => String::from_str("span"),
        },
    };
    let name = str_field(&fields, "name");
    let success = bool_field(&fields, "success");
    let error = str_field(&fields, "error");
    let duration_ms = u64_field(&fields, "duration_ms");
    let mi = find_field(&fields, "metadata");
    let ri = find_field(&fields, "result");
    proof {
        reveal_strlit("metadata");
        reveal_strlit("result");
        lemma_field_from_key(field_views(fields@), "metadata"@, 0);
        lemma_field_from_key(field_views(fields@), "result"@, 0);
        if mi is Some && ri is Some {
            let a = mi->0 as int;
            let b = ri->0 as int;
            assert(fields@[a]@.key == "metadata"@);
            assert(fields@[b]@.key == "result"@);
            assert("metadata"@.len() != "result"@.len());
            assert(a != b);
        }
    }
    let (metadata, result) = take_values(fields, mi, ri);
    Some(SpanEvent { phase, span_id, name, kind, success, error, duration_ms, metadata, result })
}

/// The label shown for a span entry: the span's name, else its identifier; `None` when the
/// entry does not decode as a span event.
pub fn span_label(data_type: &str, data: &[u8]) -> (r: Option<String>)
    ensures
        opt_chars(r) == match span_event_spec(data_type@, json_object_fields(data@)) {
            Some(e) => Some(
                match e.name {
                    Some(n) => n,
                    None => e.span_id,
                },
            ),
            None => None,
        },
{
    match parse_span_event(data_type, data) {
        Some(ev) => match ev.name {
            Some(n) => Some(n),
            None => Some(ev.span_id),
        },
        None => None,
    }
}

} // verus!
