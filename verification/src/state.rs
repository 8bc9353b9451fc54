//! The viewer's in-memory state and how received messages, filters and user actions change it.
use vstd::prelude::*;
use std::time::Instant;
use crate::entry::{copy_bytes, LuluLogEntry, ScenarioMarker};
use crate::lens_pin::{ActiveView, LensLayout, LensPinData, PinnedValue, MAX_PIN_VALUES};
use crate::pulse::PulseSourceEntry;
use crate::scenario::{ScenarioStatus, TestScenario};
use crate::sorted::{contains_view, distinct_views, has_view, insert_sorted, lemma_sorted_distinct, position_of, sorted_strict};
use crate::json::json_object_fields;
use crate::span::{span_event_spec, span_label};
use crate::text::{contains_str, has_substring, lemma_seq_lt_transitive, lemma_seq_lt_trichotomy, seq_lt, str_eq, str_lt, to_lowercase, unicode_lowercase};

verus! {

/// Identifies which panel is displayed in the side panel.
#[derive(Clone, Copy, PartialEq, Eq, Debug, Structural)]
pub enum ActivePanel {
    Sources,
    Attributes,
    Scenarios,
    Pulse,
    Controls,
}

/// State shared across the viewer: received logs, discovered names, filters, tracked
/// scenarios, heartbeats and Lens pins.
pub struct AppState {
    /// Log entries stored in memory.
    pub logs: Vec<LuluLogEntry>,
    /// Distinct known sources, sorted.
    pub known_sources: Vec<String>,
    /// Distinct known attributes, sorted.
    pub known_attributes: Vec<String>,
    /// Hidden sources (a set: no name twice).
    pub hidden_sources: Vec<String>,
    /// Hidden attributes (a set: no name twice).
    pub hidden_attributes: Vec<String>,
    /// Text filter on the source name (case-insensitive substring match).
    pub source_filter_text: String,
    /// Text filter on the attribute name (case-insensitive substring match).
    pub attribute_filter_text: String,
    /// Flow is paused (new messages are ignored while paused).
    pub is_paused: bool,
    /// Auto-scroll to bottom enabled.
    pub auto_scroll: bool,
    /// MQTT client is connected to the broker.
    pub connected: bool,
    /// Messages accepted since the last clear.
    pub total_received: usize,
    /// Tracked test scenarios (correlated beg/end pairs).
    pub scenarios: Vec<TestScenario>,
    /// When set, only logs of this scenario (name, source) are shown.
    pub selected_scenario: Option<(String, String)>,
    /// Heartbeat entries, one per source.
    pub pulse_sources: Vec<PulseSourceEntry>,
    /// Incremented every second to re-evaluate heartbeat states.
    pub pulse_tick: u64,
    /// Currently active side panel (None = side panel closed).
    pub active_panel: Option<ActivePanel>,
    /// Which view is active in the main area.
    pub active_view: ActiveView,
    /// Pinned (source, attribute) widgets in the Lens.
    pub lens_pins: Vec<LensPinData>,
    /// Current layout preset for Lens widgets.
    pub lens_layout: LensLayout,
}

/// `v` is the value a pin records for entry `e`: the entry's timestamp and decoded text, its
/// raw bytes when the pin holds `bytes`, and its attribute when the pin pairs two attributes.
pub open spec fn pinned_value_of(pin: LensPinData, e: LuluLogEntry, v: PinnedValue) -> bool {
    &&& v.timestamp == e.timestamp
    &&& v.raw == e.decoded_value
    &&& if pin.data_type@ == "bytes"@ {
        v.raw_bytes matches Some(b) && b@ == e.data_bytes@
    } else {
        v.raw_bytes is None
    }
    &&& if pin.paired_attribute is Some {
        v.value_attribute == Some(e.attribute)
    } else {
        v.value_attribute is None
    }
}

/// Values after pushing `v` into a pin that holds `vals` (see `LensPinData::push_value`).
pub open spec fn pushed_values(vals: Seq<PinnedValue>, v: PinnedValue) -> Seq<PinnedValue> {
    (if vals.len() >= MAX_PIN_VALUES {
        vals.drop_first()
    } else {
        vals
    }).push(v)
}

/// `after` is `before` fed with entry `e`: it records the entry when it matches the entry's
/// source and attribute, and is otherwise unchanged.
pub open spec fn pin_fed(before: LensPinData, after: LensPinData, e: LuluLogEntry) -> bool {
    &&& after.source == before.source
    &&& after.attribute == before.attribute
    &&& after.data_type == before.data_type
    &&& after.paired_attribute == before.paired_attribute
    &&& if before.matches_spec(e.source@, e.attribute@) {
        &&& after.values@.len() > 0
        &&& after.values@ == pushed_values(before.values@, after.values@.last())
        &&& pinned_value_of(before, e, after.values@.last())
    } else {
        after.values@ == before.values@
    }
}

/// The settings that storing a log entry leaves untouched.
pub open spec fn same_settings(a: AppState, b: AppState) -> bool {
    &&& a.hidden_sources == b.hidden_sources
    &&& a.hidden_attributes == b.hidden_attributes
    &&& a.source_filter_text == b.source_filter_text
    &&& a.attribute_filter_text == b.attribute_filter_text
    &&& a.is_paused == b.is_paused
    &&& a.auto_scroll == b.auto_scroll
    &&& a.connected == b.connected
    &&& a.selected_scenario == b.selected_scenario
    &&& a.pulse_sources == b.pulse_sources
    &&& a.pulse_tick == b.pulse_tick
    &&& a.active_panel == b.active_panel
    &&& a.active_view == b.active_view
    &&& a.lens_layout == b.lens_layout
}

/// Index of the last scenario of `name` from `source` that has not ended, or `-1`.
pub open spec fn last_open_scenario(scs: Seq<TestScenario>, name: Seq<char>, source: Seq<char>) -> int
    decreases scs.len(),
{
    if scs.len() == 0 {
        -1
    } else if scs.last().name@ == name && scs.last().source@ == source && scs.last().end_log_index
        is None {
        scs.len() - 1
    } else {
        last_open_scenario(scs.drop_last(), name, source)
    }
}

/// The scenarios after the entry `e`, stored at index `idx`, carrying `marker`: a begin opens a
/// new scenario; an end closes the last open scenario of the same name and source (an end
/// without such a scenario is ignored).
pub open spec fn scenarios_after(
    scs: Seq<TestScenario>,
    marker: Option<ScenarioMarker>,
    e: LuluLogEntry,
    idx: usize,
) -> Seq<TestScenario> {
    match marker {
        None => scs,
        Some(ScenarioMarker::Begin { name }) => scs.push(
            TestScenario {
                span_id: name,
                name: name,
                source: e.source,
                attribute: e.attribute,
                beg_timestamp: e.timestamp,
                end_timestamp: None,
                beg_log_index: idx,
                end_log_index: None,
                status: ScenarioStatus::InProgress,
            },
        ),
        Some(ScenarioMarker::End { name, success, error }) => {
            let k = last_open_scenario(scs, name@, e.source@);
            if k < 0 {
                scs
            } else {
                scs.update(
                    k,
                    TestScenario {
                        end_timestamp: Some(e.timestamp),
                        end_log_index: Some(idx),
                        status: if success {
                            ScenarioStatus::Success
                        } else {
                            ScenarioStatus::Failure(error)
                        },
                        ..scs[k]
                    },
                )
            }
        },
    }
}

/// Index of the heartbeat entry of `source`, if any.
fn pulse_position(v: &Vec<PulseSourceEntry>, source: &str) -> (r: Option<usize>)
    ensures
        match r {
            Some(k) => k < v@.len() && v@[k as int].source@ == source@,
            None => forall|k: int| 0 <= k < v@.len() ==> (#[trigger] v@[k]).source@ != source@,
        },
{
    let mut i: usize = 0;
    while i < v.len()
        invariant
            i <= v@.len(),
            forall|k: int| 0 <= k < i ==> (#[trigger] v@[k]).source@ != source@,
        decreases v.len() - i,
    {
        if str_eq(v[i].source.as_str(), source) {
            return Some(i);
        }
        i = i + 1;
    }
    None
}

pub proof fn lemma_last_open_scenario(scs: Seq<TestScenario>, name: Seq<char>, source: Seq<char>)
    ensures
        -1 <= last_open_scenario(scs, name, source) < scs.len(),
        last_open_scenario(scs, name, source) >= 0 ==> {
            let sc = scs[last_open_scenario(scs, name, source)];
            &&& sc.name@ == name
            &&& sc.source@ == source
            &&& sc.end_log_index is None
        },
    decreases scs.len(),
{
    if scs.len() > 0 {
        lemma_last_open_scenario(scs.drop_last(), name, source);
    }
}

/// A free-text filter passes when it is empty, or when the lowercased name contains the
/// lowercased filter text.
pub open spec fn text_filter_passes(name: Seq<char>, filter: Seq<char>) -> bool {
    filter.len() == 0 || has_substring(unicode_lowercase(name), unicode_lowercase(filter))
}

/// Index of the first scenario of `name` from `source`, or `-1`.
pub open spec fn first_scenario_named(scs: Seq<TestScenario>, name: Seq<char>, source: Seq<char>) -> int
    decreases scs.len(),
{
    if scs.len() == 0 {
        -1
    } else if scs[0].name@ == name && scs[0].source@ == source {
        0
    } else {
        let r = first_scenario_named(scs.drop_first(), name, source);
        if r < 0 { -1 } else { r + 1 }
    }
}

pub proof fn lemma_first_scenario_named(scs: Seq<TestScenario>, name: Seq<char>, source: Seq<char>)
    ensures
        -1 <= first_scenario_named(scs, name, source) < scs.len(),
    decreases scs.len(),
{
    if scs.len() > 0 {
        lemma_first_scenario_named(scs.drop_first(), name, source);
    }
}

/// Whether a log entry at `idx` passes the five visibility filters: its source and its
/// attribute are not hidden, both pass their text filters, and when a scenario is selected,
/// the first scenario of that name and source exists and contains the entry.
pub open spec fn entry_visible(st: AppState, e: LuluLogEntry, idx: usize) -> bool {
    &&& !has_view(st.hidden_sources@, e.source@)
    &&& !has_view(st.hidden_attributes@, e.attribute@)
    &&& text_filter_passes(e.source@, st.source_filter_text@)
    &&& text_filter_passes(e.attribute@, st.attribute_filter_text@)
    &&& (st.selected_scenario matches Some(sel) ==> {
        let k = first_scenario_named(st.scenarios@, sel.0@, sel.1@);
        k >= 0 && st.scenarios@[k].contains_spec(idx)
    })
}

/// Indices `0..n` of the stored logs that are visible, in increasing order.
pub open spec fn visible_indices(st: AppState, n: nat) -> Seq<usize>
    decreases n,
{
    if n == 0 {
        seq![]
    } else {
        let prev = visible_indices(st, (n - 1) as nat);
        if entry_visible(st, st.logs@[n - 1], (n - 1) as usize) {
            prev.push((n - 1) as usize)
        } else {
            prev
        }
    }
}

/// Whether `name` passes a free-text filter.
pub fn text_filter_matches(name: &str, filter: &str) -> (r: bool)
    ensures
        r == text_filter_passes(name@, filter@),
{
    if filter.is_empty() {
        return true;
    }
    let n = to_lowercase(name);
    let f = to_lowercase(filter);
    contains_str(n.as_str(), f.as_str())
}

fn first_scenario_position(scs: &Vec<TestScenario>, name: &str, source: &str) -> (r: Option<usize>)
    ensures
        match r {
            Some(k) => k == first_scenario_named(scs@, name@, source@) && k < scs@.len(),
            None => first_scenario_named(scs@, name@, source@) == -1,
        },
{
    proof {
        lemma_first_scenario_named(scs@, name@, source@);
    }
    let mut i: usize = 0;
    assert(scs@.skip(0) =~= scs@);
    while i < scs.len()
        invariant
            i <= scs@.len(),
            forall|k: int| 0 <= k < i ==> !((#[trigger] scs@[k]).name@ == name@ && scs@[k].source@ == source@),
            first_scenario_named(scs@, name@, source@) == (if first_scenario_named(scs@.skip(i as int), name@, source@) < 0 {
                -1
            } else {
                first_scenario_named(scs@.skip(i as int), name@, source@) + i
            }),
        decreases scs.len() - i,
    {
        assert(scs@.skip(i as int)[0] == scs@[i as int]);
        assert(scs@.skip(i as int).drop_first() =~= scs@.skip(i + 1));
        if str_eq(scs[i].name.as_str(), name) && str_eq(scs[i].source.as_str(), source) {
            return Some(i);
        }
        i = i + 1;
    }
    None
}

/// Returns `true` if the given log entry passes all 5 visibility filters.
pub fn is_entry_visible(entry: &LuluLogEntry, state: &AppState, log_index: usize) -> (r: bool)
    ensures
        r == entry_visible(*state, *entry, log_index),
{
    if contains_view(&state.hidden_sources, entry.source.as_str()) {
        return false;
    }
    if contains_view(&state.hidden_attributes, entry.attribute.as_str()) {
        return false;
    }
    if !text_filter_matches(entry.source.as_str(), state.source_filter_text.as_str()) {
        return false;
    }
    if !text_filter_matches(entry.attribute.as_str(), state.attribute_filter_text.as_str()) {
        return false;
    }
    match &state.selected_scenario {
        Some(sel) => match first_scenario_position(&state.scenarios, sel.0.as_str(), sel.1.as_str()) {
            Some(k) => state.scenarios[k].contains_log_index(log_index),
            None => false,
        },
        None => true,
    }
}

/// Indices of the logs `0..n` of `source` and `attribute`, in increasing order.
pub open spec fn single_history(logs: Seq<LuluLogEntry>, n: nat, source: Seq<char>, attribute: Seq<char>) -> Seq<usize>
    decreases n,
{
    if n == 0 {
        seq![]
    } else {
        let prev = single_history(logs, (n - 1) as nat, source, attribute);
        if logs[n - 1].source@ == source && logs[n - 1].attribute@ == attribute {
            prev.push((n - 1) as usize)
        } else {
            prev
        }
    }
}

/// Indices of the logs `0..n` of `source` on attribute `RX` or `TX` holding `bytes`, in
/// increasing order.
pub open spec fn rx_tx_history(logs: Seq<LuluLogEntry>, n: nat, source: Seq<char>) -> Seq<usize>
    decreases n,
{
    if n == 0 {
        seq![]
    } else {
        let prev = rx_tx_history(logs, (n - 1) as nat, source);
        let e = logs[n - 1];
        if e.source@ == source && (e.attribute@ == "RX"@ || e.attribute@ == "TX"@) && e.data_type@
            == "bytes"@ {
            prev.push((n - 1) as usize)
        } else {
            prev
        }
    }
}

/// `v` records entry `e`; with its raw bytes when `with_bytes`, with its attribute when
/// `with_attribute`.
pub open spec fn value_records(v: PinnedValue, e: LuluLogEntry, with_bytes: bool, with_attribute: bool) -> bool {
    &&& v.timestamp == e.timestamp
    &&& v.raw == e.decoded_value
    &&& if with_bytes {
        v.raw_bytes matches Some(b) && b@ == e.data_bytes@
    } else {
        v.raw_bytes is None
    }
    &&& if with_attribute {
        v.value_attribute == Some(e.attribute)
    } else {
        v.value_attribute is None
    }
}

/// `vals` records the last `MAX_PIN_VALUES` entries of `logs` listed in `h`.
pub open spec fn records_latest(
    vals: Seq<PinnedValue>,
    logs: Seq<LuluLogEntry>,
    h: Seq<usize>,
    with_bytes: bool,
    with_attribute: bool,
) -> bool {
    let skip = if h.len() > MAX_PIN_VALUES { h.len() - MAX_PIN_VALUES } else { 0 };
    &&& vals.len() == h.len() - skip
    &&& forall|j: int|
        0 <= j < vals.len() ==> value_records(
            #[trigger] vals[j],
            logs[h[skip + j] as int],
            with_bytes,
            with_attribute,
        )
}

/// A pin on `source` / `attribute` alone already exists.
pub open spec fn has_single_pin(pins: Seq<LensPinData>, source: Seq<char>, attribute: Seq<char>) -> bool {
    exists|i: int|
        0 <= i < pins.len() && (#[trigger] pins[i]).matches_spec(source, attribute) && pins[i].paired_attribute is None
}

/// A combined `RX` + `TX` pin on `source` already exists.
pub open spec fn has_rx_tx_pin(pins: Seq<LensPinData>, source: Seq<char>) -> bool {
    exists|i: int|
        0 <= i < pins.len() && (#[trigger] pins[i]).source@ == source && pins[i].attribute@ == "RX"@ && (
        pins[i].paired_attribute matches Some(p) && p@ == "TX"@)
}

fn single_history_exec(logs: &Vec<LuluLogEntry>, source: &str, attribute: &str) -> (r: Vec<usize>)
    ensures
        r@ == single_history(logs@, logs@.len(), source@, attribute@),
        forall|j: int| 0 <= j < r@.len() ==> #[trigger] r@[j] < logs@.len(),
{
    let mut r: Vec<usize> = Vec::new();
    let mut i: usize = 0;
    while i < logs.len()
        invariant
            i <= logs@.len(),
            r@ == single_history(logs@, i as nat, source@, attribute@),
            forall|j: int| 0 <= j < r@.len() ==> #[trigger] r@[j] < i,
        decreases logs.len() - i,
    {
        if str_eq(logs[i].source.as_str(), source) && str_eq(logs[i].attribute.as_str(), attribute) {
            r.push(i);
        }
        i = i + 1;
    }
    r
}

fn rx_tx_history_exec(logs: &Vec<LuluLogEntry>, source: &str) -> (r: Vec<usize>)
    ensures
        r@ == rx_tx_history(logs@, logs@.len(), source@),
        forall|j: int| 0 <= j < r@.len() ==> #[trigger] r@[j] < logs@.len(),
{
    let mut r: Vec<usize> = Vec::new();
    let mut i: usize = 0;
    while i < logs.len()
        invariant
            i <= logs@.len(),
            r@ == rx_tx_history(logs@, i as nat, source@),
            forall|j: int| 0 <= j < r@.len() ==> #[trigger] r@[j] < i,
        decreases logs.len() - i,
    {
        let e = &logs[i];
        if str_eq(e.source.as_str(), source) && (str_eq(e.attribute.as_str(), "RX") || str_eq(
            e.attribute.as_str(),
            "TX",
        )) && str_eq(e.data_type.as_str(), "bytes") {
            r.push(i);
        }
        i = i + 1;
    }
    r
}

/// Fills an empty pin with the entries listed in `h`, keeping the last `MAX_PIN_VALUES`.
fn fill_pin(
    pin: &mut LensPinData,
    logs: &Vec<LuluLogEntry>,
    h: &Vec<usize>,
    with_bytes: bool,
    with_attribute: bool,
)
    requires
        old(pin).values@.len() == 0,
        forall|j: int| 0 <= j < h@.len() ==> #[trigger] h@[j] < logs@.len(),
    ensures
        records_latest(final(pin).values@, logs@, h@, with_bytes, with_attribute),
        final(pin).wf(),
        final(pin).source == old(pin).source,
        final(pin).attribute == old(pin).attribute,
        final(pin).data_type == old(pin).data_type,
        final(pin).paired_attribute == old(pin).paired_attribute,
{
    let skip: usize = if h.len() > MAX_PIN_VALUES { h.len() - MAX_PIN_VALUES } else { 0 };
    let mut i: usize = skip;
    while i < h.len()
        invariant
            skip <= i <= h@.len(),
            skip == (if h@.len() > MAX_PIN_VALUES { h@.len() - MAX_PIN_VALUES } else { 0int }),
            forall|j: int| 0 <= j < h@.len() ==> #[trigger] h@[j] < logs@.len(),
            pin.values@.len() == i - skip,
            forall|j: int|
                0 <= j < pin.values@.len() ==> value_records(
                    #[trigger] pin.values@[j],
                    logs@[h@[skip + j] as int],
                    with_bytes,
                    with_attribute,
                ),
            pin.source == old(pin).source,
            pin.attribute == old(pin).attribute,
            pin.data_type == old(pin).data_type,
            pin.paired_attribute == old(pin).paired_attribute,
        decreases h.len() - i,
    {
        let e = &logs[h[i]];
        let raw_bytes = if with_bytes {
            Some(copy_bytes(&e.data_bytes))
        } else {
            None
        };
        let value_attribute = if with_attribute {
            Some(e.attribute.clone())
        } else {
            None
        };
        pin.values.push_back(
            PinnedValue {
                timestamp: e.timestamp.clone(),
                raw: e.decoded_value.clone(),
                raw_bytes,
                value_attribute,
            },
        );
        i = i + 1;
    }
}

fn single_pin_exists(pins: &Vec<LensPinData>, source: &str, attribute: &str) -> (r: bool)
    ensures
        r == has_single_pin(pins@, source@, attribute@),
{
    let mut i: usize = 0;
    while i < pins.len()
        invariant
            i <= pins@.len(),
            forall|k: int|
                0 <= k < i ==> !((#[trigger] pins@[k]).matches_spec(source@, attribute@)
                    && pins@[k].paired_attribute is None),
        decreases pins.len() - i,
    {
        if pins[i].matches(source, attribute) && pins[i].paired_attribute.is_none() {
            return true;
        }
        i = i + 1;
    }
    false
}

fn rx_tx_pin_exists(pins: &Vec<LensPinData>, source: &str) -> (r: bool)
    ensures
        r == has_rx_tx_pin(pins@, source@),
{
    let mut i: usize = 0;
    while i < pins.len()
        invariant
            i <= pins@.len(),
            forall|k: int|
                0 <= k < i ==> !((#[trigger] pins@[k]).source@ == source@
                    && pins@[k].attribute@ == "RX"@ && (pins@[k].paired_attribute matches Some(p)
                    && p@ == "TX"@)),
        decreases pins.len() - i,
    {
        let p = &pins[i];
        let paired_tx = match &p.paired_attribute {
            Some(q) => str_eq(q.as_str(), "TX"),
            None => false,
        };
        if str_eq(p.source.as_str(), source) && str_eq(p.attribute.as_str(), "RX") && paired_tx {
            return true;
        }
        i = i + 1;
    }
    false
}

/// Copies a list of names.
fn copy_names(v: &Vec<String>) -> (r: Vec<String>)
    ensures
        r@ == v@,
{
    let mut r: Vec<String> = Vec::new();
    let mut i: usize = 0;
    while i < v.len()
        invariant
            i <= v@.len(),
            r@ == v@.take(i as int),
        decreases v.len() - i,
    {
        r.push(v[i].clone());
        assert(r@ =~= v@.take(i + 1));
        i = i + 1;
    }
    assert(v@.take(v@.len() as int) =~= v@);
    r
}

/// `after` is the set of names `before` with `name` removed when it was there, added when it
/// was not.
pub open spec fn toggled(before: Seq<String>, after: Seq<String>, name: Seq<char>) -> bool {
    forall|y: Seq<char>|
        has_view(after, y) <==> if has_view(before, name) {
            has_view(before, y) && y != name
        } else {
            has_view(before, y) || y == name
        }
}

/// Toggling the same name twice gives back the same set of names.
pub proof fn lemma_toggle_twice(v0: Seq<String>, v1: Seq<String>, v2: Seq<String>, name: Seq<char>)
    requires
        toggled(v0, v1, name),
        toggled(v1, v2, name),
    ensures
        forall|y: Seq<char>| has_view(v2, y) <==> has_view(v0, y),
{
    assert forall|y: Seq<char>| has_view(v2, y) <==> has_view(v0, y) by {
        if has_view(v0, name) {
            assert(!has_view(v1, name));
        } else {
            assert(has_view(v1, name));
        }
    }
}

/// Removes `name` from a set of names when present, adds it otherwise.
fn toggle_name(v: &mut Vec<String>, name: &str)
    requires
        distinct_views(old(v)@),
    ensures
        distinct_views(final(v)@),
        toggled(old(v)@, final(v)@, name@),
{
    let ghost ov = v@;
    match position_of(v, name) {
        Some(k) => {
            v.remove(k);
            proof {
                let nv = v@;
                assert(has_view(ov, name@));
                assert forall|y: Seq<char>| has_view(nv, y) <==> (has_view(ov, y) && y != name@) by {
                    if has_view(nv, y) {
                        let j = choose|j: int| 0 <= j < nv.len() && #[trigger] nv[j]@ == y;
                        if j < k {
                            assert(nv[j] == ov[j]);
                        } else {
                            assert(nv[j] == ov[j + 1]);
                        }
                    }
                    if has_view(ov, y) && y != name@ {
                        let j = choose|j: int| 0 <= j < ov.len() && #[trigger] ov[j]@ == y;
                        if j < k {
                            assert(nv[j] == ov[j]);
                        } else {
                            assert(j != k);
                            assert(nv[j - 1] == ov[j]);
                        }
                    }
                }
                assert forall|a: int, b: int| 0 <= a < b < nv.len() implies #[trigger] nv[a]@ != #[trigger] nv[b]@ by {
                    let a2 = if a < k { a } else { a + 1 };
                    let b2 = if b < k { b } else { b + 1 };
                    assert(nv[a] == ov[a2] && nv[b] == ov[b2]);
                }
            }
        },
        None => {
            v.push(String::from_str(name));
            proof {
                let nv = v@;
                assert(nv[ov.len() as int]@ == name@);
                assert forall|y: Seq<char>| has_view(nv, y) <==> (has_view(ov, y) || y == name@) by {
                    if has_view(nv, y) {
                        let j = choose|j: int| 0 <= j < nv.len() && #[trigger] nv[j]@ == y;
                        if j < ov.len() {
                            assert(nv[j] == ov[j]);
                        }
                    }
                    if has_view(ov, y) {
                        let j = choose|j: int| 0 <= j < ov.len() && #[trigger] ov[j]@ == y;
                        assert(nv[j] == ov[j]);
                    }
                }
                assert forall|a: int, b: int| 0 <= a < b < nv.len() implies #[trigger] nv[a]@ != #[trigger] nv[b]@ by {
                    assert(nv[a] == ov[a]);
                    if b < ov.len() {
                        assert(nv[b] == ov[b]);
                    }
                }
            }
        },
    }
}

/// Position of the last scenario of `name` from `source` that has not ended.
fn last_open_position(scs: &Vec<TestScenario>, name: &str, source: &str) -> (r: Option<usize>)
    ensures
        match r {
            Some(k) => k == last_open_scenario(scs@, name@, source@) && k < scs@.len(),
            None => last_open_scenario(scs@, name@, source@) == -1,
        },
{
    proof {
        lemma_last_open_scenario(scs@, name@, source@);
    }
    let mut i: usize = scs.len();
    assert(scs@.take(i as int) =~= scs@);
    while i > 0
        invariant
            i <= scs@.len(),
            last_open_scenario(scs@, name@, source@) == last_open_scenario(scs@.take(i as int), name@, source@),
        decreases i,
    {
        let sc = &scs[i - 1];
        assert(scs@.take(i as int).last() == scs@[i - 1]);
        assert(scs@.take(i as int).drop_last() =~= scs@.take(i - 1));
        if str_eq(sc.name.as_str(), name) && str_eq(sc.source.as_str(), source) && sc.end_log_index.is_none() {
            return Some(i - 1);
        }
        i = i - 1;
    }
    None
}

impl AppState {
    /// The invariant kept by every operation: the known sources and attributes are sorted
    /// and distinct and name those of every stored log, pins hold at most `MAX_PIN_VALUES`
    /// values, and no two heartbeat entries share a source.
    pub open spec fn wf(&self) -> bool {
        &&& sorted_strict(self.known_sources@)
        &&& sorted_strict(self.known_attributes@)
        &&& forall|i: int|
            0 <= i < self.logs@.len() ==> has_view(self.known_sources@, (#[trigger] self.logs@[i]).source@)
        &&& forall|i: int|
            0 <= i < self.logs@.len() ==> has_view(self.known_attributes@, (#[trigger] self.logs@[i]).attribute@)
        &&& distinct_views(self.hidden_sources@)
        &&& distinct_views(self.hidden_attributes@)
        &&& forall|i: int| 0 <= i < self.lens_pins@.len() ==> (#[trigger] self.lens_pins@[i]).wf()
        &&& forall|i: int, j: int|
            0 <= i < j < self.pulse_sources@.len() ==> (#[trigger] self.pulse_sources@[i]).source@
                != (#[trigger] self.pulse_sources@[j]).source@
    }

    /// The state at start-up: nothing received, nothing filtered, connected flag down, the
    /// Sources panel open, the log list shown, the Mosaic layout.
    pub fn new() -> (r: Self)
        ensures
            r.wf(),
            r.logs@.len() == 0,
            r.known_sources@.len() == 0,
            r.known_attributes@.len() == 0,
            r.hidden_sources@.len() == 0,
            r.hidden_attributes@.len() == 0,
            r.source_filter_text@.len() == 0,
            r.attribute_filter_text@.len() == 0,
            !r.is_paused,
            r.auto_scroll,
            !r.connected,
            r.total_received == 0,
            r.scenarios@.len() == 0,
            r.selected_scenario is None,
            r.pulse_sources@.len() == 0,
            r.pulse_tick == 0,
            r.active_panel == Some(ActivePanel::Sources),
            r.active_view == ActiveView::LogList,
            r.lens_pins@.len() == 0,
            r.lens_layout == LensLayout::Mosaic,
    {
        AppState {
            logs: Vec::new(),
            known_sources: Vec::new(),
            known_attributes: Vec::new(),
            hidden_sources: Vec::new(),
            hidden_attributes: Vec::new(),
            source_filter_text: String::new(),
            attribute_filter_text: String::new(),
            is_paused: false,
            auto_scroll: true,
            connected: false,
            total_received: 0,
            scenarios: Vec::new(),
            selected_scenario: None,
            pulse_sources: Vec::new(),
            pulse_tick: 0,
            active_panel: Some(ActivePanel::Sources),
            active_view: ActiveView::LogList,
            lens_pins: Vec::new(),
            lens_layout: LensLayout::Mosaic,
        }
    }

    /// Stores a received log entry, unless the flow is paused (then nothing changes and
    /// `None` is returned). Otherwise the entry is appended and its index returned; the counter
    /// of received messages grows by one; the entry's source and attribute join the known
    /// ones; every pin matching the entry records its value; and a scenario marker opens or
    /// closes a test scenario.
    pub fn ingest_log(&mut self, entry: LuluLogEntry, marker: Option<ScenarioMarker>) -> (r: Option<usize>)
        requires
            old(self).wf(),
            old(self).total_received < usize::MAX,
        ensures
            final(self).wf(),
            old(self).is_paused ==> r is None && *final(self) == *old(self),
            !old(self).is_paused ==> {
                &&& r == Some(old(self).logs@.len() as usize)
                &&& final(self).logs@ == old(self).logs@.push(entry)
                &&& final(self).total_received == old(self).total_received + 1
                &&& forall|y: Seq<char>|
                    has_view(final(self).known_sources@, y) <==> (has_view(old(self).known_sources@, y)
                        || y == entry.source@)
                &&& forall|y: Seq<char>|
                    has_view(final(self).known_attributes@, y) <==> (has_view(
                        old(self).known_attributes@,
                        y,
                    ) || y == entry.attribute@)
                &&& final(self).lens_pins@.len() == old(self).lens_pins@.len()
                &&& forall|i: int|
                    0 <= i < old(self).lens_pins@.len() ==> pin_fed(
                        #[trigger] old(self).lens_pins@[i],
                        final(self).lens_pins@[i],
                        entry,
                    )
                &&& final(self).scenarios@ == scenarios_after(
                    old(self).scenarios@,
                    marker,
                    entry,
                    old(self).logs@.len() as usize,
                )
                &&& same_settings(*final(self), *old(self))
            },
    {
        if self.is_paused {
            return None;
        }
        self.total_received = self.total_received + 1;
        let idx = self.logs.len();
        let ghost logs0 = self.logs@;
        let ghost pulse0 = self.pulse_sources@;
        let src = entry.source.clone();
        let attr = entry.attribute.clone();
        insert_sorted(&mut self.known_sources, src.clone());
        insert_sorted(&mut self.known_attributes, attr.clone());
        let ghost pins0 = self.lens_pins@;
        let ghost before = *self;
        let mut i: usize = 0;
        while i < self.lens_pins.len()
            invariant
                i <= self.lens_pins@.len(),
                self.lens_pins@.len() == pins0.len(),
                same_settings(*self, before),
                self.logs == before.logs,
                self.known_sources == before.known_sources,
                self.known_attributes == before.known_attributes,
                self.scenarios == before.scenarios,
                self.total_received == before.total_received,
                src@ == entry.source@,
                attr == entry.attribute,
                forall|k: int| 0 <= k < pins0.len() ==> (#[trigger] pins0[k]).wf(),
                forall|k: int| 0 <= k < i ==> pin_fed(#[trigger] pins0[k], self.lens_pins@[k], entry),
                forall|k: int| i <= k < pins0.len() ==> #[trigger] self.lens_pins@[k] == pins0[k],
                forall|k: int| 0 <= k < i ==> (#[trigger] self.lens_pins@[k]).wf(),
            decreases pins0.len() - i,
        {
            if self.lens_pins[i].matches(src.as_str(), attr.as_str()) {
                let raw_bytes = if str_eq(self.lens_pins[i].data_type.as_str(), "bytes") {
                    Some(copy_bytes(&entry.data_bytes))
                } else {
                    None
                };
                let value_attribute = if self.lens_pins[i].paired_attribute.is_some() {
                    Some(attr.clone())
                } else {
                    None
                };
                self.lens_pins[i].push_value(
                    entry.timestamp.clone(),
                    entry.decoded_value.clone(),
                    raw_bytes,
                    value_attribute,
                );
            }
            i = i + 1;
        }
        match marker {
            None => {},
            Some(ScenarioMarker::Begin { name }) => {
                let sc = TestScenario {
                    span_id: name.clone(),
                    name: name,
                    source: src.clone(),
                    attribute: attr.clone(),
                    beg_timestamp: entry.timestamp.clone(),
                    end_timestamp: None,
                    beg_log_index: idx,
                    end_log_index: None,
                    status: ScenarioStatus::InProgress,
                };
                self.scenarios.push(sc);
            },
            Some(ScenarioMarker::End { name, success, error }) => {
                match last_open_position(&self.scenarios, name.as_str(), src.as_str()) {
                    Some(k) => {
                        self.scenarios[k].end_timestamp = Some(entry.timestamp.clone());
                        self.scenarios[k].end_log_index = Some(idx);
                        self.scenarios[k].status = if success {
                            ScenarioStatus::Success
                        } else {
                            ScenarioStatus::Failure(error)
                        };
                    },
                    None => {},
                }
            },
        }
        self.logs.push(entry);
        assert(self.logs@ == logs0.push(entry));
        assert(self.pulse_sources@ == pulse0);
        assert(forall|k: int| 0 <= k < self.lens_pins@.len() ==> (#[trigger] self.lens_pins@[k]).wf());
        assert(sorted_strict(self.known_sources@));
        assert(sorted_strict(self.known_attributes@));
        proof {
            let st = *self;
            assert forall|k: int| 0 <= k < st.logs@.len() implies has_view(
                st.known_sources@,
                (#[trigger] st.logs@[k]).source@,
            ) && has_view(st.known_attributes@, st.logs@[k].attribute@) by {
                if k < idx {
                    assert(st.logs@[k] == logs0[k]);
                }
            }
        }
        Some(idx)
    }

    /// Indices of the visible stored logs, in increasing order.
    pub fn visible_log_indices(&self) -> (r: Vec<usize>)
        ensures
            r@ == visible_indices(*self, self.logs@.len()),
    {
        let mut r: Vec<usize> = Vec::new();
        let mut i: usize = 0;
        while i < self.logs.len()
            invariant
                i <= self.logs@.len(),
                r@ == visible_indices(*self, i as nat),
            decreases self.logs.len() - i,
        {
            if is_entry_visible(&self.logs[i], self, i) {
                r.push(i);
            }
            i = i + 1;
        }
        r
    }

    /// Clears the stored logs, resets the received counter and empties every pin; the known
    /// names, filters and scenarios are kept.
    pub fn clear_logs(&mut self)
        requires
            old(self).wf(),
        ensures
            final(self).wf(),
            final(self).logs@.len() == 0,
            final(self).total_received == 0,
            final(self).lens_pins@.len() == old(self).lens_pins@.len(),
            forall|i: int|
                0 <= i < final(self).lens_pins@.len() ==> {
                    let (a, b) = (old(self).lens_pins@[i], #[trigger] final(self).lens_pins@[i]);
                    &&& b.values@.len() == 0
                    &&& b.source == a.source
                    &&& b.attribute == a.attribute
                    &&& b.data_type == a.data_type
                    &&& b.paired_attribute == a.paired_attribute
                },
            final(self).known_sources == old(self).known_sources,
            final(self).known_attributes == old(self).known_attributes,
            final(self).scenarios == old(self).scenarios,
            same_settings(*final(self), *old(self)),
    {
        self.logs.clear();
        self.total_received = 0;
        let ghost before = *self;
        let mut i: usize = 0;
        while i < self.lens_pins.len()
            invariant
                i <= self.lens_pins@.len(),
                self.lens_pins@.len() == before.lens_pins@.len(),
                same_settings(*self, before),
                self.logs == before.logs,
                self.known_sources == before.known_sources,
                self.known_attributes == before.known_attributes,
                self.scenarios == before.scenarios,
                self.total_received == 0,
                forall|k: int| i <= k < self.lens_pins@.len() ==> #[trigger] self.lens_pins@[k] == before.lens_pins@[k],
                forall|k: int|
                    0 <= k < i ==> {
                        let (a, b) = (before.lens_pins@[k], #[trigger] self.lens_pins@[k]);
                        &&& b.values@.len() == 0
                        &&& b.source == a.source
                        &&& b.attribute == a.attribute
                        &&& b.data_type == a.data_type
                        &&& b.paired_attribute == a.paired_attribute
                    },
            decreases before.lens_pins@.len() - i,
        {
            self.lens_pins[i].values.clear();
            i = i + 1;
        }
    }

    /// Pins `source` / `attribute` in the Lens, unless a pin on that pair alone exists. The
    /// new pin starts with the last `MAX_PIN_VALUES` stored entries of the pair, with their
    /// raw bytes when `data_type` is `bytes`.
    pub fn pin_attribute(&mut self, source: &str, attribute: &str, data_type: &str)
        requires
            old(self).wf(),
        ensures
            final(self).wf(),
            has_single_pin(old(self).lens_pins@, source@, attribute@) ==> final(self).lens_pins
                == old(self).lens_pins,
            !has_single_pin(old(self).lens_pins@, source@, attribute@) ==> {
                let p = final(self).lens_pins@.last();
                &&& final(self).lens_pins@.len() == old(self).lens_pins@.len() + 1
                &&& final(self).lens_pins@.drop_last() == old(self).lens_pins@
                &&& p.source@ == source@
                &&& p.attribute@ == attribute@
                &&& p.data_type@ == data_type@
                &&& p.paired_attribute is None
                &&& records_latest(
                    p.values@,
                    old(self).logs@,
                    single_history(old(self).logs@, old(self).logs@.len(), source@, attribute@),
                    data_type@ == "bytes"@,
                    false,
                )
            },
            final(self).logs == old(self).logs,
            final(self).scenarios == old(self).scenarios,
            same_settings(*final(self), *old(self)),
    {
        if single_pin_exists(&self.lens_pins, source, attribute) {
            return;
        }
        let h = single_history_exec(&self.logs, source, attribute);
        let mut pin = LensPinData::new(
            String::from_str(source),
            String::from_str(attribute),
            String::from_str(data_type),
        );
        let is_bytes = str_eq(data_type, "bytes");
        fill_pin(&mut pin, &self.logs, &h, is_bytes, false);
        self.lens_pins.push(pin);
        proof {
            let ps = self.lens_pins@;
            assert(ps.drop_last() =~= old(self).lens_pins@);
            assert forall|k: int| 0 <= k < ps.len() implies (#[trigger] ps[k]).wf() by {
                if k < ps.len() - 1 {
                    assert(ps[k] == old(self).lens_pins@[k]);
                }
            }
        }
    }

    /// Pins the combined `RX` + `TX` traffic of `source`, unless such a pin exists. The new
    /// pin starts with the last `MAX_PIN_VALUES` stored `bytes` entries of `source` on `RX` or
    /// `TX`, each with its raw bytes and its attribute.
    pub fn pin_rx_tx(&mut self, source: &str, data_type: &str)
        requires
            old(self).wf(),
        ensures
            final(self).wf(),
            has_rx_tx_pin(old(self).lens_pins@, source@) ==> final(self).lens_pins == old(self).lens_pins,
            !has_rx_tx_pin(old(self).lens_pins@, source@) ==> {
                let p = final(self).lens_pins@.last();
                &&& final(self).lens_pins@.len() == old(self).lens_pins@.len() + 1
                &&& final(self).lens_pins@.drop_last() == old(self).lens_pins@
                &&& p.source@ == source@
                &&& p.attribute@ == "RX"@
                &&& p.data_type@ == data_type@
                &&& p.paired_attribute matches Some(q) && q@ == "TX"@
                &&& records_latest(
                    p.values@,
                    old(self).logs@,
                    rx_tx_history(old(self).logs@, old(self).logs@.len(), source@),
                    true,
                    true,
                )
            },
            final(self).logs == old(self).logs,
            final(self).scenarios == old(self).scenarios,
            same_settings(*final(self), *old(self)),
    {
        if rx_tx_pin_exists(&self.lens_pins, source) {
            return;
        }
        let h = rx_tx_history_exec(&self.logs, source);
        let mut pin = LensPinData::new_paired(
            String::from_str(source),
            String::from_str("RX"),
            String::from_str("TX"),
            String::from_str(data_type),
        );
        fill_pin(&mut pin, &self.logs, &h, true, true);
        self.lens_pins.push(pin);
        proof {
            let ps = self.lens_pins@;
            assert(ps.drop_last() =~= old(self).lens_pins@);
            assert forall|k: int| 0 <= k < ps.len() implies (#[trigger] ps[k]).wf() by {
                if k < ps.len() - 1 {
                    assert(ps[k] == old(self).lens_pins@[k]);
                }
            }
        }
    }

    /// Removes the pin at `index`.
    pub fn remove_pin(&mut self, index: usize)
        requires
            old(self).wf(),
            index < old(self).lens_pins@.len(),
        ensures
            final(self).wf(),
            final(self).lens_pins@ == old(self).lens_pins@.remove(index as int),
            final(self).logs == old(self).logs,
            same_settings(*final(self), *old(self)),
    {
        self.lens_pins.remove(index);
        proof {
            let ps = self.lens_pins@;
            assert forall|k: int| 0 <= k < ps.len() implies (#[trigger] ps[k]).wf() by {
                if k < index {
                    assert(ps[k] == old(self).lens_pins@[k]);
                } else {
                    assert(ps[k] == old(self).lens_pins@[k + 1]);
                }
            }
        }
    }

    /// Shows a hidden source, or hides a shown one.
    pub fn toggle_hidden_source(&mut self, source: &str)
        requires
            old(self).wf(),
        ensures
            final(self).wf(),
            toggled(old(self).hidden_sources@, final(self).hidden_sources@, source@),
            *final(self) == (AppState { hidden_sources: final(self).hidden_sources, ..*old(self) }),
    {
        toggle_name(&mut self.hidden_sources, source);
    }

    /// Shows a hidden attribute, or hides a shown one.
    pub fn toggle_hidden_attribute(&mut self, attribute: &str)
        requires
            old(self).wf(),
        ensures
            final(self).wf(),
            toggled(old(self).hidden_attributes@, final(self).hidden_attributes@, attribute@),
            *final(self) == (AppState { hidden_attributes: final(self).hidden_attributes, ..*old(self) }),
    {
        toggle_name(&mut self.hidden_attributes, attribute);
    }

    /// Shows every source.
    pub fn show_all_sources(&mut self)
        requires
            old(self).wf(),
        ensures
            final(self).wf(),
            final(self).hidden_sources@.len() == 0,
            *final(self) == (AppState { hidden_sources: final(self).hidden_sources, ..*old(self) }),
    {
        self.hidden_sources.clear();
    }

    /// Hides every known source.
    pub fn hide_all_sources(&mut self)
        requires
            old(self).wf(),
        ensures
            final(self).wf(),
            final(self).hidden_sources@ == old(self).known_sources@,
            *final(self) == (AppState { hidden_sources: final(self).hidden_sources, ..*old(self) }),
    {
        let all = copy_names(&self.known_sources);
        proof {
            lemma_sorted_distinct(self.known_sources@);
        }
        self.hidden_sources = all;
    }

    /// Shows every attribute.
    pub fn show_all_attributes(&mut self)
        requires
            old(self).wf(),
        ensures
            final(self).wf(),
            final(self).hidden_attributes@.len() == 0,
            *final(self) == (AppState { hidden_attributes: final(self).hidden_attributes, ..*old(self) }),
    {
        self.hidden_attributes.clear();
    }

    /// Hides every known attribute.
    pub fn hide_all_attributes(&mut self)
        requires
            old(self).wf(),
        ensures
            final(self).wf(),
            final(self).hidden_attributes@ == old(self).known_attributes@,
            *final(self) == (AppState { hidden_attributes: final(self).hidden_attributes, ..*old(self) }),
    {
        let all = copy_names(&self.known_attributes);
        proof {
            lemma_sorted_distinct(self.known_attributes@);
        }
        self.hidden_attributes = all;
    }

    /// Selects the scenario (name, source) as a filter, or clears the filter when it is the
    /// one already selected.
    pub fn toggle_scenario_selection(&mut self, name: &str, source: &str)
        ensures
            (old(self).selected_scenario matches Some(sel) && sel.0@ == name@ && sel.1@ == source@)
                ==> final(self).selected_scenario is None,
            !(old(self).selected_scenario matches Some(sel) && sel.0@ == name@ && sel.1@ == source@)
                ==> (final(self).selected_scenario matches Some(sel) && sel.0@ == name@ && sel.1@ == source@),
            *final(self) == (AppState { selected_scenario: final(self).selected_scenario, ..*old(self) }),
    {
        let same = match &self.selected_scenario {
            Some(sel) => str_eq(sel.0.as_str(), name) && str_eq(sel.1.as_str(), source),
            None => false,
        };
        if same {
            self.selected_scenario = None;
        } else {
            self.selected_scenario = Some((String::from_str(name), String::from_str(source)));
        }
    }

    /// Opens `panel`, or closes the side panel when `panel` is the open one.
    pub fn toggle_panel(&mut self, panel: ActivePanel)
        ensures
            final(self).active_panel == (if old(self).active_panel == Some(panel) {
                None
            } else {
                Some(panel)
            }),
            *final(self) == (AppState { active_panel: final(self).active_panel, ..*old(self) }),
    {
        if self.active_panel == Some(panel) {
            self.active_panel = None;
        } else {
            self.active_panel = Some(panel);
        }
    }

    /// Records a heartbeat of `source`: its entry is created, or replaced when the source is
    /// already known.
    pub fn ingest_pulse(&mut self, source: String, timestamp: String, version: Option<String>, at: Instant)
        requires
            old(self).wf(),
        ensures
            final(self).wf(),
            *final(self) == (AppState { pulse_sources: final(self).pulse_sources, ..*old(self) }),
            exists|k: int|
                0 <= k < final(self).pulse_sources@.len() && #[trigger] final(self).pulse_sources@[k]
                    == (PulseSourceEntry {
                    source: source,
                    last_seen_ts: timestamp,
                    last_seen_at: at,
                    version: version,
                }),
            forall|k: int|
                0 <= k < old(self).pulse_sources@.len() && (#[trigger] old(self).pulse_sources@[k]).source@
                    != source@ ==> final(self).pulse_sources@.contains(old(self).pulse_sources@[k]),
            forall|k: int|
                0 <= k < final(self).pulse_sources@.len() ==> (#[trigger] final(self).pulse_sources@[k]).source@
                    == source@ || old(self).pulse_sources@.contains(final(self).pulse_sources@[k]),
    {
        let found = pulse_position(&self.pulse_sources, source.as_str());
        let ghost old_p = self.pulse_sources@;
        let entry = PulseSourceEntry { source, last_seen_ts: timestamp, last_seen_at: at, version };
        match found {
            Some(k) => {
                assert(old_p[k as int].source@ == entry.source@);
                self.pulse_sources.set(k, entry);
                proof {
                    let np = self.pulse_sources@;
                    assert(np[k as int] == entry);
                    assert forall|a: int, b: int| 0 <= a < b < np.len() implies (#[trigger] np[a]).source@
                        != (#[trigger] np[b]).source@ by {
                        if a != k as int && b != k as int {
                            assert(np[a] == old_p[a] && np[b] == old_p[b]);
                        } else if a == k as int {
                            assert(np[b] == old_p[b]);
                        } else {
                            assert(np[a] == old_p[a]);
                        }
                    }
                    assert forall|a: int| 0 <= a < old_p.len() && (#[trigger] old_p[a]).source@ != entry.source@
                        implies np.contains(old_p[a]) by {
                        assert(np[a] == old_p[a]);
                    }
                    assert forall|a: int| 0 <= a < np.len() implies (#[trigger] np[a]).source@ == entry.source@
                        || old_p.contains(np[a]) by {
                        if a != k {
                            assert(np[a] == old_p[a]);
                        }
                    }
                }
            },
            None => {
                self.pulse_sources.push(entry);
                proof {
                    let np = self.pulse_sources@;
                    assert(np[old_p.len() as int] == entry);
                    assert forall|a: int, b: int| 0 <= a < b < np.len() implies (#[trigger] np[a]).source@
                        != (#[trigger] np[b]).source@ by {
                        assert(np[a] == old_p[a]);
                        if b < old_p.len() {
                            assert(np[b] == old_p[b]);
                        }
                    }
                    assert forall|a: int| 0 <= a < old_p.len() && (#[trigger] old_p[a]).source@ != entry.source@
                        implies np.contains(old_p[a]) by {
                        assert(np[a] == old_p[a]);
                    }
                    assert forall|a: int| 0 <= a < np.len() implies (#[trigger] np[a]).source@ == entry.source@
                        || old_p.contains(np[a]) by {
                        if a < old_p.len() {
                            assert(np[a] == old_p[a]);
                        }
                    }
                }
            },
        }
    }
}

/// Number of scenarios in `scs` whose status is of kind `kind` (0: success, 1: failure,
/// 2: in progress).
pub open spec fn count_status(scs: Seq<TestScenario>, kind: nat) -> nat
    decreases scs.len(),
{
    if scs.len() == 0 {
        0
    } else {
        let k: nat = match scs.last().status {
            ScenarioStatus::Success => 0,
            ScenarioStatus::Failure(_) => 1,
            ScenarioStatus::InProgress => 2,
        };
        count_status(scs.drop_last(), kind) + if k == kind { 1nat } else { 0nat }
    }
}

pub proof fn lemma_count_status_bound(scs: Seq<TestScenario>, kind: nat)
    ensures
        count_status(scs, kind) <= scs.len(),
    decreases scs.len(),
{
    if scs.len() > 0 {
        lemma_count_status_bound(scs.drop_last(), kind);
    }
}

/// The scenarios that ended in success.
pub open spec fn passed_scenarios(scs: Seq<TestScenario>) -> Seq<TestScenario> {
    scs.filter(|s: TestScenario| s.status is Success)
}

/// The scenarios that ended in failure.
pub open spec fn failed_scenarios(scs: Seq<TestScenario>) -> Seq<TestScenario> {
    scs.filter(|s: TestScenario| s.status is Failure)
}

/// The scenarios still running.
pub open spec fn running_scenarios(scs: Seq<TestScenario>) -> Seq<TestScenario> {
    scs.filter(|s: TestScenario| s.status is InProgress)
}

/// The three counts are the numbers of scenarios that passed, that failed and that are still
/// running, and together they count every scenario once.
pub proof fn lemma_counts_by_status(scs: Seq<TestScenario>)
    ensures
        count_status(scs, 0) == passed_scenarios(scs).len(),
        count_status(scs, 1) == failed_scenarios(scs).len(),
        count_status(scs, 2) == running_scenarios(scs).len(),
        passed_scenarios(scs).len() + failed_scenarios(scs).len() + running_scenarios(scs).len() == scs.len(),
    decreases scs.len(),
{
    broadcast use Seq::lemma_filter_len_push;
    if scs.len() > 0 {
        let init = scs.drop_last();
        lemma_counts_by_status(init);
        assert(init.push(scs.last()) =~= scs);
    } else {
        reveal(Seq::filter);
    }
}

/// Numbers of passed, failed and running scenarios.
pub fn scenario_counts(scs: &Vec<TestScenario>) -> (r: (usize, usize, usize))
    ensures
        r.0 == count_status(scs@, 0),
        r.1 == count_status(scs@, 1),
        r.2 == count_status(scs@, 2),
        r.0 == passed_scenarios(scs@).len(),
        r.1 == failed_scenarios(scs@).len(),
        r.2 == running_scenarios(scs@).len(),
{
    proof {
        lemma_counts_by_status(scs@);
    }
    let mut passed: usize = 0;
    let mut failed: usize = 0;
    let mut running: usize = 0;
    let mut i: usize = 0;
    while i < scs.len()
        invariant
            i <= scs@.len(),
            passed == count_status(scs@.take(i as int), 0),
            failed == count_status(scs@.take(i as int), 1),
            running == count_status(scs@.take(i as int), 2),
        decreases scs.len() - i,
    {
        proof {
            let t = scs@.take(i + 1);
            assert(t.drop_last() =~= scs@.take(i as int));
            lemma_count_status_bound(scs@.take(i as int), 0);
            lemma_count_status_bound(scs@.take(i as int), 1);
            lemma_count_status_bound(scs@.take(i as int), 2);
        }
        match &scs[i].status {
            ScenarioStatus::Success => {
                passed = passed + 1;
            },
            ScenarioStatus::Failure(_) => {
                failed = failed + 1;
            },
            ScenarioStatus::InProgress => {
                running = running + 1;
            },
        }
        i = i + 1;
    }
    assert(scs@.take(scs@.len() as int) =~= scs@);
    (passed, failed, running)
}

/// The names among `names[0..n]` that pass the free-text filter, in order.
pub open spec fn names_passing(names: Seq<String>, n: nat, filter: Seq<char>) -> Seq<String>
    decreases n,
{
    if n == 0 {
        seq![]
    } else {
        let prev = names_passing(names, (n - 1) as nat, filter);
        if text_filter_passes(names[n - 1]@, filter) {
            prev.push(names[n - 1])
        } else {
            prev
        }
    }
}

/// The names that pass a free-text filter (all of them when the filter is empty).
pub fn filter_names(names: &Vec<String>, filter_text: &str) -> (r: Vec<String>)
    ensures
        r@ == names_passing(names@, names@.len(), filter_text@),
{
    let mut r: Vec<String> = Vec::new();
    let mut i: usize = 0;
    while i < names.len()
        invariant
            i <= names@.len(),
            r@ == names_passing(names@, i as nat, filter_text@),
        decreases names.len() - i,
    {
        if text_filter_matches(names[i].as_str(), filter_text) {
            r.push(names[i].clone());
        }
        i = i + 1;
    }
    r
}

/// Index of the first scenario that begins or ends at log `idx`, or `-1`.
pub open spec fn first_bounding(scs: Seq<TestScenario>, idx: usize) -> int
    decreases scs.len(),
{
    if scs.len() == 0 {
        -1
    } else if scs[0].beg_log_index == idx || scs[0].end_log_index == Some(idx) {
        0
    } else {
        let r = first_bounding(scs.drop_first(), idx);
        if r < 0 { -1 } else { r + 1 }
    }
}

pub proof fn lemma_first_bounding(scs: Seq<TestScenario>, idx: usize)
    ensures
        -1 <= first_bounding(scs, idx) < scs.len(),
        first_bounding(scs, idx) < 0 ==> forall|k: int|
            0 <= k < scs.len() ==> (#[trigger] scs[k]).beg_log_index != idx && scs[k].end_log_index
                != Some(idx),
    decreases scs.len(),
{
    if scs.len() > 0 {
        lemma_first_bounding(scs.drop_first(), idx);
        if first_bounding(scs, idx) < 0 {
            assert forall|k: int| 0 <= k < scs.len() implies (#[trigger] scs[k]).beg_log_index != idx
                && scs[k].end_log_index != Some(idx) by {
                if k > 0 {
                    assert(scs[k] == scs.drop_first()[k - 1]);
                }
            }
        }
    }
}

/// The CSS class suffix of the log row at `idx`: the begin or end of the first scenario
/// bounded there, or ` in-scenario` when some scenario contains it, or nothing.
pub open spec fn row_class_spec(scs: Seq<TestScenario>, idx: usize) -> Seq<char> {
    let k = first_bounding(scs, idx);
    if k >= 0 {
        if scs[k].beg_log_index == idx {
            " scenario-beg"@
        } else if scs[k].status is Success {
            " scenario-end-success"@
        } else {
            " scenario-end-fail"@
        }
    } else if exists|j: int| 0 <= j < scs.len() && (#[trigger] scs[j]).contains_spec(idx) {
        " in-scenario"@
    } else {
        ""@
    }
}

/// Position of the first scenario that begins or ends at log `log_index`.
pub fn bounding_scenario(scs: &Vec<TestScenario>, log_index: usize) -> (r: Option<usize>)
    ensures
        match r {
            Some(k) => k == first_bounding(scs@, log_index) && k < scs@.len(),
            None => first_bounding(scs@, log_index) == -1,
        },
{
    proof {
        lemma_first_bounding(scs@, log_index);
    }
    let mut i: usize = 0;
    assert(scs@.skip(0) =~= scs@);
    while i < scs.len()
        invariant
            i <= scs@.len(),
            first_bounding(scs@, log_index) == (if first_bounding(scs@.skip(i as int), log_index) < 0 {
                -1
            } else {
                first_bounding(scs@.skip(i as int), log_index) + i
            }),
        decreases scs.len() - i,
    {
        assert(scs@.skip(i as int)[0] == scs@[i as int]);
        assert(scs@.skip(i as int).drop_first() =~= scs@.skip(i + 1));
        if scs[i].beg_log_index == log_index || scs[i].end_log_index == Some(log_index) {
            return Some(i);
        }
        i = i + 1;
    }
    assert(scs@.skip(scs@.len() as int) =~= Seq::<TestScenario>::empty());
    None
}

/// The scenario styling of the log row at `log_index`.
pub fn scenario_row_class(scs: &Vec<TestScenario>, log_index: usize) -> (r: &'static str)
    ensures
        r@ == row_class_spec(scs@, log_index),
{
    proof {
        lemma_first_bounding(scs@, log_index);
    }
    match bounding_scenario(scs, log_index) {
        Some(k) => {
            if scs[k].beg_log_index == log_index {
                " scenario-beg"
            } else {
                match scs[k].status {
                    ScenarioStatus::Success => " scenario-end-success",
                    _ => " scenario-end-fail",
                }
            }
        },
        None => {
            let mut j: usize = 0;
            while j < scs.len()
                invariant
                    j <= scs@.len(),
                    first_bounding(scs@, log_index) == -1,
                    forall|k: int| 0 <= k < j ==> !(#[trigger] scs@[k]).contains_spec(log_index),
                decreases scs.len() - j,
            {
                if scs[j].contains_log_index(log_index) {
                    return " in-scenario";
                }
                j = j + 1;
            }
            ""
        },
    }
}

/// The tag of the log row showing `e` at `idx`: `BEGIN`, `END ✅` or `END ❌` on the row
/// where the first scenario bounded there begins or ends, else the entry's data type.
pub open spec fn row_tag_spec(scs: Seq<TestScenario>, idx: usize, e: LuluLogEntry) -> Seq<char> {
    let k = first_bounding(scs, idx);
    if k >= 0 {
        if scs[k].beg_log_index == idx {
            "BEGIN"@
        } else if scs[k].status is Success {
            "END ✅"@
        } else {
            "END ❌"@
        }
    } else {
        e.data_type@
    }
}

/// The value shown on the log row of `e` at `idx`: the name of the scenario bounded there,
/// else the label of the span event the entry carries, else its decoded value.
pub open spec fn row_value_spec(scs: Seq<TestScenario>, idx: usize, e: LuluLogEntry) -> Seq<char> {
    let k = first_bounding(scs, idx);
    if k >= 0 {
        scs[k].name@
    } else {
        match span_event_spec(e.data_type@, json_object_fields(e.data_bytes@)) {
            Some(ev) => match ev.name {
                Some(n) => n,
                None => ev.span_id,
            },
            None => e.decoded_value@,
        }
    }
}

/// The first scenario bounded at `idx` is the one at `k` when no earlier one is.
proof fn lemma_first_bounding_is(scs: Seq<TestScenario>, idx: usize, k: int)
    requires
        0 <= k < scs.len(),
        scs[k].beg_log_index == idx || scs[k].end_log_index == Some(idx),
        forall|j: int| 0 <= j < k ==> (#[trigger] scs[j]).beg_log_index != idx && scs[j].end_log_index != Some(idx),
    ensures
        first_bounding(scs, idx) == k,
    decreases k,
{
    if k > 0 {
        let t = scs.drop_first();
        assert forall|j: int| 0 <= j < k - 1 implies (#[trigger] t[j]).beg_log_index != idx && t[j].end_log_index
            != Some(idx) by {
            assert(t[j] == scs[j + 1]);
        }
        assert(t[k - 1] == scs[k]);
        lemma_first_bounding_is(t, idx, k - 1);
    }
}

/// On the row of a log where a scenario is the first one to begin or end, the tag says how it
/// is bounded there: `BEGIN` where it begins, `END ✅` where it ends in success, `END ❌` where
/// it ends otherwise (the three tags all differ), and the value is the scenario's name.
pub proof fn lemma_row_tags(scs: Seq<TestScenario>, idx: usize, e: LuluLogEntry, k: int)
    requires
        0 <= k < scs.len(),
        scs[k].beg_log_index == idx || scs[k].end_log_index == Some(idx),
        forall|j: int| 0 <= j < k ==> (#[trigger] scs[j]).beg_log_index != idx && scs[j].end_log_index != Some(idx),
    ensures
        scs[k].beg_log_index == idx ==> row_tag_spec(scs, idx, e) == "BEGIN"@,
        scs[k].beg_log_index != idx && scs[k].status is Success ==> row_tag_spec(scs, idx, e) == "END ✅"@,
        scs[k].beg_log_index != idx && !(scs[k].status is Success) ==> row_tag_spec(scs, idx, e) == "END ❌"@,
        "BEGIN"@ != "END ✅"@,
        "BEGIN"@ != "END ❌"@,
        "END ✅"@ != "END ❌"@,
        row_value_spec(scs, idx, e) == scs[k].name@,
        scs[k].beg_log_index == idx ==> row_class_spec(scs, idx) == " scenario-beg"@,
        scs[k].beg_log_index != idx && scs[k].status is Success ==> row_class_spec(scs, idx)
            == " scenario-end-success"@,
        scs[k].beg_log_index != idx && !(scs[k].status is Success) ==> row_class_spec(scs, idx)
            == " scenario-end-fail"@,
        " scenario-end-success"@ != " scenario-end-fail"@,
{
    lemma_first_bounding_is(scs, idx, k);
    reveal_strlit("BEGIN");
    reveal_strlit("END ✅");
    reveal_strlit("END ❌");
    assert("END ✅"@[4] != "END ❌"@[4]);
    reveal_strlit(" scenario-end-success");
    reveal_strlit(" scenario-end-fail");
    assert(" scenario-end-success"@.len() != " scenario-end-fail"@.len());
}

/// The tag and the value shown on the log row of `entry` at `log_index`.
pub fn log_row_labels(scs: &Vec<TestScenario>, entry: &LuluLogEntry, log_index: usize) -> (r: (String, String))
    ensures
        r.0@ == row_tag_spec(scs@, log_index, *entry),
        r.1@ == row_value_spec(scs@, log_index, *entry),
{
    match bounding_scenario(scs, log_index) {
        Some(k) => {
            let tag = if scs[k].beg_log_index == log_index {
                String::from_str("BEGIN")
            } else {
                match scs[k].status {
                    ScenarioStatus::Success => String::from_str("END ✅"),
                    _ => String::from_str("END ❌"),
                }
            };
            (tag, scs[k].name.clone())
        },
        None => {
            let value = match span_label(entry.data_type.as_str(), entry.data_bytes.as_slice()) {
                Some(l) => l,
                None => entry.decoded_value.clone(),
            };
            (entry.data_type.clone(), value)
        },
    }
}

/// Index of the first scenario identified by `span_id` from `source`, or `-1`.
pub open spec fn first_scenario_by_id(scs: Seq<TestScenario>, span_id: Seq<char>, source: Seq<char>) -> int
    decreases scs.len(),
{
    if scs.len() == 0 {
        -1
    } else if scs[0].span_id@ == span_id && scs[0].source@ == source {
        0
    } else {
        let r = first_scenario_by_id(scs.drop_first(), span_id, source);
        if r < 0 { -1 } else { r + 1 }
    }
}

/// The name of the selected scenario, looked up by identifier and source.
pub fn selected_scenario_name(state: &AppState) -> (r: Option<String>)
    ensures
        match state.selected_scenario {
            None => r is None,
            Some(sel) => {
                let k = first_scenario_by_id(state.scenarios@, sel.0@, sel.1@);
                if k < 0 {
                    r is None
                } else {
                    r == Some(state.scenarios@[k].name)
                }
            },
        },
{
    match &state.selected_scenario {
        None => None,
        Some(sel) => {
            let mut i: usize = 0;
            assert(state.scenarios@.skip(0) =~= state.scenarios@);
            while i < state.scenarios.len()
                invariant
                    i <= state.scenarios@.len(),
                    state.selected_scenario == Some(*sel),
                    first_scenario_by_id(state.scenarios@, sel.0@, sel.1@) == (if first_scenario_by_id(
                        state.scenarios@.skip(i as int),
                        sel.0@,
                        sel.1@,
                    ) < 0 {
                        -1
                    } else {
                        first_scenario_by_id(state.scenarios@.skip(i as int), sel.0@, sel.1@) + i
                    }),
                decreases state.scenarios.len() - i,
            {
                assert(state.scenarios@.skip(i as int)[0] == state.scenarios@[i as int]);
                assert(state.scenarios@.skip(i as int).drop_first() =~= state.scenarios@.skip(i + 1));
                if str_eq(state.scenarios[i].span_id.as_str(), sel.0.as_str()) && str_eq(state.scenarios[i].source.as_str(), sel.1.as_str()) {
                    return Some(state.scenarios[i].name.clone());
                }
                i = i + 1;
            }
            assert(state.scenarios@.skip(state.scenarios@.len() as int) =~= Seq::<TestScenario>::empty());
            None
        },
    }
}

/// The heartbeat entries in order of source: a list of their indices, each once, with the
/// sources increasing.
pub fn pulse_order(entries: &Vec<PulseSourceEntry>) -> (r: Vec<usize>)
    requires
        forall|i: int, j: int|
            0 <= i < j < entries@.len() ==> (#[trigger] entries@[i]).source@ != (#[trigger] entries@[j]).source@,
    ensures
        r@.len() == entries@.len(),
        forall|k: usize| k < entries@.len() ==> #[trigger] r@.contains(k),
        forall|a: int| 0 <= a < r@.len() ==> #[trigger] r@[a] < entries@.len(),
        forall|a: int, b: int|
            0 <= a < b < r@.len() ==> seq_lt(entries@[#[trigger] r@[a] as int].source@, entries@[#[trigger] r@[b] as int].source@),
{
    let mut r: Vec<usize> = Vec::new();
    let mut i: usize = 0;
    while i < entries.len()
        invariant
            i <= entries@.len(),
            r@.len() == i,
            forall|i2: int, j2: int|
                0 <= i2 < j2 < entries@.len() ==> (#[trigger] entries@[i2]).source@ != (#[trigger] entries@[j2]).source@,
            forall|k: usize| k < i ==> #[trigger] r@.contains(k),
            forall|a: int| 0 <= a < r@.len() ==> #[trigger] r@[a] < i,
            forall|a: int, b: int|
                0 <= a < b < r@.len() ==> seq_lt(entries@[#[trigger] r@[a] as int].source@, entries@[#[trigger] r@[b] as int].source@),
        decreases entries.len() - i,
    {
        let mut j: usize = 0;
        while j < r.len() && str_lt(entries[r[j]].source.as_str(), entries[i].source.as_str())
            invariant
                j <= r@.len(),
                i < entries@.len(),
                forall|a: int| 0 <= a < r@.len() ==> #[trigger] r@[a] < i,
                forall|a: int| 0 <= a < j ==> seq_lt(entries@[#[trigger] r@[a] as int].source@, entries@[i as int].source@),
            decreases r.len() - j,
        {
            j = j + 1;
        }
        let ghost old_r = r@;
        proof {
            assert forall|b: int| j <= b < old_r.len() implies seq_lt(entries@[i as int].source@, entries@[#[trigger] old_r[b] as int].source@) by {
                let x = entries@[i as int].source@;
                let y = entries@[old_r[j as int] as int].source@;
                lemma_seq_lt_trichotomy(y, x);
                assert(old_r[j as int] != i);
                if b > j {
                    lemma_seq_lt_transitive(x, y, entries@[old_r[b] as int].source@);
                }
            }
        }
        r.insert(j, i);
        proof {
            let nr = r@;
            assert forall|a: int| 0 <= a < nr.len() implies #[trigger] nr[a] < i + 1 by {
                if a < j {
                    assert(nr[a] == old_r[a]);
                } else if a > j {
                    assert(nr[a] == old_r[a - 1]);
                }
            }
            assert forall|a: int, b: int| 0 <= a < b < nr.len() implies seq_lt(
                entries@[#[trigger] nr[a] as int].source@,
                entries@[#[trigger] nr[b] as int].source@,
            ) by {
                if b < j {
                    assert(nr[a] == old_r[a] && nr[b] == old_r[b]);
                } else if b == j {
                    assert(nr[a] == old_r[a]);
                } else if a < j {
                    assert(nr[a] == old_r[a] && nr[b] == old_r[b - 1]);
                    lemma_seq_lt_transitive(
                        entries@[old_r[a] as int].source@,
                        entries@[i as int].source@,
                        entries@[old_r[b - 1] as int].source@,
                    );
                } else if a == j {
                    assert(nr[b] == old_r[b - 1]);
                } else {
                    assert(nr[a] == old_r[a - 1] && nr[b] == old_r[b - 1]);
                }
            }
            assert forall|k: usize| k < i + 1 implies #[trigger] nr.contains(k) by {
                if k == i {
                    assert(nr[j as int] == i);
                } else {
                    assert(old_r.contains(k));
                    let a = choose|a: int| 0 <= a < old_r.len() && old_r[a] == k;
                    if a < j {
                        assert(nr[a] == old_r[a]);
                    } else {
                        assert(nr[a + 1] == old_r[a]);
                    }
                }
            }
        }
        i = i + 1;
    }
    r
}

/// A begin followed by an end of the same scenario name from the same source closes the
/// scenario it opened: the end is correlated to its begin by name and MQTT source, and the
/// scenario records the end's timestamp, position and outcome.
pub proof fn lemma_begin_then_end_closes(
    scs: Seq<TestScenario>,
    begin_name: String,
    e1: LuluLogEntry,
    i1: usize,
    end_name: String,
    success: bool,
    error: String,
    e2: LuluLogEntry,
    i2: usize,
)
    requires
        begin_name@ == end_name@,
        e1.source@ == e2.source@,
    ensures
        ({
            let opened = scenarios_after(scs, Some(ScenarioMarker::Begin { name: begin_name }), e1, i1);
            let closed = scenarios_after(
                opened,
                Some(ScenarioMarker::End { name: end_name, success, error }),
                e2,
                i2,
            );
            &&& closed.len() == scs.len() + 1
            &&& closed.drop_last() == scs
            &&& closed.last().name == begin_name
            &&& closed.last().source == e1.source
            &&& closed.last().beg_log_index == i1
            &&& closed.last().end_log_index == Some(i2)
            &&& closed.last().end_timestamp == Some(e2.timestamp)
            &&& closed.last().status == if success {
                ScenarioStatus::Success
            } else {
                ScenarioStatus::Failure(error)
            }
        }),
{
    let opened = scenarios_after(scs, Some(ScenarioMarker::Begin { name: begin_name }), e1, i1);
    assert(last_open_scenario(opened, end_name@, e2.source@) == scs.len());
    let closed = scenarios_after(
        opened,
        Some(ScenarioMarker::End { name: end_name, success, error }),
        e2,
        i2,
    );
    assert(closed.drop_last() =~= scs);
}

/// An end with no open scenario of that name from that source changes no scenario.
pub proof fn lemma_unmatched_end_ignored(
    scs: Seq<TestScenario>,
    name: String,
    success: bool,
    error: String,
    e: LuluLogEntry,
    i: usize,
)
    requires
        forall|k: int|
            0 <= k < scs.len() ==> !((#[trigger] scs[k]).name@ == name@ && scs[k].source@ == e.source@
                && scs[k].end_log_index is None),
    ensures
        scenarios_after(scs, Some(ScenarioMarker::End { name, success, error }), e, i) == scs,
{
    lemma_last_open_scenario(scs, name@, e.source@);
}

} // verus!
