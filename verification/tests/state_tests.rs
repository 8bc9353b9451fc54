use lulu_logs::entry::{pulse_payload_fields, scenario_marker, LuluLogEntry, ScenarioMarker};
use lulu_logs::export::export_file_bytes;
use lulu_logs::level::LuluLevel;
use lulu_logs::scenario::ScenarioStatus;
use lulu_logs::state::{bounding_scenario, filter_names, is_entry_visible, log_row_labels, pulse_order, scenario_counts, scenario_row_class, selected_scenario_name, ActivePanel, AppState};
use lulu_logs::lens_pin::{LensPinData, MAX_PIN_VALUES};

fn entry(source: &str, attribute: &str, data_type: &str, decoded: &str) -> LuluLogEntry {
    LuluLogEntry {
        topic: format!("lulu/{}/{}", source, attribute),
        source: source.to_string(),
        attribute: attribute.to_string(),
        timestamp: "2026-02-26T14:30:00.123Z".to_string(),
        level: LuluLevel::Info,
        data_type: data_type.to_string(),
        decoded_value: decoded.to_string(),
        data_bytes: decoded.as_bytes().to_vec(),
        raw_payload: vec![1, 2, 3],
    }
}

fn ingest(st: &mut AppState, e: LuluLogEntry) -> Option<usize> {
    let marker = scenario_marker(&e.data_type, &e.data_bytes);
    st.ingest_log(e, marker)
}

#[test]
fn new_state_defaults() {
    let st = AppState::new();
    assert!(st.logs.is_empty());
    assert!(!st.is_paused);
    assert!(st.auto_scroll);
    assert_eq!(st.active_panel, Some(ActivePanel::Sources));
    assert_eq!(st.total_received, 0);
}

#[test]
fn ingest_registers_sorted_names() {
    let mut st = AppState::new();
    assert_eq!(ingest(&mut st, entry("psu/channel-1", "voltage", "string", "a")), Some(0));
    assert_eq!(ingest(&mut st, entry("mcp/filesystem", "read-file", "string", "b")), Some(1));
    assert_eq!(ingest(&mut st, entry("psu/channel-1", "current", "string", "c")), Some(2));
    assert_eq!(st.known_sources, vec!["mcp/filesystem".to_string(), "psu/channel-1".to_string()]);
    assert_eq!(st.known_attributes, vec!["current".to_string(), "read-file".to_string(), "voltage".to_string()]);
    assert_eq!(st.total_received, 3);
    assert_eq!(st.logs.len(), 3);
}

#[test]
fn paused_flow_ignores_messages() {
    let mut st = AppState::new();
    st.is_paused = true;
    assert_eq!(ingest(&mut st, entry("a", "b", "string", "x")), None);
    assert!(st.logs.is_empty());
    assert_eq!(st.total_received, 0);
    assert!(st.known_sources.is_empty());
}

#[test]
fn scenarios_are_correlated_by_name_and_source() {
    let mut st = AppState::new();
    let beg = entry("mcp/filesystem", "scenario", "beg_test_scenario", r#"{"name":"read-file"}"#);
    ingest(&mut st, beg);
    ingest(&mut st, entry("mcp/filesystem", "status", "string", "inside"));
    // an end from another source does not close it
    ingest(&mut st, entry("other", "scenario", "end_test_scenario", r#"{"name":"read-file","success":true}"#));
    assert_eq!(st.scenarios.len(), 1);
    assert_eq!(st.scenarios[0].status, ScenarioStatus::InProgress);
    let end = entry("mcp/filesystem", "scenario", "end_test_scenario", r#"{"name":"read-file","success":false,"error":"empty"}"#);
    ingest(&mut st, end);
    assert_eq!(st.scenarios[0].status, ScenarioStatus::Failure("empty".to_string()));
    assert_eq!(st.scenarios[0].beg_log_index, 0);
    assert_eq!(st.scenarios[0].end_log_index, Some(3));
    assert_eq!(scenario_counts(&st.scenarios), (0, 1, 0));
    assert_eq!(scenario_row_class(&st.scenarios, 0), " scenario-beg");
    assert_eq!(scenario_row_class(&st.scenarios, 1), " in-scenario");
    assert_eq!(scenario_row_class(&st.scenarios, 3), " scenario-end-fail");
    assert_eq!(scenario_row_class(&st.scenarios, 4), "");
}

#[test]
fn scenario_markers() {
    assert_eq!(scenario_marker("beg_test_scenario", br#"{"name":"x"}"#), Some(ScenarioMarker::Begin { name: "x".to_string() }));
    assert_eq!(
        scenario_marker("end_test_scenario", br#"{"name":"x"}"#),
        Some(ScenarioMarker::End { name: "x".to_string(), success: false, error: String::new() })
    );
    assert_eq!(scenario_marker("json", br#"{"name":"x"}"#), None);
    assert_eq!(scenario_marker("beg_test_scenario", b"nope"), None);
    assert_eq!(scenario_marker("beg_test_scenario", br#"{"other":1}"#), None);
    assert_eq!(
        scenario_marker("end_test_scenario", br#"{"name":"x","success":false,"error":"boom"}"#),
        Some(ScenarioMarker::End { name: "x".to_string(), success: false, error: "boom".to_string() })
    );
    assert_eq!(
        scenario_marker("end_test_scenario", br#"{"name":"x","success":"yes","error":3}"#),
        Some(ScenarioMarker::End { name: "x".to_string(), success: false, error: String::new() })
    );
    assert_eq!(scenario_marker("beg_test_scenario", br#"["name","x"]"#), None);
    assert_eq!(scenario_marker("beg_test_scenario", br#"{"name":7}"#), None);
}

#[test]
fn pulse_payload_reading() {
    assert_eq!(
        pulse_payload_fields(br#"{"timestamp":"2024-01-01T00:00:00Z","version":"1.2.3"}"#),
        ("2024-01-01T00:00:00Z".to_string(), Some("1.2.3".to_string()))
    );
    assert_eq!(pulse_payload_fields(br#"{"timestamp":"t"}"#), ("t".to_string(), None));
    assert_eq!(pulse_payload_fields(br#"{"version":2}"#), (String::new(), None));
    assert_eq!(pulse_payload_fields(b"not json"), (String::new(), None));
}

#[test]
fn visibility_filters() {
    let mut st = AppState::new();
    ingest(&mut st, entry("psu/Channel-A", "voltage", "string", "1"));
    ingest(&mut st, entry("mcp/fs", "read", "string", "2"));
    assert_eq!(st.visible_log_indices(), vec![0, 1]);
    st.source_filter_text = "CHANNEL".to_string();
    assert!(is_entry_visible(&st.logs[0], &st, 0));
    assert!(!is_entry_visible(&st.logs[1], &st, 1));
    assert_eq!(st.visible_log_indices(), vec![0]);
    st.source_filter_text.clear();
    st.toggle_hidden_attribute("read");
    assert_eq!(st.visible_log_indices(), vec![0]);
    st.toggle_hidden_attribute("read");
    assert_eq!(st.visible_log_indices(), vec![0, 1]);
    st.hide_all_sources();
    assert_eq!(st.visible_log_indices(), Vec::<usize>::new());
    st.show_all_sources();
    assert_eq!(st.visible_log_indices(), vec![0, 1]);
}

#[test]
fn scenario_selection_filter() {
    let mut st = AppState::new();
    ingest(&mut st, entry("a", "x", "string", "before"));
    ingest(&mut st, entry("a", "sc", "beg_test_scenario", r#"{"name":"t1"}"#));
    ingest(&mut st, entry("a", "x", "string", "inside"));
    ingest(&mut st, entry("a", "sc", "end_test_scenario", r#"{"name":"t1","success":true}"#));
    ingest(&mut st, entry("a", "x", "string", "after"));
    st.toggle_scenario_selection("t1", "a");
    assert_eq!(st.visible_log_indices(), vec![1, 2, 3]);
    assert_eq!(selected_scenario_name(&st), Some("t1".to_string()));
    st.toggle_scenario_selection("t1", "a");
    assert_eq!(st.selected_scenario, None);
    st.toggle_scenario_selection("missing", "a");
    assert_eq!(st.visible_log_indices(), Vec::<usize>::new());
}

#[test]
fn pins_follow_matching_entries() {
    let mut st = AppState::new();
    ingest(&mut st, entry("psu", "voltage", "string", "old"));
    st.pin_attribute("psu", "voltage", "string");
    st.pin_attribute("psu", "voltage", "string");
    assert_eq!(st.lens_pins.len(), 1);
    assert_eq!(st.lens_pins[0].values.len(), 1);
    ingest(&mut st, entry("psu", "voltage", "string", "new"));
    ingest(&mut st, entry("psu", "current", "string", "other"));
    assert_eq!(st.lens_pins[0].values.len(), 2);
    assert_eq!(st.lens_pins[0].values[1].raw, "new");
    assert_eq!(st.lens_pins[0].values[1].raw_bytes, None);
    st.remove_pin(0);
    assert!(st.lens_pins.is_empty());
}

#[test]
fn pin_history_is_capped() {
    let mut st = AppState::new();
    for i in 0..(MAX_PIN_VALUES + 3) {
        ingest(&mut st, entry("s", "a", "string", &format!("{}", i)));
    }
    st.pin_attribute("s", "a", "string");
    let pin: &LensPinData = &st.lens_pins[0];
    assert_eq!(pin.values.len(), MAX_PIN_VALUES);
    assert_eq!(pin.values[0].raw, "3");
}

#[test]
fn rx_tx_pins() {
    let mut st = AppState::new();
    ingest(&mut st, entry("uart", "RX", "bytes", "r"));
    ingest(&mut st, entry("uart", "TX", "bytes", "t"));
    ingest(&mut st, entry("uart", "TX", "string", "ignored"));
    st.pin_rx_tx("uart", "bytes");
    st.pin_rx_tx("uart", "bytes");
    assert_eq!(st.lens_pins.len(), 1);
    let pin = &st.lens_pins[0];
    assert_eq!(pin.values.len(), 2);
    assert_eq!(pin.values[1].value_attribute.as_deref(), Some("TX"));
    assert_eq!(pin.values[1].raw_bytes.as_deref(), Some(&b"t"[..]));
    ingest(&mut st, entry("uart", "RX", "bytes", "r2"));
    assert_eq!(st.lens_pins[0].values.len(), 3);
    assert_eq!(st.lens_pins[0].values[2].value_attribute.as_deref(), Some("RX"));
}

#[test]
fn clear_keeps_names_and_empties_pins() {
    let mut st = AppState::new();
    ingest(&mut st, entry("psu", "voltage", "string", "1"));
    st.pin_attribute("psu", "voltage", "string");
    st.clear_logs();
    assert!(st.logs.is_empty());
    assert_eq!(st.total_received, 0);
    assert_eq!(st.known_sources.len(), 1);
    assert!(st.lens_pins[0].values.is_empty());
}

#[test]
fn filter_name_lists() {
    let names = vec!["psu/Channel-1".to_string(), "mcp/fs".to_string()];
    assert_eq!(filter_names(&names, ""), names);
    assert_eq!(filter_names(&names, "chan"), vec!["psu/Channel-1".to_string()]);
    assert_eq!(filter_names(&names, "zzz"), Vec::<String>::new());
}

#[test]
fn pulses_replace_by_source_and_sort() {
    let mut st = AppState::new();
    st.ingest_pulse("psu".to_string(), "t1".to_string(), None, std::time::Instant::now());
    st.ingest_pulse("mcp".to_string(), "t2".to_string(), Some("1.2.3".to_string()), std::time::Instant::now());
    st.ingest_pulse("psu".to_string(), "t3".to_string(), None, std::time::Instant::now());
    assert_eq!(st.pulse_sources.len(), 2);
    let psu = st.pulse_sources.iter().find(|p| p.source == "psu").unwrap();
    assert_eq!(psu.last_seen_ts, "t3");
    assert!(psu.is_online());
    assert_eq!(psu.status_label(), "online");
    let order = pulse_order(&st.pulse_sources);
    assert_eq!(st.pulse_sources[order[0]].source, "mcp");
    assert_eq!(st.pulse_sources[order[1]].source, "psu");
    let (ts, version) = pulse_payload_fields(br#"{"timestamp":"2026-02-27T10:00:00.000Z","version":"1.2.3"}"#);
    assert_eq!(ts, "2026-02-27T10:00:00.000Z");
    assert_eq!(version.as_deref(), Some("1.2.3"));
    assert_eq!(pulse_payload_fields(b"???"), (String::new(), None));
}

#[test]
fn panel_toggling() {
    let mut st = AppState::new();
    st.toggle_panel(ActivePanel::Sources);
    assert_eq!(st.active_panel, None);
    st.toggle_panel(ActivePanel::Pulse);
    assert_eq!(st.active_panel, Some(ActivePanel::Pulse));
}

#[test]
fn log_row_tags_and_values() {
    let mut st = AppState::new();
    ingest(&mut st, entry("psu", "scenario", "beg_test_scenario", r#"{"name":"warmup"}"#));
    ingest(&mut st, entry("psu", "step", "step_beg", r#"{"span_id":"s1","name":"heat"}"#));
    ingest(&mut st, entry("psu", "step", "step_end", r#"{"span_id":"s1"}"#));
    ingest(&mut st, entry("psu", "voltage", "string", "3.3"));
    ingest(&mut st, entry("psu", "scenario", "end_test_scenario", r#"{"name":"warmup","success":false,"error":"x"}"#));
    let labels: Vec<(String, String)> = (0..st.logs.len()).map(|i| log_row_labels(&st.scenarios, &st.logs[i], i)).collect();
    assert_eq!(labels[0], ("BEGIN".to_string(), "warmup".to_string()));
    assert_eq!(labels[1], ("step_beg".to_string(), "heat".to_string()));
    assert_eq!(labels[2], ("step_end".to_string(), "s1".to_string()));
    assert_eq!(labels[3], ("string".to_string(), "3.3".to_string()));
    assert_eq!(labels[4], ("END ❌".to_string(), "warmup".to_string()));
    assert_eq!(bounding_scenario(&st.scenarios, 0), Some(0));
    assert_eq!(bounding_scenario(&st.scenarios, 3), None);
    assert_eq!(scenario_row_class(&st.scenarios, 3), " in-scenario");
    assert_eq!(scenario_row_class(&st.scenarios, 4), " scenario-end-fail");
}

#[test]
fn export_holds_the_visible_logs_in_order() {
    let mut st = AppState::new();
    assert_eq!(export_file_bytes(&st), None);
    ingest(&mut st, entry("psu", "voltage", "string", "1"));
    ingest(&mut st, entry("mcp", "current", "string", "2"));
    ingest(&mut st, entry("psu", "state", "string", "3"));
    let all = export_file_bytes(&st).unwrap();
    let find = |hay: &[u8], needle: &[u8]| hay.windows(needle.len()).position(|w| w == needle);
    assert!(find(&all, b"lulu/psu/voltage").is_some());
    assert!(find(&all, b"lulu/mcp/current").is_some());
    assert!(find(&all, b"lulu/psu/state").is_some());
    st.toggle_hidden_source("mcp");
    let some = export_file_bytes(&st).unwrap();
    assert!(find(&some, b"lulu/mcp/current").is_none());
    assert!(find(&some, b"lulu/psu/voltage").is_some());
    assert!(some.len() < all.len());
    st.hide_all_sources();
    assert_eq!(export_file_bytes(&st), None);
}
