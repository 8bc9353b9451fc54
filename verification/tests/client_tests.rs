use lulu_logs::client::{
    lulu_beg_test_scenario, lulu_end_test_scenario, lulu_init, lulu_is_connected, lulu_is_initialized, lulu_publish,
    lulu_start_pulse, lulu_stats, lulu_stop_pulse, pulse_payload, record_connection, record_published, serialize_message, take_next_message,
    LogLevel, LuluClient, PendingMessage, LuluClientConfig, LuluError,
};
use lulu_logs::data::{Data, DataType};
use lulu_logs::decode::{decode_data, Decoded};
use lulu_logs::escape::escape_json_text;
use lulu_logs::topic::{build_log_topic, build_pulse_topic, is_valid_attribute, is_valid_source, route_topic, Route};

fn initialized(capacity: usize) -> LuluClient {
    let mut c = LuluClient::new();
    let mut cfg = LuluClientConfig::default();
    cfg.queue_capacity = capacity;
    assert_eq!(lulu_init(&mut c, cfg), Ok(()));
    c
}

#[test]
fn init_once() {
    let mut c = LuluClient::new();
    assert!(!lulu_is_initialized(&c));
    assert_eq!(lulu_stats(&c), None);
    assert_eq!(lulu_init(&mut c, LuluClientConfig::default()), Ok(()));
    assert!(lulu_is_initialized(&c));
    assert_eq!(lulu_init(&mut c, LuluClientConfig::default()), Err(LuluError::AlreadyInitialized));
}

#[test]
fn default_config() {
    let cfg = LuluClientConfig::default();
    assert_eq!(cfg.broker_host, "127.0.0.1");
    assert_eq!(cfg.broker_port, 1883);
    assert_eq!(cfg.queue_capacity, 256);
}

#[test]
fn publish_checks_in_order() {
    let mut c = LuluClient::new();
    assert_eq!(lulu_publish(&mut c, "BAD", "x", LogLevel::Info, Data::Bool(true)), Err(LuluError::NotInitialized));
    let mut c = initialized(4);
    assert_eq!(lulu_publish(&mut c, "Device/Sensor", "temp", LogLevel::Info, Data::Bool(true)), Err(LuluError::InvalidSource));
    assert_eq!(lulu_publish(&mut c, "device//sensor", "temp", LogLevel::Info, Data::Bool(true)), Err(LuluError::InvalidSource));
    assert_eq!(lulu_publish(&mut c, "device/sensor-1", "a/b", LogLevel::Info, Data::Bool(true)), Err(LuluError::InvalidAttribute));
    assert_eq!(lulu_publish(&mut c, "device/sensor-1", "temperature", LogLevel::Warn, Data::Int32(7)), Ok(()));
    let m = take_next_message(&mut c).unwrap();
    assert_eq!(m.topic, "lulu/device/sensor-1/temperature");
    assert_eq!(m.level, LogLevel::Warn);
    assert_eq!(m.data, Data::Int32(7));
    assert!(take_next_message(&mut c).is_none());
}

#[test]
fn full_queue_drops() {
    let mut c = initialized(1);
    assert_eq!(lulu_publish(&mut c, "a", "b", LogLevel::Info, Data::Bool(true)), Ok(()));
    assert_eq!(lulu_publish(&mut c, "a", "b", LogLevel::Info, Data::Bool(false)), Err(LuluError::QueueFull));
    let stats = lulu_stats(&c).unwrap();
    assert_eq!(stats.messages_dropped, 1);
    assert_eq!(stats.queue_current_size, 1);
    take_next_message(&mut c);
    record_published(&mut c);
    assert_eq!(lulu_stats(&c).unwrap().messages_published, 1);
}

#[test]
fn connection_state() {
    let mut c = initialized(4);
    assert!(!lulu_is_connected(&c));
    record_connection(&mut c, true);
    assert!(lulu_is_connected(&c));
    record_connection(&mut c, false);
    record_connection(&mut c, true);
    assert_eq!(lulu_stats(&c).unwrap().reconnections, 2);
}

#[test]
fn pulses_register_and_stop() {
    let mut c = LuluClient::new();
    assert_eq!(lulu_start_pulse(&mut c, "psu/channel-1", None), Err(LuluError::NotInitialized));
    let mut c = initialized(4);
    assert_eq!(lulu_start_pulse(&mut c, "Bad Source", None), Err(LuluError::InvalidSource));
    assert_eq!(lulu_start_pulse(&mut c, "psu/channel-1", None), Ok(()));
    assert_eq!(lulu_start_pulse(&mut c, "psu/channel-1", Some("1.2.3")), Ok(()));
    assert_eq!(c.pulses.len(), 1);
    assert_eq!(c.pulses[0].topic, "lulu-pulse/psu/channel-1");
    assert_eq!(c.pulses[0].version.as_deref(), Some("1.2.3"));
    lulu_stop_pulse(&mut c, "psu/channel-1");
    assert!(c.pulses.is_empty());
    lulu_stop_pulse(&mut c, "psu/channel-1");
}

#[test]
fn test_scenario_payloads() {
    let mut c = initialized(8);
    assert_eq!(lulu_beg_test_scenario(&mut c, "mcp/filesystem", "scenario", "read-file"), Ok(()));
    let m = take_next_message(&mut c).unwrap();
    assert_eq!(m.level, LogLevel::Info);
    assert_eq!(m.data, Data::BegTestScenario(r#"{"name":"read-file"}"#.to_string()));
    assert_eq!(lulu_end_test_scenario(&mut c, "mcp/filesystem", "scenario", "read-file", true, None), Ok(()));
    let m = take_next_message(&mut c).unwrap();
    assert_eq!(m.data, Data::EndTestScenario(r#"{"name":"read-file","success":true}"#.to_string()));
    assert_eq!(
        lulu_end_test_scenario(&mut c, "mcp/filesystem", "scenario", "read-file", false, Some(r#"Expected "hello" \ got"#)),
        Ok(())
    );
    let m = take_next_message(&mut c).unwrap();
    assert_eq!(m.level, LogLevel::Error);
    assert_eq!(
        m.data,
        Data::EndTestScenario(r#"{"name":"read-file","success":false,"error":"Expected \"hello\" \\ got"}"#.to_string())
    );
    lulu_end_test_scenario(&mut c, "mcp/filesystem", "scenario", "x", false, None).unwrap();
    let m = take_next_message(&mut c).unwrap();
    assert_eq!(m.data, Data::EndTestScenario(r#"{"name":"x","success":false,"error":"unknown error"}"#.to_string()));
    lulu_beg_test_scenario(&mut c, "mcp/filesystem", "scenario", r#"say "hi" \ bye"#).unwrap();
    let m = take_next_message(&mut c).unwrap();
    assert_eq!(m.data, Data::BegTestScenario(r#"{"name":"say \"hi\" \\ bye"}"#.to_string()));
    lulu_end_test_scenario(&mut c, "mcp/filesystem", "scenario", r#"q"x"#, true, None).unwrap();
    let m = take_next_message(&mut c).unwrap();
    assert_eq!(m.data, Data::EndTestScenario(r#"{"name":"q\"x","success":true}"#.to_string()));
    lulu_beg_test_scenario(&mut c, "mcp/filesystem", "scenario", "line\nbreak").unwrap();
    let m = take_next_message(&mut c).unwrap();
    assert_eq!(m.data, Data::BegTestScenario(r#"{"name":"line\nbreak"}"#.to_string()));
}

#[test]
fn scenario_helpers_keep_the_rest_of_the_client() {
    let mut c = initialized(1);
    record_connection(&mut c, true);
    lulu_start_pulse(&mut c, "psu", None).unwrap();
    lulu_beg_test_scenario(&mut c, "psu", "scenario", "s").unwrap();
    assert_eq!(lulu_end_test_scenario(&mut c, "psu", "scenario", "s", true, None), Err(LuluError::QueueFull));
    assert!(lulu_is_initialized(&c));
    assert!(lulu_is_connected(&c));
    assert_eq!(c.pulses.len(), 1);
    let stats = lulu_stats(&c).unwrap();
    assert_eq!(stats.messages_dropped, 1);
    assert_eq!(stats.queue_current_size, 1);
    lulu_stop_pulse(&mut c, "other");
    assert_eq!(c.pulses.len(), 1);
    lulu_stop_pulse(&mut c, "psu");
    assert!(c.pulses.is_empty());
    assert!(lulu_is_connected(&c));
}

#[test]
fn escaping() {
    assert_eq!(escape_json_text(r#"a"b\c"#), r#"a\"b\\c"#);
    assert_eq!(escape_json_text("plain"), "plain");
    assert_eq!(escape_json_text(""), "");
    assert_eq!(escape_json_text("a\nb\tc\r"), "a\\nb\\tc\\r");
    assert_eq!(escape_json_text("\u{8}\u{c}\u{1}\u{1f}é"), "\\b\\f\\u0001\\u001Fé");
}

#[test]
fn pulse_payloads() {
    assert_eq!(pulse_payload("2026-02-27T10:00:00.000Z", None), r#"{"timestamp":"2026-02-27T10:00:00.000Z"}"#);
    assert_eq!(
        pulse_payload("2026-02-27T10:00:00.000Z", Some("1.2.3")),
        r#"{"timestamp":"2026-02-27T10:00:00.000Z","version":"1.2.3"}"#
    );
}

#[test]
fn topics_route_back() {
    assert!(is_valid_source("psu/power-supply/channel-1"));
    assert!(!is_valid_source("/psu"));
    assert!(!is_valid_source("psu/"));
    assert!(!is_valid_source(""));
    assert!(is_valid_attribute("read-file"));
    assert!(!is_valid_attribute(""));
    let t = build_log_topic("psu/power-supply/channel-1", "voltage");
    assert_eq!(t, "lulu/psu/power-supply/channel-1/voltage");
    match route_topic(&t) {
        Route::Log { source, attribute } => {
            assert_eq!(source, "psu/power-supply/channel-1");
            assert_eq!(attribute, "voltage");
        },
        _ => panic!("expected a log route"),
    }
    let p = build_pulse_topic("mcp/github/pull-request");
    match route_topic(&p) {
        Route::Pulse { source } => assert_eq!(source, "mcp/github/pull-request"),
        _ => panic!("expected a pulse route"),
    }
    assert!(matches!(route_topic("lulu/only-two"), Route::Ignored));
    assert!(matches!(route_topic("lulu-pulse"), Route::Ignored));
    assert!(matches!(route_topic("other/a/b"), Route::Ignored));
    match route_topic("lulu-pulse/") {
        Route::Pulse { source } => assert_eq!(source, ""),
        _ => panic!("expected a pulse route"),
    }
}

#[test]
fn data_encodes_and_decodes_back() {
    assert_eq!(Data::Int32(-2).to_bytes(), (-2i32).to_le_bytes().to_vec());
    assert_eq!(Data::Int64(1 << 40).to_bytes(), (1i64 << 40).to_le_bytes().to_vec());
    assert_eq!(Data::Float32(23.5f32.to_bits()).to_bytes(), 23.5f32.to_le_bytes().to_vec());
    assert_eq!(Data::Bool(true).to_bytes(), vec![1]);
    assert_eq!(Data::String("hé".to_string()).to_bytes(), "hé".as_bytes().to_vec());
    assert_eq!(Data::Json("{}".to_string()).data_type(), DataType::Json);
    assert_eq!(DataType::NetPacket.as_str(), "net_packet");
    for d in [Data::Int32(-123), Data::Int64(i64::MIN), Data::Bool(false), Data::String("Tool call".to_string())] {
        let out = decode_data(d.data_type().as_str(), &d.to_bytes());
        let expected = match &d {
            Data::Int32(v) => v.to_string(),
            Data::Int64(v) => v.to_string(),
            Data::Bool(b) => b.to_string(),
            Data::String(s) => s.clone(),
            _ => unreachable!(),
        };
        assert_eq!(out, Decoded::Text(expected));
    }
    let bits = 3.3f64.to_bits();
    assert_eq!(decode_data("float64", &Data::Float64(bits).to_bytes()), Decoded::Float64Bits(bits));
}

#[test]
fn messages_serialise_as_log_entries() {
    let msg = PendingMessage {
        topic: "lulu/psu/voltage".to_string(),
        level: LogLevel::Warn,
        data: Data::String("hello".to_string()),
    };
    let bytes = serialize_message(&msg, "2024-01-01T00:00:00.000Z");
    let contains = |needle: &[u8]| bytes.windows(needle.len()).any(|w| w == needle);
    assert!(contains(b"2024-01-01T00:00:00.000Z"));
    assert!(contains(b"string"));
    assert!(contains(b"hello"));
    assert!(bytes.len() > 24 + 6 + 5);
    assert_ne!(bytes, b"hello".to_vec());
    let again = serialize_message(&msg, "2024-01-01T00:00:00.000Z");
    assert_eq!(bytes, again);
    let other = serialize_message(&msg, "2024-01-01T00:00:01.000Z");
    assert_ne!(bytes, other);
}

#[test]
fn scenario_payloads_parse_as_json_objects() {
    let mut c = initialized(8);
    let name = "odd \"name\"\\ with\ncontrols\u{1}\t and é";
    lulu_beg_test_scenario(&mut c, "psu", "scenario", name).unwrap();
    lulu_end_test_scenario(&mut c, "psu", "scenario", name, false, Some("bad\r\nthing")).unwrap();
    for expected_error in [None, Some("bad\r\nthing")] {
        let m = take_next_message(&mut c).unwrap();
        let text = match m.data {
            Data::BegTestScenario(j) | Data::EndTestScenario(j) => j,
            other => panic!("unexpected {:?}", other),
        };
        let v: serde_json::Value = serde_json::from_str(&text).unwrap();
        assert_eq!(v.get("name").and_then(|n| n.as_str()), Some(name));
        assert_eq!(v.get("error").and_then(|e| e.as_str()), expected_error);
    }
}
