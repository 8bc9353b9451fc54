use lulu_logs::lens_pin::{ActiveView, LensLayout, LensPinData, MAX_PIN_VALUES};
use lulu_logs::level::LuluLevel;
use lulu_logs::pulse::{dot_css_class_for, is_online_after, status_label_for};
use lulu_logs::scenario::{ScenarioStatus, TestScenario};
use lulu_logs::span::{implied_kind, is_span_begin_type, is_span_type, parse_span_event, span_label, SpanPhase};
use lulu_logs::timefmt::{extract_time, extract_time_ms, format_relative_time, relative_time_label};
use lulu_logs::view::{connection_indicator, panel_title, reads_as_true, scenario_badge, widget_kind, WidgetKind};
use lulu_logs::state::ActivePanel;

#[test]
fn lens_layout_classes_and_labels() {
    assert_eq!(LensLayout::Column.css_class(), "lens-grid column");
    assert_eq!(LensLayout::Mosaic.css_class(), "lens-grid mosaic");
    assert_eq!(LensLayout::Grid2.label(), "Grille 2×");
    assert_eq!(LensLayout::Mosaic.label(), "Mosaïque");
    assert!(ActiveView::LogList != ActiveView::Lens);
}

#[test]
fn pin_keeps_last_thousand_values() {
    let mut pin = LensPinData::new("psu".to_string(), "voltage".to_string(), "float32".to_string());
    for i in 0..(MAX_PIN_VALUES + 5) {
        pin.push_value(format!("t{}", i), format!("{}", i), None, None);
    }
    assert_eq!(pin.values.len(), MAX_PIN_VALUES);
    assert_eq!(pin.values.front().unwrap().raw, "5");
    assert_eq!(pin.values.back().unwrap().raw, format!("{}", MAX_PIN_VALUES + 4));
}

#[test]
fn pin_matching() {
    let pin = LensPinData::new("psu".to_string(), "voltage".to_string(), "float32".to_string());
    assert!(pin.matches("psu", "voltage"));
    assert!(!pin.matches("psu", "current"));
    assert!(!pin.matches("other", "voltage"));
    let paired = LensPinData::new_paired("uart".to_string(), "RX".to_string(), "TX".to_string(), "bytes".to_string());
    assert!(paired.matches("uart", "RX"));
    assert!(paired.matches("uart", "TX"));
    assert!(!paired.matches("uart", "CTS"));
}

#[test]
fn level_names_and_codes() {
    assert_eq!(LuluLevel::Warn.css_class(), "level-warn");
    assert_eq!(LuluLevel::from_fbs(0), LuluLevel::Trace);
    assert_eq!(LuluLevel::from_fbs(5), LuluLevel::Fatal);
    assert_eq!(LuluLevel::from_fbs(9), LuluLevel::Info);
    assert_eq!(LuluLevel::from_fbs(-1), LuluLevel::Info);
    assert_eq!(LuluLevel::Error.to_fbs(), 4);
    assert_eq!(LuluLevel::Debug.as_str(), "Debug");
    assert_eq!(LuluLevel::Fatal.to_string(), "Fatal");
    assert!(LuluLevel::Trace < LuluLevel::Fatal);
}

#[test]
fn level_parsing() {
    assert_eq!(LuluLevel::parse("WARN"), Ok(LuluLevel::Warn));
    assert_eq!(LuluLevel::parse("info"), Ok(LuluLevel::Info));
    assert_eq!(LuluLevel::parse("Fatal"), Ok(LuluLevel::Fatal));
    assert_eq!(LuluLevel::parse("loud"), Err("unknown log level: loud".to_string()));
    let l: LuluLevel = "Trace".parse().unwrap();
    assert_eq!(l, LuluLevel::Trace);
    for l in [LuluLevel::Trace, LuluLevel::Debug, LuluLevel::Info, LuluLevel::Warn, LuluLevel::Error, LuluLevel::Fatal] {
        assert_eq!(LuluLevel::parse(l.as_str()), Ok(l));
        assert_eq!(LuluLevel::parse(&l.to_string().to_uppercase()), Ok(l));
        assert_eq!(LuluLevel::parse(&l.to_string().to_lowercase()), Ok(l));
        assert_eq!(l.to_string().parse::<LuluLevel>(), Ok(l));
        assert_eq!(LuluLevel::from_fbs(l.to_fbs()), l);
    }
}

fn scenario(status: ScenarioStatus, beg: usize, end: Option<usize>) -> TestScenario {
    TestScenario {
        span_id: "s".to_string(),
        name: "s".to_string(),
        source: "src".to_string(),
        attribute: "scenario".to_string(),
        beg_timestamp: "t".to_string(),
        end_timestamp: None,
        beg_log_index: beg,
        end_log_index: end,
        status,
    }
}

#[test]
fn scenario_status_presentation() {
    let running = scenario(ScenarioStatus::InProgress, 2, None);
    assert_eq!(running.status_css_class(), "scenario-badge-pending");
    assert_eq!(running.status_label(), "⏳ Running");
    assert_eq!(running.error_message(), None);
    let ok = scenario(ScenarioStatus::Success, 2, Some(5));
    assert_eq!(ok.status_label(), "✅ Pass");
    let ko = scenario(ScenarioStatus::Failure("boom".to_string()), 2, Some(5));
    assert_eq!(ko.status_css_class(), "scenario-badge-fail");
    assert_eq!(ko.status_label(), "❌ Fail");
    assert_eq!(ko.error_message(), Some("boom"));
}

#[test]
fn scenario_bounds() {
    let running = scenario(ScenarioStatus::InProgress, 2, None);
    assert!(!running.contains_log_index(1));
    assert!(running.contains_log_index(2));
    assert!(running.contains_log_index(usize::MAX));
    let ended = scenario(ScenarioStatus::Success, 2, Some(5));
    assert!(ended.contains_log_index(5));
    assert!(!ended.contains_log_index(6));
}

#[test]
fn span_types() {
    assert!(is_span_type("span_beg"));
    assert!(is_span_type("step_end"));
    assert!(!is_span_type("json"));
    assert!(is_span_begin_type("tool_call_beg"));
    assert!(!is_span_begin_type("tool_call_end"));
    assert_eq!(implied_kind("scenario_end"), Some("scenario"));
    assert_eq!(implied_kind("step_beg"), Some("step"));
    assert_eq!(implied_kind("span_beg"), None);
}

#[test]
fn span_event_parsing() {
    let ev = parse_span_event("step_end", br#"{"span_id":"a1","name":"set-voltage","success":true,"duration_ms":42,"metadata":{"v":1}}"#).unwrap();
    assert_eq!(ev.phase, SpanPhase::End);
    assert_eq!(ev.span_id, "a1");
    assert_eq!(ev.kind, "step");
    assert!(ev.is_step());
    assert_eq!(ev.name.as_deref(), Some("set-voltage"));
    assert_eq!(ev.success, Some(true));
    assert_eq!(ev.duration_ms, Some(42));
    assert!(ev.metadata.is_some());
    assert!(ev.result.is_none());
    let generic = parse_span_event("span_beg", br#"{"span_id":"z","kind":"custom"}"#).unwrap();
    assert_eq!(generic.phase, SpanPhase::Beg);
    assert_eq!(generic.kind, "custom");
    let plain = parse_span_event("span_beg", br#"{"span_id":"z"}"#).unwrap();
    assert_eq!(plain.kind, "span");
    assert!(parse_span_event("json", br#"{"span_id":"z"}"#).is_none());
    assert!(parse_span_event("span_beg", br#"{"name":"no id"}"#).is_none());
    assert!(parse_span_event("span_beg", b"garbage").is_none());
    assert_eq!(span_label("span_beg", br#"{"span_id":"z"}"#), Some("z".to_string()));
    assert_eq!(span_label("span_beg", br#"{"span_id":"z","name":"n"}"#), Some("n".to_string()));
    assert_eq!(span_label("span_beg", br#"{"name":"n"}"#), None);
    let both = parse_span_event("tool_call_end", br#"{"result":[1],"span_id":"t","error":"e","metadata":null,"duration_ms":-1}"#).unwrap();
    assert_eq!(both.kind, "tool_call");
    assert_eq!(both.error.as_deref(), Some("e"));
    assert_eq!(both.duration_ms, None);
    assert!(both.metadata.is_some());
    assert!(both.result.is_some());
    assert_eq!(both.success, None);
    assert!(parse_span_event("span_beg", br#"[{"span_id":"z"}]"#).is_none());
}

#[test]
fn pulse_online_window() {
    assert!(is_online_after(0));
    assert!(is_online_after(5_999_999_999));
    assert!(!is_online_after(6_000_000_000));
    assert_eq!(status_label_for(true), "online");
    assert_eq!(status_label_for(false), "offline");
    assert_eq!(dot_css_class_for(false), "pulse-dot offline");
}

#[test]
fn time_extraction() {
    assert_eq!(extract_time_ms("2026-02-26T14:30:00.123Z"), "14:30:00.123");
    assert_eq!(extract_time("2026-02-26T14:30:00.123Z"), "14:30:00");
    assert_eq!(extract_time_ms("2026-02-26T14:30:00+01:00"), "14:30:00");
    assert_eq!(extract_time_ms("2026-02-26T14:30:00.1234567"), "14:30:00.123");
    assert_eq!(extract_time_ms("no time here at all"), "no time here");
    assert_eq!(extract_time("short"), "short");
    assert_eq!(extract_time_ms("Tomorrow"), "Tomorrow");
    assert_eq!(extract_time_ms("Tomorrow at noon, maybe"), "Tomorrow at ");
    assert_eq!(extract_time("T12:3x:00Z"), "12:3x:00");
    assert_eq!(extract_time("Tomorrow"), "omorrow");
    assert_eq!(extract_time_ms("2026-02-26T14:30Z"), "14:30");
    assert_eq!(extract_time_ms("T12:3x:00Z"), "T12:3x:00Z");
    assert_eq!(extract_time_ms("éT14:30:00.123Z"), "14:30:00.123");
    assert_eq!(extract_time_ms("Taéééééééééééé"), "Taéééééééééé");
    assert_eq!(extract_time("T14:30:00"), "14:30:00");
}

#[test]
fn relative_times() {
    assert_eq!(relative_time_label(-5), "à l'instant");
    assert_eq!(relative_time_label(1), "à l'instant");
    assert_eq!(relative_time_label(2), "il y a 2 s");
    assert_eq!(relative_time_label(59), "il y a 59 s");
    assert_eq!(relative_time_label(125), "il y a 2 min");
    assert_eq!(relative_time_label(7200), "il y a 2 h");
}

#[test]
fn view_choices() {
    assert_eq!(widget_kind("int64"), WidgetKind::Sparkline);
    assert_eq!(widget_kind("bool"), WidgetKind::BoolTimeline);
    assert_eq!(widget_kind("json"), WidgetKind::TextHistory);
    assert_eq!(widget_kind("bytes"), WidgetKind::Placeholder);
    assert!(reads_as_true(" true "));
    assert!(reads_as_true("1"));
    assert!(!reads_as_true("false"));
    assert_eq!(panel_title(Some(ActivePanel::Scenarios)), "Scénarios");
    assert_eq!(panel_title(None), "");
    assert_eq!(connection_indicator(true), ("status-dot connected", "Connected"));
    assert_eq!(scenario_badge(2, 7), 2);
    assert_eq!(scenario_badge(0, 7), 7);
}

#[test]
fn relative_age_of_timestamps() {
    assert_eq!(format_relative_time("not a date"), "");
    assert_eq!(format_relative_time(""), "");
    let old = format_relative_time("2000-01-01T00:00:00Z");
    assert!(old.starts_with("il y a ") && old.ends_with(" h"), "{}", old);
    let now = chrono::Utc::now().to_rfc3339();
    assert_eq!(format_relative_time(&now), "à l'instant");
}
