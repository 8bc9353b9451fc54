//! Presentation choices of the viewer that depend only on plain values.
use vstd::prelude::*;
use crate::state::ActivePanel;
use crate::text::str_eq;

verus! {

/// How a pinned widget draws its values.
#[derive(Debug, Clone, Copy, PartialEq, Eq, Structural)]
pub enum WidgetKind {
    /// A line of numeric values.
    Sparkline,
    /// A strip of true / false segments.
    BoolTimeline,
    /// A list of the latest texts.
    TextHistory,
    /// Types that have no drawing.
    Placeholder,
}

pub open spec fn widget_kind_spec(t: Seq<char>) -> WidgetKind {
    if t == "float32"@ || t == "float64"@ || t == "int32"@ || t == "int64"@ {
        WidgetKind::Sparkline
    } else if t == "bool"@ {
        WidgetKind::BoolTimeline
    } else if t == "string"@ || t == "json"@ {
        WidgetKind::TextHistory
    } else {
        WidgetKind::Placeholder
    }
}

/// The widget used for a pin holding values of type `data_type`.
pub fn widget_kind(data_type: &str) -> (r: WidgetKind)
    ensures
        r == widget_kind_spec(data_type@),
{
    if str_eq(data_type, "float32") || str_eq(data_type, "float64") || str_eq(data_type, "int32")
        || str_eq(data_type, "int64") {
        WidgetKind::Sparkline
    } else if str_eq(data_type, "bool") {
        WidgetKind::BoolTimeline
    } else if str_eq(data_type, "string") || str_eq(data_type, "json") {
        WidgetKind::TextHistory
    } else {
        WidgetKind::Placeholder
    }
}

/// The text with leading and trailing white space removed, as `str::trim` gives it.
pub uninterp spec fn trimmed(s: Seq<char>) -> Seq<char>;

/// Calls `str::trim`. Its result (the text without leading and trailing Unicode white
/// space) is named `trimmed`; nothing more is stated.
#[verifier::external_body]
fn trim_text(s: &str) -> (r: String)
    ensures
        r@ == trimmed(s@),
{
    s.trim().to_string()
}

/// Whether a recorded boolean value reads as true: its trimmed text is `true` or `1`.
pub fn reads_as_true(raw: &str) -> (r: bool)
    ensures
        r == (trimmed(raw@) == "true"@ || trimmed(raw@) == "1"@),
{
    let t = trim_text(raw);
    str_eq(t.as_str(), "true") || str_eq(t.as_str(), "1")
}

pub open spec fn panel_title_spec(p: Option<ActivePanel>) -> Seq<char> {
    match p {
        Some(ActivePanel::Sources) => "Sources"@,
        Some(ActivePanel::Attributes) => "Attributs"@,
        Some(ActivePanel::Scenarios) => "Scénarios"@,
        Some(ActivePanel::Pulse) => "Pulse"@,
        Some(ActivePanel::Controls) => "Contrôles"@,
        None => ""@,
    }
}

/// The title of the side panel.
pub fn panel_title(p: Option<ActivePanel>) -> (r: &'static str)
    ensures
        r@ == panel_title_spec(p),
{
    match p {
        Some(ActivePanel::Sources) => "Sources",
        Some(ActivePanel::Attributes) => "Attributs",
        Some(ActivePanel::Scenarios) => "Scénarios",
        Some(ActivePanel::Pulse) => "Pulse",
        Some(ActivePanel::Controls) => "Contrôles",
        None => "",
    }
}

/// The CSS class of the connection dot and the label of the status bar.
pub fn connection_indicator(connected: bool) -> (r: (&'static str, &'static str))
    ensures
        connected ==> r.0@ == "status-dot connected"@ && r.1@ == "Connected"@,
        !connected ==> r.0@ == "status-dot disconnected"@ && r.1@ == "Disconnected"@,
{
    if connected {
        ("status-dot connected", "Connected")
    } else {
        ("status-dot disconnected", "Disconnected")
    }
}

/// The badge of the scenarios icon: the running scenarios when there are some, else all.
pub fn scenario_badge(running: usize, total: usize) -> (r: usize)
    ensures
        r == if running > 0 { running } else { total },
{
    if running > 0 { running } else { total }
}

} // verus!
