//! Test scenarios reconstructed from their begin and end log entries.
use vstd::prelude::*;

verus! {

/// Status of a test scenario lifecycle.
#[derive(Debug, Clone, PartialEq, Eq)]
pub enum ScenarioStatus {
    /// Scenario has started but not yet ended.
    InProgress,
    /// Scenario ended with success.
    Success,
    /// Scenario ended with failure (contains the error message).
    Failure(String),
}

/// A test scenario tracked by correlating span lifecycle log entries.
///
/// Scenarios are identified by `(span_id, source)`.
#[derive(Debug, Clone, PartialEq)]
pub struct TestScenario {
    /// Stable correlation identifier shared by the begin and end events.
    pub span_id: String,
    /// Scenario identifier (from the JSON `name` field).
    pub name: String,
    /// MQTT source that emitted this scenario.
    pub source: String,
    /// MQTT attribute on which beg/end are published.
    pub attribute: String,
    /// Timestamp of the scenario begin entry.
    pub beg_timestamp: String,
    /// Timestamp of the scenario end entry (if received).
    pub end_timestamp: Option<String>,
    /// Index into the stored logs of the scenario begin entry.
    pub beg_log_index: usize,
    /// Index into the stored logs of the scenario end entry (if received).
    pub end_log_index: Option<usize>,
    /// Current status.
    pub status: ScenarioStatus,
}

impl TestScenario {
    /// Whether the log at `idx` lies within the scenario: from its begin entry up to its end
    /// entry, or without upper bound while it has not ended.
    pub open spec fn contains_spec(&self, idx: usize) -> bool {
        &&& self.beg_log_index <= idx
        &&& (self.end_log_index matches Some(e) ==> idx <= e)
    }

    pub open spec fn status_css_class_spec(&self) -> Seq<char> {
        match self.status {
            ScenarioStatus::InProgress => "scenario-badge-pending"@,
            ScenarioStatus::Success => "scenario-badge-success"@,
            ScenarioStatus::Failure(_) => "scenario-badge-fail"@,
        }
    }

    pub open spec fn status_label_spec(&self) -> Seq<char> {
        match self.status {
            ScenarioStatus::InProgress => "⏳ Running"@,
            ScenarioStatus::Success => "✅ Pass"@,
            ScenarioStatus::Failure(_) => "❌ Fail"@,
        }
    }

    /// Returns the CSS class suffix for this scenario's status badge.
    pub fn status_css_class(&self) -> (r: &'static str)
        ensures
            r@ == self.status_css_class_spec(),
    {
        match &self.status {
            ScenarioStatus::InProgress => "scenario-badge-pending",
            ScenarioStatus::Success => "scenario-badge-success",
            ScenarioStatus::Failure(_) => "scenario-badge-fail",
        }
    }

    /// Returns a short status label.
    pub fn status_label(&self) -> (r: &'static str)
        ensures
            r@ == self.status_label_spec(),
    {
        match &self.status {
            ScenarioStatus::InProgress => "⏳ Running",
            ScenarioStatus::Success => "✅ Pass",
            ScenarioStatus::Failure(_) => "❌ Fail",
        }
    }

    /// Returns the error message if the scenario failed, `None` otherwise.
    pub fn error_message(&self) -> (r: Option<&str>)
        ensures
            match self.status {
                ScenarioStatus::Failure(m) => r matches Some(s) && s@ == m@,
                _ => r is None,
            },
    {
        match &self.status {
            ScenarioStatus::Failure(msg) => Some(msg.as_str()),
            _ => None,
        }
    }

    /// Returns `true` if a log entry at the given index falls within this scenario's bounds.
    pub fn contains_log_index(&self, idx: usize) -> (r: bool)
        ensures
            r == self.contains_spec(idx),
    {
        let start = self.beg_log_index;
        let end = match self.end_log_index {
            Some(e) => e,
            None => usize::MAX,
        };
        idx >= start && idx <= end
    }
}

} // verus!
