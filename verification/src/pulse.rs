//! Heartbeats received on `lulu-pulse/{source}` topics.
use vstd::prelude::*;
use std::time::Instant;

verus! {

#[verifier::external_type_specification]
#[verifier::external_body]
pub struct ExInstant(std::time::Instant);

/// `Instant` is `Copy`; its `Clone` gives the same instant (the derived `Clone` of
/// `PulseSourceEntry` calls it).
pub assume_specification[ <std::time::Instant as Clone>::clone ](i: &Instant) -> (r: Instant)
    ensures
        r == *i,
;

/// Nanoseconds during which a source stays online after its last pulse: 6 seconds, three
/// times the nominal 2-second emission interval.
pub const ONLINE_WINDOW_NANOS: u128 = 6_000_000_000;

/// Calls `Instant::elapsed` and reads the duration in nanoseconds. The value depends on the
/// clock: nothing is stated of it.
#[verifier::external_body]
pub(crate) fn nanos_since(t: &Instant) -> u128 {
    t.elapsed().as_nanos()
}

/// Tracks the last heartbeat received from a `lulu-pulse/{source}` topic.
#[derive(Debug, Clone)]
pub struct PulseSourceEntry {
    /// Source identifier derived from the topic (e.g. `"psu/channel-1"`).
    pub source: String,
    /// ISO 8601 timestamp string from the last received JSON payload.
    pub last_seen_ts: String,
    /// Monotonic instant at which the last pulse was received.
    pub last_seen_at: Instant,
    /// Optional version string reported by the source (e.g. `"1.2.3"`).
    pub version: Option<String>,
}

/// Whether a source whose last pulse is `elapsed_nanos` old is online: strictly less than
/// 6 seconds.
pub fn is_online_after(elapsed_nanos: u128) -> (r: bool)
    ensures
        r == (elapsed_nanos < ONLINE_WINDOW_NANOS),
{
    elapsed_nanos < ONLINE_WINDOW_NANOS
}

/// `online` or `offline`.
pub fn status_label_for(online: bool) -> (r: &'static str)
    ensures
        r@ == (if online { "online"@ } else { "offline"@ }),
{
    if online { "online" } else { "offline" }
}

/// The CSS class of the status dot.
pub fn dot_css_class_for(online: bool) -> (r: &'static str)
    ensures
        r@ == (if online { "pulse-dot online"@ } else { "pulse-dot offline"@ }),
{
    if online { "pulse-dot online" } else { "pulse-dot offline" }
}

impl PulseSourceEntry {
    /// Returns `true` if a pulse has been received within the last 6 seconds
    /// (3× the nominal 2-second emission interval). The answer depends on the clock; the
    /// decision itself is `is_online_after`.
    pub fn is_online(&self) -> bool {
        is_online_after(nanos_since(&self.last_seen_at))
    }

    /// Returns a human-readable status label.
    pub fn status_label(&self) -> (r: &'static str)
        ensures
            r@ == "online"@ || r@ == "offline"@,
    {
        status_label_for(self.is_online())
    }

    /// Returns the CSS class for the status dot.
    pub fn dot_css_class(&self) -> (r: &'static str)
        ensures
            r@ == "pulse-dot online"@ || r@ == "pulse-dot offline"@,
    {
        dot_css_class_for(self.is_online())
    }
}

} // verus!
