//! The producer side: the state behind `lulu_init`, `lulu_publish` and the heartbeat helpers,
//! and the messages it queues for the background send loop.
use vstd::prelude::*;
use std::collections::VecDeque;
use crate::data::Data;
use crate::fbb::{
    fb_bytes, fb_create_bytes, fb_create_string, fb_end_table, fb_finish, fb_finished_data, fb_new, fb_offset,
    fb_push_i8, fb_push_offset, fb_start_table, lemma_fb_empty, lemma_fb_step, FbOp, FB_INPUT_LIMIT,
};
use vstd::utf8::encode_utf8;
use crate::escape::{escape_json_text, escape_spec};
use crate::level::LuluLevel;
use crate::sorted::{has_view, position_of};
use crate::text::{concat2, concat3, str_eq};
use crate::topic::{
    build_log_topic, build_pulse_topic, is_valid_attribute, is_valid_source, log_topic, pulse_topic,
    valid_segment, valid_source,
};

verus! {

/// Severity levels as named by producers.
pub type LogLevel = LuluLevel;

/// Errors returned by the producer API.
#[derive(Debug, Clone, Copy, PartialEq, Eq, Structural)]
pub enum LuluError {
    /// `lulu_init` was called while the client is already initialised, or could not start.
    AlreadyInitialized,
    /// The client has not been initialised.
    NotInitialized,
    /// The source is not a list of valid segments separated by `/`.
    InvalidSource,
    /// The attribute is not a single valid segment.
    InvalidAttribute,
    /// The outgoing queue is full; the message was dropped.
    QueueFull,
}

/// Configuration of the producer client.
#[derive(Debug, Clone)]
pub struct LuluClientConfig {
    /// MQTT broker host.
    pub broker_host: String,
    /// MQTT broker port.
    pub broker_port: u16,
    /// Prefix of the MQTT client identifier (a random suffix is appended).
    pub client_id_prefix: String,
    /// Capacity of the outgoing queue.
    pub queue_capacity: usize,
    /// MQTT keep-alive interval, in seconds.
    pub keep_alive_secs: u64,
}

impl LuluClientConfig {
    /// The default configuration: a local broker on port 1883, the `lulu-client` prefix, a
    /// queue of 256 messages, a 5-second keep-alive.
    pub fn default_config() -> (r: Self)
        ensures
            r.broker_host@ == "127.0.0.1"@,
            r.broker_port == 1883,
            r.client_id_prefix@ == "lulu-client"@,
            r.queue_capacity == 256,
            r.keep_alive_secs == 5,
    {
        LuluClientConfig {
            broker_host: String::from_str("127.0.0.1"),
            broker_port: 1883,
            client_id_prefix: String::from_str("lulu-client"),
            queue_capacity: 256,
            keep_alive_secs: 5,
        }
    }
}

impl Default for LuluClientConfig {
    fn default() -> (r: Self)
        ensures
            r.broker_host@ == "127.0.0.1"@,
            r.broker_port == 1883,
            r.client_id_prefix@ == "lulu-client"@,
            r.queue_capacity == 256,
            r.keep_alive_secs == 5,
    {
        Self::default_config()
    }
}

/// Runtime statistics of the producer client.
#[derive(Debug, Clone, Copy, PartialEq, Eq, Structural)]
pub struct LuluStats {
    /// Messages handed to the MQTT client by the send loop.
    pub messages_published: u64,
    /// Messages refused because the queue was full.
    pub messages_dropped: u64,
    /// Messages waiting in the queue.
    pub queue_current_size: usize,
    /// Reconnections of the MQTT client.
    pub reconnections: u64,
}

/// A validated message waiting to be serialised and published.
#[derive(Debug, Clone)]
pub struct PendingMessage {
    /// `lulu/{source}/{attribute}`.
    pub topic: String,
    pub level: LuluLevel,
    pub data: Data,
}

/// A heartbeat registered for a source.
#[derive(Debug, Clone)]
pub struct PulseTask {
    pub source: String,
    /// `lulu-pulse/{source}`.
    pub topic: String,
    pub version: Option<String>,
}

/// The producer client's state: its configuration once initialised, the connection flag,
/// the outgoing queue, the counters and the registered heartbeats.
pub struct LuluClient {
    pub config: Option<LuluClientConfig>,
    pub connected: bool,
    pub queue: VecDeque<PendingMessage>,
    pub messages_published: u64,
    pub messages_dropped: u64,
    pub reconnections: u64,
    pub pulses: Vec<PulseTask>,
}

impl LuluClient {
    /// The client is initialised.
    pub open spec fn initialized(&self) -> bool {
        self.config is Some
    }

    /// Capacity of the outgoing queue (none before initialisation).
    pub open spec fn capacity(&self) -> nat {
        match self.config {
            Some(c) => c.queue_capacity as nat,
            None => 0,
        }
    }

    /// The registered heartbeat sources.
    pub open spec fn pulse_sources(&self) -> Seq<String> {
        self.pulses@.map_values(|p: PulseTask| p.source)
    }

    /// No two heartbeats share a source.
    pub open spec fn wf(&self) -> bool {
        forall|i: int, j: int|
            0 <= i < j < self.pulses@.len() ==> (#[trigger] self.pulses@[i]).source@
                != (#[trigger] self.pulses@[j]).source@
    }

    /// A client that has not been initialised.
    pub fn new() -> (r: Self)
        ensures
            !r.initialized(),
            !r.connected,
            r.queue@.len() == 0,
            r.messages_published == 0,
            r.messages_dropped == 0,
            r.reconnections == 0,
            r.pulses@.len() == 0,
            r.wf(),
    {
        LuluClient {
            config: None,
            connected: false,
            queue: VecDeque::new(),
            messages_published: 0,
            messages_dropped: 0,
            reconnections: 0,
            pulses: Vec::new(),
        }
    }
}

/// Initialises the client. A second call returns `Err(LuluError::AlreadyInitialized)` and
/// leaves the client unchanged.
pub fn lulu_init(client: &mut LuluClient, config: LuluClientConfig) -> (r: Result<(), LuluError>)
    ensures
        client_step(*old(client), *final(client)),
        old(client).initialized() ==> r == Err::<(), LuluError>(LuluError::AlreadyInitialized) && *final(client) == *old(client),
        !old(client).initialized() ==> r is Ok && final(client).config == Some(config)
            && final(client).queue == old(client).queue && final(client).pulses == old(client).pulses
            && final(client).connected == old(client).connected
            && final(client).messages_published == old(client).messages_published
            && final(client).messages_dropped == old(client).messages_dropped,
{
    if client.config.is_some() {
        return Err(LuluError::AlreadyInitialized);
    }
    client.config = Some(config);
    Ok(())
}

/// One operation took the client from `before` to `after` without losing its configuration:
/// only a client that had none can get one.
pub open spec fn client_step(before: LuluClient, after: LuluClient) -> bool {
    before.initialized() ==> after.config == before.config
}

/// Once initialised, a client stays initialised, with the same configuration, whatever
/// operations follow (each of them states `client_step`).
pub proof fn lemma_stays_initialized(trace: Seq<LuluClient>, i: int)
    requires
        0 <= i < trace.len(),
        trace[0].initialized(),
        forall|k: int| 0 <= k < trace.len() - 1 ==> client_step(#[trigger] trace[k], trace[k + 1]),
    ensures
        trace[i].initialized(),
        trace[i].config == trace[0].config,
    decreases i,
{
    if i > 0 {
        lemma_stays_initialized(trace, i - 1);
        assert(client_step(trace[i - 1], trace[i]));
    }
}

/// `after` is `before` with only its queue replaced.
pub open spec fn only_queue_changed(before: LuluClient, after: LuluClient) -> bool {
    after == (LuluClient { queue: after.queue, ..before })
}

/// `after` is `before` with one more dropped message counted, and nothing else changed.
pub open spec fn one_more_dropped(before: LuluClient, after: LuluClient) -> bool {
    after == (LuluClient { messages_dropped: (before.messages_dropped + 1) as u64, ..before })
}

/// `after` is `before` with only its heartbeats replaced.
pub open spec fn only_pulses_changed(before: LuluClient, after: LuluClient) -> bool {
    after == (LuluClient { pulses: after.pulses, ..before })
}

/// The error `lulu_publish` returns before queueing, if any, in the order it checks:
/// not initialised, invalid source, invalid attribute.
pub open spec fn publish_check(initialized: bool, source: Seq<char>, attribute: Seq<char>) -> Option<LuluError> {
    if !initialized {
        Some(LuluError::NotInitialized)
    } else if !valid_source(source) {
        Some(LuluError::InvalidSource)
    } else if !valid_segment(attribute) {
        Some(LuluError::InvalidAttribute)
    } else {
        None
    }
}

/// Publishes a log entry: the message is validated, then queued for the background send
/// loop. When the queue is full the message is dropped, counted, and
/// `Err(LuluError::QueueFull)` returned.
pub fn lulu_publish(client: &mut LuluClient, source: &str, attribute: &str, level: LogLevel, data: Data) -> (r: Result<(), LuluError>)
    requires
        old(client).messages_dropped < u64::MAX,
    ensures
        client_step(*old(client), *final(client)),
        match publish_check(old(client).initialized(), source@, attribute@) {
            Some(e) => r == Err::<(), LuluError>(e) && *final(client) == *old(client),
            None => if old(client).queue@.len() >= old(client).capacity() {
                &&& r == Err::<(), LuluError>(LuluError::QueueFull)
                &&& one_more_dropped(*old(client), *final(client))
            } else {
                &&& r is Ok
                &&& final(client).queue@ == old(client).queue@.push(
                    PendingMessage {
                        topic: final(client).queue@.last().topic,
                        level: level,
                        data: data,
                    },
                )
                &&& final(client).queue@.last().topic@ == log_topic(source@, attribute@)
                &&& only_queue_changed(*old(client), *final(client))
            },
        },
{
    let capacity = match &client.config {
        None => return Err(LuluError::NotInitialized),
        Some(c) => c.queue_capacity,
    };
    if !is_valid_source(source) {
        return Err(LuluError::InvalidSource);
    }
    if !is_valid_attribute(attribute) {
        return Err(LuluError::InvalidAttribute);
    }
    if client.queue.len() >= capacity {
        client.messages_dropped = client.messages_dropped + 1;
        return Err(LuluError::QueueFull);
    }
    let topic = build_log_topic(source, attribute);
    client.queue.push_back(PendingMessage { topic, level, data });
    Ok(())
}

/// Returns `true` if `lulu_init()` has been called successfully.
pub fn lulu_is_initialized(client: &LuluClient) -> (r: bool)
    ensures
        r == client.initialized(),
{
    client.config.is_some()
}

/// Returns `true` if the client is initialised and its MQTT connection is alive.
pub fn lulu_is_connected(client: &LuluClient) -> (r: bool)
    ensures
        r == (client.initialized() && client.connected),
{
    client.config.is_some() && client.connected
}

/// Returns runtime statistics, or `None` if the client is not initialised.
pub fn lulu_stats(client: &LuluClient) -> (r: Option<LuluStats>)
    ensures
        !client.initialized() ==> r is None,
        client.initialized() ==> r == Some(
            LuluStats {
                messages_published: client.messages_published,
                messages_dropped: client.messages_dropped,
                queue_current_size: client.queue@.len() as usize,
                reconnections: client.reconnections,
            },
        ),
{
    if client.config.is_none() {
        return None;
    }
    Some(
        LuluStats {
            messages_published: client.messages_published,
            messages_dropped: client.messages_dropped,
            queue_current_size: client.queue.len(),
            reconnections: client.reconnections,
        },
    )
}

fn pulse_position(pulses: &Vec<PulseTask>, source: &str) -> (r: Option<usize>)
    ensures
        match r {
            Some(k) => k < pulses@.len() && pulses@[k as int].source@ == source@,
            None => forall|k: int| 0 <= k < pulses@.len() ==> (#[trigger] pulses@[k]).source@ != source@,
        },
{
    let mut i: usize = 0;
    while i < pulses.len()
        invariant
            i <= pulses@.len(),
            forall|k: int| 0 <= k < i ==> (#[trigger] pulses@[k]).source@ != source@,
        decreases pulses.len() - i,
    {
        if str_eq(pulses[i].source.as_str(), source) {
            return Some(i);
        }
        i = i + 1;
    }
    None
}

/// Registers a heartbeat on `lulu-pulse/{source}`. Registering a source again replaces its
/// heartbeat (idempotent).
///
/// Errors: `NotInitialized` before `lulu_init`, `InvalidSource` for an invalid source; the
/// client is then unchanged.
pub fn lulu_start_pulse(client: &mut LuluClient, source: &str, version: Option<&str>) -> (r: Result<(), LuluError>)
    requires
        old(client).wf(),
    ensures
        client_step(*old(client), *final(client)),
        final(client).wf(),
        !old(client).initialized() ==> r == Err::<(), LuluError>(LuluError::NotInitialized) && *final(client) == *old(client),
        old(client).initialized() && !valid_source(source@) ==> r == Err::<(), LuluError>(LuluError::InvalidSource)
            && *final(client) == *old(client),
        old(client).initialized() && valid_source(source@) ==> {
            &&& r is Ok
            &&& exists|k: int| 0 <= k < final(client).pulses@.len() && {
                let p = #[trigger] final(client).pulses@[k];
                &&& p.source@ == source@
                &&& p.topic@ == pulse_topic(source@)
                &&& match version {
                    Some(v) => p.version matches Some(pv) && pv@ == v@,
                    None => p.version is None,
                }
            }
            &&& forall|k: int| 0 <= k < old(client).pulses@.len() && (#[trigger] old(client).pulses@[k]).source@ != source@
                ==> final(client).pulses@.contains(old(client).pulses@[k])
            &&& forall|k: int| 0 <= k < final(client).pulses@.len() ==> (#[trigger] final(client).pulses@[k]).source@ == source@
                || old(client).pulses@.contains(final(client).pulses@[k])
            &&& only_pulses_changed(*old(client), *final(client))
        },
{
    if client.config.is_none() {
        return Err(LuluError::NotInitialized);
    }
    if !is_valid_source(source) {
        return Err(LuluError::InvalidSource);
    }
    let task = PulseTask {
        source: String::from_str(source),
        topic: build_pulse_topic(source),
        version: match version {
            Some(v) => Some(String::from_str(v)),
            None => None,
        },
    };
    let ghost old_p = client.pulses@;
    match pulse_position(&client.pulses, source) {
        Some(k) => {
            client.pulses.set(k, task);
            proof {
                let np = client.pulses@;
                assert(np[k as int] == task);
                assert forall|a: int, b: int| 0 <= a < b < np.len() implies (#[trigger] np[a]).source@
                    != (#[trigger] np[b]).source@ by {
                    if a != k as int {
                        assert(np[a] == old_p[a]);
                    }
                    if b != k as int {
                        assert(np[b] == old_p[b]);
                    }
                }
                assert forall|a: int| 0 <= a < old_p.len() && (#[trigger] old_p[a]).source@ != source@
                    implies np.contains(old_p[a]) by {
                    assert(np[a] == old_p[a]);
                }
                assert forall|a: int| 0 <= a < np.len() implies (#[trigger] np[a]).source@ == source@
                    || old_p.contains(np[a]) by {
                    if a != k {
                        assert(np[a] == old_p[a]);
                    }
                }
            }
        },
        None => {
            client.pulses.push(task);
            proof {
                let np = client.pulses@;
                assert(np[old_p.len() as int] == task);
                assert forall|a: int, b: int| 0 <= a < b < np.len() implies (#[trigger] np[a]).source@
                    != (#[trigger] np[b]).source@ by {
                    assert(np[a] == old_p[a]);
                    if b < old_p.len() {
                        assert(np[b] == old_p[b]);
                    }
                }
                assert forall|a: int| 0 <= a < old_p.len() && (#[trigger] old_p[a]).source@ != source@
                    implies np.contains(old_p[a]) by {
                    assert(np[a] == old_p[a]);
                }
                assert forall|a: int| 0 <= a < np.len() implies (#[trigger] np[a]).source@ == source@
                    || old_p.contains(np[a]) by {
                    if a < old_p.len() {
                        assert(np[a] == old_p[a]);
                    }
                }
            }
        },
    }
    Ok(())
}

/// Stops the heartbeat of `source`; no-op when none runs, or when the client is not
/// initialised.
pub fn lulu_stop_pulse(client: &mut LuluClient, source: &str)
    requires
        old(client).wf(),
    ensures
        client_step(*old(client), *final(client)),
        final(client).wf(),
        !old(client).initialized() ==> *final(client) == *old(client),
        old(client).initialized() ==> {
            &&& forall|k: int| 0 <= k < final(client).pulses@.len() ==> (#[trigger] final(client).pulses@[k]).source@ != source@
            &&& forall|k: int| 0 <= k < old(client).pulses@.len() && (#[trigger] old(client).pulses@[k]).source@ != source@
                ==> final(client).pulses@.contains(old(client).pulses@[k])
            &&& forall|k: int| 0 <= k < final(client).pulses@.len() ==> old(client).pulses@.contains(#[trigger] final(client).pulses@[k])
        },
        only_pulses_changed(*old(client), *final(client)),
        (forall|k: int| 0 <= k < old(client).pulses@.len() ==> (#[trigger] old(client).pulses@[k]).source@ != source@)
            ==> *final(client) == *old(client),
{
    if client.config.is_none() {
        return;
    }
    let ghost old_p = client.pulses@;
    match pulse_position(&client.pulses, source) {
        Some(k) => {
            client.pulses.remove(k);
            proof {
                let np = client.pulses@;
                assert forall|a: int| 0 <= a < np.len() implies (#[trigger] np[a]) == (if a < k { old_p[a] } else { old_p[a + 1] }) by {}
                assert forall|a: int, b: int| 0 <= a < b < np.len() implies (#[trigger] np[a]).source@
                    != (#[trigger] np[b]).source@ by {
                    let a2 = if a < k { a } else { a + 1 };
                    let b2 = if b < k { b } else { b + 1 };
                    assert(np[a] == old_p[a2] && np[b] == old_p[b2]);
                }
                assert forall|a: int| 0 <= a < np.len() implies (#[trigger] np[a]).source@ != source@ by {
                    let a2 = if a < k { a } else { a + 1 };
                    assert(np[a] == old_p[a2]);
                    assert(a2 != k as int);
                }
                assert forall|a: int| 0 <= a < old_p.len() && (#[trigger] old_p[a]).source@ != source@
                    implies np.contains(old_p[a]) by {
                    if a < k {
                        assert(np[a] == old_p[a]);
                    } else {
                        assert(a != k as int);
                        assert(np[a - 1] == old_p[a]);
                    }
                }
                assert forall|a: int| 0 <= a < np.len() implies old_p.contains(#[trigger] np[a]) by {
                    let a2 = if a < k { a } else { a + 1 };
                    assert(np[a] == old_p[a2]);
                }
            }
        },
        None => {
            proof {
                assert forall|a: int| 0 <= a < old_p.len() implies old_p.contains(#[trigger] old_p[a]) by {}
            }
        },
    }
}

/// Stops every heartbeat.
pub fn stop_all_pulses(client: &mut LuluClient)
    ensures
        client_step(*old(client), *final(client)),
        final(client).pulses@.len() == 0,
        final(client).wf(),
        only_pulses_changed(*old(client), *final(client)),
{
    client.pulses.clear();
}

/// `{"name":"<escaped scenario_name>"}`: a JSON object whose only key `name` holds the name
/// as a JSON string.
pub open spec fn beg_scenario_json(name: Seq<char>) -> Seq<char> {
    "{\"name\":\""@ + escape_spec(name) + "\"}"@
}

/// `{"name":"<escaped name>","success":true}`, or on failure
/// `{"name":"<escaped name>","success":false,"error":"<escaped error>"}` with
/// `unknown error` when no error is given.
pub open spec fn end_scenario_json(name: Seq<char>, success: bool, error: Option<Seq<char>>) -> Seq<char> {
    if success {
        "{\"name\":\""@ + escape_spec(name) + "\",\"success\":true}"@
    } else {
        let e = match error {
            Some(e) => e,
            None => "unknown error"@,
        };
        "{\"name\":\""@ + escape_spec(name) + "\",\"success\":false,\"error\":\""@ + escape_spec(e) + "\"}"@
    }
}

/// Publishes a `beg_test_scenario` entry marking the start of a named test scenario, at
/// level `Info`, with the data `beg_scenario_json(scenario_name)`; otherwise it behaves as
/// `lulu_publish`.
pub fn lulu_beg_test_scenario(client: &mut LuluClient, source: &str, attribute: &str, scenario_name: &str) -> (r: Result<(), LuluError>)
    requires
        old(client).messages_dropped < u64::MAX,
    ensures
        client_step(*old(client), *final(client)),
        match publish_check(old(client).initialized(), source@, attribute@) {
            Some(e) => r == Err::<(), LuluError>(e) && *final(client) == *old(client),
            None => if old(client).queue@.len() >= old(client).capacity() {
                &&& r == Err::<(), LuluError>(LuluError::QueueFull)
                &&& one_more_dropped(*old(client), *final(client))
            } else {
                &&& r is Ok
                &&& only_queue_changed(*old(client), *final(client))
                &&& final(client).queue@.len() == old(client).queue@.len() + 1
                &&& final(client).queue@.drop_last() == old(client).queue@
                &&& final(client).queue@.last().topic@ == log_topic(source@, attribute@)
                &&& final(client).queue@.last().level == LuluLevel::Info
                &&& final(client).queue@.last().data matches Data::BegTestScenario(j) && j@ == beg_scenario_json(scenario_name@)
            },
        },
{
    let name = escape_json_text(scenario_name);
    let json = concat3("{\"name\":\"", name.as_str(), "\"}");
    let r = lulu_publish(client, source, attribute, LuluLevel::Info, Data::BegTestScenario(json));
    proof {
        if r is Ok {
            assert(final(client).queue@.drop_last() =~= old(client).queue@);
        }
    }
    r
}

/// Publishes an `end_test_scenario` entry marking the end of a named test scenario: level
/// `Info` on success, `Error` on failure, with the data built by `end_scenario_json`;
/// otherwise it behaves as `lulu_publish`.
pub fn lulu_end_test_scenario(
    client: &mut LuluClient,
    source: &str,
    attribute: &str,
    scenario_name: &str,
    success: bool,
    error: Option<&str>,
) -> (r: Result<(), LuluError>)
    requires
        old(client).messages_dropped < u64::MAX,
    ensures
        client_step(*old(client), *final(client)),
        match publish_check(old(client).initialized(), source@, attribute@) {
            Some(e) => r == Err::<(), LuluError>(e) && *final(client) == *old(client),
            None => if old(client).queue@.len() >= old(client).capacity() {
                &&& r == Err::<(), LuluError>(LuluError::QueueFull)
                &&& one_more_dropped(*old(client), *final(client))
            } else {
                &&& r is Ok
                &&& only_queue_changed(*old(client), *final(client))
                &&& final(client).queue@.len() == old(client).queue@.len() + 1
                &&& final(client).queue@.drop_last() == old(client).queue@
                &&& final(client).queue@.last().topic@ == log_topic(source@, attribute@)
                &&& final(client).queue@.last().level == (if success { LuluLevel::Info } else { LuluLevel::Error })
                &&& final(client).queue@.last().data matches Data::EndTestScenario(j) && j@ == end_scenario_json(
                    scenario_name@,
                    success,
                    match error {
                        Some(e) => Some(e@),
                        None => None,
                    },
                )
            },
        },
{
    let name = escape_json_text(scenario_name);
    let json = if success {
        concat3("{\"name\":\"", name.as_str(), "\",\"success\":true}")
    } else {
        let err_msg = match error {
            Some(e) => e,
            None => "unknown error",
        };
        let escaped = escape_json_text(err_msg);
        let head = concat3("{\"name\":\"", name.as_str(), "\",\"success\":false,\"error\":\"");
        concat3(head.as_str(), escaped.as_str(), "\"}")
    };
    let level = if success {
        LuluLevel::Info
    } else {
        LuluLevel::Error
    };
    let r = lulu_publish(client, source, attribute, level, Data::EndTestScenario(json));
    proof {
        if r is Ok {
            assert(final(client).queue@.drop_last() =~= old(client).queue@);
        }
    }
    r
}

/// Takes the oldest queued message for the send loop.
pub fn take_next_message(client: &mut LuluClient) -> (r: Option<PendingMessage>)
    ensures
        client_step(*old(client), *final(client)),
        old(client).queue@.len() == 0 ==> r is None && final(client).queue@ == old(client).queue@,
        old(client).queue@.len() > 0 ==> r == Some(old(client).queue@[0]) && final(client).queue@
            == old(client).queue@.drop_first(),
        final(client).config == old(client).config,
        final(client).pulses == old(client).pulses,
        final(client).messages_published == old(client).messages_published,
        final(client).messages_dropped == old(client).messages_dropped,
{
    client.queue.pop_front()
}

/// Counts a message handed to the MQTT client.
pub fn record_published(client: &mut LuluClient)
    ensures
        client_step(*old(client), *final(client)),
        final(client).messages_published == if old(client).messages_published < u64::MAX {
            (old(client).messages_published + 1) as u64
        } else {
            old(client).messages_published
        },
        final(client).queue == old(client).queue,
        final(client).config == old(client).config,
        final(client).pulses == old(client).pulses,
{
    if client.messages_published < u64::MAX {
        client.messages_published = client.messages_published + 1;
    }
}

/// Records a change of the connection state; a connection that comes back after a loss
/// counts as a reconnection.
pub fn record_connection(client: &mut LuluClient, connected: bool)
    ensures
        client_step(*old(client), *final(client)),
        final(client).connected == connected,
        final(client).reconnections == if connected && !old(client).connected && old(client).reconnections < u64::MAX {
            (old(client).reconnections + 1) as u64
        } else {
            old(client).reconnections
        },
        final(client).queue == old(client).queue,
        final(client).config == old(client).config,
        final(client).pulses == old(client).pulses,
{
    if connected && !client.connected && client.reconnections < u64::MAX {
        client.reconnections = client.reconnections + 1;
    }
    client.connected = connected;
}

/// `{"timestamp":"<timestamp>"}`, with `,"version":"<version>"` before the closing brace
/// when a version is given.
pub fn pulse_payload(timestamp: &str, version: Option<&str>) -> (r: String)
    ensures
        r@ == match version {
            Some(v) => "{\"timestamp\":\""@ + timestamp@ + "\",\"version\":\""@ + v@ + "\"}"@,
            None => "{\"timestamp\":\""@ + timestamp@ + "\"}"@,
        },
{
    match version {
        Some(v) => {
            let head = concat3("{\"timestamp\":\"", timestamp, "\",\"version\":\"");
            concat3(head.as_str(), v, "\"}")
        },
        None => concat3("{\"timestamp\":\"", timestamp, "\"}"),
    }
}

/// Byte offsets of the `LogEntry` fields in the table's vtable: `timestamp`, `level`,
/// `type` and `data`, in the order the schema declares them.
pub const LOG_ENTRY_TIMESTAMP_SLOT: u16 = 4;
pub const LOG_ENTRY_LEVEL_SLOT: u16 = 6;
pub const LOG_ENTRY_TYPE_SLOT: u16 = 8;
pub const LOG_ENTRY_DATA_SLOT: u16 = 10;
/// The schema's default `level` (`Info`), which the table omits.
pub const LOG_ENTRY_LEVEL_DEFAULT: i8 = 2;

/// The builder calls that write a `LogEntry`: the timestamp and type strings and the data
/// bytes, then the table with the three offsets and the level (omitted when it is the
/// default) on the `LOG_ENTRY_*` slots, then `finish` with the table as root.
pub open spec fn log_entry_ops(timestamp: Seq<char>, level: i8, data_type: Seq<char>, data: Seq<u8>) -> Seq<FbOp> {
    let o1 = Seq::<FbOp>::empty().push(FbOp::Str(timestamp));
    let o2 = o1.push(FbOp::Str(data_type));
    let o3 = o2.push(FbOp::Bytes(data));
    let o4 = o3.push(FbOp::Start);
    let o5 = o4.push(FbOp::SlotOffset(LOG_ENTRY_DATA_SLOT, fb_offset(o3)));
    let o6 = o5.push(FbOp::SlotOffset(LOG_ENTRY_TYPE_SLOT, fb_offset(o2)));
    let o7 = o6.push(FbOp::SlotOffset(LOG_ENTRY_TIMESTAMP_SLOT, fb_offset(o1)));
    let o8 = o7.push(FbOp::SlotI8(LOG_ENTRY_LEVEL_SLOT, level, LOG_ENTRY_LEVEL_DEFAULT));
    let o9 = o8.push(FbOp::End(fb_offset(o4)));
    o9.push(FbOp::Finish(fb_offset(o9)))
}

/// The bytes of the FlatBuffers `LogEntry` for these field values.
pub open spec fn log_entry_bytes(timestamp: Seq<char>, level: i8, data_type: Seq<char>, data: Seq<u8>) -> Seq<u8> {
    fb_bytes(log_entry_ops(timestamp, level, data_type, data))
}

/// A serialised `LogEntry` carries what it is given: the timestamp and type as strings, the
/// data as bytes, and the level pushed into the level slot with `Info` as the value left
/// out; entries that differ only in their level are built by different calls.
pub proof fn lemma_log_entry_carries_fields(
    timestamp: Seq<char>,
    level: i8,
    other_level: i8,
    data_type: Seq<char>,
    data: Seq<u8>,
)
    ensures
        log_entry_ops(timestamp, level, data_type, data).contains(FbOp::Str(timestamp)),
        log_entry_ops(timestamp, level, data_type, data).contains(FbOp::Str(data_type)),
        log_entry_ops(timestamp, level, data_type, data).contains(FbOp::Bytes(data)),
        log_entry_ops(timestamp, level, data_type, data).contains(
            FbOp::SlotI8(LOG_ENTRY_LEVEL_SLOT, level, LuluLevel::Info.code()),
        ),
        ({
            let ops = log_entry_ops(timestamp, level, data_type, data);
            &&& ops[0] == FbOp::Str(timestamp)
            &&& ops.contains(FbOp::SlotOffset(LOG_ENTRY_TIMESTAMP_SLOT, fb_offset(ops.take(1))))
            &&& ops[1] == FbOp::Str(data_type)
            &&& ops.contains(FbOp::SlotOffset(LOG_ENTRY_TYPE_SLOT, fb_offset(ops.take(2))))
            &&& ops[2] == FbOp::Bytes(data)
            &&& ops.contains(FbOp::SlotOffset(LOG_ENTRY_DATA_SLOT, fb_offset(ops.take(3))))
        }),
        LOG_ENTRY_TIMESTAMP_SLOT != LOG_ENTRY_TYPE_SLOT && LOG_ENTRY_TYPE_SLOT != LOG_ENTRY_DATA_SLOT
            && LOG_ENTRY_TIMESTAMP_SLOT != LOG_ENTRY_DATA_SLOT && LOG_ENTRY_LEVEL_SLOT != LOG_ENTRY_TIMESTAMP_SLOT
            && LOG_ENTRY_LEVEL_SLOT != LOG_ENTRY_TYPE_SLOT && LOG_ENTRY_LEVEL_SLOT != LOG_ENTRY_DATA_SLOT,
        level != other_level ==> log_entry_ops(timestamp, level, data_type, data) != log_entry_ops(
            timestamp,
            other_level,
            data_type,
            data,
        ),
{
    let ops = log_entry_ops(timestamp, level, data_type, data);
    let other = log_entry_ops(timestamp, other_level, data_type, data);
    assert(ops[0] == FbOp::Str(timestamp));
    assert(ops[1] == FbOp::Str(data_type));
    assert(ops[2] == FbOp::Bytes(data));
    assert(ops[7] == FbOp::SlotI8(LOG_ENTRY_LEVEL_SLOT, level, LuluLevel::Info.code()));
    assert(other[7] == FbOp::SlotI8(LOG_ENTRY_LEVEL_SLOT, other_level, LuluLevel::Info.code()));
    assert(ops.take(1) =~= Seq::<FbOp>::empty().push(FbOp::Str(timestamp)));
    assert(ops.take(2) =~= Seq::<FbOp>::empty().push(FbOp::Str(timestamp)).push(FbOp::Str(data_type)));
    assert(ops.take(3) =~= Seq::<FbOp>::empty().push(FbOp::Str(timestamp)).push(FbOp::Str(data_type)).push(
        FbOp::Bytes(data),
    ));
    assert(ops[4] == FbOp::SlotOffset(LOG_ENTRY_DATA_SLOT, fb_offset(ops.take(3))));
    assert(ops[5] == FbOp::SlotOffset(LOG_ENTRY_TYPE_SLOT, fb_offset(ops.take(2))));
    assert(ops[6] == FbOp::SlotOffset(LOG_ENTRY_TIMESTAMP_SLOT, fb_offset(ops.take(1))));
}

/// What a published message's level reads back as: the level slot of its `LogEntry` holds the
/// level's code, and that code reads back as the level.
pub proof fn lemma_serialized_level_reads_back(msg: PendingMessage, timestamp: Seq<char>)
    ensures
        log_entry_ops(
            timestamp,
            msg.level.code(),
            msg.data.data_type_spec().name_spec(),
            msg.data.bytes_spec(),
        ).contains(FbOp::SlotI8(LOG_ENTRY_LEVEL_SLOT, msg.level.code(), LuluLevel::Info.code())),
        LuluLevel::from_code_spec(msg.level.code()) == msg.level,
{
    lemma_log_entry_carries_fields(
        timestamp,
        msg.level.code(),
        msg.level.code(),
        msg.data.data_type_spec().name_spec(),
        msg.data.bytes_spec(),
    );
}

/// Builds a finished `LogEntry` buffer (see `log_entry_ops`).
fn build_log_entry(timestamp: &str, level: i8, data_type: &str, data: &[u8]) -> (r: Vec<u8>)
    requires
        encode_utf8(timestamp@).len() + encode_utf8(data_type@).len() + data@.len() + 256 <= FB_INPUT_LIMIT,
    ensures
        r@ == log_entry_bytes(timestamp@, level, data_type@, data@),
{
    broadcast use lemma_fb_step;
    proof {
        lemma_fb_empty();
    }
    let mut b = fb_new();
    let ts = fb_create_string(&mut b, timestamp);
    let ty = fb_create_string(&mut b, data_type);
    let bytes = fb_create_bytes(&mut b, data);
    let start = fb_start_table(&mut b);
    fb_push_offset(&mut b, LOG_ENTRY_DATA_SLOT, bytes);
    fb_push_offset(&mut b, LOG_ENTRY_TYPE_SLOT, ty);
    fb_push_offset(&mut b, LOG_ENTRY_TIMESTAMP_SLOT, ts);
    fb_push_i8(&mut b, LOG_ENTRY_LEVEL_SLOT, level, LOG_ENTRY_LEVEL_DEFAULT);
    let entry = fb_end_table(&mut b, start);
    fb_finish(&mut b, entry);
    fb_finished_data(&b)
}

/// Serialises a queued message, stamped with `timestamp`, as the FlatBuffers `LogEntry` the
/// send loop publishes on the message's topic.
pub fn serialize_message(msg: &PendingMessage, timestamp: &str) -> (r: Vec<u8>)
    requires
        encode_utf8(timestamp@).len() + encode_utf8(msg.data.data_type_spec().name_spec()).len()
            + msg.data.bytes_spec().len() + 256 <= FB_INPUT_LIMIT,
    ensures
        r@ == log_entry_bytes(
            timestamp@,
            msg.level.code(),
            msg.data.data_type_spec().name_spec(),
            msg.data.bytes_spec(),
        ),
{
    let data = msg.data.to_bytes();
    let data_type = msg.data.data_type();
    build_log_entry(timestamp, msg.level.to_fbs(), data_type.as_str(), data.as_slice())
}

} // verus!
