//! Topic naming rules of the protocol: how a producer builds `lulu/{source}/{attribute}` and
//! `lulu-pulse/{source}` topics, and how a consumer routes a received topic.
use vstd::prelude::*;
use crate::text::{
    chars_eq, chars_of, concat2, concat3, find_first, find_last, first_index_of, last_index_of,
    lemma_first_index_is, lemma_first_index_of, lemma_last_index_is, lemma_last_index_of, substring,
};

verus! {

/// Characters allowed inside a topic segment: lowercase ASCII letters, digits and `-`.
pub open spec fn is_segment_char(c: char) -> bool {
    ('a' <= c && c <= 'z') || ('0' <= c && c <= '9') || c == '-'
}

/// A single, non-empty segment made of allowed characters (an attribute name).
pub open spec fn valid_segment(s: Seq<char>) -> bool {
    s.len() > 0 && forall|i: int| 0 <= i < s.len() ==> is_segment_char(#[trigger] s[i])
}

/// A source: one or more valid segments separated by `/` (no empty segment).
pub open spec fn valid_source(s: Seq<char>) -> bool {
    &&& s.len() > 0
    &&& forall|i: int| 0 <= i < s.len() ==> is_segment_char(#[trigger] s[i]) || s[i] == '/'
    &&& s[0] != '/'
    &&& s.last() != '/'
    &&& forall|i: int| 0 <= i < s.len() - 1 && #[trigger] s[i] == '/' ==> s[i + 1] != '/'
}

/// The topic on which a log entry of `source` / `attribute` is published.
pub open spec fn log_topic(source: Seq<char>, attribute: Seq<char>) -> Seq<char> {
    "lulu/"@ + source + "/"@ + attribute
}

/// The heartbeat topic of `source`.
pub open spec fn pulse_topic(source: Seq<char>) -> Seq<char> {
    "lulu-pulse/"@ + source
}

/// Where a received topic leads.
pub enum Route {
    /// `lulu-pulse/{source}`: a heartbeat of `source`.
    Pulse { source: String },
    /// `lulu/{source}/{attribute}`: a log entry.
    Log { source: String, attribute: String },
    /// Anything else: the message is ignored.
    Ignored,
}

/// The meaning of a `Route`, over character sequences.
pub enum RouteSpec {
    Pulse(Seq<char>),
    Log(Seq<char>, Seq<char>),
    Ignored,
}

impl View for Route {
    type V = RouteSpec;

    open spec fn view(&self) -> RouteSpec {
        match self {
            Route::Pulse { source } => RouteSpec::Pulse(source@),
            Route::Log { source, attribute } => RouteSpec::Log(source@, attribute@),
            Route::Ignored => RouteSpec::Ignored,
        }
    }
}

/// The first `/`-separated segment of a topic.
pub open spec fn topic_head(t: Seq<char>) -> Seq<char> {
    let f = first_index_of(t, '/');
    if f < 0 { t } else { t.take(f) }
}

/// Routing of a received topic. Splitting the topic on `/`:
/// - first segment `lulu-pulse` with at least one more segment: a pulse whose source is
///   everything after the first `/`;
/// - first segment `lulu` with at least three segments: a log entry whose source is the
///   segments between the first and the last, rejoined with `/`, and whose attribute is the
///   last segment;
/// - anything else is ignored.
pub open spec fn route_spec(t: Seq<char>) -> RouteSpec {
    let f = first_index_of(t, '/');
    let l = last_index_of(t, '/');
    if topic_head(t) == "lulu-pulse"@ {
        if f < 0 {
            RouteSpec::Ignored
        } else {
            RouteSpec::Pulse(t.skip(f + 1))
        }
    } else if topic_head(t) == "lulu"@ && f >= 0 && l > f {
        RouteSpec::Log(t.subrange(f + 1, l), t.skip(l + 1))
    } else {
        RouteSpec::Ignored
    }
}

/// Routes a received topic (see `route_spec`).
pub fn route_topic(topic: &str) -> (r: Route)
    ensures
        r@ == route_spec(topic@),
{
    let chars = chars_of(topic);
    proof {
        lemma_first_index_of(topic@, '/');
        lemma_last_index_of(topic@, '/');
    }
    let first = find_first(&chars, '/');
    let last = find_last(&chars, '/');
    assert(first matches Some(f) ==> f < chars.len());
    assert(last matches Some(l) ==> l < chars.len());
    let head = match first {
        Some(f) => substring(topic, 0, f),
        None => String::from_str(topic),
    };
    let head_chars = chars_of(head.as_str());
    let pulse_word = chars_of("lulu-pulse");
    let log_word = chars_of("lulu");
    if chars_eq(&head_chars, &pulse_word) {
        match first {
            None => Route::Ignored,
            Some(f) => Route::Pulse { source: substring(topic, f + 1, chars.len()) },
        }
    } else if chars_eq(&head_chars, &log_word) {
        match first {
            Some(f) => match last {
                Some(l) => {
                    if l > f {
                        Route::Log {
                            source: substring(topic, f + 1, l),
                            attribute: substring(topic, l + 1, chars.len()),
                        }
                    } else {
                        Route::Ignored
                    }
                },
                None => Route::Ignored,
            },
            None => Route::Ignored,
        }
    } else {
        Route::Ignored
    }
}

/// A topic built for a source and a valid attribute is routed back to that source and
/// attribute.
pub proof fn lemma_log_topic_routes_back(source: Seq<char>, attribute: Seq<char>)
    requires
        valid_segment(attribute),
    ensures
        route_spec(log_topic(source, attribute)) == RouteSpec::Log(source, attribute),
{
    reveal_strlit("lulu/");
    reveal_strlit("/");
    reveal_strlit("lulu");
    reveal_strlit("lulu-pulse");
    let t = log_topic(source, attribute);
    let n = source.len() as int;
    assert(t[4] == '/');
    assert forall|k: int| 0 <= k < 4 implies t[k] != '/' by {
        assert(t[k] == "lulu/"@[k]);
    }
    lemma_first_index_is(t, '/', 4);
    assert(t[5 + n] == '/');
    assert forall|k: int| 5 + n < k < t.len() implies t[k] != '/' by {
        assert(t[k] == attribute[k - 6 - n]);
        assert(is_segment_char(attribute[k - 6 - n]));
    }
    lemma_last_index_is(t, '/', 5 + n);
    assert(topic_head(t) =~= "lulu"@);
    assert(t.subrange(5, 5 + n) =~= source);
    assert(t.skip(6 + n) =~= attribute);
}

/// A heartbeat topic is routed back to its source.
pub proof fn lemma_pulse_topic_routes_back(source: Seq<char>)
    ensures
        route_spec(pulse_topic(source)) == RouteSpec::Pulse(source),
{
    reveal_strlit("lulu-pulse/");
    reveal_strlit("lulu-pulse");
    let t = pulse_topic(source);
    assert(t[10] == '/');
    assert forall|k: int| 0 <= k < 10 implies t[k] != '/' by {
        assert(t[k] == "lulu-pulse/"@[k]);
    }
    lemma_first_index_is(t, '/', 10);
    assert(topic_head(t) =~= "lulu-pulse"@);
    assert(t.skip(11) =~= source);
}

fn is_segment_char_exec(c: char) -> (r: bool)
    ensures
        r == is_segment_char(c),
{
    ('a' <= c && c <= 'z') || ('0' <= c && c <= '9') || c == '-'
}

/// Whether `attribute` is a single valid segment.
pub fn is_valid_attribute(attribute: &str) -> (r: bool)
    ensures
        r == valid_segment(attribute@),
{
    let cs = chars_of(attribute);
    if cs.len() == 0 {
        return false;
    }
    let mut i: usize = 0;
    while i < cs.len()
        invariant
            i <= cs.len(),
            cs@ == attribute@,
            forall|k: int| 0 <= k < i ==> is_segment_char(#[trigger] cs@[k]),
        decreases cs.len() - i,
    {
        if !is_segment_char_exec(cs[i]) {
            return false;
        }
        i = i + 1;
    }
    true
}

/// Whether `source` is a valid multi-segment source.
pub fn is_valid_source(source: &str) -> (r: bool)
    ensures
        r == valid_source(source@),
{
    let cs = chars_of(source);
    let n = cs.len();
    if n == 0 || cs[0] == '/' || cs[n - 1] == '/' {
        return false;
    }
    let mut i: usize = 0;
    while i < n
        invariant
            n == cs.len(),
            n > 0,
            i <= n,
            cs@ == source@,
            forall|k: int| 0 <= k < i ==> is_segment_char(#[trigger] cs@[k]) || cs@[k] == '/',
            forall|k: int| 0 <= k < i && k < n - 1 && #[trigger] cs@[k] == '/' ==> cs@[k + 1] != '/',
        decreases n - i,
    {
        let c = cs[i];
        if !(is_segment_char_exec(c) || c == '/') {
            return false;
        }
        if c == '/' && i + 1 < n && cs[i + 1] == '/' {
            return false;
        }
        i = i + 1;
    }
    true
}

/// Builds `lulu/{source}/{attribute}`.
pub fn build_log_topic(source: &str, attribute: &str) -> (r: String)
    ensures
        r@ == log_topic(source@, attribute@),
{
    let s = concat3("lulu/", source, "/");
    s.concat(attribute)
}

/// Builds `lulu-pulse/{source}`.
pub fn build_pulse_topic(source: &str) -> (r: String)
    ensures
        r@ == pulse_topic(source@),
{
    concat2("lulu-pulse/", source)
}

} // verus!
