//! Configuration of the embedded MQTT broker, and random client identifiers.
use vstd::prelude::*;
use vstd::utf8::{decode_utf8, encode_utf8, is_ascii_chars};
use rand::rngs::ThreadRng;
use crate::decode::utf8_to_string;

verus! {

/// Configuration for the embedded MQTT broker.
#[derive(Debug, Clone)]
pub struct MqttBrokerConfig {
    /// TCP listen address.
    pub addr: String,
    /// TCP port.
    pub port: u16,
    /// Maximum number of simultaneous connections.
    pub max_connections: usize,
    /// Maximum segment size in bytes (100 MB).
    pub max_segment_size: usize,
    /// Enable dynamic filter support.
    pub dynamic_filters: bool,
}

impl Default for MqttBrokerConfig {
    /// Listens on 127.0.0.1:1883, accepts 20 480 connections and 100 MB segments, with
    /// dynamic filters.
    fn default() -> (r: Self)
        ensures
            r.addr@ == "127.0.0.1"@,
            r.port == 1883,
            r.max_connections == 20_480,
            r.max_segment_size == 100 * 1024 * 1024,
            r.dynamic_filters,
    {
        MqttBrokerConfig {
            addr: String::from_str("127.0.0.1"),
            port: 1883,
            max_connections: 20_480,
            max_segment_size: 100 * 1024 * 1024,
            dynamic_filters: true,
        }
    }
}

#[verifier::external_type_specification]
#[verifier::external_body]
pub struct ExThreadRng(rand::rngs::ThreadRng);

/// An ASCII letter (either case) or digit.
pub open spec fn is_alphanumeric_byte(b: u8) -> bool {
    (65 <= b <= 90) || (97 <= b <= 122) || (48 <= b <= 57)
}

/// Calls `rand::thread_rng`. Nothing is stated of the generator.
#[verifier::external_body]
fn new_thread_rng() -> ThreadRng {
    rand::thread_rng()
}

/// Calls `Rng::sample` with `rand::distributions::Alphanumeric`, which (in its source) draws
/// one byte of `A`..`Z`, `a`..`z`, `0`..`9`.
#[verifier::external_body]
fn sample_alphanumeric(rng: &mut ThreadRng) -> (r: u8)
    ensures
        is_alphanumeric_byte(r),
{
    rand::Rng::sample(rng, rand::distributions::Alphanumeric)
}

/// Generates a random alphanumeric string of the given length.
pub fn generate_random_string(length: usize) -> (r: String)
    ensures
        r@.len() == length,
        forall|i: int| 0 <= i < r@.len() ==> is_alphanumeric_byte(#[trigger] r@[i] as u8) && (r@[i] as u32) < 128,
{
    let mut rng = new_thread_rng();
    let mut bytes: Vec<u8> = Vec::new();
    let mut i: usize = 0;
    while i < length
        invariant
            i <= length,
            bytes@.len() == i,
            forall|k: int| 0 <= k < bytes@.len() ==> is_alphanumeric_byte(#[trigger] bytes@[k]),
        decreases length - i,
    {
        let b = sample_alphanumeric(&mut rng);
        bytes.push(b);
        i = i + 1;
    }
    let ghost chars = bytes@.map_values(|b: u8| b as char);
    proof {
        assert forall|k: int| 0 <= k < chars.len() implies (#[trigger] chars[k] as u32) < 128 by {
            assert(chars[k] == bytes@[k] as char);
        }
        assert(is_ascii_chars(chars));
        vstd::utf8::is_ascii_chars_encode_utf8(chars);
        assert(encode_utf8(chars) =~= bytes@);
        vstd::utf8::encode_utf8_valid_utf8(chars);
        vstd::utf8::encode_utf8_decode_utf8(chars);
    }
    match utf8_to_string(&bytes) {
        Ok(s) => {
            proof {
                assert(s@ == chars);
                assert forall|k: int| 0 <= k < s@.len() implies is_alphanumeric_byte(#[trigger] s@[k] as u8) && (s@[k] as u32) < 128 by {
                    assert(s@[k] == bytes@[k] as char);
                }
            }
            s
        },
        Err(_) => {
            proof {
                assert(false);
            }
            String::new()
        },
    }
}

} // verus!
