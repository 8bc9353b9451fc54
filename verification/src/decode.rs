//! Decoding of the raw `data` bytes of a log entry according to its type descriptor
//!, into text ready for display.
use vstd::prelude::*;
use vstd::utf8::{decode_utf8, valid_utf8};
use crate::numfmt::{
    byte_hex2, hex2, i64_to_decimal, int_decimal, le_i32, le_i64, le_u32_value, le_u64_value,
    le_value, nat_decimal, u64_to_decimal,
};
use crate::text::{concat2, concat3, str_eq};

verus! {

/// The outcome of decoding: display text, or the raw bits of a floating-point value whose
/// rendering (`{:.6}` for `float32`, `{:.10}` for `float64`) is left to the caller.
#[derive(Debug, Clone, PartialEq)]
pub enum Decoded {
    Text(String),
    Float32Bits(u32),
    Float64Bits(u64),
}

/// The meaning of a `Decoded`.
pub enum DecodedSpec {
    Text(Seq<char>),
    Float32Bits(u32),
    Float64Bits(u64),
}

impl View for Decoded {
    type V = DecodedSpec;

    open spec fn view(&self) -> DecodedSpec {
        match self {
            Decoded::Text(s) => DecodedSpec::Text(s@),
            Decoded::Float32Bits(b) => DecodedSpec::Float32Bits(*b),
            Decoded::Float64Bits(b) => DecodedSpec::Float64Bits(*b),
        }
    }
}

/// What `Utf8Error`'s `Display` renders for the bytes that failed to decode.
pub uninterp spec fn utf8_error_text(bytes: Seq<u8>) -> Seq<char>;

/// Calls `std::str::from_utf8`. Its documentation: `Ok` exactly when the bytes are valid
/// UTF-8, holding the string they encode; otherwise `Err`, whose rendered message is named
/// `utf8_error_text` (it depends on the bytes alone: the valid prefix length and the length of
/// the bad sequence).
#[verifier::external_body]
pub(crate) fn utf8_to_string(data: &[u8]) -> (r: Result<String, String>)
    ensures
        r is Ok <==> valid_utf8(data@),
        r matches Ok(s) ==> s@ == decode_utf8(data@),
        r matches Err(m) ==> m@ == utf8_error_text(data@),
{
    match std::str::from_utf8(data) {
        Ok(s) => Ok(s.to_string()),
        Err(e) => Err(e.to_string()),
    }
}

/// The pretty-printed form of a JSON document, `None` when the text is not JSON.
pub uninterp spec fn json_pretty_text(text: Seq<char>) -> Option<Seq<char>>;

/// Calls `serde_json::from_str::<serde_json::Value>` and then `serde_json::to_string_pretty`
/// on the parsed value: `Some` of the pretty text when both succeed, `None` otherwise. The
/// result is named `json_pretty_text` (a function of the text alone); nothing more of it is
/// stated.
#[verifier::external_body]
pub(crate) fn json_pretty(text: &str) -> (r: Option<String>)
    ensures
        match r {
            Some(p) => json_pretty_text(text@) == Some(p@),
            None => json_pretty_text(text@) is None,
        },
{
    match serde_json::from_str::<serde_json::Value>(text) {
        Ok(v) => serde_json::to_string_pretty(&v).ok(),
        Err(_) => None,
    }
}

/// `[decode error: expected {n} byte(s) for {kind}, got {len}]`.
pub open spec fn size_error(n: Seq<char>, kind: Seq<char>, len: nat) -> Seq<char> {
    "[decode error: expected "@ + n + " for "@ + kind + ", got "@ + nat_decimal(len) + "]"@
}

pub open spec fn decode_string_spec(d: Seq<u8>) -> Seq<char> {
    if valid_utf8(d) {
        decode_utf8(d)
    } else {
        "[decode error: invalid UTF-8: "@ + utf8_error_text(d) + "]"@
    }
}

pub open spec fn decode_int32_spec(d: Seq<u8>) -> Seq<char> {
    if d.len() != 4 {
        size_error("4 bytes"@, "int32"@, d.len())
    } else {
        int_decimal(le_i32(d))
    }
}

pub open spec fn decode_int64_spec(d: Seq<u8>) -> Seq<char> {
    if d.len() != 8 {
        size_error("8 bytes"@, "int64"@, d.len())
    } else {
        int_decimal(le_i64(d))
    }
}

pub open spec fn decode_float32_spec(d: Seq<u8>) -> DecodedSpec {
    if d.len() != 4 {
        DecodedSpec::Text(size_error("4 bytes"@, "float32"@, d.len()))
    } else {
        DecodedSpec::Float32Bits(le_value(d) as u32)
    }
}

pub open spec fn decode_float64_spec(d: Seq<u8>) -> DecodedSpec {
    if d.len() != 8 {
        DecodedSpec::Text(size_error("8 bytes"@, "float64"@, d.len()))
    } else {
        DecodedSpec::Float64Bits(le_value(d) as u64)
    }
}

pub open spec fn decode_bool_spec(d: Seq<u8>) -> Seq<char> {
    if d.len() != 1 {
        size_error("1 byte"@, "bool"@, d.len())
    } else if d[0] == 0 {
        "false"@
    } else if d[0] == 1 {
        "true"@
    } else {
        "[decode error: unexpected bool value 0x"@ + hex2(d[0]) + "]"@
    }
}

pub open spec fn decode_json_spec(d: Seq<u8>) -> Seq<char> {
    if valid_utf8(d) {
        match json_pretty_text(decode_utf8(d)) {
            Some(p) => p,
            None => decode_utf8(d),
        }
    } else {
        "[decode error: invalid UTF-8 for json: "@ + utf8_error_text(d) + "]"@
    }
}

/// Bytes shown at most by `decode_bytes`.
pub const MAX_BYTES_SHOWN: usize = 64;

/// `0xHH` for a byte.
pub open spec fn hex_byte(b: u8) -> Seq<char> {
    "0x"@ + hex2(b)
}

/// `0xHH` of each byte, separated by single spaces.
pub open spec fn hex_list(s: Seq<u8>) -> Seq<char>
    decreases s.len(),
{
    if s.len() == 0 {
        seq![]
    } else if s.len() == 1 {
        hex_byte(s[0])
    } else {
        hex_list(s.drop_last()) + " "@ + hex_byte(s.last())
    }
}

pub open spec fn decode_bytes_spec(d: Seq<u8>) -> Seq<char> {
    if d.len() > MAX_BYTES_SHOWN {
        hex_list(d.take(MAX_BYTES_SHOWN as int)) + " … ("@ + nat_decimal(d.len()) + " bytes total)"@
    } else {
        hex_list(d)
    }
}

/// The decoding of `data` under the type descriptor `t`.
pub open spec fn decode_spec(t: Seq<char>, d: Seq<u8>) -> DecodedSpec {
    if t == "string"@ {
        DecodedSpec::Text(decode_string_spec(d))
    } else if t == "int32"@ {
        DecodedSpec::Text(decode_int32_spec(d))
    } else if t == "int64"@ {
        DecodedSpec::Text(decode_int64_spec(d))
    } else if t == "float32"@ {
        decode_float32_spec(d)
    } else if t == "float64"@ {
        decode_float64_spec(d)
    } else if t == "bool"@ {
        DecodedSpec::Text(decode_bool_spec(d))
    } else if t == "json"@ || t == "beg_test_scenario"@ || t == "end_test_scenario"@ {
        DecodedSpec::Text(decode_json_spec(d))
    } else if t == "bytes"@ || t == "net_packet"@ || t == "serial_chunk"@ {
        DecodedSpec::Text(decode_bytes_spec(d))
    } else {
        DecodedSpec::Text("[decode error: unknown type \""@ + t + "\"]"@)
    }
}

/// `hex_list` of `n` bytes takes `5n - 1` characters: `0xHH` per byte, a space between two.
proof fn lemma_hex_list(s: Seq<u8>, i: int)
    requires
        0 <= i < s.len(),
    ensures
        hex_list(s).len() == 5 * s.len() - 1,
        hex_list(s).subrange(5 * i, 5 * i + 4) == seq!['0', 'x'] + hex2(s[i]),
        i + 1 < s.len() ==> hex_list(s)[5 * i + 4] == ' ',
    decreases s.len(),
{
    reveal_strlit("0x");
    reveal_strlit(" ");
    let n = s.len() as int;
    if n == 1 {
        assert(hex_list(s) == hex_byte(s[0]));
        assert(hex_list(s).subrange(0, 4) =~= hex_list(s));
        assert("0x"@ =~= seq!['0', 'x']);
    } else {
        let init = s.drop_last();
        let h = hex_list(init);
        let whole = hex_list(s);
        assert(whole == h + " "@ + hex_byte(s.last()));
        if i < n - 1 {
            lemma_hex_list(init, i);
            assert(init[i] == s[i]);
            assert(whole.subrange(5 * i, 5 * i + 4) =~= h.subrange(5 * i, 5 * i + 4));
            if i + 1 < n - 1 {
                lemma_hex_list(init, i + 1);
                assert(whole[5 * i + 4] == h[5 * i + 4]);
            } else {
                assert(whole[5 * i + 4] == ' ');
            }
        } else {
            lemma_hex_list(init, 0);
            assert(whole.subrange(5 * i, 5 * i + 4) =~= hex_byte(s.last()));
            assert("0x"@ =~= seq!['0', 'x']);
        }
    }
}

/// Byte payloads (`bytes`, `net_packet`, `serial_chunk`) are shown as hexadecimal: the `i`-th
/// of the first 64 bytes is written `0xHH` at characters `5i .. 5i + 4`, followed by a space
/// when another shown byte follows; up to 64 bytes, nothing else is written.
pub proof fn lemma_bytes_shown_as_hex(t: Seq<char>, d: Seq<u8>, i: int)
    requires
        t == "bytes"@ || t == "net_packet"@ || t == "serial_chunk"@,
        0 <= i < d.len(),
        i < 64,
    ensures
        decode_spec(t, d) matches DecodedSpec::Text(x) && x.subrange(5 * i, 5 * i + 4) == seq!['0', 'x']
            + hex2(d[i]) && (i + 1 < d.len() && i + 1 < 64 ==> x[5 * i + 4] == ' ') && (d.len() <= 64
            ==> x.len() == 5 * d.len() - 1),
{
    reveal_strlit("string");
    reveal_strlit("int32");
    reveal_strlit("int64");
    reveal_strlit("float32");
    reveal_strlit("float64");
    reveal_strlit("bool");
    reveal_strlit("json");
    reveal_strlit("bytes");
    reveal_strlit("net_packet");
    reveal_strlit("serial_chunk");
    reveal_strlit("beg_test_scenario");
    reveal_strlit("end_test_scenario");
    assert("bytes"@[0] != "int32"@[0] && "bytes"@[0] != "int64"@[0]);
    assert(t.len() == 5 || t.len() == 10 || t.len() == 12);
    assert(t.len() == 5 ==> t[0] == 'b');
    assert(decode_spec(t, d) == DecodedSpec::Text(decode_bytes_spec(d)));
    if d.len() > 64 {
        let shown = d.take(64);
        lemma_hex_list(shown, i);
        assert(shown[i] == d[i]);
        if i + 1 < 64 {
            lemma_hex_list(shown, i + 1);
        }
        let x = decode_bytes_spec(d);
        assert(x.subrange(5 * i, 5 * i + 4) =~= hex_list(shown).subrange(5 * i, 5 * i + 4));
    } else {
        lemma_hex_list(d, i);
    }
}

fn size_error_text(n: &str, kind: &str, len: usize) -> (r: String)
    ensures
        r@ == size_error(n@, kind@, len as nat),
{
    let a = concat3("[decode error: expected ", n, " for ");
    let a = a.concat(kind);
    let a = a.concat(", got ");
    let digits = u64_to_decimal(len as u64);
    let a = a.concat(digits.as_str());
    let r = a.concat("]");
    assert(r@ =~= size_error(n@, kind@, len as nat));
    r
}

/// Decodes UTF-8 text.
pub fn decode_string(data: &[u8]) -> (r: String)
    ensures
        r@ == decode_string_spec(data@),
{
    match utf8_to_string(data) {
        Ok(s) => s,
        Err(m) => {
            let r = concat3("[decode error: invalid UTF-8: ", m.as_str(), "]");
            r
        },
    }
}

/// Decodes a little-endian `int32`.
pub fn decode_int32(data: &[u8]) -> (r: String)
    ensures
        r@ == decode_int32_spec(data@),
{
    if data.len() != 4 {
        return size_error_text("4 bytes", "int32", data.len());
    }
    let u = le_u32_value(data);
    let v: i64 = if u >= 0x8000_0000 { (u as i64) - 0x1_0000_0000 } else { u as i64 };
    i64_to_decimal(v)
}

/// Decodes a little-endian `int64`.
pub fn decode_int64(data: &[u8]) -> (r: String)
    ensures
        r@ == decode_int64_spec(data@),
{
    if data.len() != 8 {
        return size_error_text("8 bytes", "int64", data.len());
    }
    let u = le_u64_value(data);
    let v: i64 = if u >= 0x8000_0000_0000_0000 {
        ((u as i128) - 0x1_0000_0000_0000_0000i128) as i64
    } else {
        u as i64
    };
    i64_to_decimal(v)
}

/// Decodes a `bool` byte.
pub fn decode_bool(data: &[u8]) -> (r: String)
    ensures
        r@ == decode_bool_spec(data@),
{
    if data.len() != 1 {
        return size_error_text("1 byte", "bool", data.len());
    }
    if data[0] == 0 {
        String::from_str("false")
    } else if data[0] == 1 {
        String::from_str("true")
    } else {
        let h = byte_hex2(data[0]);
        concat3("[decode error: unexpected bool value 0x", h.as_str(), "]")
    }
}

/// Decodes a JSON document, pretty-printed when it parses.
pub fn decode_json(data: &[u8]) -> (r: String)
    ensures
        r@ == decode_json_spec(data@),
{
    match utf8_to_string(data) {
        Ok(s) => match json_pretty(s.as_str()) {
            Some(p) => p,
            None => s,
        },
        Err(m) => concat3("[decode error: invalid UTF-8 for json: ", m.as_str(), "]"),
    }
}

/// Renders at most 64 bytes as `0xHH` separated by spaces, then the total size when longer.
pub fn decode_bytes(data: &[u8]) -> (r: String)
    ensures
        r@ == decode_bytes_spec(data@),
{
    let n = if data.len() > MAX_BYTES_SHOWN { MAX_BYTES_SHOWN } else { data.len() };
    let mut acc = String::new();
    let mut i: usize = 0;
    while i < n
        invariant
            n <= data.len(),
            i <= n,
            acc@ == hex_list(data@.take(i as int)),
        decreases n - i,
    {
        let h = byte_hex2(data[i]);
        let piece = concat2("0x", h.as_str());
        let ghost prev = acc@;
        if i == 0 {
            acc = piece;
        } else {
            acc = concat3(acc.as_str(), " ", piece.as_str());
        }
        proof {
            let t = data@.take(i + 1);
            assert(t.drop_last() =~= data@.take(i as int));
            assert(t.last() == data@[i as int]);
            if i == 0 {
                assert(t.len() == 1);
            }
        }
        i = i + 1;
    }
    if data.len() > MAX_BYTES_SHOWN {
        let total = u64_to_decimal(data.len() as u64);
        let tail = concat3(" … (", total.as_str(), " bytes total)");
        concat2(acc.as_str(), tail.as_str())
    } else {
        assert(data@.take(data.len() as int) =~= data@);
        acc
    }
}

/// Decodes the raw bytes `data` according to the type descriptor `type_str`.
///
/// Text types give display-ready text, or `[decode error: …]` on failure; `float32` and
/// `float64` of the right size give the raw bits to render.
pub fn decode_data(type_str: &str, data: &[u8]) -> (r: Decoded)
    ensures
        r@ == decode_spec(type_str@, data@),
{
    if str_eq(type_str, "string") {
        Decoded::Text(decode_string(data))
    } else if str_eq(type_str, "int32") {
        Decoded::Text(decode_int32(data))
    } else if str_eq(type_str, "int64") {
        Decoded::Text(decode_int64(data))
    } else if str_eq(type_str, "float32") {
        if data.len() != 4 {
            Decoded::Text(size_error_text("4 bytes", "float32", data.len()))
        } else {
            Decoded::Float32Bits(le_u32_value(data) as u32)
        }
    } else if str_eq(type_str, "float64") {
        if data.len() != 8 {
            Decoded::Text(size_error_text("8 bytes", "float64", data.len()))
        } else {
            Decoded::Float64Bits(le_u64_value(data))
        }
    } else if str_eq(type_str, "bool") {
        Decoded::Text(decode_bool(data))
    } else if str_eq(type_str, "json") || str_eq(type_str, "beg_test_scenario") || str_eq(
        type_str,
        "end_test_scenario",
    ) {
        Decoded::Text(decode_json(data))
    } else if str_eq(type_str, "bytes") || str_eq(type_str, "net_packet") || str_eq(
        type_str,
        "serial_chunk",
    ) {
        Decoded::Text(decode_bytes(data))
    } else {
        Decoded::Text(concat3("[decode error: unknown type \"", type_str, "\"]"))
    }
}

} // verus!
