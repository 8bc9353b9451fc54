use lulu_logs::decode::{decode_bool, decode_bytes, decode_data, decode_int32, decode_int64, decode_json, decode_string, Decoded};
use lulu_logs::numfmt::{byte_hex2, i64_to_decimal, u64_to_decimal};

fn text(d: Decoded) -> String {
    match d {
        Decoded::Text(s) => s,
        other => panic!("expected text, got {:?}", other),
    }
}

#[test]
fn decode_string_valid_utf8() {
    assert_eq!(text(decode_data("string", "Tool call completed successfully".as_bytes())), "Tool call completed successfully");
    assert_eq!(decode_string("héllo".as_bytes()), "héllo");
}

#[test]
fn decode_string_invalid_utf8() {
    let r = decode_string(&[0xff, 0x41]);
    assert!(r.starts_with("[decode error: invalid UTF-8: "));
    assert!(r.ends_with("]"));
    assert_eq!(r, format!("[decode error: invalid UTF-8: {}]", std::str::from_utf8(&[0xff, 0x41]).unwrap_err()));
}

#[test]
fn decode_int32_values() {
    assert_eq!(decode_int32(&42i32.to_le_bytes()), "42");
    assert_eq!(decode_int32(&(-7i32).to_le_bytes()), "-7");
    assert_eq!(decode_int32(&i32::MIN.to_le_bytes()), "-2147483648");
    assert_eq!(decode_int32(&i32::MAX.to_le_bytes()), "2147483647");
    assert_eq!(decode_int32(&[1, 2, 3]), "[decode error: expected 4 bytes for int32, got 3]");
    assert_eq!(text(decode_data("int32", &0i32.to_le_bytes())), "0");
}

#[test]
fn decode_int64_values() {
    assert_eq!(decode_int64(&1234567890123i64.to_le_bytes()), "1234567890123");
    assert_eq!(decode_int64(&i64::MIN.to_le_bytes()), "-9223372036854775808");
    assert_eq!(decode_int64(&(-1i64).to_le_bytes()), "-1");
    assert_eq!(decode_int64(&[0u8; 4]), "[decode error: expected 8 bytes for int64, got 4]");
}

#[test]
fn decode_float_bits() {
    let bits = 3.31f32.to_bits();
    assert_eq!(decode_data("float32", &bits.to_le_bytes()), Decoded::Float32Bits(bits));
    let bits64 = 1_000_000.0f64.to_bits();
    assert_eq!(decode_data("float64", &bits64.to_le_bytes()), Decoded::Float64Bits(bits64));
    assert_eq!(text(decode_data("float32", &[1, 2])), "[decode error: expected 4 bytes for float32, got 2]");
    assert_eq!(text(decode_data("float64", &[1, 2])), "[decode error: expected 8 bytes for float64, got 2]");
}

#[test]
fn decode_bool_values() {
    assert_eq!(decode_bool(&[0]), "false");
    assert_eq!(decode_bool(&[1]), "true");
    assert_eq!(decode_bool(&[0x2a]), "[decode error: unexpected bool value 0x2A]");
    assert_eq!(decode_bool(&[]), "[decode error: expected 1 byte for bool, got 0]");
}

#[test]
fn decode_json_pretty_prints() {
    assert_eq!(decode_json(br#"{"a":1}"#), "{\n  \"a\": 1\n}");
    assert_eq!(decode_json(b"not json"), "not json");
    assert!(decode_json(&[0xc3]).starts_with("[decode error: invalid UTF-8 for json: "));
    assert_eq!(text(decode_data("beg_test_scenario", br#"{"name":"x"}"#)), "{\n  \"name\": \"x\"\n}");
}

#[test]
fn decode_bytes_hex() {
    assert_eq!(decode_bytes(&[0x01, 0xab, 0xff]), "0x01 0xAB 0xFF");
    assert_eq!(decode_bytes(&[]), "");
    let long: Vec<u8> = (0..70u8).collect();
    let r = decode_bytes(&long);
    assert!(r.starts_with("0x00 0x01"));
    assert!(r.ends_with("0x3F … (70 bytes total)"));
    assert_eq!(r.matches("0x").count(), 64);
    assert_eq!(text(decode_data("net_packet", &[0x10])), "0x10");
    assert_eq!(text(decode_data("serial_chunk", &[0x00, 0x0a])), "0x00 0x0A");
}

#[test]
fn decode_unknown_type() {
    assert_eq!(text(decode_data("weird", &[1])), "[decode error: unknown type \"weird\"]");
}

#[test]
fn number_rendering() {
    assert_eq!(u64_to_decimal(0), "0");
    assert_eq!(u64_to_decimal(u64::MAX), u64::MAX.to_string());
    assert_eq!(i64_to_decimal(-100), "-100");
    assert_eq!(byte_hex2(0x0f), "0F");
}
