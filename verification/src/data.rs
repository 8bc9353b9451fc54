//! Values published by a producer, and their encoding into the `type` / `data` fields of a
//! log entry.
use vstd::prelude::*;
use vstd::string::*;
use vstd::utf8::{decode_utf8, encode_utf8, valid_utf8};
use crate::decode::{
    decode_bool_spec, decode_bytes_spec, decode_int32_spec, decode_int64_spec, decode_spec, decode_string_spec,
    json_pretty_text, DecodedSpec,
};
use crate::numfmt::{int_decimal, le_from, le_i32, le_i64, le_value};

verus! {

broadcast use vstd::utf8::group_utf8_lib;

/// The type descriptor of a data value.
#[derive(Debug, Clone, Copy, PartialEq, Eq, Structural)]
pub enum DataType {
    String,
    Int32,
    Int64,
    Float32,
    Float64,
    Bool,
    Json,
    Bytes,
    NetPacket,
    SerialChunk,
    BegTestScenario,
    EndTestScenario,
}

/// A value to publish. Floating-point values are carried as their IEEE 754 bits.
#[derive(Debug, Clone, PartialEq)]
pub enum Data {
    String(String),
    Int32(i32),
    Int64(i64),
    Float32(u32),
    Float64(u64),
    Bool(bool),
    Json(String),
    Bytes(Vec<u8>),
    NetPacket(Vec<u8>),
    SerialChunk(Vec<u8>),
    BegTestScenario(String),
    EndTestScenario(String),
}

impl DataType {
    /// The descriptor written in the `type` field.
    pub open spec fn name_spec(self) -> Seq<char> {
        match self {
            DataType::String => "string"@,
            DataType::Int32 => "int32"@,
            DataType::Int64 => "int64"@,
            DataType::Float32 => "float32"@,
            DataType::Float64 => "float64"@,
            DataType::Bool => "bool"@,
            DataType::Json => "json"@,
            DataType::Bytes => "bytes"@,
            DataType::NetPacket => "net_packet"@,
            DataType::SerialChunk => "serial_chunk"@,
            DataType::BegTestScenario => "beg_test_scenario"@,
            DataType::EndTestScenario => "end_test_scenario"@,
        }
    }

    /// The descriptor written in the `type` field.
    pub fn as_str(&self) -> (r: &'static str)
        ensures
            r@ == self.name_spec(),
    {
        match self {
            DataType::String => "string",
            DataType::Int32 => "int32",
            DataType::Int64 => "int64",
            DataType::Float32 => "float32",
            DataType::Float64 => "float64",
            DataType::Bool => "bool",
            DataType::Json => "json",
            DataType::Bytes => "bytes",
            DataType::NetPacket => "net_packet",
            DataType::SerialChunk => "serial_chunk",
            DataType::BegTestScenario => "beg_test_scenario",
            DataType::EndTestScenario => "end_test_scenario",
        }
    }
}

/// Little-endian bytes of `v`, `n` bytes long.
pub open spec fn le_bytes(v: nat, n: nat) -> Seq<u8>
    decreases n,
{
    if n == 0 {
        seq![]
    } else {
        seq![(v % 256) as u8] + le_bytes(v / 256, (n - 1) as nat)
    }
}

/// Two's-complement value of a signed integer on `bits` bits.
pub open spec fn twos(v: int, bits: nat) -> nat {
    if v < 0 {
        (v + vstd::arithmetic::power2::pow2(bits)) as nat
    } else {
        v as nat
    }
}

impl Data {
    pub open spec fn data_type_spec(&self) -> DataType {
        match self {
            Data::String(_) => DataType::String,
            Data::Int32(_) => DataType::Int32,
            Data::Int64(_) => DataType::Int64,
            Data::Float32(_) => DataType::Float32,
            Data::Float64(_) => DataType::Float64,
            Data::Bool(_) => DataType::Bool,
            Data::Json(_) => DataType::Json,
            Data::Bytes(_) => DataType::Bytes,
            Data::NetPacket(_) => DataType::NetPacket,
            Data::SerialChunk(_) => DataType::SerialChunk,
            Data::BegTestScenario(_) => DataType::BegTestScenario,
            Data::EndTestScenario(_) => DataType::EndTestScenario,
        }
    }

    /// The bytes written in the `data` field: UTF-8 for text, little-endian for numbers,
    /// `0x00` / `0x01` for booleans, the bytes themselves for binary data.
    pub open spec fn bytes_spec(&self) -> Seq<u8> {
        match self {
            Data::String(s) => encode_utf8(s@),
            Data::Int32(v) => le_bytes(twos(*v as int, 32), 4),
            Data::Int64(v) => le_bytes(twos(*v as int, 64), 8),
            Data::Float32(b) => le_bytes(*b as nat, 4),
            Data::Float64(b) => le_bytes(*b as nat, 8),
            Data::Bool(b) => seq![if *b { 1u8 } else { 0u8 }],
            Data::Json(s) => encode_utf8(s@),
            Data::Bytes(v) => v@,
            Data::NetPacket(v) => v@,
            Data::SerialChunk(v) => v@,
            Data::BegTestScenario(s) => encode_utf8(s@),
            Data::EndTestScenario(s) => encode_utf8(s@),
        }
    }

    /// The type descriptor of the value.
    pub fn data_type(&self) -> (r: DataType)
        ensures
            r == self.data_type_spec(),
    {
        match self {
            Data::String(_) => DataType::String,
            Data::Int32(_) => DataType::Int32,
            Data::Int64(_) => DataType::Int64,
            Data::Float32(_) => DataType::Float32,
            Data::Float64(_) => DataType::Float64,
            Data::Bool(_) => DataType::Bool,
            Data::Json(_) => DataType::Json,
            Data::Bytes(_) => DataType::Bytes,
            Data::NetPacket(_) => DataType::NetPacket,
            Data::SerialChunk(_) => DataType::SerialChunk,
            Data::BegTestScenario(_) => DataType::BegTestScenario,
            Data::EndTestScenario(_) => DataType::EndTestScenario,
        }
    }

    /// The bytes of the `data` field.
    pub fn to_bytes(&self) -> (r: Vec<u8>)
        ensures
            r@ == self.bytes_spec(),
    {
        match self {
            Data::String(s) => utf8_bytes(s.as_str()),
            Data::Int32(v) => {
                let u: u64 = if *v < 0 { (*v as i64 + 0x1_0000_0000) as u64 } else { *v as u64 };
                proof {
                    vstd::arithmetic::power2::lemma2_to64();
                }
                le_bytes_exec(u, 4)
            },
            Data::Int64(v) => {
                let u: u64 = if *v < 0 {
                    ((*v as i128) + 0x1_0000_0000_0000_0000i128) as u64
                } else {
                    *v as u64
                };
                proof {
                    vstd::arithmetic::power2::lemma2_to64_rest();
                }
                le_bytes_exec(u, 8)
            },
            Data::Float32(b) => le_bytes_exec(*b as u64, 4),
            Data::Float64(b) => le_bytes_exec(*b, 8),
            Data::Bool(b) => {
                let mut v: Vec<u8> = Vec::new();
                v.push(if *b { 1u8 } else { 0u8 });
                assert(v@ =~= seq![if *b { 1u8 } else { 0u8 }]);
                v
            },
            Data::Json(s) => utf8_bytes(s.as_str()),
            Data::Bytes(v) => copy_vec(v),
            Data::NetPacket(v) => copy_vec(v),
            Data::SerialChunk(v) => copy_vec(v),
            Data::BegTestScenario(s) => utf8_bytes(s.as_str()),
            Data::EndTestScenario(s) => utf8_bytes(s.as_str()),
        }
    }
}

fn copy_vec(v: &Vec<u8>) -> (r: Vec<u8>)
    ensures
        r@ == v@,
{
    let r = v.clone();
    assert(r@ =~= v@);
    r
}

/// The UTF-8 bytes of a string.
pub fn utf8_bytes(s: &str) -> (r: Vec<u8>)
    ensures
        r@ == encode_utf8(s@),
{
    let b = s.as_bytes();
    let mut r: Vec<u8> = Vec::new();
    let mut i: usize = 0;
    while i < b.len()
        invariant
            i <= b@.len(),
            b@ == encode_utf8(s@),
            r@ == b@.take(i as int),
        decreases b.len() - i,
    {
        r.push(b[i]);
        assert(r@ =~= b@.take(i + 1));
        i = i + 1;
    }
    assert(b@.take(b@.len() as int) =~= b@);
    r
}

/// Little-endian bytes of `v`, `n` bytes long.
pub fn le_bytes_exec(v: u64, n: usize) -> (r: Vec<u8>)
    requires
        n <= 8,
    ensures
        r@ == le_bytes(v as nat, n as nat),
{
    let mut r: Vec<u8> = Vec::new();
    let mut x = v;
    let mut i: usize = 0;
    while i < n
        invariant
            i <= n,
            r@ + le_bytes(x as nat, (n - i) as nat) == le_bytes(v as nat, n as nat),
        decreases n - i,
    {
        let ghost before = r@;
        proof {
            assert(le_bytes(x as nat, (n - i) as nat) == seq![(x % 256) as u8] + le_bytes(
                (x / 256) as nat,
                (n - i - 1) as nat,
            ));
        }
        r.push((x % 256) as u8);
        assert(before + le_bytes(x as nat, (n - i) as nat) =~= r@ + le_bytes(
            (x / 256) as nat,
            (n - i - 1) as nat,
        ));
        x = x / 256;
        i = i + 1;
    }
    assert(r@ + le_bytes(x as nat, 0) =~= r@);
    r
}

proof fn lemma_le_from_skip(s: Seq<u8>, i: int)
    requires
        0 <= i <= s.len(),
    ensures
        le_from(s, i) == le_value(s.skip(i)),
    decreases s.len() - i,
{
    if i < s.len() {
        lemma_le_from_skip(s, i + 1);
        lemma_le_from_skip(s.skip(i), 1);
        assert(s.skip(i).skip(1) =~= s.skip(i + 1));
        assert(s.skip(i)[0] == s[i]);
    } else {
        assert(s.skip(i).len() == 0);
    }
}

/// Reading back little-endian bytes gives the value they were made from.
pub proof fn lemma_le_bytes_value(v: nat, n: nat)
    requires
        v < vstd::arithmetic::power2::pow2(8 * n),
    ensures
        le_value(le_bytes(v, n)) == v,
        le_bytes(v, n).len() == n,
    decreases n,
{
    if n == 0 {
        vstd::arithmetic::power2::lemma2_to64();
    } else {
        let rest = le_bytes(v / 256, (n - 1) as nat);
        vstd::arithmetic::power2::lemma_pow2_adds(8, 8 * (n - 1) as nat);
        vstd::arithmetic::power2::lemma2_to64();
        assert(8 + 8 * (n - 1) == 8 * n);
        assert(v / 256 < vstd::arithmetic::power2::pow2(8 * (n - 1) as nat)) by (nonlinear_arith)
            requires
                v < 256 * vstd::arithmetic::power2::pow2(8 * (n - 1) as nat),
        ;
        lemma_le_bytes_value(v / 256, (n - 1) as nat);
        let s = le_bytes(v, n);
        assert(s == seq![(v % 256) as u8] + rest);
        lemma_le_from_skip(s, 1);
        assert(s.skip(1) =~= rest);
        assert(le_value(s) == s[0] as nat + 256 * le_from(s, 1));
        assert(v == (v % 256) + 256 * (v / 256)) by (nonlinear_arith);
    }
}

/// What a producer encodes, a consumer decodes back: for text, integers, booleans and floats,
/// decoding the `type` and `data` fields written for a value gives that value's rendering.
pub proof fn lemma_data_decodes_back(d: Data)
    ensures
        d matches Data::String(s) ==> decode_spec(d.data_type_spec().name_spec(), d.bytes_spec())
            == DecodedSpec::Text(s@),
        d matches Data::Int32(v) ==> decode_spec(d.data_type_spec().name_spec(), d.bytes_spec())
            == DecodedSpec::Text(int_decimal(v as int)),
        d matches Data::Int64(v) ==> decode_spec(d.data_type_spec().name_spec(), d.bytes_spec())
            == DecodedSpec::Text(int_decimal(v as int)),
        d matches Data::Float32(b) ==> decode_spec(d.data_type_spec().name_spec(), d.bytes_spec())
            == DecodedSpec::Float32Bits(b),
        d matches Data::Float64(b) ==> decode_spec(d.data_type_spec().name_spec(), d.bytes_spec())
            == DecodedSpec::Float64Bits(b),
        d matches Data::Bool(b) ==> decode_spec(d.data_type_spec().name_spec(), d.bytes_spec())
            == DecodedSpec::Text(if b { "true"@ } else { "false"@ }),
{
    reveal_strlit("string");
    reveal_strlit("int32");
    reveal_strlit("int64");
    reveal_strlit("float32");
    reveal_strlit("float64");
    reveal_strlit("bool");
    reveal_strlit("true");
    reveal_strlit("false");
    vstd::arithmetic::power2::lemma2_to64();
    vstd::arithmetic::power2::lemma2_to64_rest();
    match d {
        Data::String(s) => {
            vstd::utf8::encode_utf8_valid_utf8(s@);
            vstd::utf8::encode_utf8_decode_utf8(s@);
        },
        Data::Int32(v) => {
            assert(vstd::arithmetic::power2::pow2(32) == 0x1_0000_0000);
            assert(8 * 4nat == 32);
            lemma_le_bytes_value(twos(v as int, 32), 4);
            let b = d.bytes_spec();
            assert(le_i32(b) == v);
            assert("int32"@.len() != "string"@.len());
            assert(decode_spec("int32"@, b) == DecodedSpec::Text(decode_int32_spec(b)));
        },
        Data::Int64(v) => {
            assert(vstd::arithmetic::power2::pow2(64) == 0x1_0000_0000_0000_0000);
            assert(8 * 8nat == 64);
            lemma_le_bytes_value(twos(v as int, 64), 8);
            let b = d.bytes_spec();
            assert(le_i64(b) == v);
            assert("int64"@.len() != "string"@.len());
            assert("int64"@[3] != "int32"@[3]);
            assert(decode_spec("int64"@, b) == DecodedSpec::Text(decode_int64_spec(b)));
        },
        Data::Float32(b) => {
            lemma_le_bytes_value(b as nat, 4);
            assert("float32"@.len() != "string"@.len() && "float32"@.len() != "int32"@.len());
        },
        Data::Float64(b) => {
            lemma_le_bytes_value(b as nat, 8);
            assert("float64"@.len() != "string"@.len() && "float64"@.len() != "int32"@.len());
            assert("float64"@[5] != "float32"@[5]);
        },
        Data::Bool(b) => {
            assert("bool"@.len() != "string"@.len() && "bool"@.len() != "int32"@.len());
            assert("bool"@.len() != "float32"@.len());
        },
        _ => {},
    }
}

/// The type descriptors written for each kind of value, as the protocol names them.
pub proof fn lemma_type_names(d: Data)
    ensures
        d is String ==> d.data_type_spec().name_spec() == "string"@,
        d is Int32 ==> d.data_type_spec().name_spec() == "int32"@,
        d is Int64 ==> d.data_type_spec().name_spec() == "int64"@,
        d is Float32 ==> d.data_type_spec().name_spec() == "float32"@,
        d is Float64 ==> d.data_type_spec().name_spec() == "float64"@,
        d is Bool ==> d.data_type_spec().name_spec() == "bool"@,
        d is Json ==> d.data_type_spec().name_spec() == "json"@,
        d is Bytes ==> d.data_type_spec().name_spec() == "bytes"@,
        d is NetPacket ==> d.data_type_spec().name_spec() == "net_packet"@,
        d is SerialChunk ==> d.data_type_spec().name_spec() == "serial_chunk"@,
        d is BegTestScenario ==> d.data_type_spec().name_spec() == "beg_test_scenario"@,
        d is EndTestScenario ==> d.data_type_spec().name_spec() == "end_test_scenario"@,
{
}

/// Every kind of value has its own type descriptor: no two kinds share one.
pub proof fn lemma_type_names_distinct(a: DataType, b: DataType)
    ensures
        a != b ==> a.name_spec() != b.name_spec(),
{
    reveal_strlit("string");
    reveal_strlit("int32");
    reveal_strlit("int64");
    reveal_strlit("float32");
    reveal_strlit("float64");
    reveal_strlit("bool");
    reveal_strlit("json");
    reveal_strlit("bytes");
    reveal_strlit("net_packet");
    reveal_strlit("serial_chunk");
    reveal_strlit("beg_test_scenario");
    reveal_strlit("end_test_scenario");
    if a != b && a.name_spec() == b.name_spec() {
        let x = a.name_spec();
        let y = b.name_spec();
        assert(x.len() == y.len());
        assert(x[0] == y[0]);
        assert(x.len() < 5 || x[3] == y[3]);
        assert(x.len() < 6 || x[5] == y[5]);
    }
}

/// What a producer encodes, a consumer decodes back, for the remaining kinds: JSON text and
/// scenario markers are shown pretty-printed when they parse as JSON (as themselves
/// otherwise), and byte payloads are shown as hexadecimal.
pub proof fn lemma_data_decodes_back_rest(d: Data)
    ensures
        d matches Data::Json(s) ==> decode_spec(d.data_type_spec().name_spec(), d.bytes_spec())
            == DecodedSpec::Text(
            match json_pretty_text(s@) {
                Some(p) => p,
                None => s@,
            },
        ),
        d matches Data::BegTestScenario(s) ==> decode_spec(d.data_type_spec().name_spec(), d.bytes_spec())
            == DecodedSpec::Text(
            match json_pretty_text(s@) {
                Some(p) => p,
                None => s@,
            },
        ),
        d matches Data::EndTestScenario(s) ==> decode_spec(d.data_type_spec().name_spec(), d.bytes_spec())
            == DecodedSpec::Text(
            match json_pretty_text(s@) {
                Some(p) => p,
                None => s@,
            },
        ),
        d matches Data::Bytes(v) ==> decode_spec(d.data_type_spec().name_spec(), d.bytes_spec())
            == DecodedSpec::Text(decode_bytes_spec(v@)),
        d matches Data::NetPacket(v) ==> decode_spec(d.data_type_spec().name_spec(), d.bytes_spec())
            == DecodedSpec::Text(decode_bytes_spec(v@)),
        d matches Data::SerialChunk(v) ==> decode_spec(d.data_type_spec().name_spec(), d.bytes_spec())
            == DecodedSpec::Text(decode_bytes_spec(v@)),
{
    reveal_strlit("string");
    reveal_strlit("int32");
    reveal_strlit("int64");
    reveal_strlit("float32");
    reveal_strlit("float64");
    reveal_strlit("bool");
    reveal_strlit("json");
    reveal_strlit("bytes");
    reveal_strlit("net_packet");
    reveal_strlit("serial_chunk");
    reveal_strlit("beg_test_scenario");
    reveal_strlit("end_test_scenario");
    assert("json"@[0] != "bool"@[0]);
    assert("bytes"@[0] != "int32"@[0] && "bytes"@[0] != "int64"@[0]);
    match d {
        Data::Json(s) => {
            vstd::utf8::encode_utf8_valid_utf8(s@);
            vstd::utf8::encode_utf8_decode_utf8(s@);
        },
        Data::BegTestScenario(s) => {
            vstd::utf8::encode_utf8_valid_utf8(s@);
            vstd::utf8::encode_utf8_decode_utf8(s@);
        },
        Data::EndTestScenario(s) => {
            vstd::utf8::encode_utf8_valid_utf8(s@);
            vstd::utf8::encode_utf8_decode_utf8(s@);
        },
        Data::NetPacket(v) => {
            assert("net_packet"@.len() == 10);
            assert(decode_spec("net_packet"@, v@) == DecodedSpec::Text(decode_bytes_spec(v@)));
        },
        Data::SerialChunk(v) => {
            assert("serial_chunk"@.len() == 12);
            assert(decode_spec("serial_chunk"@, v@) == DecodedSpec::Text(decode_bytes_spec(v@)));
        },
        _ => {},
    }
}

} // verus!
