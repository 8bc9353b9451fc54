//! Streams of length-prefixed records, as written by the append-only log files: each record
//! is preceded either by its length as a big-endian `u32`, or by its length as a protobuf
//! varint.
use vstd::prelude::*;
use crate::fbb::{
    fb_bytes, fb_create_bytes, fb_create_string, fb_end_table, fb_finish, fb_finished_data, fb_new, fb_offset,
    fb_push_offset, fb_push_u64, fb_start_table, lemma_fb_empty, lemma_fb_step, FbOp, FB_INPUT_LIMIT,
};
use vstd::utf8::encode_utf8;

verus! {

/// A log record as read back from a FlatBuffers stream.
#[derive(Debug, Clone, PartialEq)]
pub struct FlatBuffersLogRecord {
    pub topic: String,
    pub payload: Vec<u8>,
    pub timestamp_ns: u64,
}

/// Big-endian bytes of `n` on 4 bytes.
pub open spec fn be_u32(n: nat) -> Seq<u8> {
    seq![
        ((n / 0x100_0000) % 256) as u8,
        ((n / 0x1_0000) % 256) as u8,
        ((n / 0x100) % 256) as u8,
        (n % 256) as u8,
    ]
}

/// Value of 4 big-endian bytes at `pos`.
pub open spec fn be_u32_at(s: Seq<u8>, pos: int) -> nat {
    s[pos] as nat * 0x100_0000 + s[pos + 1] as nat * 0x1_0000 + s[pos + 2] as nat * 0x100 + s[pos
        + 3] as nat
}

/// What reading a record at `pos` finds.
#[derive(Debug, Clone, Copy, PartialEq, Eq, Structural)]
pub enum FrameStep {
    /// No complete length prefix remains: the end of the stream.
    End,
    /// The length prefix announces more bytes than remain.
    Truncated,
    /// A record of `len` bytes starts at `start`; the next record starts at `start + len`.
    Frame { start: usize, len: usize },
}

/// The record framed with a big-endian `u32` length (the length is taken modulo 2^32, as a
/// `usize` to `u32` cast does).
pub open spec fn be_frame_spec(buf: Seq<u8>) -> Seq<u8> {
    be_u32(buf.len() % 0x1_0000_0000) + buf
}

/// Reading a `u32`-prefixed record at `pos`.
pub open spec fn next_be_frame_spec(s: Seq<u8>, pos: int) -> FrameStep {
    if s.len() - pos < 4 {
        FrameStep::End
    } else if s.len() - pos - 4 < be_u32_at(s, pos) {
        FrameStep::Truncated
    } else {
        FrameStep::Frame { start: (pos + 4) as usize, len: be_u32_at(s, pos) as usize }
    }
}

/// Prefixes a record with its length as a big-endian `u32`.
pub fn frame_be(buf: &[u8]) -> (r: Vec<u8>)
    ensures
        r@ == be_frame_spec(buf@),
{
    let n: u64 = (buf.len() as u64) % 0x1_0000_0000;
    let mut r: Vec<u8> = Vec::new();
    r.push(((n / 0x100_0000) % 256) as u8);
    r.push(((n / 0x1_0000) % 256) as u8);
    r.push(((n / 0x100) % 256) as u8);
    r.push((n % 256) as u8);
    let mut i: usize = 0;
    while i < buf.len()
        invariant
            i <= buf@.len(),
            n == buf@.len() % 0x1_0000_0000,
            r@ == be_u32(n as nat) + buf@.take(i as int),
        decreases buf.len() - i,
    {
        r.push(buf[i]);
        assert(r@ =~= be_u32(n as nat) + buf@.take(i + 1));
        i = i + 1;
    }
    assert(buf@.take(buf@.len() as int) =~= buf@);
    r
}

/// Reads the `u32`-prefixed record at `pos`.
pub fn next_be_frame(s: &[u8], pos: usize) -> (r: FrameStep)
    requires
        pos <= s@.len(),
    ensures
        r == next_be_frame_spec(s@, pos as int),
{
    if s.len() - pos < 4 {
        return FrameStep::End;
    }
    let len: u64 = (s[pos] as u64) * 0x100_0000 + (s[pos + 1] as u64) * 0x1_0000 + (s[pos + 2] as u64)
        * 0x100 + (s[pos + 3] as u64);
    if ((s.len() - pos - 4) as u64) < len {
        return FrameStep::Truncated;
    }
    FrameStep::Frame { start: pos + 4, len: len as usize }
}

/// A framed record is read back whole, whatever follows it in the stream.
pub proof fn lemma_be_frame_reads_back(buf: Seq<u8>, rest: Seq<u8>)
    requires
        buf.len() < 0x1_0000_0000,
    ensures
        next_be_frame_spec(be_frame_spec(buf) + rest, 0) == (FrameStep::Frame {
            start: 4,
            len: buf.len() as usize,
        }),
{
    let s = be_frame_spec(buf) + rest;
    let n = buf.len();
    assert(s[0] == ((n / 0x100_0000) % 256) as u8);
    assert(s[1] == ((n / 0x1_0000) % 256) as u8);
    assert(s[2] == ((n / 0x100) % 256) as u8);
    assert(s[3] == (n % 256) as u8);
    assert(be_u32_at(s, 0) == n) by (nonlinear_arith)
        requires
            n < 0x1_0000_0000,
            s[0] == ((n / 0x100_0000) % 256) as u8,
            s[1] == ((n / 0x1_0000) % 256) as u8,
            s[2] == ((n / 0x100) % 256) as u8,
            s[3] == (n % 256) as u8,
            be_u32_at(s, 0) == s[0] as nat * 0x100_0000 + s[1] as nat * 0x1_0000 + s[2] as nat
                * 0x100 + s[3] as nat,
    ;
}

/// LEB128 bytes of `v`, as `prost::encoding::encode_varint` writes them.
pub open spec fn varint_spec(v: nat) -> Seq<u8>
    decreases v,
{
    if v < 0x80 {
        seq![v as u8]
    } else {
        seq![((v % 0x80) + 0x80) as u8] + varint_spec(v / 0x80)
    }
}

/// `128^i`.
pub open spec fn pow128(i: nat) -> nat
    decreases i,
{
    if i == 0 {
        1
    } else {
        128 * pow128((i - 1) as nat)
    }
}

/// LEB128 reading of `bytes` from position `i`, as `prost::encoding::decode_varint` reads it:
/// bytes with the high bit set continue the number, the first byte below `0x80` ends it, at
/// most 10 bytes in all, and a tenth byte must be 0 or 1 (the value fits in 64 bits). The
/// value of the groups from `i` on (least significant first) and the position after them.
pub open spec fn leb128_at(bytes: Seq<u8>, i: nat) -> Option<(nat, nat)>
    decreases 10 - i,
{
    if i >= 10 || i >= bytes.len() {
        None
    } else if bytes[i as int] < 0x80 {
        if i == 9 && bytes[i as int] >= 2 {
            None
        } else {
            Some((bytes[i as int] as nat, i + 1))
        }
    } else {
        match leb128_at(bytes, i + 1) {
            Some((v, end)) => Some(((bytes[i as int] - 0x80) as nat + 128 * v, end)),
            None => None,
        }
    }
}

/// What `prost::encoding::decode_varint` reads from the front of `bytes`: the value and the
/// number of bytes consumed, or `None` on an invalid varint.
pub open spec fn prost_varint_decode(bytes: Seq<u8>) -> Option<(u64, nat)> {
    match leb128_at(bytes, 0) {
        Some((v, n)) => Some((v as u64, n)),
        None => None,
    }
}

/// The value of `bytes[0..10]` as read by `leb128_at` from `i` fits below `2^64 / 128^i`.
proof fn lemma_pow128_values()
    ensures
        pow128(9) == 0x8000_0000_0000_0000,
        pow128(10) == 0x1_0000_0000_0000_0000 * 64,
{
    reveal_with_fuel(pow128, 11);
}

proof fn lemma_pow128_positive(i: nat)
    ensures
        pow128(i) >= 1,
    decreases i,
{
    if i > 0 {
        lemma_pow128_positive((i - 1) as nat);
    }
}

/// The LEB128 bytes of `w`, read from position `i`, give `w` back when `w * 128^i` fits in
/// 64 bits.
proof fn lemma_leb128_reads_varint(bytes: Seq<u8>, i: nat, w: nat, rest: Seq<u8>)
    requires
        i <= 9,
        i <= bytes.len(),
        w * pow128(i) < 0x1_0000_0000_0000_0000,
        bytes.skip(i as int) == varint_spec(w) + rest,
    ensures
        leb128_at(bytes, i) == Some((w, i + varint_spec(w).len())),
    decreases w,
{
    let vs = varint_spec(w);
    assert(vs.len() >= 1);
    assert(bytes.skip(i as int).len() == vs.len() + rest.len());
    assert(bytes.skip(i as int)[0] == bytes[i as int]);
    lemma_pow128_values();
    lemma_pow128_positive(i);
    if w < 0x80 {
        assert(vs =~= seq![w as u8]);
        if i == 9 {
            assert(w * 0x8000_0000_0000_0000 < 0x1_0000_0000_0000_0000);
            assert(w < 2) by (nonlinear_arith)
                requires w * 0x8000_0000_0000_0000 < 0x1_0000_0000_0000_0000;
        }
    } else {
        let q = w / 0x80;
        assert(vs == seq![((w % 0x80) + 0x80) as u8] + varint_spec(q));
        assert(bytes[i as int] == ((w % 0x80) + 0x80) as u8);
        assert(w == 128 * q + w % 128);
        let p = pow128(i);
        assert(pow128(i + 1) == 128 * p);
        assert(q * pow128(i + 1) <= w * p) by (nonlinear_arith)
            requires w == 128 * q + w % 128, pow128(i + 1) == 128 * p, w % 128 >= 0, p >= 1;
        if i == 9 {
            assert(w * p >= 128 * p) by (nonlinear_arith)
                requires w >= 128, p >= 1;
            assert(false);
        }
        assert(bytes.skip(i + 1int) =~= varint_spec(q) + rest) by {
            assert forall|k: int| 0 <= k < bytes.skip(i + 1int).len() implies bytes.skip(i + 1int)[k]
                == (varint_spec(q) + rest)[k] by {
                assert(bytes.skip(i + 1int)[k] == bytes.skip(i as int)[k + 1]);
                assert((vs + rest)[k + 1] == (varint_spec(q) + rest)[k]);
            }
        }
        lemma_leb128_reads_varint(bytes, i + 1, q, rest);
    }
}

/// What `encode_varint` writes, `decode_varint` reads back, whatever follows it.
pub proof fn lemma_varint_reads_back(v: u64, rest: Seq<u8>)
    ensures
        prost_varint_decode(varint_spec(v as nat) + rest) == Some((v, varint_spec(v as nat).len())),
{
    let bytes = varint_spec(v as nat) + rest;
    assert(bytes.skip(0) =~= bytes);
    assert(pow128(0) == 1);
    lemma_leb128_reads_varint(bytes, 0, v as nat, rest);
}

/// Calls `prost::encoding::encode_varint` into a new vector: the LEB128 encoding of `v`,
/// least significant group of 7 bits first, high bit set on every byte but the last.
#[verifier::external_body]
fn varint_encode(v: u64) -> (r: Vec<u8>)
    ensures
        r@ == varint_spec(v as nat),
{
    let mut b = Vec::new();
    prost::encoding::encode_varint(v, &mut b);
    b
}

/// Calls `prost::encoding::decode_varint` on `bytes[pos..]`, returning the value and the
/// number of bytes left after it; the reading is `prost_varint_decode`.
#[verifier::external_body]
fn varint_decode(bytes: &[u8], pos: usize) -> (r: Option<(u64, usize)>)
    requires
        pos <= bytes@.len(),
    ensures
        match r {
            Some((v, left)) => left <= bytes@.len() - pos && prost_varint_decode(bytes@.skip(pos as int))
                == Some((v, (bytes@.len() - pos - left) as nat)),
            None => prost_varint_decode(bytes@.skip(pos as int)) is None,
        },
{
    let mut s = &bytes[pos..];
    match prost::encoding::decode_varint(&mut s) {
        Ok(v) => Some((v, s.len())),
        Err(_) => None,
    }
}

/// The record framed with its length as a varint.
pub open spec fn varint_frame_spec(buf: Seq<u8>) -> Seq<u8> {
    varint_spec(buf.len()) + buf
}

/// Prefixes a record with its length as a varint.
pub fn frame_varint(buf: &[u8]) -> (r: Vec<u8>)
    ensures
        r@ == varint_frame_spec(buf@),
{
    let mut r = varint_encode(buf.len() as u64);
    let ghost p = r@;
    let mut i: usize = 0;
    while i < buf.len()
        invariant
            i <= buf@.len(),
            r@ == p + buf@.take(i as int),
        decreases buf.len() - i,
    {
        r.push(buf[i]);
        assert(r@ =~= p + buf@.take(i + 1));
        i = i + 1;
    }
    assert(buf@.take(buf@.len() as int) =~= buf@);
    r
}

/// Reading a varint-prefixed record at `pos`: an unreadable varint reads as the end of the
/// stream.
pub open spec fn next_varint_frame_spec(s: Seq<u8>, pos: int) -> FrameStep {
    match prost_varint_decode(s.skip(pos)) {
        None => FrameStep::End,
        Some((len, used)) => if s.len() - pos - used < len {
            FrameStep::Truncated
        } else {
            FrameStep::Frame { start: (pos + used) as usize, len: len as usize }
        },
    }
}

/// Reads the varint-prefixed record at `pos`.
pub fn next_varint_frame(s: &[u8], pos: usize) -> (r: FrameStep)
    requires
        pos <= s@.len(),
    ensures
        r == next_varint_frame_spec(s@, pos as int),
        forall|v: u64, rest: Seq<u8>|
            s@.skip(pos as int) == #[trigger] (varint_spec(v as nat) + rest) && v <= rest.len()
                ==> r == (FrameStep::Frame { start: (pos + (s@.len() - pos - rest.len())) as usize, len: v as usize }),
{
    let n = s.len();
    let d = varint_decode(s, pos);
    let r = match d {
        None => FrameStep::End,
        Some((len, left)) => {
            if (left as u64) < len {
                FrameStep::Truncated
            } else {
                FrameStep::Frame { start: s.len() - left, len: len as usize }
            }
        },
    };
    proof {
        assert forall|v: u64, rest: Seq<u8>|
            s@.skip(pos as int) == #[trigger] (varint_spec(v as nat) + rest) && v <= rest.len()
            implies r == (FrameStep::Frame { start: (pos + (s@.len() - pos - rest.len())) as usize, len: v as usize }) by {
            assert(s@.skip(pos as int).len() == varint_spec(v as nat).len() + rest.len());
            assert(rest.len() <= s@.len() - pos);
            lemma_varint_reads_back(v, rest);
            assert(d == Some((v, rest.len() as usize)));
            assert(((rest.len() as usize) as u64) >= v);
            assert(r == (FrameStep::Frame { start: (s@.len() - rest.len()) as usize, len: v as usize }));
        }
    }
    r
}

/// Byte offsets of the `LogRecord` fields in the table's vtable: `topic`, `payload`,
/// `timestamp_ns`.
pub const LOG_RECORD_TOPIC_SLOT: u16 = 4;
pub const LOG_RECORD_PAYLOAD_SLOT: u16 = 6;
pub const LOG_RECORD_TIMESTAMP_SLOT: u16 = 8;

/// The builder calls that write a `LogRecord`: the topic string and the payload bytes, then
/// the table with the timestamp (omitted when 0) and the two offsets on the `LOG_RECORD_*`
/// slots, then `finish` with the table as root.
pub open spec fn fb_log_record_ops(topic: Seq<char>, payload: Seq<u8>, timestamp_ns: u64) -> Seq<FbOp> {
    let o1 = Seq::<FbOp>::empty().push(FbOp::Str(topic));
    let o2 = o1.push(FbOp::Bytes(payload));
    let o3 = o2.push(FbOp::Start);
    let o4 = o3.push(FbOp::SlotU64(LOG_RECORD_TIMESTAMP_SLOT, timestamp_ns, 0));
    let o5 = o4.push(FbOp::SlotOffset(LOG_RECORD_PAYLOAD_SLOT, fb_offset(o2)));
    let o6 = o5.push(FbOp::SlotOffset(LOG_RECORD_TOPIC_SLOT, fb_offset(o1)));
    let o7 = o6.push(FbOp::End(fb_offset(o3)));
    o7.push(FbOp::Finish(fb_offset(o7)))
}

/// The bytes of the FlatBuffers `LogRecord` for these field values.
pub open spec fn fb_log_record_bytes(topic: Seq<char>, payload: Seq<u8>, timestamp_ns: u64) -> Seq<u8> {
    fb_bytes(fb_log_record_ops(topic, payload, timestamp_ns))
}

/// Builds a finished `LogRecord` buffer (see `fb_log_record_ops`).
fn build_fb_log_record(topic: &str, payload: &[u8], timestamp_ns: u64) -> (r: Vec<u8>)
    requires
        encode_utf8(topic@).len() + payload@.len() + 256 <= FB_INPUT_LIMIT,
    ensures
        r@ == fb_log_record_bytes(topic@, payload@, timestamp_ns),
{
    broadcast use lemma_fb_step;
    proof {
        lemma_fb_empty();
    }
    let mut b = fb_new();
    let t = fb_create_string(&mut b, topic);
    let p = fb_create_bytes(&mut b, payload);
    let start = fb_start_table(&mut b);
    fb_push_u64(&mut b, LOG_RECORD_TIMESTAMP_SLOT, timestamp_ns, 0);
    fb_push_offset(&mut b, LOG_RECORD_PAYLOAD_SLOT, p);
    fb_push_offset(&mut b, LOG_RECORD_TOPIC_SLOT, t);
    let record = fb_end_table(&mut b, start);
    fb_finish(&mut b, record);
    fb_finished_data(&b)
}

/// One record of a FlatBuffers log file: the `LogRecord` prefixed with its length as a
/// big-endian `u32`.
pub fn encode_fb_record(topic: &str, payload: &[u8], timestamp_ns: u64) -> (r: Vec<u8>)
    requires
        encode_utf8(topic@).len() + payload@.len() + 256 <= FB_INPUT_LIMIT,
    ensures
        r@ == be_frame_spec(fb_log_record_bytes(topic@, payload@, timestamp_ns)),
{
    let record = build_fb_log_record(topic, payload, timestamp_ns);
    frame_be(record.as_slice())
}

} // verus!
