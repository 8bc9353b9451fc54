//! FlatBuffers buffers built through `flatbuffers::FlatBufferBuilder`, one call at a time.
//!
//! The builder is held opaque; what it holds is described as the sequence of calls made on
//! it (`fbb_ops`), as plain values. The offsets it hands out and the finished bytes are named
//! over that sequence, so the layout of each table (which value goes in which slot, which
//! defaults are given) is chosen by verified code.
use vstd::prelude::*;
use vstd::utf8::encode_utf8;
use flatbuffers::{FlatBufferBuilder, TableFinishedWIPOffset, WIPOffset};

verus! {

/// One call made on the builder.
pub enum FbOp {
    /// `create_string`.
    Str(Seq<char>),
    /// `create_vector` of bytes.
    Bytes(Seq<u8>),
    /// `create_vector` of table offsets.
    Offsets(Seq<u32>),
    /// `start_table`.
    Start,
    /// `push_slot_always` of an offset.
    SlotOffset(u16, u32),
    /// `push_slot` of a `u64` value with its default.
    SlotU64(u16, u64, u64),
    /// `push_slot` of a `u32` value with its default.
    SlotU32(u16, u32, u32),
    /// `push_slot` of an `i8` value with its default.
    SlotI8(u16, i8, i8),
    /// `end_table` of the table started at the given offset.
    End(u32),
    /// `finish` with the given root and no file identifier.
    Finish(u32),
}

/// Largest amount of buffer space, in bytes, that the calls on one builder may take: well
/// below the 2 GiB that `FlatBufferBuilder` refuses to pass.
pub const FB_INPUT_LIMIT: u64 = 0x7fff_0000;

/// Largest slot offset accepted (a vtable of at most 34 fields).
pub const FB_MAX_SLOT: u16 = 68;

/// An upper bound of the buffer space one call takes, alignment padding included.
pub open spec fn fb_cost(op: FbOp) -> nat {
    match op {
        FbOp::Str(s) => encode_utf8(s).len() + 16,
        FbOp::Bytes(b) => b.len() + 16,
        FbOp::Offsets(o) => 4 * o.len() + 16,
        FbOp::Start => 0,
        FbOp::End(_) => 128,
        _ => 16,
    }
}

/// An upper bound of the buffer space the calls take.
pub open spec fn fb_size(ops: Seq<FbOp>) -> nat
    decreases ops.len(),
{
    if ops.len() == 0 {
        0
    } else {
        fb_size(ops.drop_last()) + fb_cost(ops.last())
    }
}

/// A table is under construction.
pub open spec fn fb_nested(ops: Seq<FbOp>) -> bool
    decreases ops.len(),
{
    if ops.len() == 0 {
        false
    } else {
        match ops.last() {
            FbOp::Start => true,
            FbOp::End(_) => false,
            _ => fb_nested(ops.drop_last()),
        }
    }
}

/// The buffer has been finished.
pub open spec fn fb_finished(ops: Seq<FbOp>) -> bool
    decreases ops.len(),
{
    if ops.len() == 0 {
        false
    } else {
        ops.last() is Finish || fb_finished(ops.drop_last())
    }
}

/// Number of values pushed into the table under construction.
pub open spec fn fb_slots(ops: Seq<FbOp>) -> nat
    decreases ops.len(),
{
    if ops.len() == 0 {
        0
    } else {
        match ops.last() {
            FbOp::Start => 0,
            FbOp::End(_) => 0,
            FbOp::SlotOffset(..) | FbOp::SlotU64(..) | FbOp::SlotU32(..) | FbOp::SlotI8(..) => fb_slots(
                ops.drop_last(),
            ) + 1,
            _ => fb_slots(ops.drop_last()),
        }
    }
}

/// The offset returned by the last call of `ops`, for the calls that return one.
pub uninterp spec fn fb_offset(ops: Seq<FbOp>) -> u32;

/// The offset at which the table under construction was started.
pub open spec fn fb_table_start(ops: Seq<FbOp>) -> u32
    decreases ops.len(),
{
    if ops.len() == 0 {
        0
    } else if ops.last() is Start {
        fb_offset(ops)
    } else {
        fb_table_start(ops.drop_last())
    }
}

/// The finished objects whose offsets the calls handed out: strings, vectors and tables.
pub open spec fn fb_issued(ops: Seq<FbOp>) -> Set<u32>
    decreases ops.len(),
{
    if ops.len() == 0 {
        Set::empty()
    } else {
        match ops.last() {
            FbOp::Str(_) | FbOp::Bytes(_) | FbOp::Offsets(_) | FbOp::End(_) => fb_issued(
                ops.drop_last(),
            ).insert(fb_offset(ops)),
            _ => fb_issued(ops.drop_last()),
        }
    }
}

/// A call may be made on a builder that holds `ops`: the buffer is not finished; strings,
/// vectors, a new table and `finish` come outside a table, pushes and `end_table` inside
/// one, with at most 1000 pushes per table and offsets handed out earlier; and the space
/// taken stays within `FB_INPUT_LIMIT`.
pub open spec fn fb_allowed(ops: Seq<FbOp>, op: FbOp) -> bool {
    &&& !fb_finished(ops)
    &&& fb_size(ops) + fb_cost(op) <= FB_INPUT_LIMIT
    &&& match op {
        FbOp::Str(_) | FbOp::Bytes(_) | FbOp::Start => !fb_nested(ops),
        FbOp::Offsets(o) => !fb_nested(ops) && forall|i: int| 0 <= i < o.len() ==> fb_issued(ops).contains(#[trigger] o[i]),
        FbOp::SlotOffset(slot, off) => fb_nested(ops) && fb_slots(ops) < 1000 && slot <= FB_MAX_SLOT
            && fb_issued(ops).contains(off),
        FbOp::SlotU64(slot, _, _) | FbOp::SlotU32(slot, _, _) | FbOp::SlotI8(slot, _, _) => fb_nested(ops)
            && fb_slots(ops) < 1000 && slot <= FB_MAX_SLOT,
        FbOp::End(start) => fb_nested(ops) && start == fb_table_start(ops),
        FbOp::Finish(root) => !fb_nested(ops) && fb_issued(ops).contains(root),
    }
}

/// The state after one more call, in terms of the state before it.
pub broadcast proof fn lemma_fb_step(ops: Seq<FbOp>, op: FbOp)
    ensures
        #![trigger ops.push(op)]
        fb_size(ops.push(op)) == fb_size(ops) + fb_cost(op),
        fb_nested(ops.push(op)) == match op {
            FbOp::Start => true,
            FbOp::End(_) => false,
            _ => fb_nested(ops),
        },
        fb_finished(ops.push(op)) == (op is Finish || fb_finished(ops)),
        fb_slots(ops.push(op)) == match op {
            FbOp::Start => 0,
            FbOp::End(_) => 0,
            FbOp::SlotOffset(..) | FbOp::SlotU64(..) | FbOp::SlotU32(..) | FbOp::SlotI8(..) => fb_slots(ops) + 1,
            _ => fb_slots(ops),
        },
        fb_table_start(ops.push(op)) == if op is Start {
            fb_offset(ops.push(op))
        } else {
            fb_table_start(ops)
        },
        fb_issued(ops.push(op)) == match op {
            FbOp::Str(_) | FbOp::Bytes(_) | FbOp::Offsets(_) | FbOp::End(_) => fb_issued(ops).insert(
                fb_offset(ops.push(op)),
            ),
            _ => fb_issued(ops),
        },
{
    assert(ops.push(op).drop_last() =~= ops);
}

/// No call made yet.
pub proof fn lemma_fb_empty()
    ensures
        fb_size(Seq::<FbOp>::empty()) == 0,
        !fb_nested(Seq::<FbOp>::empty()),
        !fb_finished(Seq::<FbOp>::empty()),
        fb_slots(Seq::<FbOp>::empty()) == 0,
        fb_issued(Seq::<FbOp>::empty()) == Set::<u32>::empty(),
{
}

/// The bytes that `finished_data` gives after the calls `ops`.
pub uninterp spec fn fb_bytes(ops: Seq<FbOp>) -> Seq<u8>;

/// A `flatbuffers::FlatBufferBuilder`, held opaque.
#[verifier::external_body]
pub struct Fbb {
    b: FlatBufferBuilder<'static>,
}

/// The calls made on the builder so far.
pub uninterp spec fn fbb_ops(b: Fbb) -> Seq<FbOp>;

/// Calls `FlatBufferBuilder::new`: no call made yet.
#[verifier::external_body]
pub(crate) fn fb_new() -> (r: Fbb)
    ensures
        fbb_ops(r) == Seq::<FbOp>::empty(),
{
    Fbb { b: FlatBufferBuilder::new() }
}

/// Calls `create_string`; the offset handed out is named `fb_offset`.
#[verifier::external_body]
pub(crate) fn fb_create_string(b: &mut Fbb, s: &str) -> (r: u32)
    requires
        fb_allowed(fbb_ops(*old(b)), FbOp::Str(s@)),
    ensures
        fbb_ops(*final(b)) == fbb_ops(*old(b)).push(FbOp::Str(s@)),
        r == fb_offset(fbb_ops(*final(b))),
{
    b.b.create_string(s).value()
}

/// Calls `create_vector` on bytes; the offset handed out is named `fb_offset`.
#[verifier::external_body]
pub(crate) fn fb_create_bytes(b: &mut Fbb, data: &[u8]) -> (r: u32)
    requires
        fb_allowed(fbb_ops(*old(b)), FbOp::Bytes(data@)),
    ensures
        fbb_ops(*final(b)) == fbb_ops(*old(b)).push(FbOp::Bytes(data@)),
        r == fb_offset(fbb_ops(*final(b))),
{
    b.b.create_vector(data).value()
}

/// Calls `create_vector` on table offsets; the offset handed out is named `fb_offset`.
#[verifier::external_body]
pub(crate) fn fb_create_offsets(b: &mut Fbb, offsets: &Vec<u32>) -> (r: u32)
    requires
        fb_allowed(fbb_ops(*old(b)), FbOp::Offsets(offsets@)),
    ensures
        fbb_ops(*final(b)) == fbb_ops(*old(b)).push(FbOp::Offsets(offsets@)),
        r == fb_offset(fbb_ops(*final(b))),
{
    let items: Vec<WIPOffset<TableFinishedWIPOffset>> = offsets.iter().map(|&o| WIPOffset::new(o)).collect();
    b.b.create_vector(&items).value()
}

/// Calls `start_table`; the offset handed out is named `fb_offset`.
#[verifier::external_body]
pub(crate) fn fb_start_table(b: &mut Fbb) -> (r: u32)
    requires
        fb_allowed(fbb_ops(*old(b)), FbOp::Start),
    ensures
        fbb_ops(*final(b)) == fbb_ops(*old(b)).push(FbOp::Start),
        r == fb_offset(fbb_ops(*final(b))),
{
    b.b.start_table().value()
}

/// Calls `push_slot_always` with an offset.
#[verifier::external_body]
pub(crate) fn fb_push_offset(b: &mut Fbb, slot: u16, off: u32)
    requires
        fb_allowed(fbb_ops(*old(b)), FbOp::SlotOffset(slot, off)),
    ensures
        fbb_ops(*final(b)) == fbb_ops(*old(b)).push(FbOp::SlotOffset(slot, off)),
{
    b.b.push_slot_always::<WIPOffset<()>>(slot, WIPOffset::new(off));
}

/// Calls `push_slot::<u64>` (the builder leaves out a value equal to its default).
#[verifier::external_body]
pub(crate) fn fb_push_u64(b: &mut Fbb, slot: u16, x: u64, default: u64)
    requires
        fb_allowed(fbb_ops(*old(b)), FbOp::SlotU64(slot, x, default)),
    ensures
        fbb_ops(*final(b)) == fbb_ops(*old(b)).push(FbOp::SlotU64(slot, x, default)),
{
    b.b.push_slot::<u64>(slot, x, default);
}

/// Calls `push_slot::<u32>` (the builder leaves out a value equal to its default).
#[verifier::external_body]
pub(crate) fn fb_push_u32(b: &mut Fbb, slot: u16, x: u32, default: u32)
    requires
        fb_allowed(fbb_ops(*old(b)), FbOp::SlotU32(slot, x, default)),
    ensures
        fbb_ops(*final(b)) == fbb_ops(*old(b)).push(FbOp::SlotU32(slot, x, default)),
{
    b.b.push_slot::<u32>(slot, x, default);
}

/// Calls `push_slot::<i8>` (the builder leaves out a value equal to its default).
#[verifier::external_body]
pub(crate) fn fb_push_i8(b: &mut Fbb, slot: u16, x: i8, default: i8)
    requires
        fb_allowed(fbb_ops(*old(b)), FbOp::SlotI8(slot, x, default)),
    ensures
        fbb_ops(*final(b)) == fbb_ops(*old(b)).push(FbOp::SlotI8(slot, x, default)),
{
    b.b.push_slot::<i8>(slot, x, default);
}

/// Calls `end_table` on the table started at `start`; the offset handed out is named
/// `fb_offset`.
#[verifier::external_body]
pub(crate) fn fb_end_table(b: &mut Fbb, start: u32) -> (r: u32)
    requires
        fb_allowed(fbb_ops(*old(b)), FbOp::End(start)),
    ensures
        fbb_ops(*final(b)) == fbb_ops(*old(b)).push(FbOp::End(start)),
        r == fb_offset(fbb_ops(*final(b))),
{
    b.b.end_table(WIPOffset::new(start)).value()
}

/// Calls `finish` with the root `root` and no file identifier.
#[verifier::external_body]
pub(crate) fn fb_finish(b: &mut Fbb, root: u32)
    requires
        fb_allowed(fbb_ops(*old(b)), FbOp::Finish(root)),
    ensures
        fbb_ops(*final(b)) == fbb_ops(*old(b)).push(FbOp::Finish(root)),
{
    b.b.finish(WIPOffset::<()>::new(root), None);
}

/// Calls `finished_data` and copies the bytes, named `fb_bytes`.
#[verifier::external_body]
pub(crate) fn fb_finished_data(b: &Fbb) -> (r: Vec<u8>)
    requires
        fb_finished(fbb_ops(*b)),
    ensures
        r@ == fb_bytes(fbb_ops(*b)),
{
    b.b.finished_data().to_vec()
}

} // verus!
