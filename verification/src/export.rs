//! The `.lulu` export: the visible logs, each as its topic and raw payload, in a FlatBuffers
//! `LuluExportFile { version, records: [LogRecord { topic, payload }] }`.
use vstd::prelude::*;
use crate::fbb::{
    fb_bytes, fb_create_bytes, fb_create_offsets, fb_create_string, fb_end_table, fb_finish, fb_finished,
    fb_finished_data, fb_issued, fb_nested, fb_new, fb_offset, fb_push_offset, fb_push_u32, fb_size,
    fb_start_table, fbb_ops, lemma_fb_empty, lemma_fb_step, FbOp, FB_INPUT_LIMIT,
};
use vstd::utf8::encode_utf8;
use crate::state::{entry_visible, is_entry_visible, visible_indices, AppState};

verus! {

broadcast use lemma_fb_step;

/// Version written in every export file.
pub const EXPORT_FORMAT_VERSION: u32 = 1;

/// Byte offsets of the fields in the vtables: `LogRecord.topic`, `LogRecord.payload`,
/// `LuluExportFile.version`, `LuluExportFile.records`.
pub const EXPORT_RECORD_TOPIC_SLOT: u16 = 4;
pub const EXPORT_RECORD_PAYLOAD_SLOT: u16 = 6;
pub const EXPORT_FILE_VERSION_SLOT: u16 = 4;
pub const EXPORT_FILE_RECORDS_SLOT: u16 = 6;

/// The builder calls that append one `LogRecord` table after `ops`: the topic string and
/// the payload bytes, then the table with the two offsets on the `EXPORT_RECORD_*` slots.
pub open spec fn export_record_ops(ops: Seq<FbOp>, topic: Seq<char>, payload: Seq<u8>) -> Seq<FbOp> {
    let a = ops.push(FbOp::Str(topic));
    let b = a.push(FbOp::Bytes(payload));
    let c = b.push(FbOp::Start);
    let d = c.push(FbOp::SlotOffset(EXPORT_RECORD_PAYLOAD_SLOT, fb_offset(b)));
    let e = d.push(FbOp::SlotOffset(EXPORT_RECORD_TOPIC_SLOT, fb_offset(a)));
    e.push(FbOp::End(fb_offset(c)))
}

/// The builder calls that write one `LogRecord` table per record, in order.
pub open spec fn export_records_ops(records: Seq<(Seq<char>, Seq<u8>)>) -> Seq<FbOp>
    decreases records.len(),
{
    if records.len() == 0 {
        Seq::empty()
    } else {
        export_record_ops(export_records_ops(records.drop_last()), records.last().0, records.last().1)
    }
}

/// The offsets of the record tables, in order.
pub open spec fn export_record_offsets(records: Seq<(Seq<char>, Seq<u8>)>) -> Seq<u32>
    decreases records.len(),
{
    if records.len() == 0 {
        Seq::empty()
    } else {
        export_record_offsets(records.drop_last()).push(fb_offset(export_records_ops(records)))
    }
}

/// The builder calls that write a `LuluExportFile`: the record tables, the vector of their
/// offsets, then the file table with that vector and the version (omitted when 0) on the
/// `EXPORT_FILE_*` slots, then `finish` with the file table as root.
pub open spec fn export_ops(version: u32, records: Seq<(Seq<char>, Seq<u8>)>) -> Seq<FbOp> {
    let r = export_records_ops(records);
    let v = r.push(FbOp::Offsets(export_record_offsets(records)));
    let s = v.push(FbOp::Start);
    let t = s.push(FbOp::SlotOffset(EXPORT_FILE_RECORDS_SLOT, fb_offset(v)));
    let u = t.push(FbOp::SlotU32(EXPORT_FILE_VERSION_SLOT, version, 0));
    let e = u.push(FbOp::End(fb_offset(s)));
    e.push(FbOp::Finish(fb_offset(e)))
}

/// The bytes of the `LuluExportFile` for this version and these records.
pub open spec fn lulu_export_bytes(version: u32, records: Seq<(Seq<char>, Seq<u8>)>) -> Seq<u8> {
    fb_bytes(export_ops(version, records))
}

/// The buffer space the record tables take: the UTF-8 bytes of each topic, its payload, and
/// 196 bytes per record for its tables, offsets and padding. The file table takes 192 more.
pub open spec fn export_input_size(records: Seq<(Seq<char>, Seq<u8>)>) -> nat
    decreases records.len(),
{
    if records.len() == 0 {
        0
    } else {
        export_input_size(records.drop_last()) + encode_utf8(records.last().0).len() + records.last().1.len() + 196
    }
}

/// The (topic, raw payload) of the visible logs among the first `n`, in log order.
pub open spec fn visible_records(st: AppState, n: nat) -> Seq<(Seq<char>, Seq<u8>)>
    decreases n,
{
    if n == 0 {
        seq![]
    } else {
        let prev = visible_records(st, (n - 1) as nat);
        let e = st.logs@[n - 1];
        if entry_visible(st, e, (n - 1) as usize) {
            prev.push((e.topic@, e.raw_payload@))
        } else {
            prev
        }
    }
}

/// There is one visible record per visible index.
pub proof fn lemma_visible_records_len(st: AppState, n: nat)
    ensures
        visible_records(st, n).len() == visible_indices(st, n).len(),
    decreases n,
{
    if n > 0 {
        lemma_visible_records_len(st, (n - 1) as nat);
    }
}

/// The sizes of the visible records only grow with the number of logs looked at.
proof fn lemma_visible_size_grows(st: AppState, n: nat, m: nat)
    requires
        n <= m,
    ensures
        export_input_size(visible_records(st, n)) <= export_input_size(visible_records(st, m)),
    decreases m - n,
{
    if n < m {
        lemma_visible_size_grows(st, n, (m - 1) as nat);
        let v = visible_records(st, (m - 1) as nat);
        let e = st.logs@[m - 1];
        if entry_visible(st, e, (m - 1) as usize) {
            assert(v.push((e.topic@, e.raw_payload@)).drop_last() =~= v);
        }
    }
}

/// The bytes of the `.lulu` export of the visible logs, in log order; `None` when no log is
/// visible.
pub fn export_file_bytes(state: &AppState) -> (r: Option<Vec<u8>>)
    requires
        export_input_size(visible_records(*state, state.logs@.len())) + 192 <= FB_INPUT_LIMIT,
    ensures
        r is None <==> visible_indices(*state, state.logs@.len()).len() == 0,
        r matches Some(b) ==> b@ == lulu_export_bytes(
            EXPORT_FORMAT_VERSION,
            visible_records(*state, state.logs@.len()),
        ),
{
    proof {
        lemma_visible_records_len(*state, state.logs@.len());
        lemma_fb_empty();
    }
    let ghost total = export_input_size(visible_records(*state, state.logs@.len()));
    let mut b = fb_new();
    let mut offsets: Vec<u32> = Vec::new();
    let mut i: usize = 0;
    while i < state.logs.len()
        invariant
            i <= state.logs@.len(),
            total == export_input_size(visible_records(*state, state.logs@.len())),
            total + 192 <= FB_INPUT_LIMIT,
            fbb_ops(b) == export_records_ops(visible_records(*state, i as nat)),
            offsets@ == export_record_offsets(visible_records(*state, i as nat)),
            offsets@.len() == visible_records(*state, i as nat).len(),
            !fb_nested(fbb_ops(b)),
            !fb_finished(fbb_ops(b)),
            fb_size(fbb_ops(b)) + 4 * offsets@.len() == export_input_size(visible_records(*state, i as nat)),
            forall|j: int| 0 <= j < offsets@.len() ==> fb_issued(fbb_ops(b)).contains(#[trigger] offsets@[j]),
        decreases state.logs.len() - i,
    {
        let e = &state.logs[i];
        proof {
            lemma_visible_size_grows(*state, (i + 1) as nat, state.logs@.len());
        }
        if is_entry_visible(e, state, i) {
            let ghost recs = visible_records(*state, i as nat);
            let ghost pair = (e.topic@, e.raw_payload@);
            let ghost before = fbb_ops(b);
            assert(recs.push(pair).drop_last() =~= recs);
            assert(visible_records(*state, (i + 1) as nat) == recs.push(pair));
            assert(recs.push(pair).last() == pair);
            assert(export_input_size(recs.push(pair)) == export_input_size(recs) + encode_utf8(e.topic@).len()
                + e.raw_payload@.len() + 196);
            assert(export_input_size(recs.push(pair)) <= total);
            let t = fb_create_string(&mut b, e.topic.as_str());
            let p = fb_create_bytes(&mut b, e.raw_payload.as_slice());
            let start = fb_start_table(&mut b);
            fb_push_offset(&mut b, EXPORT_RECORD_PAYLOAD_SLOT, p);
            fb_push_offset(&mut b, EXPORT_RECORD_TOPIC_SLOT, t);
            let rec = fb_end_table(&mut b, start);
            assert(fbb_ops(b) == export_record_ops(before, e.topic@, e.raw_payload@));
            offsets.push(rec);
        }
        i = i + 1;
    }
    if offsets.len() == 0 {
        return None;
    }
    let list = fb_create_offsets(&mut b, &offsets);
    let start = fb_start_table(&mut b);
    fb_push_offset(&mut b, EXPORT_FILE_RECORDS_SLOT, list);
    fb_push_u32(&mut b, EXPORT_FILE_VERSION_SLOT, EXPORT_FORMAT_VERSION, 0);
    let file = fb_end_table(&mut b, start);
    fb_finish(&mut b, file);
    Some(fb_finished_data(&b))
}

} // verus!
