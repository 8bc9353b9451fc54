use lulu_logs::config::{generate_random_string, MqttBrokerConfig};
use lulu_logs::framing::{encode_fb_record, frame_be, frame_varint, next_be_frame, next_varint_frame, FlatBuffersLogRecord, FrameStep};

#[test]
fn be_frames_read_back_in_order() {
    let mut stream = frame_be(b"data1");
    stream.extend(frame_be(b"second record"));
    assert_eq!(&stream[..4], &[0, 0, 0, 5]);
    match next_be_frame(&stream, 0) {
        FrameStep::Frame { start, len } => {
            assert_eq!(&stream[start..start + len], b"data1");
            match next_be_frame(&stream, start + len) {
                FrameStep::Frame { start: s2, len: l2 } => {
                    assert_eq!(&stream[s2..s2 + l2], b"second record");
                    assert_eq!(next_be_frame(&stream, s2 + l2), FrameStep::End);
                },
                other => panic!("unexpected {:?}", other),
            }
        },
        other => panic!("unexpected {:?}", other),
    }
}

#[test]
fn be_frame_edge_cases() {
    assert_eq!(next_be_frame(&[], 0), FrameStep::End);
    assert_eq!(next_be_frame(&[0, 0, 1], 0), FrameStep::End);
    assert_eq!(next_be_frame(&[0, 0, 0, 9, 1, 2], 0), FrameStep::Truncated);
    assert_eq!(next_be_frame(&[0, 0, 0, 0], 0), FrameStep::Frame { start: 4, len: 0 });
}

#[test]
fn varint_frames_read_back() {
    let payload = vec![7u8; 300];
    let mut stream = frame_varint(&payload);
    assert_eq!(&stream[..2], &[0xAC, 0x02]);
    stream.extend(frame_varint(b"x"));
    match next_varint_frame(&stream, 0) {
        FrameStep::Frame { start, len } => {
            assert_eq!(start, 2);
            assert_eq!(len, 300);
            assert_eq!(next_varint_frame(&stream, start + len), FrameStep::Frame { start: start + len + 1, len: 1 });
        },
        other => panic!("unexpected {:?}", other),
    }
    assert_eq!(next_varint_frame(&[], 0), FrameStep::End);
    assert_eq!(next_varint_frame(&[5, 1], 0), FrameStep::Truncated);
}

#[test]
fn record_type() {
    let r = FlatBuffersLogRecord { topic: "lulu/sensor/temp".to_string(), payload: b"data1".to_vec(), timestamp_ns: 1000 };
    assert_eq!(r.clone(), r);
}

#[test]
fn broker_defaults() {
    let c = MqttBrokerConfig::default();
    assert_eq!(c.addr, "127.0.0.1");
    assert_eq!(c.port, 1883);
    assert_eq!(c.max_connections, 20_480);
    assert_eq!(c.max_segment_size, 104_857_600);
    assert!(c.dynamic_filters);
}

#[test]
fn random_strings() {
    let s = generate_random_string(5);
    assert_eq!(s.len(), 5);
    assert!(s.chars().all(|c| c.is_ascii_alphanumeric()));
    assert_eq!(generate_random_string(0), "");
}

#[test]
fn fb_records_frame_and_read_back() {
    let first = encode_fb_record("lulu/sensor/temp", b"data1", 1000);
    let second = encode_fb_record("lulu/sensor/humidity", b"data2", 2000);
    let mut file = first.clone();
    file.extend_from_slice(&second);
    let contains = |hay: &[u8], needle: &[u8]| hay.windows(needle.len()).any(|w| w == needle);
    match next_be_frame(&file, 0) {
        FrameStep::Frame { start, len } => {
            assert_eq!(start, 4);
            assert_eq!(start + len, first.len());
            let body = &file[start..start + len];
            assert!(contains(body, b"lulu/sensor/temp"));
            assert!(contains(body, b"data1"));
            assert!(contains(body, &1000u64.to_le_bytes()));
            match next_be_frame(&file, start + len) {
                FrameStep::Frame { start: s2, len: l2 } => {
                    assert_eq!(s2 + l2, file.len());
                    assert!(contains(&file[s2..s2 + l2], b"lulu/sensor/humidity"));
                    assert_eq!(next_be_frame(&file, s2 + l2), FrameStep::End);
                }
                other => panic!("unexpected {:?}", other),
            }
        }
        other => panic!("unexpected {:?}", other),
    }
}

#[test]
fn varint_edges() {
    // u64::MAX: nine bytes 0xff, then 0x01.
    let mut max = vec![0xffu8; 9];
    max.push(0x01);
    assert_eq!(next_varint_frame(&max, 0), FrameStep::Truncated);
    let mut over = vec![0xffu8; 9];
    over.push(0x02);
    over.extend_from_slice(&[0u8; 4]);
    assert_eq!(next_varint_frame(&over, 0), FrameStep::End);
    assert_eq!(next_varint_frame(&[0x80, 0x80], 0), FrameStep::End);
    assert_eq!(next_varint_frame(&[], 0), FrameStep::End);
    assert_eq!(next_varint_frame(&[0x80, 0x00, 7], 0), FrameStep::Frame { start: 2, len: 0 });
    assert_eq!(next_varint_frame(&[0x81, 0x00, 7], 0), FrameStep::Frame { start: 2, len: 1 });
}
