//! Frame summaries and statistics of the AI extension.
use android_hid_connect::ai::{
    envelope_announced, envelope_len, frame_summary_envelope, read_device_envelope, AiStats,
    DeviceEnvelope, FrameSummary, MotionVector, ObjectBox, TextRegion, FLAG_KEYFRAME, FLAG_MOTION, FLAG_OBJECTS,
};
use android_hid_connect::error::Error;

fn write_be_u16(v: u16) -> Vec<u8> {
    v.to_be_bytes().to_vec()
}
fn write_be_u32(v: u32) -> Vec<u8> {
    v.to_be_bytes().to_vec()
}
fn write_be_u64(v: u64) -> Vec<u8> {
    v.to_be_bytes().to_vec()
}
fn write_be_i16(v: i16) -> Vec<u8> {
    v.to_be_bytes().to_vec()
}
fn write_be_f32(v: f32) -> Vec<u8> {
    v.to_be_bytes().to_vec()
}

fn build_frame_summary() -> Vec<u8> {
    let mut b = Vec::new();
    b.extend(write_be_u64(1_700_000_000_000));
    b.extend(write_be_u32(42));
    b.extend(write_be_u16(1080));
    b.extend(write_be_u16(2400));
    b.push(FLAG_KEYFRAME | FLAG_MOTION | FLAG_OBJECTS);
    b.extend(write_be_u16(4));
    b.extend(write_be_f32(0.1));
    b.extend(write_be_f32(0.2));
    b.extend(write_be_f32(0.3));
    b.extend(write_be_f32(0.4));
    // 2 motion vectors
    b.extend(write_be_u16(2));
    b.extend(write_be_u16(100));
    b.extend(write_be_u16(200));
    b.extend(write_be_i16(5));
    b.extend(write_be_i16(-3));
    b.extend(write_be_u16(300));
    b.extend(write_be_u16(400));
    b.extend(write_be_i16(0));
    b.extend(write_be_i16(7));
    // 1 object box
    b.extend(write_be_u16(1));
    b.extend(write_be_u16(50));
    b.extend(write_be_u16(60));
    b.extend(write_be_u16(200));
    b.extend(write_be_u16(40));
    b.push(0);
    b.push(200);
    // 0 text regions
    b.push(0);
    b
}

#[test]
fn parse_round_trip() {
    let payload = build_frame_summary();
    let s = FrameSummary::parse(&payload).unwrap();
    assert_eq!(s.timestamp_ms, 1_700_000_000_000);
    assert_eq!(s.frame_seq, 42);
    assert_eq!(s.width, 1080);
    assert_eq!(s.height, 2400);
    assert!(s.is_keyframe());
    assert!(s.is_moving());
    assert!(s.has_objects());
    assert_eq!(s.features,
        vec![
            0.1f32.to_bits(),
            0.2f32.to_bits(),
            0.3f32.to_bits(),
            0.4f32.to_bits()
        ]);
    assert_eq!(s.motion.len(), 2);
    assert_eq!(
        s.motion[0],
        MotionVector {
            x: 100,
            y: 200,
            dx: 5,
            dy: -3
        }
    );
    assert_eq!(s.objects.len(), 1);
    assert_eq!(
        s.objects[0],
        ObjectBox {
            x: 50,
            y: 60,
            w: 200,
            h: 40,
            class_id: 0,
            confidence: 200,
        }
    );
}

#[test]
fn parse_empty_features_and_vectors() {
    let mut b = Vec::new();
    b.extend(write_be_u64(0));
    b.extend(write_be_u32(1));
    b.extend(write_be_u16(100));
    b.extend(write_be_u16(100));
    b.push(FLAG_KEYFRAME);
    b.extend(write_be_u16(0)); // feature_dim
    b.extend(write_be_u16(0)); // num_motion
    b.extend(write_be_u16(0)); // num_objects
    b.push(0); // num_text
    let s = FrameSummary::parse(&b).unwrap();
    assert!(s.is_keyframe());
    assert!(!s.is_moving());
    assert!(!s.has_objects());
    assert!(s.features.is_empty());
}

#[test]
fn parse_stats() {
    let mut b = Vec::new();
    b.extend(write_be_u64(60_000)); // uptime
    b.extend(write_be_u32(300)); // sampled
    b.extend(write_be_u32(12)); // skipped
    b.extend(write_be_u32(50)); // yolo
    b.extend(write_be_u64(24_000)); // bytes
    b.extend(write_be_f32(4.5)); // avg_latency
    b.extend(write_be_f32(5.2)); // current_fps
    let st = AiStats::parse(&b).unwrap();
    assert_eq!(st.uptime_ms, 60_000);
    assert_eq!(st.frames_sampled, 300);
    assert!((f32::from_bits(st.avg_latency_ms) - 4.5).abs() < 1e-6);
}

#[test]
fn envelope_unknown_type_returns_none() {
    let mut b = Vec::new();
    b.push(99); // unknown
    b.extend(write_be_u32(0));
    let env = read_device_envelope(&b).unwrap();
    assert!(env.is_none());
}

#[test]
fn describe_format() {
    let payload = build_frame_summary();
    let s = FrameSummary::parse(&payload).unwrap();
    let d = s.describe();
    assert!(d.contains("KEYFRAME"));
    assert!(d.contains("MOTION(2)"));
    assert!(d.contains("OBJECTS(1)"));
    assert!(d.contains("features_dim=4"));
}

#[test]
fn a_summary_round_trips() {
    let frame = FrameSummary {
        timestamp_ms: 77,
        frame_seq: 8,
        width: 9,
        height: 10,
        flags: FLAG_MOTION,
        features: vec![1, 0xFF7F_FFFF],
        motion: vec![MotionVector { x: 1, y: 2, dx: -3, dy: i16::MIN }],
        objects: vec![ObjectBox { x: 1, y: 2, w: 3, h: 4, class_id: 5, confidence: 6 }],
        text_regions: vec![TextRegion { x: 9, y: 8, w: 7, h: 6 }],
    };
    let payload = frame.encode_payload().unwrap();
    assert_eq!(FrameSummary::parse(&payload).unwrap(), frame);
    let mut longer = payload.clone();
    longer.push(1);
    assert_eq!(FrameSummary::parse(&longer).unwrap(), frame);
    for n in 0..payload.len() {
        assert!(matches!(
            FrameSummary::parse(&payload[..n]),
            Err(Error::Transport(_))
        ));
    }
    let envelope = frame_summary_envelope(&frame).unwrap();
    assert_eq!(
        read_device_envelope(&envelope).unwrap(),
        Some(DeviceEnvelope::Frame(frame))
    );
    assert!(matches!(
        read_device_envelope(&envelope[..envelope.len() - 1]),
        Err(Error::Transport(_))
    ));
    assert!(read_device_envelope(&envelope[..4]).unwrap().is_none());
}

#[test]
fn too_many_entries_have_no_payload() {
    let frame = FrameSummary {
        timestamp_ms: 0,
        frame_seq: 0,
        width: 0,
        height: 0,
        flags: 0,
        features: Vec::new(),
        motion: Vec::new(),
        objects: Vec::new(),
        text_regions: vec![TextRegion { x: 0, y: 0, w: 0, h: 0 }; 256],
    };
    assert!(frame.encode_payload().is_none());
    assert!(frame_summary_envelope(&frame).is_none());
}

#[test]
fn short_statistics_are_refused() {
    assert!(matches!(AiStats::parse(&[0u8; 35]), Err(Error::Transport(_))));
    let stats = AiStats::parse(&[0u8; 36]).unwrap();
    let text = stats.describe("4.5", "60.0");
    assert!(text.contains("4.5"));
    assert!(text.contains("60.0"));
}

#[test]
fn unknown_envelopes_can_be_skipped() {
    let mut stream = vec![9u8, 0, 0, 0, 3, 1, 2, 3];
    let behind = stream.len();
    stream.extend_from_slice(&[77, 0, 0, 0, 0]);
    assert!(read_device_envelope(&stream).unwrap().is_none());
    assert_eq!(envelope_len(&stream), Some(behind));
    assert_eq!(envelope_len(&stream[behind..]), Some(5));
    assert_eq!(envelope_len(&stream[behind + 5..]), None);
    assert_eq!(envelope_len(&stream[..7]), None);
    assert_eq!(envelope_announced(&stream[..5]), Some(8));
    assert_eq!(envelope_announced(&stream[..4]), None);
    assert_eq!(
        envelope_announced(&[1, 0xFF, 0xFF, 0xFF, 0xFF]),
        Some(4_294_967_300)
    );
}

#[test]
fn features_and_rates_compare_as_numbers() {
    let frame = |feature: f32| FrameSummary {
        timestamp_ms: 1,
        frame_seq: 2,
        width: 3,
        height: 4,
        flags: 0,
        features: vec![1.5f32.to_bits(), feature.to_bits()],
        motion: Vec::new(),
        objects: Vec::new(),
        text_regions: Vec::new(),
    };
    assert_eq!(frame(2.0), frame(2.0));
    assert_eq!(frame(0.0), frame(-0.0));
    assert_ne!(frame(2.0), frame(-2.0));
    assert_ne!(frame(f32::NAN), frame(f32::NAN));
    let payload = frame(f32::NAN).encode_payload().unwrap();
    let parsed = FrameSummary::parse(&payload).unwrap();
    assert_eq!(parsed.features, frame(f32::NAN).features);
    assert_eq!(frame(f32::INFINITY), frame(f32::INFINITY));
    let stats = |rate: f32| AiStats {
        uptime_ms: 1,
        frames_sampled: 2,
        frames_skipped_keyframe: 3,
        frames_yolo_inferred: 4,
        bytes_summary_emitted: 5,
        avg_latency_ms: 6.5f32.to_bits(),
        current_fps: rate.to_bits(),
    };
    assert_eq!(stats(0.0), stats(-0.0));
    assert_ne!(stats(f32::NAN), stats(f32::NAN));
    assert_ne!(stats(30.0), stats(29.0));
    let envelope = DeviceEnvelope::Frame(frame(2.0));
    assert_eq!(envelope.clone(), envelope);
    assert_ne!(envelope, DeviceEnvelope::Stats(stats(30.0)));
}
