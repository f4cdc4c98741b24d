//! Messages and events from the device.
use android_hid_connect::ai::{FLAG_KEYFRAME, FLAG_OBJECTS, TYPE_AI_STATS, TYPE_FRAME_SUMMARY};
use android_hid_connect::device::{
    decode_control_prefix, pump_goes_on, AsyncDeviceMessageReceiver, DeviceEvent, DeviceMessage,
    DeviceRead, ReadErrorKind, ReadProgress, ReceivedBytes, DEVICE_MSG_TEXT_MAX_LENGTH,
    DEVICE_NAME_FIELD_LENGTH, TYPE_ACK_CLIPBOARD, TYPE_CLIPBOARD, TYPE_UHID_OUTPUT,
};
use android_hid_connect::error::Error;
use android_hid_connect::latest::{
    AsyncLatestFrameSummaryState, DrainStep, LatestFrameSummaryBoundary,
    LatestFrameSummaryObservation, LatestFrameSummarySnapshot, WaitStep,
};

fn ack(sequence: u64) -> Vec<u8> {
    let mut bytes = vec![TYPE_ACK_CLIPBOARD];
    bytes.extend(sequence.to_be_bytes());
    bytes
}

fn clipboard(text: &str) -> Vec<u8> {
    let mut bytes = vec![TYPE_CLIPBOARD];
    bytes.extend((text.len() as u32).to_be_bytes());
    bytes.extend(text.as_bytes());
    bytes
}

fn uhid_output(id: u16, data: &[u8]) -> Vec<u8> {
    let mut bytes = vec![TYPE_UHID_OUTPUT];
    bytes.extend(id.to_be_bytes());
    bytes.extend((data.len() as u16).to_be_bytes());
    bytes.extend(data);
    bytes
}

fn frame_summary_envelope_at(timestamp_ms: u64, frame_seq: u32) -> Vec<u8> {
    let mut payload = Vec::new();
    payload.extend(timestamp_ms.to_be_bytes());
    payload.extend(frame_seq.to_be_bytes());
    payload.extend(1000u16.to_be_bytes());
    payload.extend(2000u16.to_be_bytes());
    payload.push(FLAG_KEYFRAME | FLAG_OBJECTS);
    payload.extend(0u16.to_be_bytes());
    payload.extend(0u16.to_be_bytes());
    payload.extend(1u16.to_be_bytes());
    payload.extend(100u16.to_be_bytes());
    payload.extend(200u16.to_be_bytes());
    payload.extend(301u16.to_be_bytes());
    payload.extend(101u16.to_be_bytes());
    payload.push(7);
    payload.push(220);
    payload.push(0);

    let mut bytes = vec![TYPE_FRAME_SUMMARY];
    bytes.extend((payload.len() as u32).to_be_bytes());
    bytes.extend(payload);
    bytes
}

fn frame_summary_envelope(frame_seq: u32) -> Vec<u8> {
    frame_summary_envelope_at(100, frame_seq)
}

fn ai_stats_envelope() -> Vec<u8> {
    let mut payload = Vec::new();
    payload.extend(1_000u64.to_be_bytes());
    payload.extend(10u32.to_be_bytes());
    payload.extend(1u32.to_be_bytes());
    payload.extend(2u32.to_be_bytes());
    payload.extend(300u64.to_be_bytes());
    payload.extend(4.5f32.to_be_bytes());
    payload.extend(60.0f32.to_be_bytes());

    let mut bytes = vec![TYPE_AI_STATS];
    bytes.extend((payload.len() as u32).to_be_bytes());
    bytes.extend(payload);
    bytes
}

fn unknown_envelope() -> Vec<u8> {
    let mut bytes = vec![99];
    bytes.extend(3u32.to_be_bytes());
    bytes.extend([1, 2, 3]);
    bytes
}

#[test]
fn async_receiver_reads_consecutive_mixed_messages() {
    let mut bytes = Vec::new();
    bytes.extend(ack(7));
    bytes.extend(uhid_output(2, &[0xaa]));
    bytes.extend(clipboard("ok"));
    let mut rx = AsyncDeviceMessageReceiver::new(ReceivedBytes::new(bytes, false));

    assert_eq!(
        rx.get_mut().read_next().unwrap(),
        DeviceMessage::AckClipboard { sequence: 7 }
    );
    assert_eq!(
        rx.get_mut().read_next().unwrap(),
        DeviceMessage::UhidOutput {
            id: 2,
            data: vec![0xaa],
        }
    );
    assert_eq!(
        rx.get_mut().read_next().unwrap(),
        DeviceMessage::Clipboard("ok".to_string())
    );
    assert_eq!(rx.get_ref().remaining(), 0);
    assert_eq!(rx.into_inner().remaining(), 0);
}

#[test]
fn async_receiver_reads_native_ai_and_unknown_events() {
    let mut bytes = Vec::new();
    bytes.extend(ack(7));
    bytes.extend(frame_summary_envelope(42));
    bytes.extend(ai_stats_envelope());
    bytes.extend(unknown_envelope());
    let mut rx = ReceivedBytes::new(bytes, false);

    assert_eq!(
        rx.read_next_event().unwrap(),
        DeviceEvent::Native(DeviceMessage::AckClipboard { sequence: 7 })
    );
    match rx.read_next_event().unwrap() {
        DeviceEvent::FrameSummary(summary) => {
            assert_eq!(summary.frame_seq, 42);
            assert_eq!(summary.objects[0].class_id, 7);
        }
        other => panic!("expected frame summary, got {other:?}"),
    }
    match rx.read_next_event().unwrap() {
        DeviceEvent::AiStats(stats) => assert_eq!(stats.frames_sampled, 10),
        other => panic!("expected ai stats, got {other:?}"),
    }
    assert_eq!(
        rx.read_next_event().unwrap(),
        DeviceEvent::UnknownEnvelope {
            msg_type: 99,
            payload: vec![1, 2, 3],
        }
    );
}

#[test]
fn async_prefix_reader_consumes_dummy_and_device_name() {
    let mut name = [0u8; DEVICE_NAME_FIELD_LENGTH];
    name[..7].copy_from_slice(b"SM-G991");
    let prefix = decode_control_prefix(0, name);
    assert_eq!(prefix.dummy_byte, 0);
    assert_eq!(prefix.device_name, "SM-G991");
    assert_eq!(prefix.raw_device_name, name);
}

#[test]
fn device_names_may_fill_the_field_and_break_the_encoding() {
    let full = decode_control_prefix(1, [b'x'; DEVICE_NAME_FIELD_LENGTH]);
    assert_eq!(full.device_name, "x".repeat(DEVICE_NAME_FIELD_LENGTH));
    let mut name = [0u8; DEVICE_NAME_FIELD_LENGTH];
    name[..3].copy_from_slice(&[b'a', 0xFF, b'b']);
    assert_eq!(decode_control_prefix(1, name).device_name, "a\u{FFFD}b");
    name[0] = 0;
    assert_eq!(decode_control_prefix(1, name).device_name, "");
}

#[test]
fn a_stream_that_ends_reports_eof() {
    let mut bytes = ack(1);
    bytes.extend(clipboard("ok"));
    let mut rx = ReceivedBytes::new(bytes, false);
    rx.read_next().unwrap();
    rx.read_next().unwrap();
    let err = rx.read_next().unwrap_err();
    assert_eq!(err.kind, ReadErrorKind::UnexpectedEof);

    let mut cut = clipboard("later");
    cut.pop();
    let mut rx = ReceivedBytes::new(cut, false);
    assert_eq!(rx.read_next().unwrap_err().kind, ReadErrorKind::UnexpectedEof);
    assert_eq!(rx.remaining(), 0);
}

#[test]
fn malformed_messages_are_invalid_data() {
    let mut rx = ReceivedBytes::new(vec![9, 0], false);
    let err = rx.read_next().unwrap_err();
    assert_eq!(err.kind, ReadErrorKind::InvalidData);
    assert_eq!(err.message, "unknown device message type 9");
    assert_eq!(rx.remaining(), 1);

    let mut bytes = vec![TYPE_CLIPBOARD];
    bytes.extend((DEVICE_MSG_TEXT_MAX_LENGTH as u32 + 1).to_be_bytes());
    let err = ReceivedBytes::new(bytes, false).read_next().unwrap_err();
    assert_eq!(
        err.message,
        "clipboard payload too large: 262140 bytes (max 262139)"
    );

    let mut bytes = vec![50];
    bytes.extend(u32::MAX.to_be_bytes());
    let err = ReceivedBytes::new(bytes, false).read_next_event().unwrap_err();
    assert_eq!(
        err.message,
        "device event payload too large: 4294967295 bytes (max 262139)"
    );

    let bad_text = vec![TYPE_CLIPBOARD, 0, 0, 0, 2, b'a', 0xFF];
    let err = ReceivedBytes::new(bad_text, false).read_next().unwrap_err();
    assert_eq!(err.kind, ReadErrorKind::InvalidData);
    assert_eq!(
        err.message,
        "invalid utf-8 sequence of 1 bytes from index 1"
    );

    let short_frame = vec![TYPE_FRAME_SUMMARY, 0, 0, 0, 1, 0];
    let err = ReceivedBytes::new(short_frame, false)
        .read_next_event()
        .unwrap_err();
    assert_eq!(err.kind, ReadErrorKind::InvalidData);
    assert_eq!(err.message, "failed to fill whole buffer");
}

#[test]
fn wait_for_clipboard_skips_ack_messages() {
    let mut stream = ack(1);
    stream.extend(ack(2));
    stream.extend(clipboard("later"));
    let mut agent = ReceivedBytes::new(stream, false);

    assert_eq!(agent.wait_for_clipboard().unwrap(), "later");
}

#[test]
fn wait_for_clipboard_maps_reader_timeout_to_agent_timeout() {
    let mut agent = ReceivedBytes::new(Vec::new(), true);

    assert!(matches!(
        agent.wait_for_clipboard().unwrap_err(),
        Error::AgentTimeout("clipboard")
    ));
}

#[test]
fn wait_for_clipboard_ack_skips_unrelated_messages() {
    let mut stream = ack(7);
    stream.extend(ack(8));
    let len = stream.len();
    let mut agent = ReceivedBytes::new(stream, false);

    agent.wait_for_clipboard_ack(8).unwrap();
    assert_eq!(len - agent.remaining(), 18);
}

#[test]
fn waiting_for_an_ack_skips_clipboards_and_stops_behind_it() {
    let mut stream = clipboard("ignored");
    stream.extend(ack(7));
    stream.extend(ack(8));
    stream.extend(ack(9));
    let mut agent = ReceivedBytes::new(stream, false);
    agent.wait_for_clipboard_ack(8).unwrap();
    assert_eq!(agent.remaining(), 9);
    assert!(matches!(
        agent.wait_for_clipboard_ack(8).unwrap_err(),
        Error::Transport(_)
    ));
}

#[test]
fn a_reader_takes_messages_in_pieces() {
    let mut bytes = ack(5);
    bytes.extend(clipboard("duplex"));
    bytes.extend(clipboard(""));
    let mut read = DeviceRead::new(false);
    let mut at = 0;
    let mut seen = Vec::new();
    while at < bytes.len() {
        let n = read.needed();
        match read.feed(&bytes[at..at + n]) {
            ReadProgress::More => {}
            ReadProgress::Done(event) => seen.push(event),
            ReadProgress::Failed(e) => panic!("unexpected {e:?}"),
        }
        at += n;
    }
    assert_eq!(
        seen,
        vec![
            DeviceEvent::Native(DeviceMessage::AckClipboard { sequence: 5 }),
            DeviceEvent::Native(DeviceMessage::Clipboard("duplex".to_string())),
            DeviceEvent::Native(DeviceMessage::Clipboard(String::new())),
        ]
    );
    assert!(pump_goes_on(true, true));
    assert!(!pump_goes_on(true, false));
    assert!(!pump_goes_on(false, true));
}

fn drained(bytes: Vec<u8>) -> AsyncLatestFrameSummaryState<ReadErrorKind> {
    let mut rx = ReceivedBytes::new(bytes, false);
    let mut state = AsyncLatestFrameSummaryState::new();
    loop {
        let read = rx.read_next_event().map_err(|e| e.kind);
        if state.drain(read) == DrainStep::Stop {
            return state;
        }
    }
}

#[test]
fn async_latest_frame_summary_receiver_keeps_newest_frame_and_reports_terminal_error() {
    let mut bytes = Vec::new();
    bytes.extend(ack(1));
    bytes.extend(frame_summary_envelope_at(100, 2));
    bytes.extend(ai_stats_envelope());
    bytes.extend(frame_summary_envelope_at(200, 3));
    bytes.extend(unknown_envelope());
    bytes.extend(frame_summary_envelope_at(250, 4));
    let latest = drained(bytes);

    let snapshot = match latest.wait_step(true) {
        WaitStep::Ready(snapshot) => snapshot,
        other => panic!("expected a frame, got {other:?}"),
    };
    assert_eq!(snapshot.version, 3);
    assert_eq!(snapshot.summary.frame_seq, 4);
    assert_eq!(snapshot.summary.timestamp_ms, 250);

    assert_eq!(
        latest.snapshot_after_version(2).unwrap().summary.frame_seq,
        4
    );
    assert!(latest.snapshot_after_version(3).is_none());
    let boundary = latest.boundary();
    let previous_boundary = LatestFrameSummaryBoundary::new(2);
    assert_eq!(boundary.version(), 3);
    assert_eq!(snapshot.boundary(), boundary);
    assert_eq!(
        LatestFrameSummaryBoundary::from_snapshot(&snapshot),
        boundary
    );
    assert!(previous_boundary.accepts(&snapshot));
    assert!(!boundary.accepts(&snapshot));
    let observation = latest.observe();
    assert!(observation.has_snapshot());
    assert_eq!(observation.boundary(), boundary);
    assert_eq!(observation.boundary_version(), 3);
    assert_eq!(
        observation.snapshot().unwrap().summary.frame_seq,
        snapshot.summary.frame_seq
    );
    assert_eq!(observation.summary().unwrap().timestamp_ms, 250);
    assert!(!observation.accepts(&snapshot));
    let rebuilt_observation =
        LatestFrameSummaryObservation::from_parts(boundary, Some(snapshot.clone()));
    assert_eq!(rebuilt_observation.boundary(), boundary);
    assert_eq!(
        rebuilt_observation.summary().unwrap().frame_seq,
        snapshot.summary.frame_seq
    );
    assert_eq!(
        LatestFrameSummaryObservation::from_snapshot(snapshot.clone())
            .into_snapshot()
            .unwrap()
            .summary
            .frame_seq,
        4
    );
    assert_eq!(
        LatestFrameSummaryObservation::at_version(3).boundary(),
        boundary
    );
    let previous_observation = LatestFrameSummaryObservation::at_boundary(previous_boundary);
    assert_eq!(
        latest
            .snapshot_after_boundary(previous_boundary)
            .unwrap()
            .summary
            .frame_seq,
        4
    );
    assert_eq!(
        latest
            .snapshot_after_observation(&previous_observation)
            .unwrap()
            .summary
            .frame_seq,
        4
    );
    assert!(latest.snapshot_after_boundary(boundary).is_none());
    assert!(latest.snapshot_after_observation(&observation).is_none());
    assert_eq!(
        latest
            .snapshot_after_frame_seq(3)
            .unwrap()
            .summary
            .frame_seq,
        4
    );
    assert!(latest.snapshot_after_frame_seq(4).is_none());
    assert_eq!(
        latest
            .snapshot_after_timestamp(200)
            .unwrap()
            .summary
            .timestamp_ms,
        250
    );
    assert!(latest.snapshot_after_timestamp(250).is_none());

    let accepted = observation.accepts(&snapshot);
    assert!(matches!(
        latest.wait_step(accepted),
        WaitStep::Failed(ReadErrorKind::UnexpectedEof)
    ));
    assert_eq!(
        *latest.terminal_error().unwrap(),
        ReadErrorKind::UnexpectedEof
    );
}

#[test]
fn async_latest_frame_summary_receiver_reports_eof_without_frames() {
    let mut bytes = Vec::new();
    bytes.extend(ack(1));
    bytes.extend(ai_stats_envelope());
    let latest = drained(bytes);

    assert!(latest.snapshot().is_none());
    assert!(matches!(
        latest.wait_step(true),
        WaitStep::Failed(ReadErrorKind::UnexpectedEof)
    ));
}

#[test]
fn an_empty_state_waits() {
    let latest: AsyncLatestFrameSummaryState<ReadErrorKind> = AsyncLatestFrameSummaryState::new();
    assert_eq!(latest.version(), 0);
    assert!(matches!(latest.wait_step(true), WaitStep::Wait));
    assert!(latest.snapshot_matching(true).is_none());
    assert!(latest.terminal_error().is_none());
}

#[test]
fn a_missed_frame_waits_for_the_next() {
    let mut rx = ReceivedBytes::new(frame_summary_envelope_at(100, 1), false);
    let mut latest: AsyncLatestFrameSummaryState<ReadErrorKind> =
        AsyncLatestFrameSummaryState::new();
    assert!(latest.record(rx.read_next_event().unwrap()));
    let wanted = |s: &LatestFrameSummarySnapshot| s.is_after_version(0) && s.is_after_frame_seq(1);
    let seen = latest.snapshot().unwrap();
    assert!(!wanted(&seen));
    assert!(matches!(latest.wait_step(wanted(&seen)), WaitStep::Wait));
    assert!(latest.snapshot_matching(wanted(&seen)).is_none());

    let mut rx = ReceivedBytes::new(frame_summary_envelope_at(180, 2), false);
    assert!(latest.record(rx.read_next_event().unwrap()));
    let seen = latest.snapshot().unwrap();
    assert!(wanted(&seen));
    assert!(seen.is_after_timestamp(150));
    match latest.wait_step(wanted(&seen)) {
        WaitStep::Ready(snapshot) => {
            assert_eq!(snapshot.version, 2);
            assert_eq!(snapshot.summary.frame_seq, 2);
        }
        other => panic!("expected a frame, got {other:?}"),
    }
}

#[test]
fn versions_stop_at_the_largest() {
    let mut rx = ReceivedBytes::new(frame_summary_envelope_at(1, 1), false);
    let mut latest: AsyncLatestFrameSummaryState<ReadErrorKind> =
        AsyncLatestFrameSummaryState { latest: None, version: u64::MAX, terminal_error: None };
    latest.record(rx.read_next_event().unwrap());
    assert_eq!(latest.version(), u64::MAX);
}
