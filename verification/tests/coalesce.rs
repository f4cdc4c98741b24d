//! The coalescing writer.
use android_hid_connect::coalesce::{CoalescingWriter, FlushReason};
use android_hid_connect::error::Error;
use android_hid_connect::gamepad::{GamepadFrameRaw, GAMEPAD_FRAME_BYTES};
use android_hid_connect::message::{
    control_message_tags, count_control_messages, count_uhid_inputs, find_control_message,
    BackOrScreenOn, ControlMessage, SetClipboard, StartApp, UhidDestroy, UhidInput,
};
use android_hid_connect::transport::{MockCall, MockRefusal, MockTransport};
use android_hid_connect::types::HID_MAX_SIZE;

fn input_msg(id: u16, byte: u8) -> ControlMessage {
    let mut data = [0u8; HID_MAX_SIZE];
    data[0] = byte;
    ControlMessage::UhidInput(UhidInput { id, size: 8, data })
}

#[test]
fn buffers_droppable_messages() {
    // A UhidInput with size=8 is 5+8=13 bytes on the wire.
    const WIRE_SIZE: usize = 13;
    let mut w = CoalescingWriter::with_limits(
        MockTransport::new(),
        100_000_000, // long window
        4096,
    );
    let r1 = w.push(&input_msg(1, 0x10)).unwrap();
    let r2 = w.push(&input_msg(1, 0x20)).unwrap();
    let r3 = w.push(&input_msg(1, 0x30)).unwrap();
    assert_eq!(r1, FlushReason::Pending);
    assert_eq!(r2, FlushReason::Pending);
    assert_eq!(r3, FlushReason::Pending);
    assert_eq!(w.pending_bytes(), 3 * WIRE_SIZE);
    let t = w.into_inner().unwrap();
    let bytes = t.into_bytes();
    assert_eq!(
        bytes.len(),
        3 * WIRE_SIZE,
        "all 3 messages flushed in 1 write_all"
    );
}

#[test]
fn hard_limit_forces_flush() {
    // UhidInput with size=8 = 13 bytes. Set hard_limit to exactly
    // 13 so the first input trips the flush.
    let mut w = CoalescingWriter::with_limits(
        MockTransport::new(),
        60_000_000_000, // window never expires in this test
        13,                      // hard limit = exactly 1 UhidInput
    );
    let r1 = w.push(&input_msg(1, 0x10)).unwrap();
    assert_eq!(
        r1,
        FlushReason::Full,
        "13-byte input hits the 13-byte hard limit"
    );
    let r2 = w.push(&input_msg(1, 0x20)).unwrap();
    assert_eq!(
        r2,
        FlushReason::Full,
        "second 13-byte input also hits the 13-byte limit (buffer was empty after the first force-flush)"
    );
    let t = w.into_inner().unwrap();
    let bytes = t.into_bytes();
    // 1 full input (13B) + 1 full input (13B) = 26B
    assert_eq!(bytes.len(), 26);
}

#[test]
fn critical_message_flushes_then_writes() {
    let mut w =
        CoalescingWriter::with_limits(MockTransport::new(), 100_000_000, 4096);
    // Buffer some inputs.
    w.push(&input_msg(1, 0x10)).unwrap();
    w.push(&input_msg(1, 0x20)).unwrap();
    assert_eq!(w.pending_bytes(), 26);
    // Critical message — must flush pending + write critical.
    let r = w
        .push(&ControlMessage::UhidDestroy(UhidDestroy { id: 1 }))
        .unwrap();
    assert_eq!(r, FlushReason::Critical);
    let t = w.into_inner().unwrap();
    let bytes = t.into_bytes();
    // 2 buffered inputs (26B) + critical DESTROY (3B) = 29B
    assert_eq!(bytes.len(), 29);
    // The DESTROY (last 3 bytes) must be at the end.
    assert_eq!(&bytes[bytes.len() - 3..], &[14, 0x00, 0x01]);
}

#[test]
fn direct_writer_flushes_immediately() {
    let mut w = CoalescingWriter::direct(MockTransport::new());
    let r1 = w.push(&input_msg(1, 0x10)).unwrap();
    let r2 = w.push(&input_msg(1, 0x20)).unwrap();
    assert_eq!(r1, FlushReason::Window);
    assert_eq!(r2, FlushReason::Window);
    assert_eq!(w.pending_bytes(), 0);
    assert_eq!(w.flushes(), 2);
    assert_eq!(w.pushed(), 2);
    let t = w.into_inner().unwrap();
    let bytes = t.into_bytes();
    // 2 inputs, 13 bytes each.
    assert_eq!(bytes.len(), 26);
}

#[test]
fn direct_gamepad_batch_flushes_once() {
    let mut w = CoalescingWriter::direct(MockTransport::new());
    let payload = [0u8; GAMEPAD_FRAME_BYTES];
    w.push_gamepad_input_batch(3, &[payload, payload]).unwrap();
    assert_eq!(w.flushes(), 1);
    assert_eq!(w.pending_bytes(), 0);
    let t = w.into_inner().unwrap();
    let bytes = t.into_bytes();
    assert_eq!(bytes.len(), 2 * (GAMEPAD_FRAME_BYTES + 5));
}

#[test]
fn direct_fields_batch_flushes_once() {
    let mut w = CoalescingWriter::direct(MockTransport::new());
    let frames = vec![
        GamepadFrameRaw::new(1u32, 0i16, 0i16, 0i16, 0i16, 0i16, 0i16),
        GamepadFrameRaw::new(2u32, 1i16, -1i16, 2i16, -2i16, 10i16, 20i16),
    ];
    w.push_gamepad_input_batch_from_fields(3, &frames).unwrap();
    assert_eq!(w.flushes(), 1);
    assert_eq!(w.pending_bytes(), 0);
    let t = w.into_inner().unwrap();
    let bytes = t.into_bytes();
    assert_eq!(bytes.len(), 2 * (GAMEPAD_FRAME_BYTES + 5));
}

#[test]
fn direct_gamepad_batch_len_one_flushes_once() {
    let mut w = CoalescingWriter::direct(MockTransport::new());
    let payload = [0u8; GAMEPAD_FRAME_BYTES];
    w.push_gamepad_input_batch(3, &[payload]).unwrap();
    assert_eq!(w.flushes(), 1);
    assert_eq!(w.pending_bytes(), 0);
    let t = w.into_inner().unwrap();
    let bytes = t.into_bytes();
    assert_eq!(bytes.len(), GAMEPAD_FRAME_BYTES + 5);
}

#[test]
fn direct_fields_batch_len_one_flushes_once() {
    let mut w = CoalescingWriter::direct(MockTransport::new());
    let frame = GamepadFrameRaw::new(3u32, 0i16, 0i16, 0i16, 0i16, 0i16, 0i16);
    w.push_gamepad_input_batch_from_fields(3, &[frame]).unwrap();
    assert_eq!(w.flushes(), 1);
    assert_eq!(w.pending_bytes(), 0);
    let t = w.into_inner().unwrap();
    let bytes = t.into_bytes();
    assert_eq!(bytes.len(), GAMEPAD_FRAME_BYTES + 5);
}

#[test]
fn direct_fields_single_flushes_once() {
    let mut w = CoalescingWriter::direct(MockTransport::new());
    let frame = GamepadFrameRaw::new(1u32, 0i16, 0i16, 0i16, 0i16, 0i16, 0i16);
    w.push_gamepad_input_fields(3, &frame).unwrap();
    assert_eq!(w.flushes(), 1);
    assert_eq!(w.pending_bytes(), 0);
    let t = w.into_inner().unwrap();
    let bytes = t.into_bytes();
    assert_eq!(bytes.len(), GAMEPAD_FRAME_BYTES + 5);
}

#[test]
fn stats_track_messages() {
    let mut w =
        CoalescingWriter::with_limits(MockTransport::new(), 100_000_000, 4096);
    w.push(&input_msg(1, 0x10)).unwrap();
    w.push(&input_msg(1, 0x20)).unwrap();
    w.flush_now().unwrap();
    assert_eq!(w.pushed(), 2);
    assert_eq!(w.written(), 26);
    assert_eq!(w.pending_bytes(), 0);
    assert!(w.flushes() >= 1);
    assert!((w.pushed() as f64 / w.flushes().max(1) as f64 - 2.0).abs() < f64::EPSILON);
}

#[test]
fn test_scratch_reuse_no_realloc() {
    let mut w =
        CoalescingWriter::with_limits(MockTransport::new(), 100_000_000, 4096);
    for i in 0..1000u16 {
        let r = w.push(&input_msg(i, (i & 0xFF) as u8)).unwrap();
        if r != FlushReason::Pending {
            assert_eq!(r, FlushReason::Full);
        }
    }
    assert_eq!(w.pushed(), 1000);
    assert!(w.written() > 0);
    assert!(w.flushes() > 0);
    let t = w.into_inner().unwrap();
    let bytes = t.into_bytes();
    assert!(!bytes.is_empty());
}

#[test]
fn pushes_keep_the_byte_stream() {
    let mut direct = CoalescingWriter::direct(MockTransport::new());
    let mut buffered = CoalescingWriter::with_limits(MockTransport::new(), 60_000_000_000, 40);
    for i in 0..20u16 {
        let msg = if i % 7 == 3 {
            ControlMessage::UhidDestroy(UhidDestroy { id: i })
        } else {
            input_msg(i, i as u8)
        };
        direct.push(&msg).unwrap();
        buffered.push(&msg).unwrap();
        assert!(buffered.pending_bytes() < 40);
    }
    let a = direct.into_inner().unwrap().into_bytes();
    let b = buffered.into_inner().unwrap().into_bytes();
    assert_eq!(a, b);
    assert_eq!(count_uhid_inputs(&a), 17);
    assert_eq!(count_control_messages(&a, 14), 3);
    assert_eq!(control_message_tags(&a).len(), 20);
    assert_eq!(find_control_message(&a, 14), Some(vec![14, 0, 3]));
    assert_eq!(find_control_message(&a, 16), None);
}

#[test]
fn an_elapsed_window_flushes() {
    let mut w = CoalescingWriter::with_limits(MockTransport::new(), 60_000_000_000, 4096);
    assert_eq!(w.push_at(&input_msg(1, 1), 59_999_999_999).unwrap(), FlushReason::Pending);
    assert_eq!(w.push_at(&input_msg(1, 2), 60_000_000_000).unwrap(), FlushReason::Window);
    assert_eq!(w.pending_bytes(), 0);
    assert_eq!(w.written(), 26);
}

#[test]
fn a_zero_window_has_always_elapsed() {
    // The clock never runs backwards, so no time is within an empty window.
    let mut w = CoalescingWriter::with_limits(MockTransport::new(), 0, 4096);
    assert_eq!(w.push(&input_msg(1, 1)).unwrap(), FlushReason::Window);
    assert_eq!(w.pending_bytes(), 0);
}

#[test]
fn a_default_window_waits_for_later_messages() {
    let mut w = CoalescingWriter::new(MockTransport::new());
    assert!(!w.is_direct());
    w.push_uhid_input(1, 2, &[7, 8]).unwrap();
    w.flush_now().unwrap();
    assert_eq!(
        w.into_inner().unwrap().into_bytes(),
        vec![13, 0, 1, 0, 2, 7, 8]
    );
}

#[test]
fn gamepad_batches_match_single_pushes() {
    let frames: Vec<GamepadFrameRaw> = (0..70)
        .map(|i| GamepadFrameRaw::new(i as u32, i, -i, 2 * i, 3 * i, i, i))
        .collect();
    let packed: Vec<[u8; GAMEPAD_FRAME_BYTES]> = frames.iter().map(|f| f.pack()).collect();
    let mut one_by_one = CoalescingWriter::direct(MockTransport::new());
    for f in &frames {
        one_by_one.push_gamepad_input_fields(3, f).unwrap();
    }
    let mut by_fields = CoalescingWriter::direct(MockTransport::new());
    by_fields
        .push_gamepad_input_batch_from_fields(3, &frames)
        .unwrap();
    let mut by_bytes = CoalescingWriter::with_limits(MockTransport::new(), 60_000_000_000, 64);
    by_bytes.push_gamepad_input_batch(3, &packed).unwrap();
    let expected = one_by_one.into_inner().unwrap().into_bytes();
    assert_eq!(expected.len(), 70 * 20);
    assert_eq!(by_fields.into_inner().unwrap().into_bytes(), expected);
    assert_eq!(by_bytes.into_inner().unwrap().into_bytes(), expected);
}

#[test]
fn oversized_messages_are_refused() {
    let mut out = Vec::new();
    let name = "a".repeat(256);
    let err = ControlMessage::StartApp(StartApp { name })
        .serialize_into(&mut out)
        .unwrap_err();
    assert!(matches!(
        err,
        Error::ControlMessageTooLarge { size: 256, max: 255 }
    ));
    assert!(out.is_empty());
    let text = "b".repeat(262_131);
    let err = ControlMessage::SetClipboard(SetClipboard { sequence: 1, paste: true, text })
        .serialize_into(&mut out)
        .unwrap_err();
    assert!(matches!(err, Error::ControlMessageTooLarge { .. }));
}

#[test]
fn control_messages_have_fixed_frames() {
    let mut out = Vec::new();
    ControlMessage::BackOrScreenOn(BackOrScreenOn { action: 1 })
        .serialize_into(&mut out)
        .unwrap();
    ControlMessage::StartApp(StartApp { name: "ab".to_string() })
        .serialize_into(&mut out)
        .unwrap();
    ControlMessage::SetClipboard(SetClipboard {
        sequence: 0x0102,
        paste: true,
        text: "hé".to_string(),
    })
    .serialize_into(&mut out)
    .unwrap();
    assert_eq!(
        out,
        vec![
            4, 1, 16, 2, b'a', b'b', 9, 0, 0, 0, 0, 0, 0, 1, 2, 1, 0, 0, 0, 3, b'h', 0xC3, 0xA9
        ]
    );
}

/// The sizes of the writes in a log, with a zero for each flush.
fn shape(t: &MockTransport) -> Vec<usize> {
    t.log
        .iter()
        .map(|c| match c {
            MockCall::Write(data) | MockCall::RefusedWrite(data) => data.len(),
            MockCall::Flush | MockCall::RefusedFlush => 0,
        })
        .collect()
}

#[test]
fn a_batch_that_fills_the_buffer_is_flushed() {
    let data = [[0u8; GAMEPAD_FRAME_BYTES], [0u8; GAMEPAD_FRAME_BYTES]];
    let mut w = CoalescingWriter::with_limits(MockTransport::new(), 60_000_000_000, 40);
    assert_eq!(w.push_gamepad_input_batch(3, &data).unwrap(), FlushReason::Full);
    assert_eq!(w.pending_bytes(), 0);
    assert_eq!(w.written(), 40);
    let mut w = CoalescingWriter::with_limits(MockTransport::new(), 60_000_000_000, 41);
    assert_eq!(w.push_gamepad_input_batch(3, &data).unwrap(), FlushReason::Pending);
    assert_eq!(w.pending_bytes(), 40);
    let frames = [GamepadFrameRaw::neutral(), GamepadFrameRaw::neutral()];
    let mut w = CoalescingWriter::with_limits(MockTransport::new(), 60_000_000_000, 40);
    assert_eq!(
        w.push_gamepad_input_batch_from_fields(3, &frames).unwrap(),
        FlushReason::Full
    );
    assert_eq!(w.pending_bytes(), 0);
}

#[test]
fn an_elapsed_window_flushes_batches() {
    let data = [[1u8; GAMEPAD_FRAME_BYTES], [2u8; GAMEPAD_FRAME_BYTES]];
    let mut w = CoalescingWriter::with_limits(MockTransport::new(), 1_000, 4096);
    let r = w.push_gamepad_input_batch_at(3, &data, 999).unwrap();
    assert_eq!(r, FlushReason::Pending);
    let r = w.push_gamepad_input_batch_at(3, &data, 1_000).unwrap();
    assert_eq!(r, FlushReason::Window);
    assert_eq!(shape(&w.into_inner().unwrap()), vec![80, 0]);

    // Three reports on a limit of two leave one behind, for the window to decide.
    let three = [[0u8; GAMEPAD_FRAME_BYTES]; 3];
    let mut w = CoalescingWriter::with_limits(MockTransport::new(), 1_000, 40);
    let r = w.push_gamepad_input_batch_at(3, &three, 999).unwrap();
    assert_eq!(r, FlushReason::Full);
    assert_eq!(w.pending_bytes(), 20);
    let r = w.push_gamepad_input_batch_at(3, &data, 1_000).unwrap();
    assert_eq!(r, FlushReason::Window);
    assert_eq!(w.flushes(), 3);
    assert_eq!(shape(&w.into_inner().unwrap()), vec![40, 0, 40, 0, 20, 0]);

    let mut w = CoalescingWriter::with_limits(MockTransport::new(), 1_000, 4096);
    assert_eq!(w.push_gamepad_input_batch_at(3, &[], 5_000).unwrap(), FlushReason::Pending);
    assert_eq!(w.pushed(), 0);
    let r = w.push_gamepad_input_batch_at(3, &data[..1], 999).unwrap();
    assert_eq!(r, FlushReason::Pending);
    let r = w.push_gamepad_input_at(3, &data[1], 1_000).unwrap();
    assert_eq!(r, FlushReason::Window);
    let frame = GamepadFrameRaw::neutral();
    let r = w.push_gamepad_input_fields_at(3, &frame, 999).unwrap();
    assert_eq!(r, FlushReason::Pending);
    let r = w.push_uhid_input_at(3, 2, &[7, 8], 1_000).unwrap();
    assert_eq!(r, FlushReason::Window);
    assert_eq!(shape(&w.into_inner().unwrap()), vec![40, 0, 27, 0]);
}

#[test]
fn both_batch_forms_make_the_same_calls() {
    let frames: Vec<GamepadFrameRaw> = (0..33)
        .map(|i| GamepadFrameRaw::new(i as u32, i, -i, 2 * i, 3 * i, i, i))
        .collect();
    let packed: Vec<[u8; GAMEPAD_FRAME_BYTES]> = frames.iter().map(|f| f.pack()).collect();
    for limit in [0, 64, 660, 661] {
        let window = if limit == 0 { 0 } else { 1_000 };
        for elapsed in [999, 1_000] {
            let mut a = CoalescingWriter::with_limits(MockTransport::new(), window, limit);
            let mut b = CoalescingWriter::with_limits(MockTransport::new(), window, limit);
            let ra = a
                .push_gamepad_input_batch_from_fields_at(3, &frames, elapsed)
                .unwrap();
            let rb = b.push_gamepad_input_batch_at(3, &packed, elapsed).unwrap();
            assert_eq!(ra, rb);
            assert_eq!(a.pending_bytes(), b.pending_bytes());
            assert_eq!(a.written(), b.written());
            assert_eq!(a.flushes(), b.flushes());
            let (a, b) = (a.into_inner().unwrap(), b.into_inner().unwrap());
            assert_eq!(shape(&a), shape(&b));
            assert_eq!(a.into_bytes(), b.into_bytes());
        }
    }
}

#[test]
fn flushes_count_the_writes_of_the_transport() {
    let data = [[0u8; GAMEPAD_FRAME_BYTES]; 33];
    let mut w = CoalescingWriter::direct(MockTransport::new());
    assert_eq!(w.push_gamepad_input_batch(3, &data).unwrap(), FlushReason::Window);
    assert_eq!(w.flushes(), 2);
    w.push(&input_msg(1, 1)).unwrap();
    assert_eq!(w.flush_now().unwrap(), 0);
    assert_eq!(w.flushes(), 3);
    assert_eq!(shape(&w.into_inner().unwrap()), vec![640, 20, 0, 13, 0]);

    let mut w = CoalescingWriter::with_limits(MockTransport::new(), 60_000_000_000, 4096);
    w.push(&input_msg(1, 1)).unwrap();
    w.push(&input_msg(1, 2)).unwrap();
    w.push(&ControlMessage::UhidDestroy(UhidDestroy { id: 1 })).unwrap();
    w.push(&input_msg(1, 3)).unwrap();
    assert_eq!(w.flush_now().unwrap(), 13);
    assert_eq!(w.flush_now().unwrap(), 0);
    assert_eq!(w.flushes(), 3);
    assert_eq!(w.written(), 42);
    assert_eq!(shape(&w.into_inner().unwrap()), vec![26, 0, 3, 0, 13, 0]);
}

#[test]
fn transport_errors_come_back_and_lose_nothing() {
    let refused = |e: &Error| matches!(e, Error::SessionLifecycle("transport refused the call"));
    for calls in [MockRefusal::Writes, MockRefusal::Flushes] {
        let mut w =
            CoalescingWriter::with_limits(MockTransport::refusing(calls), 60_000_000_000, 4096);
        w.push(&input_msg(1, 1)).unwrap();
        assert!(refused(&w.flush_now().unwrap_err()));
        assert_eq!(w.pending_bytes(), 13);
        assert_eq!((w.pushed(), w.written(), w.flushes()), (1, 0, 0));
        let critical = ControlMessage::UhidDestroy(UhidDestroy { id: 1 });
        assert!(refused(&w.push(&critical).unwrap_err()));
        assert_eq!(w.pending_bytes(), 13);
        assert!(refused(&w.into_inner().unwrap_err()));

        let mut w = CoalescingWriter::direct(MockTransport::refusing(calls));
        let data = [[0u8; GAMEPAD_FRAME_BYTES]; 2];
        assert!(refused(&w.push_gamepad_input_batch(3, &data).unwrap_err()));
        assert!(refused(&w.push(&input_msg(1, 1)).unwrap_err()));
        assert_eq!((w.pushed(), w.written(), w.flushes()), (3, 0, 0));
        assert_eq!(w.pending_bytes(), 0);
        let log = w.into_inner().unwrap().log;
        match calls {
            MockRefusal::Writes => {
                assert!(matches!(&log[0], MockCall::RefusedWrite(b) if b.len() == 40));
                assert!(matches!(&log[1], MockCall::RefusedWrite(b) if b.len() == 13));
                assert_eq!(log.len(), 2);
            }
            MockRefusal::Flushes => {
                assert!(matches!(&log[0], MockCall::Write(b) if b.len() == 40));
                assert!(matches!(&log[1], MockCall::RefusedFlush));
                assert_eq!(log.len(), 4);
            }
        }
    }
}

#[test]
fn oversized_reports_leave_the_buffer_alone() {
    let data = [0u8; HID_MAX_SIZE];
    let size = HID_MAX_SIZE as u16 + 1;
    let msg = ControlMessage::UhidInput(UhidInput { id: 1, size, data });
    for limit in [0, 4096] {
        let window = if limit == 0 { 0 } else { 60_000_000_000 };
        let mut w = CoalescingWriter::with_limits(MockTransport::new(), window, limit);
        match w.push(&msg) {
            Err(Error::ControlMessageTooLarge { size: n, max }) => {
                assert_eq!((n, max), (HID_MAX_SIZE + 1, HID_MAX_SIZE + 5));
            }
            other => panic!("{other:?}"),
        }
        assert_eq!((w.pending_bytes(), w.written(), w.flushes()), (0, 0, 0));
        assert_eq!(w.pushed(), 1);
        assert!(w.into_inner().unwrap().log.is_empty());
    }
}

#[test]
fn every_write_starts_the_window_anew() {
    let window = std::time::Duration::from_millis(300);
    let mut w = CoalescingWriter::with_limits(MockTransport::new(), 300_000_000, 4096);
    let start = std::time::Instant::now();
    while start.elapsed() <= window {}
    assert_eq!(w.push(&input_msg(1, 1)).unwrap(), FlushReason::Window);
    assert_eq!(w.push(&input_msg(1, 2)).unwrap(), FlushReason::Pending);
    let start = std::time::Instant::now();
    while start.elapsed() <= window {}
    // Nothing to write starts the window anew as well.
    w.flush_now().unwrap();
    let start = std::time::Instant::now();
    while start.elapsed() <= window {}
    assert_eq!(w.flush_now().unwrap(), 0);
    assert_eq!(w.push(&input_msg(1, 3)).unwrap(), FlushReason::Pending);
    assert_eq!(shape(&w.into_inner().unwrap()), vec![13, 0, 13, 0, 13, 0]);
}

#[test]
fn refused_messages_are_counted() {
    let mut w = CoalescingWriter::with_limits(MockTransport::new(), 60_000_000_000, 4096);
    assert!(w.push_uhid_input(1, 3, &[7, 8]).is_err());
    w.push_uhid_input(1, 2, &[7, 8]).unwrap();
    w.push_gamepad_input_batch(1, &[[0u8; GAMEPAD_FRAME_BYTES]; 3]).unwrap();
    let data = [0u8; HID_MAX_SIZE];
    let size = HID_MAX_SIZE as u16 + 1;
    assert!(w.push(&ControlMessage::UhidInput(UhidInput { id: 1, size, data })).is_err());
    assert_eq!(w.pushed(), 6);
    assert_eq!(w.flush_now().unwrap(), 67);
    assert_eq!(w.written() as usize + w.pending_bytes(), 67);
}
