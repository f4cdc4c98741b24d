//! Commands that clients and batchers queue.
use android_hid_connect::batch::{AndroidKeyFrameBatcher, KeyboardFrameBatcher, MouseFrameBatcher, ScrollFrameBatcher, TouchFrameBatcher};
use android_hid_connect::client::HidClient;
use android_hid_connect::coalesce::DIRECT_GAMEPAD_BATCH_FRAMES;
use android_hid_connect::command::HidCommand;
use android_hid_connect::error::Error;
use android_hid_connect::frames::{AndroidKeyFrame, KeyboardChordFrame, KeyboardFrame, MouseFrame, ScrollFrame, TouchFrame, ANDROID_KEY_BATCH_FRAMES, KEYBOARD_BATCH_FRAMES, KEYBOARD_CHORD_KEYS, MOUSE_BATCH_FRAMES, SCROLL_BATCH_FRAMES, TOUCH_BATCH_FRAMES};
use android_hid_connect::gamepad::{GamepadFrameRaw, GAMEPAD_FRAME_BYTES};
use android_hid_connect::gamepad_batch::{GamepadFrameBatcher, PackedGamepadFrameBatcher};
use android_hid_connect::types::{AndroidKeyAction, AndroidKeycode, ClipboardCopyKey, GamepadAxis, GamepadButton, Modifiers, MouseButton, Scancode, TouchAction, TouchPointerId};

#[test]
fn gamepad_frame_batcher_fixed_try_push_stays_safe_when_channel_full() {
    let mut client = HidClient::with_bound(1);
    let mut batcher = GamepadFrameBatcher::dedupe(2);

    assert!(batcher
        .try_push(&mut client, GamepadFrameRaw::new(1, 0, 0, 0, 0, 0, 0))
        .is_ok());
    assert!(batcher
        .try_push(&mut client, GamepadFrameRaw::new(1, 0, 0, 0, 0, 0, 0))
        .is_ok());
    assert!(batcher
        .try_push(&mut client, GamepadFrameRaw::new(1, 0, 0, 0, 0, 0, 0))
        .is_ok());
    assert!(batcher
        .try_push(&mut client, GamepadFrameRaw::new(1, 0, 0, 0, 0, 0, 0))
        .is_err());

    let overflow_err = batcher
        .try_push(&mut client, GamepadFrameRaw::new(1, 0, 0, 0, 0, 0, 0))
        .unwrap_err();
    assert!(matches!(overflow_err, Error::SessionLifecycle(_)));
}

#[test]
fn packed_gamepad_frame_batcher_fixed_try_push_stays_safe_when_channel_full() {
    let mut client = HidClient::with_bound(1);
    let mut batcher = PackedGamepadFrameBatcher::new(2);
    let frame = [1u8; GAMEPAD_FRAME_BYTES];

    assert!(batcher.try_push(&mut client, frame).is_ok());
    assert!(batcher.try_push(&mut client, frame).is_ok());
    assert!(batcher.try_push(&mut client, frame).is_ok());
    assert!(batcher.try_push(&mut client, frame).is_err());

    let overflow_err = batcher.try_push(&mut client, frame).unwrap_err();
    assert!(matches!(overflow_err, Error::SessionLifecycle(_)));
}

#[test]
fn batcher_drop_is_non_blocking_when_channel_full() {
    let mut client = HidClient::with_bound(1);

    {
        let mut batcher = GamepadFrameBatcher::dedupe(2);
        let frame = GamepadFrameRaw::new(1, 0, 0, 0, 0, 0, 0);
        assert!(batcher.try_push(&mut client, frame).is_ok());
        assert!(batcher.try_push(&mut client, frame).is_ok());
        assert!(batcher.try_push(&mut client, frame).is_ok());
        assert!(batcher.try_push(&mut client, frame).is_err());
        // Whoever gives a batcher up flushes it without blocking.
        assert!(batcher.try_flush(&mut client).is_err());
    }

    {
        let mut batcher = PackedGamepadFrameBatcher::new(2);
        let frame = [1u8; GAMEPAD_FRAME_BYTES];
        assert!(batcher.try_push(&mut client, frame).is_ok());
        let _ = batcher.try_push(&mut client, frame);
        assert!(batcher.try_flush(&mut client).is_err());
    }
    assert_eq!(client.queued(), 1);
}

#[test]
fn vector_backed_batcher_flush_restores_frames_when_channel_disconnected() {
    let mut client = HidClient::with_bound(1);
    client.disconnect();
    let batch_size = DIRECT_GAMEPAD_BATCH_FRAMES + 8;

    let mut batcher = GamepadFrameBatcher::dedupe(batch_size);
    let raw_frames = [
        GamepadFrameRaw::new(1, 2, 3, 4, 5, 6, 7),
        GamepadFrameRaw::new(2, 3, 4, 5, 6, 7, 8),
    ];
    batcher.push_many_slice(&mut client, &raw_frames).unwrap();
    let err = batcher.flush(&mut client).unwrap_err();
    assert!(matches!(err, Error::DispatcherDown("channel disconnected")));
    assert_eq!(batcher.len(), raw_frames.len());

    let mut packed_batcher = PackedGamepadFrameBatcher::new(batch_size);
    let packed_frames = [[1u8; GAMEPAD_FRAME_BYTES], [2u8; GAMEPAD_FRAME_BYTES]];
    packed_batcher.push_many_slice(&mut client, &packed_frames).unwrap();
    let err = packed_batcher.flush(&mut client).unwrap_err();
    assert!(matches!(err, Error::DispatcherDown("channel disconnected")));
    assert_eq!(packed_batcher.len(), packed_frames.len());
}

#[test]
fn vector_backed_batcher_try_flush_restores_frames_when_channel_full() {
    let mut client = HidClient::with_bound(1);
    client.try_flush().unwrap();
    let batch_size = DIRECT_GAMEPAD_BATCH_FRAMES + 8;

    let mut batcher = GamepadFrameBatcher::unchecked(batch_size);
    let raw_frames = [
        GamepadFrameRaw::new(1, 2, 3, 4, 5, 6, 7),
        GamepadFrameRaw::new(2, 3, 4, 5, 6, 7, 8),
    ];
    batcher.push_many_slice(&mut client, &raw_frames).unwrap();
    let err = batcher.try_flush(&mut client).unwrap_err();
    assert!(matches!(err, Error::SessionLifecycle(_)));
    assert_eq!(batcher.len(), raw_frames.len());

    let mut packed_batcher = PackedGamepadFrameBatcher::new(batch_size);
    let packed_frames = [[1u8; GAMEPAD_FRAME_BYTES], [2u8; GAMEPAD_FRAME_BYTES]];
    packed_batcher.push_many_slice(&mut client, &packed_frames).unwrap();
    let err = packed_batcher.try_flush(&mut client).unwrap_err();
    assert!(matches!(err, Error::SessionLifecycle(_)));
    assert_eq!(packed_batcher.len(), packed_frames.len());
}

#[test]
fn send_frame_batch_len_one_uses_single_cmd() {
    let mut client = HidClient::with_bound(2);
    let frame = GamepadFrameRaw::new(0x0001, 10, 20, 30, 40, 50, 60);

    client.send_frame_batch(vec![frame]).unwrap();
    match client.take_command().unwrap() {
        HidCommand::GamepadFrameRaw {
            buttons,
            left_x,
            left_y,
            right_x,
            right_y,
            left_trigger,
            right_trigger,
        } => {
            assert_eq!(buttons, frame.buttons);
            assert_eq!(left_x, frame.left_x);
            assert_eq!(left_y, frame.left_y);
            assert_eq!(right_x, frame.right_x);
            assert_eq!(right_y, frame.right_y);
            assert_eq!(left_trigger, frame.left_trigger);
            assert_eq!(right_trigger, frame.right_trigger);
        }
        other => panic!("expected GamepadFrameRaw command, got {other:?}"),
    }
}

#[test]
fn send_frame_batch_unchecked_len_one_uses_single_cmd() {
    let mut client = HidClient::with_bound(2);
    let frame = GamepadFrameRaw::new(0x0002, 11, 21, 31, 41, 51, 61);

    client.send_frame_batch_unchecked(vec![frame]).unwrap();
    match client.take_command().unwrap() {
        HidCommand::GamepadFrameRawUnchecked(cmd_frame) => {
            assert_eq!(cmd_frame, frame);
        }
        other => panic!("expected GamepadFrameRawUnchecked command, got {other:?}"),
    }
}

#[test]
fn send_frame_packed_batch_len_one_uses_single_cmd() {
    let mut client = HidClient::with_bound(2);
    let frame = [0xABu8; GAMEPAD_FRAME_BYTES];

    client.send_frame_packed_batch(vec![frame]).unwrap();
    match client.take_command().unwrap() {
        HidCommand::GamepadPackedFrame(cmd_frame) => assert_eq!(cmd_frame, frame),
        other => panic!("expected GamepadPackedFrame command, got {other:?}"),
    }
}

#[test]
fn try_send_frame_batch_len_one_uses_single_cmd() {
    let mut client = HidClient::with_bound(2);
    let frame = GamepadFrameRaw::new(0x0003, 12, 22, 32, 42, 52, 62);

    client.try_send_frame_batch(vec![frame]).unwrap();
    match client.take_command().unwrap() {
        HidCommand::GamepadFrameRaw {
            buttons,
            left_x,
            left_y,
            right_x,
            right_y,
            left_trigger,
            right_trigger,
        } => {
            assert_eq!(buttons, frame.buttons);
            assert_eq!(left_x, frame.left_x);
            assert_eq!(left_y, frame.left_y);
            assert_eq!(right_x, frame.right_x);
            assert_eq!(right_y, frame.right_y);
            assert_eq!(left_trigger, frame.left_trigger);
            assert_eq!(right_trigger, frame.right_trigger);
        }
        other => panic!("expected GamepadFrameRaw command, got {other:?}"),
    }
}

#[test]
fn try_send_frame_packed_batch_len_one_uses_single_cmd() {
    let mut client = HidClient::with_bound(2);
    let frame = [0xCDu8; GAMEPAD_FRAME_BYTES];

    client.try_send_frame_packed_batch(vec![frame]).unwrap();
    match client.take_command().unwrap() {
        HidCommand::GamepadPackedFrame(cmd_frame) => assert_eq!(cmd_frame, frame),
        other => panic!("expected GamepadPackedFrame command, got {other:?}"),
    }
}

#[test]
fn gamepad_frame_batcher_flush_single_frame_uses_single_cmd() {
    let mut client = HidClient::with_bound(2);
    let mut batcher = GamepadFrameBatcher::dedupe(4);
    let frame = GamepadFrameRaw::new(0x0001, 10, 20, 30, 40, 50, 60);

    batcher.push(&mut client, frame).unwrap();
    batcher.flush(&mut client).unwrap();

    match client.take_command().unwrap() {
        HidCommand::GamepadFrameRaw {
            buttons,
            left_x,
            left_y,
            right_x,
            right_y,
            left_trigger,
            right_trigger,
        } => {
            assert_eq!(buttons, frame.buttons);
            assert_eq!(left_x, frame.left_x);
            assert_eq!(left_y, frame.left_y);
            assert_eq!(right_x, frame.right_x);
            assert_eq!(right_y, frame.right_y);
            assert_eq!(left_trigger, frame.left_trigger);
            assert_eq!(right_trigger, frame.right_trigger);
        }
        other => panic!("expected GamepadFrameRaw command, got {other:?}"),
    }
}

#[test]
fn packed_gamepad_frame_batcher_flush_single_frame_uses_single_cmd() {
    let mut client = HidClient::with_bound(2);
    let mut batcher = PackedGamepadFrameBatcher::new(4);
    let frame = [1u8; GAMEPAD_FRAME_BYTES];

    batcher.push(&mut client, frame).unwrap();
    batcher.flush(&mut client).unwrap();

    match client.take_command().unwrap() {
        HidCommand::GamepadPackedFrame(cmd_frame) => assert_eq!(cmd_frame, frame),
        other => panic!("expected GamepadPackedFrame command, got {other:?}"),
    }
}

#[test]
fn send_gamepad_input_shortcuts_use_expected_commands() {
    let mut client = HidClient::with_bound(4);

    client.send_button(GamepadButton::South, true).unwrap();
    match client.take_command().unwrap() {
        HidCommand::GamepadButton {
            btn: GamepadButton::South,
            pressed: true,
        } => {}
        other => panic!("expected GamepadButton command, got {other:?}"),
    }

    let expected_buttons = GamepadButton::South.value();
    client.send_buttons(expected_buttons).unwrap();
    match client.take_command().unwrap() {
        HidCommand::GamepadButtons {
            buttons: _expected_buttons,
        } => {}
        other => panic!("expected GamepadButtons command, got {other:?}"),
    }

    client.send_stick_raw(GamepadAxis::LeftX, 123).unwrap();
    match client.take_command().unwrap() {
        HidCommand::GamepadStickRaw {
            axis: GamepadAxis::LeftX,
            value: 123,
        } => {}
        other => panic!("expected GamepadStickRaw command, got {other:?}"),
    }

    client.send_sticks_raw(1, 2, 3, 4, 5, 6).unwrap();
    match client.take_command().unwrap() {
        HidCommand::GamepadSticksRaw {
            left_x: 1,
            left_y: 2,
            right_x: 3,
            right_y: 4,
            left_trigger: 5,
            right_trigger: 6,
        } => {}
        other => panic!("expected GamepadSticksRaw command, got {other:?}"),
    }
}

#[test]
fn try_send_gamepad_input_shortcuts_use_expected_commands() {
    let mut client = HidClient::with_bound(4);

    client.try_send_left_stick_raw(7, -7).unwrap();
    match client.take_command().unwrap() {
        HidCommand::GamepadLeftStickRaw { x: 7, y: -7 } => {}
        other => panic!("expected GamepadLeftStickRaw command, got {other:?}"),
    }

    client.try_send_right_stick_raw(-8, 8).unwrap();
    match client.take_command().unwrap() {
        HidCommand::GamepadRightStickRaw { x: -8, y: 8 } => {}
        other => panic!("expected GamepadRightStickRaw command, got {other:?}"),
    }

    client.try_send_stick(GamepadAxis::RightY, 0.25f32.to_bits()).unwrap();
    match client.take_command().unwrap() {
        HidCommand::GamepadStick {
            axis: GamepadAxis::RightY,
            value,
        } => assert_eq!(value, 0.25f32.to_bits()),
        other => panic!("expected GamepadStick command, got {other:?}"),
    }
}

#[test]
fn strict_text_shortcuts_use_expected_commands() {
    let mut client = HidClient::with_bound(2);

    client.type_text_strict("ok".to_string()).unwrap();
    client.try_type_text_strict("still ok".to_string()).unwrap();

    match client.take_command().unwrap() {
        HidCommand::TypeTextStrict(text) => assert_eq!(text, "ok"),
        other => panic!("expected TypeTextStrict command, got {other:?}"),
    }
    match client.take_command().unwrap() {
        HidCommand::TypeTextStrict(text) => assert_eq!(text, "still ok"),
        other => panic!("expected TypeTextStrict command, got {other:?}"),
    }
}

#[test]
fn keyboard_shortcuts_use_expected_commands() {
    let mut client = HidClient::with_bound(4);

    client.key(0x04, true, Modifiers::lshift()).unwrap();
    client
        .try_key_scancode(Scancode::B, false, Modifiers::empty())
        .unwrap();
    client
        .tap_scancode(Scancode::Enter, Modifiers::empty())
        .unwrap();
    client.try_tap_key(0x05, Modifiers::lctrl()).unwrap();

    match client.take_command().unwrap() {
        HidCommand::Key {
            scancode: 0x04,
            pressed: true,
            mods: Modifiers { bits: 0x02 },
        } => {}
        other => panic!("expected Key command, got {other:?}"),
    }
    match client.take_command().unwrap() {
        HidCommand::Key {
            scancode,
            pressed: false,
            mods,
        } => {
            assert_eq!(scancode, Scancode::B.to_u8());
            assert_eq!(mods, Modifiers::empty());
        }
        other => panic!("expected Key command, got {other:?}"),
    }
    match client.take_command().unwrap() {
        HidCommand::KeyTap { scancode, mods } => {
            assert_eq!(scancode, Scancode::Enter.to_u8());
            assert_eq!(mods, Modifiers::empty());
        }
        other => panic!("expected KeyTap command, got {other:?}"),
    }
    match client.take_command().unwrap() {
        HidCommand::KeyTap {
            scancode: 0x05,
            mods: Modifiers { bits: 0x01 },
        } => {}
        other => panic!("expected KeyTap command, got {other:?}"),
    }
}

#[test]
fn keyboard_batch_fixed_uses_expected_commands() {
    let mut client = HidClient::with_bound(2);
    let mut frames = [KeyboardFrame::empty(); KEYBOARD_BATCH_FRAMES];
    frames[0] = KeyboardFrame::scancode_down(Scancode::A, Modifiers::lshift());
    frames[1] = KeyboardFrame::scancode_up(Scancode::A);

    client.send_key_batch_fixed(2, frames).unwrap();
    client.try_send_key_batch_fixed(1, frames).unwrap();

    match client.take_command().unwrap() {
        HidCommand::KeyBatchFixed { len, frames } => {
            assert_eq!(len, 2);
            assert_eq!(
                frames[0],
                KeyboardFrame::scancode_down(Scancode::A, Modifiers::lshift())
            );
            assert_eq!(frames[1], KeyboardFrame::scancode_up(Scancode::A));
        }
        other => panic!("expected KeyBatchFixed command, got {other:?}"),
    }
    match client.take_command().unwrap() {
        HidCommand::Key {
            scancode,
            pressed: true,
            mods,
        } => {
            assert_eq!(scancode, Scancode::A.to_u8());
            assert_eq!(mods, Modifiers::lshift());
        }
        other => panic!("expected single Key command, got {other:?}"),
    }
}

#[test]
fn keyboard_chord_frame_expands_to_ordered_edges() {
    let chord = KeyboardChordFrame::try_scancodes(
        &[Scancode::K, Scancode::C],
        Modifiers::lctrl().union(Modifiers::lshift()),
    )
    .unwrap();

    let (frames, len) = chord.edge_frames().unwrap();

    assert_eq!(len, 4);
    assert_eq!(
        frames[..len],
        [
            KeyboardFrame::scancode_down(Scancode::K, Modifiers::lctrl().union(Modifiers::lshift())),
            KeyboardFrame::scancode_down(Scancode::C, Modifiers::lctrl().union(Modifiers::lshift())),
            KeyboardFrame::new(
                Scancode::C.to_u8(),
                false,
                Modifiers::lctrl().union(Modifiers::lshift())
            ),
            KeyboardFrame::scancode_up(Scancode::K),
        ]
    );
}

#[test]
fn keyboard_chord_helpers_use_expected_command() {
    let mut client = HidClient::with_bound(2);

    client
        .scancode_chord(&[Scancode::C], Modifiers::lctrl())
        .unwrap();
    client
        .try_key_chord(KeyboardChordFrame::scancode(Scancode::V, Modifiers::lctrl()))
        .unwrap();

    match client.take_command().unwrap() {
        HidCommand::KeyBatchFixed { len, frames } => {
            assert_eq!(len, 2);
            assert_eq!(
                frames[0],
                KeyboardFrame::scancode_down(Scancode::C, Modifiers::lctrl())
            );
            assert_eq!(frames[1], KeyboardFrame::scancode_up(Scancode::C));
        }
        other => panic!("expected KeyBatchFixed command, got {other:?}"),
    }
    match client.take_command().unwrap() {
        HidCommand::KeyBatchFixed { len, frames } => {
            assert_eq!(len, 2);
            assert_eq!(
                frames[0],
                KeyboardFrame::scancode_down(Scancode::V, Modifiers::lctrl())
            );
            assert_eq!(frames[1], KeyboardFrame::scancode_up(Scancode::V));
        }
        other => panic!("expected KeyBatchFixed command, got {other:?}"),
    }
}

#[test]
fn keyboard_chord_rejects_malformed_fixed_length() {
    let chord = KeyboardChordFrame::new(
        (KEYBOARD_CHORD_KEYS + 1) as u8,
        [Scancode::A.to_u8(); KEYBOARD_CHORD_KEYS],
        Modifiers::lctrl(),
    );

    assert!(matches!(
        chord.edge_frames(),
        Err(Error::SessionLifecycle("keyboard chord length overflow"))
    ));
    let mut client = HidClient::with_bound(1);
    assert!(matches!(
        client.key_chord(chord),
        Err(Error::SessionLifecycle("keyboard chord length overflow"))
    ));
}

#[test]
fn keyboard_frame_batcher_flushes_at_fixed_capacity() {
    let mut client = HidClient::with_bound(2);
    let mut batcher = KeyboardFrameBatcher::new();

    for _ in 0..KEYBOARD_BATCH_FRAMES {
        batcher
            .key_scancode(&mut client, Scancode::A, true, Modifiers::empty())
            .unwrap();
    }
    assert_eq!(batcher.len(), KEYBOARD_BATCH_FRAMES);
    assert!(
        client.take_command().is_none(),
        "batcher should not flush before capacity is exceeded"
    );

    batcher
        .key_scancode(&mut client, Scancode::B, true, Modifiers::empty())
        .unwrap();
    assert_eq!(batcher.len(), 1);
    batcher.flush(&mut client).unwrap();

    match client.take_command().unwrap() {
        HidCommand::KeyBatchFixed { len, frames } => {
            assert_eq!(len as usize, KEYBOARD_BATCH_FRAMES);
            assert_eq!(
                frames[KEYBOARD_BATCH_FRAMES - 1].scancode,
                Scancode::A.to_u8()
            );
        }
        other => panic!("expected KeyBatchFixed command, got {other:?}"),
    }
    match client.take_command().unwrap() {
        HidCommand::Key {
            scancode,
            pressed: true,
            mods,
        } => {
            assert_eq!(scancode, Scancode::B.to_u8());
            assert_eq!(mods, Modifiers::empty());
        }
        other => panic!("expected single Key command, got {other:?}"),
    }
}

#[test]
fn keyboard_frame_batcher_try_push_many_slice_keeps_batch_on_backpressure() {
    let mut client = HidClient::with_bound(1);
    let mut batcher = KeyboardFrameBatcher::new();
    let frames: Vec<_> = (0..KEYBOARD_BATCH_FRAMES)
        .map(|_| KeyboardFrame::scancode_down(Scancode::A, Modifiers::empty()))
        .collect();

    batcher.try_push_many_slice(&mut client, &frames).unwrap();
    assert_eq!(batcher.len(), 0);
    let queued = client.take_command().unwrap();
    let HidCommand::KeyBatchFixed { len, .. } = queued else {
        panic!("expected first fixed keyboard batch");
    };
    assert_eq!(len as usize, KEYBOARD_BATCH_FRAMES);

    batcher.try_push_many_slice(&mut client, &frames).unwrap();
    assert_eq!(batcher.len(), 0);
    let err = batcher.try_push_many_slice(&mut client, &frames).unwrap_err();
    assert!(matches!(
        err,
        Error::SessionLifecycle("channel full (back-pressure)")
    ));
    assert_eq!(batcher.len(), KEYBOARD_BATCH_FRAMES);
}

#[test]
fn mouse_shortcuts_use_expected_commands() {
    let mut client = HidClient::with_bound(8);

    client
        .mouse_motion_buttons(10, -5, &[MouseButton::Left, MouseButton::X1])
        .unwrap();
    client.mouse_button_state(&[MouseButton::Right]).unwrap();
    client.mouse_scroll(0.0f32.to_bits(), 2.0f32.to_bits()).unwrap();
    let mut frames = [MouseFrame::empty(); MOUSE_BATCH_FRAMES];
    frames[0] = MouseFrame::motion(1, 2, MouseButton::Left.value());
    frames[1] = MouseFrame::buttons(MouseButton::Middle.value());
    client.send_mouse_batch_fixed(2, frames).unwrap();

    match client.take_command().unwrap() {
        HidCommand::MouseMotion { dx, dy, buttons } => {
            assert_eq!((dx, dy), (10, -5));
            assert_eq!(buttons, MouseButton::Left.value() | MouseButton::X1.value());
        }
        other => panic!("expected MouseMotion command, got {other:?}"),
    }
    match client.take_command().unwrap() {
        HidCommand::MouseButtons { buttons } => {
            assert_eq!(buttons, MouseButton::Right.value());
        }
        other => panic!("expected MouseButtons command, got {other:?}"),
    }
    match client.take_command().unwrap() {
        HidCommand::MouseScroll { hscroll, vscroll } => {
            assert_eq!((hscroll, vscroll), (0.0f32.to_bits(), 2.0f32.to_bits()));
        }
        other => panic!("expected MouseScroll command, got {other:?}"),
    }
    match client.take_command().unwrap() {
        HidCommand::MouseBatchFixed { len, frames } => {
            assert_eq!(len, 2);
            assert_eq!(frames[0].dx, 1);
            assert_eq!(frames[1].buttons, MouseButton::Middle.value());
        }
        other => panic!("expected MouseBatchFixed command, got {other:?}"),
    }
}

#[test]
fn mouse_batch_rejects_oversized_len() {
    let mut client = HidClient::with_bound(1);
    let err = client
        .send_mouse_batch_fixed(
            MOUSE_BATCH_FRAMES + 1,
            [MouseFrame::empty(); MOUSE_BATCH_FRAMES],
        )
        .unwrap_err();
    assert!(matches!(err, Error::SessionLifecycle(_)));
}

#[test]
fn mouse_frame_batcher_flushes_at_fixed_capacity() {
    let mut client = HidClient::with_bound(2);
    let mut batcher = MouseFrameBatcher::new();

    for i in 0..MOUSE_BATCH_FRAMES {
        batcher.motion(&mut client, i as i32, -(i as i32), 0).unwrap();
    }
    assert_eq!(batcher.len(), MOUSE_BATCH_FRAMES);
    assert!(
        client.take_command().is_none(),
        "batcher should not flush before capacity is exceeded"
    );

    batcher
        .motion_buttons(&mut client, 
            MOUSE_BATCH_FRAMES as i32,
            1,
            &[MouseButton::Left, MouseButton::Right],
        )
        .unwrap();
    assert_eq!(batcher.len(), 1);
    batcher.flush(&mut client).unwrap();

    match client.take_command().unwrap() {
        HidCommand::MouseBatchFixed { len, frames } => {
            assert_eq!(len as usize, MOUSE_BATCH_FRAMES);
            assert_eq!(
                frames[MOUSE_BATCH_FRAMES - 1].dx,
                MOUSE_BATCH_FRAMES as i32 - 1
            );
            assert_eq!(
                frames[MOUSE_BATCH_FRAMES - 1].dy,
                -(MOUSE_BATCH_FRAMES as i32 - 1)
            );
        }
        other => panic!("expected MouseBatchFixed command, got {other:?}"),
    }
    match client.take_command().unwrap() {
        HidCommand::MouseMotion { dx, dy, buttons } => {
            assert_eq!((dx, dy), (MOUSE_BATCH_FRAMES as i32, 1));
            assert_eq!(buttons, MouseButton::Left.value() | MouseButton::Right.value());
        }
        other => panic!("expected single MouseMotion command, got {other:?}"),
    }
}

#[test]
fn mouse_frame_batcher_push_many_slice_splits_at_capacity() {
    let mut client = HidClient::with_bound(2);
    let mut batcher = MouseFrameBatcher::new();
    let frames: Vec<_> = (0..MOUSE_BATCH_FRAMES + 2)
        .map(|i| MouseFrame::motion(i as i32, 0, 0))
        .collect();

    batcher.push_many_slice(&mut client, &frames).unwrap();
    assert_eq!(batcher.len(), 2);
    batcher.flush(&mut client).unwrap();

    match client.take_command().unwrap() {
        HidCommand::MouseBatchFixed { len, frames } => {
            assert_eq!(len as usize, MOUSE_BATCH_FRAMES);
            assert_eq!(
                frames[MOUSE_BATCH_FRAMES - 1].dx,
                MOUSE_BATCH_FRAMES as i32 - 1
            );
        }
        other => panic!("expected MouseBatchFixed command, got {other:?}"),
    }
    match client.take_command().unwrap() {
        HidCommand::MouseBatchFixed { len, frames } => {
            assert_eq!(len, 2);
            assert_eq!(frames[0].dx, MOUSE_BATCH_FRAMES as i32);
            assert_eq!(frames[1].dx, MOUSE_BATCH_FRAMES as i32 + 1);
        }
        other => panic!("expected MouseBatchFixed command, got {other:?}"),
    }
}

#[test]
fn mouse_frame_batcher_try_push_many_slice_keeps_batch_on_backpressure() {
    let mut client = HidClient::with_bound(1);
    let mut batcher = MouseFrameBatcher::new();
    let frames: Vec<_> = (0..MOUSE_BATCH_FRAMES)
        .map(|i| MouseFrame::motion(i as i32, 0, MouseButton::Left.value()))
        .collect();

    batcher.try_push_many_slice(&mut client, &frames).unwrap();
    assert_eq!(batcher.len(), 0);
    let queued = client.take_command().unwrap();
    let HidCommand::MouseBatchFixed { len, .. } = queued else {
        panic!("expected first fixed mouse batch");
    };
    assert_eq!(len as usize, MOUSE_BATCH_FRAMES);

    batcher.try_push_many_slice(&mut client, &frames).unwrap();
    assert_eq!(batcher.len(), 0);
    let err = batcher.try_push_many_slice(&mut client, &frames).unwrap_err();
    assert!(matches!(
        err,
        Error::SessionLifecycle("channel full (back-pressure)")
    ));
    assert_eq!(batcher.len(), MOUSE_BATCH_FRAMES);
}

#[test]
fn mouse_frame_batcher_try_helpers_use_expected_command() {
    let mut client = HidClient::with_bound(1);
    let mut batcher = MouseFrameBatcher::new();

    batcher
        .try_motion_buttons(&mut client, 1, -1, &[MouseButton::Left])
        .unwrap();
    batcher.try_buttons(&mut client, MouseButton::Middle.value()).unwrap();
    batcher.try_button_state(&mut client, &[MouseButton::X2]).unwrap();
    batcher.try_flush(&mut client).unwrap();

    match client.take_command().unwrap() {
        HidCommand::MouseBatchFixed { len, frames } => {
            assert_eq!(len, 3);
            assert_eq!(
                frames[0],
                MouseFrame::motion(1, -1, MouseButton::Left.value())
            );
            assert_eq!(frames[1], MouseFrame::buttons(MouseButton::Middle.value()));
            assert_eq!(frames[2], MouseFrame::buttons(MouseButton::X2.value()));
        }
        other => panic!("expected MouseBatchFixed command, got {other:?}"),
    }
}

#[test]
fn android_intent_shortcuts_use_expected_commands() {
    let mut client = HidClient::with_bound(32);

    client.press_home().unwrap();
    client.press_back().unwrap();
    client.open_recents().unwrap();
    client.volume_up().unwrap();
    client.press_android_key(AndroidKeycode::POWER).unwrap();
    client.try_inject_keycode(1, 66, 2, 3).unwrap();
    client.try_press_android_key(AndroidKeycode::ENTER).unwrap();
    client
        .inject_android_key_event(AndroidKeyAction::UP, AndroidKeycode::MENU, 4, 5)
        .unwrap();
    client
        .try_release_android_key(AndroidKeycode::POWER)
        .unwrap();
    client.back_or_screen_on(AndroidKeyAction::UP).unwrap();
    client
        .try_back_or_screen_on(AndroidKeyAction::DOWN)
        .unwrap();
    client
        .try_scroll_with_buttons(100, 200, 8.0f32.to_bits(), (-16.0f32).to_bits(), 0x11)
        .unwrap();
    client.set_screen_power(false).unwrap();
    client.show_notifications().unwrap();
    client.show_quick_settings().unwrap();
    client.collapse_panels().unwrap();
    client.rotate_device().unwrap();
    client.resize_display(720, 1280).unwrap();
    client.set_torch(true).unwrap();
    client.camera_zoom_in().unwrap();
    client.camera_zoom_out().unwrap();
    client.open_hard_keyboard_settings().unwrap();
    client.reset_video().unwrap();
    client.launch_app("com.android.settings".to_string()).unwrap();
    client.set_clipboard("text".to_string(), false).unwrap();
    client.set_clipboard_sequenced(9, "paste".to_string(), true).unwrap();

    match client.take_command().unwrap() {
        HidCommand::InjectKeycode {
            action: 0,
            keycode: 3,
            repeat: 0,
            metastate: 0,
        } => {}
        other => panic!("expected Home InjectKeycode command, got {other:?}"),
    }
    match client.take_command().unwrap() {
        HidCommand::InjectKeycode {
            action: 0,
            keycode: 4,
            repeat: 0,
            metastate: 0,
        } => {}
        other => panic!("expected Back InjectKeycode command, got {other:?}"),
    }
    match client.take_command().unwrap() {
        HidCommand::InjectKeycode {
            action: 0,
            keycode: 187,
            repeat: 0,
            metastate: 0,
        } => {}
        other => panic!("expected Recents InjectKeycode command, got {other:?}"),
    }
    match client.take_command().unwrap() {
        HidCommand::InjectKeycode {
            action: 0,
            keycode: 24,
            repeat: 0,
            metastate: 0,
        } => {}
        other => panic!("expected VolumeUp InjectKeycode command, got {other:?}"),
    }
    match client.take_command().unwrap() {
        HidCommand::InjectKeycode {
            action: 0,
            keycode: 26,
            repeat: 0,
            metastate: 0,
        } => {}
        other => panic!("expected Power InjectKeycode command, got {other:?}"),
    }
    match client.take_command().unwrap() {
        HidCommand::InjectKeycode {
            action: 1,
            keycode: 66,
            repeat: 2,
            metastate: 3,
        } => {}
        other => panic!("expected custom InjectKeycode command, got {other:?}"),
    }
    match client.take_command().unwrap() {
        HidCommand::InjectKeycode {
            action: 0,
            keycode: 66,
            repeat: 0,
            metastate: 0,
        } => {}
        other => panic!("expected Enter InjectKeycode command, got {other:?}"),
    }
    match client.take_command().unwrap() {
        HidCommand::InjectKeycode {
            action: 1,
            keycode: 82,
            repeat: 4,
            metastate: 5,
        } => {}
        other => panic!("expected Menu release InjectKeycode command, got {other:?}"),
    }
    match client.take_command().unwrap() {
        HidCommand::InjectKeycode {
            action: 1,
            keycode: 26,
            repeat: 0,
            metastate: 0,
        } => {}
        other => panic!("expected Power release InjectKeycode command, got {other:?}"),
    }
    match client.take_command().unwrap() {
        HidCommand::BackOrScreenOn { action: 1 } => {}
        other => panic!("expected BackOrScreenOn UP command, got {other:?}"),
    }
    match client.take_command().unwrap() {
        HidCommand::BackOrScreenOn { action: 0 } => {}
        other => panic!("expected BackOrScreenOn DOWN command, got {other:?}"),
    }
    match client.take_command().unwrap() {
        HidCommand::InjectScroll {
            x: 100,
            y: 200,
            hscroll,
            vscroll,
            buttons: 0x11,
        } => {
            assert_eq!(hscroll, 8.0f32.to_bits());
            assert_eq!(vscroll, (-16.0f32).to_bits());
        }
        other => panic!("expected InjectScroll command, got {other:?}"),
    }
    assert!(matches!(
        client.take_command().unwrap(),
        HidCommand::SetScreenPower { on: false }
    ));
    assert!(matches!(
        client.take_command().unwrap(),
        HidCommand::ShowNotifications
    ));
    assert!(matches!(
        client.take_command().unwrap(),
        HidCommand::ShowQuickSettings
    ));
    assert!(matches!(client.take_command().unwrap(), HidCommand::CollapsePanels));
    assert!(matches!(client.take_command().unwrap(), HidCommand::RotateDevice));
    assert!(matches!(
        client.take_command().unwrap(),
        HidCommand::ResizeDisplay {
            width: 720,
            height: 1280
        }
    ));
    assert!(matches!(
        client.take_command().unwrap(),
        HidCommand::SetTorch { on: true }
    ));
    assert!(matches!(client.take_command().unwrap(), HidCommand::CameraZoomIn));
    assert!(matches!(client.take_command().unwrap(), HidCommand::CameraZoomOut));
    assert!(matches!(
        client.take_command().unwrap(),
        HidCommand::OpenHardKeyboardSettings
    ));
    assert!(matches!(client.take_command().unwrap(), HidCommand::ResetVideo));
    assert!(matches!(
        client.take_command().unwrap(),
        HidCommand::LaunchApp { name } if name == "com.android.settings"
    ));
    assert!(matches!(
        client.take_command().unwrap(),
        HidCommand::SetClipboard { text, paste: false } if text == "text"
    ));
    assert!(matches!(
        client.take_command().unwrap(),
        HidCommand::SetClipboardSequenced {
            sequence: 9,
            text,
            paste: true
        } if text == "paste"
    ));
}

#[test]
fn android_key_tap_shortcuts_use_single_command() {
    let mut client = HidClient::with_bound(3);

    client.tap_android_key(AndroidKeycode::ENTER).unwrap();
    client
        .tap_android_key_with_metastate(AndroidKeycode::MENU, 0x41)
        .unwrap();
    client.try_tap_android_keycode(26, 0x80).unwrap();

    match client.take_command().unwrap() {
        HidCommand::AndroidKeyTap {
            keycode: 66,
            metastate: 0,
        } => {}
        other => panic!("expected Enter AndroidKeyTap command, got {other:?}"),
    }
    match client.take_command().unwrap() {
        HidCommand::AndroidKeyTap {
            keycode: 82,
            metastate: 0x41,
        } => {}
        other => panic!("expected Menu AndroidKeyTap command, got {other:?}"),
    }
    match client.take_command().unwrap() {
        HidCommand::AndroidKeyTap {
            keycode: 26,
            metastate: 0x80,
        } => {}
        other => panic!("expected Power AndroidKeyTap command, got {other:?}"),
    }
}

#[test]
fn android_key_batch_fixed_uses_expected_commands() {
    let mut client = HidClient::with_bound(2);
    let mut frames = [AndroidKeyFrame::empty(); ANDROID_KEY_BATCH_FRAMES];
    frames[0] = AndroidKeyFrame::typed(AndroidKeyAction::DOWN, AndroidKeycode::ENTER, 0, 3);
    frames[1] = AndroidKeyFrame::typed(AndroidKeyAction::UP, AndroidKeycode::ENTER, 0, 3);

    client.send_android_key_batch_fixed(2, frames).unwrap();
    client.try_send_android_key_batch_fixed(1, frames).unwrap();

    match client.take_command().unwrap() {
        HidCommand::AndroidKeyBatchFixed { len, frames } => {
            assert_eq!(len, 2);
            assert_eq!(
                frames[0],
                AndroidKeyFrame::typed(AndroidKeyAction::DOWN, AndroidKeycode::ENTER, 0, 3)
            );
            assert_eq!(
                frames[1],
                AndroidKeyFrame::typed(AndroidKeyAction::UP, AndroidKeycode::ENTER, 0, 3)
            );
        }
        other => panic!("expected AndroidKeyBatchFixed command, got {other:?}"),
    }
    match client.take_command().unwrap() {
        HidCommand::InjectKeycode {
            action: 0,
            keycode: 66,
            repeat: 0,
            metastate: 3,
        } => {}
        other => panic!("expected single InjectKeycode command, got {other:?}"),
    }
}

#[test]
fn android_key_frame_batcher_flushes_at_fixed_capacity() {
    let mut client = HidClient::with_bound(2);
    let mut batcher = AndroidKeyFrameBatcher::new();

    for _ in 0..ANDROID_KEY_BATCH_FRAMES {
        batcher
            .key_event(&mut client, AndroidKeyAction::DOWN, AndroidKeycode::ENTER, 0, 0)
            .unwrap();
    }
    assert_eq!(batcher.len(), ANDROID_KEY_BATCH_FRAMES);
    assert!(
        client.take_command().is_none(),
        "batcher should not flush before capacity is exceeded"
    );

    batcher
        .key_event(&mut client, AndroidKeyAction::DOWN, AndroidKeycode::MENU, 0, 0)
        .unwrap();
    assert_eq!(batcher.len(), 1);
    batcher.flush(&mut client).unwrap();

    match client.take_command().unwrap() {
        HidCommand::AndroidKeyBatchFixed { len, frames } => {
            assert_eq!(len as usize, ANDROID_KEY_BATCH_FRAMES);
            assert_eq!(frames[ANDROID_KEY_BATCH_FRAMES - 1].keycode, 66);
        }
        other => panic!("expected AndroidKeyBatchFixed command, got {other:?}"),
    }
    match client.take_command().unwrap() {
        HidCommand::InjectKeycode {
            action: 0,
            keycode: 82,
            repeat: 0,
            metastate: 0,
        } => {}
        other => panic!("expected single InjectKeycode command, got {other:?}"),
    }
}

#[test]
fn android_key_frame_batcher_try_push_many_slice_keeps_batch_on_backpressure() {
    let mut client = HidClient::with_bound(1);
    let mut batcher = AndroidKeyFrameBatcher::new();
    let frames: Vec<_> = (0..ANDROID_KEY_BATCH_FRAMES)
        .map(|_| AndroidKeyFrame::down(AndroidKeycode::ENTER, 0))
        .collect();

    batcher.try_push_many_slice(&mut client, &frames).unwrap();
    assert_eq!(batcher.len(), 0);
    let queued = client.take_command().unwrap();
    let HidCommand::AndroidKeyBatchFixed { len, .. } = queued else {
        panic!("expected first fixed Android key batch");
    };
    assert_eq!(len as usize, ANDROID_KEY_BATCH_FRAMES);

    batcher.try_push_many_slice(&mut client, &frames).unwrap();
    assert_eq!(batcher.len(), 0);
    let err = batcher.try_push_many_slice(&mut client, &frames).unwrap_err();
    assert!(matches!(
        err,
        Error::SessionLifecycle("channel full (back-pressure)")
    ));
    assert_eq!(batcher.len(), ANDROID_KEY_BATCH_FRAMES);
}

#[test]
fn scroll_batch_fixed_uses_expected_commands() {
    let mut client = HidClient::with_bound(2);
    let mut frames = [ScrollFrame::empty(); SCROLL_BATCH_FRAMES];
    frames[0] = ScrollFrame::new(100, 200, 8.0f32.to_bits(), (-16.0f32).to_bits(), 0x11);
    frames[1] = ScrollFrame::scroll(300, 400, 0.0f32.to_bits(), 16.0f32.to_bits());

    client.send_scroll_batch_fixed(2, frames).unwrap();
    client.try_send_scroll_batch_fixed(1, frames).unwrap();

    match client.take_command().unwrap() {
        HidCommand::InjectScrollBatchFixed { len, frames } => {
            assert_eq!(len, 2);
            assert_eq!(frames[0], ScrollFrame::new(100, 200, 8.0f32.to_bits(), (-16.0f32).to_bits(), 0x11));
            assert_eq!(frames[1], ScrollFrame::scroll(300, 400, 0.0f32.to_bits(), 16.0f32.to_bits()));
        }
        other => panic!("expected InjectScrollBatchFixed command, got {other:?}"),
    }
    match client.take_command().unwrap() {
        HidCommand::InjectScroll {
            x: 100,
            y: 200,
            hscroll,
            vscroll,
            buttons: 0x11,
        } => {
            assert_eq!(hscroll, 8.0f32.to_bits());
            assert_eq!(vscroll, (-16.0f32).to_bits());
        }
        other => panic!("expected single InjectScroll command, got {other:?}"),
    }
}

#[test]
fn scroll_frame_batcher_flushes_at_fixed_capacity() {
    let mut client = HidClient::with_bound(2);
    let mut batcher = ScrollFrameBatcher::new();

    for i in 0..SCROLL_BATCH_FRAMES {
        batcher
            .scroll(&mut client, i as i32, -(i as i32), 0.0f32.to_bits(), (i as f32).to_bits())
            .unwrap();
    }
    assert_eq!(batcher.len(), SCROLL_BATCH_FRAMES);
    assert!(
        client.take_command().is_none(),
        "batcher should not flush before capacity is exceeded"
    );

    batcher
        .scroll_with_buttons(&mut client, 99, 88, 1.0f32.to_bits(), (-1.0f32).to_bits(), 0x11)
        .unwrap();
    assert_eq!(batcher.len(), 1);
    batcher.flush(&mut client).unwrap();

    match client.take_command().unwrap() {
        HidCommand::InjectScrollBatchFixed { len, frames } => {
            assert_eq!(len as usize, SCROLL_BATCH_FRAMES);
            assert_eq!(
                frames[SCROLL_BATCH_FRAMES - 1].x,
                SCROLL_BATCH_FRAMES as i32 - 1
            );
            assert_eq!(
                frames[SCROLL_BATCH_FRAMES - 1].y,
                -(SCROLL_BATCH_FRAMES as i32 - 1)
            );
        }
        other => panic!("expected InjectScrollBatchFixed command, got {other:?}"),
    }
    match client.take_command().unwrap() {
        HidCommand::InjectScroll {
            x: 99,
            y: 88,
            hscroll,
            vscroll,
            buttons: 0x11,
        } => {
            assert_eq!(hscroll, 1.0f32.to_bits());
            assert_eq!(vscroll, (-1.0f32).to_bits());
        }
        other => panic!("expected single InjectScroll command, got {other:?}"),
    }
}

#[test]
fn scroll_frame_batcher_try_push_many_slice_keeps_batch_on_backpressure() {
    let mut client = HidClient::with_bound(1);
    let mut batcher = ScrollFrameBatcher::new();
    let frames: Vec<_> = (0..SCROLL_BATCH_FRAMES)
        .map(|i| ScrollFrame::scroll(i as i32, 0, 0.0f32.to_bits(), 1.0f32.to_bits()))
        .collect();

    batcher.try_push_many_slice(&mut client, &frames).unwrap();
    assert_eq!(batcher.len(), 0);
    let queued = client.take_command().unwrap();
    let HidCommand::InjectScrollBatchFixed { len, .. } = queued else {
        panic!("expected first fixed scroll batch");
    };
    assert_eq!(len as usize, SCROLL_BATCH_FRAMES);

    batcher.try_push_many_slice(&mut client, &frames).unwrap();
    assert_eq!(batcher.len(), 0);
    let err = batcher.try_push_many_slice(&mut client, &frames).unwrap_err();
    assert!(matches!(
        err,
        Error::SessionLifecycle("channel full (back-pressure)")
    ));
    assert_eq!(batcher.len(), SCROLL_BATCH_FRAMES);
}

#[test]
fn screen_size_shortcuts_use_expected_commands() {
    let mut client = HidClient::with_bound(2);

    client.set_screen_size(1440, 3120).unwrap();
    client.try_set_screen_size(1080, 2400).unwrap();

    match client.take_command().unwrap() {
        HidCommand::SetScreenSize {
            width: 1440,
            height: 3120,
        } => {}
        other => panic!("expected SetScreenSize command, got {other:?}"),
    }
    match client.take_command().unwrap() {
        HidCommand::SetScreenSize {
            width: 1080,
            height: 2400,
        } => {}
        other => panic!("expected SetScreenSize command, got {other:?}"),
    }
}

#[test]
fn try_flush_wait_reports_backpressure_without_blocking() {
    let mut client = HidClient::with_bound(1);

    client.try_flush().unwrap();
    let err = client.try_flush_wait().unwrap_err();

    assert!(matches!(
        err,
        Error::SessionLifecycle("channel full (back-pressure)")
    ));
}

#[test]
fn flush_command_round_trip() {
    let mut client = HidClient::with_bound(2);

    client.flush().unwrap();
    client.try_flush().unwrap();

    assert!(matches!(client.take_command().unwrap(), HidCommand::Flush));
    assert!(matches!(client.take_command().unwrap(), HidCommand::Flush));
}

#[test]
fn clipboard_request_helpers_are_request_only_commands() {
    let mut client = HidClient::with_bound(4);

    client.request_clipboard(1).unwrap();
    client.try_request_clipboard(2).unwrap();
    client
        .request_clipboard_key(ClipboardCopyKey::NONE)
        .unwrap();
    client
        .try_request_clipboard_key(ClipboardCopyKey::COPY)
        .unwrap();

    match client.take_command().unwrap() {
        HidCommand::GetClipboard { copy_key: 1 } => {}
        other => panic!("expected GetClipboard copy_key=1, got {other:?}"),
    }
    match client.take_command().unwrap() {
        HidCommand::GetClipboard { copy_key: 2 } => {}
        other => panic!("expected GetClipboard copy_key=2, got {other:?}"),
    }
    match client.take_command().unwrap() {
        HidCommand::GetClipboard { copy_key: 0 } => {}
        other => panic!("expected GetClipboard copy_key=0, got {other:?}"),
    }
    match client.take_command().unwrap() {
        HidCommand::GetClipboard { copy_key: 1 } => {}
        other => panic!("expected GetClipboard copy_key=1, got {other:?}"),
    }
}

#[test]
fn ai_extension_shortcuts_use_expected_commands() {
    let mut client = HidClient::with_bound(6);

    client.configure_ai(0x1f, 16, 64).unwrap();
    client.try_configure_ai(0x07, 8, 0).unwrap();
    client.query_ai(0x0102_0304_0506_0708).unwrap();
    client.try_query_ai(9).unwrap();
    client.pause_ai().unwrap();
    client.try_pause_ai().unwrap();

    assert!(matches!(
        client.take_command().unwrap(),
        HidCommand::AiConfig {
            flags: 0x1f,
            sample_interval_ms: 16,
            feature_dim: 64
        }
    ));
    assert!(matches!(
        client.take_command().unwrap(),
        HidCommand::AiConfig {
            flags: 0x07,
            sample_interval_ms: 8,
            feature_dim: 0
        }
    ));
    assert!(matches!(
        client.take_command().unwrap(),
        HidCommand::AiQuery {
            since_timestamp_ms: 0x0102_0304_0506_0708
        }
    ));
    assert!(matches!(
        client.take_command().unwrap(),
        HidCommand::AiQuery {
            since_timestamp_ms: 9
        }
    ));
    assert!(matches!(client.take_command().unwrap(), HidCommand::AiPause));
    assert!(matches!(client.take_command().unwrap(), HidCommand::AiPause));
}

#[test]
fn touch_batch_fixed_rejects_oversized_len() {
    let mut client = HidClient::with_bound(1);
    let frames = [TouchFrame::empty(); TOUCH_BATCH_FRAMES];
    let err = client
        .send_touch_batch_fixed(TOUCH_BATCH_FRAMES + 1, frames)
        .unwrap_err();

    assert!(matches!(err, Error::SessionLifecycle(_)));
}

#[test]
fn touch_frame_batcher_flushes_at_fixed_capacity() {
    let mut client = HidClient::with_bound(2);
    let mut batcher = TouchFrameBatcher::new();

    for i in 0..TOUCH_BATCH_FRAMES {
        batcher.move_to(&mut client, 0, i as i32, 0, 1.0f32.to_bits()).unwrap();
    }
    assert_eq!(batcher.len(), TOUCH_BATCH_FRAMES);
    assert!(
        client.take_command().is_none(),
        "batcher should not flush before capacity is exceeded"
    );

    batcher
        .move_to(&mut client, 0, TOUCH_BATCH_FRAMES as i32, 0, 1.0f32.to_bits())
        .unwrap();
    assert_eq!(batcher.len(), 1);
    batcher.flush(&mut client).unwrap();

    match client.take_command().unwrap() {
        HidCommand::TouchBatchFixed { len, frames } => {
            assert_eq!(len as usize, TOUCH_BATCH_FRAMES);
            assert_eq!(
                frames[TOUCH_BATCH_FRAMES - 1].x,
                TOUCH_BATCH_FRAMES as i32 - 1
            );
        }
        other => panic!("expected TouchBatchFixed command, got {other:?}"),
    }
    match client.take_command().unwrap() {
        HidCommand::TouchBatchFixed { len, frames } => {
            assert_eq!(len, 1);
            assert_eq!(frames[0].x, TOUCH_BATCH_FRAMES as i32);
        }
        other => panic!("expected TouchBatchFixed command, got {other:?}"),
    }
}

#[test]
fn touch_pointer_id_helpers_preserve_scrcpy_reserved_ids_in_batches() {
    let mut client = HidClient::with_bound(1);
    let pointer = TouchPointerId::GENERIC_FINGER;
    let mut batcher = TouchFrameBatcher::new();

    batcher.down_pointer(&mut client, pointer, 10, 20, 1.0f32.to_bits()).unwrap();
    batcher.move_pointer_to(&mut client, pointer, 15, 25, 0.5f32.to_bits()).unwrap();
    batcher.up_pointer(&mut client, pointer, 15, 25).unwrap();
    batcher.cancel_pointer(&mut client, pointer).unwrap();
    batcher.flush(&mut client).unwrap();

    match client.take_command().unwrap() {
        HidCommand::TouchBatchFixed { len, frames } => {
            assert_eq!(len, 4);
            assert_eq!(
                frames[0],
                TouchFrame::with_pointer(TouchAction::DOWN, pointer, 10, 20, 1.0f32.to_bits())
            );
            assert_eq!(frames[1].pointer_id, pointer.value());
            assert_eq!(frames[2].pointer_id, pointer.value());
            assert_eq!(frames[3].pointer_id, pointer.value());
            assert_eq!(frames[3].action, TouchAction::CANCEL.value());
        }
        other => panic!("expected TouchBatchFixed command, got {other:?}"),
    }
}

#[test]
fn touch_frame_batcher_push_many_slice_splits_at_capacity() {
    let mut client = HidClient::with_bound(2);
    let mut batcher = TouchFrameBatcher::new();
    let frames: Vec<_> = (0..TOUCH_BATCH_FRAMES + 2)
        .map(|i| TouchFrame::with_action(TouchAction::MOVE, 0, i as i32, 0, 1.0f32.to_bits()))
        .collect();

    batcher.push_many_slice(&mut client, &frames).unwrap();
    assert_eq!(batcher.len(), 2);
    batcher.flush(&mut client).unwrap();

    match client.take_command().unwrap() {
        HidCommand::TouchBatchFixed { len, frames } => {
            assert_eq!(len as usize, TOUCH_BATCH_FRAMES);
            assert_eq!(
                frames[TOUCH_BATCH_FRAMES - 1].x,
                TOUCH_BATCH_FRAMES as i32 - 1
            );
        }
        other => panic!("expected TouchBatchFixed command, got {other:?}"),
    }
    match client.take_command().unwrap() {
        HidCommand::TouchBatchFixed { len, frames } => {
            assert_eq!(len, 2);
            assert_eq!(frames[0].x, TOUCH_BATCH_FRAMES as i32);
            assert_eq!(frames[1].x, TOUCH_BATCH_FRAMES as i32 + 1);
        }
        other => panic!("expected TouchBatchFixed command, got {other:?}"),
    }
}

#[test]
fn touch_frame_batcher_try_push_many_slice_keeps_batch_on_backpressure() {
    let mut client = HidClient::with_bound(1);
    let mut batcher = TouchFrameBatcher::new();
    let frames: Vec<_> = (0..TOUCH_BATCH_FRAMES)
        .map(|i| TouchFrame::with_action(TouchAction::MOVE, 1, i as i32, 0, 1.0f32.to_bits()))
        .collect();

    batcher.try_push_many_slice(&mut client, &frames).unwrap();
    assert_eq!(batcher.len(), 0);
    let queued = client.take_command().unwrap();
    let HidCommand::TouchBatchFixed { len, .. } = queued else {
        panic!("expected first fixed touch batch");
    };
    assert_eq!(len as usize, TOUCH_BATCH_FRAMES);

    batcher.try_push_many_slice(&mut client, &frames).unwrap();
    assert_eq!(batcher.len(), 0);
    let err = batcher.try_push_many_slice(&mut client, &frames).unwrap_err();
    assert!(matches!(
        err,
        Error::SessionLifecycle("channel full (back-pressure)")
    ));
    assert_eq!(batcher.len(), TOUCH_BATCH_FRAMES);
}

#[test]
fn touch_frame_batcher_try_helpers_use_expected_command() {
    let mut client = HidClient::with_bound(1);
    let mut batcher = TouchFrameBatcher::new();

    batcher.try_down(&mut client, 7, 10, 20, 1.0f32.to_bits()).unwrap();
    batcher.try_move_to(&mut client, 7, 30, 40, 0.5f32.to_bits()).unwrap();
    batcher.try_up(&mut client, 7, 50, 60).unwrap();
    batcher.try_cancel(&mut client, 7).unwrap();
    batcher.try_flush(&mut client).unwrap();

    match client.take_command().unwrap() {
        HidCommand::TouchBatchFixed { len, frames } => {
            assert_eq!(len, 4);
            assert_eq!(frames[0].action, TouchAction::DOWN.value());
            assert_eq!(frames[1].action, TouchAction::MOVE.value());
            assert_eq!(frames[2].action, TouchAction::UP.value());
            assert_eq!(frames[3].action, TouchAction::CANCEL.value());
            assert_eq!(frames[0].pointer_id, 7);
            assert_eq!(frames[2].x, 50);
            assert_eq!(frames[2].y, 60);
            assert_eq!(frames[3].pointer_id, 7);
            assert_eq!(frames[3].pressure, 0.0f32.to_bits());
        }
        other => panic!("expected TouchBatchFixed command, got {other:?}"),
    }
}

#[test]
fn pushing_in_turn_keeps_a_full_batch_until_the_next_frame() {
    let mut client = HidClient::new();
    let mut batcher = client.touch_frame_batcher();
    let frames: Vec<TouchFrame> = (0..2 * TOUCH_BATCH_FRAMES as i32)
        .map(|i| TouchFrame::new(2, 0, i, 0, 0))
        .collect();
    batcher.push_many(&mut client, &frames).unwrap();
    assert_eq!(batcher.len(), TOUCH_BATCH_FRAMES);
    assert_eq!(client.queued(), 1);
    batcher.flush(&mut client).unwrap();
    assert!(batcher.is_empty());
    let mut seen = Vec::new();
    while let Some(HidCommand::TouchBatchFixed { len, frames }) = client.take_command() {
        seen.extend_from_slice(&frames[..len as usize]);
    }
    assert_eq!(seen, frames);
}

#[test]
fn pushing_in_turn_stops_at_a_refusal() {
    let mut client = HidClient::with_bound(1);
    let mut batcher = GamepadFrameBatcher::unchecked(2);
    let frames: Vec<GamepadFrameRaw> = (0..6)
        .map(|i| GamepadFrameRaw::new(i, 0, 0, 0, 0, 0, 0))
        .collect();
    assert!(matches!(
        batcher.try_push_many(&mut client, &frames),
        Err(Error::SessionLifecycle("channel full (back-pressure)"))
    ));
    assert_eq!(batcher.len(), 2);
    match client.take_command().unwrap() {
        HidCommand::GamepadFrameRawBatchFixedUnchecked { len, frames: slots } => {
            assert_eq!(len, 2);
            assert_eq!(&slots[..2], &frames[..2]);
        }
        other => panic!("expected an unchecked batch, got {other:?}"),
    }
    batcher.try_flush(&mut client).unwrap();
    assert!(batcher.is_empty());
}

#[test]
fn queues_are_first_in_first_out() {
    let mut client = HidClient::with_bound(2);
    client.press_home().unwrap();
    client.press_back().unwrap();
    client.press_home().unwrap();
    assert_eq!(client.queued(), 3);
    assert!(!client.has_room());
    assert!(matches!(
        client.try_flush(),
        Err(Error::SessionLifecycle("channel full (back-pressure)"))
    ));
    let codes: Vec<u32> = (0..3)
        .map(|_| match client.take_command().unwrap() {
            HidCommand::InjectKeycode { keycode, .. } => keycode,
            other => panic!("expected a key, got {other:?}"),
        })
        .collect();
    assert_eq!(codes, vec![3, 4, 3]);
    client.disconnect();
    assert!(!client.is_connected());
    assert!(matches!(
        client.flush(),
        Err(Error::DispatcherDown("channel disconnected"))
    ));
}

#[test]
fn chords_over_named_keys_are_checked() {
    let mut client = HidClient::new();
    assert!(matches!(
        client.scancode_chord(&[Scancode::A; KEYBOARD_CHORD_KEYS + 1], Modifiers::lctrl()),
        Err(Error::SessionLifecycle("keyboard chord too large"))
    ));
    assert!(matches!(
        client.scancode_chord(&[Scancode::LeftCtrl], Modifiers::empty()),
        Err(Error::SessionLifecycle(
            "keyboard chord keys must be non-modifier scancodes"
        ))
    ));
    assert_eq!(client.queued(), 0);
}

#[test]
fn plain_sends_past_the_bound_wait_for_their_place() {
    let mut client = HidClient::with_bound(1);
    client.send(HidCommand::Flush).unwrap();
    assert!(matches!(client.blocked_send(), Some(Ok(()))));
    client.send(HidCommand::Flush).unwrap();
    client.send(HidCommand::Close).unwrap();
    assert!(client.blocked_send().is_none());
    client.take_command();
    assert!(client.blocked_send().is_none());
    client.take_command();
    assert!(matches!(client.blocked_send(), Some(Ok(()))));
    client.send(HidCommand::Close).unwrap();
    client.disconnect();
    assert!(matches!(
        client.blocked_send(),
        Some(Err(Error::DispatcherDown("channel disconnected")))
    ));
}

#[test]
fn a_bound_of_zero_hands_over_to_a_waiting_dispatcher() {
    let mut client = HidClient::with_bound(0);
    assert!(!client.has_room());
    assert!(matches!(
        client.try_send(HidCommand::Flush),
        Err(Error::SessionLifecycle("channel full (back-pressure)"))
    ));
    client.await_command();
    assert!(client.has_room());
    client.try_send(HidCommand::Flush).unwrap();
    assert!(client.try_send(HidCommand::Flush).is_err());
    assert!(client.blocked_send().is_none());
    assert!(matches!(client.take_command(), Some(HidCommand::Flush)));
    assert!(matches!(client.blocked_send(), Some(Ok(()))));
    assert!(!client.has_room());
    client.send(HidCommand::Close).unwrap();
    assert!(client.blocked_send().is_none());
}

#[test]
fn pressures_and_deltas_compare_as_numbers() {
    let touch = |pressure: f32| TouchFrame::new(0, 1, 10, 20, pressure.to_bits());
    assert_eq!(touch(0.5), touch(0.5));
    assert_eq!(touch(0.0), touch(-0.0));
    assert_ne!(touch(f32::NAN), touch(f32::NAN));
    assert_ne!(touch(0.5), TouchFrame::new(0, 2, 10, 20, 0.5f32.to_bits()));
    let scroll = |h: f32, v: f32| ScrollFrame::new(1, 2, h.to_bits(), v.to_bits(), 0);
    assert_eq!(scroll(0.0, -0.0), scroll(-0.0, 0.0));
    assert_ne!(scroll(f32::NAN, 0.0), scroll(f32::NAN, 0.0));
    assert_ne!(scroll(1.0, 0.0), scroll(0.0, 1.0));
}
