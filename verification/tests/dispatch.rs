//! Commands on their way through the dispatcher.
use android_hid_connect::batch::{
    AndroidKeyFrameBatcher, MouseFrameBatcher, ScrollFrameBatcher, TouchFrameBatcher,
};
use android_hid_connect::client::{flush_outcome, HidClient};
use android_hid_connect::command::HidCommand;
use android_hid_connect::dispatch::{
    record_first_error, DispatchRun, FlushReply, HidDispatcher, SessionCall,
};
use android_hid_connect::error::{Error, Result};
use android_hid_connect::frames::{
    KeyboardFrame, TouchFrame, KEYBOARD_BATCH_FRAMES, MOUSE_BATCH_FRAMES, SCROLL_BATCH_FRAMES,
    TOUCH_BATCH_FRAMES,
};
use android_hid_connect::gestures::swipe_steps;
use android_hid_connect::types::{
    AndroidKeyAction, AndroidKeycode, GamepadButton, Modifiers, MouseButton, Scancode,
    TouchPointerId,
};

/// Runs every queued command; what the session would do is up to `perform`.
fn drive(
    client: &mut HidClient,
    mut perform: impl FnMut(&SessionCall) -> Result<usize>,
) -> (Vec<FlushReply>, bool) {
    let mut dispatcher = HidDispatcher::new();
    let mut replies = Vec::new();
    while let Some(command) = client.take_command() {
        assert!(command.is_well_formed());
        let mut run = DispatchRun::begin(command);
        while let Some(call) = run.current() {
            let result = perform(call);
            if let Some(reply) = dispatcher.complete(&mut run, result) {
                replies.push(reply);
            }
        }
        if run.stops() {
            return (replies, true);
        }
    }
    (replies, false)
}

fn touches(client: &mut HidClient) -> usize {
    let mut n = 0;
    drive(client, |call| {
        if matches!(
            call,
            SessionCall::InjectTouch { .. } | SessionCall::InjectTouchAction { .. }
        ) {
            n += 1;
        }
        Ok(0)
    });
    n
}

fn reply_of(replies: Vec<FlushReply>, ticket: u64) -> Result<usize> {
    flush_outcome(
        replies
            .into_iter()
            .find(|r| r.ticket == ticket)
            .map(|r| r.result),
    )
}

fn without_gamepad(call: &SessionCall, touches: &mut usize) -> Result<usize> {
    match call {
        SessionCall::SetButton { .. } => Err(Error::SessionLifecycle("gamepad not open")),
        SessionCall::InjectTouchAction { .. } => {
            *touches += 1;
            Ok(0)
        }
        _ => Ok(0),
    }
}

fn touch_down() -> HidCommand {
    HidCommand::MultitouchDown { id: 0, x: 10, y: 20, pressure: 1.0f32.to_bits() }
}

#[test]
fn flush_wait_acknowledges_prior_dispatch_work() {
    let mut client = HidClient::new();
    client.send(touch_down()).unwrap();
    let ticket = client.flush_wait().unwrap();
    client.close();
    let mut n = 0;
    let (replies, closed) = drive(&mut client, |call| without_gamepad(call, &mut n));
    reply_of(replies, ticket).unwrap();
    assert!(closed);
    assert_eq!(n, 1);
}

#[test]
fn try_flush_wait_acknowledges_prior_dispatch_work() {
    let mut client = HidClient::new();
    client.send(touch_down()).unwrap();
    let ticket = client.try_flush_wait().unwrap();
    client.close();
    let mut n = 0;
    let (replies, closed) = drive(&mut client, |call| without_gamepad(call, &mut n));
    reply_of(replies, ticket).unwrap();
    assert!(closed);
    assert_eq!(n, 1);
}

#[test]
fn flush_wait_surfaces_prior_command_error_once() {
    let mut client = HidClient::new();
    client.send_button(GamepadButton::South, true).unwrap();
    client.send(touch_down()).unwrap();
    let first = client.flush_wait().unwrap();
    let second = client.flush_wait().unwrap();
    client.close();
    let mut n = 0;
    let (mut replies, _) = drive(&mut client, |call| without_gamepad(call, &mut n));
    let later = replies.split_off(1);
    let err = reply_of(replies, first).unwrap_err();
    assert!(matches!(err, Error::SessionLifecycle("gamepad not open")));
    assert_eq!(reply_of(later, second).unwrap(), 0);
    assert_eq!(n, 1);
}

#[test]
fn try_flush_wait_surfaces_prior_command_error_once() {
    let mut client = HidClient::new();
    client.send_button(GamepadButton::South, true).unwrap();
    client.send(touch_down()).unwrap();
    let first = client.try_flush_wait().unwrap();
    let second = client.try_flush_wait().unwrap();
    client.close();
    let mut n = 0;
    let (mut replies, _) = drive(&mut client, |call| without_gamepad(call, &mut n));
    let later = replies.split_off(1);
    let err = reply_of(replies, first).unwrap_err();
    assert!(matches!(err, Error::SessionLifecycle("gamepad not open")));
    assert_eq!(reply_of(later, second).unwrap(), 0);
    assert_eq!(n, 1);
}

#[test]
fn close_wait_reports_prior_error_and_still_closes() {
    let mut client = HidClient::new();
    client.send_button(GamepadButton::South, true).unwrap();
    client.send(touch_down()).unwrap();
    let ticket = client.close_wait().unwrap();
    let mut n = 0;
    let (replies, closed) = drive(&mut client, |call| without_gamepad(call, &mut n));
    assert!(!closed);
    let flush = reply_of(replies, ticket);
    let err = client.close_wait_end(flush).unwrap_err();
    assert!(matches!(err, Error::SessionLifecycle("gamepad not open")));
    let (_, closed) = drive(&mut client, |call| without_gamepad(call, &mut n));
    assert!(closed);
    assert_eq!(n, 1);
}

#[test]
fn commands_sent_before_a_checked_close_ends_are_run() {
    let mut client = HidClient::new();
    let ticket = client.close_wait().unwrap();
    client.send(touch_down()).unwrap();
    let mut n = 0;
    let (replies, closed) = drive(&mut client, |call| without_gamepad(call, &mut n));
    assert!(!closed);
    assert_eq!(n, 1);
    client.send(touch_down()).unwrap();
    client.close_wait_end(reply_of(replies, ticket)).unwrap();
    client.send(touch_down()).unwrap();
    let (_, closed) = drive(&mut client, |call| without_gamepad(call, &mut n));
    assert!(closed);
    assert_eq!(n, 2);

    client.disconnect();
    assert!(matches!(
        client.close_wait(),
        Err(Error::DispatcherDown("channel disconnected"))
    ));
}

#[test]
fn a_lost_dispatcher_answers_with_an_error() {
    assert!(matches!(flush_outcome(None), Err(Error::DispatcherDown(_))));
    assert_eq!(flush_outcome(Some(Ok(3))).unwrap(), 3);
}

#[test]
fn a_failing_flush_is_reported_by_the_next_one() {
    let mut client = HidClient::new();
    client.send_button(GamepadButton::South, true).unwrap();
    let first = client.flush_wait().unwrap();
    let second = client.flush_wait().unwrap();
    let third = client.flush_wait().unwrap();
    let mut flushes = 0;
    let (replies, _) = drive(&mut client, |call| match call {
        SessionCall::FlushNow => {
            flushes += 1;
            if flushes == 1 {
                Err(Error::Transport("gone".to_string()))
            } else {
                Ok(7)
            }
        }
        _ => Err(Error::SessionLifecycle("gamepad not open")),
    });
    let mut results = replies.into_iter();
    let a = results.next().unwrap();
    assert_eq!(a.ticket, first);
    assert!(matches!(a.result, Err(Error::SessionLifecycle(_))));
    let b = results.next().unwrap();
    assert_eq!(b.ticket, second);
    assert!(matches!(b.result, Err(Error::Transport(_))));
    let c = results.next().unwrap();
    assert_eq!(c.ticket, third);
    assert_eq!(c.result.unwrap(), 7);
}

#[test]
fn the_first_error_is_kept() {
    let mut pending = None;
    record_first_error(&mut pending, Ok(1));
    assert!(pending.is_none());
    record_first_error::<()>(&mut pending, Err(Error::DispatcherDown("a")));
    record_first_error::<()>(&mut pending, Err(Error::DispatcherDown("b")));
    assert!(matches!(pending, Some(Error::DispatcherDown("a"))));
}

#[test]
fn gesture_helpers_dispatch_expected_touch_frames() {
    let mut client = HidClient::new();
    client.tap(10, 20).unwrap();
    client.double_tap(30, 40).unwrap();
    client
        .swipe((0, 0), (30, 60), &[(10, 20), (20, 40), (30, 60)])
        .unwrap();
    client.long_press(50, 60).unwrap();
    client
        .long_press_release(TouchPointerId::finger(0), 50, 60)
        .unwrap();
    client.three_finger_screenshot(1080, 2400).unwrap();
    client.close();
    assert_eq!(touches(&mut client), 2 + 4 + 5 + 2 + 36);
}

#[test]
fn gestures_put_frames_where_they_belong() {
    assert_eq!(swipe_steps(0), 1);
    assert_eq!(swipe_steps(9), 9);
    let mut client = HidClient::new();
    client.three_finger_screenshot(1080, 2400).unwrap();
    let mut points = Vec::new();
    drive(&mut client, |call| {
        if let SessionCall::InjectTouch { action, id, x, y, .. } = call {
            points.push((*action, *id, *x, *y));
        }
        Ok(0)
    });
    assert_eq!(points[0], (0, 0, 270, 600));
    assert_eq!(points[2], (0, 2, 810, 600));
    assert_eq!(points[3], (2, 0, 270, 720));
    assert_eq!(points[32], (2, 2, 810, 1800));
    assert_eq!(points[35], (1, 2, 810, 1800));
    client.disconnect();
    assert!(matches!(
        client.tap(1, 2),
        Err(Error::DispatcherDown("channel disconnected"))
    ));
    assert_eq!(client.queued(), 0);
}

#[test]
fn touch_batch_fixed_dispatches_all_touch_frames() {
    let mut client = HidClient::new();
    let mut frames = [TouchFrame::empty(); TOUCH_BATCH_FRAMES];
    frames[0] = TouchFrame::new(0, 0, 10, 20, 1.0f32.to_bits());
    frames[1] = TouchFrame::new(2, 0, 15, 25, 1.0f32.to_bits());
    frames[2] = TouchFrame::new(1, 0, 15, 25, 0.0f32.to_bits());

    client.send_touch_batch_fixed(3, frames).unwrap();
    client.close();
    assert_eq!(touches(&mut client), 3);
}

#[test]
fn touch_frame_batcher_dispatches_all_touch_frames() {
    let mut client = HidClient::new();
    let expected = TOUCH_BATCH_FRAMES + 3;
    let mut batcher = TouchFrameBatcher::new();
    for i in 0..expected {
        batcher
            .move_to(&mut client, 0, i as i32, 0, 1.0f32.to_bits())
            .unwrap();
    }
    batcher.flush(&mut client).unwrap();
    client.close();
    assert_eq!(touches(&mut client), expected);
}

#[test]
fn mouse_frame_batcher_dispatches_all_mouse_frames() {
    let mut client = HidClient::new();
    let expected = MOUSE_BATCH_FRAMES + 3;
    let mut batcher = MouseFrameBatcher::new();
    for i in 0..expected {
        batcher
            .motion(&mut client, i as i32, -(i as i32), MouseButton::Left.value())
            .unwrap();
    }
    batcher.flush(&mut client).unwrap();
    client.close();
    let mut moves = Vec::new();
    drive(&mut client, |call| {
        if let SessionCall::MouseMotion { dx, dy, buttons } = call {
            moves.push((*buttons, *dx, *dy));
        }
        Ok(0)
    });
    assert_eq!(moves.len(), expected);
    assert_eq!(moves[0], (MouseButton::Left.value(), 0, 0));
    assert_eq!(
        moves[MOUSE_BATCH_FRAMES],
        (
            MouseButton::Left.value(),
            MOUSE_BATCH_FRAMES as i32,
            -(MOUSE_BATCH_FRAMES as i32)
        )
    );
}

#[test]
fn android_key_frame_batcher_dispatches_all_key_events() {
    let mut client = HidClient::new();
    let mut batcher = AndroidKeyFrameBatcher::new();
    batcher
        .tap_key_with_metastate(&mut client, AndroidKeycode::ENTER, 3)
        .unwrap();
    batcher
        .key_event(&mut client, AndroidKeyAction::UP, AndroidKeycode::MENU, 2, 4)
        .unwrap();
    batcher.flush(&mut client).unwrap();
    client.close();
    let mut events = Vec::new();
    drive(&mut client, |call| {
        if let SessionCall::InjectKeycode { action, keycode, repeat, metastate } = call {
            events.push((*action, *keycode, *repeat, *metastate));
        }
        Ok(0)
    });
    assert_eq!(events, vec![(0, 66, 0, 3), (1, 66, 0, 3), (1, 82, 2, 4)]);
}

#[test]
fn scroll_frame_batcher_dispatches_all_scroll_events() {
    let mut client = HidClient::new();
    let expected = SCROLL_BATCH_FRAMES + 3;
    let mut batcher = ScrollFrameBatcher::new();
    for i in 0..expected {
        batcher
            .scroll_with_buttons(&mut client, i as i32, i as i32 + 10, 0, 1.0f32.to_bits(), 0x11)
            .unwrap();
    }
    batcher.flush(&mut client).unwrap();
    client.close();
    let mut points = Vec::new();
    drive(&mut client, |call| {
        if let SessionCall::InjectScroll { x, y, .. } = call {
            points.push((*x, *y));
        }
        Ok(0)
    });
    assert_eq!(points.len(), expected);
    assert_eq!(points[0].0, 0);
    assert_eq!(points[SCROLL_BATCH_FRAMES].0, SCROLL_BATCH_FRAMES as i32);
    assert_eq!(points[expected - 1].1, expected as i32 + 9);
}

#[test]
fn ai_extension_commands_dispatch_to_control_messages() {
    let mut client = HidClient::new();
    let flags = 0x1f;
    client.configure_ai(flags, 16, 64).unwrap();
    client.try_query_ai(0x0102_0304_0506_0708).unwrap();
    client.pause_ai().unwrap();
    client.close();
    let mut bytes = Vec::new();
    drive(&mut client, |call| {
        if let SessionCall::Send(message) = call {
            message.serialize_into(&mut bytes).unwrap();
        }
        Ok(0)
    });

    let mut expected = vec![22, flags, 0, 16, 0, 64, 23];
    expected.extend_from_slice(&0x0102_0304_0506_0708u64.to_be_bytes());
    expected.push(24);
    assert_eq!(bytes, expected);
}

#[test]
fn a_key_tap_stops_at_its_first_failure() {
    let mut client = HidClient::new();
    client
        .tap_scancode(Scancode::A, Modifiers::lshift())
        .unwrap();
    let mut calls = Vec::new();
    drive(&mut client, |call| {
        if let SessionCall::Key { scancode, pressed, mods } = call {
            calls.push((*scancode, *pressed, mods.bits()));
        }
        Err(Error::SessionLifecycle("keyboard not open"))
    });
    assert_eq!(calls, vec![(Scancode::A.to_u8(), true, Modifiers::lshift().bits())]);

    client
        .tap_scancode(Scancode::A, Modifiers::lshift())
        .unwrap();
    let mut calls = Vec::new();
    drive(&mut client, |call| {
        if let SessionCall::Key { scancode, pressed, mods } = call {
            calls.push((*scancode, *pressed, mods.bits()));
        }
        Ok(0)
    });
    assert_eq!(
        calls,
        vec![
            (Scancode::A.to_u8(), true, Modifiers::lshift().bits()),
            (Scancode::A.to_u8(), false, 0),
        ]
    );
}

#[test]
fn a_batch_goes_on_after_a_failure() {
    let mut client = HidClient::new();
    let mut frames = [KeyboardFrame::empty(); KEYBOARD_BATCH_FRAMES];
    frames[0] = KeyboardFrame::scancode_down(Scancode::A, Modifiers::empty());
    frames[1] = KeyboardFrame::scancode_up(Scancode::A);
    client.send_key_batch_fixed(2, frames).unwrap();
    let ticket = client.flush_wait().unwrap();
    let mut keys = 0;
    let (replies, _) = drive(&mut client, |call| match call {
        SessionCall::Key { .. } => {
            keys += 1;
            Err(Error::SessionLifecycle("keyboard not open"))
        }
        _ => Ok(0),
    });
    assert_eq!(keys, 2);
    assert!(matches!(
        reply_of(replies, ticket),
        Err(Error::SessionLifecycle("keyboard not open"))
    ));
}

#[test]
fn screen_sizes_and_closing_ignore_results() {
    let mut client = HidClient::new();
    client.set_screen_size(720, 1280).unwrap();
    let ticket = client.flush_wait().unwrap();
    client.close();
    client.press_home().unwrap();
    let (replies, closed) = drive(&mut client, |call| match call {
        SessionCall::FlushNow => Ok(5),
        _ => Err(Error::Transport("ignored".to_string())),
    });
    assert!(closed);
    assert_eq!(client.queued(), 1);
    assert_eq!(reply_of(replies, ticket).unwrap(), 5);
}

#[test]
fn malformed_commands_are_told_apart() {
    let frames = [KeyboardFrame::empty(); KEYBOARD_BATCH_FRAMES];
    let bad = HidCommand::KeyBatchFixed { len: KEYBOARD_BATCH_FRAMES as u8 + 1, frames };
    assert!(!bad.is_well_formed());
    let good = HidCommand::KeyBatchFixed { len: KEYBOARD_BATCH_FRAMES as u8, frames };
    assert!(good.is_well_formed());
}
