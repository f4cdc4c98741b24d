//! What a client's requests ask of the session.
//!
//! Each request is one command at the end of the queue; these laws follow it through
//! the dispatcher to the session calls that it makes.
use vstd::prelude::*;

use crate::client::{
    android_key_batch, chord_queued, flush_outcome, frame_batch, frame_batch_owned, key_batch,
    mouse_batch, packed_batch, packed_batch_owned, scancode_chord_sent, scroll_batch, ClientView,
    HidClient,
};
use crate::command::HidCommand;
use crate::dispatch::{
    calls_of, frames_set, key_call, lemma_chord_reaches_session, packed_set, skips_repeats,
    touch_fields, SessionCall,
};
use crate::error::{Error, Result};
use crate::frames::{
    lemma_chord_clears_modifiers, lemma_chord_releases_in_reverse, names_modifier, AndroidKeyFrame,
    KeyboardChordFrame, KeyboardFrame, MouseFrame, ScrollFrame, TouchFrame,
    ANDROID_KEY_BATCH_FRAMES, GAMEPAD_BATCH_FRAMES, KEYBOARD_BATCH_FRAMES, MOUSE_BATCH_FRAMES,
    SCROLL_BATCH_FRAMES, TOUCH_BATCH_FRAMES,
};
use crate::gamepad::{GamepadFrameRaw, GAMEPAD_FRAME_BYTES};
use crate::message::{
    AiConfig, AiQuery, BackOrScreenOn, ControlMessage, SetClipboard, SetDisplayPower, StartApp,
};
use crate::types::{
    AndroidKeyAction, AndroidKeycode, ClipboardCopyKey, GamepadAxis, GamepadButton, Modifiers,
    MouseButton, Scancode, TouchPointerId,
};

verus! {

/// A request that asks the session for `calls` took a client from `old` to `new`. A
/// plain one is taken as long as the dispatcher is there, a bounded one only while the
/// queue has a place as well. What is taken stands behind all that was queued before,
/// and what is not changes nothing.
pub open spec fn asked(
    plain: bool,
    old: ClientView,
    new: ClientView,
    r: Result<()>,
    calls: Seq<SessionCall>,
) -> bool {
    let place = old.queue.len() < old.bound || (old.bound == 0 && old.waiting && old.queue.len()
        == 0);
    let taken = old.connected && (plain || place);
    &&& r is Ok <==> taken
    &&& taken ==> {
        &&& new.queue.len() == old.queue.len() + 1
        &&& new.queue.drop_last() == old.queue
        &&& calls_of(new.queue.last()) == calls
    }
    &&& !taken ==> new == old
}

proof fn lemma_queue_push(queue: Seq<HidCommand>)
    ensures
        forall|cmd: HidCommand| (#[trigger] queue.push(cmd)).drop_last() == queue,
{
    assert forall|cmd: HidCommand| (#[trigger] queue.push(cmd)).drop_last() == queue by {
        assert(queue.push(cmd).drop_last() =~= queue);
    }
}

/// A mouse motion reaches the session with its way and the buttons held during it.
pub proof fn lemma_mouse_motion_requests(
    c: &mut HidClient,
    dx: i32,
    dy: i32,
    buttons: u8,
    r: Result<()>,
)
    ensures
        call_ensures(HidClient::mouse_motion, (c, dx, dy, buttons), r) ==> asked(
            true,
            old(c)@,
            final(c)@,
            r,
            seq![SessionCall::MouseMotion { dx, dy, buttons }],
        ),
        call_ensures(HidClient::try_mouse_motion, (c, dx, dy, buttons), r) ==> asked(
            false,
            old(c)@,
            final(c)@,
            r,
            seq![SessionCall::MouseMotion { dx, dy, buttons }],
        ),
{
    lemma_queue_push(old(c)@.queue);
}

/// Listed mouse buttons reach the session as the report byte with exactly them held.
pub proof fn lemma_listed_button_requests(
    c: &mut HidClient,
    dx: i32,
    dy: i32,
    buttons: &[MouseButton],
    r: Result<()>,
)
    ensures
        call_ensures(HidClient::mouse_motion_buttons, (c, dx, dy, buttons), r) ==> asked(
            true,
            old(c)@,
            final(c)@,
            r,
            seq![SessionCall::MouseMotion { dx, dy, buttons: MouseButton::held(buttons@) }],
        ),
        call_ensures(HidClient::try_mouse_motion_buttons, (c, dx, dy, buttons), r) ==> asked(
            false,
            old(c)@,
            final(c)@,
            r,
            seq![SessionCall::MouseMotion { dx, dy, buttons: MouseButton::held(buttons@) }],
        ),
        call_ensures(HidClient::mouse_button_state, (c, buttons), r) ==> asked(
            true,
            old(c)@,
            final(c)@,
            r,
            seq![SessionCall::MouseButtons { buttons: MouseButton::held(buttons@) }],
        ),
        call_ensures(HidClient::try_mouse_button_state, (c, buttons), r) ==> asked(
            false,
            old(c)@,
            final(c)@,
            r,
            seq![SessionCall::MouseButtons { buttons: MouseButton::held(buttons@) }],
        ),
{
    lemma_queue_push(old(c)@.queue);
}

/// Mouse buttons and wheel turns reach the session with their values.
pub proof fn lemma_mouse_report_requests(
    c: &mut HidClient,
    buttons: u8,
    hscroll: u32,
    vscroll: u32,
    r: Result<()>,
)
    ensures
        call_ensures(HidClient::mouse_buttons, (c, buttons), r) ==> asked(
            true,
            old(c)@,
            final(c)@,
            r,
            seq![SessionCall::MouseButtons { buttons }],
        ),
        call_ensures(HidClient::try_mouse_buttons, (c, buttons), r) ==> asked(
            false,
            old(c)@,
            final(c)@,
            r,
            seq![SessionCall::MouseButtons { buttons }],
        ),
        call_ensures(HidClient::mouse_scroll, (c, hscroll, vscroll), r) ==> asked(
            true,
            old(c)@,
            final(c)@,
            r,
            seq![SessionCall::MouseScroll { hscroll, vscroll }],
        ),
        call_ensures(HidClient::try_mouse_scroll, (c, hscroll, vscroll), r) ==> asked(
            false,
            old(c)@,
            final(c)@,
            r,
            seq![SessionCall::MouseScroll { hscroll, vscroll }],
        ),
{
    lemma_queue_push(old(c)@.queue);
}

/// A gamepad button reaches the session by name, a mask of them as it is.
pub proof fn lemma_gamepad_button_requests(
    c: &mut HidClient,
    btn: GamepadButton,
    pressed: bool,
    buttons: u32,
    r: Result<()>,
)
    ensures
        call_ensures(HidClient::send_button, (c, btn, pressed), r) ==> asked(
            true,
            old(c)@,
            final(c)@,
            r,
            seq![SessionCall::SetButton { btn, pressed }],
        ),
        call_ensures(HidClient::try_send_button, (c, btn, pressed), r) ==> asked(
            false,
            old(c)@,
            final(c)@,
            r,
            seq![SessionCall::SetButton { btn, pressed }],
        ),
        call_ensures(HidClient::send_buttons, (c, buttons), r) ==> asked(
            true,
            old(c)@,
            final(c)@,
            r,
            seq![SessionCall::SetButtons { buttons }],
        ),
        call_ensures(HidClient::try_send_buttons, (c, buttons), r) ==> asked(
            false,
            old(c)@,
            final(c)@,
            r,
            seq![SessionCall::SetButtons { buttons }],
        ),
{
    lemma_queue_push(old(c)@.queue);
}

/// One axis reaches the session with its value.
pub proof fn lemma_axis_requests(
    c: &mut HidClient,
    axis: GamepadAxis,
    value: u32,
    r: Result<()>,
)
    ensures
        call_ensures(HidClient::send_stick, (c, axis, value), r) ==> asked(
            true,
            old(c)@,
            final(c)@,
            r,
            seq![SessionCall::SetStick { axis, value }],
        ),
        call_ensures(HidClient::try_send_stick, (c, axis, value), r) ==> asked(
            false,
            old(c)@,
            final(c)@,
            r,
            seq![SessionCall::SetStick { axis, value }],
        ),
{
    lemma_queue_push(old(c)@.queue);
}

/// One axis reaches the session with its raw value.
pub proof fn lemma_raw_axis_requests(
    c: &mut HidClient,
    axis: GamepadAxis,
    value: i16,
    r: Result<()>,
)
    ensures
        call_ensures(HidClient::send_stick_raw, (c, axis, value), r) ==> asked(
            true,
            old(c)@,
            final(c)@,
            r,
            seq![SessionCall::SetStickRaw { axis, value }],
        ),
        call_ensures(HidClient::try_send_stick_raw, (c, axis, value), r) ==> asked(
            false,
            old(c)@,
            final(c)@,
            r,
            seq![SessionCall::SetStickRaw { axis, value }],
        ),
{
    lemma_queue_push(old(c)@.queue);
}

/// Each stick reaches the session as itself, with its two axes in order.
pub proof fn lemma_stick_requests(
    c: &mut HidClient,
    x: i16,
    y: i16,
    r: Result<()>,
)
    ensures
        call_ensures(HidClient::send_left_stick_raw, (c, x, y), r) ==> asked(
            true,
            old(c)@,
            final(c)@,
            r,
            seq![SessionCall::SetLeftStickRaw { x, y }],
        ),
        call_ensures(HidClient::try_send_left_stick_raw, (c, x, y), r) ==> asked(
            false,
            old(c)@,
            final(c)@,
            r,
            seq![SessionCall::SetLeftStickRaw { x, y }],
        ),
        call_ensures(HidClient::send_right_stick_raw, (c, x, y), r) ==> asked(
            true,
            old(c)@,
            final(c)@,
            r,
            seq![SessionCall::SetRightStickRaw { x, y }],
        ),
        call_ensures(HidClient::try_send_right_stick_raw, (c, x, y), r) ==> asked(
            false,
            old(c)@,
            final(c)@,
            r,
            seq![SessionCall::SetRightStickRaw { x, y }],
        ),
{
    lemma_queue_push(old(c)@.queue);
}

/// The triggers reach the session as left and right.
pub proof fn lemma_trigger_requests(
    c: &mut HidClient,
    left: i16,
    right: i16,
    r: Result<()>,
)
    ensures
        call_ensures(HidClient::send_triggers_raw, (c, left, right), r) ==> asked(
            true,
            old(c)@,
            final(c)@,
            r,
            seq![SessionCall::SetTriggersRaw { left, right }],
        ),
        call_ensures(HidClient::try_send_triggers_raw, (c, left, right), r) ==> asked(
            false,
            old(c)@,
            final(c)@,
            r,
            seq![SessionCall::SetTriggersRaw { left, right }],
        ),
{
    lemma_queue_push(old(c)@.queue);
}

/// Sticks and triggers reach the session together.
pub proof fn lemma_all_sticks_requests(
    c: &mut HidClient,
    left_x: i16,
    left_y: i16,
    right_x: i16,
    right_y: i16,
    left_trigger: i16,
    right_trigger: i16,
    r: Result<()>,
)
    ensures
        call_ensures(
            HidClient::send_sticks_raw,
            (c, left_x, left_y, right_x, right_y, left_trigger, right_trigger),
            r,
        ) ==> asked(
            true,
            old(c)@,
            final(c)@,
            r,
            seq![
                SessionCall::SetSticksRaw {
                    left_x,
                    left_y,
                    right_x,
                    right_y,
                    left_trigger,
                    right_trigger,
                },
            ],
        ),
        call_ensures(
            HidClient::try_send_sticks_raw,
            (c, left_x, left_y, right_x, right_y, left_trigger, right_trigger),
            r,
        ) ==> asked(
            false,
            old(c)@,
            final(c)@,
            r,
            seq![
                SessionCall::SetSticksRaw {
                    left_x,
                    left_y,
                    right_x,
                    right_y,
                    left_trigger,
                    right_trigger,
                },
            ],
        ),
{
    lemma_queue_push(old(c)@.queue);
}

/// A gamepad frame reaches the session as it is, and is compared with the last one
/// unless it is sent unchecked.
pub proof fn lemma_gamepad_frame_requests(
    c: &mut HidClient,
    frame: GamepadFrameRaw,
    r: Result<()>,
)
    ensures
        call_ensures(HidClient::send_frame, (c, frame), r) ==> asked(
            true,
            old(c)@,
            final(c)@,
            r,
            seq![SessionCall::SetFrameRaw(frame)],
        ),
        call_ensures(HidClient::try_send_frame, (c, frame), r) ==> asked(
            false,
            old(c)@,
            final(c)@,
            r,
            seq![SessionCall::SetFrameRaw(frame)],
        ),
        call_ensures(HidClient::send_frame_unchecked, (c, frame), r) ==> asked(
            true,
            old(c)@,
            final(c)@,
            r,
            seq![SessionCall::SetFrameRawUnchecked(frame)],
        ),
        call_ensures(HidClient::try_send_frame_unchecked, (c, frame), r) ==> asked(
            false,
            old(c)@,
            final(c)@,
            r,
            seq![SessionCall::SetFrameRawUnchecked(frame)],
        ),
{
    lemma_queue_push(old(c)@.queue);
}

/// A packed gamepad frame reaches the session as it is.
pub proof fn lemma_packed_frame_requests(
    c: &mut HidClient,
    frame: [u8; GAMEPAD_FRAME_BYTES],
    r: Result<()>,
)
    ensures
        call_ensures(HidClient::send_frame_packed, (c, frame), r) ==> asked(
            true,
            old(c)@,
            final(c)@,
            r,
            seq![SessionCall::SetFrameRawPacked(frame)],
        ),
        call_ensures(HidClient::try_send_frame_packed, (c, frame), r) ==> asked(
            false,
            old(c)@,
            final(c)@,
            r,
            seq![SessionCall::SetFrameRawPacked(frame)],
        ),
{
    lemma_queue_push(old(c)@.queue);
}

/// Text reaches the session as it is, to be typed strictly or not as asked.
pub proof fn lemma_text_requests(
    c: &mut HidClient,
    text: String,
    r: Result<()>,
)
    ensures
        call_ensures(HidClient::type_text, (c, text), r) ==> asked(
            true,
            old(c)@,
            final(c)@,
            r,
            seq![SessionCall::TypeText(text)],
        ),
        call_ensures(HidClient::type_text_strict, (c, text), r) ==> asked(
            true,
            old(c)@,
            final(c)@,
            r,
            seq![SessionCall::TypeTextStrict(text)],
        ),
        call_ensures(HidClient::try_type_text_strict, (c, text), r) ==> asked(
            false,
            old(c)@,
            final(c)@,
            r,
            seq![SessionCall::TypeTextStrict(text)],
        ),
{
    lemma_queue_push(old(c)@.queue);
}

/// A key edge reaches the session with its key, direction and modifiers; a press is down
/// and a release up.
pub proof fn lemma_key_requests(
    c: &mut HidClient,
    scancode: u8,
    pressed: bool,
    mods: Modifiers,
    r: Result<()>,
)
    ensures
        call_ensures(HidClient::key, (c, scancode, pressed, mods), r) ==> asked(
            true,
            old(c)@,
            final(c)@,
            r,
            seq![SessionCall::Key { scancode, pressed, mods }],
        ),
        call_ensures(HidClient::try_key, (c, scancode, pressed, mods), r) ==> asked(
            false,
            old(c)@,
            final(c)@,
            r,
            seq![SessionCall::Key { scancode, pressed, mods }],
        ),
        call_ensures(HidClient::press_key, (c, scancode, mods), r) ==> asked(
            true,
            old(c)@,
            final(c)@,
            r,
            seq![SessionCall::Key { scancode, pressed: true, mods }],
        ),
        call_ensures(HidClient::release_key, (c, scancode, mods), r) ==> asked(
            true,
            old(c)@,
            final(c)@,
            r,
            seq![SessionCall::Key { scancode, pressed: false, mods }],
        ),
        call_ensures(HidClient::tap_key, (c, scancode, mods), r) ==> asked(
            true,
            old(c)@,
            final(c)@,
            r,
            seq![
                SessionCall::Key { scancode: scancode, pressed: true, mods },
                SessionCall::Key {
                    scancode: scancode,
                    pressed: false,
                    mods: Modifiers { bits: 0 },
                },
            ],
        ),
        call_ensures(HidClient::try_tap_key, (c, scancode, mods), r) ==> asked(
            false,
            old(c)@,
            final(c)@,
            r,
            seq![
                SessionCall::Key { scancode: scancode, pressed: true, mods },
                SessionCall::Key {
                    scancode: scancode,
                    pressed: false,
                    mods: Modifiers { bits: 0 },
                },
            ],
        ),
{
    lemma_queue_push(old(c)@.queue);
}

/// A named key reaches the session by its usage code. A tap is a press under the
/// modifiers and a release under none.
pub proof fn lemma_named_key_requests(
    c: &mut HidClient,
    scancode: Scancode,
    pressed: bool,
    mods: Modifiers,
    r: Result<()>,
)
    ensures
        call_ensures(HidClient::key_scancode, (c, scancode, pressed, mods), r) ==> asked(
            true,
            old(c)@,
            final(c)@,
            r,
            seq![SessionCall::Key { scancode: scancode.code(), pressed, mods }],
        ),
        call_ensures(HidClient::try_key_scancode, (c, scancode, pressed, mods), r) ==> asked(
            false,
            old(c)@,
            final(c)@,
            r,
            seq![SessionCall::Key { scancode: scancode.code(), pressed, mods }],
        ),
        call_ensures(HidClient::tap_scancode, (c, scancode, mods), r) ==> asked(
            true,
            old(c)@,
            final(c)@,
            r,
            seq![
                SessionCall::Key { scancode: scancode.code(), pressed: true, mods },
                SessionCall::Key {
                    scancode: scancode.code(),
                    pressed: false,
                    mods: Modifiers { bits: 0 },
                },
            ],
        ),
        call_ensures(HidClient::try_tap_scancode, (c, scancode, mods), r) ==> asked(
            false,
            old(c)@,
            final(c)@,
            r,
            seq![
                SessionCall::Key { scancode: scancode.code(), pressed: true, mods },
                SessionCall::Key {
                    scancode: scancode.code(),
                    pressed: false,
                    mods: Modifiers { bits: 0 },
                },
            ],
        ),
{
    lemma_queue_push(old(c)@.queue);
}

/// An Android key event reaches the session with its action, code, repeat and meta state.
pub proof fn lemma_android_key_requests(
    c: &mut HidClient,
    action: u8,
    keycode: u32,
    repeat: u32,
    metastate: u32,
    r: Result<()>,
)
    ensures
        call_ensures(
            HidClient::inject_keycode,
            (c, action, keycode, repeat, metastate),
            r,
        ) ==> asked(
            true,
            old(c)@,
            final(c)@,
            r,
            seq![SessionCall::InjectKeycode { action, keycode, repeat, metastate }],
        ),
        call_ensures(
            HidClient::try_inject_keycode,
            (c, action, keycode, repeat, metastate),
            r,
        ) ==> asked(
            false,
            old(c)@,
            final(c)@,
            r,
            seq![SessionCall::InjectKeycode { action, keycode, repeat, metastate }],
        ),
        call_ensures(HidClient::tap_android_keycode, (c, keycode, metastate), r) ==> asked(
            true,
            old(c)@,
            final(c)@,
            r,
            seq![SessionCall::TapAndroidKeycode { keycode, metastate }],
        ),
        call_ensures(HidClient::try_tap_android_keycode, (c, keycode, metastate), r) ==> asked(
            false,
            old(c)@,
            final(c)@,
            r,
            seq![SessionCall::TapAndroidKeycode { keycode, metastate }],
        ),
{
    lemma_queue_push(old(c)@.queue);
}

/// A named Android key reaches the session by its code.
pub proof fn lemma_named_android_key_requests(
    c: &mut HidClient,
    action: u8,
    keycode: AndroidKeycode,
    repeat: u32,
    metastate: u32,
    r: Result<()>,
)
    ensures
        call_ensures(
            HidClient::inject_android_keycode,
            (c, action, keycode, repeat, metastate),
            r,
        ) ==> asked(
            true,
            old(c)@,
            final(c)@,
            r,
            seq![SessionCall::InjectKeycode { action, keycode: keycode.code(), repeat, metastate }],
        ),
        call_ensures(
            HidClient::try_inject_android_keycode,
            (c, action, keycode, repeat, metastate),
            r,
        ) ==> asked(
            false,
            old(c)@,
            final(c)@,
            r,
            seq![SessionCall::InjectKeycode { action, keycode: keycode.code(), repeat, metastate }],
        ),
        call_ensures(
            HidClient::tap_android_key_with_metastate,
            (c, keycode, metastate),
            r,
        ) ==> asked(
            true,
            old(c)@,
            final(c)@,
            r,
            seq![SessionCall::TapAndroidKeycode { keycode: keycode.code(), metastate }],
        ),
        call_ensures(
            HidClient::try_tap_android_key_with_metastate,
            (c, keycode, metastate),
            r,
        ) ==> asked(
            false,
            old(c)@,
            final(c)@,
            r,
            seq![SessionCall::TapAndroidKeycode { keycode: keycode.code(), metastate }],
        ),
{
    lemma_queue_push(old(c)@.queue);
}

/// A named Android key event reaches the session by the code of its action and key.
pub proof fn lemma_android_key_event_requests(
    c: &mut HidClient,
    action: AndroidKeyAction,
    keycode: AndroidKeycode,
    repeat: u32,
    metastate: u32,
    r: Result<()>,
)
    ensures
        call_ensures(
            HidClient::inject_android_key_event,
            (c, action, keycode, repeat, metastate),
            r,
        ) ==> asked(
            true,
            old(c)@,
            final(c)@,
            r,
            seq![
                SessionCall::InjectKeycode {
                    action: action.code(),
                    keycode: keycode.code(),
                    repeat,
                    metastate,
                },
            ],
        ),
        call_ensures(
            HidClient::try_inject_android_key_event,
            (c, action, keycode, repeat, metastate),
            r,
        ) ==> asked(
            false,
            old(c)@,
            final(c)@,
            r,
            seq![
                SessionCall::InjectKeycode {
                    action: action.code(),
                    keycode: keycode.code(),
                    repeat,
                    metastate,
                },
            ],
        ),
{
    lemma_queue_push(old(c)@.queue);
}

/// A press and a release of a named Android key reach the session as the two phases of
/// one key event; a tap reaches it as a tap.
pub proof fn lemma_android_press_requests(
    c: &mut HidClient,
    keycode: AndroidKeycode,
    r: Result<()>,
)
    ensures
        call_ensures(HidClient::press_android_key, (c, keycode), r) ==> asked(
            true,
            old(c)@,
            final(c)@,
            r,
            seq![
                SessionCall::InjectKeycode {
                    action: 0,
                    keycode: keycode.code(),
                    repeat: 0,
                    metastate: 0,
                },
            ],
        ),
        call_ensures(HidClient::try_press_android_key, (c, keycode), r) ==> asked(
            false,
            old(c)@,
            final(c)@,
            r,
            seq![
                SessionCall::InjectKeycode {
                    action: 0,
                    keycode: keycode.code(),
                    repeat: 0,
                    metastate: 0,
                },
            ],
        ),
        call_ensures(HidClient::release_android_key, (c, keycode), r) ==> asked(
            true,
            old(c)@,
            final(c)@,
            r,
            seq![
                SessionCall::InjectKeycode {
                    action: 1,
                    keycode: keycode.code(),
                    repeat: 0,
                    metastate: 0,
                },
            ],
        ),
        call_ensures(HidClient::try_release_android_key, (c, keycode), r) ==> asked(
            false,
            old(c)@,
            final(c)@,
            r,
            seq![
                SessionCall::InjectKeycode {
                    action: 1,
                    keycode: keycode.code(),
                    repeat: 0,
                    metastate: 0,
                },
            ],
        ),
        call_ensures(HidClient::tap_android_key, (c, keycode), r) ==> asked(
            true,
            old(c)@,
            final(c)@,
            r,
            seq![SessionCall::TapAndroidKeycode { keycode: keycode.code(), metastate: 0 }],
        ),
        call_ensures(HidClient::try_tap_android_key, (c, keycode), r) ==> asked(
            false,
            old(c)@,
            final(c)@,
            r,
            seq![SessionCall::TapAndroidKeycode { keycode: keycode.code(), metastate: 0 }],
        ),
{
    lemma_queue_push(old(c)@.queue);
}

/// Each system key presses the Android key of its name.
pub proof fn lemma_system_key_requests(
    c: &mut HidClient,
    r: Result<()>,
)
    ensures
        call_ensures(HidClient::press_home, (c,), r) ==> asked(
            true,
            old(c)@,
            final(c)@,
            r,
            seq![
                SessionCall::InjectKeycode {
                    action: 0,
                    keycode: AndroidKeycode::HOME.code(),
                    repeat: 0,
                    metastate: 0,
                },
            ],
        ),
        call_ensures(HidClient::press_back, (c,), r) ==> asked(
            true,
            old(c)@,
            final(c)@,
            r,
            seq![
                SessionCall::InjectKeycode {
                    action: 0,
                    keycode: AndroidKeycode::BACK.code(),
                    repeat: 0,
                    metastate: 0,
                },
            ],
        ),
        call_ensures(HidClient::open_recents, (c,), r) ==> asked(
            true,
            old(c)@,
            final(c)@,
            r,
            seq![
                SessionCall::InjectKeycode {
                    action: 0,
                    keycode: AndroidKeycode::APP_SWITCH.code(),
                    repeat: 0,
                    metastate: 0,
                },
            ],
        ),
        call_ensures(HidClient::volume_up, (c,), r) ==> asked(
            true,
            old(c)@,
            final(c)@,
            r,
            seq![
                SessionCall::InjectKeycode {
                    action: 0,
                    keycode: AndroidKeycode::VOLUME_UP.code(),
                    repeat: 0,
                    metastate: 0,
                },
            ],
        ),
        call_ensures(HidClient::volume_down, (c,), r) ==> asked(
            true,
            old(c)@,
            final(c)@,
            r,
            seq![
                SessionCall::InjectKeycode {
                    action: 0,
                    keycode: AndroidKeycode::VOLUME_DOWN.code(),
                    repeat: 0,
                    metastate: 0,
                },
            ],
        ),
        call_ensures(HidClient::volume_mute, (c,), r) ==> asked(
            true,
            old(c)@,
            final(c)@,
            r,
            seq![
                SessionCall::InjectKeycode {
                    action: 0,
                    keycode: AndroidKeycode::VOLUME_MUTE.code(),
                    repeat: 0,
                    metastate: 0,
                },
            ],
        ),
{
    lemma_queue_push(old(c)@.queue);
}

/// Each panel and device request reaches the session as itself.
pub proof fn lemma_panel_requests(
    c: &mut HidClient,
    r: Result<()>,
)
    ensures
        call_ensures(HidClient::show_notifications, (c,), r) ==> asked(
            true,
            old(c)@,
            final(c)@,
            r,
            seq![SessionCall::ShowNotifications],
        ),
        call_ensures(HidClient::show_quick_settings, (c,), r) ==> asked(
            true,
            old(c)@,
            final(c)@,
            r,
            seq![SessionCall::ShowQuickSettings],
        ),
        call_ensures(HidClient::collapse_panels, (c,), r) ==> asked(
            true,
            old(c)@,
            final(c)@,
            r,
            seq![SessionCall::CollapsePanels],
        ),
        call_ensures(HidClient::rotate_device, (c,), r) ==> asked(
            true,
            old(c)@,
            final(c)@,
            r,
            seq![SessionCall::RotateDevice],
        ),
        call_ensures(HidClient::open_hard_keyboard_settings, (c,), r) ==> asked(
            true,
            old(c)@,
            final(c)@,
            r,
            seq![SessionCall::OpenHardKeyboardSettings],
        ),
        call_ensures(HidClient::reset_video, (c,), r) ==> asked(
            true,
            old(c)@,
            final(c)@,
            r,
            seq![SessionCall::ResetVideo],
        ),
        call_ensures(HidClient::camera_zoom_in, (c,), r) ==> asked(
            true,
            old(c)@,
            final(c)@,
            r,
            seq![SessionCall::CameraZoomIn],
        ),
        call_ensures(HidClient::camera_zoom_out, (c,), r) ==> asked(
            true,
            old(c)@,
            final(c)@,
            r,
            seq![SessionCall::CameraZoomOut],
        ),
        call_ensures(HidClient::flush, (c,), r) ==> asked(
            true,
            old(c)@,
            final(c)@,
            r,
            seq![SessionCall::FlushNow],
        ),
        call_ensures(HidClient::try_flush, (c,), r) ==> asked(
            false,
            old(c)@,
            final(c)@,
            r,
            seq![SessionCall::FlushNow],
        ),
{
    lemma_queue_push(old(c)@.queue);
}

/// Sizes reach the session as width and height.
pub proof fn lemma_size_requests(
    c: &mut HidClient,
    width: u16,
    height: u16,
    r: Result<()>,
)
    ensures
        call_ensures(HidClient::set_screen_size, (c, width, height), r) ==> asked(
            true,
            old(c)@,
            final(c)@,
            r,
            seq![SessionCall::SetScreenSize { width, height }],
        ),
        call_ensures(HidClient::try_set_screen_size, (c, width, height), r) ==> asked(
            false,
            old(c)@,
            final(c)@,
            r,
            seq![SessionCall::SetScreenSize { width, height }],
        ),
        call_ensures(HidClient::resize_display, (c, width, height), r) ==> asked(
            true,
            old(c)@,
            final(c)@,
            r,
            seq![SessionCall::ResizeDisplay { width, height }],
        ),
{
    lemma_queue_push(old(c)@.queue);
}

/// A switch reaches the session as it is set.
pub proof fn lemma_switch_requests(
    c: &mut HidClient,
    on: bool,
    r: Result<()>,
)
    ensures
        call_ensures(HidClient::set_torch, (c, on), r) ==> asked(
            true,
            old(c)@,
            final(c)@,
            r,
            seq![SessionCall::SetTorch { on }],
        ),
        call_ensures(HidClient::set_screen_power, (c, on), r) ==> asked(
            true,
            old(c)@,
            final(c)@,
            r,
            seq![SessionCall::Send(ControlMessage::SetDisplayPower(SetDisplayPower { on }))],
        ),
{
    lemma_queue_push(old(c)@.queue);
}

/// The back key or screen request carries the code of its phase.
pub proof fn lemma_power_key_requests(
    c: &mut HidClient,
    action: AndroidKeyAction,
    r: Result<()>,
)
    ensures
        call_ensures(HidClient::back_or_screen_on, (c, action), r) ==> asked(
            true,
            old(c)@,
            final(c)@,
            r,
            seq![
                SessionCall::Send(ControlMessage::BackOrScreenOn(BackOrScreenOn { action: action.code() })),
            ],
        ),
        call_ensures(HidClient::try_back_or_screen_on, (c, action), r) ==> asked(
            false,
            old(c)@,
            final(c)@,
            r,
            seq![
                SessionCall::Send(ControlMessage::BackOrScreenOn(BackOrScreenOn { action: action.code() })),
            ],
        ),
{
    lemma_queue_push(old(c)@.queue);
}

/// A configuration of the AI pipeline keeps its three values.
pub proof fn lemma_ai_config_requests(
    c: &mut HidClient,
    flags: u8,
    sample_interval_ms: u16,
    feature_dim: u16,
    r: Result<()>,
)
    ensures
        call_ensures(
            HidClient::configure_ai,
            (c, flags, sample_interval_ms, feature_dim),
            r,
        ) ==> asked(
            true,
            old(c)@,
            final(c)@,
            r,
            seq![
                SessionCall::Send(ControlMessage::AiConfig(AiConfig { flags, sample_interval_ms, feature_dim })),
            ],
        ),
        call_ensures(
            HidClient::try_configure_ai,
            (c, flags, sample_interval_ms, feature_dim),
            r,
        ) ==> asked(
            false,
            old(c)@,
            final(c)@,
            r,
            seq![
                SessionCall::Send(ControlMessage::AiConfig(AiConfig { flags, sample_interval_ms, feature_dim })),
            ],
        ),
{
    lemma_queue_push(old(c)@.queue);
}

/// A query of the AI pipeline keeps its time, and a pause is one.
pub proof fn lemma_ai_query_requests(
    c: &mut HidClient,
    since_timestamp_ms: u64,
    r: Result<()>,
)
    ensures
        call_ensures(HidClient::query_ai, (c, since_timestamp_ms), r) ==> asked(
            true,
            old(c)@,
            final(c)@,
            r,
            seq![SessionCall::Send(ControlMessage::AiQuery(AiQuery { since_timestamp_ms }))],
        ),
        call_ensures(HidClient::try_query_ai, (c, since_timestamp_ms), r) ==> asked(
            false,
            old(c)@,
            final(c)@,
            r,
            seq![SessionCall::Send(ControlMessage::AiQuery(AiQuery { since_timestamp_ms }))],
        ),
        call_ensures(HidClient::pause_ai, (c,), r) ==> asked(
            true,
            old(c)@,
            final(c)@,
            r,
            seq![SessionCall::Send(ControlMessage::AiPause)],
        ),
        call_ensures(HidClient::try_pause_ai, (c,), r) ==> asked(
            false,
            old(c)@,
            final(c)@,
            r,
            seq![SessionCall::Send(ControlMessage::AiPause)],
        ),
{
    lemma_queue_push(old(c)@.queue);
}

/// An app is started by the name given.
pub proof fn lemma_app_requests(
    c: &mut HidClient,
    name: String,
    r: Result<()>,
)
    ensures
        call_ensures(HidClient::launch_app, (c, name), r) ==> asked(
            true,
            old(c)@,
            final(c)@,
            r,
            seq![SessionCall::Send(ControlMessage::StartApp(StartApp { name }))],
        ),
{
    lemma_queue_push(old(c)@.queue);
}

/// A clipboard text is sent with its sequence number, or without one as number zero.
pub proof fn lemma_clipboard_requests(
    c: &mut HidClient,
    text: String,
    paste: bool,
    sequence: u64,
    r: Result<()>,
)
    ensures
        call_ensures(HidClient::set_clipboard, (c, text, paste), r) ==> asked(
            true,
            old(c)@,
            final(c)@,
            r,
            seq![
                SessionCall::Send(ControlMessage::SetClipboard(SetClipboard { sequence: 0, paste, text })),
            ],
        ),
        call_ensures(HidClient::set_clipboard_sequenced, (c, sequence, text, paste), r) ==> asked(
            true,
            old(c)@,
            final(c)@,
            r,
            seq![
                SessionCall::Send(ControlMessage::SetClipboard(SetClipboard { sequence, paste, text })),
            ],
        ),
{
    lemma_queue_push(old(c)@.queue);
}

/// A request for the clipboard carries its copy key.
pub proof fn lemma_copy_key_requests(
    c: &mut HidClient,
    copy_key: u8,
    r: Result<()>,
)
    ensures
        call_ensures(HidClient::request_clipboard, (c, copy_key), r) ==> asked(
            true,
            old(c)@,
            final(c)@,
            r,
            seq![SessionCall::RequestClipboard { copy_key }],
        ),
        call_ensures(HidClient::try_request_clipboard, (c, copy_key), r) ==> asked(
            false,
            old(c)@,
            final(c)@,
            r,
            seq![SessionCall::RequestClipboard { copy_key }],
        ),
{
    lemma_queue_push(old(c)@.queue);
}

/// A request for the clipboard carries the code of a named copy key.
pub proof fn lemma_named_copy_key_requests(
    c: &mut HidClient,
    copy_key: ClipboardCopyKey,
    r: Result<()>,
)
    ensures
        call_ensures(HidClient::request_clipboard_key, (c, copy_key), r) ==> asked(
            true,
            old(c)@,
            final(c)@,
            r,
            seq![SessionCall::RequestClipboard { copy_key: copy_key.code() }],
        ),
        call_ensures(HidClient::try_request_clipboard_key, (c, copy_key), r) ==> asked(
            false,
            old(c)@,
            final(c)@,
            r,
            seq![SessionCall::RequestClipboard { copy_key: copy_key.code() }],
        ),
{
    lemma_queue_push(old(c)@.queue);
}

/// A bounded scroll reaches the session at its point with its way, with the buttons
/// given or none.
pub proof fn lemma_scroll_requests(
    c: &mut HidClient,
    x: i32,
    y: i32,
    hscroll: u32,
    vscroll: u32,
    buttons: u32,
    r: Result<()>,
)
    ensures
        call_ensures(HidClient::try_scroll, (c, x, y, hscroll, vscroll), r) ==> asked(
            false,
            old(c)@,
            final(c)@,
            r,
            seq![SessionCall::InjectScroll { x, y, hscroll, vscroll, buttons: 0 }],
        ),
        call_ensures(
            HidClient::try_scroll_with_buttons,
            (c, x, y, hscroll, vscroll, buttons),
            r,
        ) ==> asked(
            false,
            old(c)@,
            final(c)@,
            r,
            seq![SessionCall::InjectScroll { x, y, hscroll, vscroll, buttons }],
        ),
{
    lemma_queue_push(old(c)@.queue);
}

/// A bounded cancel reaches the session for its pointer.
pub proof fn lemma_cancel_requests(
    c: &mut HidClient,
    pointer_id: u64,
    r: Result<()>,
)
    ensures
        call_ensures(HidClient::try_cancel_touch, (c, pointer_id), r) ==> asked(
            false,
            old(c)@,
            final(c)@,
            r,
            seq![SessionCall::CancelTouch { id: pointer_id }],
        ),
{
    lemma_queue_push(old(c)@.queue);
}

/// A bounded cancel of a named pointer reaches the session for its number.
pub proof fn lemma_pointer_cancel_requests(
    c: &mut HidClient,
    pointer_id: TouchPointerId,
    r: Result<()>,
)
    ensures
        call_ensures(HidClient::try_cancel_touch_pointer, (c, pointer_id), r) ==> asked(
            false,
            old(c)@,
            final(c)@,
            r,
            seq![SessionCall::CancelTouch { id: pointer_id.code() }],
        ),
{
    lemma_queue_push(old(c)@.queue);
}

/// A request for the first `len` of an array of `max` frames. None are taken without a
/// word, more than there are places are refused, and else the request asks for `calls`.
pub open spec fn asked_some(
    plain: bool,
    len: usize,
    max: nat,
    why: &'static str,
    old: ClientView,
    new: ClientView,
    r: Result<()>,
    calls: Seq<SessionCall>,
) -> bool {
    if len == 0 {
        r is Ok && new == old
    } else if len > max {
        r == Err::<(), Error>(Error::SessionLifecycle(why)) && new == old
    } else {
        asked(plain, old, new, r, calls)
    }
}

/// A request that asks the session in one call for what `says` tells of it.
pub open spec fn asked_once(
    plain: bool,
    old: ClientView,
    new: ClientView,
    r: Result<()>,
    says: spec_fn(SessionCall) -> bool,
) -> bool {
    &&& new.queue.len() > old.queue.len() ==> calls_of(new.queue.last()).len() == 1 && says(
        calls_of(new.queue.last())[0],
    )
    &&& asked(plain, old, new, r, calls_of(new.queue.last()))
}

/// The first mouse motions of an array reach the session one by one, in order.
pub proof fn lemma_motion_array_requests(
    c: &mut HidClient,
    len: usize,
    frames: [MouseFrame; MOUSE_BATCH_FRAMES],
    r: Result<()>,
)
    ensures
        call_ensures(HidClient::send_mouse_batch_fixed, (c, len, frames), r) ==> asked_some(
            true,
            len,
            32,
            "mouse batch length too large",
            old(c)@,
            final(c)@,
            r,
            Seq::new(
                len as nat,
                |i: int|
                    SessionCall::MouseMotion {
                        dx: frames@[i].dx,
                        dy: frames@[i].dy,
                        buttons: frames@[i].buttons,
                    },
            ),
        ),
        call_ensures(HidClient::try_send_mouse_batch_fixed, (c, len, frames), r) ==> asked_some(
            false,
            len,
            32,
            "mouse batch length too large",
            old(c)@,
            final(c)@,
            r,
            Seq::new(
                len as nat,
                |i: int|
                    SessionCall::MouseMotion {
                        dx: frames@[i].dx,
                        dy: frames@[i].dy,
                        buttons: frames@[i].buttons,
                    },
            ),
        ),
{
    lemma_queue_push(old(c)@.queue);
    if 0 < len <= 32 {
        let cmd = mouse_batch(len as int, frames);
        assert(calls_of(cmd) =~= Seq::new(
            len as nat,
            |i: int|
                SessionCall::MouseMotion {
                        dx: frames@[i].dx,
                        dy: frames@[i].dy,
                        buttons: frames@[i].buttons,
                    },
        ));
    }
}

/// The first keyboard edges of an array reach the session one by one, in order.
pub proof fn lemma_key_array_requests(
    c: &mut HidClient,
    len: usize,
    frames: [KeyboardFrame; KEYBOARD_BATCH_FRAMES],
    r: Result<()>,
)
    ensures
        call_ensures(HidClient::send_key_batch_fixed, (c, len, frames), r) ==> asked_some(
            true,
            len,
            32,
            "keyboard batch length too large",
            old(c)@,
            final(c)@,
            r,
            Seq::new(
                len as nat,
                |i: int|
                    SessionCall::Key {
                        scancode: frames@[i].scancode,
                        pressed: frames@[i].pressed,
                        mods: frames@[i].mods,
                    },
            ),
        ),
        call_ensures(HidClient::try_send_key_batch_fixed, (c, len, frames), r) ==> asked_some(
            false,
            len,
            32,
            "keyboard batch length too large",
            old(c)@,
            final(c)@,
            r,
            Seq::new(
                len as nat,
                |i: int|
                    SessionCall::Key {
                        scancode: frames@[i].scancode,
                        pressed: frames@[i].pressed,
                        mods: frames@[i].mods,
                    },
            ),
        ),
{
    lemma_queue_push(old(c)@.queue);
    if 0 < len <= 32 {
        let cmd = key_batch(len as int, frames);
        assert(calls_of(cmd) =~= Seq::new(
            len as nat,
            |i: int|
                SessionCall::Key {
                        scancode: frames@[i].scancode,
                        pressed: frames@[i].pressed,
                        mods: frames@[i].mods,
                    },
        ));
    }
}

/// The first Android key events of an array reach the session one by one, in order.
pub proof fn lemma_android_key_array_requests(
    c: &mut HidClient,
    len: usize,
    frames: [AndroidKeyFrame; ANDROID_KEY_BATCH_FRAMES],
    r: Result<()>,
)
    ensures
        call_ensures(HidClient::send_android_key_batch_fixed, (c, len, frames), r) ==> asked_some(
            true,
            len,
            32,
            "android key batch length too large",
            old(c)@,
            final(c)@,
            r,
            Seq::new(
                len as nat,
                |i: int|
                    SessionCall::InjectKeycode {
                        action: frames@[i].action,
                        keycode: frames@[i].keycode,
                        repeat: frames@[i].repeat,
                        metastate: frames@[i].metastate,
                    },
            ),
        ),
        call_ensures(
            HidClient::try_send_android_key_batch_fixed,
            (c, len, frames),
            r,
        ) ==> asked_some(
            false,
            len,
            32,
            "android key batch length too large",
            old(c)@,
            final(c)@,
            r,
            Seq::new(
                len as nat,
                |i: int|
                    SessionCall::InjectKeycode {
                        action: frames@[i].action,
                        keycode: frames@[i].keycode,
                        repeat: frames@[i].repeat,
                        metastate: frames@[i].metastate,
                    },
            ),
        ),
{
    lemma_queue_push(old(c)@.queue);
    if 0 < len <= 32 {
        let cmd = android_key_batch(len as int, frames);
        assert(calls_of(cmd) =~= Seq::new(
            len as nat,
            |i: int|
                SessionCall::InjectKeycode {
                        action: frames@[i].action,
                        keycode: frames@[i].keycode,
                        repeat: frames@[i].repeat,
                        metastate: frames@[i].metastate,
                    },
        ));
    }
}

/// The first scroll events of an array reach the session one by one, in order.
pub proof fn lemma_scroll_array_requests(
    c: &mut HidClient,
    len: usize,
    frames: [ScrollFrame; SCROLL_BATCH_FRAMES],
    r: Result<()>,
)
    ensures
        call_ensures(HidClient::send_scroll_batch_fixed, (c, len, frames), r) ==> asked_some(
            true,
            len,
            32,
            "scroll batch length too large",
            old(c)@,
            final(c)@,
            r,
            Seq::new(
                len as nat,
                |i: int|
                    SessionCall::InjectScroll {
                        x: frames@[i].x,
                        y: frames@[i].y,
                        hscroll: frames@[i].hscroll,
                        vscroll: frames@[i].vscroll,
                        buttons: frames@[i].buttons,
                    },
            ),
        ),
        call_ensures(HidClient::try_send_scroll_batch_fixed, (c, len, frames), r) ==> asked_some(
            false,
            len,
            32,
            "scroll batch length too large",
            old(c)@,
            final(c)@,
            r,
            Seq::new(
                len as nat,
                |i: int|
                    SessionCall::InjectScroll {
                        x: frames@[i].x,
                        y: frames@[i].y,
                        hscroll: frames@[i].hscroll,
                        vscroll: frames@[i].vscroll,
                        buttons: frames@[i].buttons,
                    },
            ),
        ),
{
    lemma_queue_push(old(c)@.queue);
    if 0 < len <= 32 {
        let cmd = scroll_batch(len as int, frames);
        assert(calls_of(cmd) =~= Seq::new(
            len as nat,
            |i: int|
                SessionCall::InjectScroll {
                        x: frames@[i].x,
                        y: frames@[i].y,
                        hscroll: frames@[i].hscroll,
                        vscroll: frames@[i].vscroll,
                        buttons: frames@[i].buttons,
                    },
        ));
    }
}

/// The first touches of an array reach the session one by one, in order, each with its
/// action and pointer.
pub proof fn lemma_touch_array_requests(
    c: &mut HidClient,
    len: usize,
    frames: [TouchFrame; TOUCH_BATCH_FRAMES],
    r: Result<()>,
    i: int,
)
    ensures
        call_ensures(HidClient::send_touch_batch_fixed, (c, len, frames), r) ==> asked_some(
            true,
            len,
            24,
            "touch batch length too large",
            old(c)@,
            final(c)@,
            r,
            calls_of(final(c)@.queue.last()),
        ),
        call_ensures(HidClient::try_send_touch_batch_fixed, (c, len, frames), r) ==> asked_some(
            false,
            len,
            24,
            "touch batch length too large",
            old(c)@,
            final(c)@,
            r,
            calls_of(final(c)@.queue.last()),
        ),
        (call_ensures(HidClient::send_touch_batch_fixed, (c, len, frames), r) || call_ensures(
            HidClient::try_send_touch_batch_fixed,
            (c, len, frames),
            r,
        )) && r is Ok && 0 <= i < len ==> calls_of(final(c)@.queue.last()).len() == len
            && touch_fields(calls_of(final(c)@.queue.last())[i]) == Some(
            (
                frames@[i].action,
                frames@[i].pointer_id,
                frames@[i].x,
                frames@[i].y,
                frames@[i].pressure,
            ),
        ),
{
    lemma_queue_push(old(c)@.queue);
}

/// Gamepad frames reach the session in one call, in order, and repeats are skipped.
pub proof fn lemma_frame_batch_requests(
    c: &mut HidClient,
    len: usize,
    slots: [GamepadFrameRaw; GAMEPAD_BATCH_FRAMES],
    frames: Vec<GamepadFrameRaw>,
    r: Result<()>,
)
    ensures
        call_ensures(HidClient::send_frame_batch_fixed, (c, len, slots), r) ==> {
            &&& len == 0 ==> r is Ok && final(c)@ == old(c)@
            &&& len > 32 ==> r == Err::<(), Error>(
                Error::SessionLifecycle("frame batch fixed length overflow"),
            ) && final(c)@ == old(c)@
            &&& 0 < len <= 32 ==> asked_once(
                true,
                old(c)@,
                final(c)@,
                r,
                |call: SessionCall|
                    frames_set(call) == slots@.take(len as int) && skips_repeats(call) == true,
            )
        },
        call_ensures(HidClient::send_frame_batch, (c, frames), r) ==> {
            &&& frames@.len() == 0 ==> r is Ok && final(c)@ == old(c)@
            &&& frames@.len() > 0 ==> asked_once(
                true,
                old(c)@,
                final(c)@,
                r,
                |call: SessionCall|
                    frames_set(call) == frames@ && skips_repeats(call) == true,
            )
        },
        call_ensures(HidClient::try_send_frame_batch_fixed, (c, len, slots), r) ==> {
            &&& len == 0 ==> r is Ok && final(c)@ == old(c)@
            &&& len > 32 ==> r == Err::<(), Error>(
                Error::SessionLifecycle("frame batch fixed length overflow"),
            ) && final(c)@ == old(c)@
            &&& 0 < len <= 32 ==> asked_once(
                false,
                old(c)@,
                final(c)@,
                r,
                |call: SessionCall|
                    frames_set(call) == slots@.take(len as int) && skips_repeats(call) == true,
            )
        },
        call_ensures(HidClient::try_send_frame_batch, (c, frames), r) ==> {
            &&& frames@.len() == 0 ==> r is Ok && final(c)@ == old(c)@
            &&& frames@.len() > 0 ==> asked_once(
                false,
                old(c)@,
                final(c)@,
                r,
                |call: SessionCall|
                    frames_set(call) == frames@ && skips_repeats(call) == true,
            )
        },
{
    lemma_queue_push(old(c)@.queue);
    if 0 < len <= 32 {
        assert(frames_set(calls_of(frame_batch(len as int, slots, true))[0]) =~= slots@.take(
            len as int,
        ));
    }
    if frames@.len() > 0 {
        assert(frames_set(calls_of(frame_batch_owned(frames, true))[0]) =~= frames@);
    }
}

/// Unchecked gamepad frames reach the session in one call, in order, repeats and all.
pub proof fn lemma_unchecked_frame_batch_requests(
    c: &mut HidClient,
    len: usize,
    slots: [GamepadFrameRaw; GAMEPAD_BATCH_FRAMES],
    frames: Vec<GamepadFrameRaw>,
    r: Result<()>,
)
    ensures
        call_ensures(HidClient::send_frame_batch_fixed_unchecked, (c, len, slots), r) ==> {
            &&& len == 0 ==> r is Ok && final(c)@ == old(c)@
            &&& len > 32 ==> r == Err::<(), Error>(
                Error::SessionLifecycle("frame batch fixed length overflow"),
            ) && final(c)@ == old(c)@
            &&& 0 < len <= 32 ==> asked_once(
                true,
                old(c)@,
                final(c)@,
                r,
                |call: SessionCall|
                    frames_set(call) == slots@.take(len as int) && skips_repeats(call) == false,
            )
        },
        call_ensures(HidClient::send_frame_batch_unchecked, (c, frames), r) ==> {
            &&& frames@.len() == 0 ==> r is Ok && final(c)@ == old(c)@
            &&& frames@.len() > 0 ==> asked_once(
                true,
                old(c)@,
                final(c)@,
                r,
                |call: SessionCall|
                    frames_set(call) == frames@ && skips_repeats(call) == false,
            )
        },
        call_ensures(HidClient::try_send_frame_batch_fixed_unchecked, (c, len, slots), r) ==> {
            &&& len == 0 ==> r is Ok && final(c)@ == old(c)@
            &&& len > 32 ==> r == Err::<(), Error>(
                Error::SessionLifecycle("frame batch fixed length overflow"),
            ) && final(c)@ == old(c)@
            &&& 0 < len <= 32 ==> asked_once(
                false,
                old(c)@,
                final(c)@,
                r,
                |call: SessionCall|
                    frames_set(call) == slots@.take(len as int) && skips_repeats(call) == false,
            )
        },
        call_ensures(HidClient::try_send_frame_batch_unchecked, (c, frames), r) ==> {
            &&& frames@.len() == 0 ==> r is Ok && final(c)@ == old(c)@
            &&& frames@.len() > 0 ==> asked_once(
                false,
                old(c)@,
                final(c)@,
                r,
                |call: SessionCall|
                    frames_set(call) == frames@ && skips_repeats(call) == false,
            )
        },
{
    lemma_queue_push(old(c)@.queue);
    if 0 < len <= 32 {
        assert(frames_set(calls_of(frame_batch(len as int, slots, false))[0]) =~= slots@.take(
            len as int,
        ));
    }
    if frames@.len() > 0 {
        assert(frames_set(calls_of(frame_batch_owned(frames, false))[0]) =~= frames@);
    }
}

/// Packed gamepad frames reach the session in one call, in order.
pub proof fn lemma_packed_batch_requests(
    c: &mut HidClient,
    len: usize,
    slots: [[u8; GAMEPAD_FRAME_BYTES]; GAMEPAD_BATCH_FRAMES],
    frames: Vec<[u8; GAMEPAD_FRAME_BYTES]>,
    r: Result<()>,
)
    ensures
        call_ensures(HidClient::send_frame_packed_batch_fixed, (c, len, slots), r) ==> {
            &&& len == 0 ==> r is Ok && final(c)@ == old(c)@
            &&& len > 32 ==> r == Err::<(), Error>(
                Error::SessionLifecycle("frame packed batch fixed length overflow"),
            ) && final(c)@ == old(c)@
            &&& 0 < len <= 32 ==> asked_once(
                true,
                old(c)@,
                final(c)@,
                r,
                |call: SessionCall| packed_set(call) == slots@.take(len as int),
            )
        },
        call_ensures(HidClient::send_frame_packed_batch, (c, frames), r) ==> {
            &&& frames@.len() == 0 ==> r is Ok && final(c)@ == old(c)@
            &&& frames@.len() > 0 ==> asked_once(
                true,
                old(c)@,
                final(c)@,
                r,
                |call: SessionCall| packed_set(call) == frames@,
            )
        },
        call_ensures(HidClient::try_send_frame_packed_batch_fixed, (c, len, slots), r) ==> {
            &&& len == 0 ==> r is Ok && final(c)@ == old(c)@
            &&& len > 32 ==> r == Err::<(), Error>(
                Error::SessionLifecycle("frame packed batch fixed length overflow"),
            ) && final(c)@ == old(c)@
            &&& 0 < len <= 32 ==> asked_once(
                false,
                old(c)@,
                final(c)@,
                r,
                |call: SessionCall| packed_set(call) == slots@.take(len as int),
            )
        },
        call_ensures(HidClient::try_send_frame_packed_batch, (c, frames), r) ==> {
            &&& frames@.len() == 0 ==> r is Ok && final(c)@ == old(c)@
            &&& frames@.len() > 0 ==> asked_once(
                false,
                old(c)@,
                final(c)@,
                r,
                |call: SessionCall| packed_set(call) == frames@,
            )
        },
{
    lemma_queue_push(old(c)@.queue);
    if 0 < len <= 32 {
        assert(packed_set(calls_of(packed_batch(len as int, slots))[0]) =~= slots@.take(
            len as int,
        ));
    }
    if frames@.len() > 0 {
        assert(packed_set(calls_of(packed_batch_owned(frames))[0]) =~= frames@);
    }
}

/// The edges of a chord: each of its keys goes down in order and up in reverse. The last
/// release lets the modifiers go.
pub proof fn lemma_key_chord_requests(
    c: &mut HidClient,
    chord: KeyboardChordFrame,
    r: Result<()>,
    i: int,
)
    requires
        0 <= i < chord.len,
    ensures
        call_ensures(HidClient::key_chord, (c, chord), r) || call_ensures(
            HidClient::try_key_chord,
            (c, chord),
            r,
        ) ==> {
            let n = chord.len as int;
            let calls = calls_of(final(c)@.queue.last());
            &&& chord.len > 6 ==> r is Err
            &&& r is Err ==> final(c)@ == old(c)@
            &&& r is Ok ==> {
                &&& final(c)@.queue.drop_last() == old(c)@.queue
                &&& calls.len() == 2 * n
                &&& calls[i] == (SessionCall::Key {
                    scancode: chord.keys@[i],
                    pressed: true,
                    mods: chord.mods,
                })
                &&& calls[2 * n - 1 - i] matches SessionCall::Key { scancode, pressed, mods }
                    && scancode == chord.keys@[i] && !pressed && (i == 0 ==> mods.bits == 0) && (i
                    > 0 ==> mods == chord.mods)
            }
        },
        call_ensures(HidClient::key_chord, (c, chord), r) && chord.len <= 6 ==> (r is Ok <==> old(c)@.connected),
        call_ensures(HidClient::try_key_chord, (c, chord), r) && r is Ok ==> old(c)@.connected && (
        old(c)@.queue.len() < old(c)@.bound || (old(c)@.bound == 0 && old(c)@.waiting)),
        call_ensures(HidClient::try_key_chord, (c, chord), r) && chord.len <= 6
            && old(c)@.connected && old(c)@.queue.len() < old(c)@.bound ==> r is Ok,
{
    lemma_queue_push(old(c)@.queue);
    let n = chord.len as int;
    lemma_chord_releases_in_reverse(chord, i);
    lemma_chord_clears_modifiers(chord);
    let new = final(c)@;
    if chord_queued(chord, old(c)@, new) {
        assert(new.queue.drop_last() =~= old(c)@.queue);
        let calls = calls_of(new.queue.last());
        assert(chord.edges()[2 * n - 1 - i].mods == chord.mods || i == 0);
        if n <= 6 {
            assert(calls[i] == key_call(chord.edges()[i]));
            assert(calls[2 * n - 1 - i] == key_call(chord.edges()[2 * n - 1 - i]));
        }
    }
}

/// A chord of no keys asks for nothing, and one over named keys presses them in order
/// and releases them in reverse.
pub proof fn lemma_named_chord_requests(
    c: &mut HidClient,
    chord: KeyboardChordFrame,
    scancodes: &[Scancode],
    mods: Modifiers,
    r: Result<()>,
    i: int,
)
    ensures
        chord.len == 0 && (call_ensures(HidClient::key_chord, (c, chord), r) || call_ensures(
            HidClient::try_key_chord,
            (c, chord),
            r,
        )) ==> r is Ok && final(c)@ == old(c)@,
        call_ensures(HidClient::scancode_chord, (c, scancodes, mods), r) || call_ensures(
            HidClient::try_scancode_chord,
            (c, scancodes, mods),
            r,
        ) ==> {
            let n = scancodes@.len() as int;
            let calls = calls_of(final(c)@.queue.last());
            &&& n > 6 ==> r is Err
            &&& n == 0 ==> r is Ok && final(c)@ == old(c)@
            &&& r is Err ==> final(c)@ == old(c)@
            &&& r is Ok && 0 <= i < n ==> {
                &&& final(c)@.queue.drop_last() == old(c)@.queue
                &&& calls.len() == 2 * n
                &&& calls[i] == (SessionCall::Key {
                    scancode: scancodes@[i].code(),
                    pressed: true,
                    mods,
                })
                &&& calls[2 * n - 1 - i] matches SessionCall::Key { scancode, pressed, mods: m }
                    && scancode == scancodes@[i].code() && !pressed && (i == 0 ==> m.bits == 0) && (
                i > 0 ==> m == mods)
            }
        },
        call_ensures(HidClient::scancode_chord, (c, scancodes, mods), r) && 0 < scancodes@.len() <= 6
            && !names_modifier(scancodes@) ==> (r is Ok <==> old(c)@.connected),
        call_ensures(HidClient::try_scancode_chord, (c, scancodes, mods), r) && 0
            < scancodes@.len() && r is Ok ==> old(c)@.connected && old(c)@.queue.len() <= old(c)@.bound,
{
    if call_ensures(HidClient::scancode_chord, (c, scancodes, mods), r) {
        let admission = old(c)@.send_result();
        assert(scancode_chord_sent(scancodes@, mods, admission, old(c)@, final(c)@, r));
        if scancodes@.len() == 0 {
            assert(!names_modifier(scancodes@));
        }
        if r is Ok && 0 <= i < scancodes@.len() {
            lemma_chord_reaches_session(scancodes@, mods, admission, old(c)@, final(c)@, r, i);
        }
    }
    if call_ensures(HidClient::try_scancode_chord, (c, scancodes, mods), r) {
        let admission = old(c)@.try_send_result();
        assert(scancode_chord_sent(scancodes@, mods, admission, old(c)@, final(c)@, r));
        if scancodes@.len() == 0 {
            assert(!names_modifier(scancodes@));
        }
        if r is Ok && 0 <= i < scancodes@.len() {
            lemma_chord_reaches_session(scancodes@, mods, admission, old(c)@, final(c)@, r, i);
        }
    }
}

/// A scroll or a cancel that waits is queued with a flush behind it, whose ticket comes
/// back.
pub proof fn lemma_flushed_requests(
    c: &mut HidClient,
    x: i32,
    y: i32,
    hscroll: u32,
    vscroll: u32,
    buttons: u32,
    id: u64,
    pointer: TouchPointerId,
    r: Result<u64>,
)
    ensures
        call_ensures(HidClient::scroll, (c, x, y, hscroll, vscroll), r) ==> asked_and_flushed(
            old(c)@,
            final(c)@,
            r,
            SessionCall::InjectScroll { x, y, hscroll, vscroll, buttons: 0 },
        ),
        call_ensures(HidClient::scroll_with_buttons, (c, x, y, hscroll, vscroll, buttons), r)
            ==> asked_and_flushed(
            old(c)@,
            final(c)@,
            r,
            SessionCall::InjectScroll { x, y, hscroll, vscroll, buttons },
        ),
        call_ensures(HidClient::cancel_touch, (c, id), r) ==> asked_and_flushed(
            old(c)@,
            final(c)@,
            r,
            SessionCall::CancelTouch { id },
        ),
        call_ensures(HidClient::cancel_touch_pointer, (c, pointer), r) ==> asked_and_flushed(
            old(c)@,
            final(c)@,
            r,
            SessionCall::CancelTouch { id: pointer.code() },
        ),
{
    let q = old(c)@.queue;
    assert forall|a: HidCommand, b: HidCommand| (#[trigger] q.push(a).push(b)).take(
        q.len() as int,
    ) == q by {
        assert(q.push(a).push(b).take(q.len() as int) =~= q);
    }
}

/// A request with a flush behind it: the session is asked for `call` and then for a
/// flush, under the ticket that comes back. Without a dispatcher nothing is queued.
pub open spec fn asked_and_flushed(
    old: ClientView,
    new: ClientView,
    r: Result<u64>,
    call: SessionCall,
) -> bool {
    let n = old.queue.len() as int;
    &&& r is Ok <==> old.connected
    &&& r matches Ok(ticket) ==> {
        &&& ticket == old.next_ticket
        &&& new.queue.len() == n + 2
        &&& new.queue.take(n) == old.queue
        &&& calls_of(new.queue[n]) == seq![call]
        &&& new.queue[n + 1] == (HidCommand::FlushAck { ticket })
    }
    &&& r is Err ==> new == old
}

/// A flush that waits asks the session for a flush under a ticket of its own; the next
/// one gets another. The flush before a close is such a one.
pub proof fn lemma_waiting_flush_requests(c: &mut HidClient, r: Result<u64>)
    ensures
        call_ensures(HidClient::flush_wait, (c,), r) || call_ensures(
            HidClient::close_wait,
            (c,),
            r,
        ) || call_ensures(HidClient::try_flush_wait, (c,), r) ==> {
            &&& r is Err ==> final(c)@ == old(c)@
            &&& r matches Ok(ticket) ==> {
                &&& ticket == old(c)@.next_ticket
                &&& final(c)@.next_ticket == (ticket + 1) % 0x1_0000_0000_0000_0000
                &&& final(c)@.queue == old(c)@.queue + seq![HidCommand::FlushAck { ticket }]
                &&& calls_of(final(c)@.queue.last()) == seq![SessionCall::FlushNow]
            }
        },
        call_ensures(HidClient::flush_wait, (c,), r) || call_ensures(HidClient::close_wait, (c,), r)
            ==> (r is Ok <==> old(c)@.connected),
        call_ensures(HidClient::try_flush_wait, (c,), r) && r is Ok ==> old(c)@.connected,
        call_ensures(HidClient::try_flush_wait, (c,), r) && old(c)@.connected && old(c)@.bound > 0
            ==> (r is Ok <==> old(c)@.queue.len() < old(c)@.bound),
{
    let ticket = old(c)@.next_ticket;
    assert(old(c)@.queue.push(HidCommand::FlushAck { ticket }) =~= old(c)@.queue + seq![
        HidCommand::FlushAck { ticket },
    ]);
}

/// A close is queued behind all else as long as the dispatcher is there. The checked one
/// is queued however its flush came out, and tells that.
pub proof fn lemma_close_requests(c: &mut HidClient, flush: Result<usize>, r: Result<()>)
    ensures
        call_ensures(HidClient::close, (c,), ()) || call_ensures(
            HidClient::close_wait_end,
            (c, flush),
            r,
        ) ==> final(c)@.queue == if old(c)@.connected {
            old(c)@.queue + seq![HidCommand::Close]
        } else {
            old(c)@.queue
        } && final(c)@.connected == old(c)@.connected && final(c)@.next_ticket == old(c)@.next_ticket,
        call_ensures(HidClient::close_wait_end, (c, flush), r) ==> (r is Ok <==> flush is Ok) && (
        flush matches Err(e) ==> r == Err::<(), Error>(e)),
{
    assert(old(c)@.queue.push(HidCommand::Close) =~= old(c)@.queue + seq![HidCommand::Close]);
}

/// What a flush comes to: the dispatcher's word, and an error without one.
pub proof fn lemma_flush_outcomes(reply: Option<Result<usize>>, r: Result<usize>)
    requires
        call_ensures(flush_outcome, (reply,), r),
    ensures
        reply is Some ==> r == reply->0,
        reply is None ==> r is Err,
{
}

/// A new client is connected and has nothing queued; it holds as many commands as it was
/// made for.
pub proof fn lemma_new_clients(bound: usize, d: HidClient, c: HidClient)
    requires
        call_ensures(HidClient::new, (), d),
        call_ensures(HidClient::with_bound, (bound,), c),
    ensures
        c@.queue.len() == 0 && c@.connected && c@.bound == bound && !c@.waiting,
        d@.queue.len() == 0 && d@.connected && d@.bound == 4096 && !d@.waiting,
        c@.next_ticket == d@.next_ticket,
{
}

/// What a client tells of its queue.
pub proof fn lemma_client_tells(
    c: &HidClient,
    n: usize,
    room: bool,
    there: bool,
    blocked: Option<Result<()>>,
)
    requires
        call_ensures(HidClient::queued, (c,), n),
        call_ensures(HidClient::has_room, (c,), room),
        call_ensures(HidClient::is_connected, (c,), there),
        call_ensures(HidClient::blocked_send, (c,), blocked),
    ensures
        n == c@.queue.len(),
        there == c@.connected,
        room <==> there && (n < c@.bound || (c@.bound == 0 && c@.waiting && n == 0)),
        blocked is None <==> there && n > c@.bound,
        blocked == Some(Ok::<(), Error>(())) <==> n <= c@.bound,
{
}

/// The dispatcher takes commands from the front. It waits from its word on until it has
/// taken one, and once it is gone nothing is taken any more.
pub proof fn lemma_dispatcher_takes(c: &mut HidClient, r: Option<HidCommand>)
    ensures
        call_ensures(HidClient::take_command, (c,), r) ==> {
            &&& r is None <==> old(c)@.queue.len() == 0
            &&& r matches Some(cmd) ==> old(c)@.queue == seq![cmd] + final(c)@.queue
                && !final(c)@.waiting
            &&& r is None ==> final(c)@ == old(c)@
            &&& final(c)@.bound == old(c)@.bound && final(c)@.connected == old(c)@.connected
                && final(c)@.next_ticket == old(c)@.next_ticket
        },
        call_ensures(HidClient::await_command, (c,), ()) ==> final(c)@.waiting && final(c)@.queue
            == old(c)@.queue && final(c)@.connected == old(c)@.connected && final(c)@.bound == old(c)@.bound && final(c)@.next_ticket == old(c)@.next_ticket,
        call_ensures(HidClient::disconnect, (c,), ()) ==> !final(c)@.connected && final(c)@.queue
            == old(c)@.queue && final(c)@.bound == old(c)@.bound && final(c)@.next_ticket == old(c)@.next_ticket,
{
    if call_ensures(HidClient::take_command, (c,), r) && old(c)@.queue.len() > 0 {
        assert(old(c)@.queue =~= seq![old(c)@.queue[0]] + old(c)@.queue.drop_first());
    }
}

/// A send of a command, plain or bounded.
pub proof fn lemma_sends_ask(c: &mut HidClient, cmd: HidCommand, r: Result<()>)
    ensures
        call_ensures(HidClient::send, (c, cmd), r) ==> asked(
            true,
            old(c)@,
            final(c)@,
            r,
            calls_of(cmd),
        ) && (r is Ok ==> final(c)@.queue.last() == cmd),
        call_ensures(HidClient::try_send, (c, cmd), r) ==> asked(
            false,
            old(c)@,
            final(c)@,
            r,
            calls_of(cmd),
        ) && (r is Ok ==> final(c)@.queue.last() == cmd),
{
    lemma_queue_push(old(c)@.queue);
}

/// A flush without an answer fails because the dispatcher is down.
pub proof fn lemma_dropped_flush_is_named(r: Result<usize>)
    requires
        call_ensures(flush_outcome, (None,), r),
    ensures
        r == Err::<usize, Error>(Error::DispatcherDown("flush acknowledgement dropped")),
{
}

/// Why a chord over named keys is refused, wherever it is sent.
pub proof fn lemma_chord_refusals_are_named(
    c: &mut HidClient,
    scancodes: &[Scancode],
    mods: Modifiers,
    r: Result<()>,
)
    requires
        call_ensures(HidClient::scancode_chord, (c, scancodes, mods), r) || call_ensures(
            HidClient::try_scancode_chord,
            (c, scancodes, mods),
            r,
        ),
    ensures
        scancodes@.len() > 6 ==> r == Err::<(), Error>(
            Error::SessionLifecycle("keyboard chord too large"),
        ),
        scancodes@.len() <= 6 && names_modifier(scancodes@) ==> r == Err::<(), Error>(
            Error::SessionLifecycle("keyboard chord keys must be non-modifier scancodes"),
        ),
{
}

} // verus!
