//! What the dispatcher does with each command.
//!
//! A command becomes a run of session calls. The caller performs them one by one
//! and reports each result; the run decides what comes next, and the dispatcher
//! keeps the first error until an acknowledged flush reports it.
use vstd::prelude::*;
use vstd::utf8::encode_utf8;

use crate::batch::BatchFrame;
use crate::client::{
    android_key_batch, chord_queued, frame_batch, frame_batch_owned, key_batch, mouse_batch,
    packed_batch, packed_batch_owned, scancode_chord_sent, scroll_batch, ClientView,
};
use crate::command::HidCommand;
use crate::error::{Error, Result};
use crate::frames::{
    lemma_chord_presses_named_keys, lemma_chord_releases_in_reverse, names_chord, names_modifier,
    AndroidKeyFrame, KeyboardChordFrame, KeyboardFrame, MouseFrame, ScrollFrame, TouchFrame,
    ANDROID_KEY_BATCH_FRAMES, GAMEPAD_BATCH_FRAMES, KEYBOARD_BATCH_FRAMES, MOUSE_BATCH_FRAMES,
    SCROLL_BATCH_FRAMES, TOUCH_BATCH_FRAMES,
};
use crate::gamepad::{GamepadFrameRaw, GAMEPAD_FRAME_BYTES};
use crate::gamepad_batch::GamepadItem;
use crate::message::{
    AiConfig, AiQuery, BackOrScreenOn, ControlMessage, SetClipboard, SetDisplayPower, StartApp,
};
use crate::types::{GamepadAxis, GamepadButton, Modifiers, Scancode, TouchAction};
use crate::wire::{be16, be32, be64};

verus! {

/// One call into a session. The first `len` frames of a fixed batch count.
#[allow(inconsistent_fields)]
#[derive(Debug)]
pub enum SessionCall {
    TypeText(String),
    TypeTextStrict(String),
    Key { scancode: u8, pressed: bool, mods: Modifiers },
    MouseMotion { dx: i32, dy: i32, buttons: u8 },
    MouseButtons { buttons: u8 },
    MouseScroll { hscroll: u32, vscroll: u32 },
    InjectKeycode { action: u8, keycode: u32, repeat: u32, metastate: u32 },
    TapAndroidKeycode { keycode: u32, metastate: u32 },
    InjectTouchAction { action: TouchAction, id: u64, x: i32, y: i32, pressure: u32 },
    InjectTouch { action: u8, id: u64, x: i32, y: i32, pressure: u32 },
    CancelTouch { id: u64 },
    InjectScroll { x: i32, y: i32, hscroll: u32, vscroll: u32, buttons: u32 },
    SetButton { btn: GamepadButton, pressed: bool },
    SetButtons { buttons: u32 },
    SetStick { axis: GamepadAxis, value: u32 },
    SetStickRaw { axis: GamepadAxis, value: i16 },
    SetLeftStickRaw { x: i16, y: i16 },
    SetRightStickRaw { x: i16, y: i16 },
    SetTriggersRaw { left: i16, right: i16 },
    SetSticksRaw {
        left_x: i16,
        left_y: i16,
        right_x: i16,
        right_y: i16,
        left_trigger: i16,
        right_trigger: i16,
    },
    SetFrameRaw(GamepadFrameRaw),
    SetFrameRawUnchecked(GamepadFrameRaw),
    SetFrameRawBatch(Vec<GamepadFrameRaw>),
    SetFrameRawBatchFixed { len: u8, frames: [GamepadFrameRaw; GAMEPAD_BATCH_FRAMES] },
    SetFrameRawBatchFixedUnchecked { len: u8, frames: [GamepadFrameRaw; GAMEPAD_BATCH_FRAMES] },
    SetFrameRawBatchUnchecked(Vec<GamepadFrameRaw>),
    SetFrameRawPacked([u8; GAMEPAD_FRAME_BYTES]),
    SetFrameRawPackedBatch(Vec<[u8; GAMEPAD_FRAME_BYTES]>),
    SetFrameRawPackedBatchFixed {
        len: u8,
        frames: [[u8; GAMEPAD_FRAME_BYTES]; GAMEPAD_BATCH_FRAMES],
    },
    SetScreenSize { width: u16, height: u16 },
    Send(ControlMessage),
    ShowNotifications,
    ShowQuickSettings,
    CollapsePanels,
    RotateDevice,
    ResizeDisplay { width: u16, height: u16 },
    SetTorch { on: bool },
    CameraZoomIn,
    CameraZoomOut,
    OpenHardKeyboardSettings,
    ResetVideo,
    RequestClipboard { copy_key: u8 },
    FlushNow,
    Close,
}

/// How the results of a run's calls are taken.
#[derive(Debug, Clone, Copy, PartialEq, Eq, Structural)]
pub enum CallMode {
    /// Every call is made; the first error is kept.
    Each,
    /// A call that fails ends the run; its error is kept.
    Chain,
    /// The result does not matter.
    Ignore,
    /// The result answers the flush with this ticket.
    Reply { ticket: u64 },
    /// The result does not matter, and the dispatcher stops.
    Stop,
}

pub open spec fn key_call(f: KeyboardFrame) -> SessionCall {
    SessionCall::Key { scancode: f.scancode, pressed: f.pressed, mods: f.mods }
}

pub open spec fn mouse_call(f: MouseFrame) -> SessionCall {
    SessionCall::MouseMotion { dx: f.dx, dy: f.dy, buttons: f.buttons }
}

pub open spec fn android_key_call(f: AndroidKeyFrame) -> SessionCall {
    SessionCall::InjectKeycode {
        action: f.action,
        keycode: f.keycode,
        repeat: f.repeat,
        metastate: f.metastate,
    }
}

pub open spec fn touch_call(f: TouchFrame) -> SessionCall {
    SessionCall::InjectTouch {
        action: f.action,
        id: f.pointer_id,
        x: f.x,
        y: f.y,
        pressure: f.pressure,
    }
}

pub open spec fn scroll_call(f: ScrollFrame) -> SessionCall {
    SessionCall::InjectScroll {
        x: f.x,
        y: f.y,
        hscroll: f.hscroll,
        vscroll: f.vscroll,
        buttons: f.buttons,
    }
}

/// The session calls of a command, in order.
pub open spec fn calls_of(cmd: HidCommand) -> Seq<SessionCall> {
    match cmd {
        HidCommand::TypeText(s) => seq![SessionCall::TypeText(s)],
        HidCommand::TypeTextStrict(s) => seq![SessionCall::TypeTextStrict(s)],
        HidCommand::Key { scancode, pressed, mods } => seq![
            SessionCall::Key { scancode, pressed, mods },
        ],
        HidCommand::KeyTap { scancode, mods } => seq![
            SessionCall::Key { scancode, pressed: true, mods },
            SessionCall::Key { scancode, pressed: false, mods: Modifiers::empty() },
        ],
        HidCommand::KeyBatchFixed { len, frames } => Seq::new(
            len as nat,
            |i: int| key_call(frames@[i]),
        ),
        HidCommand::MouseMotion { dx, dy, buttons } => seq![
            SessionCall::MouseMotion { dx, dy, buttons },
        ],
        HidCommand::MouseButtons { buttons } => seq![SessionCall::MouseButtons { buttons }],
        HidCommand::MouseScroll { hscroll, vscroll } => seq![
            SessionCall::MouseScroll { hscroll, vscroll },
        ],
        HidCommand::MouseBatchFixed { len, frames } => Seq::new(
            len as nat,
            |i: int| mouse_call(frames@[i]),
        ),
        HidCommand::InjectKeycode { action, keycode, repeat, metastate } => seq![
            SessionCall::InjectKeycode { action, keycode, repeat, metastate },
        ],
        HidCommand::AndroidKeyTap { keycode, metastate } => seq![
            SessionCall::TapAndroidKeycode { keycode, metastate },
        ],
        HidCommand::AndroidKeyBatchFixed { len, frames } => Seq::new(
            len as nat,
            |i: int| android_key_call(frames@[i]),
        ),
        HidCommand::BackOrScreenOn { action } => seq![
            SessionCall::Send(ControlMessage::BackOrScreenOn(BackOrScreenOn { action })),
        ],
        HidCommand::MultitouchDown { id, x, y, pressure } => seq![
            SessionCall::InjectTouchAction { action: TouchAction::DOWN, id, x, y, pressure },
        ],
        HidCommand::MultitouchMove { id, x, y, pressure } => seq![
            SessionCall::InjectTouchAction { action: TouchAction::MOVE, id, x, y, pressure },
        ],
        HidCommand::MultitouchUp { id } => seq![
            SessionCall::InjectTouchAction { action: TouchAction::UP, id, x: 0, y: 0, pressure: 0 },
        ],
        HidCommand::MultitouchCancel { id } => seq![SessionCall::CancelTouch { id }],
        HidCommand::TouchBatchFixed { len, frames } => Seq::new(
            len as nat,
            |i: int| touch_call(frames@[i]),
        ),
        HidCommand::InjectScroll { x, y, hscroll, vscroll, buttons } => seq![
            SessionCall::InjectScroll { x, y, hscroll, vscroll, buttons },
        ],
        HidCommand::InjectScrollBatchFixed { len, frames } => Seq::new(
            len as nat,
            |i: int| scroll_call(frames@[i]),
        ),
        HidCommand::GamepadButton { btn, pressed } => seq![SessionCall::SetButton { btn, pressed }],
        HidCommand::GamepadButtons { buttons } => seq![SessionCall::SetButtons { buttons }],
        HidCommand::GamepadStick { axis, value } => seq![SessionCall::SetStick { axis, value }],
        HidCommand::GamepadStickRaw { axis, value } => seq![
            SessionCall::SetStickRaw { axis, value },
        ],
        HidCommand::GamepadLeftStickRaw { x, y } => seq![SessionCall::SetLeftStickRaw { x, y }],
        HidCommand::GamepadRightStickRaw { x, y } => seq![SessionCall::SetRightStickRaw { x, y }],
        HidCommand::GamepadTriggersRaw { left, right } => seq![
            SessionCall::SetTriggersRaw { left, right },
        ],
        HidCommand::GamepadSticksRaw {
            left_x,
            left_y,
            right_x,
            right_y,
            left_trigger,
            right_trigger,
        } => seq![
            SessionCall::SetSticksRaw {
                left_x,
                left_y,
                right_x,
                right_y,
                left_trigger,
                right_trigger,
            },
        ],
        HidCommand::GamepadFrameRaw {
            buttons,
            left_x,
            left_y,
            right_x,
            right_y,
            left_trigger,
            right_trigger,
        } => seq![
            SessionCall::SetFrameRaw(
                GamepadFrameRaw {
                    buttons,
                    left_x,
                    left_y,
                    right_x,
                    right_y,
                    left_trigger,
                    right_trigger,
                },
            ),
        ],
        HidCommand::GamepadFrameRawUnchecked(frame) => seq![
            SessionCall::SetFrameRawUnchecked(frame),
        ],
        HidCommand::GamepadFrameRawBatch(frames) => seq![SessionCall::SetFrameRawBatch(frames)],
        HidCommand::GamepadFrameRawBatchFixed { len, frames } => seq![
            SessionCall::SetFrameRawBatchFixed { len, frames },
        ],
        HidCommand::GamepadFrameRawBatchFixedUnchecked { len, frames } => seq![
            SessionCall::SetFrameRawBatchFixedUnchecked { len, frames },
        ],
        HidCommand::GamepadFrameRawBatchUnchecked(frames) => seq![
            SessionCall::SetFrameRawBatchUnchecked(frames),
        ],
        HidCommand::GamepadPackedFrame(frame) => seq![SessionCall::SetFrameRawPacked(frame)],
        HidCommand::GamepadPackedFrameBatch(frames) => seq![
            SessionCall::SetFrameRawPackedBatch(frames),
        ],
        HidCommand::GamepadPackedFrameBatchFixed { len, frames } => seq![
            SessionCall::SetFrameRawPackedBatchFixed { len, frames },
        ],
        HidCommand::SetScreenSize { width, height } => seq![
            SessionCall::SetScreenSize { width, height },
        ],
        HidCommand::SetScreenPower { on } => seq![
            SessionCall::Send(ControlMessage::SetDisplayPower(SetDisplayPower { on })),
        ],
        HidCommand::ShowNotifications => seq![SessionCall::ShowNotifications],
        HidCommand::ShowQuickSettings => seq![SessionCall::ShowQuickSettings],
        HidCommand::CollapsePanels => seq![SessionCall::CollapsePanels],
        HidCommand::RotateDevice => seq![SessionCall::RotateDevice],
        HidCommand::ResizeDisplay { width, height } => seq![
            SessionCall::ResizeDisplay { width, height },
        ],
        HidCommand::SetTorch { on } => seq![SessionCall::SetTorch { on }],
        HidCommand::CameraZoomIn => seq![SessionCall::CameraZoomIn],
        HidCommand::CameraZoomOut => seq![SessionCall::CameraZoomOut],
        HidCommand::OpenHardKeyboardSettings => seq![SessionCall::OpenHardKeyboardSettings],
        HidCommand::ResetVideo => seq![SessionCall::ResetVideo],
        HidCommand::AiConfig { flags, sample_interval_ms, feature_dim } => seq![
            SessionCall::Send(
                ControlMessage::AiConfig(AiConfig { flags, sample_interval_ms, feature_dim }),
            ),
        ],
        HidCommand::AiQuery { since_timestamp_ms } => seq![
            SessionCall::Send(ControlMessage::AiQuery(AiQuery { since_timestamp_ms })),
        ],
        HidCommand::AiPause => seq![SessionCall::Send(ControlMessage::AiPause)],
        HidCommand::LaunchApp { name } => seq![
            SessionCall::Send(ControlMessage::StartApp(StartApp { name })),
        ],
        HidCommand::SetClipboard { text, paste } => seq![
            SessionCall::Send(
                ControlMessage::SetClipboard(SetClipboard { sequence: 0, paste, text }),
            ),
        ],
        HidCommand::SetClipboardSequenced { sequence, text, paste } => seq![
            SessionCall::Send(ControlMessage::SetClipboard(SetClipboard { sequence, paste, text })),
        ],
        HidCommand::GetClipboard { copy_key } => seq![SessionCall::RequestClipboard { copy_key }],
        HidCommand::FlushAck { ticket: _ } => seq![SessionCall::FlushNow],
        HidCommand::Flush => seq![SessionCall::FlushNow],
        HidCommand::Close => seq![SessionCall::Close],
    }
}

/// How the results of a command's calls are taken.
pub open spec fn mode_of(cmd: HidCommand) -> CallMode {
    match cmd {
        HidCommand::KeyTap { .. } => CallMode::Chain,
        HidCommand::SetScreenSize { .. } => CallMode::Ignore,
        HidCommand::FlushAck { ticket } => CallMode::Reply { ticket },
        HidCommand::Close => CallMode::Stop,
        _ => CallMode::Each,
    }
}

fn key_calls(len: u8, frames: &[KeyboardFrame; KEYBOARD_BATCH_FRAMES]) -> (calls: Vec<SessionCall>)
    requires
        len <= KEYBOARD_BATCH_FRAMES,
    ensures
        calls@ == Seq::new(len as nat, |i: int| key_call(frames@[i])),
{
    let mut calls: Vec<SessionCall> = Vec::new();
    let mut i: usize = 0;
    while i < len as usize
        invariant
            i <= len <= KEYBOARD_BATCH_FRAMES,
            calls@ =~= Seq::new(i as nat, |j: int| key_call(frames@[j])),
        decreases len - i,
    {
        let f: KeyboardFrame = frames[i];
        calls.push(SessionCall::Key { scancode: f.scancode, pressed: f.pressed, mods: f.mods });
        i = i + 1;
    }
    calls
}

fn mouse_calls(len: u8, frames: &[MouseFrame; MOUSE_BATCH_FRAMES]) -> (calls: Vec<SessionCall>)
    requires
        len <= MOUSE_BATCH_FRAMES,
    ensures
        calls@ == Seq::new(len as nat, |i: int| mouse_call(frames@[i])),
{
    let mut calls: Vec<SessionCall> = Vec::new();
    let mut i: usize = 0;
    while i < len as usize
        invariant
            i <= len <= MOUSE_BATCH_FRAMES,
            calls@ =~= Seq::new(i as nat, |j: int| mouse_call(frames@[j])),
        decreases len - i,
    {
        let f: MouseFrame = frames[i];
        calls.push(SessionCall::MouseMotion { dx: f.dx, dy: f.dy, buttons: f.buttons });
        i = i + 1;
    }
    calls
}

fn android_key_calls(
    len: u8,
    frames: &[AndroidKeyFrame; ANDROID_KEY_BATCH_FRAMES],
) -> (calls: Vec<SessionCall>)
    requires
        len <= ANDROID_KEY_BATCH_FRAMES,
    ensures
        calls@ == Seq::new(len as nat, |i: int| android_key_call(frames@[i])),
{
    let mut calls: Vec<SessionCall> = Vec::new();
    let mut i: usize = 0;
    while i < len as usize
        invariant
            i <= len <= ANDROID_KEY_BATCH_FRAMES,
            calls@ =~= Seq::new(i as nat, |j: int| android_key_call(frames@[j])),
        decreases len - i,
    {
        let f: AndroidKeyFrame = frames[i];
        calls.push(
            SessionCall::InjectKeycode {
                action: f.action,
                keycode: f.keycode,
                repeat: f.repeat,
                metastate: f.metastate,
            },
        );
        i = i + 1;
    }
    calls
}

fn touch_calls(len: u8, frames: &[TouchFrame; TOUCH_BATCH_FRAMES]) -> (calls: Vec<SessionCall>)
    requires
        len <= TOUCH_BATCH_FRAMES,
    ensures
        calls@ == Seq::new(len as nat, |i: int| touch_call(frames@[i])),
{
    let mut calls: Vec<SessionCall> = Vec::new();
    let mut i: usize = 0;
    while i < len as usize
        invariant
            i <= len <= TOUCH_BATCH_FRAMES,
            calls@ =~= Seq::new(i as nat, |j: int| touch_call(frames@[j])),
        decreases len - i,
    {
        let f: TouchFrame = frames[i];
        calls.push(
            SessionCall::InjectTouch {
                action: f.action,
                id: f.pointer_id,
                x: f.x,
                y: f.y,
                pressure: f.pressure,
            },
        );
        i = i + 1;
    }
    calls
}

fn scroll_calls(len: u8, frames: &[ScrollFrame; SCROLL_BATCH_FRAMES]) -> (calls: Vec<SessionCall>)
    requires
        len <= SCROLL_BATCH_FRAMES,
    ensures
        calls@ == Seq::new(len as nat, |i: int| scroll_call(frames@[i])),
{
    let mut calls: Vec<SessionCall> = Vec::new();
    let mut i: usize = 0;
    while i < len as usize
        invariant
            i <= len <= SCROLL_BATCH_FRAMES,
            calls@ =~= Seq::new(i as nat, |j: int| scroll_call(frames@[j])),
        decreases len - i,
    {
        let f: ScrollFrame = frames[i];
        calls.push(
            SessionCall::InjectScroll {
                x: f.x,
                y: f.y,
                hscroll: f.hscroll,
                vscroll: f.vscroll,
                buttons: f.buttons,
            },
        );
        i = i + 1;
    }
    calls
}

fn one(call: SessionCall) -> (calls: Vec<SessionCall>)
    ensures
        calls@ == seq![call],
{
    let mut calls: Vec<SessionCall> = Vec::new();
    calls.push(call);
    assert(calls@ =~= seq![call]);
    calls
}

fn session_calls(cmd: HidCommand) -> (calls: Vec<SessionCall>)
    requires
        cmd.well_formed(),
    ensures
        calls@ == calls_of(cmd),
{
    match cmd {
        HidCommand::TypeText(s) => one(SessionCall::TypeText(s)),
        HidCommand::TypeTextStrict(s) => one(SessionCall::TypeTextStrict(s)),
        HidCommand::Key { scancode, pressed, mods } => one(
            SessionCall::Key { scancode, pressed, mods },
        ),
        HidCommand::KeyTap { scancode, mods } => {
            let mut calls: Vec<SessionCall> = one(
                SessionCall::Key { scancode, pressed: true, mods },
            );
            calls.push(SessionCall::Key { scancode, pressed: false, mods: Modifiers::empty() });
            assert(
                calls@ =~= seq![
                    SessionCall::Key { scancode, pressed: true, mods },
                    SessionCall::Key { scancode, pressed: false, mods: Modifiers::empty() },
                ]
            );
            calls
        },
        HidCommand::KeyBatchFixed { len, frames } => key_calls(len, &frames),
        HidCommand::MouseMotion { dx, dy, buttons } => one(
            SessionCall::MouseMotion { dx, dy, buttons },
        ),
        HidCommand::MouseButtons { buttons } => one(SessionCall::MouseButtons { buttons }),
        HidCommand::MouseScroll { hscroll, vscroll } => one(
            SessionCall::MouseScroll { hscroll, vscroll },
        ),
        HidCommand::MouseBatchFixed { len, frames } => mouse_calls(len, &frames),
        HidCommand::InjectKeycode { action, keycode, repeat, metastate } => one(
            SessionCall::InjectKeycode { action, keycode, repeat, metastate },
        ),
        HidCommand::AndroidKeyTap { keycode, metastate } => one(
            SessionCall::TapAndroidKeycode { keycode, metastate },
        ),
        HidCommand::AndroidKeyBatchFixed { len, frames } => android_key_calls(len, &frames),
        HidCommand::BackOrScreenOn { action } => one(
            SessionCall::Send(ControlMessage::BackOrScreenOn(BackOrScreenOn { action })),
        ),
        HidCommand::MultitouchDown { id, x, y, pressure } => one(
            SessionCall::InjectTouchAction { action: TouchAction::DOWN, id, x, y, pressure },
        ),
        HidCommand::MultitouchMove { id, x, y, pressure } => one(
            SessionCall::InjectTouchAction { action: TouchAction::MOVE, id, x, y, pressure },
        ),
        HidCommand::MultitouchUp { id } => one(
            SessionCall::InjectTouchAction { action: TouchAction::UP, id, x: 0, y: 0, pressure: 0 },
        ),
        HidCommand::MultitouchCancel { id } => one(SessionCall::CancelTouch { id }),
        HidCommand::TouchBatchFixed { len, frames } => touch_calls(len, &frames),
        HidCommand::InjectScroll { x, y, hscroll, vscroll, buttons } => one(
            SessionCall::InjectScroll { x, y, hscroll, vscroll, buttons },
        ),
        HidCommand::InjectScrollBatchFixed { len, frames } => scroll_calls(len, &frames),
        HidCommand::GamepadButton { btn, pressed } => one(SessionCall::SetButton { btn, pressed }),
        HidCommand::GamepadButtons { buttons } => one(SessionCall::SetButtons { buttons }),
        HidCommand::GamepadStick { axis, value } => one(SessionCall::SetStick { axis, value }),
        HidCommand::GamepadStickRaw { axis, value } => one(
            SessionCall::SetStickRaw { axis, value },
        ),
        HidCommand::GamepadLeftStickRaw { x, y } => one(SessionCall::SetLeftStickRaw { x, y }),
        HidCommand::GamepadRightStickRaw { x, y } => one(SessionCall::SetRightStickRaw { x, y }),
        HidCommand::GamepadTriggersRaw { left, right } => one(
            SessionCall::SetTriggersRaw { left, right },
        ),
        HidCommand::GamepadSticksRaw {
            left_x,
            left_y,
            right_x,
            right_y,
            left_trigger,
            right_trigger,
        } => one(
            SessionCall::SetSticksRaw {
                left_x,
                left_y,
                right_x,
                right_y,
                left_trigger,
                right_trigger,
            },
        ),
        HidCommand::GamepadFrameRaw {
            buttons,
            left_x,
            left_y,
            right_x,
            right_y,
            left_trigger,
            right_trigger,
        } => one(
            SessionCall::SetFrameRaw(
                GamepadFrameRaw {
                    buttons,
                    left_x,
                    left_y,
                    right_x,
                    right_y,
                    left_trigger,
                    right_trigger,
                },
            ),
        ),
        HidCommand::GamepadFrameRawUnchecked(frame) => one(
            SessionCall::SetFrameRawUnchecked(frame),
        ),
        HidCommand::GamepadFrameRawBatch(frames) => one(SessionCall::SetFrameRawBatch(frames)),
        HidCommand::GamepadFrameRawBatchFixed { len, frames } => one(
            SessionCall::SetFrameRawBatchFixed { len, frames },
        ),
        HidCommand::GamepadFrameRawBatchFixedUnchecked { len, frames } => one(
            SessionCall::SetFrameRawBatchFixedUnchecked { len, frames },
        ),
        HidCommand::GamepadFrameRawBatchUnchecked(frames) => one(
            SessionCall::SetFrameRawBatchUnchecked(frames),
        ),
        HidCommand::GamepadPackedFrame(frame) => one(SessionCall::SetFrameRawPacked(frame)),
        HidCommand::GamepadPackedFrameBatch(frames) => one(
            SessionCall::SetFrameRawPackedBatch(frames),
        ),
        HidCommand::GamepadPackedFrameBatchFixed { len, frames } => one(
            SessionCall::SetFrameRawPackedBatchFixed { len, frames },
        ),
        HidCommand::SetScreenSize { width, height } => one(
            SessionCall::SetScreenSize { width, height },
        ),
        HidCommand::SetScreenPower { on } => one(
            SessionCall::Send(ControlMessage::SetDisplayPower(SetDisplayPower { on })),
        ),
        HidCommand::ShowNotifications => one(SessionCall::ShowNotifications),
        HidCommand::ShowQuickSettings => one(SessionCall::ShowQuickSettings),
        HidCommand::CollapsePanels => one(SessionCall::CollapsePanels),
        HidCommand::RotateDevice => one(SessionCall::RotateDevice),
        HidCommand::ResizeDisplay { width, height } => one(
            SessionCall::ResizeDisplay { width, height },
        ),
        HidCommand::SetTorch { on } => one(SessionCall::SetTorch { on }),
        HidCommand::CameraZoomIn => one(SessionCall::CameraZoomIn),
        HidCommand::CameraZoomOut => one(SessionCall::CameraZoomOut),
        HidCommand::OpenHardKeyboardSettings => one(SessionCall::OpenHardKeyboardSettings),
        HidCommand::ResetVideo => one(SessionCall::ResetVideo),
        HidCommand::AiConfig { flags, sample_interval_ms, feature_dim } => one(
            SessionCall::Send(
                ControlMessage::AiConfig(AiConfig { flags, sample_interval_ms, feature_dim }),
            ),
        ),
        HidCommand::AiQuery { since_timestamp_ms } => one(
            SessionCall::Send(ControlMessage::AiQuery(AiQuery { since_timestamp_ms })),
        ),
        HidCommand::AiPause => one(SessionCall::Send(ControlMessage::AiPause)),
        HidCommand::LaunchApp { name } => one(
            SessionCall::Send(ControlMessage::StartApp(StartApp { name })),
        ),
        HidCommand::SetClipboard { text, paste } => one(
            SessionCall::Send(
                ControlMessage::SetClipboard(SetClipboard { sequence: 0, paste, text }),
            ),
        ),
        HidCommand::SetClipboardSequenced { sequence, text, paste } => one(
            SessionCall::Send(ControlMessage::SetClipboard(SetClipboard { sequence, paste, text })),
        ),
        HidCommand::GetClipboard { copy_key } => one(SessionCall::RequestClipboard { copy_key }),
        HidCommand::FlushAck { ticket: _ } => one(SessionCall::FlushNow),
        HidCommand::Flush => one(SessionCall::FlushNow),
        HidCommand::Close => one(SessionCall::Close),
    }
}

fn call_mode(cmd: &HidCommand) -> (mode: CallMode)
    ensures
        mode == mode_of(*cmd),
{
    match cmd {
        HidCommand::KeyTap { .. } => CallMode::Chain,
        HidCommand::SetScreenSize { .. } => CallMode::Ignore,
        HidCommand::FlushAck { ticket } => CallMode::Reply { ticket: *ticket },
        HidCommand::Close => CallMode::Stop,
        _ => CallMode::Each,
    }
}

/// The pending error after `result`: the first error stays.
pub open spec fn first_kept<T>(pending: Option<Error>, result: Result<T>) -> Option<Error> {
    match pending {
        Some(e) => Some(e),
        None => match result {
            Ok(_) => None,
            Err(e) => Some(e),
        },
    }
}

/// Keeps the error of `result` unless an earlier one is pending.
pub fn record_first_error<T>(pending_error: &mut Option<Error>, result: Result<T>)
    ensures
        *final(pending_error) == first_kept(*old(pending_error), result),
{
    if pending_error.is_none() {
        if let Err(e) = result {
            *pending_error = Some(e);
        }
    }
}

/// The dispatcher's answer to an acknowledged flush.
#[derive(Debug)]
pub struct FlushReply {
    pub ticket: u64,
    pub result: Result<usize>,
}

/// The session calls of one command, and how far they have come.
#[derive(Debug)]
pub struct DispatchRun {
    pub calls: Vec<SessionCall>,
    pub next: usize,
    pub mode: CallMode,
}

impl DispatchRun {
    /// Whether a call is still to be made.
    pub open spec fn active(&self) -> bool {
        self.next < self.calls@.len()
    }

    /// The run of a command, before its first call.
    pub fn begin(cmd: HidCommand) -> (run: DispatchRun)
        requires
            cmd.well_formed(),
        ensures
            run.calls@ == calls_of(cmd),
            run.next == 0,
            run.mode == mode_of(cmd),
    {
        let mode = call_mode(&cmd);
        DispatchRun { calls: session_calls(cmd), next: 0, mode }
    }

    /// The call to make now, if the run is not over.
    pub fn current(&self) -> (call: Option<&SessionCall>)
        ensures
            match call {
                Some(c) => self.active() && *c == self.calls@[self.next as int],
                None => !self.active(),
            },
    {
        if self.next < self.calls.len() {
            Some(&self.calls[self.next])
        } else {
            None
        }
    }

    /// Whether the dispatcher stops once the run is over.
    pub fn stops(&self) -> (r: bool)
        ensures
            r == (self.mode == CallMode::Stop),
    {
        match self.mode {
            CallMode::Stop => true,
            _ => false,
        }
    }
}

/// The pending error once a call has returned `result`.
pub open spec fn pending_after(
    mode: CallMode,
    pending: Option<Error>,
    result: Result<usize>,
) -> Option<Error> {
    match mode {
        CallMode::Each => first_kept(pending, result),
        CallMode::Chain => first_kept(pending, result),
        CallMode::Ignore => pending,
        CallMode::Stop => pending,
        CallMode::Reply { .. } => match pending {
            Some(_) => first_kept(None, result),
            None => None,
        },
    }
}

/// The answer that goes out once a call has returned `result`: the pending
/// error, or else the result.
pub open spec fn reply_after(
    mode: CallMode,
    pending: Option<Error>,
    result: Result<usize>,
) -> Option<FlushReply> {
    match mode {
        CallMode::Reply { ticket } => match pending {
            Some(e) => Some(FlushReply { ticket, result: Err(e) }),
            None => Some(FlushReply { ticket, result }),
        },
        _ => None,
    }
}

/// Which call comes after one that returned `result`.
pub open spec fn next_after(mode: CallMode, next: int, len: int, result: Result<usize>) -> int {
    if mode == CallMode::Chain && result is Err {
        len
    } else {
        next + 1
    }
}

/// The dispatcher's memory between commands.
#[derive(Debug)]
pub struct HidDispatcher {
    pub pending_error: Option<Error>,
}

impl HidDispatcher {
    pub fn new() -> (d: HidDispatcher)
        ensures
            d.pending_error is None,
    {
        HidDispatcher { pending_error: None }
    }

    /// Takes the result of the run's current call and moves the run on. The
    /// answer to an acknowledged flush, if the call was one, goes to its sender.
    pub fn complete(&mut self, run: &mut DispatchRun, result: Result<usize>) -> (reply: Option<
        FlushReply,
    >)
        requires
            old(run).active(),
        ensures
            final(run).calls == old(run).calls,
            final(run).mode == old(run).mode,
            final(run).next == next_after(
                old(run).mode,
                old(run).next as int,
                old(run).calls@.len() as int,
                result,
            ),
            final(self).pending_error == pending_after(
                old(run).mode,
                old(self).pending_error,
                result,
            ),
            reply == reply_after(old(run).mode, old(self).pending_error, result),
    {
        let total: usize = run.calls.len();
        match run.mode {
            CallMode::Each => {
                run.next = run.next + 1;
                record_first_error(&mut self.pending_error, result);
                None
            },
            CallMode::Chain => {
                if result.is_err() {
                    run.next = total;
                } else {
                    run.next = run.next + 1;
                }
                record_first_error(&mut self.pending_error, result);
                None
            },
            CallMode::Ignore => {
                run.next = run.next + 1;
                None
            },
            CallMode::Stop => {
                run.next = run.next + 1;
                None
            },
            CallMode::Reply { ticket } => {
                run.next = run.next + 1;
                match self.pending_error.take() {
                    Some(e) => {
                        record_first_error(&mut self.pending_error, result);
                        Some(FlushReply { ticket, result: Err(e) })
                    },
                    None => Some(FlushReply { ticket, result }),
                }
            },
        }
    }
}

/// The first error among results.
pub open spec fn first_error(results: Seq<Result<usize>>) -> Option<Error>
    decreases results.len(),
{
    if results.len() == 0 {
        None
    } else if results[0] is Err {
        Some(results[0]->Err_0)
    } else {
        first_error(results.drop_first())
    }
}

/// The pending error after the results of calls that are all made.
pub open spec fn recorded(pending: Option<Error>, results: Seq<Result<usize>>) -> Option<Error>
    decreases results.len(),
{
    if results.len() == 0 {
        pending
    } else {
        pending_after(CallMode::Each, recorded(pending, results.drop_last()), results.last())
    }
}

proof fn lemma_first_error_push(results: Seq<Result<usize>>, r: Result<usize>)
    ensures
        first_error(results.push(r)) == match first_error(results) {
            Some(e) => Some(e),
            None => first_kept(None, r),
        },
    decreases results.len(),
{
    reveal_with_fuel(first_error, 2);
    let all = results.push(r);
    if results.len() == 0 {
        assert(all.drop_first() =~= Seq::<Result<usize>>::empty());
    } else {
        assert(all[0] == results[0]);
        if !(results[0] is Err) {
            lemma_first_error_push(results.drop_first(), r);
            assert(all.drop_first() =~= results.drop_first().push(r));
        }
    }
}

/// The error that stays pending is the one that came first, however many calls
/// fail after it.
pub proof fn lemma_first_error_wins(pending: Option<Error>, results: Seq<Result<usize>>)
    ensures
        recorded(pending, results) == match pending {
            Some(e) => Some(e),
            None => first_error(results),
        },
    decreases results.len(),
{
    if results.len() > 0 {
        lemma_first_error_wins(pending, results.drop_last());
        lemma_first_error_push(results.drop_last(), results.last());
        assert(results.drop_last().push(results.last()) =~= results);
    }
}

/// A pending error is reported by the next acknowledged flush and not again: a
/// second flush in a row sees only what the first flush itself left behind.
pub proof fn lemma_error_reported_once(
    first: u64,
    second: u64,
    e: Error,
    flush1: Result<usize>,
    flush2: Result<usize>,
)
    ensures
        ({
            let m1 = CallMode::Reply { ticket: first };
            let m2 = CallMode::Reply { ticket: second };
            let p1 = pending_after(m1, Some(e), flush1);
            &&& reply_after(m1, Some(e), flush1) == Some(
                FlushReply { ticket: first, result: Err(e) },
            )
            &&& flush1 is Ok ==> p1 is None && reply_after(m2, p1, flush2) == Some(
                FlushReply { ticket: second, result: flush2 },
            )
            &&& flush1 matches Err(f) ==> reply_after(m2, p1, flush2) == Some(
                FlushReply { ticket: second, result: Err(f) },
            )
        }),
{
}

/// Only a close stops the dispatcher, and all it does is close the session.
pub proof fn lemma_only_close_stops(cmd: HidCommand)
    ensures
        (mode_of(cmd) == CallMode::Stop) == (cmd is Close),
        cmd is Close ==> calls_of(cmd) == seq![SessionCall::Close],
{
}

/// A command that carries frames makes exactly one call for each of them, in
/// their order.
pub proof fn lemma_frames_reach_session(cmd: HidCommand)
    requires
        cmd.well_formed(),
    ensures
        TouchFrame::carried(cmd).len() > 0 ==> calls_of(cmd) == TouchFrame::carried(
            cmd,
        ).map_values(|f: TouchFrame| touch_call(f)),
        KeyboardFrame::carried(cmd).len() > 0 ==> calls_of(cmd) == KeyboardFrame::carried(
            cmd,
        ).map_values(|f: KeyboardFrame| key_call(f)),
        AndroidKeyFrame::carried(cmd).len() > 0 ==> calls_of(cmd) == AndroidKeyFrame::carried(
            cmd,
        ).map_values(|f: AndroidKeyFrame| android_key_call(f)),
        MouseFrame::carried(cmd).len() > 0 ==> calls_of(cmd) == MouseFrame::carried(
            cmd,
        ).map_values(|f: MouseFrame| mouse_call(f)),
        ScrollFrame::carried(cmd).len() > 0 ==> calls_of(cmd) == ScrollFrame::carried(
            cmd,
        ).map_values(|f: ScrollFrame| scroll_call(f)),
{
    let calls = calls_of(cmd);
    if TouchFrame::carried(cmd).len() > 0 {
        assert(calls =~= TouchFrame::carried(cmd).map_values(|f: TouchFrame| touch_call(f)));
    }
    if KeyboardFrame::carried(cmd).len() > 0 {
        assert(calls =~= KeyboardFrame::carried(cmd).map_values(|f: KeyboardFrame| key_call(f)));
    }
    if AndroidKeyFrame::carried(cmd).len() > 0 {
        assert(calls =~= AndroidKeyFrame::carried(cmd).map_values(
            |f: AndroidKeyFrame| android_key_call(f),
        ));
    }
    if MouseFrame::carried(cmd).len() > 0 {
        assert(calls =~= MouseFrame::carried(cmd).map_values(|f: MouseFrame| mouse_call(f)));
    }
    if ScrollFrame::carried(cmd).len() > 0 {
        assert(calls =~= ScrollFrame::carried(cmd).map_values(|f: ScrollFrame| scroll_call(f)));
    }
}

/// What a touch call puts on the wire: action code, pointer, position, pressure.
pub open spec fn touch_fields(call: SessionCall) -> Option<(u8, u64, i32, i32, u32)> {
    match call {
        SessionCall::InjectTouchAction { action, id, x, y, pressure } => Some(
            (action.code(), id, x, y, pressure),
        ),
        SessionCall::InjectTouch { action, id, x, y, pressure } => Some(
            (action, id, x, y, pressure),
        ),
        _ => None,
    }
}

/// The pointers that are down after a call, where `down` were before it.
pub open spec fn pointers_after(down: Set<u64>, call: SessionCall) -> Set<u64> {
    match touch_fields(call) {
        Some((code, id, _, _, _)) => if code == 0 {
            down.insert(id)
        } else if code == 2 {
            down
        } else {
            down.remove(id)
        },
        None => match call {
            SessionCall::CancelTouch { id } => down.remove(id),
            _ => down,
        },
    }
}

/// A press, a move and a release of a pointer are one call each, with the wire codes
/// 0, 2 and 1. A press and a move keep their position and pressure; a release has
/// none.
pub proof fn lemma_touch_commands_on_wire(id: u64, x: i32, y: i32, pressure: u32)
    ensures
        ({
            let down = calls_of(HidCommand::MultitouchDown { id, x, y, pressure });
            let moved = calls_of(HidCommand::MultitouchMove { id, x, y, pressure });
            let up = calls_of(HidCommand::MultitouchUp { id });
            &&& down.len() == 1 && moved.len() == 1 && up.len() == 1
            &&& touch_fields(down[0]) == Some((0u8, id, x, y, pressure))
            &&& touch_fields(moved[0]) == Some((2u8, id, x, y, pressure))
            &&& touch_fields(up[0]) == Some((1u8, id, 0i32, 0i32, 0u32))
        }),
{
}

/// A press adds its pointer to those that are down, a move changes none of them, and
/// a release and a cancel take their pointer away.
pub proof fn lemma_touch_commands_move_pointers(
    held: Set<u64>,
    id: u64,
    x: i32,
    y: i32,
    pressure: u32,
)
    ensures
        ({
            let down = calls_of(HidCommand::MultitouchDown { id, x, y, pressure });
            let moved = calls_of(HidCommand::MultitouchMove { id, x, y, pressure });
            let up = calls_of(HidCommand::MultitouchUp { id });
            let cancel = calls_of(HidCommand::MultitouchCancel { id });
            &&& pointers_after(held, down[0]) == held.insert(id)
            &&& pointers_after(held, moved[0]) == held
            &&& pointers_after(held, up[0]) == held.remove(id)
            &&& cancel.len() == 1
            &&& pointers_after(held, cancel[0]) == held.remove(id)
        }),
{
}

/// A single touch command and a batch of the one frame with its code, pointer,
/// position and pressure put the same on the wire.
pub proof fn lemma_touch_command_is_batch_of_one(
    frames: [TouchFrame; TOUCH_BATCH_FRAMES],
    id: u64,
    x: i32,
    y: i32,
    pressure: u32,
)
    requires
        frames@[0].pointer_id == id,
        frames@[0].x == x,
        frames@[0].y == y,
        frames@[0].pressure == pressure,
    ensures
        ({
            let batch = calls_of(HidCommand::TouchBatchFixed { len: 1, frames });
            &&& batch.len() == 1
            &&& frames@[0].action == 0 ==> touch_fields(batch[0]) == touch_fields(
                calls_of(HidCommand::MultitouchDown { id, x, y, pressure })[0],
            )
            &&& frames@[0].action == 2 ==> touch_fields(batch[0]) == touch_fields(
                calls_of(HidCommand::MultitouchMove { id, x, y, pressure })[0],
            )
            &&& frames@[0].action == 1 && x == 0 && y == 0 && pressure == 0 ==> touch_fields(
                batch[0],
            ) == touch_fields(calls_of(HidCommand::MultitouchUp { id })[0])
        }),
{
}

/// The `i`-th frame of a batch makes the `i`-th call, and every field of the frame is
/// in it.
pub proof fn lemma_batch_frames_on_wire(
    len: u8,
    i: int,
    keys: [KeyboardFrame; KEYBOARD_BATCH_FRAMES],
    motions: [MouseFrame; MOUSE_BATCH_FRAMES],
    android_keys: [AndroidKeyFrame; ANDROID_KEY_BATCH_FRAMES],
    touches: [TouchFrame; TOUCH_BATCH_FRAMES],
    scrolls: [ScrollFrame; SCROLL_BATCH_FRAMES],
)
    requires
        0 <= i < len <= 24,
    ensures
        ({
            let k = calls_of(HidCommand::KeyBatchFixed { len, frames: keys });
            let m = calls_of(HidCommand::MouseBatchFixed { len, frames: motions });
            let a = calls_of(HidCommand::AndroidKeyBatchFixed { len, frames: android_keys });
            let t = calls_of(HidCommand::TouchBatchFixed { len, frames: touches });
            let s = calls_of(HidCommand::InjectScrollBatchFixed { len, frames: scrolls });
            &&& k.len() == len && m.len() == len && a.len() == len && t.len() == len && s.len()
                == len
            &&& k[i] matches SessionCall::Key { scancode, pressed, mods } && scancode
                == keys@[i].scancode && pressed == keys@[i].pressed && mods == keys@[i].mods
            &&& m[i] matches SessionCall::MouseMotion { dx, dy, buttons } && dx == motions@[i].dx
                && dy == motions@[i].dy && buttons == motions@[i].buttons
            &&& a[i] matches SessionCall::InjectKeycode { action, keycode, repeat, metastate }
                && action == android_keys@[i].action && keycode == android_keys@[i].keycode
                && repeat == android_keys@[i].repeat && metastate == android_keys@[i].metastate
            &&& touch_fields(t[i]) == Some(
                (
                    touches@[i].action,
                    touches@[i].pointer_id,
                    touches@[i].x,
                    touches@[i].y,
                    touches@[i].pressure,
                ),
            )
            &&& s[i] matches SessionCall::InjectScroll { x, y, hscroll, vscroll, buttons } && x
                == scrolls@[i].x && y == scrolls@[i].y && hscroll == scrolls@[i].hscroll && vscroll
                == scrolls@[i].vscroll && buttons == scrolls@[i].buttons
        }),
{
}

/// One key, motion, Android key or scroll by itself makes the call that a batch of
/// that one frame makes.
pub proof fn lemma_single_commands_are_batches_of_one(
    keys: [KeyboardFrame; KEYBOARD_BATCH_FRAMES],
    motions: [MouseFrame; MOUSE_BATCH_FRAMES],
    android_keys: [AndroidKeyFrame; ANDROID_KEY_BATCH_FRAMES],
    scrolls: [ScrollFrame; SCROLL_BATCH_FRAMES],
)
    ensures
        ({
            let f = keys@[0];
            calls_of(HidCommand::KeyBatchFixed { len: 1, frames: keys }) == calls_of(
                HidCommand::Key { scancode: f.scancode, pressed: f.pressed, mods: f.mods },
            )
        }),
        ({
            let f = motions@[0];
            calls_of(HidCommand::MouseBatchFixed { len: 1, frames: motions }) == calls_of(
                HidCommand::MouseMotion { dx: f.dx, dy: f.dy, buttons: f.buttons },
            )
        }),
        ({
            let f = android_keys@[0];
            calls_of(HidCommand::AndroidKeyBatchFixed { len: 1, frames: android_keys }) == calls_of(
                HidCommand::InjectKeycode {
                    action: f.action,
                    keycode: f.keycode,
                    repeat: f.repeat,
                    metastate: f.metastate,
                },
            )
        }),
        ({
            let f = scrolls@[0];
            calls_of(HidCommand::InjectScrollBatchFixed { len: 1, frames: scrolls }) == calls_of(
                HidCommand::InjectScroll {
                    x: f.x,
                    y: f.y,
                    hscroll: f.hscroll,
                    vscroll: f.vscroll,
                    buttons: f.buttons,
                },
            )
        }),
{
}

/// A tap of a key is a press under its modifiers and a release of the same key under
/// none. A tap of an Android key, a button report and a wheel report keep their
/// values.
pub proof fn lemma_taps_and_reports_on_wire(
    scancode: u8,
    mods: Modifiers,
    keycode: u32,
    metastate: u32,
    buttons: u8,
    hscroll: u32,
    vscroll: u32,
)
    ensures
        ({
            let tap = calls_of(HidCommand::KeyTap { scancode, mods });
            &&& tap.len() == 2
            &&& tap[0] matches SessionCall::Key { scancode: s, pressed, mods: m } && s == scancode
                && pressed && m == mods
            &&& tap[1] matches SessionCall::Key { scancode: s, pressed, mods: m } && s == scancode
                && !pressed && m.bits == 0
        }),
        ({
            let tap = calls_of(HidCommand::AndroidKeyTap { keycode, metastate });
            &&& tap.len() == 1
            &&& tap[0] matches SessionCall::TapAndroidKeycode { keycode: k, metastate: m } && k
                == keycode && m == metastate
        }),
        ({
            let held = calls_of(HidCommand::MouseButtons { buttons });
            &&& held.len() == 1
            &&& held[0] matches SessionCall::MouseButtons { buttons: b } && b == buttons
        }),
        ({
            let wheel = calls_of(HidCommand::MouseScroll { hscroll, vscroll });
            &&& wheel.len() == 1
            &&& wheel[0] matches SessionCall::MouseScroll { hscroll: h, vscroll: v } && h == hscroll
                && v == vscroll
        }),
{
}

/// What the commands that go out as control messages put on the wire, byte for byte.
pub proof fn lemma_message_commands_on_wire(
    action: u8,
    on: bool,
    flags: u8,
    sample_interval_ms: u16,
    feature_dim: u16,
    since_timestamp_ms: u64,
    name: String,
    sequence: u64,
    text: String,
    paste: bool,
)
    ensures
        sends(
            calls_of(HidCommand::BackOrScreenOn { action }),
            seq![4u8, action],
        ),
        sends(
            calls_of(HidCommand::SetScreenPower { on }),
            seq![10u8, if on { 1u8 } else { 0 }],
        ),
        sends(
            calls_of(HidCommand::AiConfig { flags, sample_interval_ms, feature_dim }),
            seq![22u8, flags] + be16(sample_interval_ms) + be16(feature_dim),
        ),
        sends(
            calls_of(HidCommand::AiQuery { since_timestamp_ms }),
            seq![23u8] + be64(since_timestamp_ms),
        ),
        sends(calls_of(HidCommand::AiPause), seq![24u8]),
        sends(
            calls_of(HidCommand::LaunchApp { name }),
            seq![16u8, encode_utf8(name@).len() as u8] + encode_utf8(name@),
        ),
        sends(
            calls_of(HidCommand::SetClipboardSequenced { sequence, text, paste }),
            seq![9u8] + be64(sequence) + seq![if paste { 1u8 } else { 0 }] + be32(
                encode_utf8(text@).len() as u32,
            ) + encode_utf8(text@),
        ),
        calls_of(HidCommand::SetClipboard { text, paste }) == calls_of(
            HidCommand::SetClipboardSequenced { sequence: 0, text, paste },
        ),
{
}

/// Whether calls are one control message with these bytes.
pub open spec fn sends(calls: Seq<SessionCall>, bytes: Seq<u8>) -> bool {
    calls.len() == 1 && calls[0] is Send && calls[0]->Send_0.bytes() == bytes
}

/// The gamepad after a call, where it stood at `pad` before.
pub open spec fn pad_after(pad: GamepadFrameRaw, call: SessionCall) -> GamepadFrameRaw {
    match call {
        SessionCall::SetButtons { buttons } => GamepadFrameRaw { buttons, ..pad },
        SessionCall::SetLeftStickRaw { x, y } => GamepadFrameRaw { left_x: x, left_y: y, ..pad },
        SessionCall::SetRightStickRaw { x, y } => GamepadFrameRaw { right_x: x, right_y: y, ..pad },
        SessionCall::SetTriggersRaw { left, right } => GamepadFrameRaw {
            left_trigger: left,
            right_trigger: right,
            ..pad
        },
        SessionCall::SetSticksRaw {
            left_x,
            left_y,
            right_x,
            right_y,
            left_trigger,
            right_trigger,
        } => GamepadFrameRaw {
            left_x,
            left_y,
            right_x,
            right_y,
            left_trigger,
            right_trigger,
            ..pad
        },
        SessionCall::SetFrameRaw(frame) => frame,
        SessionCall::SetFrameRawUnchecked(frame) => frame,
        _ => pad,
    }
}

/// The gamepad after the calls of a command.
pub open spec fn pad_after_command(pad: GamepadFrameRaw, cmd: HidCommand) -> GamepadFrameRaw {
    calls_of(cmd).fold_left(pad, |p: GamepadFrameRaw, c: SessionCall| pad_after(p, c))
}

proof fn lemma_pad_after_one(pad: GamepadFrameRaw, cmd: HidCommand)
    requires
        calls_of(cmd).len() == 1,
    ensures
        pad_after_command(pad, cmd) == pad_after(pad, calls_of(cmd)[0]),
{
    reveal_with_fuel(Seq::fold_left, 2);
}

/// Setting the left stick, the right stick and the triggers one by one leaves the
/// gamepad as setting them together does. With the buttons too, it stands as after
/// one frame, wherever it stood before.
pub proof fn lemma_gamepad_parts_make_frame(pad: GamepadFrameRaw, f: GamepadFrameRaw)
    ensures
        ({
            let left = HidCommand::GamepadLeftStickRaw { x: f.left_x, y: f.left_y };
            let right = HidCommand::GamepadRightStickRaw { x: f.right_x, y: f.right_y };
            let triggers = HidCommand::GamepadTriggersRaw {
                left: f.left_trigger,
                right: f.right_trigger,
            };
            let sticks = HidCommand::GamepadSticksRaw {
                left_x: f.left_x,
                left_y: f.left_y,
                right_x: f.right_x,
                right_y: f.right_y,
                left_trigger: f.left_trigger,
                right_trigger: f.right_trigger,
            };
            let buttons = HidCommand::GamepadButtons { buttons: f.buttons };
            let frame = HidCommand::GamepadFrameRaw {
                buttons: f.buttons,
                left_x: f.left_x,
                left_y: f.left_y,
                right_x: f.right_x,
                right_y: f.right_y,
                left_trigger: f.left_trigger,
                right_trigger: f.right_trigger,
            };
            let after_left = pad_after_command(pad, left);
            let after_right = pad_after_command(after_left, right);
            let after_triggers = pad_after_command(after_right, triggers);
            &&& after_left.left_x == f.left_x && after_left.left_y == f.left_y
            &&& after_right.right_x == f.right_x && after_right.right_y == f.right_y
            &&& after_triggers.left_trigger == f.left_trigger
            &&& after_triggers.right_trigger == f.right_trigger
            &&& after_triggers == pad_after_command(pad, sticks)
            &&& pad_after_command(after_triggers, buttons) == f
            &&& pad_after_command(pad, frame) == f
            &&& pad_after_command(pad, HidCommand::GamepadFrameRawUnchecked(f)) == f
        }),
{
    let left = HidCommand::GamepadLeftStickRaw { x: f.left_x, y: f.left_y };
    let right = HidCommand::GamepadRightStickRaw { x: f.right_x, y: f.right_y };
    let triggers = HidCommand::GamepadTriggersRaw { left: f.left_trigger, right: f.right_trigger };
    let sticks = HidCommand::GamepadSticksRaw {
        left_x: f.left_x,
        left_y: f.left_y,
        right_x: f.right_x,
        right_y: f.right_y,
        left_trigger: f.left_trigger,
        right_trigger: f.right_trigger,
    };
    let buttons = HidCommand::GamepadButtons { buttons: f.buttons };
    let frame = HidCommand::GamepadFrameRaw {
        buttons: f.buttons,
        left_x: f.left_x,
        left_y: f.left_y,
        right_x: f.right_x,
        right_y: f.right_y,
        left_trigger: f.left_trigger,
        right_trigger: f.right_trigger,
    };
    lemma_pad_after_one(pad, left);
    let p1 = pad_after_command(pad, left);
    lemma_pad_after_one(p1, right);
    let p2 = pad_after_command(p1, right);
    lemma_pad_after_one(p2, triggers);
    let p3 = pad_after_command(p2, triggers);
    lemma_pad_after_one(p3, buttons);
    lemma_pad_after_one(pad, sticks);
    lemma_pad_after_one(pad, frame);
    lemma_pad_after_one(pad, HidCommand::GamepadFrameRawUnchecked(f));
}

/// One button or one axis is set by name to the value that the command gives.
pub proof fn lemma_single_inputs_keep_values(
    btn: GamepadButton,
    pressed: bool,
    axis: GamepadAxis,
    value: u32,
    raw: i16,
)
    ensures
        ({
            let c = calls_of(HidCommand::GamepadButton { btn, pressed });
            &&& c.len() == 1
            &&& c[0] matches SessionCall::SetButton { btn: b, pressed: p } && b == btn && p
                == pressed
        }),
        ({
            let c = calls_of(HidCommand::GamepadStick { axis, value });
            &&& c.len() == 1
            &&& c[0] matches SessionCall::SetStick { axis: a, value: v } && a == axis && v == value
        }),
        ({
            let c = calls_of(HidCommand::GamepadStickRaw { axis, value: raw });
            &&& c.len() == 1
            &&& c[0] matches SessionCall::SetStickRaw { axis: a, value: v } && a == axis && v == raw
        }),
{
}

/// The gamepad frames that a call sets, in order.
pub open spec fn frames_set(call: SessionCall) -> Seq<GamepadFrameRaw> {
    match call {
        SessionCall::SetFrameRaw(frame) => seq![frame],
        SessionCall::SetFrameRawUnchecked(frame) => seq![frame],
        SessionCall::SetFrameRawBatch(frames) => frames@,
        SessionCall::SetFrameRawBatchUnchecked(frames) => frames@,
        SessionCall::SetFrameRawBatchFixed { len, frames } => frames@.take(len as int),
        SessionCall::SetFrameRawBatchFixedUnchecked { len, frames } => frames@.take(len as int),
        _ => Seq::empty(),
    }
}

/// Whether a call skips frames that repeat the gamepad's state.
pub open spec fn skips_repeats(call: SessionCall) -> bool {
    call is SetFrameRaw || call is SetFrameRawBatch || call is SetFrameRawBatchFixed
}

/// A batch of gamepad frames makes one call that sets exactly its frames, in order.
/// The call skips repeats unless the command is an unchecked one.
pub proof fn lemma_gamepad_batches_on_wire(
    len: u8,
    slots: [GamepadFrameRaw; GAMEPAD_BATCH_FRAMES],
    frames: Vec<GamepadFrameRaw>,
)
    requires
        len <= GAMEPAD_BATCH_FRAMES,
    ensures
        ({
            let checked = calls_of(HidCommand::GamepadFrameRawBatchFixed { len, frames: slots });
            let unchecked = calls_of(
                HidCommand::GamepadFrameRawBatchFixedUnchecked { len, frames: slots },
            );
            &&& checked.len() == 1 && unchecked.len() == 1
            &&& frames_set(checked[0]) == slots@.take(len as int)
            &&& frames_set(unchecked[0]) == slots@.take(len as int)
            &&& skips_repeats(checked[0]) && !skips_repeats(unchecked[0])
        }),
        ({
            let checked = calls_of(HidCommand::GamepadFrameRawBatch(frames));
            let unchecked = calls_of(HidCommand::GamepadFrameRawBatchUnchecked(frames));
            &&& checked.len() == 1 && unchecked.len() == 1
            &&& frames_set(checked[0]) == frames@
            &&& frames_set(unchecked[0]) == frames@
            &&& skips_repeats(checked[0]) && !skips_repeats(unchecked[0])
        }),
        forall|f: GamepadFrameRaw|
            !skips_repeats(#[trigger] calls_of(HidCommand::GamepadFrameRawUnchecked(f))[0]),
        forall|f: GamepadFrameRaw|
            skips_repeats(
                (#[trigger] calls_of(
                    HidCommand::GamepadFrameRaw {
                        buttons: f.buttons,
                        left_x: f.left_x,
                        left_y: f.left_y,
                        right_x: f.right_x,
                        right_y: f.right_y,
                        left_trigger: f.left_trigger,
                        right_trigger: f.right_trigger,
                    },
                ))[0],
            ),
{
}

/// Packed gamepad frames reach the session as they are, in one call.
pub proof fn lemma_packed_frames_on_wire(
    frame: [u8; GAMEPAD_FRAME_BYTES],
    frames: Vec<[u8; GAMEPAD_FRAME_BYTES]>,
    len: u8,
    slots: [[u8; GAMEPAD_FRAME_BYTES]; GAMEPAD_BATCH_FRAMES],
)
    ensures
        ({
            let c = calls_of(HidCommand::GamepadPackedFrame(frame));
            &&& c.len() == 1
            &&& c[0] matches SessionCall::SetFrameRawPacked(f) && f == frame
        }),
        ({
            let c = calls_of(HidCommand::GamepadPackedFrameBatch(frames));
            &&& c.len() == 1
            &&& c[0] matches SessionCall::SetFrameRawPackedBatch(f) && f == frames
        }),
        ({
            let c = calls_of(HidCommand::GamepadPackedFrameBatchFixed { len, frames: slots });
            &&& c.len() == 1
            &&& c[0] matches SessionCall::SetFrameRawPackedBatchFixed {
                len: n,
                frames: f,
            } && n == len && f == slots
        }),
{
}

/// Text, sizes and switches reach the session with the values that they are given.
pub proof fn lemma_settings_keep_values(
    text: String,
    width: u16,
    height: u16,
    on: bool,
    copy_key: u8,
)
    ensures
        ({
            let c = calls_of(HidCommand::TypeText(text));
            &&& c.len() == 1
            &&& c[0] matches SessionCall::TypeText(t) && t == text
        }),
        ({
            let c = calls_of(HidCommand::TypeTextStrict(text));
            &&& c.len() == 1
            &&& c[0] matches SessionCall::TypeTextStrict(t) && t == text
        }),
        ({
            let c = calls_of(HidCommand::SetScreenSize { width, height });
            &&& c.len() == 1
            &&& c[0] matches SessionCall::SetScreenSize { width: w, height: h } && w
                == width && h == height
        }),
        ({
            let c = calls_of(HidCommand::ResizeDisplay { width, height });
            &&& c.len() == 1
            &&& c[0] matches SessionCall::ResizeDisplay { width: w, height: h } && w
                == width && h == height
        }),
        ({
            let c = calls_of(HidCommand::SetTorch { on });
            &&& c.len() == 1
            &&& c[0] matches SessionCall::SetTorch { on: o } && o == on
        }),
        ({
            let c = calls_of(HidCommand::GetClipboard { copy_key });
            &&& c.len() == 1
            &&& c[0] matches SessionCall::RequestClipboard { copy_key: k } && k
                == copy_key
        }),
{
}

/// Every command without values has a call of its own, and a plain flush makes the
/// call that an acknowledged one makes.
pub proof fn lemma_plain_commands_have_own_call(cmd: HidCommand)
    ensures
        cmd is ShowNotifications <==> calls_of(cmd) == seq![SessionCall::ShowNotifications],
        cmd is ShowQuickSettings <==> calls_of(cmd) == seq![SessionCall::ShowQuickSettings],
        cmd is CollapsePanels <==> calls_of(cmd) == seq![SessionCall::CollapsePanels],
        cmd is RotateDevice <==> calls_of(cmd) == seq![SessionCall::RotateDevice],
        cmd is CameraZoomIn <==> calls_of(cmd) == seq![SessionCall::CameraZoomIn],
        cmd is CameraZoomOut <==> calls_of(cmd) == seq![SessionCall::CameraZoomOut],
        cmd is OpenHardKeyboardSettings <==> calls_of(cmd) == seq![
            SessionCall::OpenHardKeyboardSettings,
        ],
        cmd is ResetVideo <==> calls_of(cmd) == seq![SessionCall::ResetVideo],
        cmd is Flush || cmd is FlushAck <==> calls_of(cmd) == seq![SessionCall::FlushNow],
        cmd is Close <==> calls_of(cmd) == seq![SessionCall::Close],
{
    let calls = calls_of(cmd);
    assert(calls =~= seq![SessionCall::ShowNotifications] ==> calls.len() == 1 && calls[0]
        is ShowNotifications);
    assert(calls =~= seq![SessionCall::ShowQuickSettings] ==> calls.len() == 1 && calls[0]
        is ShowQuickSettings);
    assert(calls =~= seq![SessionCall::CollapsePanels] ==> calls.len() == 1 && calls[0]
        is CollapsePanels);
    assert(calls =~= seq![SessionCall::RotateDevice] ==> calls.len() == 1 && calls[0]
        is RotateDevice);
    assert(calls =~= seq![SessionCall::CameraZoomIn] ==> calls.len() == 1 && calls[0]
        is CameraZoomIn);
    assert(calls =~= seq![SessionCall::CameraZoomOut] ==> calls.len() == 1 && calls[0]
        is CameraZoomOut);
    assert(calls =~= seq![SessionCall::OpenHardKeyboardSettings] ==> calls.len() == 1 && calls[0]
        is OpenHardKeyboardSettings);
    assert(calls =~= seq![SessionCall::ResetVideo] ==> calls.len() == 1 && calls[0] is ResetVideo);
    assert(calls =~= seq![SessionCall::FlushNow] ==> calls.len() == 1 && calls[0] is FlushNow);
    assert(calls =~= seq![SessionCall::Close] ==> calls.len() == 1 && calls[0] is Close);
}

/// Who learns of a failed call. A flush with a ticket answers under that ticket and
/// keeps the failure to itself; nothing else answers. A screen size and a close lose
/// it. Every other command leaves it pending where nothing is pending yet.
pub proof fn lemma_failure_goes_to(cmd: HidCommand, e: Error)
    ensures
        ({
            let mode = mode_of(cmd);
            let failed = Err::<usize, Error>(e);
            &&& reply_after(mode, None, failed) == match cmd {
                HidCommand::FlushAck { ticket } => Some(FlushReply { ticket, result: failed }),
                _ => None,
            }
            &&& pending_after(mode, None, failed) == if cmd is FlushAck || cmd is SetScreenSize
                || cmd is Close {
                None
            } else {
                Some(e)
            }
        }),
{
}

/// A success leaves nothing pending, whatever the command, and never hides an error
/// that is: only a flush with a ticket takes it away.
pub proof fn lemma_success_hides_nothing(cmd: HidCommand, pending: Option<Error>, n: usize)
    ensures
        ({
            let after = pending_after(mode_of(cmd), pending, Ok::<usize, Error>(n));
            &&& pending is None ==> after is None
            &&& !(cmd is FlushAck) ==> after == pending
            &&& cmd is FlushAck ==> after is None
        }),
{
}

/// A call that succeeds is followed by the next one. A call that fails is too, but
/// the release of a key that could not be pressed is not made.
pub proof fn lemma_failed_press_is_not_released(cmd: HidCommand, i: int, r: Result<usize>)
    requires
        0 <= i < calls_of(cmd).len(),
    ensures
        ({
            let n = calls_of(cmd).len() as int;
            let next = next_after(mode_of(cmd), i, n, r);
            &&& r is Ok ==> next == i + 1
            &&& cmd is KeyTap && r is Err ==> next == n
            &&& !(cmd is KeyTap) ==> next == i + 1
        }),
{
}

/// Frames that were put into a command by a batcher reach the session one by one, in
/// order, with every field as it was: here a touch.
pub proof fn lemma_batched_touch_reaches_session(cmd: HidCommand, frames: Seq<TouchFrame>, i: int)
    requires
        TouchFrame::batch_of(cmd, frames),
        frames.len() <= 24,
        0 <= i < frames.len(),
    ensures
        calls_of(cmd).len() == frames.len(),
        touch_fields(calls_of(cmd)[i]) == Some(
            (
                frames[i].action,
                frames[i].pointer_id,
                frames[i].x,
                frames[i].y,
                frames[i].pressure,
            ),
        ),
{
}

/// The same of a keyboard edge.
pub proof fn lemma_batched_key_reaches_session(cmd: HidCommand, frames: Seq<KeyboardFrame>, i: int)
    requires
        KeyboardFrame::batch_of(cmd, frames),
        frames.len() <= 32,
        0 <= i < frames.len(),
    ensures
        calls_of(cmd).len() == frames.len(),
        calls_of(cmd)[i] matches SessionCall::Key { scancode, pressed, mods } && scancode
            == frames[i].scancode && pressed == frames[i].pressed && mods == frames[i].mods,
{
}

/// The same of an Android key event.
pub proof fn lemma_batched_android_key_reaches_session(
    cmd: HidCommand,
    frames: Seq<AndroidKeyFrame>,
    i: int,
)
    requires
        AndroidKeyFrame::batch_of(cmd, frames),
        frames.len() <= 32,
        0 <= i < frames.len(),
    ensures
        calls_of(cmd).len() == frames.len(),
        calls_of(cmd)[i] matches SessionCall::InjectKeycode { action, keycode, repeat, metastate }
            && action == frames[i].action && keycode == frames[i].keycode && repeat
            == frames[i].repeat && metastate == frames[i].metastate,
{
}

/// The same of a mouse motion.
pub proof fn lemma_batched_motion_reaches_session(cmd: HidCommand, frames: Seq<MouseFrame>, i: int)
    requires
        MouseFrame::batch_of(cmd, frames),
        frames.len() <= 32,
        0 <= i < frames.len(),
    ensures
        calls_of(cmd).len() == frames.len(),
        calls_of(cmd)[i] matches SessionCall::MouseMotion { dx, dy, buttons } && dx == frames[i].dx
            && dy == frames[i].dy && buttons == frames[i].buttons,
{
}

/// The same of a scroll event.
pub proof fn lemma_batched_scroll_reaches_session(cmd: HidCommand, frames: Seq<ScrollFrame>, i: int)
    requires
        ScrollFrame::batch_of(cmd, frames),
        frames.len() <= 32,
        0 <= i < frames.len(),
    ensures
        calls_of(cmd).len() == frames.len(),
        calls_of(cmd)[i] matches SessionCall::InjectScroll { x, y, hscroll, vscroll, buttons } && x
            == frames[i].x && y == frames[i].y && hscroll == frames[i].hscroll && vscroll
            == frames[i].vscroll && buttons == frames[i].buttons,
{
}

/// Gamepad frames that were put into a command reach the session in one call, in
/// order. The call skips repeats exactly if the batcher was asked to.
pub proof fn lemma_batched_gamepad_frames_reach_session(
    cmd: HidCommand,
    frames: Seq<GamepadFrameRaw>,
    dedupe: bool,
    fixed: bool,
)
    requires
        GamepadFrameRaw::batch_of(cmd, frames, dedupe, fixed),
        frames.len() > 0,
        fixed ==> frames.len() <= 32,
    ensures
        calls_of(cmd).len() == 1,
        frames_set(calls_of(cmd)[0]) == frames,
        skips_repeats(calls_of(cmd)[0]) == dedupe,
{
    assert(frames_set(calls_of(cmd)[0]) =~= frames);
}

/// The packed frames that a call sets, in order.
pub open spec fn packed_set(call: SessionCall) -> Seq<[u8; GAMEPAD_FRAME_BYTES]> {
    match call {
        SessionCall::SetFrameRawPacked(frame) => seq![frame],
        SessionCall::SetFrameRawPackedBatch(frames) => frames@,
        SessionCall::SetFrameRawPackedBatchFixed { len, frames } => frames@.take(len as int),
        _ => Seq::empty(),
    }
}

/// Packed gamepad frames that were put into a command reach the session in one call,
/// in order.
pub proof fn lemma_batched_packed_frames_reach_session(
    cmd: HidCommand,
    frames: Seq<[u8; GAMEPAD_FRAME_BYTES]>,
    dedupe: bool,
    fixed: bool,
)
    requires
        <[u8; GAMEPAD_FRAME_BYTES]>::batch_of(cmd, frames, dedupe, fixed),
        frames.len() > 0,
        fixed ==> frames.len() <= 32,
    ensures
        calls_of(cmd).len() == 1,
        packed_set(calls_of(cmd)[0]) == frames,
{
    assert(packed_set(calls_of(cmd)[0]) =~= frames);
}

/// A client that is asked to send the first frames of an array sends them, in order,
/// and no others, whether in a batch or, where it is one, by itself.
pub proof fn lemma_sent_arrays_reach_session(
    len: int,
    i: int,
    keys: [KeyboardFrame; KEYBOARD_BATCH_FRAMES],
    motions: [MouseFrame; MOUSE_BATCH_FRAMES],
    android_keys: [AndroidKeyFrame; ANDROID_KEY_BATCH_FRAMES],
    scrolls: [ScrollFrame; SCROLL_BATCH_FRAMES],
)
    requires
        0 <= i < len <= 32,
    ensures
        ({
            let k = calls_of(key_batch(len, keys));
            let m = calls_of(mouse_batch(len, motions));
            let a = calls_of(android_key_batch(len, android_keys));
            let s = calls_of(scroll_batch(len, scrolls));
            &&& k.len() == len && m.len() == len && a.len() == len && s.len() == len
            &&& k[i] matches SessionCall::Key { scancode, pressed, mods } && scancode
                == keys@[i].scancode && pressed == keys@[i].pressed && mods == keys@[i].mods
            &&& m[i] matches SessionCall::MouseMotion { dx, dy, buttons } && dx == motions@[i].dx
                && dy == motions@[i].dy && buttons == motions@[i].buttons
            &&& a[i] matches SessionCall::InjectKeycode { action, keycode, repeat, metastate }
                && action == android_keys@[i].action && keycode == android_keys@[i].keycode
                && repeat == android_keys@[i].repeat && metastate == android_keys@[i].metastate
            &&& s[i] matches SessionCall::InjectScroll { x, y, hscroll, vscroll, buttons } && x
                == scrolls@[i].x && y == scrolls@[i].y && hscroll == scrolls@[i].hscroll && vscroll
                == scrolls@[i].vscroll && buttons == scrolls@[i].buttons
        }),
        len == 1 <==> key_batch(len, keys) is Key,
        len == 1 <==> mouse_batch(len, motions) is MouseMotion,
        len == 1 <==> android_key_batch(len, android_keys) is InjectKeycode,
        len == 1 <==> scroll_batch(len, scrolls) is InjectScroll,
{
}

/// The same of gamepad frames: they reach the session in one call, which skips repeats
/// exactly if it is asked to.
pub proof fn lemma_sent_gamepad_frames_reach_session(
    len: int,
    slots: [GamepadFrameRaw; GAMEPAD_BATCH_FRAMES],
    frames: Vec<GamepadFrameRaw>,
    packed_slots: [[u8; GAMEPAD_FRAME_BYTES]; GAMEPAD_BATCH_FRAMES],
    packed: Vec<[u8; GAMEPAD_FRAME_BYTES]>,
    dedupe: bool,
)
    requires
        0 < len <= 32,
        frames@.len() > 0,
        packed@.len() > 0,
    ensures
        ({
            let f = calls_of(frame_batch(len, slots, dedupe));
            let o = calls_of(frame_batch_owned(frames, dedupe));
            let p = calls_of(packed_batch(len, packed_slots));
            let q = calls_of(packed_batch_owned(packed));
            &&& f.len() == 1 && o.len() == 1 && p.len() == 1 && q.len() == 1
            &&& frames_set(f[0]) == slots@.take(len)
            &&& frames_set(o[0]) == frames@
            &&& packed_set(p[0]) == packed_slots@.take(len)
            &&& packed_set(q[0]) == packed@
            &&& skips_repeats(f[0]) == dedupe && skips_repeats(o[0]) == dedupe
        }),
        len > 1 ==> !(frame_batch(len, slots, dedupe) is GamepadFrameRaw) && !(frame_batch(
            len,
            slots,
            dedupe,
        ) is GamepadFrameRawUnchecked),
        packed_batch(len, packed_slots) is GamepadPackedFrame <==> len == 1,
        packed_batch_owned(packed) is GamepadPackedFrame <==> packed@.len() == 1,
{
    assert(frames_set(calls_of(frame_batch(len, slots, dedupe))[0]) =~= slots@.take(len));
    assert(frames_set(calls_of(frame_batch_owned(frames, dedupe))[0]) =~= frames@);
    assert(packed_set(calls_of(packed_batch(len, packed_slots))[0]) =~= packed_slots@.take(len));
    assert(packed_set(calls_of(packed_batch_owned(packed))[0]) =~= packed@);
}

/// A chord over named keys reaches the session as a press of each key in order and a
/// release of each in reverse, and leaves no key down that it pressed.
pub proof fn lemma_chord_reaches_session(
    scancodes: Seq<Scancode>,
    mods: Modifiers,
    admission: Result<()>,
    old: ClientView,
    new: ClientView,
    r: Result<()>,
    i: int,
)
    requires
        scancode_chord_sent(scancodes, mods, admission, old, new, r),
        r is Ok,
        0 <= i < scancodes.len(),
    ensures
        scancodes.len() <= 6,
        new.queue.len() == old.queue.len() + 1,
        new.queue.drop_last() == old.queue,
        ({
            let calls = calls_of(new.queue.last());
            let n = scancodes.len() as int;
            &&& calls.len() == 2 * n
            &&& calls[i] matches SessionCall::Key { scancode, pressed, mods: m } && scancode
                == scancodes[i].code() && pressed && m == mods
            &&& calls[2 * n - 1 - i] matches SessionCall::Key { scancode, pressed, mods: m }
                && scancode == scancodes[i].code() && !pressed && (i == 0 ==> m.bits == 0) && (i > 0
                ==> m == mods)
        }),
{
    let chord = choose|chord: KeyboardChordFrame|
        names_chord(scancodes, mods, chord) && #[trigger] chord_queued(chord, old, new);
    assert(new.queue.drop_last() =~= old.queue);
    lemma_chord_presses_named_keys(scancodes, mods, chord, i);
    lemma_chord_releases_in_reverse(chord, i);
    let calls = calls_of(new.queue.last());
    let n = scancodes.len() as int;
    assert(calls[i] == key_call(chord.edges()[i]));
    assert(calls[2 * n - 1 - i] == key_call(chord.edges()[2 * n - 1 - i]));
}

/// When a chord over named keys is refused, and that a refused one changes nothing.
pub proof fn lemma_chord_refused(
    scancodes: Seq<Scancode>,
    mods: Modifiers,
    admission: Result<()>,
    old: ClientView,
    new: ClientView,
    r: Result<()>,
)
    requires
        scancode_chord_sent(scancodes, mods, admission, old, new, r),
    ensures
        r is Err <==> scancodes.len() > 6 || names_modifier(scancodes) || (scancodes.len() > 0
            && admission is Err),
        r is Err ==> new == old,
        scancodes.len() == 0 ==> new == old,
        scancodes.len() > 6 ==> r == Err::<(), Error>(
            Error::SessionLifecycle("keyboard chord too large"),
        ),
{
    if scancodes.len() == 0 {
        assert(!names_modifier(scancodes));
    }
}

/// A run makes the calls of its command one by one, from the first on, and tells when it
/// is over; only the run of a close stops the dispatcher.
pub proof fn lemma_run_makes_calls(
    cmd: HidCommand,
    run: DispatchRun,
    call: Option<&SessionCall>,
    stops: bool,
)
    requires
        call_ensures(DispatchRun::begin, (cmd,), run),
        call_ensures(DispatchRun::current, (&run,), call),
        call_ensures(DispatchRun::stops, (&run,), stops),
    ensures
        run.calls@ == calls_of(cmd),
        call is Some <==> calls_of(cmd).len() > 0,
        call matches Some(c) ==> *c == calls_of(cmd)[0],
        stops <==> cmd is Close,
{
    lemma_only_close_stops(cmd);
}

/// What a finished call changes: the run goes on to the next call, or ends where the
/// press of a tap failed; an error is kept if it is the first; and a flush with a ticket
/// is answered with the error that was pending or else with its own result.
pub proof fn lemma_completed_call(
    d: &mut HidDispatcher,
    run: &mut DispatchRun,
    result: Result<usize>,
    reply: Option<FlushReply>,
)
    requires
        call_ensures(HidDispatcher::complete, (d, run, result), reply),
    ensures
        final(run).calls == old(run).calls,
        final(run).mode == old(run).mode,
        result is Ok ==> final(run).next == old(run).next + 1,
        reply is Some <==> old(run).mode is Reply,
        reply matches Some(a) ==> old(run).mode == (CallMode::Reply { ticket: a.ticket }) && (
        old(d).pending_error matches Some(e) ==> a.result == Err::<usize, Error>(e)) && (
        old(d).pending_error is None ==> a.result == result),
        !(old(run).mode is Reply) && old(d).pending_error is Some ==> final(d).pending_error
            == old(d).pending_error,
        (old(run).mode is Each || old(run).mode is Chain) && old(d).pending_error is None ==> (
        final(d).pending_error is Some <==> result is Err),
        (old(run).mode is Ignore || old(run).mode is Stop) ==> final(d).pending_error
            == old(d).pending_error,
{
}

/// A new dispatcher has nothing to report, and recording a result keeps the first error.
pub proof fn lemma_errors_are_recorded(
    d: HidDispatcher,
    pending: &mut Option<Error>,
    result: Result<usize>,
)
    ensures
        call_ensures(HidDispatcher::new, (), d) ==> d.pending_error is None,
        call_ensures(record_first_error::<usize>, (pending, result), ()) ==> (*old(pending) is Some
            ==> *final(pending) == *old(pending)) && (*old(pending) is None ==> match result {
            Ok(_) => *final(pending) is None,
            Err(e) => *final(pending) == Some(e),
        }),
{
}

} // verus!
