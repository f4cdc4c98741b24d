//! Commands from clients to the dispatcher.
use vstd::prelude::*;

use crate::frames::{
    AndroidKeyFrame, KeyboardFrame, MouseFrame, ScrollFrame, TouchFrame,
    ANDROID_KEY_BATCH_FRAMES, GAMEPAD_BATCH_FRAMES, KEYBOARD_BATCH_FRAMES, MOUSE_BATCH_FRAMES,
    SCROLL_BATCH_FRAMES, TOUCH_BATCH_FRAMES,
};
use crate::gamepad::{GamepadFrameRaw, GAMEPAD_FRAME_BYTES};
use crate::types::{GamepadAxis, GamepadButton, Modifiers};

verus! {

/// One command. Pressures, wheel deltas and stick values are single-precision
/// bit patterns; the first `len` frames of a fixed batch count.
#[allow(inconsistent_fields)]
#[derive(Debug, Clone)]
pub enum HidCommand {
    TypeText(String),
    TypeTextStrict(String),
    Key { scancode: u8, pressed: bool, mods: Modifiers },
    KeyTap { scancode: u8, mods: Modifiers },
    KeyBatchFixed { len: u8, frames: [KeyboardFrame; KEYBOARD_BATCH_FRAMES] },
    MouseMotion { dx: i32, dy: i32, buttons: u8 },
    MouseButtons { buttons: u8 },
    MouseScroll { hscroll: u32, vscroll: u32 },
    MouseBatchFixed { len: u8, frames: [MouseFrame; MOUSE_BATCH_FRAMES] },
    InjectKeycode { action: u8, keycode: u32, repeat: u32, metastate: u32 },
    AndroidKeyTap { keycode: u32, metastate: u32 },
    AndroidKeyBatchFixed { len: u8, frames: [AndroidKeyFrame; ANDROID_KEY_BATCH_FRAMES] },
    BackOrScreenOn { action: u8 },
    MultitouchDown { id: u64, x: i32, y: i32, pressure: u32 },
    MultitouchMove { id: u64, x: i32, y: i32, pressure: u32 },
    MultitouchUp { id: u64 },
    MultitouchCancel { id: u64 },
    TouchBatchFixed { len: u8, frames: [TouchFrame; TOUCH_BATCH_FRAMES] },
    InjectScroll { x: i32, y: i32, hscroll: u32, vscroll: u32, buttons: u32 },
    InjectScrollBatchFixed { len: u8, frames: [ScrollFrame; SCROLL_BATCH_FRAMES] },
    GamepadButton { btn: GamepadButton, pressed: bool },
    GamepadButtons { buttons: u32 },
    GamepadStick { axis: GamepadAxis, value: u32 },
    GamepadStickRaw { axis: GamepadAxis, value: i16 },
    GamepadLeftStickRaw { x: i16, y: i16 },
    GamepadRightStickRaw { x: i16, y: i16 },
    GamepadTriggersRaw { left: i16, right: i16 },
    GamepadSticksRaw {
        left_x: i16,
        left_y: i16,
        right_x: i16,
        right_y: i16,
        left_trigger: i16,
        right_trigger: i16,
    },
    GamepadFrameRaw {
        buttons: u32,
        left_x: i16,
        left_y: i16,
        right_x: i16,
        right_y: i16,
        left_trigger: i16,
        right_trigger: i16,
    },
    GamepadFrameRawUnchecked(GamepadFrameRaw),
    GamepadFrameRawBatch(Vec<GamepadFrameRaw>),
    GamepadFrameRawBatchFixed { len: u8, frames: [GamepadFrameRaw; GAMEPAD_BATCH_FRAMES] },
    GamepadFrameRawBatchFixedUnchecked {
        len: u8,
        frames: [GamepadFrameRaw; GAMEPAD_BATCH_FRAMES],
    },
    GamepadFrameRawBatchUnchecked(Vec<GamepadFrameRaw>),
    GamepadPackedFrame([u8; GAMEPAD_FRAME_BYTES]),
    GamepadPackedFrameBatch(Vec<[u8; GAMEPAD_FRAME_BYTES]>),
    GamepadPackedFrameBatchFixed {
        len: u8,
        frames: [[u8; GAMEPAD_FRAME_BYTES]; GAMEPAD_BATCH_FRAMES],
    },
    SetScreenSize { width: u16, height: u16 },
    SetScreenPower { on: bool },
    ShowNotifications,
    ShowQuickSettings,
    CollapsePanels,
    RotateDevice,
    ResizeDisplay { width: u16, height: u16 },
    SetTorch { on: bool },
    CameraZoomIn,
    CameraZoomOut,
    OpenHardKeyboardSettings,
    ResetVideo,
    AiConfig { flags: u8, sample_interval_ms: u16, feature_dim: u16 },
    AiQuery { since_timestamp_ms: u64 },
    AiPause,
    LaunchApp { name: String },
    SetClipboard { text: String, paste: bool },
    SetClipboardSequenced { sequence: u64, text: String, paste: bool },
    GetClipboard { copy_key: u8 },
    FlushAck { ticket: u64 },
    Flush,
    Close,
}

impl HidCommand {
    /// Whether the length of a fixed batch stays inside its array.
    pub open spec fn well_formed(&self) -> bool {
        match self {
            HidCommand::KeyBatchFixed { len, .. } => *len <= KEYBOARD_BATCH_FRAMES,
            HidCommand::MouseBatchFixed { len, .. } => *len <= MOUSE_BATCH_FRAMES,
            HidCommand::AndroidKeyBatchFixed { len, .. } => *len <= ANDROID_KEY_BATCH_FRAMES,
            HidCommand::TouchBatchFixed { len, .. } => *len <= TOUCH_BATCH_FRAMES,
            HidCommand::InjectScrollBatchFixed { len, .. } => *len <= SCROLL_BATCH_FRAMES,
            HidCommand::GamepadFrameRawBatchFixed { len, .. } => *len <= GAMEPAD_BATCH_FRAMES,
            HidCommand::GamepadFrameRawBatchFixedUnchecked { len, .. } => *len
                <= GAMEPAD_BATCH_FRAMES,
            HidCommand::GamepadPackedFrameBatchFixed { len, .. } => *len <= GAMEPAD_BATCH_FRAMES,
            _ => true,
        }
    }

    /// Whether the length of a fixed batch stays inside its array.
    pub fn is_well_formed(&self) -> (r: bool)
        ensures
            r == self.well_formed(),
    {
        match self {
            HidCommand::KeyBatchFixed { len, .. } => *len as usize <= KEYBOARD_BATCH_FRAMES,
            HidCommand::MouseBatchFixed { len, .. } => *len as usize <= MOUSE_BATCH_FRAMES,
            HidCommand::AndroidKeyBatchFixed { len, .. } => *len as usize
                <= ANDROID_KEY_BATCH_FRAMES,
            HidCommand::TouchBatchFixed { len, .. } => *len as usize <= TOUCH_BATCH_FRAMES,
            HidCommand::InjectScrollBatchFixed { len, .. } => *len as usize <= SCROLL_BATCH_FRAMES,
            HidCommand::GamepadFrameRawBatchFixed { len, .. } => *len as usize
                <= GAMEPAD_BATCH_FRAMES,
            HidCommand::GamepadFrameRawBatchFixedUnchecked { len, .. } => *len as usize
                <= GAMEPAD_BATCH_FRAMES,
            HidCommand::GamepadPackedFrameBatchFixed { len, .. } => *len as usize
                <= GAMEPAD_BATCH_FRAMES,
            _ => true,
        }
    }
}

/// A batch command is well formed exactly if it does not count more frames than its
/// array holds; every other command is.
pub proof fn lemma_well_formed_by_arrays(cmd: HidCommand)
    ensures
        cmd.well_formed() <==> match cmd {
            HidCommand::KeyBatchFixed { len, frames } => len <= frames@.len(),
            HidCommand::MouseBatchFixed { len, frames } => len <= frames@.len(),
            HidCommand::AndroidKeyBatchFixed { len, frames } => len <= frames@.len(),
            HidCommand::TouchBatchFixed { len, frames } => len <= frames@.len(),
            HidCommand::InjectScrollBatchFixed { len, frames } => len <= frames@.len(),
            HidCommand::GamepadFrameRawBatchFixed { len, frames } => len <= frames@.len(),
            HidCommand::GamepadFrameRawBatchFixedUnchecked { len, frames } => len <= frames@.len(),
            HidCommand::GamepadPackedFrameBatchFixed { len, frames } => len <= frames@.len(),
            _ => true,
        },
{
}

/// A command is well formed by its own word exactly if its frames are all in its array.
pub proof fn lemma_commands_tell_their_form(cmd: &HidCommand, r: bool)
    requires
        call_ensures(HidCommand::is_well_formed, (cmd,), r),
    ensures
        cmd matches HidCommand::TouchBatchFixed { len, .. } ==> (r <==> *len <= 24),
        cmd matches HidCommand::KeyBatchFixed { len, .. } ==> (r <==> *len <= 32),
        cmd matches HidCommand::MouseBatchFixed { len, .. } ==> (r <==> *len <= 32),
        cmd matches HidCommand::AndroidKeyBatchFixed { len, .. } ==> (r <==> *len <= 32),
        cmd matches HidCommand::InjectScrollBatchFixed { len, .. } ==> (r <==> *len <= 32),
        cmd matches HidCommand::GamepadFrameRawBatchFixed { len, .. } ==> (r <==> *len <= 32),
        cmd matches HidCommand::GamepadFrameRawBatchFixedUnchecked { len, .. } ==> (r <==> *len
            <= 32),
        cmd matches HidCommand::GamepadPackedFrameBatchFixed { len, .. } ==> (r <==> *len <= 32),
{
}

} // verus!
