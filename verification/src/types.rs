//! Key codes, buttons, pointers and other small protocol values.
use vstd::prelude::*;

verus! {

/// Longest HID input report carried by one control message.
pub const HID_MAX_SIZE: usize = 15;

/// Gamepad button bit of the directional pad's up arm.
pub const DPAD_UP: u32 = 0x1_0000;

/// Gamepad button bit of the directional pad's down arm.
pub const DPAD_DOWN: u32 = 0x2_0000;

/// Gamepad button bit of the directional pad's left arm.
pub const DPAD_LEFT: u32 = 0x4_0000;

/// Gamepad button bit of the directional pad's right arm.
pub const DPAD_RIGHT: u32 = 0x8_0000;

/// Keyboard modifier bits of a HID keyboard report.
#[derive(Debug, Clone, Copy, PartialEq, Eq, Hash, Structural)]
pub struct Modifiers {
    pub bits: u8,
}

impl Modifiers {
    /// No modifier held.
    pub open spec fn spec_empty() -> Modifiers {
        Modifiers { bits: 0 }
    }

    /// No modifier held.
    #[verifier::when_used_as_spec(spec_empty)]
    pub fn empty() -> (r: Modifiers)
        ensures
            r == Self::spec_empty(),
    {
        Modifiers { bits: 0 }
    }

    pub fn from_bits(bits: u8) -> (r: Modifiers)
        ensures
            r.bits == bits,
    {
        Modifiers { bits }
    }

    pub fn lctrl() -> (r: Modifiers)
        ensures
            r.bits == 0x01,
    {
        Modifiers { bits: 0x01 }
    }

    pub fn lshift() -> (r: Modifiers)
        ensures
            r.bits == 0x02,
    {
        Modifiers { bits: 0x02 }
    }

    pub fn lalt() -> (r: Modifiers)
        ensures
            r.bits == 0x04,
    {
        Modifiers { bits: 0x04 }
    }

    pub fn bits(self) -> (r: u8)
        ensures
            r == self.bits,
    {
        self.bits
    }

    /// The modifiers held in either operand.
    pub fn union(self, other: Modifiers) -> (r: Modifiers)
        ensures
            r.bits == self.bits | other.bits,
    {
        Modifiers { bits: self.bits | other.bits }
    }
}

/// Keys of the HID keyboard usage page.
#[derive(Debug, Clone, Copy, PartialEq, Eq, Hash, Structural)]
pub enum Scancode {
    A,
    B,
    C,
    D,
    E,
    F,
    G,
    H,
    I,
    J,
    K,
    L,
    M,
    N,
    O,
    P,
    Q,
    R,
    S,
    T,
    U,
    V,
    W,
    X,
    Y,
    Z,
    Num1,
    Num2,
    Num3,
    Num4,
    Num5,
    Num6,
    Num7,
    Num8,
    Num9,
    Num0,
    Enter,
    Escape,
    Backspace,
    Tab,
    Space,
    Minus,
    Equal,
    LeftBracket,
    RightBracket,
    Backslash,
    Semicolon,
    Apostrophe,
    Grave,
    Comma,
    Period,
    Slash,
    CapsLock,
    F1,
    F2,
    F3,
    F4,
    F5,
    F6,
    F7,
    F8,
    F9,
    F10,
    F11,
    F12,
    Insert,
    Home,
    PageUp,
    Delete,
    End,
    PageDown,
    Right,
    Left,
    Down,
    Up,
    Application,
    LeftCtrl,
    LeftShift,
    LeftAlt,
    LeftMeta,
    RightCtrl,
    RightShift,
    RightAlt,
    RightMeta,
}

impl Scancode {
    /// The usage code of the key.
    pub open spec fn code(self) -> u8 {
        match self {
            Scancode::A => 0x04,
            Scancode::B => 0x05,
            Scancode::C => 0x06,
            Scancode::D => 0x07,
            Scancode::E => 0x08,
            Scancode::F => 0x09,
            Scancode::G => 0x0A,
            Scancode::H => 0x0B,
            Scancode::I => 0x0C,
            Scancode::J => 0x0D,
            Scancode::K => 0x0E,
            Scancode::L => 0x0F,
            Scancode::M => 0x10,
            Scancode::N => 0x11,
            Scancode::O => 0x12,
            Scancode::P => 0x13,
            Scancode::Q => 0x14,
            Scancode::R => 0x15,
            Scancode::S => 0x16,
            Scancode::T => 0x17,
            Scancode::U => 0x18,
            Scancode::V => 0x19,
            Scancode::W => 0x1A,
            Scancode::X => 0x1B,
            Scancode::Y => 0x1C,
            Scancode::Z => 0x1D,
            Scancode::Num1 => 0x1E,
            Scancode::Num2 => 0x1F,
            Scancode::Num3 => 0x20,
            Scancode::Num4 => 0x21,
            Scancode::Num5 => 0x22,
            Scancode::Num6 => 0x23,
            Scancode::Num7 => 0x24,
            Scancode::Num8 => 0x25,
            Scancode::Num9 => 0x26,
            Scancode::Num0 => 0x27,
            Scancode::Enter => 0x28,
            Scancode::Escape => 0x29,
            Scancode::Backspace => 0x2A,
            Scancode::Tab => 0x2B,
            Scancode::Space => 0x2C,
            Scancode::Minus => 0x2D,
            Scancode::Equal => 0x2E,
            Scancode::LeftBracket => 0x2F,
            Scancode::RightBracket => 0x30,
            Scancode::Backslash => 0x31,
            Scancode::Semicolon => 0x33,
            Scancode::Apostrophe => 0x34,
            Scancode::Grave => 0x35,
            Scancode::Comma => 0x36,
            Scancode::Period => 0x37,
            Scancode::Slash => 0x38,
            Scancode::CapsLock => 0x39,
            Scancode::F1 => 0x3A,
            Scancode::F2 => 0x3B,
            Scancode::F3 => 0x3C,
            Scancode::F4 => 0x3D,
            Scancode::F5 => 0x3E,
            Scancode::F6 => 0x3F,
            Scancode::F7 => 0x40,
            Scancode::F8 => 0x41,
            Scancode::F9 => 0x42,
            Scancode::F10 => 0x43,
            Scancode::F11 => 0x44,
            Scancode::F12 => 0x45,
            Scancode::Insert => 0x49,
            Scancode::Home => 0x4A,
            Scancode::PageUp => 0x4B,
            Scancode::Delete => 0x4C,
            Scancode::End => 0x4D,
            Scancode::PageDown => 0x4E,
            Scancode::Right => 0x4F,
            Scancode::Left => 0x50,
            Scancode::Down => 0x51,
            Scancode::Up => 0x52,
            Scancode::Application => 0x65,
            Scancode::LeftCtrl => 0xE0,
            Scancode::LeftShift => 0xE1,
            Scancode::LeftAlt => 0xE2,
            Scancode::LeftMeta => 0xE3,
            Scancode::RightCtrl => 0xE4,
            Scancode::RightShift => 0xE5,
            Scancode::RightAlt => 0xE6,
            Scancode::RightMeta => 0xE7,
        }
    }

    /// The usage code of the key.
    pub fn to_u8(self) -> (r: u8)
        ensures
            r == self.code(),
    {
        match self {
            Scancode::A => 0x04,
            Scancode::B => 0x05,
            Scancode::C => 0x06,
            Scancode::D => 0x07,
            Scancode::E => 0x08,
            Scancode::F => 0x09,
            Scancode::G => 0x0A,
            Scancode::H => 0x0B,
            Scancode::I => 0x0C,
            Scancode::J => 0x0D,
            Scancode::K => 0x0E,
            Scancode::L => 0x0F,
            Scancode::M => 0x10,
            Scancode::N => 0x11,
            Scancode::O => 0x12,
            Scancode::P => 0x13,
            Scancode::Q => 0x14,
            Scancode::R => 0x15,
            Scancode::S => 0x16,
            Scancode::T => 0x17,
            Scancode::U => 0x18,
            Scancode::V => 0x19,
            Scancode::W => 0x1A,
            Scancode::X => 0x1B,
            Scancode::Y => 0x1C,
            Scancode::Z => 0x1D,
            Scancode::Num1 => 0x1E,
            Scancode::Num2 => 0x1F,
            Scancode::Num3 => 0x20,
            Scancode::Num4 => 0x21,
            Scancode::Num5 => 0x22,
            Scancode::Num6 => 0x23,
            Scancode::Num7 => 0x24,
            Scancode::Num8 => 0x25,
            Scancode::Num9 => 0x26,
            Scancode::Num0 => 0x27,
            Scancode::Enter => 0x28,
            Scancode::Escape => 0x29,
            Scancode::Backspace => 0x2A,
            Scancode::Tab => 0x2B,
            Scancode::Space => 0x2C,
            Scancode::Minus => 0x2D,
            Scancode::Equal => 0x2E,
            Scancode::LeftBracket => 0x2F,
            Scancode::RightBracket => 0x30,
            Scancode::Backslash => 0x31,
            Scancode::Semicolon => 0x33,
            Scancode::Apostrophe => 0x34,
            Scancode::Grave => 0x35,
            Scancode::Comma => 0x36,
            Scancode::Period => 0x37,
            Scancode::Slash => 0x38,
            Scancode::CapsLock => 0x39,
            Scancode::F1 => 0x3A,
            Scancode::F2 => 0x3B,
            Scancode::F3 => 0x3C,
            Scancode::F4 => 0x3D,
            Scancode::F5 => 0x3E,
            Scancode::F6 => 0x3F,
            Scancode::F7 => 0x40,
            Scancode::F8 => 0x41,
            Scancode::F9 => 0x42,
            Scancode::F10 => 0x43,
            Scancode::F11 => 0x44,
            Scancode::F12 => 0x45,
            Scancode::Insert => 0x49,
            Scancode::Home => 0x4A,
            Scancode::PageUp => 0x4B,
            Scancode::Delete => 0x4C,
            Scancode::End => 0x4D,
            Scancode::PageDown => 0x4E,
            Scancode::Right => 0x4F,
            Scancode::Left => 0x50,
            Scancode::Down => 0x51,
            Scancode::Up => 0x52,
            Scancode::Application => 0x65,
            Scancode::LeftCtrl => 0xE0,
            Scancode::LeftShift => 0xE1,
            Scancode::LeftAlt => 0xE2,
            Scancode::LeftMeta => 0xE3,
            Scancode::RightCtrl => 0xE4,
            Scancode::RightShift => 0xE5,
            Scancode::RightAlt => 0xE6,
            Scancode::RightMeta => 0xE7,
        }
    }

    /// Whether the key is one of the eight modifier keys.
    pub fn is_modifier(self) -> (r: bool)
        ensures
            r == (self.code() >= 0xE0),
    {
        self.to_u8() >= 0xE0
    }
}

/// Phase of a touch contact.
#[allow(non_camel_case_types)]
#[derive(Debug, Clone, Copy, PartialEq, Eq, Hash, Structural)]
pub enum TouchAction {
    DOWN,
    UP,
    MOVE,
    CANCEL,
}

impl TouchAction {
    /// The number that goes on the wire.
    pub open spec fn code(self) -> u8 {
        match self {
            TouchAction::DOWN => 0,
            TouchAction::UP => 1,
            TouchAction::MOVE => 2,
            TouchAction::CANCEL => 3,
        }
    }

    /// The number that goes on the wire.
    pub fn value(self) -> (r: u8)
        ensures
            r == self.code(),
    {
        match self {
            TouchAction::DOWN => 0,
            TouchAction::UP => 1,
            TouchAction::MOVE => 2,
            TouchAction::CANCEL => 3,
        }
    }
}

/// Identity of a touch contact.
#[allow(non_camel_case_types)]
#[derive(Debug, Clone, Copy, PartialEq, Eq, Hash, Structural)]
pub enum TouchPointerId {
    MOUSE,
    GENERIC_FINGER,
    VIRTUAL_FINGER,
    Finger(u64),
}

impl TouchPointerId {
    /// The number that goes on the wire.
    pub open spec fn code(self) -> u64 {
        match self {
            TouchPointerId::MOUSE => 0xFFFF_FFFF_FFFF_FFFF,
            TouchPointerId::GENERIC_FINGER => 0xFFFF_FFFF_FFFF_FFFE,
            TouchPointerId::VIRTUAL_FINGER => 0xFFFF_FFFF_FFFF_FFFD,
            TouchPointerId::Finger(id) => id,
        }
    }

    /// The number that goes on the wire.
    pub fn value(self) -> (r: u64)
        ensures
            r == self.code(),
    {
        match self {
            TouchPointerId::MOUSE => 0xFFFF_FFFF_FFFF_FFFF,
            TouchPointerId::GENERIC_FINGER => 0xFFFF_FFFF_FFFF_FFFE,
            TouchPointerId::VIRTUAL_FINGER => 0xFFFF_FFFF_FFFF_FFFD,
            TouchPointerId::Finger(id) => id,
        }
    }

    /// An application-chosen finger.
    pub fn finger(id: u64) -> (r: TouchPointerId)
        ensures
            r == TouchPointerId::Finger(id),
            r.code() == id,
    {
        TouchPointerId::Finger(id)
    }
}

/// Phase of an Android key event.
#[allow(non_camel_case_types)]
#[derive(Debug, Clone, Copy, PartialEq, Eq, Hash, Structural)]
pub enum AndroidKeyAction {
    DOWN,
    UP,
}

impl AndroidKeyAction {
    /// The number that goes on the wire.
    pub open spec fn code(self) -> u8 {
        match self {
            AndroidKeyAction::DOWN => 0,
            AndroidKeyAction::UP => 1,
        }
    }

    /// The number that goes on the wire.
    pub fn value(self) -> (r: u8)
        ensures
            r == self.code(),
    {
        match self {
            AndroidKeyAction::DOWN => 0,
            AndroidKeyAction::UP => 1,
        }
    }
}

/// Android key codes.
#[allow(non_camel_case_types)]
#[derive(Debug, Clone, Copy, PartialEq, Eq, Hash, Structural)]
pub enum AndroidKeycode {
    HOME,
    BACK,
    VOLUME_UP,
    VOLUME_DOWN,
    POWER,
    ENTER,
    MENU,
    VOLUME_MUTE,
    APP_SWITCH,
    Other(u32),
}

impl AndroidKeycode {
    /// The number that goes on the wire.
    pub open spec fn code(self) -> u32 {
        match self {
            AndroidKeycode::HOME => 3,
            AndroidKeycode::BACK => 4,
            AndroidKeycode::VOLUME_UP => 24,
            AndroidKeycode::VOLUME_DOWN => 25,
            AndroidKeycode::POWER => 26,
            AndroidKeycode::ENTER => 66,
            AndroidKeycode::MENU => 82,
            AndroidKeycode::VOLUME_MUTE => 164,
            AndroidKeycode::APP_SWITCH => 187,
            AndroidKeycode::Other(code) => code,
        }
    }

    /// The number that goes on the wire.
    pub fn value(self) -> (r: u32)
        ensures
            r == self.code(),
    {
        match self {
            AndroidKeycode::HOME => 3,
            AndroidKeycode::BACK => 4,
            AndroidKeycode::VOLUME_UP => 24,
            AndroidKeycode::VOLUME_DOWN => 25,
            AndroidKeycode::POWER => 26,
            AndroidKeycode::ENTER => 66,
            AndroidKeycode::MENU => 82,
            AndroidKeycode::VOLUME_MUTE => 164,
            AndroidKeycode::APP_SWITCH => 187,
            AndroidKeycode::Other(code) => code,
        }
    }
}

/// Key that the device should synthesise before reading its clipboard.
#[allow(non_camel_case_types)]
#[derive(Debug, Clone, Copy, PartialEq, Eq, Hash, Structural)]
pub enum ClipboardCopyKey {
    NONE,
    COPY,
    CUT,
}

impl ClipboardCopyKey {
    /// The number that goes on the wire.
    pub open spec fn code(self) -> u8 {
        match self {
            ClipboardCopyKey::NONE => 0,
            ClipboardCopyKey::COPY => 1,
            ClipboardCopyKey::CUT => 2,
        }
    }

    /// The number that goes on the wire.
    pub fn value(self) -> (r: u8)
        ensures
            r == self.code(),
    {
        match self {
            ClipboardCopyKey::NONE => 0,
            ClipboardCopyKey::COPY => 1,
            ClipboardCopyKey::CUT => 2,
        }
    }
}

/// Mouse buttons.
#[derive(Debug, Clone, Copy, PartialEq, Eq, Hash, Structural)]
pub enum MouseButton {
    Left,
    Right,
    Middle,
    X1,
    X2,
}

impl MouseButton {
    /// The button's bit in a mouse report.
    pub open spec fn code(self) -> u8 {
        match self {
            MouseButton::Left => 1,
            MouseButton::Right => 2,
            MouseButton::Middle => 4,
            MouseButton::X1 => 8,
            MouseButton::X2 => 16,
        }
    }

    /// The button's bit in a mouse report.
    pub fn value(self) -> (r: u8)
        ensures
            r == self.code(),
    {
        match self {
            MouseButton::Left => 1,
            MouseButton::Right => 2,
            MouseButton::Middle => 4,
            MouseButton::X1 => 8,
            MouseButton::X2 => 16,
        }
    }

    /// The report byte with exactly the listed buttons held.
    pub open spec fn held(buttons: Seq<MouseButton>) -> u8
        decreases buttons.len(),
    {
        if buttons.len() == 0 {
            0
        } else {
            Self::held(buttons.drop_last()) | buttons.last().code()
        }
    }

    /// The report byte with exactly the listed buttons held.
    pub fn state(buttons: &[MouseButton]) -> (r: u8)
        ensures
            r == Self::held(buttons@),
    {
        let mut bits: u8 = 0;
        let mut i: usize = 0;
        while i < buttons.len()
            invariant
                i <= buttons@.len(),
                bits == Self::held(buttons@.take(i as int)),
            decreases buttons@.len() - i,
        {
            assert(buttons@.take(i + 1).drop_last() =~= buttons@.take(i as int));
            bits = bits | buttons[i].value();
            i = i + 1;
        }
        assert(buttons@.take(i as int) =~= buttons@);
        bits
    }
}

/// Gamepad buttons.
#[derive(Debug, Clone, Copy, PartialEq, Eq, Hash, Structural)]
pub enum GamepadButton {
    South,
    East,
    West,
    North,
    LeftShoulder,
    RightShoulder,
    Back,
    Start,
    Guide,
    LeftStick,
    RightStick,
    DpadUp,
    DpadDown,
    DpadLeft,
    DpadRight,
}

impl GamepadButton {
    /// The button's bit in a button mask.
    pub open spec fn code(self) -> u32 {
        match self {
            GamepadButton::South => 0x1,
            GamepadButton::East => 0x2,
            GamepadButton::West => 0x8,
            GamepadButton::North => 0x10,
            GamepadButton::LeftShoulder => 0x40,
            GamepadButton::RightShoulder => 0x80,
            GamepadButton::Back => 0x400,
            GamepadButton::Start => 0x800,
            GamepadButton::Guide => 0x1000,
            GamepadButton::LeftStick => 0x2000,
            GamepadButton::RightStick => 0x4000,
            GamepadButton::DpadUp => 0x10000,
            GamepadButton::DpadDown => 0x20000,
            GamepadButton::DpadLeft => 0x40000,
            GamepadButton::DpadRight => 0x80000,
        }
    }

    /// The button's bit in a button mask.
    pub fn value(self) -> (r: u32)
        ensures
            r == self.code(),
    {
        match self {
            GamepadButton::South => 0x1,
            GamepadButton::East => 0x2,
            GamepadButton::West => 0x8,
            GamepadButton::North => 0x10,
            GamepadButton::LeftShoulder => 0x40,
            GamepadButton::RightShoulder => 0x80,
            GamepadButton::Back => 0x400,
            GamepadButton::Start => 0x800,
            GamepadButton::Guide => 0x1000,
            GamepadButton::LeftStick => 0x2000,
            GamepadButton::RightStick => 0x4000,
            GamepadButton::DpadUp => 0x10000,
            GamepadButton::DpadDown => 0x20000,
            GamepadButton::DpadLeft => 0x40000,
            GamepadButton::DpadRight => 0x80000,
        }
    }
}

/// Gamepad axes.
#[derive(Debug, Clone, Copy, PartialEq, Eq, Hash, Structural)]
pub enum GamepadAxis {
    LeftX,
    LeftY,
    RightX,
    RightY,
    LeftTrigger,
    RightTrigger,
}

/// The hat position of the directional pad in `buttons`: 0 at rest, then 1 to 8
/// clockwise from up. Up wins over down, and left over right.
pub open spec fn dpad_hat(buttons: u32) -> u8 {
    let up = buttons & DPAD_UP != 0;
    let down = buttons & DPAD_DOWN != 0;
    let left = buttons & DPAD_LEFT != 0;
    let right = buttons & DPAD_RIGHT != 0;
    if up {
        if left { 8 } else if right { 2 } else { 1 }
    } else if down {
        if left { 6 } else if right { 4 } else { 5 }
    } else if left {
        7
    } else if right {
        3
    } else {
        0
    }
}

/// The hat position of the directional pad in `buttons`.
pub fn dpad_hat_value(buttons: u32) -> (r: u8)
    ensures
        r == dpad_hat(buttons),
{
    let left = buttons & DPAD_LEFT != 0;
    let right = buttons & DPAD_RIGHT != 0;
    if buttons & DPAD_UP != 0 {
        if left { 8 } else if right { 2 } else { 1 }
    } else if buttons & DPAD_DOWN != 0 {
        if left { 6 } else if right { 4 } else { 5 }
    } else if left {
        7
    } else if right {
        3
    } else {
        0
    }
}

/// Buttons other than the directional pad's arms do not turn the hat.
pub proof fn lemma_hat_sees_only_arms(other: u32, arms: u32)
    requires
        other & 0xF_0000 == 0,
    ensures
        dpad_hat(other | arms) == dpad_hat(arms),
{
    assert(((other | arms) & 0x1_0000 != 0 <==> arms & 0x1_0000 != 0) && ((other | arms) & 0x2_0000
        != 0 <==> arms & 0x2_0000 != 0) && ((other | arms) & 0x4_0000 != 0 <==> arms & 0x4_0000
        != 0) && ((other | arms) & 0x8_0000 != 0 <==> arms & 0x8_0000 != 0)) by (bit_vector)
        requires
            other & 0xF_0000 == 0,
    ;
}

/// The positions of the hat go clockwise from up: the opposite of an arm is four
/// further, and a diagonal lies between its arms. Of two opposite arms the upper or
/// the left one counts.
pub proof fn lemma_hat_goes_clockwise()
    ensures
        dpad_hat(0) == 0,
        dpad_hat(0x1_0000) == 1,
        dpad_hat(0x8_0000) == dpad_hat(0x1_0000) + 2,
        dpad_hat(0x2_0000) == dpad_hat(0x1_0000) + 4,
        dpad_hat(0x4_0000) == dpad_hat(0x8_0000) + 4,
        2 * dpad_hat(0x9_0000) == dpad_hat(0x1_0000) + dpad_hat(0x8_0000),
        2 * dpad_hat(0xA_0000) == dpad_hat(0x8_0000) + dpad_hat(0x2_0000),
        2 * dpad_hat(0x6_0000) == dpad_hat(0x2_0000) + dpad_hat(0x4_0000),
        dpad_hat(0x5_0000) == dpad_hat(0x4_0000) + 1,
        dpad_hat(0x3_0000) == dpad_hat(0x1_0000),
        dpad_hat(0xC_0000) == dpad_hat(0x4_0000),
        dpad_hat(0x7_0000) == dpad_hat(0x5_0000),
        dpad_hat(0xB_0000) == dpad_hat(0x9_0000),
        dpad_hat(0xD_0000) == dpad_hat(0x5_0000),
        dpad_hat(0xE_0000) == dpad_hat(0x6_0000),
        dpad_hat(0xF_0000) == dpad_hat(0x5_0000),
{
    lemma_arm_bits();
}

proof fn lemma_arm_bits()
    by (bit_vector)
    ensures
        0u32 & 0x1_0000 == 0,
        0u32 & 0x2_0000 == 0,
        0u32 & 0x4_0000 == 0,
        0u32 & 0x8_0000 == 0,
        0x1_0000u32 & 0x1_0000 != 0,
        0x1_0000u32 & 0x2_0000 == 0,
        0x1_0000u32 & 0x4_0000 == 0,
        0x1_0000u32 & 0x8_0000 == 0,
        0x2_0000u32 & 0x1_0000 == 0,
        0x2_0000u32 & 0x2_0000 != 0,
        0x2_0000u32 & 0x4_0000 == 0,
        0x2_0000u32 & 0x8_0000 == 0,
        0x3_0000u32 & 0x1_0000 != 0,
        0x3_0000u32 & 0x2_0000 != 0,
        0x3_0000u32 & 0x4_0000 == 0,
        0x3_0000u32 & 0x8_0000 == 0,
        0x4_0000u32 & 0x1_0000 == 0,
        0x4_0000u32 & 0x2_0000 == 0,
        0x4_0000u32 & 0x4_0000 != 0,
        0x4_0000u32 & 0x8_0000 == 0,
        0x5_0000u32 & 0x1_0000 != 0,
        0x5_0000u32 & 0x2_0000 == 0,
        0x5_0000u32 & 0x4_0000 != 0,
        0x5_0000u32 & 0x8_0000 == 0,
        0x6_0000u32 & 0x1_0000 == 0,
        0x6_0000u32 & 0x2_0000 != 0,
        0x6_0000u32 & 0x4_0000 != 0,
        0x6_0000u32 & 0x8_0000 == 0,
        0x7_0000u32 & 0x1_0000 != 0,
        0x7_0000u32 & 0x2_0000 != 0,
        0x7_0000u32 & 0x4_0000 != 0,
        0x7_0000u32 & 0x8_0000 == 0,
        0x8_0000u32 & 0x1_0000 == 0,
        0x8_0000u32 & 0x2_0000 == 0,
        0x8_0000u32 & 0x4_0000 == 0,
        0x8_0000u32 & 0x8_0000 != 0,
        0x9_0000u32 & 0x1_0000 != 0,
        0x9_0000u32 & 0x2_0000 == 0,
        0x9_0000u32 & 0x4_0000 == 0,
        0x9_0000u32 & 0x8_0000 != 0,
        0xA_0000u32 & 0x1_0000 == 0,
        0xA_0000u32 & 0x2_0000 != 0,
        0xA_0000u32 & 0x4_0000 == 0,
        0xA_0000u32 & 0x8_0000 != 0,
        0xB_0000u32 & 0x1_0000 != 0,
        0xB_0000u32 & 0x2_0000 != 0,
        0xB_0000u32 & 0x4_0000 == 0,
        0xB_0000u32 & 0x8_0000 != 0,
        0xC_0000u32 & 0x1_0000 == 0,
        0xC_0000u32 & 0x2_0000 == 0,
        0xC_0000u32 & 0x4_0000 != 0,
        0xC_0000u32 & 0x8_0000 != 0,
        0xD_0000u32 & 0x1_0000 != 0,
        0xD_0000u32 & 0x2_0000 == 0,
        0xD_0000u32 & 0x4_0000 != 0,
        0xD_0000u32 & 0x8_0000 != 0,
        0xE_0000u32 & 0x1_0000 == 0,
        0xE_0000u32 & 0x2_0000 != 0,
        0xE_0000u32 & 0x4_0000 != 0,
        0xE_0000u32 & 0x8_0000 != 0,
        0xF_0000u32 & 0x1_0000 != 0,
        0xF_0000u32 & 0x2_0000 != 0,
        0xF_0000u32 & 0x4_0000 != 0,
        0xF_0000u32 & 0x8_0000 != 0,
{
}

/// The keys in the order of the usage page.
pub open spec fn key_order() -> Seq<Scancode> {
    seq![
        Scancode::A, Scancode::B, Scancode::C, Scancode::D, Scancode::E, Scancode::F,
        Scancode::G, Scancode::H, Scancode::I, Scancode::J, Scancode::K, Scancode::L,
        Scancode::M, Scancode::N, Scancode::O, Scancode::P, Scancode::Q, Scancode::R,
        Scancode::S, Scancode::T, Scancode::U, Scancode::V, Scancode::W, Scancode::X,
        Scancode::Y, Scancode::Z, Scancode::Num1, Scancode::Num2, Scancode::Num3,
        Scancode::Num4, Scancode::Num5, Scancode::Num6, Scancode::Num7, Scancode::Num8,
        Scancode::Num9, Scancode::Num0, Scancode::Enter, Scancode::Escape,
        Scancode::Backspace, Scancode::Tab, Scancode::Space, Scancode::Minus,
        Scancode::Equal, Scancode::LeftBracket, Scancode::RightBracket,
        Scancode::Backslash, Scancode::Semicolon, Scancode::Apostrophe, Scancode::Grave,
        Scancode::Comma, Scancode::Period, Scancode::Slash, Scancode::CapsLock,
        Scancode::F1, Scancode::F2, Scancode::F3, Scancode::F4, Scancode::F5,
        Scancode::F6, Scancode::F7, Scancode::F8, Scancode::F9, Scancode::F10,
        Scancode::F11, Scancode::F12, Scancode::Insert, Scancode::Home,
        Scancode::PageUp, Scancode::Delete, Scancode::End, Scancode::PageDown,
        Scancode::Right, Scancode::Left, Scancode::Down, Scancode::Up,
        Scancode::Application, Scancode::LeftCtrl, Scancode::LeftShift,
        Scancode::LeftAlt, Scancode::LeftMeta, Scancode::RightCtrl,
        Scancode::RightShift, Scancode::RightAlt, Scancode::RightMeta,
    ]
}

/// Key codes follow the order of the usage page. Below the modifiers the page runs
/// from `A` at 4 to `Up` at 82 with gaps only behind the backslash and behind F12,
/// the application key is 101, and the eight modifiers are the last codes, left
/// ones first.
pub proof fn lemma_key_codes_follow_page(i: int)
    requires
        0 <= i < 84,
    ensures
        key_order().len() == 84,
        ({
            let k = key_order()[i].code();
            &&& i < 46 ==> k == 4 + i
            &&& 46 <= i < 65 ==> k == 5 + i
            &&& 65 <= i < 75 ==> k == 8 + i
            &&& i == 75 ==> k == 101
            &&& i >= 76 ==> k == 224 + (i - 76)
        }),
{
}

/// Single-bit masks of different buttons never overlap, and the directional pad's
/// arms lie above the sixteen bits of a report.
pub proof fn lemma_buttons_are_single_bits(a: GamepadButton, b: GamepadButton)
    ensures
        a.code() != 0,
        a.code() & sub_one(a.code()) == 0,
        a != b ==> a.code() & b.code() == 0,
        a.code() >= 65536 <==> (a is DpadUp || a is DpadDown || a is DpadLeft || a is DpadRight),
        dpad_hat(a.code()) == match a {
            GamepadButton::DpadUp => 1u8,
            GamepadButton::DpadRight => 3,
            GamepadButton::DpadDown => 5,
            GamepadButton::DpadLeft => 7,
            _ => 0,
        },
{
    let x = a.code();
    let y = b.code();
    assert(x & sub_one(x) == 0 && x & 0x1_0000 == (if x == 0x1_0000 { x } else { 0 }) && x & 0x2_0000
        == (if x == 0x2_0000 { x } else { 0 }) && x & 0x4_0000 == (if x == 0x4_0000 { x } else { 0 })
        && x & 0x8_0000 == (if x == 0x8_0000 { x } else { 0 })) by (bit_vector)
        requires
            x == 0x1 || x == 0x2 || x == 0x8 || x == 0x10 || x == 0x40 || x == 0x80 || x == 0x400
                || x == 0x800 || x == 0x1000 || x == 0x2000 || x == 0x4000 || x == 0x1_0000 || x
                == 0x2_0000 || x == 0x4_0000 || x == 0x8_0000,
    ;
    assert(x != y ==> x & y == 0) by (bit_vector)
        requires
            x == 0x1 || x == 0x2 || x == 0x8 || x == 0x10 || x == 0x40 || x == 0x80 || x == 0x400
                || x == 0x800 || x == 0x1000 || x == 0x2000 || x == 0x4000 || x == 0x1_0000 || x
                == 0x2_0000 || x == 0x4_0000 || x == 0x8_0000,
            y == 0x1 || y == 0x2 || y == 0x8 || y == 0x10 || y == 0x40 || y == 0x80 || y == 0x400
                || y == 0x800 || y == 0x1000 || y == 0x2000 || y == 0x4000 || y == 0x1_0000 || y
                == 0x2_0000 || y == 0x4_0000 || y == 0x8_0000,
    ;
}

/// The number below a mask.
pub open spec fn sub_one(mask: u32) -> u32 {
    (mask - 1) as u32
}

/// A mouse report holds exactly the listed buttons: the bit of a button is set if
/// and only if the button is listed, in whatever order and however often.
pub proof fn lemma_report_holds_listed_buttons(buttons: Seq<MouseButton>, b: MouseButton)
    ensures
        MouseButton::held(buttons) & b.code() != 0 <==> buttons.contains(b),
        MouseButton::held(buttons) < 32,
        b.code() == match b {
            MouseButton::Left => 1int,
            MouseButton::Right => 2 * MouseButton::Left.code(),
            MouseButton::Middle => 2 * MouseButton::Right.code(),
            MouseButton::X1 => 2 * MouseButton::Middle.code(),
            MouseButton::X2 => 2 * MouseButton::X1.code(),
        },
    decreases buttons.len(),
{
    let h = MouseButton::held(buttons);
    let c = b.code();
    if buttons.len() == 0 {
        assert(0u8 & c == 0) by (bit_vector);
    } else {
        let before = buttons.drop_last();
        lemma_report_holds_listed_buttons(before, b);
        let p = MouseButton::held(before);
        let l = buttons.last().code();
        assert(((p | l) & c != 0 <==> p & c != 0 || l == c) && (p | l) < 32) by (bit_vector)
            requires
                p < 32,
                c == 1 || c == 2 || c == 4 || c == 8 || c == 16,
                l == 1 || l == 2 || l == 4 || l == 8 || l == 16,
        ;
        if buttons.contains(b) {
            let i = choose|i: int| 0 <= i < buttons.len() && buttons[i] == b;
            if i < before.len() {
                assert(before[i] == b);
            }
        }
        if before.contains(b) {
            let i = choose|i: int| 0 <= i < before.len() && before[i] == b;
            assert(buttons[i] == b);
        }
        if buttons.last() == b {
            assert(buttons[buttons.len() - 1] == b);
        }
    }
}

/// The phases of a touch and of a key begin alike: a press is 0 and a release 1 in
/// both. A move and a cancel of a touch come behind them, and no two phases share a
/// number.
pub proof fn lemma_phase_codes(a: TouchAction, b: TouchAction)
    ensures
        TouchAction::DOWN.code() == 0,
        TouchAction::UP.code() == TouchAction::DOWN.code() + 1,
        TouchAction::MOVE.code() == TouchAction::UP.code() + 1,
        TouchAction::CANCEL.code() == TouchAction::MOVE.code() + 1,
        AndroidKeyAction::DOWN.code() == TouchAction::DOWN.code(),
        AndroidKeyAction::UP.code() == TouchAction::UP.code(),
        a.code() == b.code() ==> a == b,
{
}

/// The pointers that are no fingers count down from the largest number: the mouse is
/// -1, the generic finger -2, the virtual finger -3. A finger is its own number.
pub proof fn lemma_pointer_codes(id: u64)
    ensures
        TouchPointerId::MOUSE.code() + 1 == 0x1_0000_0000_0000_0000,
        TouchPointerId::GENERIC_FINGER.code() + 2 == 0x1_0000_0000_0000_0000,
        TouchPointerId::VIRTUAL_FINGER.code() + 3 == 0x1_0000_0000_0000_0000,
        TouchPointerId::Finger(id).code() == id,
{
}

/// The system keys that stand side by side on the device's key table, and where they
/// stand. A key given by its number is that number.
pub proof fn lemma_android_key_codes(code: u32)
    ensures
        AndroidKeycode::HOME.code() == 3,
        AndroidKeycode::BACK.code() == AndroidKeycode::HOME.code() + 1,
        AndroidKeycode::VOLUME_UP.code() == 24,
        AndroidKeycode::VOLUME_DOWN.code() == AndroidKeycode::VOLUME_UP.code() + 1,
        AndroidKeycode::POWER.code() == AndroidKeycode::VOLUME_DOWN.code() + 1,
        AndroidKeycode::ENTER.code() == 66,
        AndroidKeycode::MENU.code() == AndroidKeycode::ENTER.code() + 16,
        AndroidKeycode::VOLUME_MUTE.code() == 2 * AndroidKeycode::MENU.code(),
        AndroidKeycode::APP_SWITCH.code() == AndroidKeycode::VOLUME_MUTE.code() + 23,
        AndroidKeycode::Other(code).code() == code,
{
}

/// Asking for the clipboard without a key, with copy and with cut are 0, 1 and 2.
pub proof fn lemma_copy_key_codes()
    ensures
        ClipboardCopyKey::NONE.code() == 0,
        ClipboardCopyKey::COPY.code() == ClipboardCopyKey::NONE.code() + 1,
        ClipboardCopyKey::CUT.code() == ClipboardCopyKey::COPY.code() + 1,
{
}

/// Each mouse button's bit is twice that of the button before it.
pub proof fn lemma_mouse_button_bits()
    ensures
        MouseButton::Left.code() == 1,
        MouseButton::Right.code() == 2 * MouseButton::Left.code(),
        MouseButton::Middle.code() == 2 * MouseButton::Right.code(),
        MouseButton::X1.code() == 2 * MouseButton::Middle.code(),
        MouseButton::X2.code() == 2 * MouseButton::X1.code(),
        MouseButton::held(Seq::empty()) == 0,
{
}

/// No modifier is held in an empty set.
pub proof fn lemma_no_modifier_held()
    ensures
        Modifiers::empty().bits == 0,
{
}

/// The named modifiers are three different bits, and a union holds exactly the bits of
/// its two sides.
pub proof fn lemma_modifier_sets(
    a: Modifiers,
    b: Modifiers,
    u: Modifiers,
    ctrl: Modifiers,
    shift: Modifiers,
    alt: Modifiers,
    bits: u8,
    m: Modifiers,
    back: u8,
    i: u8,
)
    requires
        call_ensures(Modifiers::union, (a, b), u),
        call_ensures(Modifiers::lctrl, (), ctrl),
        call_ensures(Modifiers::lshift, (), shift),
        call_ensures(Modifiers::lalt, (), alt),
        call_ensures(Modifiers::from_bits, (bits,), m),
        call_ensures(Modifiers::bits, (m,), back),
        i < 8,
    ensures
        (u.bits >> i) % 2 == 1 <==> (a.bits >> i) % 2 == 1 || (b.bits >> i) % 2 == 1,
        ctrl.bits == 1,
        shift.bits == 2 * ctrl.bits,
        alt.bits == 2 * shift.bits,
        back == bits,
{
    let x = a.bits;
    let y = b.bits;
    assert(((x | y) >> i) % 2 == 1 <==> (x >> i) % 2 == 1 || (y >> i) % 2 == 1) by (bit_vector)
        requires
            i < 8,
    ;
}

/// The numbers that go on the wire are the codes, for every kind of code.
pub proof fn lemma_values_are_codes(
    s: Scancode,
    n1: u8,
    modifier: bool,
    t: TouchAction,
    n2: u8,
    p: TouchPointerId,
    n3: u64,
    a: AndroidKeyAction,
    n4: u8,
    k: AndroidKeycode,
    n5: u32,
    c: ClipboardCopyKey,
    n6: u8,
    g: GamepadButton,
    n7: u32,
)
    ensures
        call_ensures(Scancode::to_u8, (s,), n1) ==> n1 == s.code(),
        call_ensures(Scancode::is_modifier, (s,), modifier) ==> (modifier <==> s is LeftCtrl || s
            is LeftShift || s is LeftAlt || s is LeftMeta || s is RightCtrl || s is RightShift || s
            is RightAlt || s is RightMeta),
        call_ensures(TouchAction::value, (t,), n2) ==> n2 == t.code(),
        call_ensures(TouchPointerId::value, (p,), n3) ==> n3 == p.code(),
        call_ensures(TouchPointerId::finger, (n3,), p) ==> p.code() == n3,
        call_ensures(AndroidKeyAction::value, (a,), n4) ==> n4 == a.code(),
        call_ensures(AndroidKeycode::value, (k,), n5) ==> n5 == k.code(),
        call_ensures(ClipboardCopyKey::value, (c,), n6) ==> n6 == c.code(),
        call_ensures(GamepadButton::value, (g,), n7) ==> n7 == g.code(),
{
}

/// The report byte of a list of buttons has exactly them held.
pub proof fn lemma_state_of_listed_buttons(buttons: &[MouseButton], r: u8, hat: u8, bits: u32)
    ensures
        call_ensures(MouseButton::state, (buttons,), r) ==> r == MouseButton::held(buttons@),
        call_ensures(dpad_hat_value, (bits,), hat) ==> hat == dpad_hat(bits) && hat <= 8,
{
}

} // verus!
