//! Input frames that batches are made of.
use vstd::prelude::*;
use vstd::std_specs::cmp::{PartialEqSpec, PartialEqSpecImpl};

use crate::error::{Error, Result};
use crate::single::{numbers_equal, same_number};
use crate::types::{
    AndroidKeyAction, AndroidKeycode, Modifiers, MouseButton, Scancode, TouchAction,
    TouchPointerId,
};

verus! {

/// Touch frames in one batch command.
pub const TOUCH_BATCH_FRAMES: usize = 24;

/// Keyboard frames in one batch command.
pub const KEYBOARD_BATCH_FRAMES: usize = 32;

/// Keys in one chord.
pub const KEYBOARD_CHORD_KEYS: usize = 6;

/// Press and release edges of a full chord.
pub const KEYBOARD_CHORD_EDGES: usize = 12;

/// Android key frames in one batch command.
pub const ANDROID_KEY_BATCH_FRAMES: usize = 32;

/// Gamepad frames in one batch command.
pub const GAMEPAD_BATCH_FRAMES: usize = 32;

/// Mouse frames in one batch command.
pub const MOUSE_BATCH_FRAMES: usize = 32;

/// Scroll frames in one batch command.
pub const SCROLL_BATCH_FRAMES: usize = 32;

/// Bit pattern of the single-precision value 1.0.
pub const F32_ONE_BITS: u32 = 0x3F80_0000;

/// Bit pattern of the single-precision value 0.0.
pub const F32_ZERO_BITS: u32 = 0;

/// One touch event. `pressure` is the bit pattern of a single-precision value,
/// and `==` compares it as a number.
#[derive(Debug, Clone, Copy)]
pub struct TouchFrame {
    pub action: u8,
    pub pointer_id: u64,
    pub x: i32,
    pub y: i32,
    pub pressure: u32,
}

impl PartialEq for TouchFrame {
    fn eq(&self, other: &TouchFrame) -> (r: bool) {
        self.action == other.action && self.pointer_id == other.pointer_id && self.x == other.x
            && self.y == other.y && same_number(self.pressure, other.pressure)
    }
}

impl PartialEqSpecImpl for TouchFrame {
    open spec fn obeys_eq_spec() -> bool {
        true
    }

    open spec fn eq_spec(&self, other: &TouchFrame) -> bool {
        &&& self.action == other.action
        &&& self.pointer_id == other.pointer_id
        &&& self.x == other.x
        &&& self.y == other.y
        &&& numbers_equal(self.pressure, other.pressure)
    }
}

impl TouchFrame {
    pub open spec fn spec_empty() -> TouchFrame {
        TouchFrame { action: 0, pointer_id: 0, x: 0, y: 0, pressure: 0 }
    }

    /// The filler of unused batch slots.
    #[verifier::when_used_as_spec(spec_empty)]
    pub fn empty() -> (r: TouchFrame)
        ensures
            r == Self::spec_empty(),
    {
        TouchFrame { action: 0, pointer_id: 0, x: 0, y: 0, pressure: 0 }
    }

    pub fn new(action: u8, pointer_id: u64, x: i32, y: i32, pressure: u32) -> (r: TouchFrame)
        ensures
            r == (TouchFrame { action, pointer_id, x, y, pressure }),
    {
        TouchFrame { action, pointer_id, x, y, pressure }
    }

    pub fn with_action(
        action: TouchAction,
        pointer_id: u64,
        x: i32,
        y: i32,
        pressure: u32,
    ) -> (r: TouchFrame)
        ensures
            r == (TouchFrame { action: action.code(), pointer_id, x, y, pressure }),
    {
        TouchFrame::new(action.value(), pointer_id, x, y, pressure)
    }

    pub fn with_pointer(
        action: TouchAction,
        pointer_id: TouchPointerId,
        x: i32,
        y: i32,
        pressure: u32,
    ) -> (r: TouchFrame)
        ensures
            r == (TouchFrame {
                action: action.code(),
                pointer_id: pointer_id.code(),
                x,
                y,
                pressure,
            }),
    {
        TouchFrame::with_action(action, pointer_id.value(), x, y, pressure)
    }
}

/// One keyboard edge.
#[derive(Debug, Clone, Copy, PartialEq, Eq, Structural)]
pub struct KeyboardFrame {
    pub scancode: u8,
    pub pressed: bool,
    pub mods: Modifiers,
}

impl KeyboardFrame {
    pub open spec fn spec_empty() -> KeyboardFrame {
        KeyboardFrame { scancode: 0, pressed: false, mods: Modifiers::spec_empty() }
    }

    /// The filler of unused batch slots.
    #[verifier::when_used_as_spec(spec_empty)]
    pub fn empty() -> (r: KeyboardFrame)
        ensures
            r == Self::spec_empty(),
    {
        KeyboardFrame { scancode: 0, pressed: false, mods: Modifiers::empty() }
    }

    pub fn new(scancode: u8, pressed: bool, mods: Modifiers) -> (r: KeyboardFrame)
        ensures
            r == (KeyboardFrame { scancode, pressed, mods }),
    {
        KeyboardFrame { scancode, pressed, mods }
    }

    pub fn scancode(scancode: Scancode, pressed: bool, mods: Modifiers) -> (r: KeyboardFrame)
        ensures
            r == (KeyboardFrame { scancode: scancode.code(), pressed, mods }),
    {
        KeyboardFrame::new(scancode.to_u8(), pressed, mods)
    }

    pub fn down(scancode: u8, mods: Modifiers) -> (r: KeyboardFrame)
        ensures
            r == (KeyboardFrame { scancode, pressed: true, mods }),
    {
        KeyboardFrame::new(scancode, true, mods)
    }

    pub fn up(scancode: u8) -> (r: KeyboardFrame)
        ensures
            r == (KeyboardFrame { scancode, pressed: false, mods: Modifiers::empty() }),
    {
        KeyboardFrame::new(scancode, false, Modifiers::empty())
    }

    pub fn scancode_down(scancode: Scancode, mods: Modifiers) -> (r: KeyboardFrame)
        ensures
            r == (KeyboardFrame { scancode: scancode.code(), pressed: true, mods }),
    {
        KeyboardFrame::down(scancode.to_u8(), mods)
    }

    pub fn scancode_up(scancode: Scancode) -> (r: KeyboardFrame)
        ensures
            r == (KeyboardFrame {
                scancode: scancode.code(),
                pressed: false,
                mods: Modifiers::empty(),
            }),
    {
        KeyboardFrame::up(scancode.to_u8())
    }
}

/// Keys pressed together under the same modifiers.
#[derive(Debug, Clone, Copy, PartialEq, Eq)]
pub struct KeyboardChordFrame {
    pub len: u8,
    pub keys: [u8; KEYBOARD_CHORD_KEYS],
    pub mods: Modifiers,
}

/// Whether a modifier key is among named keys.
pub open spec fn names_modifier(scancodes: Seq<Scancode>) -> bool {
    exists|i: int| 0 <= i < scancodes.len() && (#[trigger] scancodes[i]).code() >= 0xE0
}

/// Whether a chord is the one over named keys.
pub open spec fn names_chord(
    scancodes: Seq<Scancode>,
    mods: Modifiers,
    chord: KeyboardChordFrame,
) -> bool {
    &&& chord.len == scancodes.len()
    &&& chord.mods == mods
    &&& chord.keys@ == KeyboardChordFrame::slots(scancodes.map_values(|s: Scancode| s.code()))
}

impl KeyboardChordFrame {
    /// The edges of the chord: presses in key order, then releases in reverse
    /// order. Every edge carries the chord's modifiers but the last release,
    /// which clears them.
    pub open spec fn edges(self) -> Seq<KeyboardFrame> {
        let n = self.len as int;
        Seq::new(
            (2 * n) as nat,
            |i: int|
                if i < n {
                    KeyboardFrame { scancode: self.keys@[i], pressed: true, mods: self.mods }
                } else {
                    KeyboardFrame {
                        scancode: self.keys@[2 * n - 1 - i],
                        pressed: false,
                        mods: if i == 2 * n - 1 {
                            Modifiers::empty()
                        } else {
                            self.mods
                        },
                    }
                },
        )
    }

    /// A chord of no keys.
    pub fn empty() -> (r: KeyboardChordFrame)
        ensures
            r.len == 0,
            r.keys@ == Seq::new(KEYBOARD_CHORD_KEYS as nat, |i: int| 0u8),
            r.mods == Modifiers::empty(),
    {
        let r = KeyboardChordFrame {
            len: 0,
            keys: [0; KEYBOARD_CHORD_KEYS],
            mods: Modifiers::empty(),
        };
        assert(r.keys@ =~= Seq::new(KEYBOARD_CHORD_KEYS as nat, |i: int| 0u8));
        r
    }

    pub fn new(len: u8, keys: [u8; KEYBOARD_CHORD_KEYS], mods: Modifiers) -> (r:
        KeyboardChordFrame)
        ensures
            r == (KeyboardChordFrame { len, keys, mods }),
    {
        KeyboardChordFrame { len, keys, mods }
    }

    /// A chord of one key.
    pub fn single(scancode: u8, mods: Modifiers) -> (r: KeyboardChordFrame)
        ensures
            r.len == 1,
            r.mods == mods,
            r.keys@ == Seq::new(KEYBOARD_CHORD_KEYS as nat, |i: int| 0u8).update(0, scancode),
    {
        let mut keys: [u8; KEYBOARD_CHORD_KEYS] = [0; KEYBOARD_CHORD_KEYS];
        assert(keys@ =~= Seq::new(KEYBOARD_CHORD_KEYS as nat, |i: int| 0u8));
        keys[0] = scancode;
        KeyboardChordFrame::new(1, keys, mods)
    }

    pub fn scancode(scancode: Scancode, mods: Modifiers) -> (r: KeyboardChordFrame)
        ensures
            r.len == 1,
            r.mods == mods,
            r.keys@ == Seq::new(KEYBOARD_CHORD_KEYS as nat, |i: int| 0u8).update(
                0,
                scancode.code(),
            ),
    {
        KeyboardChordFrame::single(scancode.to_u8(), mods)
    }

    /// The key slots of a chord over `codes`: the codes, then zeros.
    pub open spec fn slots(codes: Seq<u8>) -> Seq<u8> {
        Seq::new(KEYBOARD_CHORD_KEYS as nat, |i: int| if i < codes.len() { codes[i] } else { 0u8 })
    }

    /// A chord over raw usage codes. Too many keys are refused before the codes
    /// are looked at; a code above the last plain key is refused.
    pub fn try_new(scancodes: &[u8], mods: Modifiers) -> (r: Result<KeyboardChordFrame>)
        ensures
            scancodes@.len() > KEYBOARD_CHORD_KEYS ==> r == Err::<KeyboardChordFrame, Error>(
                Error::SessionLifecycle("keyboard chord too large"),
            ),
            scancodes@.len() <= KEYBOARD_CHORD_KEYS && (exists|i: int|
                0 <= i < scancodes@.len() && #[trigger] scancodes@[i] > 0x65) ==> r == Err::<
                KeyboardChordFrame,
                Error,
            >(Error::SessionLifecycle("keyboard chord keys must be non-modifier scancodes")),
            scancodes@.len() <= KEYBOARD_CHORD_KEYS && (forall|i: int|
                0 <= i < scancodes@.len() ==> #[trigger] scancodes@[i] <= 0x65) ==> {
                &&& r matches Ok(c)
                &&& c.len == scancodes@.len()
                &&& c.mods == mods
                &&& c.keys@ == Self::slots(scancodes@)
            },
    {
        if scancodes.len() > KEYBOARD_CHORD_KEYS {
            return Err(Error::SessionLifecycle("keyboard chord too large"));
        }
        let mut keys: [u8; KEYBOARD_CHORD_KEYS] = [0; KEYBOARD_CHORD_KEYS];
        let mut i: usize = 0;
        while i < scancodes.len()
            invariant
                i <= scancodes@.len() <= KEYBOARD_CHORD_KEYS,
                forall|j: int| 0 <= j < i ==> #[trigger] scancodes@[j] <= 0x65,
                forall|j: int|
                    0 <= j < KEYBOARD_CHORD_KEYS ==> #[trigger] keys@[j] == if j < i {
                        scancodes@[j]
                    } else {
                        0u8
                    },
            decreases scancodes@.len() - i,
        {
            if scancodes[i] > 0x65 {
                return Err(
                    Error::SessionLifecycle("keyboard chord keys must be non-modifier scancodes"),
                );
            }
            keys[i] = scancodes[i];
            i = i + 1;
        }
        assert(keys@ =~= Self::slots(scancodes@));
        Ok(KeyboardChordFrame::new(scancodes.len() as u8, keys, mods))
    }

    /// A chord over named keys; modifier keys are refused.
    pub fn try_scancodes(scancodes: &[Scancode], mods: Modifiers) -> (r: Result<
        KeyboardChordFrame,
    >)
        ensures
            scancodes@.len() > KEYBOARD_CHORD_KEYS ==> r == Err::<KeyboardChordFrame, Error>(
                Error::SessionLifecycle("keyboard chord too large"),
            ),
            scancodes@.len() <= KEYBOARD_CHORD_KEYS && names_modifier(scancodes@) ==> r == Err::<
                KeyboardChordFrame,
                Error,
            >(Error::SessionLifecycle("keyboard chord keys must be non-modifier scancodes")),
            scancodes@.len() <= KEYBOARD_CHORD_KEYS && !names_modifier(scancodes@)
                ==> (r matches Ok(
                c,
            ) && names_chord(scancodes@, mods, c)),
    {
        if scancodes.len() > KEYBOARD_CHORD_KEYS {
            return Err(Error::SessionLifecycle("keyboard chord too large"));
        }
        let mut keys: [u8; KEYBOARD_CHORD_KEYS] = [0; KEYBOARD_CHORD_KEYS];
        let mut i: usize = 0;
        while i < scancodes.len()
            invariant
                i <= scancodes@.len() <= KEYBOARD_CHORD_KEYS,
                forall|j: int| 0 <= j < i ==> (#[trigger] scancodes@[j]).code() < 0xE0,
                forall|j: int|
                    0 <= j < KEYBOARD_CHORD_KEYS ==> #[trigger] keys@[j] == if j < i {
                        scancodes@[j].code()
                    } else {
                        0u8
                    },
            decreases scancodes@.len() - i,
        {
            if scancodes[i].is_modifier() {
                return Err(
                    Error::SessionLifecycle("keyboard chord keys must be non-modifier scancodes"),
                );
            }
            keys[i] = scancodes[i].to_u8();
            i = i + 1;
        }
        assert(keys@ =~= Self::slots(scancodes@.map_values(|s: Scancode| s.code())));
        Ok(KeyboardChordFrame::new(scancodes.len() as u8, keys, mods))
    }

    /// Expands the chord into its edges, padded with empty frames. A length
    /// beyond the key slots is refused.
    pub fn edge_frames(self) -> (r: Result<([KeyboardFrame; KEYBOARD_CHORD_EDGES], usize)>)
        ensures
            self.len > KEYBOARD_CHORD_KEYS ==> r == Err::<
                ([KeyboardFrame; KEYBOARD_CHORD_EDGES], usize),
                Error,
            >(Error::SessionLifecycle("keyboard chord length overflow")),
            self.len <= KEYBOARD_CHORD_KEYS ==> {
                &&& r matches Ok(p)
                &&& p.1 == 2 * self.len
                &&& p.0@.take(p.1 as int) == self.edges()
                &&& forall|i: int|
                    p.1 <= i < KEYBOARD_CHORD_EDGES ==> #[trigger] p.0@[i]
                        == KeyboardFrame::empty()
            },
    {
        let len: usize = self.len as usize;
        if len > KEYBOARD_CHORD_KEYS {
            return Err(Error::SessionLifecycle("keyboard chord length overflow"));
        }
        let mut frames: [KeyboardFrame; KEYBOARD_CHORD_EDGES] = [
            KeyboardFrame::empty();
            KEYBOARD_CHORD_EDGES
        ];
        let mut idx: usize = 0;
        while idx < len
            invariant
                idx <= len <= KEYBOARD_CHORD_KEYS,
                len == self.len,
                forall|j: int|
                    0 <= j < KEYBOARD_CHORD_EDGES ==> #[trigger] frames@[j] == if j < idx {
                        self.edges()[j]
                    } else {
                        KeyboardFrame::empty()
                    },
            decreases len - idx,
        {
            frames[idx] = KeyboardFrame::down(self.keys[idx], self.mods);
            idx = idx + 1;
        }
        let mut released: usize = 0;
        while released < len
            invariant
                released <= len <= KEYBOARD_CHORD_KEYS,
                len == self.len,
                forall|j: int|
                    0 <= j < KEYBOARD_CHORD_EDGES ==> #[trigger] frames@[j] == if j < len
                        + released {
                        self.edges()[j]
                    } else {
                        KeyboardFrame::empty()
                    },
            decreases len - released,
        {
            let key: u8 = self.keys[len - 1 - released];
            let mods = if released + 1 == len {
                Modifiers::empty()
            } else {
                self.mods
            };
            frames[len + released] = KeyboardFrame::new(key, false, mods);
            released = released + 1;
        }
        assert(frames@.take(2 * len) =~= self.edges());
        Ok((frames, len * 2))
    }
}

/// Every key a chord presses it releases, last pressed first released.
pub proof fn lemma_chord_releases_in_reverse(chord: KeyboardChordFrame, i: int)
    requires
        0 <= i < chord.len,
    ensures
        chord.edges().len() == 2 * chord.len,
        chord.edges()[i].pressed,
        !chord.edges()[2 * chord.len - 1 - i].pressed,
        chord.edges()[i].scancode == chord.edges()[2 * chord.len - 1 - i].scancode,
        chord.edges()[i].scancode == chord.keys@[i],
{
}

/// A chord leaves no modifier held: its last edge carries none, every earlier
/// edge carries the chord's own.
pub proof fn lemma_chord_clears_modifiers(chord: KeyboardChordFrame)
    requires
        chord.len > 0,
    ensures
        chord.edges().last().mods == Modifiers::empty(),
        forall|i: int|
            0 <= i < 2 * chord.len - 1 ==> (#[trigger] chord.edges()[i]).mods == chord.mods,
{
}

/// One Android key event.
#[derive(Debug, Clone, Copy, PartialEq, Eq, Structural)]
pub struct AndroidKeyFrame {
    pub action: u8,
    pub keycode: u32,
    pub repeat: u32,
    pub metastate: u32,
}

impl AndroidKeyFrame {
    pub open spec fn spec_empty() -> AndroidKeyFrame {
        AndroidKeyFrame { action: 0, keycode: 0, repeat: 0, metastate: 0 }
    }

    /// The filler of unused batch slots.
    #[verifier::when_used_as_spec(spec_empty)]
    pub fn empty() -> (r: AndroidKeyFrame)
        ensures
            r == Self::spec_empty(),
    {
        AndroidKeyFrame { action: 0, keycode: 0, repeat: 0, metastate: 0 }
    }

    pub fn new(action: u8, keycode: u32, repeat: u32, metastate: u32) -> (r: AndroidKeyFrame)
        ensures
            r == (AndroidKeyFrame { action, keycode, repeat, metastate }),
    {
        AndroidKeyFrame { action, keycode, repeat, metastate }
    }

    pub fn typed(
        action: AndroidKeyAction,
        keycode: AndroidKeycode,
        repeat: u32,
        metastate: u32,
    ) -> (r: AndroidKeyFrame)
        ensures
            r == (AndroidKeyFrame {
                action: action.code(),
                keycode: keycode.code(),
                repeat,
                metastate,
            }),
    {
        AndroidKeyFrame::new(action.value(), keycode.value(), repeat, metastate)
    }

    pub fn down(keycode: AndroidKeycode, metastate: u32) -> (r: AndroidKeyFrame)
        ensures
            r == (AndroidKeyFrame { action: 0, keycode: keycode.code(), repeat: 0, metastate }),
    {
        AndroidKeyFrame::typed(AndroidKeyAction::DOWN, keycode, 0, metastate)
    }

    pub fn up(keycode: AndroidKeycode, metastate: u32) -> (r: AndroidKeyFrame)
        ensures
            r == (AndroidKeyFrame { action: 1, keycode: keycode.code(), repeat: 0, metastate }),
    {
        AndroidKeyFrame::typed(AndroidKeyAction::UP, keycode, 0, metastate)
    }
}

/// One relative mouse motion with the buttons held during it.
#[derive(Debug, Clone, Copy, PartialEq, Eq, Structural)]
pub struct MouseFrame {
    pub dx: i32,
    pub dy: i32,
    pub buttons: u8,
}

impl MouseFrame {
    pub open spec fn spec_empty() -> MouseFrame {
        MouseFrame { dx: 0, dy: 0, buttons: 0 }
    }

    /// The filler of unused batch slots.
    #[verifier::when_used_as_spec(spec_empty)]
    pub fn empty() -> (r: MouseFrame)
        ensures
            r == Self::spec_empty(),
    {
        MouseFrame { dx: 0, dy: 0, buttons: 0 }
    }

    pub fn motion(dx: i32, dy: i32, buttons: u8) -> (r: MouseFrame)
        ensures
            r == (MouseFrame { dx, dy, buttons }),
    {
        MouseFrame { dx, dy, buttons }
    }

    pub fn motion_buttons(dx: i32, dy: i32, buttons: &[MouseButton]) -> (r: MouseFrame)
        ensures
            r == (MouseFrame { dx, dy, buttons: MouseButton::held(buttons@) }),
    {
        MouseFrame::motion(dx, dy, MouseButton::state(buttons))
    }

    /// A change of buttons without motion.
    pub fn buttons(buttons: u8) -> (r: MouseFrame)
        ensures
            r == (MouseFrame { dx: 0, dy: 0, buttons }),
    {
        MouseFrame { dx: 0, dy: 0, buttons }
    }
}

/// One scroll event. `hscroll` and `vscroll` are bit patterns of
/// single-precision values, and `==` compares them as numbers.
#[derive(Debug, Clone, Copy)]
pub struct ScrollFrame {
    pub x: i32,
    pub y: i32,
    pub hscroll: u32,
    pub vscroll: u32,
    pub buttons: u32,
}

impl PartialEq for ScrollFrame {
    fn eq(&self, other: &ScrollFrame) -> (r: bool) {
        self.x == other.x && self.y == other.y && same_number(self.hscroll, other.hscroll)
            && same_number(self.vscroll, other.vscroll) && self.buttons == other.buttons
    }
}

impl PartialEqSpecImpl for ScrollFrame {
    open spec fn obeys_eq_spec() -> bool {
        true
    }

    open spec fn eq_spec(&self, other: &ScrollFrame) -> bool {
        &&& self.x == other.x
        &&& self.y == other.y
        &&& numbers_equal(self.hscroll, other.hscroll)
        &&& numbers_equal(self.vscroll, other.vscroll)
        &&& self.buttons == other.buttons
    }
}

impl ScrollFrame {
    pub open spec fn spec_empty() -> ScrollFrame {
        ScrollFrame { x: 0, y: 0, hscroll: 0, vscroll: 0, buttons: 0 }
    }

    /// The filler of unused batch slots.
    #[verifier::when_used_as_spec(spec_empty)]
    pub fn empty() -> (r: ScrollFrame)
        ensures
            r == Self::spec_empty(),
    {
        ScrollFrame { x: 0, y: 0, hscroll: 0, vscroll: 0, buttons: 0 }
    }

    pub fn new(x: i32, y: i32, hscroll: u32, vscroll: u32, buttons: u32) -> (r: ScrollFrame)
        ensures
            r == (ScrollFrame { x, y, hscroll, vscroll, buttons }),
    {
        ScrollFrame { x, y, hscroll, vscroll, buttons }
    }

    pub fn scroll(x: i32, y: i32, hscroll: u32, vscroll: u32) -> (r: ScrollFrame)
        ensures
            r == (ScrollFrame { x, y, hscroll, vscroll, buttons: 0 }),
    {
        ScrollFrame::new(x, y, hscroll, vscroll, 0)
    }
}

/// The fillers of unused slots hold nothing but zeros.
pub proof fn lemma_fillers_are_zero()
    ensures
        TouchFrame::empty().action == 0 && TouchFrame::empty().pointer_id == 0
            && TouchFrame::empty().x == 0 && TouchFrame::empty().y == 0
            && TouchFrame::empty().pressure == 0,
        KeyboardFrame::empty().scancode == 0 && !KeyboardFrame::empty().pressed
            && KeyboardFrame::empty().mods.bits == 0,
        AndroidKeyFrame::empty().action == 0 && AndroidKeyFrame::empty().keycode == 0
            && AndroidKeyFrame::empty().repeat == 0 && AndroidKeyFrame::empty().metastate == 0,
        MouseFrame::empty().dx == 0 && MouseFrame::empty().dy == 0 && MouseFrame::empty().buttons
            == 0,
        ScrollFrame::empty().x == 0 && ScrollFrame::empty().y == 0 && ScrollFrame::empty().hscroll
            == 0 && ScrollFrame::empty().vscroll == 0 && ScrollFrame::empty().buttons == 0,
{
}

/// Named keys hold a modifier exactly if one of them is a control, shift, alt or meta
/// key of either side.
pub proof fn lemma_modifier_keys(scancodes: Seq<Scancode>, s: Scancode)
    ensures
        s.code() >= 0xE0 <==> s is LeftCtrl || s is LeftShift || s is LeftAlt || s is LeftMeta || s
            is RightCtrl || s is RightShift || s is RightAlt || s is RightMeta,
        names_modifier(scancodes.push(s)) <==> names_modifier(scancodes) || s.code() >= 0xE0,
        !names_modifier(Seq::empty()),
{
    let all = scancodes.push(s);
    if names_modifier(scancodes) {
        let i = choose|i: int|
            0 <= i < scancodes.len() && (#[trigger] scancodes[i]).code() >= 0xE0;
        assert(all[i].code() >= 0xE0);
    }
    if s.code() >= 0xE0 {
        assert(all[scancodes.len() as int].code() >= 0xE0);
    }
    if names_modifier(all) {
        let i = choose|i: int| 0 <= i < all.len() && (#[trigger] all[i]).code() >= 0xE0;
        if i < scancodes.len() {
            assert(scancodes[i].code() >= 0xE0);
        }
    }
}

/// The chord over named keys has their codes in its slots, in order and without gaps,
/// zeros behind them, and presses exactly these keys under the given modifiers.
pub proof fn lemma_chord_presses_named_keys(
    scancodes: Seq<Scancode>,
    mods: Modifiers,
    chord: KeyboardChordFrame,
    i: int,
)
    requires
        scancodes.len() <= 6,
        names_chord(scancodes, mods, chord),
        0 <= i < 6,
    ensures
        chord.len == scancodes.len(),
        chord.edges().len() == 2 * scancodes.len(),
        i < scancodes.len() ==> chord.keys@[i] == scancodes[i].code(),
        i < scancodes.len() ==> chord.edges()[i] == (KeyboardFrame {
            scancode: scancodes[i].code(),
            pressed: true,
            mods,
        }),
        i >= scancodes.len() ==> chord.keys@[i] == 0,
{
}

/// Touch frames and scroll frames are equal exactly if their whole fields are the same
/// and their fractional ones compare equal as numbers.
pub proof fn lemma_frame_equality(a: TouchFrame, b: TouchFrame, c: ScrollFrame, d: ScrollFrame)
    ensures
        PartialEqSpec::eq_spec(&a, &b) ==> a.action == b.action && a.pointer_id == b.pointer_id && a.x == b.x && a.y
            == b.y && numbers_equal(a.pressure, b.pressure),
        b == (TouchFrame { pressure: b.pressure, ..a }) && numbers_equal(a.pressure, b.pressure)
            ==> PartialEqSpec::eq_spec(&a, &b),
        PartialEqSpec::eq_spec(&c, &d) ==> c.x == d.x && c.y == d.y && c.buttons == d.buttons && numbers_equal(
            c.hscroll,
            d.hscroll,
        ) && numbers_equal(c.vscroll, d.vscroll),
        d == (ScrollFrame { hscroll: d.hscroll, vscroll: d.vscroll, ..c }) && numbers_equal(
            c.hscroll,
            d.hscroll,
        ) && numbers_equal(c.vscroll, d.vscroll) ==> PartialEqSpec::eq_spec(&c, &d),
{
}

/// Touches made by phase and by pointer carry the codes of both.
pub proof fn lemma_touches_carry_codes(
    action: TouchAction,
    pointer: TouchPointerId,
    code: u8,
    id: u64,
    x: i32,
    y: i32,
    pressure: u32,
    f: TouchFrame,
)
    ensures
        call_ensures(TouchFrame::new, (code, id, x, y, pressure), f) ==> f.action == code
            && f.pointer_id == id && f.x == x && f.y == y && f.pressure == pressure,
        call_ensures(TouchFrame::with_action, (action, id, x, y, pressure), f) ==> f.action
            == action.code() && f.pointer_id == id && f.x == x && f.y == y && f.pressure
            == pressure,
        call_ensures(TouchFrame::with_pointer, (action, pointer, x, y, pressure), f) ==> f.action
            == action.code() && f.pointer_id == pointer.code() && f.x == x && f.y == y
            && f.pressure == pressure,
{
}

/// A key goes down under its modifiers and comes up under none, whether it is given by
/// its usage code or by its name.
pub proof fn lemma_keys_go_down_and_up(
    code: u8,
    name: Scancode,
    pressed: bool,
    mods: Modifiers,
    f: KeyboardFrame,
)
    ensures
        call_ensures(KeyboardFrame::new, (code, pressed, mods), f) ==> f.scancode == code
            && f.pressed == pressed && f.mods == mods,
        call_ensures(KeyboardFrame::scancode, (name, pressed, mods), f) ==> f.scancode
            == name.code() && f.pressed == pressed && f.mods == mods,
        call_ensures(KeyboardFrame::down, (code, mods), f) ==> f.scancode == code && f.pressed
            && f.mods == mods,
        call_ensures(KeyboardFrame::up, (code,), f) ==> f.scancode == code && !f.pressed
            && f.mods.bits == 0,
        call_ensures(KeyboardFrame::scancode_down, (name, mods), f) ==> f.scancode == name.code()
            && f.pressed && f.mods == mods,
        call_ensures(KeyboardFrame::scancode_up, (name,), f) ==> f.scancode == name.code()
            && !f.pressed && f.mods.bits == 0,
{
}

/// A chord of one key presses that key and no other; a chord of no keys presses none.
pub proof fn lemma_small_chords(code: u8, name: Scancode, mods: Modifiers, c: KeyboardChordFrame)
    ensures
        call_ensures(KeyboardChordFrame::empty, (), c) ==> c.edges().len() == 0,
        call_ensures(KeyboardChordFrame::single, (code, mods), c) ==> c.edges() == seq![
            KeyboardFrame { scancode: code, pressed: true, mods },
            KeyboardFrame { scancode: code, pressed: false, mods: Modifiers { bits: 0 } },
        ],
        call_ensures(KeyboardChordFrame::scancode, (name, mods), c) ==> c.edges() == seq![
            KeyboardFrame { scancode: name.code(), pressed: true, mods },
            KeyboardFrame { scancode: name.code(), pressed: false, mods: Modifiers { bits: 0 } },
        ],
{
    if call_ensures(KeyboardChordFrame::single, (code, mods), c) {
        assert(c.edges() =~= seq![
            KeyboardFrame { scancode: code, pressed: true, mods },
            KeyboardFrame { scancode: code, pressed: false, mods: Modifiers { bits: 0 } },
        ]);
    }
    if call_ensures(KeyboardChordFrame::scancode, (name, mods), c) {
        assert(c.edges() =~= seq![
            KeyboardFrame { scancode: name.code(), pressed: true, mods },
            KeyboardFrame { scancode: name.code(), pressed: false, mods: Modifiers { bits: 0 } },
        ]);
    }
}

/// A chord over raw codes is made exactly if there are at most six and none is above the
/// last plain key; it presses them in order. Over named keys, exactly if there are at
/// most six and none is a modifier.
pub proof fn lemma_chords_are_made(
    codes: &[u8],
    names: &[Scancode],
    mods: Modifiers,
    r: Result<KeyboardChordFrame>,
    i: int,
)
    ensures
        call_ensures(KeyboardChordFrame::try_new, (codes, mods), r) ==> (r is Ok <==> codes@.len()
            <= 6 && forall|j: int| 0 <= j < codes@.len() ==> #[trigger] codes@[j] <= 0x65),
        call_ensures(KeyboardChordFrame::try_new, (codes, mods), r) && r is Ok && 0 <= i
            < codes@.len() ==> r->Ok_0.edges()[i] == (KeyboardFrame {
            scancode: codes@[i],
            pressed: true,
            mods,
        }) && r->Ok_0.edges().len() == 2 * codes@.len(),
        call_ensures(KeyboardChordFrame::try_scancodes, (names, mods), r) ==> (r is Ok
            <==> names@.len() <= 6 && !names_modifier(names@)),
        call_ensures(KeyboardChordFrame::try_scancodes, (names, mods), r) && r is Ok ==> names_chord(
            names@,
            mods,
            r->Ok_0,
        ),
{
    if call_ensures(KeyboardChordFrame::try_new, (codes, mods), r) && codes@.len() <= 6 {
        if !(forall|j: int| 0 <= j < codes@.len() ==> #[trigger] codes@[j] <= 0x65) {
            let j = choose|j: int| 0 <= j < codes@.len() && #[trigger] codes@[j] > 0x65;
            assert(codes@[j] > 0x65);
        }
    }
}

/// The edges of a chord come out in front of empty frames, and not at all for a chord
/// that counts more keys than it has.
pub proof fn lemma_chord_expands(
    c: KeyboardChordFrame,
    r: Result<([KeyboardFrame; KEYBOARD_CHORD_EDGES], usize)>,
    i: int,
)
    requires
        call_ensures(KeyboardChordFrame::edge_frames, (c,), r),
        0 <= i < 12,
    ensures
        r is Ok <==> c.len <= 6,
        r matches Ok(p) ==> p.1 == 2 * c.len && (i < p.1 ==> p.0@[i] == c.edges()[i]) && (i >= p.1
            ==> p.0@[i].scancode == 0 && !p.0@[i].pressed),
{
    if let Ok(p) = r {
        if i < p.1 {
            assert(p.0@.take(p.1 as int)[i] == c.edges()[i]);
        }
    }
}

/// Android key events, motions and scrolls keep what they are made of. A press is phase
/// 0 and a release phase 1, neither repeats; a button change has no way, and a scroll
/// holds no buttons unless they are named.
pub proof fn lemma_other_frames_keep_parts(
    code: u8,
    keycode: u32,
    repeat: u32,
    metastate: u32,
    action: AndroidKeyAction,
    key: AndroidKeycode,
    k: AndroidKeyFrame,
    dx: i32,
    dy: i32,
    held: u8,
    list: &[MouseButton],
    m: MouseFrame,
    hscroll: u32,
    vscroll: u32,
    buttons: u32,
    s: ScrollFrame,
)
    ensures
        call_ensures(AndroidKeyFrame::new, (code, keycode, repeat, metastate), k) ==> k.action
            == code && k.keycode == keycode && k.repeat == repeat && k.metastate == metastate,
        call_ensures(AndroidKeyFrame::typed, (action, key, repeat, metastate), k) ==> k.action
            == action.code() && k.keycode == key.code() && k.repeat == repeat && k.metastate
            == metastate,
        call_ensures(AndroidKeyFrame::down, (key, metastate), k) ==> k.action == 0 && k.keycode
            == key.code() && k.repeat == 0 && k.metastate == metastate,
        call_ensures(AndroidKeyFrame::up, (key, metastate), k) ==> k.action == 1 && k.keycode
            == key.code() && k.repeat == 0 && k.metastate == metastate,
        call_ensures(MouseFrame::motion, (dx, dy, held), m) ==> m.dx == dx && m.dy == dy
            && m.buttons == held,
        call_ensures(MouseFrame::motion_buttons, (dx, dy, list), m) ==> m.dx == dx && m.dy == dy
            && m.buttons == MouseButton::held(list@),
        call_ensures(MouseFrame::buttons, (held,), m) ==> m.dx == 0 && m.dy == 0 && m.buttons
            == held,
        call_ensures(ScrollFrame::new, (dx, dy, hscroll, vscroll, buttons), s) ==> s.x == dx && s.y
            == dy && s.hscroll == hscroll && s.vscroll == vscroll && s.buttons == buttons,
        call_ensures(ScrollFrame::scroll, (dx, dy, hscroll, vscroll), s) ==> s.x == dx && s.y == dy
            && s.hscroll == hscroll && s.vscroll == vscroll && s.buttons == 0,
{
}

/// A chord made of its parts holds them.
pub proof fn lemma_chord_holds_its_parts(
    len: u8,
    keys: [u8; KEYBOARD_CHORD_KEYS],
    mods: Modifiers,
    chord: KeyboardChordFrame,
)
    requires
        call_ensures(KeyboardChordFrame::new, (len, keys, mods), chord),
    ensures
        chord.len == len,
        chord.keys == keys,
        chord.mods == mods,
{
}

/// Why a chord is refused: it has more than six keys, or else a modifier among them.
pub proof fn lemma_chord_refusals_are_named(
    codes: &[u8],
    scancodes: &[Scancode],
    mods: Modifiers,
    r: Result<KeyboardChordFrame>,
    i: int,
)
    ensures
        call_ensures(KeyboardChordFrame::try_new, (codes, mods), r) ==> {
            &&& codes@.len() > 6 ==> r == Err::<KeyboardChordFrame, Error>(
                Error::SessionLifecycle("keyboard chord too large"),
            )
            &&& codes@.len() <= 6 && 0 <= i < codes@.len() && codes@[i] > 101 ==> r == Err::<
                KeyboardChordFrame,
                Error,
            >(Error::SessionLifecycle("keyboard chord keys must be non-modifier scancodes"))
            &&& codes@.len() <= 6 && (forall|j: int|
                0 <= j < codes@.len() ==> #[trigger] codes@[j] <= 101) ==> (r matches Ok(c) && c.len
                == codes@.len() && c.mods == mods && (0 <= i < codes@.len() ==> c.keys@[i]
                == codes@[i]))
        },
        call_ensures(KeyboardChordFrame::try_scancodes, (scancodes, mods), r) ==> {
            &&& scancodes@.len() > 6 ==> r == Err::<KeyboardChordFrame, Error>(
                Error::SessionLifecycle("keyboard chord too large"),
            )
            &&& scancodes@.len() <= 6 && names_modifier(scancodes@) ==> r == Err::<
                KeyboardChordFrame,
                Error,
            >(Error::SessionLifecycle("keyboard chord keys must be non-modifier scancodes"))
            &&& scancodes@.len() <= 6 && !names_modifier(scancodes@) ==> (r matches Ok(c) && c.len
                == scancodes@.len() && c.mods == mods && (0 <= i < scancodes@.len() ==> c.keys@[i]
                == scancodes@[i].code()))
        },
{
}

} // verus!
