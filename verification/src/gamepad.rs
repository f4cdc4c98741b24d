//! Gamepad frames and their HID report.
use vstd::prelude::*;

use crate::types::{dpad_hat, dpad_hat_value, lemma_hat_goes_clockwise};
use crate::wire::le16;

verus! {

/// Size of a packed gamepad report.
pub const GAMEPAD_FRAME_BYTES: usize = 15;

/// Complete state of a gamepad.
#[derive(Debug, Clone, Copy, PartialEq, Eq, Structural)]
pub struct GamepadFrameRaw {
    pub buttons: u32,
    pub left_x: i16,
    pub left_y: i16,
    pub right_x: i16,
    pub right_y: i16,
    pub left_trigger: i16,
    pub right_trigger: i16,
}

/// A stick position moved from signed to unsigned range.
pub open spec fn stick_word(v: i16) -> u16 {
    (v + 0x8000) as u16
}

/// A trigger position; a negative one reads as released.
pub open spec fn trigger_word(v: i16) -> u16 {
    if v < 0 {
        0
    } else {
        v as u16
    }
}

/// The low sixteen buttons of a mask.
pub open spec fn button_word(buttons: u32) -> u16 {
    (buttons % 0x1_0000) as u16
}

/// The report of a frame: two sticks, two triggers, buttons and hat.
pub open spec fn report(frame: GamepadFrameRaw) -> Seq<u8> {
    le16(stick_word(frame.left_x)) + le16(stick_word(frame.left_y)) + le16(
        stick_word(frame.right_x),
    ) + le16(stick_word(frame.right_y)) + le16(trigger_word(frame.left_trigger)) + le16(
        trigger_word(frame.right_trigger),
    ) + le16(button_word(frame.buttons)) + seq![dpad_hat(frame.buttons)]
}

fn stick(v: i16) -> (r: u16)
    ensures
        r == stick_word(v),
{
    (v as i32 + 0x8000) as u16
}

fn trigger(v: i16) -> (r: u16)
    ensures
        r == trigger_word(v),
{
    if v < 0 {
        0
    } else {
        v as u16
    }
}

fn lo(v: u16) -> (r: u8)
    ensures
        r == v % 0x100,
{
    (v % 0x100) as u8
}

fn hi(v: u16) -> (r: u8)
    ensures
        r == v / 0x100,
{
    (v / 0x100) as u8
}

impl GamepadFrameRaw {
    pub fn new(
        buttons: u32,
        left_x: i16,
        left_y: i16,
        right_x: i16,
        right_y: i16,
        left_trigger: i16,
        right_trigger: i16,
    ) -> (r: GamepadFrameRaw)
        ensures
            r == (GamepadFrameRaw {
                buttons,
                left_x,
                left_y,
                right_x,
                right_y,
                left_trigger,
                right_trigger,
            }),
    {
        GamepadFrameRaw {
            buttons,
            left_x,
            left_y,
            right_x,
            right_y,
            left_trigger,
            right_trigger,
        }
    }

    /// A gamepad at rest.
    pub open spec fn spec_neutral() -> GamepadFrameRaw {
        GamepadFrameRaw {
            buttons: 0,
            left_x: 0,
            left_y: 0,
            right_x: 0,
            right_y: 0,
            left_trigger: 0,
            right_trigger: 0,
        }
    }

    /// A gamepad at rest.
    #[verifier::when_used_as_spec(spec_neutral)]
    pub fn neutral() -> (r: GamepadFrameRaw)
        ensures
            r == Self::spec_neutral(),
    {
        GamepadFrameRaw::new(0, 0, 0, 0, 0, 0, 0)
    }

    /// The packed HID report of the frame.
    pub fn pack(self) -> (r: [u8; GAMEPAD_FRAME_BYTES])
        ensures
            r@ == report(self),
    {
        let lx: u16 = stick(self.left_x);
        let ly: u16 = stick(self.left_y);
        let rx: u16 = stick(self.right_x);
        let ry: u16 = stick(self.right_y);
        let lt: u16 = trigger(self.left_trigger);
        let rt: u16 = trigger(self.right_trigger);
        let bw: u16 = (self.buttons % 0x1_0000) as u16;
        let hat: u8 = dpad_hat_value(self.buttons);
        let r: [u8; GAMEPAD_FRAME_BYTES] = [
            lo(lx),
            hi(lx),
            lo(ly),
            hi(ly),
            lo(rx),
            hi(rx),
            lo(ry),
            hi(ry),
            lo(lt),
            hi(lt),
            lo(rt),
            hi(rt),
            lo(bw),
            hi(bw),
            hat,
        ];
        assert(r@ =~= report(self));
        r
    }
}

/// A report is always fifteen bytes.
pub proof fn lemma_report_len(frame: GamepadFrameRaw)
    ensures
        report(frame).len() == GAMEPAD_FRAME_BYTES,
{
}

/// What a report says, read back from its bytes: stick positions counted from the
/// lower end of their range, triggers that never read below rest, the low sixteen
/// buttons and the hat.
pub proof fn lemma_report_reads_back(frame: GamepadFrameRaw)
    ensures
        ({
            let r = report(frame);
            &&& r[0] + 256 * r[1] == frame.left_x + 32768
            &&& r[2] + 256 * r[3] == frame.left_y + 32768
            &&& r[4] + 256 * r[5] == frame.right_x + 32768
            &&& r[6] + 256 * r[7] == frame.right_y + 32768
            &&& frame.left_trigger >= 0 ==> r[8] + 256 * r[9] == frame.left_trigger
            &&& frame.left_trigger < 0 ==> r[8] + 256 * r[9] == 0
            &&& frame.right_trigger >= 0 ==> r[10] + 256 * r[11] == frame.right_trigger
            &&& frame.right_trigger < 0 ==> r[10] + 256 * r[11] == 0
            &&& (frame.buttons - (r[12] + 256 * r[13])) % 65536 == 0
            &&& r[14] == dpad_hat(frame.buttons)
        }),
{
}

/// A gamepad at rest has its sticks in the middle, its triggers released, no button
/// held and the hat at rest.
pub proof fn lemma_neutral_is_at_rest(buttons: u32, left_x: i16, right_trigger: i16)
    ensures
        ({
            let rest = GamepadFrameRaw::neutral();
            let r = report(rest);
            &&& r[0] + 256 * r[1] == 32768
            &&& r[2] + 256 * r[3] == 32768
            &&& r[4] + 256 * r[5] == 32768
            &&& r[6] + 256 * r[7] == 32768
            &&& forall|i: int| 8 <= i < 15 ==> #[trigger] r[i] == 0
            &&& rest.buttons == 0
            &&& report(GamepadFrameRaw { buttons, ..rest }).take(12) == r.take(12)
            &&& report(GamepadFrameRaw { left_x, ..rest }).skip(2) == r.skip(2)
            &&& report(GamepadFrameRaw { right_trigger, ..rest }).take(10) == r.take(10)
        }),
{
    let rest = GamepadFrameRaw::neutral();
    lemma_hat_goes_clockwise();
    assert(report(GamepadFrameRaw { buttons, ..rest }).take(12) =~= report(rest).take(12));
    assert(report(GamepadFrameRaw { left_x, ..rest }).skip(2) =~= report(rest).skip(2));
    assert(report(GamepadFrameRaw { right_trigger, ..rest }).take(10) =~= report(rest).take(10));
}

/// A frame made of its parts keeps each of them in its place: its report reads back as
/// the sticks, the triggers and the buttons in that order.
pub proof fn lemma_new_frame_reports_its_parts(
    buttons: u32,
    left_x: i16,
    left_y: i16,
    right_x: i16,
    right_y: i16,
    left_trigger: i16,
    right_trigger: i16,
    f: GamepadFrameRaw,
    packed: [u8; GAMEPAD_FRAME_BYTES],
)
    requires
        call_ensures(
            GamepadFrameRaw::new,
            (buttons, left_x, left_y, right_x, right_y, left_trigger, right_trigger),
            f,
        ),
        call_ensures(GamepadFrameRaw::pack, (f,), packed),
    ensures
        packed@[0] + 256 * packed@[1] == left_x + 32768,
        packed@[2] + 256 * packed@[3] == left_y + 32768,
        packed@[4] + 256 * packed@[5] == right_x + 32768,
        packed@[6] + 256 * packed@[7] == right_y + 32768,
        packed@[8] + 256 * packed@[9] == if left_trigger < 0 { 0int } else { left_trigger as int },
        packed@[10] + 256 * packed@[11] == if right_trigger < 0 {
            0int
        } else {
            right_trigger as int
        },
        packed@[12] + 256 * packed@[13] == buttons as int % 0x1_0000,
{
    lemma_report_reads_back(f);
}

} // verus!
