//! Action plans and what they cost the dispatcher.
//!
//! A plan is a list of actions. Frames of one kind that follow each other travel
//! together, so the number of dispatcher commands of a plan is less than the
//! number of its actions; an agent checks it against the bound of its queue before
//! it sends anything.
use vstd::prelude::*;

use crate::agent::{AgentPoint, AgentRect, AgentScrollFrame, AgentTouchFrame};
use crate::command::HidCommand;
use crate::error::{Error, Result};
use crate::frames::{
    names_chord, names_modifier, AndroidKeyFrame, KeyboardChordFrame, KeyboardFrame, MouseFrame,
    ANDROID_KEY_BATCH_FRAMES, GAMEPAD_BATCH_FRAMES, KEYBOARD_BATCH_FRAMES, KEYBOARD_CHORD_KEYS,
    MOUSE_BATCH_FRAMES, SCROLL_BATCH_FRAMES, TOUCH_BATCH_FRAMES,
};
use crate::gamepad::{GamepadFrameRaw, GAMEPAD_FRAME_BYTES};
use crate::gamepad_batch::{blank_packed, padded_packed};
use crate::geometry::BASIS_POINTS;
use crate::gestures::{down_frame, lemma_swipe_presses_and_releases, swipe_frames, up_frame};
use crate::types::{Modifiers, Scancode};

verus! {

/// Why a plan with a timed action cannot be queued without blocking.
pub const TIMED_ACTION_REQUIRES_BLOCKING: &'static str =
    "timed action requires queue_actions or run_actions";

/// One step of a plan. The first `len` frames of a fixed batch count.
#[allow(inconsistent_fields)]
#[derive(Debug, Clone, Copy, PartialEq, Eq)]
pub enum AgentAction {
    Tap { x: i32, y: i32 },
    Swipe { from: (i32, i32), to: (i32, i32), steps: usize },
    TapRectAt { rect: AgentRect, x_bp: u16, y_bp: u16 },
    LongPressPoint { point: AgentPoint, hold_ns: u64 },
    LongPressRectAt { rect: AgentRect, x_bp: u16, y_bp: u16, hold_ns: u64 },
    ScrollRect { rect: AgentRect, hscroll: i16, vscroll: i16 },
    TouchFramesFixed { len: usize, frames: [AgentTouchFrame; TOUCH_BATCH_FRAMES] },
    ScrollBatchFixed { len: usize, frames: [AgentScrollFrame; SCROLL_BATCH_FRAMES] },
    KeyBatchFixed { len: usize, frames: [KeyboardFrame; KEYBOARD_BATCH_FRAMES] },
    KeyboardChordFixed(KeyboardChordFrame),
    AndroidKeyBatchFixed { len: usize, frames: [AndroidKeyFrame; ANDROID_KEY_BATCH_FRAMES] },
    MouseBatchFixed { len: usize, frames: [MouseFrame; MOUSE_BATCH_FRAMES] },
    GamepadFrame(GamepadFrameRaw),
    GamepadFrameUnchecked(GamepadFrameRaw),
    GamepadPackedFrame([u8; GAMEPAD_FRAME_BYTES]),
    GamepadFrameBatchFixed { len: usize, frames: [GamepadFrameRaw; GAMEPAD_BATCH_FRAMES] },
    GamepadFrameBatchFixedUnchecked { len: usize, frames: [GamepadFrameRaw; GAMEPAD_BATCH_FRAMES] },
    GamepadPackedFrameBatchFixed {
        len: usize,
        frames: [[u8; GAMEPAD_FRAME_BYTES]; GAMEPAD_BATCH_FRAMES],
    },
    PressBack,
    Flush,
    Wait { duration_ns: u64 },
}

/// The kinds of frames that travel together.
#[derive(Debug, Clone, Copy, PartialEq, Eq, Structural)]
pub enum Lane {
    Touch,
    Scroll,
    Keyboard,
    AndroidKey,
    Mouse,
    GamepadDedupe,
    GamepadUnchecked,
    GamepadPacked,
}

impl Lane {
    /// How many frames one command carries.
    pub open spec fn cap(self) -> nat {
        match self {
            Lane::Touch => TOUCH_BATCH_FRAMES as nat,
            Lane::Scroll => SCROLL_BATCH_FRAMES as nat,
            Lane::Keyboard => KEYBOARD_BATCH_FRAMES as nat,
            Lane::AndroidKey => ANDROID_KEY_BATCH_FRAMES as nat,
            Lane::Mouse => MOUSE_BATCH_FRAMES as nat,
            _ => GAMEPAD_BATCH_FRAMES as nat,
        }
    }

    fn capacity(self) -> (n: u128)
        ensures
            n == self.cap(),
            0 < n <= 64,
    {
        match self {
            Lane::Touch => TOUCH_BATCH_FRAMES as u128,
            Lane::Scroll => SCROLL_BATCH_FRAMES as u128,
            Lane::Keyboard => KEYBOARD_BATCH_FRAMES as u128,
            Lane::AndroidKey => ANDROID_KEY_BATCH_FRAMES as u128,
            Lane::Mouse => MOUSE_BATCH_FRAMES as u128,
            _ => GAMEPAD_BATCH_FRAMES as u128,
        }
    }
}

impl AgentAction {
    /// The kind of the action's frames, if it has frames.
    pub open spec fn lane(self) -> Option<Lane> {
        match self {
            AgentAction::Tap { .. } => Some(Lane::Touch),
            AgentAction::Swipe { .. } => Some(Lane::Touch),
            AgentAction::TapRectAt { .. } => Some(Lane::Touch),
            AgentAction::TouchFramesFixed { .. } => Some(Lane::Touch),
            AgentAction::ScrollRect { .. } => Some(Lane::Scroll),
            AgentAction::ScrollBatchFixed { .. } => Some(Lane::Scroll),
            AgentAction::KeyBatchFixed { .. } => Some(Lane::Keyboard),
            AgentAction::KeyboardChordFixed(_) => Some(Lane::Keyboard),
            AgentAction::AndroidKeyBatchFixed { .. } => Some(Lane::AndroidKey),
            AgentAction::MouseBatchFixed { .. } => Some(Lane::Mouse),
            AgentAction::GamepadFrame(_) => Some(Lane::GamepadDedupe),
            AgentAction::GamepadFrameBatchFixed { .. } => Some(Lane::GamepadDedupe),
            AgentAction::GamepadFrameUnchecked(_) => Some(Lane::GamepadUnchecked),
            AgentAction::GamepadFrameBatchFixedUnchecked { .. } => Some(Lane::GamepadUnchecked),
            AgentAction::GamepadPackedFrame(_) => Some(Lane::GamepadPacked),
            AgentAction::GamepadPackedFrameBatchFixed { .. } => Some(Lane::GamepadPacked),
            _ => None,
        }
    }

    /// How many frames the action has. A swipe has one for every step between
    /// its press and its release, and takes at least one step.
    pub open spec fn frames(self) -> nat {
        match self {
            AgentAction::Tap { .. } => 2,
            AgentAction::TapRectAt { .. } => 2,
            AgentAction::Swipe { steps, .. } => if steps == 0 {
                3
            } else {
                steps as nat + 2
            },
            AgentAction::ScrollRect { .. } => 1,
            AgentAction::TouchFramesFixed { len, .. } => len as nat,
            AgentAction::ScrollBatchFixed { len, .. } => len as nat,
            AgentAction::KeyBatchFixed { len, .. } => len as nat,
            AgentAction::KeyboardChordFixed(chord) => 2 * chord.len as nat,
            AgentAction::AndroidKeyBatchFixed { len, .. } => len as nat,
            AgentAction::MouseBatchFixed { len, .. } => len as nat,
            AgentAction::GamepadFrame(_) => 1,
            AgentAction::GamepadFrameUnchecked(_) => 1,
            AgentAction::GamepadPackedFrame(_) => 1,
            AgentAction::GamepadFrameBatchFixed { len, .. } => len as nat,
            AgentAction::GamepadFrameBatchFixedUnchecked { len, .. } => len as nat,
            AgentAction::GamepadPackedFrameBatchFixed { len, .. } => len as nat,
            _ => 0,
        }
    }

    /// How many commands the action takes beside frames. The two halves of a
    /// long press travel apart.
    pub open spec fn own_commands(self) -> nat {
        match self {
            AgentAction::PressBack => 1,
            AgentAction::Flush => 1,
            AgentAction::LongPressPoint { .. } => 2,
            AgentAction::LongPressRectAt { .. } => 2,
            _ => 0,
        }
    }

    /// Whether the action takes time on the caller's side.
    pub open spec fn timed(self) -> bool {
        self is Wait || self is LongPressPoint || self is LongPressRectAt
    }

    /// What is wrong with the action by itself.
    pub open spec fn fault(self) -> Option<&'static str> {
        match self {
            AgentAction::TapRectAt { x_bp, y_bp, .. } => if x_bp > BASIS_POINTS || y_bp
                > BASIS_POINTS {
                Some("normalized point out of range")
            } else {
                None
            },
            AgentAction::LongPressRectAt { x_bp, y_bp, .. } => if x_bp > BASIS_POINTS || y_bp
                > BASIS_POINTS {
                Some("normalized point out of range")
            } else {
                None
            },
            AgentAction::TouchFramesFixed { len, .. } => if len > TOUCH_BATCH_FRAMES {
                Some("touch frame batch length overflow")
            } else {
                None
            },
            AgentAction::ScrollBatchFixed { len, .. } => if len > SCROLL_BATCH_FRAMES {
                Some("scroll batch length overflow")
            } else {
                None
            },
            AgentAction::KeyBatchFixed { len, .. } => if len > KEYBOARD_BATCH_FRAMES {
                Some("keyboard batch length overflow")
            } else {
                None
            },
            AgentAction::KeyboardChordFixed(chord) => if chord.len > KEYBOARD_CHORD_KEYS {
                Some("keyboard chord length overflow")
            } else {
                None
            },
            AgentAction::AndroidKeyBatchFixed { len, .. } => if len > ANDROID_KEY_BATCH_FRAMES {
                Some("android key batch length overflow")
            } else {
                None
            },
            AgentAction::MouseBatchFixed { len, .. } => if len > MOUSE_BATCH_FRAMES {
                Some("mouse batch length overflow")
            } else {
                None
            },
            AgentAction::GamepadFrameBatchFixed { len, .. } => if len > GAMEPAD_BATCH_FRAMES {
                Some("gamepad frame batch length overflow")
            } else {
                None
            },
            AgentAction::GamepadFrameBatchFixedUnchecked { len, .. } => if len
                > GAMEPAD_BATCH_FRAMES {
                Some("gamepad frame batch length overflow")
            } else {
                None
            },
            AgentAction::GamepadPackedFrameBatchFixed { len, .. } => if len
                > GAMEPAD_BATCH_FRAMES {
                Some("gamepad packed frame batch length overflow")
            } else {
                None
            },
            _ => None,
        }
    }

    /// Why the action cannot be queued without blocking.
    pub open spec fn try_fault(self) -> Option<&'static str> {
        match self.fault() {
            Some(e) => Some(e),
            None => if self.timed() {
                Some(TIMED_ACTION_REQUIRES_BLOCKING)
            } else {
                None
            },
        }
    }
}

/// The commands of a plan so far, and the frames that have not filled one yet.
pub struct Pressure {
    pub commands: nat,
    pub lane: Option<Lane>,
    pub pending: nat,
}

impl Pressure {
    pub open spec fn start() -> Pressure {
        Pressure { commands: 0, lane: None, pending: 0 }
    }

    /// The commands once the pending frames are sent.
    pub open spec fn settled(self) -> nat {
        self.commands + if self.pending > 0 {
            1nat
        } else {
            0nat
        }
    }

    /// After frames of a kind. Frames of another kind that are pending go first.
    pub open spec fn with_frames(self, lane: Lane, frames: nat) -> Pressure {
        let base = if self.lane == Some(lane) {
            self
        } else {
            Pressure { commands: self.settled(), lane: Some(lane), pending: 0 }
        };
        let total = base.pending + frames;
        Pressure {
            commands: base.commands + total / lane.cap(),
            lane: Some(lane),
            pending: total % lane.cap(),
        }
    }

    /// After an action.
    pub open spec fn after(self, action: AgentAction) -> Pressure {
        match action.lane() {
            Some(lane) => if action.frames() == 0 {
                self
            } else {
                self.with_frames(lane, action.frames())
            },
            None => Pressure {
                commands: self.settled() + action.own_commands(),
                lane: None,
                pending: 0,
            },
        }
    }
}

/// The pressure of a plan.
pub open spec fn pressure(actions: Seq<AgentAction>) -> Pressure
    decreases actions.len(),
{
    if actions.len() == 0 {
        Pressure::start()
    } else {
        pressure(actions.drop_last()).after(actions.last())
    }
}

/// How many commands a plan takes.
pub open spec fn estimate(actions: Seq<AgentAction>) -> nat {
    pressure(actions).settled()
}

/// A count, as far as it fits.
pub open spec fn capped(n: nat) -> usize {
    if n >= usize::MAX {
        usize::MAX
    } else {
        n as usize
    }
}

fn plus(count: usize, more: u128) -> (r: usize)
    ensures
        r == capped((count + more) as nat),
{
    let room: usize = usize::MAX - count;
    if more >= room as u128 {
        usize::MAX
    } else {
        count + more as usize
    }
}

/// A running count of a plan's commands.
struct Meter {
    commands: usize,
    lane: Option<Lane>,
    pending: usize,
}

impl Meter {
    spec fn reads(&self, p: Pressure) -> bool {
        &&& self.commands == capped(p.commands)
        &&& self.lane == p.lane
        &&& self.pending == p.pending
        &&& self.pending <= 64
    }

    fn new() -> (m: Meter)
        ensures
            m.reads(Pressure::start()),
    {
        Meter { commands: 0, lane: None, pending: 0 }
    }

    fn settled(&self) -> (n: usize)
        ensures
            forall|p: Pressure| #[trigger] self.reads(p) ==> n == capped(p.settled()),
    {
        if self.pending > 0 {
            plus(self.commands, 1)
        } else {
            self.commands
        }
    }

    fn add_frames(&mut self, lane: Lane, frames: u128)
        requires
            frames <= 0x1_0000_0000_0000_0001,
            old(self).pending <= 64,
        ensures
            forall|p: Pressure| #[trigger]
                old(self).reads(p) ==> final(self).reads(p.with_frames(lane, frames as nat)),
    {
        let ghost before = *self;
        if self.lane.is_none() || self.lane.unwrap() != lane {
            self.commands = self.settled();
            self.lane = Some(lane);
            self.pending = 0;
        }
        let cap: u128 = lane.capacity();
        let total: u128 = self.pending as u128 + frames;
        self.commands = plus(self.commands, total / cap);
        self.pending = (total % cap) as usize;
        assert forall|p: Pressure| #[trigger] before.reads(p) implies self.reads(
            p.with_frames(lane, frames as nat),
        ) by {
            assert(total as nat / lane.cap() == (total / cap) as nat);
            assert(total as nat % lane.cap() == (total % cap) as nat);
        }
    }

    fn add_action(&mut self, action: &AgentAction)
        requires
            old(self).pending <= 64,
        ensures
            forall|p: Pressure| #[trigger] old(self).reads(p) ==> final(self).reads(
                p.after(*action),
            ),
    {
        let ghost before = *self;
        match action.lane_of() {
            Some(lane) => {
                let frames: u128 = action.frames_of();
                if frames > 0 {
                    self.add_frames(lane, frames);
                }
            },
            None => {
                let settled: usize = self.settled();
                self.commands = plus(settled, action.own_of());
                self.lane = None;
                self.pending = 0;
            },
        }
        assert forall|p: Pressure| #[trigger] before.reads(p) implies self.reads(
            p.after(*action),
        ) by {}
    }
}

/// The estimate of the first `n` actions.
fn measured(actions: &[AgentAction], n: usize) -> (m: Meter)
    requires
        n <= actions@.len(),
    ensures
        m.reads(pressure(actions@.take(n as int))),
{
    let mut m = Meter::new();
    let mut i: usize = 0;
    while i < n
        invariant
            i <= n <= actions@.len(),
            m.reads(pressure(actions@.take(i as int))),
        decreases n - i,
    {
        m.add_action(&actions[i]);
        i = i + 1;
        assert(actions@.take(i as int).drop_last() =~= actions@.take(i - 1));
        assert(actions@.take(i as int).last() == actions@[i - 1]);
    }
    m
}

/// The first fault of a plan, and where it is.
pub open spec fn first_fault(
    actions: Seq<AgentAction>,
    r: Option<(usize, &'static str)>,
) -> bool {
    match r {
        Some((i, e)) => {
            &&& i < actions.len()
            &&& actions[i as int].fault() == Some(e)
            &&& forall|j: int| 0 <= j < i ==> (#[trigger] actions[j]).fault() is None
        },
        None => forall|j: int| 0 <= j < actions.len() ==> (#[trigger] actions[j]).fault() is None,
    }
}

/// The first action that cannot be queued without blocking, and why.
pub open spec fn first_try_fault(
    actions: Seq<AgentAction>,
    r: Option<(usize, &'static str)>,
) -> bool {
    match r {
        Some((i, e)) => {
            &&& i < actions.len()
            &&& actions[i as int].try_fault() == Some(e)
            &&& forall|j: int| 0 <= j < i ==> (#[trigger] actions[j]).try_fault() is None
        },
        None => forall|j: int|
            0 <= j < actions.len() ==> (#[trigger] actions[j]).try_fault() is None,
    }
}

/// The first timed action of a plan.
pub open spec fn first_timed(actions: Seq<AgentAction>, r: Option<usize>) -> bool {
    match r {
        Some(i) => {
            &&& i < actions.len()
            &&& actions[i as int].timed()
            &&& forall|j: int| 0 <= j < i ==> !(#[trigger] actions[j]).timed()
        },
        None => forall|j: int| 0 <= j < actions.len() ==> !(#[trigger] actions[j]).timed(),
    }
}

/// Where a search stopped: its hit, or the end of the plan.
pub open spec fn hit_or_end(hit: Option<usize>, len: nat) -> nat {
    match hit {
        Some(i) => i as nat,
        None => len,
    }
}

/// Whether the first actions of a plan can be queued without blocking under a
/// bound that leaves `reserve` commands free, one after the other up to `n`.
pub open spec fn admissible(
    actions: Seq<AgentAction>,
    n: int,
    bound: usize,
    reserve: nat,
) -> bool {
    &&& actions[n - 1].try_fault() is None
    &&& capped(estimate(actions.take(n)) + reserve) <= bound
}

/// Why a bounded prefix ends.
#[derive(Debug, Clone, Copy, PartialEq, Eq)]
pub enum AgentPlanBoundedPrefixStop {
    /// The whole plan is accepted.
    EndOfPlan,
    /// The next action would need more commands than the bound allows.
    CommandBound { index: usize, required_dispatch_commands: usize },
    /// The next action is malformed.
    TryQueueError { index: usize, error: &'static str },
    /// The next action takes time.
    BlockingTiming { index: usize },
}

impl AgentPlanBoundedPrefixStop {
    pub fn is_end_of_plan(&self) -> (r: bool)
        ensures
            r == (self is EndOfPlan),
    {
        match self {
            AgentPlanBoundedPrefixStop::EndOfPlan => true,
            _ => false,
        }
    }

    pub fn is_command_bound(&self) -> (r: bool)
        ensures
            r == (self is CommandBound),
    {
        match self {
            AgentPlanBoundedPrefixStop::CommandBound { .. } => true,
            _ => false,
        }
    }

    pub fn is_try_queue_error(&self) -> (r: bool)
        ensures
            r == (self is TryQueueError),
    {
        match self {
            AgentPlanBoundedPrefixStop::TryQueueError { .. } => true,
            _ => false,
        }
    }

    pub fn is_blocking_timing(&self) -> (r: bool)
        ensures
            r == (self is BlockingTiming),
    {
        match self {
            AgentPlanBoundedPrefixStop::BlockingTiming { .. } => true,
            _ => false,
        }
    }

    /// The action behind the prefix.
    pub fn index(&self) -> (r: Option<usize>)
        ensures
            r == match *self {
                AgentPlanBoundedPrefixStop::EndOfPlan => None,
                AgentPlanBoundedPrefixStop::CommandBound { index, .. } => Some(index),
                AgentPlanBoundedPrefixStop::TryQueueError { index, .. } => Some(index),
                AgentPlanBoundedPrefixStop::BlockingTiming { index } => Some(index),
            },
    {
        match self {
            AgentPlanBoundedPrefixStop::EndOfPlan => None,
            AgentPlanBoundedPrefixStop::CommandBound { index, .. } => Some(*index),
            AgentPlanBoundedPrefixStop::TryQueueError { index, .. } => Some(*index),
            AgentPlanBoundedPrefixStop::BlockingTiming { index } => Some(*index),
        }
    }

    /// The commands that the next action would have brought the plan to.
    pub fn required_dispatch_commands(&self) -> (r: Option<usize>)
        ensures
            r == match *self {
                AgentPlanBoundedPrefixStop::CommandBound {
                    required_dispatch_commands,
                    ..
                } => Some(required_dispatch_commands),
                _ => None,
            },
    {
        match self {
            AgentPlanBoundedPrefixStop::CommandBound { required_dispatch_commands, .. } => Some(
                *required_dispatch_commands,
            ),
            _ => None,
        }
    }

    /// What is wrong with the next action.
    pub fn error(&self) -> (r: Option<&'static str>)
        ensures
            r == match *self {
                AgentPlanBoundedPrefixStop::TryQueueError { error, .. } => Some(error),
                _ => None,
            },
    {
        match self {
            AgentPlanBoundedPrefixStop::TryQueueError { error, .. } => Some(*error),
            _ => None,
        }
    }
}

/// The part of a plan that fits a bound.
#[derive(Debug, Clone, Copy, PartialEq, Eq)]
pub struct AgentPlanBoundedPrefix {
    pub action_count: usize,
    pub accepted_actions: usize,
    pub estimated_dispatch_commands: usize,
    pub command_bound: usize,
    pub stop: AgentPlanBoundedPrefixStop,
}

impl AgentPlanBoundedPrefix {
    pub open spec fn valid(&self) -> bool {
        self.accepted_actions <= self.action_count
    }

    pub fn is_full_plan(&self) -> (r: bool)
        ensures
            r == (self.accepted_actions == self.action_count),
    {
        self.accepted_actions == self.action_count
    }

    pub fn is_empty(&self) -> (r: bool)
        ensures
            r == (self.accepted_actions == 0),
    {
        self.accepted_actions == 0
    }

    pub fn remaining_actions(&self) -> (n: usize)
        requires
            self.valid(),
        ensures
            n == self.action_count - self.accepted_actions,
    {
        self.action_count - self.accepted_actions
    }

    /// Where the accepted actions stand in the plan.
    pub fn accepted_range(&self) -> (r: std::ops::Range<usize>)
        ensures
            r.start == 0,
            r.end == self.accepted_actions,
    {
        0..self.accepted_actions
    }

    /// Where the other actions stand in the plan.
    pub fn remaining_range(&self) -> (r: std::ops::Range<usize>)
        ensures
            r.start == self.accepted_actions,
            r.end == self.action_count,
    {
        self.accepted_actions..self.action_count
    }

    pub fn accepted_dispatch_fits_bound(&self) -> (r: bool)
        ensures
            r == (self.estimated_dispatch_commands <= self.command_bound),
    {
        self.estimated_dispatch_commands <= self.command_bound
    }

    /// The commands of the prefix and of the flush that checks it.
    pub fn estimated_checked_dispatch_commands(&self) -> (n: usize)
        ensures
            n == capped(self.estimated_dispatch_commands as nat + 1),
    {
        plus(self.estimated_dispatch_commands, 1)
    }

    pub fn checked_dispatch_fits_bound(&self) -> (r: bool)
        ensures
            r == (capped(self.estimated_dispatch_commands as nat + 1) <= self.command_bound),
    {
        self.estimated_checked_dispatch_commands() <= self.command_bound
    }

    /// The accepted actions of the plan that was looked at, and the others.
    /// A slice of another length is some other plan.
    pub fn split_slice<'a>(&self, actions: &'a [AgentAction]) -> (r: Option<
        (&'a [AgentAction], &'a [AgentAction]),
    >)
        requires
            self.valid(),
        ensures
            actions@.len() != self.action_count ==> r is None,
            actions@.len() == self.action_count ==> {
                &&& r matches Some((a, b))
                &&& a@ == actions@.take(self.accepted_actions as int)
                &&& b@ == actions@.skip(self.accepted_actions as int)
            },
    {
        if actions.len() != self.action_count {
            return None;
        }
        let n: usize = self.accepted_actions;
        let a: &[AgentAction] = &actions[0..n];
        let b: &[AgentAction] = &actions[n..actions.len()];
        assert(a@ =~= actions@.take(n as int));
        assert(b@ =~= actions@.skip(n as int));
        Some((a, b))
    }

    pub fn accepted_slice<'a>(&self, actions: &'a [AgentAction]) -> (r: Option<&'a [AgentAction]>)
        requires
            self.valid(),
        ensures
            actions@.len() != self.action_count ==> r is None,
            actions@.len() == self.action_count ==> (r matches Some(a) && a@ == actions@.take(
                self.accepted_actions as int,
            )),
    {
        match self.split_slice(actions) {
            Some((a, _)) => Some(a),
            None => None,
        }
    }

    pub fn remaining_slice<'a>(&self, actions: &'a [AgentAction]) -> (r: Option<&'a [AgentAction]>)
        requires
            self.valid(),
        ensures
            actions@.len() != self.action_count ==> r is None,
            actions@.len() == self.action_count ==> (r matches Some(b) && b@ == actions@.skip(
                self.accepted_actions as int,
            )),
    {
        match self.split_slice(actions) {
            Some((_, b)) => Some(b),
            None => None,
        }
    }
}

/// What a plan looks like to a queue, before anything is sent.
#[derive(Debug, Clone, Copy, PartialEq, Eq)]
pub struct AgentPlanSummary {
    pub action_count: usize,
    pub first_structural_error: Option<(usize, &'static str)>,
    pub first_try_queue_error: Option<(usize, &'static str)>,
    pub first_try_queue_prefix_error: Option<(usize, &'static str)>,
    pub first_blocking_timing: Option<usize>,
    pub try_queueable_prefix_len: usize,
    pub blocking_timing_prefix_len: usize,
    pub estimated_queue_dispatch_commands: usize,
    pub estimated_run_dispatch_commands: usize,
    pub estimated_try_queue_dispatch_commands: usize,
    pub estimated_try_run_dispatch_commands: usize,
    pub estimated_try_queue_prefix_dispatch_commands: usize,
    pub estimated_try_run_prefix_dispatch_commands: usize,
}

/// A count that is owed only where a condition holds.
pub open spec fn owed(condition: bool, n: nat) -> usize {
    if condition {
        capped(n)
    } else {
        0
    }
}

impl AgentPlanSummary {
    /// Whether the summary is the one of a plan.
    pub open spec fn sums_up(self, actions: Seq<AgentAction>) -> bool {
        let prefix = actions.take(self.blocking_timing_prefix_len as int);
        let sound = self.first_structural_error is None;
        let queueable = self.first_try_queue_error is None;
        let prefix_sound = self.first_try_queue_prefix_error is None;
        &&& self.action_count == actions.len()
        &&& first_fault(actions, self.first_structural_error)
        &&& first_try_fault(actions, self.first_try_queue_error)
        &&& first_timed(actions, self.first_blocking_timing)
        &&& self.blocking_timing_prefix_len == hit_or_end(self.first_blocking_timing, actions.len())
        &&& self.try_queueable_prefix_len == match self.first_try_queue_error {
            Some((i, _)) => i as nat,
            None => actions.len(),
        }
        &&& first_try_fault(prefix, self.first_try_queue_prefix_error)
        &&& self.estimated_queue_dispatch_commands == owed(sound, estimate(actions))
        &&& self.estimated_run_dispatch_commands == owed(sound, estimate(actions) + 1)
        &&& self.estimated_try_queue_dispatch_commands == owed(queueable, estimate(actions))
        &&& self.estimated_try_run_dispatch_commands == owed(queueable, estimate(actions) + 1)
        &&& self.estimated_try_queue_prefix_dispatch_commands == owed(
            prefix_sound,
            estimate(prefix),
        )
        &&& self.estimated_try_run_prefix_dispatch_commands == owed(
            prefix_sound,
            estimate(prefix) + 1,
        )
    }

    /// Looks a plan over.
    pub fn analyze(actions: &[AgentAction]) -> (s: AgentPlanSummary)
        ensures
            s.sums_up(actions@),
    {
        let n: usize = actions.len();
        let first_structural_error = AgentAction::first_structural_error(actions);
        let first_try_queue_error = AgentAction::first_try_queue_error(actions);
        let first_blocking_timing = AgentAction::first_blocking_timing(actions);
        let blocked: usize = AgentAction::blocking_timing_prefix_len(actions);
        let prefix: &[AgentAction] = &actions[0..blocked];
        assert(prefix@ =~= actions@.take(blocked as int));
        assert(actions@.take(n as int) =~= actions@);
        let first_try_queue_prefix_error = AgentAction::first_try_queue_error(prefix);
        let all: usize = measured(actions, n).settled();
        let part: usize = measured(actions, blocked).settled();
        let all_run: usize = plus(all, 1);
        let part_run: usize = plus(part, 1);
        let sound: bool = first_structural_error.is_none();
        let queueable: bool = first_try_queue_error.is_none();
        let prefix_sound: bool = first_try_queue_prefix_error.is_none();
        AgentPlanSummary {
            action_count: n,
            first_structural_error,
            first_try_queue_error,
            first_try_queue_prefix_error,
            first_blocking_timing,
            try_queueable_prefix_len: AgentAction::try_queueable_prefix_len(actions),
            blocking_timing_prefix_len: blocked,
            estimated_queue_dispatch_commands: if sound { all } else { 0 },
            estimated_run_dispatch_commands: if sound { all_run } else { 0 },
            estimated_try_queue_dispatch_commands: if queueable { all } else { 0 },
            estimated_try_run_dispatch_commands: if queueable { all_run } else { 0 },
            estimated_try_queue_prefix_dispatch_commands: if prefix_sound { part } else { 0 },
            estimated_try_run_prefix_dispatch_commands: if prefix_sound { part_run } else { 0 },
        }
    }

    pub fn is_structurally_valid(&self) -> (r: bool)
        ensures
            r == (self.first_structural_error is None),
    {
        self.first_structural_error.is_none()
    }

    pub fn all_try_queueable(&self) -> (r: bool)
        ensures
            r == (self.first_try_queue_error is None),
    {
        self.first_try_queue_error.is_none()
    }

    pub fn has_blocking_timing(&self) -> (r: bool)
        ensures
            r == (self.first_blocking_timing is Some),
    {
        self.first_blocking_timing.is_some()
    }

    /// Whether the part in front of the first timed action can be queued.
    pub fn can_try_queue_prefix(&self) -> (r: bool)
        ensures
            r == (self.first_try_queue_prefix_error is None),
    {
        self.first_try_queue_prefix_error.is_none()
    }

    pub fn has_blocking_suffix(&self) -> (r: bool)
        ensures
            r == (self.blocking_timing_prefix_len < self.action_count),
    {
        self.blocking_timing_prefix_len < self.action_count
    }

    /// How many actions stand from the first timed one on.
    pub fn blocking_suffix_len(&self) -> (n: usize)
        ensures
            n == if self.blocking_timing_prefix_len < self.action_count {
                self.action_count - self.blocking_timing_prefix_len
            } else {
                0
            },
    {
        if self.blocking_timing_prefix_len < self.action_count {
            self.action_count - self.blocking_timing_prefix_len
        } else {
            0
        }
    }

    pub fn queue_dispatch_fits_bound(&self, bound: usize) -> (r: bool)
        ensures
            r == (self.first_structural_error is None && self.estimated_queue_dispatch_commands
                <= bound),
    {
        self.is_structurally_valid() && self.estimated_queue_dispatch_commands <= bound
    }

    pub fn run_dispatch_fits_bound(&self, bound: usize) -> (r: bool)
        ensures
            r == (self.first_structural_error is None && self.estimated_run_dispatch_commands
                <= bound),
    {
        self.is_structurally_valid() && self.estimated_run_dispatch_commands <= bound
    }

    pub fn try_queue_dispatch_fits_bound(&self, bound: usize) -> (r: bool)
        ensures
            r == (self.first_try_queue_error is None
                && self.estimated_try_queue_dispatch_commands <= bound),
    {
        self.all_try_queueable() && self.estimated_try_queue_dispatch_commands <= bound
    }

    pub fn try_run_dispatch_fits_bound(&self, bound: usize) -> (r: bool)
        ensures
            r == (self.first_try_queue_error is None && self.estimated_try_run_dispatch_commands
                <= bound),
    {
        self.all_try_queueable() && self.estimated_try_run_dispatch_commands <= bound
    }

    pub fn try_queue_prefix_dispatch_fits_bound(&self, bound: usize) -> (r: bool)
        ensures
            r == (self.first_try_queue_prefix_error is None
                && self.estimated_try_queue_prefix_dispatch_commands <= bound),
    {
        self.can_try_queue_prefix() && self.estimated_try_queue_prefix_dispatch_commands <= bound
    }

    pub fn try_run_prefix_dispatch_fits_bound(&self, bound: usize) -> (r: bool)
        ensures
            r == (self.first_try_queue_prefix_error is None
                && self.estimated_try_run_prefix_dispatch_commands <= bound),
    {
        self.can_try_queue_prefix() && self.estimated_try_run_prefix_dispatch_commands <= bound
    }
}

/// Fills a batch from a slice; the rest keeps its filler.
fn filled<F: Copy, const N: usize>(frames: &[F], filler: F) -> (slots: [F; N])
    requires
        frames@.len() <= N,
    ensures
        forall|i: int| 0 <= i < N ==> #[trigger] slots@[i] == if i < frames@.len() {
            frames@[i]
        } else {
            filler
        },
{
    let mut slots: [F; N] = [filler; N];
    let mut i: usize = 0;
    while i < frames.len()
        invariant
            i <= frames@.len() <= N,
            forall|j: int|
                0 <= j < N ==> #[trigger] slots@[j] == if j < i {
                    frames@[j]
                } else {
                    filler
                },
        decreases frames@.len() - i,
    {
        slots[i] = frames[i];
        i = i + 1;
    }
    slots
}

/// Whether slots hold frames, filled up with `filler`.
pub open spec fn holds<F>(slots: Seq<F>, frames: Seq<F>, filler: F) -> bool {
    forall|i: int| 0 <= i < slots.len() ==> #[trigger] slots[i] == if i < frames.len() {
        frames[i]
    } else {
        filler
    }
}

impl AgentAction {
    fn lane_of(&self) -> (r: Option<Lane>)
        ensures
            r == self.lane(),
    {
        match self {
            AgentAction::Tap { .. } => Some(Lane::Touch),
            AgentAction::Swipe { .. } => Some(Lane::Touch),
            AgentAction::TapRectAt { .. } => Some(Lane::Touch),
            AgentAction::TouchFramesFixed { .. } => Some(Lane::Touch),
            AgentAction::ScrollRect { .. } => Some(Lane::Scroll),
            AgentAction::ScrollBatchFixed { .. } => Some(Lane::Scroll),
            AgentAction::KeyBatchFixed { .. } => Some(Lane::Keyboard),
            AgentAction::KeyboardChordFixed(_) => Some(Lane::Keyboard),
            AgentAction::AndroidKeyBatchFixed { .. } => Some(Lane::AndroidKey),
            AgentAction::MouseBatchFixed { .. } => Some(Lane::Mouse),
            AgentAction::GamepadFrame(_) => Some(Lane::GamepadDedupe),
            AgentAction::GamepadFrameBatchFixed { .. } => Some(Lane::GamepadDedupe),
            AgentAction::GamepadFrameUnchecked(_) => Some(Lane::GamepadUnchecked),
            AgentAction::GamepadFrameBatchFixedUnchecked { .. } => Some(Lane::GamepadUnchecked),
            AgentAction::GamepadPackedFrame(_) => Some(Lane::GamepadPacked),
            AgentAction::GamepadPackedFrameBatchFixed { .. } => Some(Lane::GamepadPacked),
            _ => None,
        }
    }

    fn frames_of(&self) -> (n: u128)
        ensures
            n == self.frames(),
            n <= 0x1_0000_0000_0000_0001,
    {
        match self {
            AgentAction::Tap { .. } => 2,
            AgentAction::TapRectAt { .. } => 2,
            AgentAction::Swipe { steps, .. } => if *steps == 0 {
                3
            } else {
                *steps as u128 + 2
            },
            AgentAction::ScrollRect { .. } => 1,
            AgentAction::TouchFramesFixed { len, .. } => *len as u128,
            AgentAction::ScrollBatchFixed { len, .. } => *len as u128,
            AgentAction::KeyBatchFixed { len, .. } => *len as u128,
            AgentAction::KeyboardChordFixed(chord) => 2 * chord.len as u128,
            AgentAction::AndroidKeyBatchFixed { len, .. } => *len as u128,
            AgentAction::MouseBatchFixed { len, .. } => *len as u128,
            AgentAction::GamepadFrame(_) => 1,
            AgentAction::GamepadFrameUnchecked(_) => 1,
            AgentAction::GamepadPackedFrame(_) => 1,
            AgentAction::GamepadFrameBatchFixed { len, .. } => *len as u128,
            AgentAction::GamepadFrameBatchFixedUnchecked { len, .. } => *len as u128,
            AgentAction::GamepadPackedFrameBatchFixed { len, .. } => *len as u128,
            _ => 0,
        }
    }

    fn own_of(&self) -> (n: u128)
        ensures
            n == self.own_commands(),
    {
        match self {
            AgentAction::PressBack => 1,
            AgentAction::Flush => 1,
            AgentAction::LongPressPoint { .. } => 2,
            AgentAction::LongPressRectAt { .. } => 2,
            _ => 0,
        }
    }

    /// What is wrong with the action by itself.
    pub fn structural_error(&self) -> (r: Option<&'static str>)
        ensures
            r == self.fault(),
    {
        match self {
            AgentAction::TapRectAt { x_bp, y_bp, .. } => off_basis(*x_bp, *y_bp),
            AgentAction::LongPressRectAt { x_bp, y_bp, .. } => off_basis(*x_bp, *y_bp),
            AgentAction::TouchFramesFixed { len, .. } => if *len > TOUCH_BATCH_FRAMES {
                Some("touch frame batch length overflow")
            } else {
                None
            },
            AgentAction::ScrollBatchFixed { len, .. } => if *len > SCROLL_BATCH_FRAMES {
                Some("scroll batch length overflow")
            } else {
                None
            },
            AgentAction::KeyBatchFixed { len, .. } => if *len > KEYBOARD_BATCH_FRAMES {
                Some("keyboard batch length overflow")
            } else {
                None
            },
            AgentAction::KeyboardChordFixed(chord) => if chord.len as usize
                > KEYBOARD_CHORD_KEYS {
                Some("keyboard chord length overflow")
            } else {
                None
            },
            AgentAction::AndroidKeyBatchFixed { len, .. } => if *len > ANDROID_KEY_BATCH_FRAMES {
                Some("android key batch length overflow")
            } else {
                None
            },
            AgentAction::MouseBatchFixed { len, .. } => if *len > MOUSE_BATCH_FRAMES {
                Some("mouse batch length overflow")
            } else {
                None
            },
            AgentAction::GamepadFrameBatchFixed { len, .. } => if *len > GAMEPAD_BATCH_FRAMES {
                Some("gamepad frame batch length overflow")
            } else {
                None
            },
            AgentAction::GamepadFrameBatchFixedUnchecked { len, .. } => if *len
                > GAMEPAD_BATCH_FRAMES {
                Some("gamepad frame batch length overflow")
            } else {
                None
            },
            AgentAction::GamepadPackedFrameBatchFixed { len, .. } => if *len
                > GAMEPAD_BATCH_FRAMES {
                Some("gamepad packed frame batch length overflow")
            } else {
                None
            },
            _ => None,
        }
    }

    /// Refuses a malformed action.
    pub fn validate_structure(&self) -> (r: Result<()>)
        ensures
            r == match self.fault() {
                Some(e) => Err::<(), Error>(Error::SessionLifecycle(e)),
                None => Ok::<(), Error>(()),
            },
    {
        match self.structural_error() {
            Some(e) => Err(Error::SessionLifecycle(e)),
            None => Ok(()),
        }
    }

    /// Whether the action takes time on the caller's side.
    pub fn requires_blocking_timing(&self) -> (r: bool)
        ensures
            r == self.timed(),
    {
        match self {
            AgentAction::Wait { .. } => true,
            AgentAction::LongPressPoint { .. } => true,
            AgentAction::LongPressRectAt { .. } => true,
            _ => false,
        }
    }

    fn try_queue_error(&self) -> (r: Option<&'static str>)
        ensures
            r == self.try_fault(),
    {
        match self.structural_error() {
            Some(e) => Some(e),
            None => if self.requires_blocking_timing() {
                Some(TIMED_ACTION_REQUIRES_BLOCKING)
            } else {
                None
            },
        }
    }

    /// Whether the action can be queued without blocking.
    pub fn can_try_queue(&self) -> (r: bool)
        ensures
            r == (self.try_fault() is None),
    {
        self.try_queue_error().is_none()
    }

    /// The first malformed action of a plan.
    pub fn first_structural_error(actions: &[AgentAction]) -> (r: Option<(usize, &'static str)>)
        ensures
            first_fault(actions@, r),
    {
        let mut i: usize = 0;
        while i < actions.len()
            invariant
                i <= actions@.len(),
                forall|j: int| 0 <= j < i ==> (#[trigger] actions@[j]).fault() is None,
            decreases actions@.len() - i,
        {
            if let Some(e) = actions[i].structural_error() {
                return Some((i, e));
            }
            i = i + 1;
        }
        None
    }

    /// The first action of a plan that cannot be queued without blocking.
    pub fn first_try_queue_error(actions: &[AgentAction]) -> (r: Option<(usize, &'static str)>)
        ensures
            first_try_fault(actions@, r),
    {
        let mut i: usize = 0;
        while i < actions.len()
            invariant
                i <= actions@.len(),
                forall|j: int| 0 <= j < i ==> (#[trigger] actions@[j]).try_fault() is None,
            decreases actions@.len() - i,
        {
            if let Some(e) = actions[i].try_queue_error() {
                return Some((i, e));
            }
            i = i + 1;
        }
        None
    }

    /// Where the first action stands that cannot be queued without blocking.
    pub fn first_non_try_queueable(actions: &[AgentAction]) -> (r: Option<usize>)
        ensures
            match r {
                Some(i) => {
                    &&& i < actions@.len()
                    &&& actions@[i as int].try_fault() is Some
                    &&& forall|j: int| 0 <= j < i ==> (#[trigger] actions@[j]).try_fault() is None
                },
                None => first_try_fault(actions@, None),
            },
    {
        match AgentAction::first_try_queue_error(actions) {
            Some((i, _)) => Some(i),
            None => None,
        }
    }

    /// Whether a plan can be queued without blocking.
    pub fn all_try_queueable(actions: &[AgentAction]) -> (r: bool)
        ensures
            r == (forall|j: int| 0 <= j < actions@.len() ==> (#[trigger] actions@[j]).try_fault()
                is None),
    {
        AgentAction::first_try_queue_error(actions).is_none()
    }

    /// How many leading actions can be queued without blocking.
    pub fn try_queueable_prefix_len(actions: &[AgentAction]) -> (n: usize)
        ensures
            n <= actions@.len(),
            forall|j: int| 0 <= j < n ==> (#[trigger] actions@[j]).try_fault() is None,
            n < actions@.len() ==> actions@[n as int].try_fault() is Some,
    {
        match AgentAction::first_try_queue_error(actions) {
            Some((i, _)) => i,
            None => actions.len(),
        }
    }

    /// The first timed action of a plan.
    pub fn first_blocking_timing(actions: &[AgentAction]) -> (r: Option<usize>)
        ensures
            first_timed(actions@, r),
    {
        let mut i: usize = 0;
        while i < actions.len()
            invariant
                i <= actions@.len(),
                forall|j: int| 0 <= j < i ==> !(#[trigger] actions@[j]).timed(),
            decreases actions@.len() - i,
        {
            if actions[i].requires_blocking_timing() {
                return Some(i);
            }
            i = i + 1;
        }
        None
    }

    /// How many actions stand in front of the first timed one.
    pub fn blocking_timing_prefix_len(actions: &[AgentAction]) -> (n: usize)
        ensures
            n <= actions@.len(),
            forall|j: int| 0 <= j < n ==> !(#[trigger] actions@[j]).timed(),
            n < actions@.len() ==> actions@[n as int].timed(),
    {
        match AgentAction::first_blocking_timing(actions) {
            Some(i) => i,
            None => actions.len(),
        }
    }

    /// Refuses a plan with a malformed action, by the first one.
    pub fn validate_plan_structure(actions: &[AgentAction]) -> (r: Result<()>)
        ensures
            match r {
                Ok(_) => first_fault(actions@, None),
                Err(e) => exists|i: usize, why: &'static str| #[trigger]
                    first_fault(actions@, Some((i, why))) && e == Error::SessionLifecycle(why),
            },
    {
        match AgentAction::first_structural_error(actions) {
            Some((i, e)) => {
                assert(first_fault(actions@, Some((i, e))));
                Err(Error::SessionLifecycle(e))
            },
            None => Ok(()),
        }
    }

    /// Refuses a plan that cannot be queued without blocking, by the first action
    /// that stands in the way.
    pub fn validate_try_queue_plan(actions: &[AgentAction]) -> (r: Result<()>)
        ensures
            match r {
                Ok(_) => first_try_fault(actions@, None),
                Err(e) => exists|i: usize, why: &'static str| #[trigger]
                    first_try_fault(actions@, Some((i, why))) && e == Error::SessionLifecycle(why),
            },
    {
        match AgentAction::first_try_queue_error(actions) {
            Some((i, e)) => {
                assert(first_try_fault(actions@, Some((i, e))));
                Err(Error::SessionLifecycle(e))
            },
            None => Ok(()),
        }
    }

    /// Looks a plan over.
    pub fn plan_summary(actions: &[AgentAction]) -> (s: AgentPlanSummary)
        ensures
            s.sums_up(actions@),
    {
        AgentPlanSummary::analyze(actions)
    }

    fn bounded_prefix(actions: &[AgentAction], bound: usize, reserve: usize) -> (r:
        AgentPlanBoundedPrefix)
        requires
            reserve <= 1,
        ensures
            bounded_by(actions@, bound, reserve as nat, r),
    {
        let mut m = Meter::new();
        let mut i: usize = 0;
        let mut estimated: usize = 0;
        assert(actions@.take(0) =~= Seq::<AgentAction>::empty());
        while i < actions.len()
            invariant
                i <= actions@.len(),
                reserve <= 1,
                m.reads(pressure(actions@.take(i as int))),
                estimated == capped(estimate(actions@.take(i as int))),
                forall|n: int| 1 <= n <= i ==> #[trigger]
                    admissible(actions@, n, bound, reserve as nat),
            decreases actions@.len() - i,
        {
            if let Some(error) = actions[i].structural_error() {
                return AgentPlanBoundedPrefix {
                    action_count: actions.len(),
                    accepted_actions: i,
                    estimated_dispatch_commands: estimated,
                    command_bound: bound,
                    stop: AgentPlanBoundedPrefixStop::TryQueueError { index: i, error },
                };
            }
            if actions[i].requires_blocking_timing() {
                return AgentPlanBoundedPrefix {
                    action_count: actions.len(),
                    accepted_actions: i,
                    estimated_dispatch_commands: estimated,
                    command_bound: bound,
                    stop: AgentPlanBoundedPrefixStop::BlockingTiming { index: i },
                };
            }
            m.add_action(&actions[i]);
            proof {
                let next = actions@.take(i + 1);
                assert(next.drop_last() =~= actions@.take(i as int));
                assert(next.last() == actions@[i as int]);
            }
            let now: usize = m.settled();
            let required: usize = plus(now, reserve as u128);
            if required > bound {
                assert(!admissible(actions@, i + 1, bound, reserve as nat));
                return AgentPlanBoundedPrefix {
                    action_count: actions.len(),
                    accepted_actions: i,
                    estimated_dispatch_commands: estimated,
                    command_bound: bound,
                    stop: AgentPlanBoundedPrefixStop::CommandBound {
                        index: i,
                        required_dispatch_commands: required,
                    },
                };
            }
            estimated = now;
            i = i + 1;
            assert(admissible(actions@, i as int, bound, reserve as nat));
        }
        AgentPlanBoundedPrefix {
            action_count: actions.len(),
            accepted_actions: i,
            estimated_dispatch_commands: estimated,
            command_bound: bound,
            stop: AgentPlanBoundedPrefixStop::EndOfPlan,
        }
    }

    /// The leading actions that can be queued without blocking and without more
    /// than `command_bound` commands.
    pub fn bounded_try_queue_prefix(actions: &[AgentAction], command_bound: usize) -> (r:
        AgentPlanBoundedPrefix)
        ensures
            bounded_by(actions@, command_bound, 0, r),
    {
        AgentAction::bounded_prefix(actions, command_bound, 0)
    }

    /// The same with one command kept free for the flush that checks the prefix.
    /// Without room for that flush no action is accepted.
    pub fn bounded_try_run_prefix(actions: &[AgentAction], command_bound: usize) -> (r:
        AgentPlanBoundedPrefix)
        ensures
            command_bound > 0 ==> bounded_by(actions@, command_bound, 1, r),
            command_bound == 0 ==> r == (AgentPlanBoundedPrefix {
                action_count: actions@.len() as usize,
                accepted_actions: 0,
                estimated_dispatch_commands: 0,
                command_bound: 0,
                stop: AgentPlanBoundedPrefixStop::CommandBound {
                    index: 0,
                    required_dispatch_commands: 1,
                },
            }),
    {
        if command_bound == 0 {
            return AgentPlanBoundedPrefix {
                action_count: actions.len(),
                accepted_actions: 0,
                estimated_dispatch_commands: 0,
                command_bound: 0,
                stop: AgentPlanBoundedPrefixStop::CommandBound {
                    index: 0,
                    required_dispatch_commands: 1,
                },
            };
        }
        AgentAction::bounded_prefix(actions, command_bound, 1)
    }

    pub fn tap(x: i32, y: i32) -> (r: AgentAction)
        ensures
            r == (AgentAction::Tap { x, y }),
    {
        AgentAction::Tap { x, y }
    }

    pub fn swipe(from: (i32, i32), to: (i32, i32), steps: usize) -> (r: AgentAction)
        ensures
            r == (AgentAction::Swipe { from, to, steps }),
    {
        AgentAction::Swipe { from, to, steps }
    }

    pub fn tap_rect_at(rect: AgentRect, x_bp: u16, y_bp: u16) -> (r: AgentAction)
        ensures
            r == (AgentAction::TapRectAt { rect, x_bp, y_bp }),
    {
        AgentAction::TapRectAt { rect, x_bp, y_bp }
    }

    pub fn long_press_point(point: AgentPoint, hold_ns: u64) -> (r: AgentAction)
        ensures
            r == (AgentAction::LongPressPoint { point, hold_ns }),
    {
        AgentAction::LongPressPoint { point, hold_ns }
    }

    /// A long press in the middle of a rectangle.
    pub fn long_press_rect(rect: AgentRect, hold_ns: u64) -> (r: AgentAction)
        ensures
            r == (AgentAction::LongPressRectAt { rect, x_bp: 5_000, y_bp: 5_000, hold_ns }),
    {
        AgentAction::long_press_rect_at(rect, 5_000, 5_000, hold_ns)
    }

    pub fn long_press_rect_at(rect: AgentRect, x_bp: u16, y_bp: u16, hold_ns: u64) -> (r:
        AgentAction)
        ensures
            r == (AgentAction::LongPressRectAt { rect, x_bp, y_bp, hold_ns }),
    {
        AgentAction::LongPressRectAt { rect, x_bp, y_bp, hold_ns }
    }

    pub fn scroll_rect(rect: AgentRect, hscroll: i16, vscroll: i16) -> (r: AgentAction)
        ensures
            r == (AgentAction::ScrollRect { rect, hscroll, vscroll }),
    {
        AgentAction::ScrollRect { rect, hscroll, vscroll }
    }

    pub fn wait(duration_ns: u64) -> (r: AgentAction)
        ensures
            r == (AgentAction::Wait { duration_ns }),
    {
        AgentAction::Wait { duration_ns }
    }

    pub fn touch_frames_fixed(len: usize, frames: [AgentTouchFrame; TOUCH_BATCH_FRAMES]) -> (r:
        AgentAction)
        ensures
            r == (AgentAction::TouchFramesFixed { len, frames }),
    {
        AgentAction::TouchFramesFixed { len, frames }
    }

    pub fn key_batch_fixed(len: usize, frames: [KeyboardFrame; KEYBOARD_BATCH_FRAMES]) -> (r:
        AgentAction)
        ensures
            r == (AgentAction::KeyBatchFixed { len, frames }),
    {
        AgentAction::KeyBatchFixed { len, frames }
    }

    pub fn keyboard_chord_fixed(chord: KeyboardChordFrame) -> (r: AgentAction)
        ensures
            r == AgentAction::KeyboardChordFixed(chord),
    {
        AgentAction::KeyboardChordFixed(chord)
    }

    /// A chord over named keys; too many keys and modifier keys are refused.
    pub fn try_scancode_chord(scancodes: &[Scancode], mods: Modifiers) -> (r: Result<AgentAction>)
        ensures
            scancodes@.len() > KEYBOARD_CHORD_KEYS ==> r == Err::<AgentAction, Error>(
                Error::SessionLifecycle("keyboard chord too large"),
            ),
            scancodes@.len() <= KEYBOARD_CHORD_KEYS && names_modifier(scancodes@) ==> r == Err::<
                AgentAction,
                Error,
            >(Error::SessionLifecycle("keyboard chord keys must be non-modifier scancodes")),
            scancodes@.len() <= KEYBOARD_CHORD_KEYS && !names_modifier(scancodes@) ==> (
            r matches Ok(AgentAction::KeyboardChordFixed(chord)) && names_chord(
                scancodes@,
                mods,
                chord,
            )),
    {
        match KeyboardChordFrame::try_scancodes(scancodes, mods) {
            Ok(chord) => Ok(AgentAction::KeyboardChordFixed(chord)),
            Err(e) => Err(e),
        }
    }

    pub fn gamepad_frame(frame: GamepadFrameRaw) -> (r: AgentAction)
        ensures
            r == AgentAction::GamepadFrame(frame),
    {
        AgentAction::GamepadFrame(frame)
    }

    pub fn gamepad_frame_unchecked(frame: GamepadFrameRaw) -> (r: AgentAction)
        ensures
            r == AgentAction::GamepadFrameUnchecked(frame),
    {
        AgentAction::GamepadFrameUnchecked(frame)
    }

    pub fn gamepad_packed_frame(frame: [u8; GAMEPAD_FRAME_BYTES]) -> (r: AgentAction)
        ensures
            r == AgentAction::GamepadPackedFrame(frame),
    {
        AgentAction::GamepadPackedFrame(frame)
    }

    pub fn gamepad_frame_batch_fixed(
        len: usize,
        frames: [GamepadFrameRaw; GAMEPAD_BATCH_FRAMES],
    ) -> (r: AgentAction)
        ensures
            r == (AgentAction::GamepadFrameBatchFixed { len, frames }),
    {
        AgentAction::GamepadFrameBatchFixed { len, frames }
    }

    pub fn gamepad_packed_frame_batch_fixed(
        len: usize,
        frames: [[u8; GAMEPAD_FRAME_BYTES]; GAMEPAD_BATCH_FRAMES],
    ) -> (r: AgentAction)
        ensures
            r == (AgentAction::GamepadPackedFrameBatchFixed { len, frames }),
    {
        AgentAction::GamepadPackedFrameBatchFixed { len, frames }
    }

    /// A batch of frames; more than one command can carry are refused.
    pub fn try_touch_frames(frames: &[AgentTouchFrame]) -> (r: Result<AgentAction>)
        ensures
            frames@.len() > TOUCH_BATCH_FRAMES ==> r == Err::<AgentAction, Error>(
                Error::SessionLifecycle("touch frame batch too large"),
            ),
            frames@.len() <= TOUCH_BATCH_FRAMES ==> {
                &&& r matches Ok(AgentAction::TouchFramesFixed { len, frames: slots })
                &&& len == frames@.len()
                &&& holds(slots@, frames@, AgentTouchFrame::empty())
            },
    {
        if frames.len() > TOUCH_BATCH_FRAMES {
            return Err(Error::SessionLifecycle("touch frame batch too large"));
        }
        let slots: [AgentTouchFrame; TOUCH_BATCH_FRAMES] = filled(frames, AgentTouchFrame::empty());
        Ok(AgentAction::TouchFramesFixed { len: frames.len(), frames: slots })
    }

    /// A batch of frames; more than one command can carry are refused.
    pub fn try_scroll_batch(frames: &[AgentScrollFrame]) -> (r: Result<AgentAction>)
        ensures
            frames@.len() > SCROLL_BATCH_FRAMES ==> r == Err::<AgentAction, Error>(
                Error::SessionLifecycle("scroll batch too large"),
            ),
            frames@.len() <= SCROLL_BATCH_FRAMES ==> {
                &&& r matches Ok(AgentAction::ScrollBatchFixed { len, frames: slots })
                &&& len == frames@.len()
                &&& holds(slots@, frames@, AgentScrollFrame::empty())
            },
    {
        if frames.len() > SCROLL_BATCH_FRAMES {
            return Err(Error::SessionLifecycle("scroll batch too large"));
        }
        let slots: [AgentScrollFrame; SCROLL_BATCH_FRAMES] = filled(
            frames,
            AgentScrollFrame::empty(),
        );
        Ok(AgentAction::ScrollBatchFixed { len: frames.len(), frames: slots })
    }

    /// A batch of frames; more than one command can carry are refused.
    pub fn try_key_batch(frames: &[KeyboardFrame]) -> (r: Result<AgentAction>)
        ensures
            frames@.len() > KEYBOARD_BATCH_FRAMES ==> r == Err::<AgentAction, Error>(
                Error::SessionLifecycle("keyboard batch too large"),
            ),
            frames@.len() <= KEYBOARD_BATCH_FRAMES ==> {
                &&& r matches Ok(AgentAction::KeyBatchFixed { len, frames: slots })
                &&& len == frames@.len()
                &&& holds(slots@, frames@, KeyboardFrame::empty())
            },
    {
        if frames.len() > KEYBOARD_BATCH_FRAMES {
            return Err(Error::SessionLifecycle("keyboard batch too large"));
        }
        let slots: [KeyboardFrame; KEYBOARD_BATCH_FRAMES] = filled(frames, KeyboardFrame::empty());
        Ok(AgentAction::KeyBatchFixed { len: frames.len(), frames: slots })
    }

    /// A batch of frames; more than one command can carry are refused.
    pub fn try_android_key_batch(frames: &[AndroidKeyFrame]) -> (r: Result<AgentAction>)
        ensures
            frames@.len() > ANDROID_KEY_BATCH_FRAMES ==> r == Err::<AgentAction, Error>(
                Error::SessionLifecycle("android key batch too large"),
            ),
            frames@.len() <= ANDROID_KEY_BATCH_FRAMES ==> {
                &&& r matches Ok(AgentAction::AndroidKeyBatchFixed { len, frames: slots })
                &&& len == frames@.len()
                &&& holds(slots@, frames@, AndroidKeyFrame::empty())
            },
    {
        if frames.len() > ANDROID_KEY_BATCH_FRAMES {
            return Err(Error::SessionLifecycle("android key batch too large"));
        }
        let slots: [AndroidKeyFrame; ANDROID_KEY_BATCH_FRAMES] = filled(
            frames,
            AndroidKeyFrame::empty(),
        );
        Ok(AgentAction::AndroidKeyBatchFixed { len: frames.len(), frames: slots })
    }

    /// A batch of frames; more than one command can carry are refused.
    pub fn try_mouse_batch(frames: &[MouseFrame]) -> (r: Result<AgentAction>)
        ensures
            frames@.len() > MOUSE_BATCH_FRAMES ==> r == Err::<AgentAction, Error>(
                Error::SessionLifecycle("mouse batch too large"),
            ),
            frames@.len() <= MOUSE_BATCH_FRAMES ==> {
                &&& r matches Ok(AgentAction::MouseBatchFixed { len, frames: slots })
                &&& len == frames@.len()
                &&& holds(slots@, frames@, MouseFrame::empty())
            },
    {
        if frames.len() > MOUSE_BATCH_FRAMES {
            return Err(Error::SessionLifecycle("mouse batch too large"));
        }
        let slots: [MouseFrame; MOUSE_BATCH_FRAMES] = filled(frames, MouseFrame::empty());
        Ok(AgentAction::MouseBatchFixed { len: frames.len(), frames: slots })
    }

    /// A batch of frames; more than one command can carry are refused.
    pub fn try_gamepad_frame_batch(frames: &[GamepadFrameRaw]) -> (r: Result<AgentAction>)
        ensures
            frames@.len() > GAMEPAD_BATCH_FRAMES ==> r == Err::<AgentAction, Error>(
                Error::SessionLifecycle("gamepad frame batch too large"),
            ),
            frames@.len() <= GAMEPAD_BATCH_FRAMES ==> {
                &&& r matches Ok(AgentAction::GamepadFrameBatchFixed { len, frames: slots })
                &&& len == frames@.len()
                &&& holds(slots@, frames@, GamepadFrameRaw::neutral())
            },
    {
        if frames.len() > GAMEPAD_BATCH_FRAMES {
            return Err(Error::SessionLifecycle("gamepad frame batch too large"));
        }
        let slots: [GamepadFrameRaw; GAMEPAD_BATCH_FRAMES] = filled(
            frames,
            GamepadFrameRaw::neutral(),
        );
        Ok(AgentAction::GamepadFrameBatchFixed { len: frames.len(), frames: slots })
    }

    /// A batch of frames; more than one command can carry are refused.
    pub fn try_gamepad_frame_batch_unchecked(frames: &[GamepadFrameRaw]) -> (r: Result<AgentAction>)
        ensures
            frames@.len() > GAMEPAD_BATCH_FRAMES ==> r == Err::<AgentAction, Error>(
                Error::SessionLifecycle("gamepad frame batch too large"),
            ),
            frames@.len() <= GAMEPAD_BATCH_FRAMES ==> {
                &&& r matches Ok(
                    AgentAction::GamepadFrameBatchFixedUnchecked { len, frames: slots },
                )
                &&& len == frames@.len()
                &&& holds(slots@, frames@, GamepadFrameRaw::neutral())
            },
    {
        if frames.len() > GAMEPAD_BATCH_FRAMES {
            return Err(Error::SessionLifecycle("gamepad frame batch too large"));
        }
        let slots: [GamepadFrameRaw; GAMEPAD_BATCH_FRAMES] = filled(
            frames,
            GamepadFrameRaw::neutral(),
        );
        Ok(AgentAction::GamepadFrameBatchFixedUnchecked { len: frames.len(), frames: slots })
    }

    /// A batch of packed frames; more than one command can carry are refused.
    pub fn try_gamepad_packed_frame_batch(frames: &[[u8; GAMEPAD_FRAME_BYTES]]) -> (r: Result<
        AgentAction,
    >)
        ensures
            frames@.len() > GAMEPAD_BATCH_FRAMES ==> r == Err::<AgentAction, Error>(
                Error::SessionLifecycle("gamepad packed frame batch too large"),
            ),
            frames@.len() <= GAMEPAD_BATCH_FRAMES ==> {
                &&& r matches Ok(AgentAction::GamepadPackedFrameBatchFixed { len, frames: slots })
                &&& len == frames@.len()
                &&& padded_packed(slots@, frames@)
            },
    {
        if frames.len() > GAMEPAD_BATCH_FRAMES {
            return Err(Error::SessionLifecycle("gamepad packed frame batch too large"));
        }
        let blank: [u8; GAMEPAD_FRAME_BYTES] = [0; GAMEPAD_FRAME_BYTES];
        assert(blank_packed(blank));
        let slots: [[u8; GAMEPAD_FRAME_BYTES]; GAMEPAD_BATCH_FRAMES] = filled(frames, blank);
        Ok(AgentAction::GamepadPackedFrameBatchFixed { len: frames.len(), frames: slots })
    }
}

fn off_basis(x_bp: u16, y_bp: u16) -> (r: Option<&'static str>)
    ensures
        r == if x_bp > BASIS_POINTS || y_bp > BASIS_POINTS {
            Some("normalized point out of range")
        } else {
            None
        },
{
    if x_bp > BASIS_POINTS || y_bp > BASIS_POINTS {
        Some("normalized point out of range")
    } else {
        None
    }
}

/// Whether `r` is the longest leading part of a plan whose every step can be
/// queued without blocking under the bound.
pub open spec fn bounded_by(
    actions: Seq<AgentAction>,
    bound: usize,
    reserve: nat,
    r: AgentPlanBoundedPrefix,
) -> bool {
    let n = r.accepted_actions as int;
    &&& r.valid()
    &&& r.action_count == actions.len()
    &&& r.command_bound == bound
    &&& r.estimated_dispatch_commands == capped(estimate(actions.take(n)))
    &&& forall|k: int| 1 <= k <= n ==> #[trigger] admissible(actions, k, bound, reserve)
    &&& if n == actions.len() {
        r.stop == AgentPlanBoundedPrefixStop::EndOfPlan
    } else {
        &&& !admissible(actions, n + 1, bound, reserve)
        &&& match actions[n].fault() {
            Some(error) => r.stop == (AgentPlanBoundedPrefixStop::TryQueueError {
                index: n as usize,
                error,
            }),
            None => if actions[n].timed() {
                r.stop == (AgentPlanBoundedPrefixStop::BlockingTiming { index: n as usize })
            } else {
                r.stop == (AgentPlanBoundedPrefixStop::CommandBound {
                    index: n as usize,
                    required_dispatch_commands: capped(estimate(actions.take(n + 1)) + reserve),
                })
            },
        }
    }
}

/// What is pending never fills a command.
proof fn lemma_pending_below_cap(actions: Seq<AgentAction>)
    ensures
        match pressure(actions).lane {
            Some(lane) => pressure(actions).pending < lane.cap(),
            None => pressure(actions).pending == 0,
        },
    decreases actions.len(),
{
    if actions.len() > 0 {
        lemma_pending_below_cap(actions.drop_last());
    }
}

/// One more action never makes a plan cheaper.
pub proof fn lemma_estimate_grows(actions: Seq<AgentAction>, action: AgentAction)
    ensures
        estimate(actions) <= estimate(actions.push(action)),
{
    let p = pressure(actions);
    assert(actions.push(action).drop_last() =~= actions);
    lemma_pending_below_cap(actions);
    if let Some(lane) = action.lane() {
        if action.frames() > 0 {
            let pending = if p.lane == Some(lane) {
                p.pending
            } else {
                0
            };
            lemma_split(pending + action.frames(), lane.cap());
        }
    }
}

proof fn lemma_split(total: nat, cap: nat)
    requires
        cap > 0,
    ensures
        cap * (total / cap) + total % cap == total,
        total % cap < cap,
        total > 0 ==> total / cap + (if total % cap > 0 { 1nat } else { 0nat }) >= 1,
{
    vstd::arithmetic::div_mod::lemma_fundamental_div_mod(total as int, cap as int);
    if total / cap == 0 {
        assert(cap * (total / cap) == 0) by (nonlinear_arith)
            requires
                total / cap == 0,
        ;
    }
}

/// A longer part of a plan takes no fewer commands than a shorter one.
pub proof fn lemma_estimate_monotone(actions: Seq<AgentAction>, i: int, j: int)
    requires
        0 <= i <= j <= actions.len(),
    ensures
        estimate(actions.take(i)) <= estimate(actions.take(j)),
    decreases j - i,
{
    if i < j {
        lemma_estimate_monotone(actions, i, j - 1);
        lemma_estimate_grows(actions.take(j - 1), actions[j - 1]);
        assert(actions.take(j - 1).push(actions[j - 1]) =~= actions.take(j));
    }
}

/// The frames of a plan.
pub open spec fn frame_total(actions: Seq<AgentAction>) -> nat
    decreases actions.len(),
{
    if actions.len() == 0 {
        0
    } else {
        frame_total(actions.drop_last()) + actions.last().frames()
    }
}

/// Frames of one kind travel in as few commands as can carry them.
pub proof fn lemma_one_kind_fills_batches(actions: Seq<AgentAction>, lane: Lane)
    requires
        forall|i: int| 0 <= i < actions.len() ==> (#[trigger] actions[i]).lane() == Some(lane),
    ensures
        frame_total(actions) <= lane.cap() * estimate(actions),
        lane.cap() * (estimate(actions) - 1) < frame_total(actions) || estimate(actions) == 0,
{
    lemma_one_kind_pressure(actions, lane);
    let p = pressure(actions);
    let cap = lane.cap() as int;
    let k = p.commands as int;
    assert(cap * (k + 1) == cap * k + cap) by (nonlinear_arith);
    assert(cap * (k - 1) == cap * k - cap) by (nonlinear_arith);
}

proof fn lemma_one_kind_pressure(actions: Seq<AgentAction>, lane: Lane)
    requires
        forall|i: int| 0 <= i < actions.len() ==> (#[trigger] actions[i]).lane() == Some(lane),
    ensures
        ({
            let p = pressure(actions);
            &&& lane.cap() * p.commands + p.pending == frame_total(actions)
            &&& p.pending < lane.cap()
            &&& p.lane == Some(lane) || (p.lane is None && p.commands == 0 && p.pending == 0)
        }),
    decreases actions.len(),
{
    if actions.len() > 0 {
        let before = actions.drop_last();
        lemma_one_kind_pressure(before, lane);
        let p = pressure(before);
        let last = actions.last();
        assert(actions[actions.len() - 1].lane() == Some(lane));
        if last.frames() > 0 {
            let total = p.pending + last.frames();
            lemma_split(total, lane.cap());
            let c = lane.cap();
            let k = p.commands;
            let q = total / c;
            assert(c * (k + q) == c * k + c * q) by (nonlinear_arith);
        }
    } else {
        assert(lane.cap() * 0 == 0) by (nonlinear_arith);
    }
}

/// A step without frames closes what is pending, and adds only its own commands.
pub proof fn lemma_step_closes_batch(actions: Seq<AgentAction>, action: AgentAction)
    requires
        action.lane() is None,
    ensures
        estimate(actions.push(action)) == estimate(actions) + action.own_commands(),
{
    assert(actions.push(action).drop_last() =~= actions);
}

/// A bounded prefix never needs more commands than its bound leaves.
pub proof fn lemma_bounded_prefix_fits(
    actions: Seq<AgentAction>,
    bound: usize,
    reserve: nat,
    r: AgentPlanBoundedPrefix,
)
    requires
        bounded_by(actions, bound, reserve, r),
        r.accepted_actions > 0,
    ensures
        capped(estimate(actions.take(r.accepted_actions as int)) + reserve) <= bound,
        r.estimated_dispatch_commands <= bound,
{
    assert(admissible(actions, r.accepted_actions as int, bound, reserve));
}

/// Whether an action's frames are touches.
pub open spec fn touches(a: AgentAction) -> bool {
    a is Tap || a is TapRectAt || a is Swipe || a is TouchFramesFixed
}

/// Whether an action's frames are scroll events.
pub open spec fn scrolls(a: AgentAction) -> bool {
    a is ScrollRect || a is ScrollBatchFixed
}

/// Whether an action's frames are keyboard edges.
pub open spec fn types_keys(a: AgentAction) -> bool {
    a is KeyBatchFixed || a is KeyboardChordFixed
}

/// Whether an action's frames are gamepad frames that may be skipped as repeats.
pub open spec fn plays_checked(a: AgentAction) -> bool {
    a is GamepadFrame || a is GamepadFrameBatchFixed
}

/// Whether an action's frames are gamepad frames that are never skipped.
pub open spec fn plays_unchecked(a: AgentAction) -> bool {
    a is GamepadFrameUnchecked || a is GamepadFrameBatchFixedUnchecked
}

/// Whether an action's frames are packed gamepad frames.
pub open spec fn plays_packed(a: AgentAction) -> bool {
    a is GamepadPackedFrame || a is GamepadPackedFrameBatchFixed
}

/// Whether `cmd` is the batch command for an action's frames.
pub open spec fn travels_in(a: AgentAction, cmd: HidCommand) -> bool {
    match cmd {
        HidCommand::TouchBatchFixed { .. } => touches(a),
        HidCommand::InjectScrollBatchFixed { .. } => scrolls(a),
        HidCommand::KeyBatchFixed { .. } => types_keys(a),
        HidCommand::AndroidKeyBatchFixed { .. } => a is AndroidKeyBatchFixed,
        HidCommand::MouseBatchFixed { .. } => a is MouseBatchFixed,
        HidCommand::GamepadFrameRawBatchFixed { .. } => plays_checked(a),
        HidCommand::GamepadFrameRawBatchFixedUnchecked { .. } => plays_unchecked(a),
        HidCommand::GamepadPackedFrameBatchFixed { .. } => plays_packed(a),
        _ => false,
    }
}

/// How many frames a batch command has slots for.
pub open spec fn slots_of(cmd: HidCommand) -> nat {
    match cmd {
        HidCommand::TouchBatchFixed { frames, .. } => frames@.len(),
        HidCommand::InjectScrollBatchFixed { frames, .. } => frames@.len(),
        HidCommand::KeyBatchFixed { frames, .. } => frames@.len(),
        HidCommand::AndroidKeyBatchFixed { frames, .. } => frames@.len(),
        HidCommand::MouseBatchFixed { frames, .. } => frames@.len(),
        HidCommand::GamepadFrameRawBatchFixed { frames, .. } => frames@.len(),
        HidCommand::GamepadFrameRawBatchFixedUnchecked { frames, .. } => frames@.len(),
        HidCommand::GamepadPackedFrameBatchFixed { frames, .. } => frames@.len(),
        _ => 0,
    }
}

/// The kind of an action's frames is that of the batch command that carries them:
/// two actions whose frames can travel in one command are of one kind, two whose
/// frames cannot are not. A command of that kind has as many slots as the kind
/// counts.
pub proof fn lemma_kind_is_command(a: AgentAction, b: AgentAction, cmd: HidCommand)
    requires
        travels_in(a, cmd),
    ensures
        a.lane() is Some,
        a.lane()->0.cap() == slots_of(cmd),
        travels_in(b, cmd) <==> b.lane() == a.lane(),
{
}

/// An action without frames travels in no batch command.
pub proof fn lemma_no_kind_no_command(a: AgentAction, cmd: HidCommand)
    requires
        a.lane() is None,
    ensures
        !travels_in(a, cmd),
        a.frames() == 0,
        a is PressBack || a is Flush || a is Wait || a is LongPressPoint || a is LongPressRectAt,
{
}

/// Whether the frames of two actions can share a command.
pub open spec fn share(a: AgentAction, b: AgentAction) -> bool {
    ||| touches(a) && touches(b)
    ||| scrolls(a) && scrolls(b)
    ||| types_keys(a) && types_keys(b)
    ||| a is AndroidKeyBatchFixed && b is AndroidKeyBatchFixed
    ||| a is MouseBatchFixed && b is MouseBatchFixed
    ||| plays_checked(a) && plays_checked(b)
    ||| plays_unchecked(a) && plays_unchecked(b)
    ||| plays_packed(a) && plays_packed(b)
}

/// A command that a plan sends: a batch that an action began, with its frames, or a
/// command of an action's own, with none.
pub struct Parcel {
    pub by: AgentAction,
    pub frames: nat,
}

/// The commands of a plan so far. While `open`, the last one may take more frames.
#[verifier::ext_equal]
pub struct Packing {
    pub parcels: Seq<Parcel>,
    pub open: bool,
}

impl Packing {
    /// With one more frame of an action, in the last batch if it is of the same kind
    /// and has a slot left, else in a new one.
    pub open spec fn with_frame(self, a: AgentAction) -> Packing {
        let last = self.parcels.last();
        let room = if touches(a) {
            24nat
        } else {
            32nat
        };
        if self.open && self.parcels.len() > 0 && share(last.by, a) && last.frames < room {
            Packing {
                parcels: self.parcels.drop_last().push(
                    Parcel { by: last.by, frames: last.frames + 1 },
                ),
                open: true,
            }
        } else {
            Packing { parcels: self.parcels.push(Parcel { by: a, frames: 1 }), open: true }
        }
    }

    /// With `n` more frames of an action, one after the other.
    pub open spec fn with_frames_of(self, a: AgentAction, n: nat) -> Packing
        decreases n,
    {
        if n == 0 {
            self
        } else {
            self.with_frames_of(a, (n - 1) as nat).with_frame(a)
        }
    }

    /// With an action's own commands; the last batch is closed first.
    pub open spec fn with_step(self, a: AgentAction) -> Packing {
        Packing {
            parcels: self.parcels + Seq::new(
                a.own_commands(),
                |i: int| Parcel { by: a, frames: 0 },
            ),
            open: false,
        }
    }
}

/// The commands that a plan sends when its frames are put into batches one by one.
pub open spec fn packed(actions: Seq<AgentAction>) -> Packing
    decreases actions.len(),
{
    if actions.len() == 0 {
        Packing { parcels: Seq::empty(), open: false }
    } else {
        let before = packed(actions.drop_last());
        let a = actions.last();
        if share(a, a) {
            before.with_frames_of(a, a.frames())
        } else {
            before.with_step(a)
        }
    }
}

/// Whether a packing stands where a count of its commands says.
spec fn counts(p: Pressure, k: Packing) -> bool {
    &&& k.parcels.len() == p.settled()
    &&& p.pending > 0 ==> {
        &&& k.open
        &&& p.lane is Some
        &&& k.parcels.last().by.lane() == p.lane
        &&& k.parcels.last().frames == p.pending
        &&& p.pending < p.lane->0.cap()
    }
    &&& p.pending == 0 && k.open && k.parcels.len() > 0 ==> {
        &&& k.parcels.last().by.lane() is Some
        &&& k.parcels.last().frames == k.parcels.last().by.lane()->0.cap()
    }
}

proof fn lemma_share_is_lane(a: AgentAction, b: AgentAction)
    ensures
        share(a, b) <==> a.lane() is Some && a.lane() == b.lane(),
        share(a, a) ==> a.lane()->0.cap() == if touches(a) {
            24nat
        } else {
            32nat
        },
{
}

proof fn lemma_frames_are_counted(p: Pressure, k: Packing, a: AgentAction, n: nat)
    requires
        counts(p, k),
        share(a, a),
        n > 0,
    ensures
        counts(p.with_frames(a.lane()->0, n), k.with_frames_of(a, n)),
    decreases n,
{
    lemma_share_is_lane(a, a);
    let lane = a.lane()->0;
    let m = (n - 1) as nat;
    let before = k.with_frames_of(a, m);
    if n == 1 {
        reveal_with_fuel(Packing::with_frames_of, 2);
        if k.parcels.len() > 0 {
            lemma_share_is_lane(k.parcels.last().by, a);
        }
    } else {
        lemma_frames_are_counted(p, k, a, m);
        let q = p.with_frames(lane, m);
        assert(counts(q, before));
        if before.parcels.len() > 0 {
            lemma_share_is_lane(before.parcels.last().by, a);
        }
    }
}

proof fn lemma_packed_is_counted(actions: Seq<AgentAction>)
    ensures
        counts(pressure(actions), packed(actions)),
    decreases actions.len(),
{
    if actions.len() > 0 {
        let before = actions.drop_last();
        let a = actions.last();
        lemma_packed_is_counted(before);
        lemma_share_is_lane(a, a);
        if share(a, a) && a.frames() > 0 {
            lemma_frames_are_counted(pressure(before), packed(before), a, a.frames());
        }
    }
}

/// The estimate of a plan is the number of commands that leave when the plan's frames
/// are put into batches one by one, a batch is closed when it is full, when a frame
/// of another kind comes and before a step of another sort.
pub proof fn lemma_estimate_counts_commands(actions: Seq<AgentAction>)
    ensures
        estimate(actions) == packed(actions).parcels.len(),
{
    lemma_packed_is_counted(actions);
}

/// An action whose frames cannot share a command with those of the action in front of
/// it starts a batch of its own: it costs as many commands as its frames fill.
pub proof fn lemma_change_of_kind_starts_batch(
    actions: Seq<AgentAction>,
    a: AgentAction,
)
    requires
        actions.len() > 0,
        actions.last().frames() > 0 || !share(actions.last(), actions.last()),
        share(a, a),
        !share(actions.last(), a),
    ensures
        touches(a) ==> estimate(actions.push(a)) == estimate(actions) + (a.frames() + 23) / 24,
        !touches(a) ==> estimate(actions.push(a)) == estimate(actions) + (a.frames() + 31) / 32,
{
    let last = actions.last();
    let all = actions.push(a);
    assert(all.drop_last() =~= actions);
    lemma_share_is_lane(last, a);
    lemma_share_is_lane(a, a);
    lemma_share_is_lane(last, last);
    assert(pressure(actions).lane == last.lane());
}

/// A mouse batch is closed by a tap, a scroll or a key behind it, so each of them
/// takes a command of its own.
pub proof fn lemma_mouse_batch_is_closed(
    len: usize,
    frames: [MouseFrame; MOUSE_BATCH_FRAMES],
    b: AgentAction,
)
    requires
        len > 0,
        b is Tap || b is ScrollRect || (b is KeyBatchFixed && b.frames() == 1),
    ensures
        estimate(seq![AgentAction::MouseBatchFixed { len, frames }, b]) == (len + 31) / 32 + 1,
{
    let a = AgentAction::MouseBatchFixed { len, frames };
    let none = Seq::<AgentAction>::empty();
    assert(seq![a, b] =~= seq![a].push(b));
    assert(seq![a].drop_last() =~= none);
    assert(pressure(none) == Pressure::start());
    let p = pressure(seq![a]);
    assert(p == Pressure::start().after(a));
    assert(p.commands == len as nat / 32 && p.pending == len as nat % 32);
    assert(estimate(seq![a]) == (len + 31) / 32);
    lemma_change_of_kind_starts_batch(seq![a], b);
}

/// Frames of one kind fill up the batch in front of them: after a tap, another one
/// costs nothing while the batch has slots for both of its frames.
pub proof fn lemma_same_kind_shares_batch(
    actions: Seq<AgentAction>,
    a: AgentAction,
    b: AgentAction,
)
    requires
        share(a, b),
        0 < a.frames(),
        0 < b.frames(),
        a.frames() + b.frames() <= 24,
        actions.len() == 0 || !share(actions.last(), a),
        actions.len() > 0 ==> actions.last().frames() > 0 || !share(actions.last(), actions.last()),
    ensures
        estimate(actions.push(a).push(b)) == estimate(actions) + 1,
        estimate(actions.push(a)) == estimate(actions) + 1,
{
    lemma_share_is_lane(a, b);
    lemma_share_is_lane(a, a);
    if actions.len() > 0 {
        lemma_share_is_lane(actions.last(), a);
        lemma_share_is_lane(actions.last(), actions.last());
        assert(pressure(actions).lane == actions.last().lane());
    }
    let p0 = pressure(actions);
    let p1 = pressure(actions.push(a));
    assert(actions.push(a).drop_last() =~= actions);
    assert(p1 == p0.after(a));
    assert(p1.commands == p0.settled() && p1.pending == a.frames());
    assert(actions.push(a).push(b).drop_last() =~= actions.push(a));
    assert(pressure(actions.push(a).push(b)) == p1.after(b));
}

/// How many frames an action has: as many as its gesture, its chord or its batch.
pub proof fn lemma_action_frames(a: AgentAction, id: u64, path: Seq<(i32, i32)>, x: i32, y: i32)
    ensures
        a is Tap || a is TapRectAt ==> a.frames() == seq![
            down_frame(id, x, y),
            up_frame(id, x, y),
        ].len(),
        a matches AgentAction::Swipe { from, to, steps } ==> (path.len() == steps && steps > 0
            || path.len() == 1 && steps == 0) ==> a.frames() == swipe_frames(
            id,
            from,
            to,
            path,
        ).len(),
        a matches AgentAction::KeyboardChordFixed(chord) ==> a.frames() == chord.edges().len(),
        a is ScrollRect || a is GamepadFrame || a is GamepadFrameUnchecked || a
            is GamepadPackedFrame ==> a.frames() == 1,
        a matches AgentAction::TouchFramesFixed { len, .. } ==> a.frames() == len,
        a matches AgentAction::ScrollBatchFixed { len, .. } ==> a.frames() == len,
        a matches AgentAction::KeyBatchFixed { len, .. } ==> a.frames() == len,
        a matches AgentAction::AndroidKeyBatchFixed { len, .. } ==> a.frames() == len,
        a matches AgentAction::MouseBatchFixed { len, .. } ==> a.frames() == len,
        a matches AgentAction::GamepadFrameBatchFixed { len, .. } ==> a.frames() == len,
        a matches AgentAction::GamepadFrameBatchFixedUnchecked { len, .. } ==> a.frames() == len,
        a matches AgentAction::GamepadPackedFrameBatchFixed { len, .. } ==> a.frames() == len,
{
    if let AgentAction::Swipe { from, to, .. } = a {
        lemma_swipe_presses_and_releases(id, from, to, path);
    }
}

/// A step that has no frames costs what it sends by itself: a press of the back key
/// and a flush one command, the press and the release of a long press one each, and a
/// pause nothing.
pub proof fn lemma_step_costs(actions: Seq<AgentAction>, a: AgentAction)
    requires
        !share(a, a),
    ensures
        a is PressBack || a is Flush ==> estimate(actions.push(a)) == estimate(actions) + 1,
        a is LongPressPoint || a is LongPressRectAt ==> estimate(actions.push(a)) == estimate(
            actions,
        ) + 2,
        a is Wait ==> estimate(actions.push(a)) == estimate(actions),
{
    lemma_share_is_lane(a, a);
    lemma_step_closes_batch(actions, a);
}

/// A pause keeps what is behind it out of the batch in front of it.
pub proof fn lemma_pause_splits_batch(actions: Seq<AgentAction>, a: AgentAction, duration_ns: u64)
    requires
        share(a, a),
        0 < a.frames() <= 24,
    ensures
        estimate(actions.push(AgentAction::Wait { duration_ns }).push(a)) == estimate(actions) + 1,
{
    let wait = AgentAction::Wait { duration_ns };
    let before = actions.push(wait);
    lemma_share_is_lane(a, a);
    assert(before.drop_last() =~= actions);
    assert(pressure(before) == pressure(actions).after(wait));
    assert(before.push(a).drop_last() =~= before);
    assert(pressure(before.push(a)) == pressure(before).after(a));
}

/// An action is malformed exactly if it counts more frames or keys than it has slots
/// for, or stands more than the whole way along a rectangle.
pub proof fn lemma_faults_are_overflows(a: AgentAction)
    ensures
        a.fault() is Some <==> match a {
            AgentAction::TouchFramesFixed { len, frames } => len > frames@.len(),
            AgentAction::ScrollBatchFixed { len, frames } => len > frames@.len(),
            AgentAction::KeyBatchFixed { len, frames } => len > frames@.len(),
            AgentAction::KeyboardChordFixed(chord) => chord.len > chord.keys@.len(),
            AgentAction::AndroidKeyBatchFixed { len, frames } => len > frames@.len(),
            AgentAction::MouseBatchFixed { len, frames } => len > frames@.len(),
            AgentAction::GamepadFrameBatchFixed { len, frames } => len > frames@.len(),
            AgentAction::GamepadFrameBatchFixedUnchecked { len, frames } => len > frames@.len(),
            AgentAction::GamepadPackedFrameBatchFixed { len, frames } => len > frames@.len(),
            AgentAction::TapRectAt { x_bp, y_bp, .. } => x_bp > 10_000 || y_bp > 10_000,
            AgentAction::LongPressRectAt { x_bp, y_bp, .. } => x_bp > 10_000 || y_bp > 10_000,
            _ => false,
        },
        a is TouchFramesFixed ==> a.fault() is None || a.fault() == Some(
            "touch frame batch length overflow",
        ),
        a is ScrollBatchFixed ==> a.fault() is None || a.fault() == Some(
            "scroll batch length overflow",
        ),
        a is KeyBatchFixed ==> a.fault() is None || a.fault() == Some(
            "keyboard batch length overflow",
        ),
        a is KeyboardChordFixed ==> a.fault() is None || a.fault() == Some(
            "keyboard chord length overflow",
        ),
        a is AndroidKeyBatchFixed ==> a.fault() is None || a.fault() == Some(
            "android key batch length overflow",
        ),
        a is MouseBatchFixed ==> a.fault() is None || a.fault() == Some(
            "mouse batch length overflow",
        ),
        plays_checked(a) || plays_unchecked(a) ==> a.fault() is None || a.fault() == Some(
            "gamepad frame batch length overflow",
        ),
        plays_packed(a) ==> a.fault() is None || a.fault() == Some(
            "gamepad packed frame batch length overflow",
        ),
        a is TapRectAt || a is LongPressRectAt ==> a.fault() is None || a.fault() == Some(
            "normalized point out of range",
        ),
{
}

/// An action can be queued without blocking exactly if it is sound and takes no time:
/// only a pause and a long press do. What is malformed is called so first.
pub proof fn lemma_waits_cannot_be_queued(a: AgentAction)
    ensures
        a.try_fault() is None <==> a.fault() is None && !(a is Wait || a is LongPressPoint || a
            is LongPressRectAt),
        a.fault() is Some ==> a.try_fault() == a.fault(),
        a.try_fault() is Some && a.fault() is None ==> a.try_fault() == Some(
            "timed action requires queue_actions or run_actions",
        ),
{
}

/// The first fault of a plan is in front of all others, and stays the first whatever
/// is added behind it.
pub proof fn lemma_first_fault_is_first(
    actions: Seq<AgentAction>,
    more: Seq<AgentAction>,
    r: Option<(usize, &'static str)>,
    j: int,
)
    requires
        first_fault(actions, r),
        0 <= j < actions.len(),
    ensures
        actions[j].fault() is Some ==> r is Some && (r->0).0 <= j,
        r matches Some((i, e)) ==> i < actions.len() && actions[i as int].fault() == Some(e)
            && first_fault(actions + more, r),
{
    if let Some((i, e)) = r {
        assert((actions + more)[i as int] == actions[i as int]);
        assert forall|k: int| 0 <= k < i implies (#[trigger] (actions + more)[k]).fault() is None by {
            assert((actions + more)[k] == actions[k]);
        }
    }
}

/// The first action that cannot be queued without blocking is in front of all others.
pub proof fn lemma_first_try_fault_is_first(
    actions: Seq<AgentAction>,
    r: Option<(usize, &'static str)>,
    j: int,
)
    requires
        first_try_fault(actions, r),
        0 <= j < actions.len(),
    ensures
        actions[j].fault() is Some || actions[j].timed() ==> r is Some && (r->0).0 <= j,
        r matches Some((i, e)) ==> i < actions.len() && (actions[i as int].fault() is Some
            || actions[i as int].timed()),
{
    if let Some((i, e)) = r {
        assert(actions[i as int].try_fault() == Some(e));
    }
    assert(actions[j].fault() is Some || actions[j].timed() ==> actions[j].try_fault() is Some);
}

/// The first timed action is in front of all others.
pub proof fn lemma_first_timed_is_first(actions: Seq<AgentAction>, r: Option<usize>, j: int)
    requires
        first_timed(actions, r),
        0 <= j < actions.len(),
    ensures
        actions[j] is Wait || actions[j] is LongPressPoint || actions[j] is LongPressRectAt ==> r
            is Some && r->0 <= j,
        r matches Some(i) ==> i < actions.len() && (actions[i as int] is Wait || actions[i as int]
            is LongPressPoint || actions[i as int] is LongPressRectAt),
{
    assert(actions[j] is Wait ==> actions[j].timed());
}

/// A count is kept as long as it fits, and else is the largest that does.
pub proof fn lemma_capped_is_nearest(n: nat, m: nat)
    ensures
        n <= usize::MAX ==> capped(n) == n,
        n > usize::MAX ==> capped(n) == usize::MAX,
        n <= m ==> capped(n) <= capped(m),
{
}

/// How the numbers of a summary belong together: running a plan takes one command
/// more than queueing it, what is not sound is not counted, what can be queued without
/// blocking is sound, and the part in front of the first timed action is no longer
/// than the plan and no dearer.
pub proof fn lemma_summary_adds_up(s: AgentPlanSummary, actions: Seq<AgentAction>)
    requires
        s.sums_up(actions),
    ensures
        s.action_count == actions.len(),
        s.first_try_queue_error is None ==> s.first_structural_error is None,
        s.first_try_queue_error is None ==> s.first_blocking_timing is None,
        s.first_structural_error is None && s.first_blocking_timing is None
            ==> s.first_try_queue_error is None,
        s.first_structural_error is Some ==> s.estimated_queue_dispatch_commands == 0
            && s.estimated_run_dispatch_commands == 0,
        s.first_try_queue_error is Some ==> s.estimated_try_queue_dispatch_commands == 0
            && s.estimated_try_run_dispatch_commands == 0,
        s.first_try_queue_prefix_error is Some ==> s.estimated_try_queue_prefix_dispatch_commands
            == 0 && s.estimated_try_run_prefix_dispatch_commands == 0,
        s.first_structural_error is None && estimate(actions) < usize::MAX
            ==> s.estimated_queue_dispatch_commands == packed(actions).parcels.len()
            && s.estimated_run_dispatch_commands == s.estimated_queue_dispatch_commands + 1,
        s.first_try_queue_error is None ==> s.estimated_try_queue_dispatch_commands
            == s.estimated_queue_dispatch_commands && s.estimated_try_run_dispatch_commands
            == s.estimated_run_dispatch_commands,
        s.first_try_queue_error is None ==> s.estimated_try_queue_prefix_dispatch_commands
            == s.estimated_queue_dispatch_commands,
        s.first_try_queue_prefix_error is None && estimate(actions) < usize::MAX
            ==> s.estimated_try_run_prefix_dispatch_commands
            == s.estimated_try_queue_prefix_dispatch_commands + 1,
        s.first_structural_error is None ==> s.estimated_try_queue_prefix_dispatch_commands
            <= s.estimated_queue_dispatch_commands,
        s.try_queueable_prefix_len <= s.blocking_timing_prefix_len <= s.action_count,
        s.first_try_queue_error matches Some((i, _)) ==> s.try_queueable_prefix_len == i,
        s.first_blocking_timing matches Some(i) ==> s.blocking_timing_prefix_len == i,
        s.first_try_queue_error is None ==> s.try_queueable_prefix_len == s.action_count,
        s.first_blocking_timing is None ==> s.blocking_timing_prefix_len == s.action_count,
{
    let n = s.blocking_timing_prefix_len as int;
    let prefix = actions.take(n);
    lemma_estimate_counts_commands(actions);
    lemma_estimate_monotone(actions, n, actions.len() as int);
    assert(actions.take(actions.len() as int) =~= actions);
    if let Some((i, e)) = s.first_structural_error {
        assert(actions[i as int].try_fault() is Some);
    }
    if let Some(i) = s.first_blocking_timing {
        assert(actions[i as int].try_fault() is Some);
    }
    if let Some((i, e)) = s.first_try_queue_error {
        assert(actions[i as int].fault() is Some || actions[i as int].timed());
    }
    if s.first_try_queue_error is None {
        assert(s.first_blocking_timing is None);
        assert(prefix =~= actions);
    }
    if s.first_structural_error is None {
        if let Some((i, e)) = s.first_try_queue_prefix_error {
            assert(prefix[i as int] == actions[i as int]);
            assert(actions[i as int].fault() is None);
            assert(actions[i as int].timed());
        }
    }
}

/// A bounded prefix is the longest one that can be accepted: every shorter part of the
/// plan can be queued without blocking inside the bound, and with the next action the
/// plan cannot. What stops it is the next action: it is malformed, or it takes time, or
/// it needs more commands than the bound leaves.
pub proof fn lemma_bounded_prefix_is_longest(
    actions: Seq<AgentAction>,
    bound: usize,
    reserve: nat,
    r: AgentPlanBoundedPrefix,
    k: int,
)
    requires
        bounded_by(actions, bound, reserve, r),
        0 <= k < r.accepted_actions,
    ensures
        r.action_count == actions.len(),
        r.accepted_actions <= actions.len(),
        r.command_bound == bound,
        actions[k].fault() is None && !actions[k].timed(),
        bound < usize::MAX ==> estimate(actions.take(k + 1)) + reserve <= bound,
        r.stop is EndOfPlan <==> r.accepted_actions == actions.len(),
{
    assert(admissible(actions, k + 1, bound, reserve));
    assert(actions[k].try_fault() is None);
}

/// Why a bounded prefix ends before the plan does.
pub proof fn lemma_bounded_prefix_stop(
    actions: Seq<AgentAction>,
    bound: usize,
    reserve: nat,
    r: AgentPlanBoundedPrefix,
)
    requires
        bounded_by(actions, bound, reserve, r),
    ensures
        r.estimated_dispatch_commands == capped(
            packed(actions.take(r.accepted_actions as int)).parcels.len(),
        ),
        match r.stop {
            AgentPlanBoundedPrefixStop::EndOfPlan => r.accepted_actions == actions.len(),
            AgentPlanBoundedPrefixStop::TryQueueError { index, error } => {
                &&& index == r.accepted_actions
                &&& index < actions.len()
                &&& actions[index as int].fault() == Some(error)
            },
            AgentPlanBoundedPrefixStop::BlockingTiming { index } => {
                &&& index == r.accepted_actions
                &&& index < actions.len()
                &&& actions[index as int].fault() is None
                &&& actions[index as int].timed()
            },
            AgentPlanBoundedPrefixStop::CommandBound { index, required_dispatch_commands } => {
                &&& index == r.accepted_actions
                &&& index < actions.len()
                &&& actions[index as int].fault() is None
                &&& !actions[index as int].timed()
                &&& required_dispatch_commands > bound
                &&& required_dispatch_commands == capped(
                    packed(actions.take(index + 1)).parcels.len() + reserve,
                )
            },
        },
{
    let n = r.accepted_actions as int;
    lemma_estimate_counts_commands(actions.take(n));
    if n < actions.len() {
        lemma_estimate_counts_commands(actions.take(n + 1));
    }
}

/// A bounded prefix to be queued takes no more commands than the bound, and one to be
/// run leaves one command of the bound for its flush. Both stop at the first action that
/// is malformed or takes time.
pub proof fn lemma_bounded_prefixes_leave_room(
    actions: &[AgentAction],
    bound: usize,
    queued: AgentPlanBoundedPrefix,
    run: AgentPlanBoundedPrefix,
    k: int,
)
    requires
        bound < usize::MAX,
        call_ensures(AgentAction::bounded_try_queue_prefix, (actions, bound), queued),
        call_ensures(AgentAction::bounded_try_run_prefix, (actions, bound), run),
    ensures
        queued.accepted_actions <= actions@.len(),
        queued.accepted_actions > 0 ==> packed(
            actions@.take(queued.accepted_actions as int),
        ).parcels.len() <= bound,
        run.accepted_actions > 0 ==> packed(
            actions@.take(run.accepted_actions as int),
        ).parcels.len() + 1 <= bound,
        0 <= k < queued.accepted_actions ==> actions@[k].fault() is None && !actions@[k].timed(),
        0 <= k < run.accepted_actions ==> actions@[k].fault() is None && !actions@[k].timed(),
        bound == 0 ==> run.accepted_actions == 0,
        run.accepted_actions <= queued.accepted_actions,
{
    let q = queued.accepted_actions as int;
    let n = run.accepted_actions as int;
    if q > 0 {
        lemma_bounded_prefix_fits(actions@, bound, 0, queued);
        lemma_estimate_counts_commands(actions@.take(q));
    }
    if n > 0 {
        lemma_bounded_prefix_fits(actions@, bound, 1, run);
        lemma_estimate_counts_commands(actions@.take(n));
    }
    if 0 <= k < q {
        lemma_bounded_prefix_is_longest(actions@, bound, 0, queued, k);
    }
    if 0 <= k < n {
        lemma_bounded_prefix_is_longest(actions@, bound, 1, run, k);
    }
    if n > q {
        assert(admissible(actions@, q + 1, bound, 1));
        assert(!admissible(actions@, q + 1, bound, 0));
    }
}

/// Looking a plan over gives its summary, by either name.
pub proof fn lemma_summaries_agree(actions: &[AgentAction], s: AgentPlanSummary)
    ensures
        call_ensures(AgentPlanSummary::analyze, (actions,), s) || call_ensures(
            AgentAction::plan_summary,
            (actions,),
            s,
        ) ==> s.sums_up(actions@),
{
}

/// The parts of a bounded prefix fit together: what is accepted and what remains make
/// up the plan, and it is full exactly if nothing remains.
pub proof fn lemma_prefix_parts_fit(
    p: &AgentPlanBoundedPrefix,
    actions: &[AgentAction],
    full: bool,
    empty: bool,
    n: usize,
    accepted: Option<&[AgentAction]>,
    remaining: Option<&[AgentAction]>,
    a: std::ops::Range<usize>,
    b: std::ops::Range<usize>,
)
    requires
        p.valid(),
        call_ensures(AgentPlanBoundedPrefix::is_full_plan, (p,), full),
        call_ensures(AgentPlanBoundedPrefix::is_empty, (p,), empty),
        call_ensures(AgentPlanBoundedPrefix::remaining_actions, (p,), n),
        call_ensures(AgentPlanBoundedPrefix::accepted_slice, (p, actions), accepted),
        call_ensures(AgentPlanBoundedPrefix::remaining_slice, (p, actions), remaining),
        call_ensures(AgentPlanBoundedPrefix::accepted_range, (p,), a),
        call_ensures(AgentPlanBoundedPrefix::remaining_range, (p,), b),
    ensures
        full <==> n == 0,
        empty <==> a.end == 0,
        a.start == 0 && a.end == b.start && b.end == p.action_count && b.end - b.start == n,
        accepted is Some <==> actions@.len() == p.action_count,
        remaining is Some <==> actions@.len() == p.action_count,
        accepted is Some ==> accepted->0@ + remaining->0@ == actions@ && accepted->0@.len() == a.end,
{
    if actions@.len() == p.action_count {
        let k = p.accepted_actions as int;
        assert(actions@.take(k) + actions@.skip(k) =~= actions@);
    }
}

/// Whether a prefix fits its bound, alone and with the flush that checks it.
pub proof fn lemma_prefix_fits_bound(
    p: &AgentPlanBoundedPrefix,
    alone: bool,
    checked: bool,
    n: usize,
)
    requires
        call_ensures(AgentPlanBoundedPrefix::accepted_dispatch_fits_bound, (p,), alone),
        call_ensures(AgentPlanBoundedPrefix::checked_dispatch_fits_bound, (p,), checked),
        call_ensures(AgentPlanBoundedPrefix::estimated_checked_dispatch_commands, (p,), n),
        p.estimated_dispatch_commands < usize::MAX,
    ensures
        alone <==> p.estimated_dispatch_commands <= p.command_bound,
        checked <==> p.estimated_dispatch_commands < p.command_bound,
        n == p.estimated_dispatch_commands + 1,
{
}

/// What a stop tells of itself: why it is one, the action that it stands at, and what
/// that action would have needed or has wrong.
pub proof fn lemma_stop_tells_reason(
    s: &AgentPlanBoundedPrefixStop,
    end: bool,
    bound: bool,
    error: bool,
    timing: bool,
    index: Option<usize>,
    required: Option<usize>,
    text: Option<&'static str>,
)
    requires
        call_ensures(AgentPlanBoundedPrefixStop::is_end_of_plan, (s,), end),
        call_ensures(AgentPlanBoundedPrefixStop::is_command_bound, (s,), bound),
        call_ensures(AgentPlanBoundedPrefixStop::is_try_queue_error, (s,), error),
        call_ensures(AgentPlanBoundedPrefixStop::is_blocking_timing, (s,), timing),
        call_ensures(AgentPlanBoundedPrefixStop::index, (s,), index),
        call_ensures(AgentPlanBoundedPrefixStop::required_dispatch_commands, (s,), required),
        call_ensures(AgentPlanBoundedPrefixStop::error, (s,), text),
    ensures
        end || bound || error || timing,
        !(end && bound) && !(end && error) && !(end && timing) && !(bound && error) && !(bound
            && timing) && !(error && timing),
        end <==> index is None,
        bound <==> required is Some,
        error <==> text is Some,
        *s matches AgentPlanBoundedPrefixStop::CommandBound {
            index: i,
            required_dispatch_commands: n,
        } ==> index == Some(i) && required == Some(n),
        *s matches AgentPlanBoundedPrefixStop::TryQueueError { index: i, error: e } ==> index
            == Some(i) && text == Some(e),
        *s matches AgentPlanBoundedPrefixStop::BlockingTiming { index: i } ==> index == Some(i),
{
}

/// Whether a plan fits a bound, as its summary tells: only where it is sound, and by the
/// commands that it takes.
pub proof fn lemma_summary_fits_bound(
    s: &AgentPlanSummary,
    actions: Seq<AgentAction>,
    bound: usize,
    queue: bool,
    run: bool,
    try_queue: bool,
    try_run: bool,
    prefix_queue: bool,
    prefix_run: bool,
)
    requires
        s.sums_up(actions),
        bound < usize::MAX,
        estimate(actions) < usize::MAX - 1,
        call_ensures(AgentPlanSummary::queue_dispatch_fits_bound, (s, bound), queue),
        call_ensures(AgentPlanSummary::run_dispatch_fits_bound, (s, bound), run),
        call_ensures(AgentPlanSummary::try_queue_dispatch_fits_bound, (s, bound), try_queue),
        call_ensures(AgentPlanSummary::try_run_dispatch_fits_bound, (s, bound), try_run),
        call_ensures(
            AgentPlanSummary::try_queue_prefix_dispatch_fits_bound,
            (s, bound),
            prefix_queue,
        ),
        call_ensures(AgentPlanSummary::try_run_prefix_dispatch_fits_bound, (s, bound), prefix_run),
    ensures
        queue <==> s.first_structural_error is None && packed(actions).parcels.len() <= bound,
        run <==> s.first_structural_error is None && packed(actions).parcels.len() < bound,
        try_queue <==> s.first_try_queue_error is None && packed(actions).parcels.len() <= bound,
        try_run <==> s.first_try_queue_error is None && packed(actions).parcels.len() < bound,
        prefix_queue <==> s.first_try_queue_prefix_error is None && packed(
            actions.take(s.blocking_timing_prefix_len as int),
        ).parcels.len() <= bound,
        prefix_run <==> s.first_try_queue_prefix_error is None && packed(
            actions.take(s.blocking_timing_prefix_len as int),
        ).parcels.len() < bound,
{
    let n = s.blocking_timing_prefix_len as int;
    lemma_estimate_counts_commands(actions);
    lemma_estimate_counts_commands(actions.take(n));
    lemma_estimate_monotone(actions, n, actions.len() as int);
    assert(actions.take(actions.len() as int) =~= actions);
}

/// What a summary says in a word.
pub proof fn lemma_summary_in_a_word(
    s: &AgentPlanSummary,
    actions: Seq<AgentAction>,
    sound: bool,
    queueable: bool,
    timed: bool,
    prefix: bool,
    suffix: bool,
    n: usize,
    j: int,
)
    requires
        s.sums_up(actions),
        call_ensures(AgentPlanSummary::is_structurally_valid, (s,), sound),
        call_ensures(AgentPlanSummary::all_try_queueable, (s,), queueable),
        call_ensures(AgentPlanSummary::has_blocking_timing, (s,), timed),
        call_ensures(AgentPlanSummary::can_try_queue_prefix, (s,), prefix),
        call_ensures(AgentPlanSummary::has_blocking_suffix, (s,), suffix),
        call_ensures(AgentPlanSummary::blocking_suffix_len, (s,), n),
        0 <= j < actions.len(),
    ensures
        sound ==> actions[j].fault() is None,
        queueable ==> actions[j].fault() is None && !actions[j].timed(),
        !timed ==> !actions[j].timed(),
        timed <==> suffix,
        suffix <==> n > 0,
        s.blocking_timing_prefix_len + n == actions.len(),
        prefix && j < s.blocking_timing_prefix_len ==> actions[j].fault() is None
            && !actions[j].timed(),
        j < s.blocking_timing_prefix_len ==> !actions[j].timed(),
{
    if queueable {
        assert(actions[j].try_fault() is None);
    }
    if j < s.blocking_timing_prefix_len {
        let p = actions.take(s.blocking_timing_prefix_len as int);
        assert(p[j] == actions[j]);
        if prefix {
            assert(p[j].try_fault() is None);
        }
    }
}

/// What is asked of a single action and of a plan goes by the same faults: a plan is
/// refused exactly if one of its actions is.
pub proof fn lemma_plans_are_refused_by_action(
    a: &AgentAction,
    plan: &[AgentAction],
    e: Option<&'static str>,
    sound: Result<()>,
    timed: bool,
    can: bool,
    plan_sound: Result<()>,
    plan_can: Result<()>,
    all: bool,
    j: int,
)
    requires
        call_ensures(AgentAction::structural_error, (a,), e),
        call_ensures(AgentAction::validate_structure, (a,), sound),
        call_ensures(AgentAction::requires_blocking_timing, (a,), timed),
        call_ensures(AgentAction::can_try_queue, (a,), can),
        call_ensures(AgentAction::validate_plan_structure, (plan,), plan_sound),
        call_ensures(AgentAction::validate_try_queue_plan, (plan,), plan_can),
        call_ensures(AgentAction::all_try_queueable, (plan,), all),
        0 <= j < plan@.len(),
        plan@[j] == *a,
    ensures
        e == a.fault(),
        sound is Ok <==> e is None,
        sound matches Err(why) ==> why == Error::SessionLifecycle(e->0),
        timed <==> *a is Wait || *a is LongPressPoint || *a is LongPressRectAt,
        can <==> e is None && !timed,
        e is Some ==> plan_sound is Err,
        !can ==> plan_can is Err && !all,
        all ==> plan_can is Ok,
        plan_can is Ok ==> all && plan_sound is Ok,
{
    if let Err(why) = plan_can {
        let (i, t) = choose|i: usize, t: &'static str| #[trigger]
            first_try_fault(plan@, Some((i, t))) && why == Error::SessionLifecycle(t);
        assert(plan@[i as int].try_fault() is Some);
    }
    if let Err(why) = plan_sound {
        let (i, t) = choose|i: usize, t: &'static str| #[trigger]
            first_fault(plan@, Some((i, t))) && why == Error::SessionLifecycle(t);
        assert(plan@[i as int].try_fault() is Some);
    }
    assert(plan@[j].try_fault() is None ==> plan@[j].fault() is None);
}

/// Where a plan's first hindrances stand.
pub proof fn lemma_first_hindrances(
    plan: &[AgentAction],
    fault: Option<(usize, &'static str)>,
    hindrance: Option<(usize, &'static str)>,
    at: Option<usize>,
    timed: Option<usize>,
    queueable: usize,
    untimed: usize,
)
    requires
        call_ensures(AgentAction::first_structural_error, (plan,), fault),
        call_ensures(AgentAction::first_try_queue_error, (plan,), hindrance),
        call_ensures(AgentAction::first_non_try_queueable, (plan,), at),
        call_ensures(AgentAction::first_blocking_timing, (plan,), timed),
        call_ensures(AgentAction::try_queueable_prefix_len, (plan,), queueable),
        call_ensures(AgentAction::blocking_timing_prefix_len, (plan,), untimed),
    ensures
        first_fault(plan@, fault),
        first_try_fault(plan@, hindrance),
        first_timed(plan@, timed),
        at is Some <==> hindrance is Some,
        hindrance matches Some((i, _)) ==> at == Some(i) && queueable == i,
        hindrance is None ==> queueable == plan@.len(),
        timed matches Some(i) ==> untimed == i,
        timed is None ==> untimed == plan@.len(),
        queueable <= untimed <= plan@.len(),
{
    if let Some((i, e)) = hindrance {
        assert(plan@[i as int].try_fault() is Some);
        if let Some(j) = at {
            assert(plan@[j as int].try_fault() is Some);
        }
    }
    if untimed < plan@.len() {
        assert(plan@[untimed as int].try_fault() is Some);
    }
}

/// Actions made by name hold what they are made of; a long press on a rectangle without
/// a place is in its middle.
pub proof fn lemma_actions_by_name(
    x: i32,
    y: i32,
    from: (i32, i32),
    to: (i32, i32),
    steps: usize,
    rect: AgentRect,
    x_bp: u16,
    y_bp: u16,
    point: AgentPoint,
    ns: u64,
    h: i16,
    v: i16,
    a: AgentAction,
)
    ensures
        call_ensures(AgentAction::tap, (x, y), a) ==> (a matches AgentAction::Tap { x: p, y: q } && p
            == x && q == y),
        call_ensures(AgentAction::swipe, (from, to, steps), a) ==> (a matches AgentAction::Swipe {
            from: p,
            to: q,
            steps: n,
        } && p == from && q == to && n == steps),
        call_ensures(AgentAction::tap_rect_at, (rect, x_bp, y_bp), a) ==> (
        a matches AgentAction::TapRectAt { rect: p, x_bp: q, y_bp: n } && p == rect && q == x_bp && n
            == y_bp),
        call_ensures(AgentAction::long_press_point, (point, ns), a) ==> (
        a matches AgentAction::LongPressPoint { point: p, hold_ns } && p == point && hold_ns == ns),
        call_ensures(AgentAction::long_press_rect_at, (rect, x_bp, y_bp, ns), a) ==> (
        a matches AgentAction::LongPressRectAt { rect: p, x_bp: q, y_bp: n, hold_ns } && p == rect
            && q == x_bp && n == y_bp && hold_ns == ns),
        call_ensures(AgentAction::long_press_rect, (rect, ns), a) ==> (
        a matches AgentAction::LongPressRectAt { rect: p, x_bp: q, y_bp: n, hold_ns } && p == rect
            && 2 * q == BASIS_POINTS && 2 * n == BASIS_POINTS && hold_ns == ns),
        call_ensures(AgentAction::scroll_rect, (rect, h, v), a) ==> (
        a matches AgentAction::ScrollRect { rect: p, hscroll, vscroll } && p == rect && hscroll == h
            && vscroll == v),
        call_ensures(AgentAction::wait, (ns,), a) ==> (a matches AgentAction::Wait { duration_ns }
            && duration_ns == ns),
{
}

/// Frames that are put into a plan as a batch: as many as a command carries are taken,
/// in order, and make an action of as many frames without a fault; more are refused.
pub proof fn lemma_batches_enter_plan(
    touches: &[AgentTouchFrame],
    wheel: &[AgentScrollFrame],
    keys: &[KeyboardFrame],
    events: &[AndroidKeyFrame],
    motions: &[MouseFrame],
    r: Result<AgentAction>,
)
    ensures
        call_ensures(AgentAction::try_touch_frames, (touches,), r) ==> (r is Ok <==> touches@.len()
            <= 24) && (r matches Ok(a) ==> a.fault() is None && a.frames() == touches@.len()
            && (a matches AgentAction::TouchFramesFixed { frames, .. } && frames@.take(
            touches@.len() as int,
        ) == touches@)),
        call_ensures(AgentAction::try_scroll_batch, (wheel,), r) ==> (r is Ok <==> wheel@.len()
            <= 32) && (r matches Ok(a) ==> a.fault() is None && a.frames() == wheel@.len()
            && (a matches AgentAction::ScrollBatchFixed { frames, .. } && frames@.take(
            wheel@.len() as int,
        ) == wheel@)),
        call_ensures(AgentAction::try_key_batch, (keys,), r) ==> (r is Ok <==> keys@.len() <= 32)
            && (r matches Ok(a) ==> a.fault() is None && a.frames() == keys@.len()
            && (a matches AgentAction::KeyBatchFixed { frames, .. } && frames@.take(
            keys@.len() as int,
        ) == keys@)),
        call_ensures(AgentAction::try_android_key_batch, (events,), r) ==> (r is Ok
            <==> events@.len() <= 32) && (r matches Ok(a) ==> a.fault() is None && a.frames()
            == events@.len() && (a matches AgentAction::AndroidKeyBatchFixed { frames, .. }
            && frames@.take(events@.len() as int) == events@)),
        call_ensures(AgentAction::try_mouse_batch, (motions,), r) ==> (r is Ok <==> motions@.len()
            <= 32) && (r matches Ok(a) ==> a.fault() is None && a.frames() == motions@.len()
            && (a matches AgentAction::MouseBatchFixed { frames, .. } && frames@.take(
            motions@.len() as int,
        ) == motions@)),
{
    if call_ensures(AgentAction::try_touch_frames, (touches,), r) && r is Ok {
        if let AgentAction::TouchFramesFixed { frames, .. } = r->Ok_0 {
            assert(frames@.take(touches@.len() as int) =~= touches@);
        }
    }
    if call_ensures(AgentAction::try_scroll_batch, (wheel,), r) && r is Ok {
        if let AgentAction::ScrollBatchFixed { frames, .. } = r->Ok_0 {
            assert(frames@.take(wheel@.len() as int) =~= wheel@);
        }
    }
    if call_ensures(AgentAction::try_key_batch, (keys,), r) && r is Ok {
        if let AgentAction::KeyBatchFixed { frames, .. } = r->Ok_0 {
            assert(frames@.take(keys@.len() as int) =~= keys@);
        }
    }
    if call_ensures(AgentAction::try_android_key_batch, (events,), r) && r is Ok {
        if let AgentAction::AndroidKeyBatchFixed { frames, .. } = r->Ok_0 {
            assert(frames@.take(events@.len() as int) =~= events@);
        }
    }
    if call_ensures(AgentAction::try_mouse_batch, (motions,), r) && r is Ok {
        if let AgentAction::MouseBatchFixed { frames, .. } = r->Ok_0 {
            assert(frames@.take(motions@.len() as int) =~= motions@);
        }
    }
}

/// The same of gamepad frames, checked, unchecked or packed.
pub proof fn lemma_gamepad_batches_enter_plan(
    frames: &[GamepadFrameRaw],
    packed: &[[u8; GAMEPAD_FRAME_BYTES]],
    r: Result<AgentAction>,
)
    ensures
        call_ensures(AgentAction::try_gamepad_frame_batch, (frames,), r) ==> (r is Ok
            <==> frames@.len() <= 32) && (r matches Ok(a) ==> a.fault() is None && a.frames()
            == frames@.len() && (a matches AgentAction::GamepadFrameBatchFixed { frames: slots, .. }
            && slots@.take(frames@.len() as int) == frames@)),
        call_ensures(AgentAction::try_gamepad_frame_batch_unchecked, (frames,), r) ==> (r is Ok
            <==> frames@.len() <= 32) && (r matches Ok(a) ==> a.fault() is None && a.frames()
            == frames@.len() && (a matches AgentAction::GamepadFrameBatchFixedUnchecked {
            frames: slots,
            ..
        } && slots@.take(frames@.len() as int) == frames@)),
        call_ensures(AgentAction::try_gamepad_packed_frame_batch, (packed,), r) ==> (r is Ok
            <==> packed@.len() <= 32) && (r matches Ok(a) ==> a.fault() is None && a.frames()
            == packed@.len() && (a matches AgentAction::GamepadPackedFrameBatchFixed {
            frames: slots,
            ..
        } && slots@.take(packed@.len() as int) == packed@)),
{
    if call_ensures(AgentAction::try_gamepad_frame_batch, (frames,), r) && r is Ok {
        if let AgentAction::GamepadFrameBatchFixed { frames: slots, .. } = r->Ok_0 {
            assert(slots@.take(frames@.len() as int) =~= frames@);
        }
    }
    if call_ensures(AgentAction::try_gamepad_frame_batch_unchecked, (frames,), r) && r is Ok {
        if let AgentAction::GamepadFrameBatchFixedUnchecked { frames: slots, .. } = r->Ok_0 {
            assert(slots@.take(frames@.len() as int) =~= frames@);
        }
    }
    if call_ensures(AgentAction::try_gamepad_packed_frame_batch, (packed,), r) && r is Ok {
        if let AgentAction::GamepadPackedFrameBatchFixed { frames: slots, .. } = r->Ok_0 {
            assert(slots@.take(packed@.len() as int) =~= packed@);
        }
    }
}

/// Splitting a plan at a prefix gives the accepted actions and the rest, and nothing for
/// a plan of another length.
pub proof fn lemma_split_gives_both_parts<'a>(
    p: &AgentPlanBoundedPrefix,
    actions: &'a [AgentAction],
    r: Option<(&'a [AgentAction], &'a [AgentAction])>,
)
    requires
        p.valid(),
        call_ensures(AgentPlanBoundedPrefix::split_slice, (p, actions), r),
    ensures
        r is Some <==> actions@.len() == p.action_count,
        r matches Some((a, b)) ==> a@ + b@ == actions@ && a@.len() == p.accepted_actions,
{
    if actions@.len() == p.action_count {
        let k = p.accepted_actions as int;
        assert(actions@.take(k) + actions@.skip(k) =~= actions@);
    }
}

/// Actions made of frames hold them as they are.
pub proof fn lemma_frame_actions_by_name(
    len: usize,
    touches: [AgentTouchFrame; TOUCH_BATCH_FRAMES],
    keys: [KeyboardFrame; KEYBOARD_BATCH_FRAMES],
    slots: [GamepadFrameRaw; GAMEPAD_BATCH_FRAMES],
    packed_slots: [[u8; GAMEPAD_FRAME_BYTES]; GAMEPAD_BATCH_FRAMES],
    chord: KeyboardChordFrame,
    frame: GamepadFrameRaw,
    packed_frame: [u8; GAMEPAD_FRAME_BYTES],
    a: AgentAction,
)
    ensures
        call_ensures(AgentAction::touch_frames_fixed, (len, touches), a) ==> (
        a matches AgentAction::TouchFramesFixed { len: n, frames } && n == len && frames == touches),
        call_ensures(AgentAction::key_batch_fixed, (len, keys), a) ==> (
        a matches AgentAction::KeyBatchFixed { len: n, frames } && n == len && frames == keys),
        call_ensures(AgentAction::gamepad_frame_batch_fixed, (len, slots), a) ==> (
        a matches AgentAction::GamepadFrameBatchFixed { len: n, frames } && n == len && frames
            == slots),
        call_ensures(AgentAction::gamepad_packed_frame_batch_fixed, (len, packed_slots), a) ==> (
        a matches AgentAction::GamepadPackedFrameBatchFixed { len: n, frames } && n == len && frames
            == packed_slots),
        call_ensures(AgentAction::keyboard_chord_fixed, (chord,), a) ==> (
        a matches AgentAction::KeyboardChordFixed(k) && k == chord),
        call_ensures(AgentAction::gamepad_frame, (frame,), a) ==> (
        a matches AgentAction::GamepadFrame(f) && f == frame),
        call_ensures(AgentAction::gamepad_frame_unchecked, (frame,), a) ==> (
        a matches AgentAction::GamepadFrameUnchecked(f) && f == frame),
        call_ensures(AgentAction::gamepad_packed_frame, (packed_frame,), a) ==> (
        a matches AgentAction::GamepadPackedFrame(f) && f == packed_frame),
{
}

/// A chord over named keys enters a plan with their codes in order, and is refused where
/// it names too many keys or a modifier.
pub proof fn lemma_named_chord_enters_plan(
    scancodes: &[Scancode],
    mods: Modifiers,
    r: Result<AgentAction>,
    i: int,
)
    requires
        call_ensures(AgentAction::try_scancode_chord, (scancodes, mods), r),
    ensures
        r is Ok <==> scancodes@.len() <= 6 && !names_modifier(scancodes@),
        r matches Ok(a) ==> (a matches AgentAction::KeyboardChordFixed(chord) && chord.len
            == scancodes@.len() && chord.mods == mods && (0 <= i < scancodes@.len()
            ==> chord.keys@[i] == scancodes@[i].code())),
{
}

/// Why frames do not enter a plan: by the kind of which there are too many.
pub proof fn lemma_batch_refusals_are_named(
    touches: &[AgentTouchFrame],
    wheel: &[AgentScrollFrame],
    keys: &[KeyboardFrame],
    events: &[AndroidKeyFrame],
    motions: &[MouseFrame],
    frames: &[GamepadFrameRaw],
    packed: &[[u8; GAMEPAD_FRAME_BYTES]],
    r: Result<AgentAction>,
)
    requires
        r is Err,
    ensures
        call_ensures(AgentAction::try_touch_frames, (touches,), r) ==> r->Err_0
            == Error::SessionLifecycle("touch frame batch too large"),
        call_ensures(AgentAction::try_scroll_batch, (wheel,), r) ==> r->Err_0
            == Error::SessionLifecycle("scroll batch too large"),
        call_ensures(AgentAction::try_key_batch, (keys,), r) ==> r->Err_0
            == Error::SessionLifecycle("keyboard batch too large"),
        call_ensures(AgentAction::try_android_key_batch, (events,), r) ==> r->Err_0
            == Error::SessionLifecycle("android key batch too large"),
        call_ensures(AgentAction::try_mouse_batch, (motions,), r) ==> r->Err_0
            == Error::SessionLifecycle("mouse batch too large"),
        call_ensures(AgentAction::try_gamepad_frame_batch, (frames,), r) || call_ensures(
            AgentAction::try_gamepad_frame_batch_unchecked,
            (frames,),
            r,
        ) ==> r->Err_0 == Error::SessionLifecycle("gamepad frame batch too large"),
        call_ensures(AgentAction::try_gamepad_packed_frame_batch, (packed,), r) ==> r->Err_0
            == Error::SessionLifecycle("gamepad packed frame batch too large"),
{
}

/// What a bounded prefix tells of itself: the plan's length, the bound, and the commands
/// that the accepted actions take. Without any room the run of a prefix stops at once,
/// for want of the one command of its flush.
pub proof fn lemma_bounded_prefixes_tell(
    actions: &[AgentAction],
    bound: usize,
    queued: AgentPlanBoundedPrefix,
    run: AgentPlanBoundedPrefix,
)
    requires
        call_ensures(AgentAction::bounded_try_queue_prefix, (actions, bound), queued),
        call_ensures(AgentAction::bounded_try_run_prefix, (actions, bound), run),
    ensures
        queued.action_count == actions@.len() && run.action_count == actions@.len(),
        queued.command_bound == bound && run.command_bound == bound,
        queued.accepted_actions == 0 ==> queued.estimated_dispatch_commands == 0,
        queued.stop is EndOfPlan <==> queued.accepted_actions == actions@.len(),
        bound > 0 ==> (run.stop is EndOfPlan <==> run.accepted_actions == actions@.len()),
        bound == 0 ==> run.stop == (AgentPlanBoundedPrefixStop::CommandBound {
            index: 0,
            required_dispatch_commands: 1,
        }) && run.accepted_actions == 0 && run.estimated_dispatch_commands == 0,
{
    assert(actions@.take(0) =~= Seq::<AgentAction>::empty());
}

} // verus!
