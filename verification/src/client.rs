//! The command queue between callers and the dispatcher.
//!
//! A client appends commands in the order of its calls. A plain send is taken
//! as long as the dispatcher is there; a `try_` send is also refused while the
//! queue holds as many commands as its bound allows. Commands past the bound
//! belong to callers of plain sends that may not go on yet: `blocked_send` tells
//! when they may.
use std::collections::VecDeque;
use vstd::prelude::*;

use crate::command::HidCommand;
use crate::error::{Error, Result};
use crate::frames::{
    names_chord, names_modifier, AndroidKeyFrame, KeyboardChordFrame, KeyboardFrame, MouseFrame,
    ScrollFrame, TouchFrame,
    ANDROID_KEY_BATCH_FRAMES, GAMEPAD_BATCH_FRAMES, KEYBOARD_BATCH_FRAMES, KEYBOARD_CHORD_KEYS,
    MOUSE_BATCH_FRAMES, SCROLL_BATCH_FRAMES, TOUCH_BATCH_FRAMES,
};
use crate::gamepad::{GamepadFrameRaw, GAMEPAD_FRAME_BYTES};
use crate::types::{
    AndroidKeyAction, AndroidKeycode, ClipboardCopyKey, GamepadAxis, GamepadButton, Modifiers,
    MouseButton, Scancode, TouchPointerId,
};

verus! {

/// Queue bound of a default client.
pub const DEFAULT_CHANNEL_BOUND: usize = 4096;

/// What a client has queued and may still queue.
#[verifier::ext_equal]
pub struct ClientView {
    /// Commands that the dispatcher has not taken yet, oldest first.
    pub queue: Seq<HidCommand>,
    pub bound: nat,
    /// Whether the dispatcher is there.
    pub connected: bool,
    /// Whether the dispatcher waits for a command.
    pub waiting: bool,
    /// Ticket of the next acknowledged flush.
    pub next_ticket: u64,
}

impl ClientView {
    /// How many commands the queue takes from bounded sends. A queue of bound
    /// zero holds nothing, but hands one command over to a waiting dispatcher.
    pub open spec fn capacity(self) -> nat {
        if self.bound == 0 && self.waiting {
            1
        } else {
            self.bound
        }
    }

    /// What the caller of a plain send learns of it: nothing while commands past
    /// the bound wait for their place.
    pub open spec fn blocked_send(self) -> Option<Result<()>> {
        if self.queue.len() <= self.bound {
            Some(Ok(()))
        } else if self.connected {
            None
        } else {
            Some(Err(Error::DispatcherDown("channel disconnected")))
        }
    }

    /// With `cmd` queued.
    pub open spec fn queued(self, cmd: HidCommand) -> ClientView {
        ClientView { queue: self.queue.push(cmd), ..self }
    }

    /// What a plain send returns.
    pub open spec fn send_result(self) -> Result<()> {
        if self.connected {
            Ok(())
        } else {
            Err(Error::DispatcherDown("channel disconnected"))
        }
    }

    /// The client after a plain send.
    pub open spec fn after_send(self, cmd: HidCommand) -> ClientView {
        if self.connected {
            self.queued(cmd)
        } else {
            self
        }
    }

    /// What a bounded send returns.
    pub open spec fn try_send_result(self) -> Result<()> {
        if !self.connected {
            Err(Error::DispatcherDown("channel disconnected"))
        } else if self.queue.len() >= self.capacity() {
            Err(Error::SessionLifecycle("channel full (back-pressure)"))
        } else {
            Ok(())
        }
    }

    /// The client after a bounded send.
    pub open spec fn after_try_send(self, cmd: HidCommand) -> ClientView {
        if self.connected && self.queue.len() < self.capacity() {
            self.queued(cmd)
        } else {
            self
        }
    }

    /// What a send of either kind returns.
    pub open spec fn admission(self, blocking: bool) -> Result<()> {
        if blocking {
            self.send_result()
        } else {
            self.try_send_result()
        }
    }

    /// Whether the last `sent` commands of the queue can have been admitted one
    /// after the other.
    pub open spec fn admitted(self, sent: nat, blocking: bool) -> bool {
        sent > 0 ==> self.connected && (blocking || self.queue.len() <= self.capacity())
    }

    /// With an acknowledged flush queued under the next ticket.
    pub open spec fn flush_queued(self) -> ClientView {
        ClientView {
            queue: self.queue.push(HidCommand::FlushAck { ticket: self.next_ticket }),
            next_ticket: if self.next_ticket == u64::MAX {
                0
            } else {
                (self.next_ticket + 1) as u64
            },
            ..self
        }
    }
}

/// The client of a dispatcher.
pub struct HidClient {
    queue: VecDeque<HidCommand>,
    bound: usize,
    connected: bool,
    waiting: bool,
    next_ticket: u64,
}

impl View for HidClient {
    type V = ClientView;

    closed spec fn view(&self) -> ClientView {
        ClientView {
            queue: self.queue@,
            bound: self.bound as nat,
            connected: self.connected,
            waiting: self.waiting,
            next_ticket: self.next_ticket,
        }
    }
}

/// A command and an acknowledged flush behind it have been queued; the flush's
/// ticket comes back.
pub open spec fn sent_then_flushed(
    cmd: HidCommand,
    old: ClientView,
    new: ClientView,
    r: Result<u64>,
) -> bool {
    if old.connected {
        &&& r == Ok::<u64, Error>(old.next_ticket)
        &&& new == old.queued(cmd).flush_queued()
    } else {
        &&& r == Err::<u64, Error>(Error::DispatcherDown("channel disconnected"))
        &&& new == old
    }
}

/// A chord over named keys has been queued, or refused.
pub open spec fn scancode_chord_sent(
    scancodes: Seq<Scancode>,
    mods: Modifiers,
    admission: Result<()>,
    old: ClientView,
    new: ClientView,
    r: Result<()>,
) -> bool {
    if scancodes.len() > KEYBOARD_CHORD_KEYS {
        &&& r == Err::<(), Error>(Error::SessionLifecycle("keyboard chord too large"))
        &&& new == old
    } else if names_modifier(scancodes) {
        &&& r == Err::<(), Error>(
            Error::SessionLifecycle("keyboard chord keys must be non-modifier scancodes"),
        )
        &&& new == old
    } else if scancodes.len() == 0 {
        r == Ok::<(), Error>(()) && new == old
    } else {
        &&& r == admission
        &&& match r {
            Ok(_) => exists|chord: KeyboardChordFrame|
                names_chord(scancodes, mods, chord) && #[trigger] chord_queued(chord, old, new),
            Err(_) => new == old,
        }
    }
}

/// Outcome of an acknowledged flush: the dispatcher's reply, or an error where
/// the dispatcher went away without one.
pub fn flush_outcome(reply: Option<Result<usize>>) -> (r: Result<usize>)
    ensures
        r == match reply {
            Some(result) => result,
            None => Err(Error::DispatcherDown("flush acknowledgement dropped")),
        },
{
    match reply {
        Some(result) => result,
        None => Err(Error::DispatcherDown("flush acknowledgement dropped")),
    }
}

/// The command for the first `len` of `frames`: one frame goes out by itself.
pub open spec fn mouse_batch(len: int, frames: [MouseFrame; MOUSE_BATCH_FRAMES]) -> HidCommand {
    if len == 1 {
        HidCommand::MouseMotion {
            dx: frames@[0].dx,
            dy: frames@[0].dy,
            buttons: frames@[0].buttons,
        }
    } else {
        HidCommand::MouseBatchFixed { len: len as u8, frames }
    }
}

/// The command for the first `len` of `frames`: one frame goes out by itself.
pub open spec fn key_batch(len: int, frames: [KeyboardFrame; KEYBOARD_BATCH_FRAMES]) -> HidCommand {
    if len == 1 {
        HidCommand::Key {
            scancode: frames@[0].scancode,
            pressed: frames@[0].pressed,
            mods: frames@[0].mods,
        }
    } else {
        HidCommand::KeyBatchFixed { len: len as u8, frames }
    }
}

/// The command for the first `len` of `frames`: one frame goes out by itself.
pub open spec fn android_key_batch(
    len: int,
    frames: [AndroidKeyFrame; ANDROID_KEY_BATCH_FRAMES],
) -> HidCommand {
    if len == 1 {
        HidCommand::InjectKeycode {
            action: frames@[0].action,
            keycode: frames@[0].keycode,
            repeat: frames@[0].repeat,
            metastate: frames@[0].metastate,
        }
    } else {
        HidCommand::AndroidKeyBatchFixed { len: len as u8, frames }
    }
}

/// The command for the first `len` of `frames`: one frame goes out by itself.
pub open spec fn scroll_batch(len: int, frames: [ScrollFrame; SCROLL_BATCH_FRAMES]) -> HidCommand {
    if len == 1 {
        HidCommand::InjectScroll {
            x: frames@[0].x,
            y: frames@[0].y,
            hscroll: frames@[0].hscroll,
            vscroll: frames@[0].vscroll,
            buttons: frames@[0].buttons,
        }
    } else {
        HidCommand::InjectScrollBatchFixed { len: len as u8, frames }
    }
}

/// The command of one gamepad frame.
pub open spec fn frame_command(frame: GamepadFrameRaw, dedupe: bool) -> HidCommand {
    if dedupe {
        HidCommand::GamepadFrameRaw {
            buttons: frame.buttons,
            left_x: frame.left_x,
            left_y: frame.left_y,
            right_x: frame.right_x,
            right_y: frame.right_y,
            left_trigger: frame.left_trigger,
            right_trigger: frame.right_trigger,
        }
    } else {
        HidCommand::GamepadFrameRawUnchecked(frame)
    }
}

/// The command for the first `len` of `frames`.
pub open spec fn frame_batch(
    len: int,
    frames: [GamepadFrameRaw; GAMEPAD_BATCH_FRAMES],
    dedupe: bool,
) -> HidCommand {
    if len == 1 {
        frame_command(frames@[0], dedupe)
    } else if dedupe {
        HidCommand::GamepadFrameRawBatchFixed { len: len as u8, frames }
    } else {
        HidCommand::GamepadFrameRawBatchFixedUnchecked { len: len as u8, frames }
    }
}

/// The command for all of `frames`.
pub open spec fn frame_batch_owned(frames: Vec<GamepadFrameRaw>, dedupe: bool) -> HidCommand {
    if frames@.len() == 1 {
        frame_command(frames@[0], dedupe)
    } else if dedupe {
        HidCommand::GamepadFrameRawBatch(frames)
    } else {
        HidCommand::GamepadFrameRawBatchUnchecked(frames)
    }
}

/// The command for the first `len` of `frames`.
pub open spec fn packed_batch(
    len: int,
    frames: [[u8; GAMEPAD_FRAME_BYTES]; GAMEPAD_BATCH_FRAMES],
) -> HidCommand {
    if len == 1 {
        HidCommand::GamepadPackedFrame(frames@[0])
    } else {
        HidCommand::GamepadPackedFrameBatchFixed { len: len as u8, frames }
    }
}

/// The command for all of `frames`.
pub open spec fn packed_batch_owned(frames: Vec<[u8; GAMEPAD_FRAME_BYTES]>) -> HidCommand {
    if frames@.len() == 1 {
        HidCommand::GamepadPackedFrame(frames@[0])
    } else {
        HidCommand::GamepadPackedFrameBatch(frames)
    }
}

impl HidClient {
    /// A client with the default bound.
    pub fn new() -> (c: HidClient)
        ensures
            c@ == (ClientView {
                queue: Seq::empty(),
                bound: DEFAULT_CHANNEL_BOUND as nat,
                connected: true,
                waiting: false,
                next_ticket: 0,
            }),
    {
        HidClient::with_bound(DEFAULT_CHANNEL_BOUND)
    }

    /// A client whose bounded sends see room for `bound` commands.
    pub fn with_bound(bound: usize) -> (c: HidClient)
        ensures
            c@ == (ClientView {
                queue: Seq::empty(),
                bound: bound as nat,
                connected: true,
                waiting: false,
                next_ticket: 0,
            }),
    {
        HidClient {
            queue: VecDeque::new(),
            bound,
            connected: true,
            waiting: false,
            next_ticket: 0,
        }
    }

    fn capacity(&self) -> (n: usize)
        ensures
            n == self@.capacity(),
    {
        if self.bound == 0 && self.waiting {
            1
        } else {
            self.bound
        }
    }

    /// Commands waiting for the dispatcher.
    pub fn queued(&self) -> (n: usize)
        ensures
            n == self@.queue.len(),
    {
        self.queue.len()
    }

    /// Whether a bounded send would be taken now.
    pub fn has_room(&self) -> (r: bool)
        ensures
            r == (self@.try_send_result() is Ok),
    {
        self.connected && self.queue.len() < self.capacity()
    }

    /// Whether the caller of a plain send may go on, and with which result;
    /// `None` while it has to wait.
    pub fn blocked_send(&self) -> (r: Option<Result<()>>)
        ensures
            r == self@.blocked_send(),
    {
        if self.queue.len() <= self.bound {
            Some(Ok(()))
        } else if self.connected {
            None
        } else {
            Some(Err(Error::DispatcherDown("channel disconnected")))
        }
    }

    /// Records that the dispatcher waits for a command.
    pub fn await_command(&mut self)
        ensures
            final(self)@ == (ClientView { waiting: true, ..old(self)@ }),
    {
        self.waiting = true;
    }

    /// Whether the dispatcher is there.
    pub fn is_connected(&self) -> (r: bool)
        ensures
            r == self@.connected,
    {
        self.connected
    }

    /// Hands the oldest command to the dispatcher, which then no longer waits.
    pub fn take_command(&mut self) -> (r: Option<HidCommand>)
        ensures
            old(self)@.queue.len() == 0 ==> r is None && final(self)@ == old(self)@,
            old(self)@.queue.len() > 0 ==> r == Some(old(self)@.queue[0]) && final(self)@ == (
            ClientView { queue: old(self)@.queue.drop_first(), waiting: false, ..old(self)@ }),
    {
        let r = self.queue.pop_front();
        if r.is_some() {
            self.waiting = false;
        }
        proof {
            if old(self)@.queue.len() > 0 {
                assert(self@.queue =~= old(self)@.queue.drop_first());
            } else {
                assert(self@.queue =~= old(self)@.queue);
            }
        }
        r
    }

    /// Records that the dispatcher is gone: every later send fails.
    pub fn disconnect(&mut self)
        ensures
            final(self)@ == (ClientView { connected: false, ..old(self)@ }),
    {
        self.connected = false;
    }

    /// Queues a command, if need be past the bound: the caller goes on when
    /// `blocked_send` lets it.
    pub fn send(&mut self, cmd: HidCommand) -> (r: Result<()>)
        ensures
            r == old(self)@.send_result(),
            final(self)@ == old(self)@.after_send(cmd),
    {
        if !self.connected {
            return Err(Error::DispatcherDown("channel disconnected"));
        }
        self.queue.push_back(cmd);
        Ok(())
    }

    /// Queues a command if the bound leaves room.
    pub fn try_send(&mut self, cmd: HidCommand) -> (r: Result<()>)
        ensures
            r == old(self)@.try_send_result(),
            final(self)@ == old(self)@.after_try_send(cmd),
    {
        if !self.connected {
            return Err(Error::DispatcherDown("channel disconnected"));
        }
        if self.queue.len() >= self.capacity() {
            return Err(Error::SessionLifecycle("channel full (back-pressure)"));
        }
        self.queue.push_back(cmd);
        Ok(())
    }

    /// Queues a command by a send of either kind.
    pub(crate) fn send_with(&mut self, cmd: HidCommand, blocking: bool) -> (r: Result<()>)
        ensures
            r == old(self)@.admission(blocking),
            r is Ok ==> final(self)@ == old(self)@.queued(cmd),
            r is Err ==> final(self)@ == old(self)@,
    {
        if blocking {
            self.send(cmd)
        } else {
            self.try_send(cmd)
        }
    }

    /// What a send of either kind would return now.
    pub(crate) fn admission(&self, blocking: bool) -> (r: Result<()>)
        ensures
            r == self@.admission(blocking),
    {
        if !self.connected {
            return Err(Error::DispatcherDown("channel disconnected"));
        }
        if !blocking && self.queue.len() >= self.capacity() {
            return Err(Error::SessionLifecycle("channel full (back-pressure)"));
        }
        Ok(())
    }

    /// Moves the mouse with the given buttons held.
    pub fn mouse_motion(&mut self, dx: i32, dy: i32, buttons: u8) -> (r: Result<()>)
        ensures
            r == old(self)@.send_result(),
            final(self)@ == old(self)@.after_send(HidCommand::MouseMotion { dx, dy, buttons }),
    {
        self.send(HidCommand::MouseMotion { dx, dy, buttons })
    }

    /// Moves the mouse with the given buttons held, if the bound leaves room.
    pub fn try_mouse_motion(&mut self, dx: i32, dy: i32, buttons: u8) -> (r: Result<()>)
        ensures
            r == old(self)@.try_send_result(),
            final(self)@ == old(self)@.after_try_send(HidCommand::MouseMotion { dx, dy, buttons }),
    {
        self.try_send(HidCommand::MouseMotion { dx, dy, buttons })
    }

    /// Moves the mouse with exactly the listed buttons held.
    pub fn mouse_motion_buttons(
        &mut self,
        dx: i32,
        dy: i32,
        buttons: &[MouseButton],
    ) -> (r: Result<()>)
        ensures
            r == old(self)@.send_result(),
            final(self)@ == old(self)@.after_send(
                HidCommand::MouseMotion { dx, dy, buttons: MouseButton::held(buttons@) },
            ),
    {
        self.send(HidCommand::MouseMotion { dx, dy, buttons: MouseButton::state(buttons) })
    }

    /// Moves the mouse with exactly the listed buttons held, if the bound leaves room.
    pub fn try_mouse_motion_buttons(
        &mut self,
        dx: i32,
        dy: i32,
        buttons: &[MouseButton],
    ) -> (r: Result<()>)
        ensures
            r == old(self)@.try_send_result(),
            final(self)@ == old(self)@.after_try_send(
                HidCommand::MouseMotion { dx, dy, buttons: MouseButton::held(buttons@) },
            ),
    {
        self.try_send(HidCommand::MouseMotion { dx, dy, buttons: MouseButton::state(buttons) })
    }

    /// Sets the mouse buttons.
    pub fn mouse_buttons(&mut self, buttons: u8) -> (r: Result<()>)
        ensures
            r == old(self)@.send_result(),
            final(self)@ == old(self)@.after_send(HidCommand::MouseButtons { buttons }),
    {
        self.send(HidCommand::MouseButtons { buttons })
    }

    /// Sets the mouse buttons, if the bound leaves room.
    pub fn try_mouse_buttons(&mut self, buttons: u8) -> (r: Result<()>)
        ensures
            r == old(self)@.try_send_result(),
            final(self)@ == old(self)@.after_try_send(HidCommand::MouseButtons { buttons }),
    {
        self.try_send(HidCommand::MouseButtons { buttons })
    }

    /// Holds exactly the listed mouse buttons.
    pub fn mouse_button_state(&mut self, buttons: &[MouseButton]) -> (r: Result<()>)
        ensures
            r == old(self)@.send_result(),
            final(self)@ == old(self)@.after_send(
                HidCommand::MouseButtons { buttons: MouseButton::held(buttons@) },
            ),
    {
        self.send(HidCommand::MouseButtons { buttons: MouseButton::state(buttons) })
    }

    /// Holds exactly the listed mouse buttons, if the bound leaves room.
    pub fn try_mouse_button_state(&mut self, buttons: &[MouseButton]) -> (r: Result<()>)
        ensures
            r == old(self)@.try_send_result(),
            final(self)@ == old(self)@.after_try_send(
                HidCommand::MouseButtons { buttons: MouseButton::held(buttons@) },
            ),
    {
        self.try_send(HidCommand::MouseButtons { buttons: MouseButton::state(buttons) })
    }

    /// Turns the mouse wheels; the deltas are single-precision bit patterns.
    pub fn mouse_scroll(&mut self, hscroll: u32, vscroll: u32) -> (r: Result<()>)
        ensures
            r == old(self)@.send_result(),
            final(self)@ == old(self)@.after_send(HidCommand::MouseScroll { hscroll, vscroll }),
    {
        self.send(HidCommand::MouseScroll { hscroll, vscroll })
    }

    /// Turns the mouse wheels, if the bound leaves room; the deltas are
    /// single-precision bit patterns.
    pub fn try_mouse_scroll(&mut self, hscroll: u32, vscroll: u32) -> (r: Result<()>)
        ensures
            r == old(self)@.try_send_result(),
            final(self)@ == old(self)@.after_try_send(HidCommand::MouseScroll { hscroll, vscroll }),
    {
        self.try_send(HidCommand::MouseScroll { hscroll, vscroll })
    }

    pub fn send_button(&mut self, btn: GamepadButton, pressed: bool) -> (r: Result<()>)
        ensures
            r == old(self)@.send_result(),
            final(self)@ == old(self)@.after_send(HidCommand::GamepadButton { btn, pressed }),
    {
        self.send(HidCommand::GamepadButton { btn, pressed })
    }

    pub fn try_send_button(&mut self, btn: GamepadButton, pressed: bool) -> (r: Result<()>)
        ensures
            r == old(self)@.try_send_result(),
            final(self)@ == old(self)@.after_try_send(HidCommand::GamepadButton { btn, pressed }),
    {
        self.try_send(HidCommand::GamepadButton { btn, pressed })
    }

    pub fn send_buttons(&mut self, buttons: u32) -> (r: Result<()>)
        ensures
            r == old(self)@.send_result(),
            final(self)@ == old(self)@.after_send(HidCommand::GamepadButtons { buttons }),
    {
        self.send(HidCommand::GamepadButtons { buttons })
    }

    pub fn try_send_buttons(&mut self, buttons: u32) -> (r: Result<()>)
        ensures
            r == old(self)@.try_send_result(),
            final(self)@ == old(self)@.after_try_send(HidCommand::GamepadButtons { buttons }),
    {
        self.try_send(HidCommand::GamepadButtons { buttons })
    }

    /// Moves an axis; the value is a single-precision bit pattern.
    pub fn send_stick(&mut self, axis: GamepadAxis, value: u32) -> (r: Result<()>)
        ensures
            r == old(self)@.send_result(),
            final(self)@ == old(self)@.after_send(HidCommand::GamepadStick { axis, value }),
    {
        self.send(HidCommand::GamepadStick { axis, value })
    }

    /// Moves an axis; the value is a single-precision bit pattern, if the bound leaves room.
    pub fn try_send_stick(&mut self, axis: GamepadAxis, value: u32) -> (r: Result<()>)
        ensures
            r == old(self)@.try_send_result(),
            final(self)@ == old(self)@.after_try_send(HidCommand::GamepadStick { axis, value }),
    {
        self.try_send(HidCommand::GamepadStick { axis, value })
    }

    pub fn send_stick_raw(&mut self, axis: GamepadAxis, value: i16) -> (r: Result<()>)
        ensures
            r == old(self)@.send_result(),
            final(self)@ == old(self)@.after_send(HidCommand::GamepadStickRaw { axis, value }),
    {
        self.send(HidCommand::GamepadStickRaw { axis, value })
    }

    pub fn try_send_stick_raw(&mut self, axis: GamepadAxis, value: i16) -> (r: Result<()>)
        ensures
            r == old(self)@.try_send_result(),
            final(self)@ == old(self)@.after_try_send(HidCommand::GamepadStickRaw { axis, value }),
    {
        self.try_send(HidCommand::GamepadStickRaw { axis, value })
    }

    pub fn send_left_stick_raw(&mut self, x: i16, y: i16) -> (r: Result<()>)
        ensures
            r == old(self)@.send_result(),
            final(self)@ == old(self)@.after_send(HidCommand::GamepadLeftStickRaw { x, y }),
    {
        self.send(HidCommand::GamepadLeftStickRaw { x, y })
    }

    pub fn try_send_left_stick_raw(&mut self, x: i16, y: i16) -> (r: Result<()>)
        ensures
            r == old(self)@.try_send_result(),
            final(self)@ == old(self)@.after_try_send(HidCommand::GamepadLeftStickRaw { x, y }),
    {
        self.try_send(HidCommand::GamepadLeftStickRaw { x, y })
    }

    pub fn send_right_stick_raw(&mut self, x: i16, y: i16) -> (r: Result<()>)
        ensures
            r == old(self)@.send_result(),
            final(self)@ == old(self)@.after_send(HidCommand::GamepadRightStickRaw { x, y }),
    {
        self.send(HidCommand::GamepadRightStickRaw { x, y })
    }

    pub fn try_send_right_stick_raw(&mut self, x: i16, y: i16) -> (r: Result<()>)
        ensures
            r == old(self)@.try_send_result(),
            final(self)@ == old(self)@.after_try_send(HidCommand::GamepadRightStickRaw { x, y }),
    {
        self.try_send(HidCommand::GamepadRightStickRaw { x, y })
    }

    pub fn send_triggers_raw(&mut self, left: i16, right: i16) -> (r: Result<()>)
        ensures
            r == old(self)@.send_result(),
            final(self)@ == old(self)@.after_send(HidCommand::GamepadTriggersRaw { left, right }),
    {
        self.send(HidCommand::GamepadTriggersRaw { left, right })
    }

    pub fn try_send_triggers_raw(&mut self, left: i16, right: i16) -> (r: Result<()>)
        ensures
            r == old(self)@.try_send_result(),
            final(self)@ == old(self)@.after_try_send(
                HidCommand::GamepadTriggersRaw { left, right },
            ),
    {
        self.try_send(HidCommand::GamepadTriggersRaw { left, right })
    }

    pub fn send_sticks_raw(
        &mut self,
        left_x: i16,
        left_y: i16,
        right_x: i16,
        right_y: i16,
        left_trigger: i16,
        right_trigger: i16,
    ) -> (r: Result<()>)
        ensures
            r == old(self)@.send_result(),
            final(self)@ == old(self)@.after_send(
                HidCommand::GamepadSticksRaw {
                    left_x,
                    left_y,
                    right_x,
                    right_y,
                    left_trigger,
                    right_trigger,
                },
            ),
    {
        self.send(
            HidCommand::GamepadSticksRaw {
                left_x,
                left_y,
                right_x,
                right_y,
                left_trigger,
                right_trigger,
            },
        )
    }

    pub fn try_send_sticks_raw(
        &mut self,
        left_x: i16,
        left_y: i16,
        right_x: i16,
        right_y: i16,
        left_trigger: i16,
        right_trigger: i16,
    ) -> (r: Result<()>)
        ensures
            r == old(self)@.try_send_result(),
            final(self)@ == old(self)@.after_try_send(
                HidCommand::GamepadSticksRaw {
                    left_x,
                    left_y,
                    right_x,
                    right_y,
                    left_trigger,
                    right_trigger,
                },
            ),
    {
        self.try_send(
            HidCommand::GamepadSticksRaw {
                left_x,
                left_y,
                right_x,
                right_y,
                left_trigger,
                right_trigger,
            },
        )
    }

    pub fn type_text(&mut self, text: String) -> (r: Result<()>)
        ensures
            r == old(self)@.send_result(),
            final(self)@ == old(self)@.after_send(HidCommand::TypeText(text)),
    {
        self.send(HidCommand::TypeText(text))
    }

    pub fn type_text_strict(&mut self, text: String) -> (r: Result<()>)
        ensures
            r == old(self)@.send_result(),
            final(self)@ == old(self)@.after_send(HidCommand::TypeTextStrict(text)),
    {
        self.send(HidCommand::TypeTextStrict(text))
    }

    pub fn try_type_text_strict(&mut self, text: String) -> (r: Result<()>)
        ensures
            r == old(self)@.try_send_result(),
            final(self)@ == old(self)@.after_try_send(HidCommand::TypeTextStrict(text)),
    {
        self.try_send(HidCommand::TypeTextStrict(text))
    }

    /// Sends one key edge.
    pub fn key(&mut self, scancode: u8, pressed: bool, mods: Modifiers) -> (r: Result<()>)
        ensures
            r == old(self)@.send_result(),
            final(self)@ == old(self)@.after_send(HidCommand::Key { scancode, pressed, mods }),
    {
        self.send(HidCommand::Key { scancode, pressed, mods })
    }

    /// Sends one key edge, if the bound leaves room.
    pub fn try_key(&mut self, scancode: u8, pressed: bool, mods: Modifiers) -> (r: Result<()>)
        ensures
            r == old(self)@.try_send_result(),
            final(self)@ == old(self)@.after_try_send(HidCommand::Key { scancode, pressed, mods }),
    {
        self.try_send(HidCommand::Key { scancode, pressed, mods })
    }

    pub fn key_scancode(
        &mut self,
        scancode: Scancode,
        pressed: bool,
        mods: Modifiers,
    ) -> (r: Result<()>)
        ensures
            r == old(self)@.send_result(),
            final(self)@ == old(self)@.after_send(
                HidCommand::Key { scancode: scancode.code(), pressed, mods },
            ),
    {
        self.send(HidCommand::Key { scancode: scancode.to_u8(), pressed, mods })
    }

    pub fn try_key_scancode(
        &mut self,
        scancode: Scancode,
        pressed: bool,
        mods: Modifiers,
    ) -> (r: Result<()>)
        ensures
            r == old(self)@.try_send_result(),
            final(self)@ == old(self)@.after_try_send(
                HidCommand::Key { scancode: scancode.code(), pressed, mods },
            ),
    {
        self.try_send(HidCommand::Key { scancode: scancode.to_u8(), pressed, mods })
    }

    pub fn press_key(&mut self, scancode: u8, mods: Modifiers) -> (r: Result<()>)
        ensures
            r == old(self)@.send_result(),
            final(self)@ == old(self)@.after_send(
                HidCommand::Key { scancode, pressed: true, mods },
            ),
    {
        self.send(HidCommand::Key { scancode, pressed: true, mods })
    }

    pub fn release_key(&mut self, scancode: u8, mods: Modifiers) -> (r: Result<()>)
        ensures
            r == old(self)@.send_result(),
            final(self)@ == old(self)@.after_send(
                HidCommand::Key { scancode, pressed: false, mods },
            ),
    {
        self.send(HidCommand::Key { scancode, pressed: false, mods })
    }

    pub fn tap_key(&mut self, scancode: u8, mods: Modifiers) -> (r: Result<()>)
        ensures
            r == old(self)@.send_result(),
            final(self)@ == old(self)@.after_send(HidCommand::KeyTap { scancode, mods }),
    {
        self.send(HidCommand::KeyTap { scancode, mods })
    }

    pub fn try_tap_key(&mut self, scancode: u8, mods: Modifiers) -> (r: Result<()>)
        ensures
            r == old(self)@.try_send_result(),
            final(self)@ == old(self)@.after_try_send(HidCommand::KeyTap { scancode, mods }),
    {
        self.try_send(HidCommand::KeyTap { scancode, mods })
    }

    pub fn tap_scancode(&mut self, scancode: Scancode, mods: Modifiers) -> (r: Result<()>)
        ensures
            r == old(self)@.send_result(),
            final(self)@ == old(self)@.after_send(
                HidCommand::KeyTap { scancode: scancode.code(), mods },
            ),
    {
        self.send(HidCommand::KeyTap { scancode: scancode.to_u8(), mods })
    }

    pub fn try_tap_scancode(&mut self, scancode: Scancode, mods: Modifiers) -> (r: Result<()>)
        ensures
            r == old(self)@.try_send_result(),
            final(self)@ == old(self)@.after_try_send(
                HidCommand::KeyTap { scancode: scancode.code(), mods },
            ),
    {
        self.try_send(HidCommand::KeyTap { scancode: scancode.to_u8(), mods })
    }

    /// Injects an Android key event.
    pub fn inject_keycode(
        &mut self,
        action: u8,
        keycode: u32,
        repeat: u32,
        metastate: u32,
    ) -> (r: Result<()>)
        ensures
            r == old(self)@.send_result(),
            final(self)@ == old(self)@.after_send(
                HidCommand::InjectKeycode { action, keycode, repeat, metastate },
            ),
    {
        self.send(HidCommand::InjectKeycode { action, keycode, repeat, metastate })
    }

    /// Injects an Android key event, if the bound leaves room.
    pub fn try_inject_keycode(
        &mut self,
        action: u8,
        keycode: u32,
        repeat: u32,
        metastate: u32,
    ) -> (r: Result<()>)
        ensures
            r == old(self)@.try_send_result(),
            final(self)@ == old(self)@.after_try_send(
                HidCommand::InjectKeycode { action, keycode, repeat, metastate },
            ),
    {
        self.try_send(HidCommand::InjectKeycode { action, keycode, repeat, metastate })
    }

    pub fn inject_android_keycode(
        &mut self,
        action: u8,
        keycode: AndroidKeycode,
        repeat: u32,
        metastate: u32,
    ) -> (r: Result<()>)
        ensures
            r == old(self)@.send_result(),
            final(self)@ == old(self)@.after_send(
                HidCommand::InjectKeycode { action, keycode: keycode.code(), repeat, metastate },
            ),
    {
        self.send(HidCommand::InjectKeycode { action, keycode: keycode.value(), repeat, metastate })
    }

    pub fn try_inject_android_keycode(
        &mut self,
        action: u8,
        keycode: AndroidKeycode,
        repeat: u32,
        metastate: u32,
    ) -> (r: Result<()>)
        ensures
            r == old(self)@.try_send_result(),
            final(self)@ == old(self)@.after_try_send(
                HidCommand::InjectKeycode { action, keycode: keycode.code(), repeat, metastate },
            ),
    {
        self.try_send(
            HidCommand::InjectKeycode { action, keycode: keycode.value(), repeat, metastate },
        )
    }

    pub fn inject_android_key_event(
        &mut self,
        action: AndroidKeyAction,
        keycode: AndroidKeycode,
        repeat: u32,
        metastate: u32,
    ) -> (r: Result<()>)
        ensures
            r == old(self)@.send_result(),
            final(self)@ == old(self)@.after_send(
                HidCommand::InjectKeycode {
                    action: action.code(),
                    keycode: keycode.code(),
                    repeat,
                    metastate,
                },
            ),
    {
        self.send(
            HidCommand::InjectKeycode {
                action: action.value(),
                keycode: keycode.value(),
                repeat,
                metastate,
            },
        )
    }

    pub fn try_inject_android_key_event(
        &mut self,
        action: AndroidKeyAction,
        keycode: AndroidKeycode,
        repeat: u32,
        metastate: u32,
    ) -> (r: Result<()>)
        ensures
            r == old(self)@.try_send_result(),
            final(self)@ == old(self)@.after_try_send(
                HidCommand::InjectKeycode {
                    action: action.code(),
                    keycode: keycode.code(),
                    repeat,
                    metastate,
                },
            ),
    {
        self.try_send(
            HidCommand::InjectKeycode {
                action: action.value(),
                keycode: keycode.value(),
                repeat,
                metastate,
            },
        )
    }

    pub fn press_android_key(&mut self, keycode: AndroidKeycode) -> (r: Result<()>)
        ensures
            r == old(self)@.send_result(),
            final(self)@ == old(self)@.after_send(
                HidCommand::InjectKeycode {
                    action: 0,
                    keycode: keycode.code(),
                    repeat: 0,
                    metastate: 0,
                },
            ),
    {
        self.send(
            HidCommand::InjectKeycode {
                action: 0,
                keycode: keycode.value(),
                repeat: 0,
                metastate: 0,
            },
        )
    }

    pub fn try_press_android_key(&mut self, keycode: AndroidKeycode) -> (r: Result<()>)
        ensures
            r == old(self)@.try_send_result(),
            final(self)@ == old(self)@.after_try_send(
                HidCommand::InjectKeycode {
                    action: 0,
                    keycode: keycode.code(),
                    repeat: 0,
                    metastate: 0,
                },
            ),
    {
        self.try_send(
            HidCommand::InjectKeycode {
                action: 0,
                keycode: keycode.value(),
                repeat: 0,
                metastate: 0,
            },
        )
    }

    pub fn release_android_key(&mut self, keycode: AndroidKeycode) -> (r: Result<()>)
        ensures
            r == old(self)@.send_result(),
            final(self)@ == old(self)@.after_send(
                HidCommand::InjectKeycode {
                    action: 1,
                    keycode: keycode.code(),
                    repeat: 0,
                    metastate: 0,
                },
            ),
    {
        self.send(
            HidCommand::InjectKeycode {
                action: 1,
                keycode: keycode.value(),
                repeat: 0,
                metastate: 0,
            },
        )
    }

    pub fn try_release_android_key(&mut self, keycode: AndroidKeycode) -> (r: Result<()>)
        ensures
            r == old(self)@.try_send_result(),
            final(self)@ == old(self)@.after_try_send(
                HidCommand::InjectKeycode {
                    action: 1,
                    keycode: keycode.code(),
                    repeat: 0,
                    metastate: 0,
                },
            ),
    {
        self.try_send(
            HidCommand::InjectKeycode {
                action: 1,
                keycode: keycode.value(),
                repeat: 0,
                metastate: 0,
            },
        )
    }

    pub fn tap_android_keycode(&mut self, keycode: u32, metastate: u32) -> (r: Result<()>)
        ensures
            r == old(self)@.send_result(),
            final(self)@ == old(self)@.after_send(HidCommand::AndroidKeyTap { keycode, metastate }),
    {
        self.send(HidCommand::AndroidKeyTap { keycode, metastate })
    }

    pub fn try_tap_android_keycode(&mut self, keycode: u32, metastate: u32) -> (r: Result<()>)
        ensures
            r == old(self)@.try_send_result(),
            final(self)@ == old(self)@.after_try_send(
                HidCommand::AndroidKeyTap { keycode, metastate },
            ),
    {
        self.try_send(HidCommand::AndroidKeyTap { keycode, metastate })
    }

    pub fn tap_android_key(&mut self, keycode: AndroidKeycode) -> (r: Result<()>)
        ensures
            r == old(self)@.send_result(),
            final(self)@ == old(self)@.after_send(
                HidCommand::AndroidKeyTap { keycode: keycode.code(), metastate: 0 },
            ),
    {
        self.send(HidCommand::AndroidKeyTap { keycode: keycode.value(), metastate: 0 })
    }

    pub fn try_tap_android_key(&mut self, keycode: AndroidKeycode) -> (r: Result<()>)
        ensures
            r == old(self)@.try_send_result(),
            final(self)@ == old(self)@.after_try_send(
                HidCommand::AndroidKeyTap { keycode: keycode.code(), metastate: 0 },
            ),
    {
        self.try_send(HidCommand::AndroidKeyTap { keycode: keycode.value(), metastate: 0 })
    }

    pub fn tap_android_key_with_metastate(
        &mut self,
        keycode: AndroidKeycode,
        metastate: u32,
    ) -> (r: Result<()>)
        ensures
            r == old(self)@.send_result(),
            final(self)@ == old(self)@.after_send(
                HidCommand::AndroidKeyTap { keycode: keycode.code(), metastate },
            ),
    {
        self.send(HidCommand::AndroidKeyTap { keycode: keycode.value(), metastate })
    }

    pub fn try_tap_android_key_with_metastate(
        &mut self,
        keycode: AndroidKeycode,
        metastate: u32,
    ) -> (r: Result<()>)
        ensures
            r == old(self)@.try_send_result(),
            final(self)@ == old(self)@.after_try_send(
                HidCommand::AndroidKeyTap { keycode: keycode.code(), metastate },
            ),
    {
        self.try_send(HidCommand::AndroidKeyTap { keycode: keycode.value(), metastate })
    }

    pub fn back_or_screen_on(&mut self, action: AndroidKeyAction) -> (r: Result<()>)
        ensures
            r == old(self)@.send_result(),
            final(self)@ == old(self)@.after_send(
                HidCommand::BackOrScreenOn { action: action.code() },
            ),
    {
        self.send(HidCommand::BackOrScreenOn { action: action.value() })
    }

    pub fn try_back_or_screen_on(&mut self, action: AndroidKeyAction) -> (r: Result<()>)
        ensures
            r == old(self)@.try_send_result(),
            final(self)@ == old(self)@.after_try_send(
                HidCommand::BackOrScreenOn { action: action.code() },
            ),
    {
        self.try_send(HidCommand::BackOrScreenOn { action: action.value() })
    }

    pub fn press_home(&mut self) -> (r: Result<()>)
        ensures
            r == old(self)@.send_result(),
            final(self)@ == old(self)@.after_send(
                HidCommand::InjectKeycode { action: 0, keycode: 3, repeat: 0, metastate: 0 },
            ),
    {
        self.press_android_key(AndroidKeycode::HOME)
    }

    pub fn press_back(&mut self) -> (r: Result<()>)
        ensures
            r == old(self)@.send_result(),
            final(self)@ == old(self)@.after_send(
                HidCommand::InjectKeycode { action: 0, keycode: 4, repeat: 0, metastate: 0 },
            ),
    {
        self.press_android_key(AndroidKeycode::BACK)
    }

    pub fn open_recents(&mut self) -> (r: Result<()>)
        ensures
            r == old(self)@.send_result(),
            final(self)@ == old(self)@.after_send(
                HidCommand::InjectKeycode { action: 0, keycode: 187, repeat: 0, metastate: 0 },
            ),
    {
        self.press_android_key(AndroidKeycode::APP_SWITCH)
    }

    pub fn volume_up(&mut self) -> (r: Result<()>)
        ensures
            r == old(self)@.send_result(),
            final(self)@ == old(self)@.after_send(
                HidCommand::InjectKeycode { action: 0, keycode: 24, repeat: 0, metastate: 0 },
            ),
    {
        self.press_android_key(AndroidKeycode::VOLUME_UP)
    }

    pub fn volume_down(&mut self) -> (r: Result<()>)
        ensures
            r == old(self)@.send_result(),
            final(self)@ == old(self)@.after_send(
                HidCommand::InjectKeycode { action: 0, keycode: 25, repeat: 0, metastate: 0 },
            ),
    {
        self.press_android_key(AndroidKeycode::VOLUME_DOWN)
    }

    pub fn volume_mute(&mut self) -> (r: Result<()>)
        ensures
            r == old(self)@.send_result(),
            final(self)@ == old(self)@.after_send(
                HidCommand::InjectKeycode { action: 0, keycode: 164, repeat: 0, metastate: 0 },
            ),
    {
        self.press_android_key(AndroidKeycode::VOLUME_MUTE)
    }

    pub fn set_screen_size(&mut self, width: u16, height: u16) -> (r: Result<()>)
        ensures
            r == old(self)@.send_result(),
            final(self)@ == old(self)@.after_send(HidCommand::SetScreenSize { width, height }),
    {
        self.send(HidCommand::SetScreenSize { width, height })
    }

    pub fn try_set_screen_size(&mut self, width: u16, height: u16) -> (r: Result<()>)
        ensures
            r == old(self)@.try_send_result(),
            final(self)@ == old(self)@.after_try_send(HidCommand::SetScreenSize { width, height }),
    {
        self.try_send(HidCommand::SetScreenSize { width, height })
    }

    pub fn set_screen_power(&mut self, on: bool) -> (r: Result<()>)
        ensures
            r == old(self)@.send_result(),
            final(self)@ == old(self)@.after_send(HidCommand::SetScreenPower { on }),
    {
        self.send(HidCommand::SetScreenPower { on })
    }

    pub fn show_notifications(&mut self) -> (r: Result<()>)
        ensures
            r == old(self)@.send_result(),
            final(self)@ == old(self)@.after_send(HidCommand::ShowNotifications),
    {
        self.send(HidCommand::ShowNotifications)
    }

    pub fn show_quick_settings(&mut self) -> (r: Result<()>)
        ensures
            r == old(self)@.send_result(),
            final(self)@ == old(self)@.after_send(HidCommand::ShowQuickSettings),
    {
        self.send(HidCommand::ShowQuickSettings)
    }

    pub fn collapse_panels(&mut self) -> (r: Result<()>)
        ensures
            r == old(self)@.send_result(),
            final(self)@ == old(self)@.after_send(HidCommand::CollapsePanels),
    {
        self.send(HidCommand::CollapsePanels)
    }

    pub fn rotate_device(&mut self) -> (r: Result<()>)
        ensures
            r == old(self)@.send_result(),
            final(self)@ == old(self)@.after_send(HidCommand::RotateDevice),
    {
        self.send(HidCommand::RotateDevice)
    }

    pub fn resize_display(&mut self, width: u16, height: u16) -> (r: Result<()>)
        ensures
            r == old(self)@.send_result(),
            final(self)@ == old(self)@.after_send(HidCommand::ResizeDisplay { width, height }),
    {
        self.send(HidCommand::ResizeDisplay { width, height })
    }

    pub fn set_torch(&mut self, on: bool) -> (r: Result<()>)
        ensures
            r == old(self)@.send_result(),
            final(self)@ == old(self)@.after_send(HidCommand::SetTorch { on }),
    {
        self.send(HidCommand::SetTorch { on })
    }

    pub fn camera_zoom_in(&mut self) -> (r: Result<()>)
        ensures
            r == old(self)@.send_result(),
            final(self)@ == old(self)@.after_send(HidCommand::CameraZoomIn),
    {
        self.send(HidCommand::CameraZoomIn)
    }

    pub fn camera_zoom_out(&mut self) -> (r: Result<()>)
        ensures
            r == old(self)@.send_result(),
            final(self)@ == old(self)@.after_send(HidCommand::CameraZoomOut),
    {
        self.send(HidCommand::CameraZoomOut)
    }

    pub fn open_hard_keyboard_settings(&mut self) -> (r: Result<()>)
        ensures
            r == old(self)@.send_result(),
            final(self)@ == old(self)@.after_send(HidCommand::OpenHardKeyboardSettings),
    {
        self.send(HidCommand::OpenHardKeyboardSettings)
    }

    pub fn reset_video(&mut self) -> (r: Result<()>)
        ensures
            r == old(self)@.send_result(),
            final(self)@ == old(self)@.after_send(HidCommand::ResetVideo),
    {
        self.send(HidCommand::ResetVideo)
    }

    pub fn configure_ai(
        &mut self,
        flags: u8,
        sample_interval_ms: u16,
        feature_dim: u16,
    ) -> (r: Result<()>)
        ensures
            r == old(self)@.send_result(),
            final(self)@ == old(self)@.after_send(
                HidCommand::AiConfig { flags, sample_interval_ms, feature_dim },
            ),
    {
        self.send(HidCommand::AiConfig { flags, sample_interval_ms, feature_dim })
    }

    pub fn try_configure_ai(
        &mut self,
        flags: u8,
        sample_interval_ms: u16,
        feature_dim: u16,
    ) -> (r: Result<()>)
        ensures
            r == old(self)@.try_send_result(),
            final(self)@ == old(self)@.after_try_send(
                HidCommand::AiConfig { flags, sample_interval_ms, feature_dim },
            ),
    {
        self.try_send(HidCommand::AiConfig { flags, sample_interval_ms, feature_dim })
    }

    pub fn query_ai(&mut self, since_timestamp_ms: u64) -> (r: Result<()>)
        ensures
            r == old(self)@.send_result(),
            final(self)@ == old(self)@.after_send(HidCommand::AiQuery { since_timestamp_ms }),
    {
        self.send(HidCommand::AiQuery { since_timestamp_ms })
    }

    pub fn try_query_ai(&mut self, since_timestamp_ms: u64) -> (r: Result<()>)
        ensures
            r == old(self)@.try_send_result(),
            final(self)@ == old(self)@.after_try_send(HidCommand::AiQuery { since_timestamp_ms }),
    {
        self.try_send(HidCommand::AiQuery { since_timestamp_ms })
    }

    pub fn pause_ai(&mut self) -> (r: Result<()>)
        ensures
            r == old(self)@.send_result(),
            final(self)@ == old(self)@.after_send(HidCommand::AiPause),
    {
        self.send(HidCommand::AiPause)
    }

    pub fn try_pause_ai(&mut self) -> (r: Result<()>)
        ensures
            r == old(self)@.try_send_result(),
            final(self)@ == old(self)@.after_try_send(HidCommand::AiPause),
    {
        self.try_send(HidCommand::AiPause)
    }

    pub fn launch_app(&mut self, name: String) -> (r: Result<()>)
        ensures
            r == old(self)@.send_result(),
            final(self)@ == old(self)@.after_send(HidCommand::LaunchApp { name }),
    {
        self.send(HidCommand::LaunchApp { name })
    }

    pub fn set_clipboard(&mut self, text: String, paste: bool) -> (r: Result<()>)
        ensures
            r == old(self)@.send_result(),
            final(self)@ == old(self)@.after_send(HidCommand::SetClipboard { text, paste }),
    {
        self.send(HidCommand::SetClipboard { text, paste })
    }

    pub fn set_clipboard_sequenced(
        &mut self,
        sequence: u64,
        text: String,
        paste: bool,
    ) -> (r: Result<()>)
        ensures
            r == old(self)@.send_result(),
            final(self)@ == old(self)@.after_send(
                HidCommand::SetClipboardSequenced { sequence, text, paste },
            ),
    {
        self.send(HidCommand::SetClipboardSequenced { sequence, text, paste })
    }

    pub fn request_clipboard(&mut self, copy_key: u8) -> (r: Result<()>)
        ensures
            r == old(self)@.send_result(),
            final(self)@ == old(self)@.after_send(HidCommand::GetClipboard { copy_key }),
    {
        self.send(HidCommand::GetClipboard { copy_key })
    }

    pub fn try_request_clipboard(&mut self, copy_key: u8) -> (r: Result<()>)
        ensures
            r == old(self)@.try_send_result(),
            final(self)@ == old(self)@.after_try_send(HidCommand::GetClipboard { copy_key }),
    {
        self.try_send(HidCommand::GetClipboard { copy_key })
    }

    pub fn request_clipboard_key(&mut self, copy_key: ClipboardCopyKey) -> (r: Result<()>)
        ensures
            r == old(self)@.send_result(),
            final(self)@ == old(self)@.after_send(
                HidCommand::GetClipboard { copy_key: copy_key.code() },
            ),
    {
        self.send(HidCommand::GetClipboard { copy_key: copy_key.value() })
    }

    pub fn try_request_clipboard_key(&mut self, copy_key: ClipboardCopyKey) -> (r: Result<()>)
        ensures
            r == old(self)@.try_send_result(),
            final(self)@ == old(self)@.after_try_send(
                HidCommand::GetClipboard { copy_key: copy_key.code() },
            ),
    {
        self.try_send(HidCommand::GetClipboard { copy_key: copy_key.value() })
    }

    pub fn try_scroll(&mut self, x: i32, y: i32, hscroll: u32, vscroll: u32) -> (r: Result<()>)
        ensures
            r == old(self)@.try_send_result(),
            final(self)@ == old(self)@.after_try_send(
                HidCommand::InjectScroll { x, y, hscroll, vscroll, buttons: 0 },
            ),
    {
        self.try_send(HidCommand::InjectScroll { x, y, hscroll, vscroll, buttons: 0 })
    }

    pub fn try_scroll_with_buttons(
        &mut self,
        x: i32,
        y: i32,
        hscroll: u32,
        vscroll: u32,
        buttons: u32,
    ) -> (r: Result<()>)
        ensures
            r == old(self)@.try_send_result(),
            final(self)@ == old(self)@.after_try_send(
                HidCommand::InjectScroll { x, y, hscroll, vscroll, buttons },
            ),
    {
        self.try_send(HidCommand::InjectScroll { x, y, hscroll, vscroll, buttons })
    }

    pub fn try_cancel_touch(&mut self, pointer_id: u64) -> (r: Result<()>)
        ensures
            r == old(self)@.try_send_result(),
            final(self)@ == old(self)@.after_try_send(
                HidCommand::MultitouchCancel { id: pointer_id },
            ),
    {
        self.try_send(HidCommand::MultitouchCancel { id: pointer_id })
    }

    pub fn try_cancel_touch_pointer(&mut self, pointer_id: TouchPointerId) -> (r: Result<()>)
        ensures
            r == old(self)@.try_send_result(),
            final(self)@ == old(self)@.after_try_send(
                HidCommand::MultitouchCancel { id: pointer_id.code() },
            ),
    {
        self.try_send(HidCommand::MultitouchCancel { id: pointer_id.value() })
    }

    /// Sends a gamepad frame unless it repeats the last one.
    pub fn send_frame(&mut self, frame: GamepadFrameRaw) -> (r: Result<()>)
        ensures
            r == old(self)@.send_result(),
            final(self)@ == old(self)@.after_send(frame_command(frame, true)),
    {
        self.send(
            HidCommand::GamepadFrameRaw {
                buttons: frame.buttons,
                left_x: frame.left_x,
                left_y: frame.left_y,
                right_x: frame.right_x,
                right_y: frame.right_y,
                left_trigger: frame.left_trigger,
                right_trigger: frame.right_trigger,
            },
        )
    }

    /// Sends a gamepad frame unless it repeats the last one, if the bound leaves room.
    pub fn try_send_frame(&mut self, frame: GamepadFrameRaw) -> (r: Result<()>)
        ensures
            r == old(self)@.try_send_result(),
            final(self)@ == old(self)@.after_try_send(frame_command(frame, true)),
    {
        self.try_send(
            HidCommand::GamepadFrameRaw {
                buttons: frame.buttons,
                left_x: frame.left_x,
                left_y: frame.left_y,
                right_x: frame.right_x,
                right_y: frame.right_y,
                left_trigger: frame.left_trigger,
                right_trigger: frame.right_trigger,
            },
        )
    }

    /// Sends a gamepad frame even where it repeats the last one.
    pub fn send_frame_unchecked(&mut self, frame: GamepadFrameRaw) -> (r: Result<()>)
        ensures
            r == old(self)@.send_result(),
            final(self)@ == old(self)@.after_send(HidCommand::GamepadFrameRawUnchecked(frame)),
    {
        self.send(HidCommand::GamepadFrameRawUnchecked(frame))
    }

    /// Sends a gamepad frame even where it repeats the last one, if the bound leaves room.
    pub fn try_send_frame_unchecked(&mut self, frame: GamepadFrameRaw) -> (r: Result<()>)
        ensures
            r == old(self)@.try_send_result(),
            final(self)@ == old(self)@.after_try_send(HidCommand::GamepadFrameRawUnchecked(frame)),
    {
        self.try_send(HidCommand::GamepadFrameRawUnchecked(frame))
    }

    pub fn send_frame_packed(&mut self, frame: [u8; GAMEPAD_FRAME_BYTES]) -> (r: Result<()>)
        ensures
            r == old(self)@.send_result(),
            final(self)@ == old(self)@.after_send(HidCommand::GamepadPackedFrame(frame)),
    {
        self.send(HidCommand::GamepadPackedFrame(frame))
    }

    pub fn try_send_frame_packed(&mut self, frame: [u8; GAMEPAD_FRAME_BYTES]) -> (r: Result<()>)
        ensures
            r == old(self)@.try_send_result(),
            final(self)@ == old(self)@.after_try_send(HidCommand::GamepadPackedFrame(frame)),
    {
        self.try_send(HidCommand::GamepadPackedFrame(frame))
    }

    /// Asks the dispatcher to flush.
    pub fn flush(&mut self) -> (r: Result<()>)
        ensures
            r == old(self)@.send_result(),
            final(self)@ == old(self)@.after_send(HidCommand::Flush),
    {
        self.send(HidCommand::Flush)
    }

    /// Asks the dispatcher to flush, if the bound leaves room.
    pub fn try_flush(&mut self) -> (r: Result<()>)
        ensures
            r == old(self)@.try_send_result(),
            final(self)@ == old(self)@.after_try_send(HidCommand::Flush),
    {
        self.try_send(HidCommand::Flush)
    }

    /// Sends the first `len` of `frames` as one command; none are a no-op.
    pub fn send_mouse_batch_fixed(
        &mut self,
        len: usize,
        frames: [MouseFrame; MOUSE_BATCH_FRAMES],
    ) -> (r: Result<()>)
        ensures
            len == 0 ==> r == Ok::<(), Error>(()) && final(self)@ == old(self)@,
            len > MOUSE_BATCH_FRAMES ==> r == Err::<(), Error>(
                Error::SessionLifecycle("mouse batch length too large")
            ) && final(self)@ == old(self)@,
            0 < len <= MOUSE_BATCH_FRAMES ==> r == old(self)@.send_result() && final(self)@
                == old(self)@.after_send(mouse_batch(len as int, frames)),
    {
        if len == 0 {
            return Ok(());
        }
        if len > MOUSE_BATCH_FRAMES {
            return Err(Error::SessionLifecycle("mouse batch length too large"));
        }
        if len == 1 {
            let frame = frames[0];
            return self.send(
                HidCommand::MouseMotion { dx: frame.dx, dy: frame.dy, buttons: frame.buttons },
            );
        }
        self.send(HidCommand::MouseBatchFixed { len: len as u8, frames })
    }

    /// Sends the first `len` of `frames` as one command; none are a no-op.
    pub fn try_send_mouse_batch_fixed(
        &mut self,
        len: usize,
        frames: [MouseFrame; MOUSE_BATCH_FRAMES],
    ) -> (r: Result<()>)
        ensures
            len == 0 ==> r == Ok::<(), Error>(()) && final(self)@ == old(self)@,
            len > MOUSE_BATCH_FRAMES ==> r == Err::<(), Error>(
                Error::SessionLifecycle("mouse batch length too large")
            ) && final(self)@ == old(self)@,
            0 < len <= MOUSE_BATCH_FRAMES ==> r == old(self)@.try_send_result() && final(self)@
                == old(self)@.after_try_send(mouse_batch(len as int, frames)),
    {
        if len == 0 {
            return Ok(());
        }
        if len > MOUSE_BATCH_FRAMES {
            return Err(Error::SessionLifecycle("mouse batch length too large"));
        }
        if len == 1 {
            let frame = frames[0];
            return self.try_send(
                HidCommand::MouseMotion { dx: frame.dx, dy: frame.dy, buttons: frame.buttons },
            );
        }
        self.try_send(HidCommand::MouseBatchFixed { len: len as u8, frames })
    }

    /// Sends the first `len` of `frames` as one command; none are a no-op.
    pub fn send_key_batch_fixed(
        &mut self,
        len: usize,
        frames: [KeyboardFrame; KEYBOARD_BATCH_FRAMES],
    ) -> (r: Result<()>)
        ensures
            len == 0 ==> r == Ok::<(), Error>(()) && final(self)@ == old(self)@,
            len > KEYBOARD_BATCH_FRAMES ==> r == Err::<(), Error>(
                Error::SessionLifecycle("keyboard batch length too large")
            ) && final(self)@ == old(self)@,
            0 < len <= KEYBOARD_BATCH_FRAMES ==> r == old(self)@.send_result() && final(self)@
                == old(self)@.after_send(key_batch(len as int, frames)),
    {
        if len == 0 {
            return Ok(());
        }
        if len > KEYBOARD_BATCH_FRAMES {
            return Err(Error::SessionLifecycle("keyboard batch length too large"));
        }
        if len == 1 {
            let frame = frames[0];
            return self.send(
                HidCommand::Key {
                    scancode: frame.scancode,
                    pressed: frame.pressed,
                    mods: frame.mods,
                },
            );
        }
        self.send(HidCommand::KeyBatchFixed { len: len as u8, frames })
    }

    /// Sends the first `len` of `frames` as one command; none are a no-op.
    pub fn try_send_key_batch_fixed(
        &mut self,
        len: usize,
        frames: [KeyboardFrame; KEYBOARD_BATCH_FRAMES],
    ) -> (r: Result<()>)
        ensures
            len == 0 ==> r == Ok::<(), Error>(()) && final(self)@ == old(self)@,
            len > KEYBOARD_BATCH_FRAMES ==> r == Err::<(), Error>(
                Error::SessionLifecycle("keyboard batch length too large")
            ) && final(self)@ == old(self)@,
            0 < len <= KEYBOARD_BATCH_FRAMES ==> r == old(self)@.try_send_result()
                && final(self)@ == old(self)@.after_try_send(key_batch(len as int, frames)),
    {
        if len == 0 {
            return Ok(());
        }
        if len > KEYBOARD_BATCH_FRAMES {
            return Err(Error::SessionLifecycle("keyboard batch length too large"));
        }
        if len == 1 {
            let frame = frames[0];
            return self.try_send(
                HidCommand::Key {
                    scancode: frame.scancode,
                    pressed: frame.pressed,
                    mods: frame.mods,
                },
            );
        }
        self.try_send(HidCommand::KeyBatchFixed { len: len as u8, frames })
    }

    /// Sends the first `len` of `frames` as one command; none are a no-op.
    pub fn send_android_key_batch_fixed(
        &mut self,
        len: usize,
        frames: [AndroidKeyFrame; ANDROID_KEY_BATCH_FRAMES],
    ) -> (r: Result<()>)
        ensures
            len == 0 ==> r == Ok::<(), Error>(()) && final(self)@ == old(self)@,
            len > ANDROID_KEY_BATCH_FRAMES ==> r == Err::<(), Error>(
                Error::SessionLifecycle("android key batch length too large")
            ) && final(self)@ == old(self)@,
            0 < len <= ANDROID_KEY_BATCH_FRAMES ==> r == old(self)@.send_result() && final(self)@
                == old(self)@.after_send(android_key_batch(len as int, frames)),
    {
        if len == 0 {
            return Ok(());
        }
        if len > ANDROID_KEY_BATCH_FRAMES {
            return Err(Error::SessionLifecycle("android key batch length too large"));
        }
        if len == 1 {
            let frame = frames[0];
            return self.send(
                HidCommand::InjectKeycode {
                    action: frame.action,
                    keycode: frame.keycode,
                    repeat: frame.repeat,
                    metastate: frame.metastate,
                },
            );
        }
        self.send(HidCommand::AndroidKeyBatchFixed { len: len as u8, frames })
    }

    /// Sends the first `len` of `frames` as one command; none are a no-op.
    pub fn try_send_android_key_batch_fixed(
        &mut self,
        len: usize,
        frames: [AndroidKeyFrame; ANDROID_KEY_BATCH_FRAMES],
    ) -> (r: Result<()>)
        ensures
            len == 0 ==> r == Ok::<(), Error>(()) && final(self)@ == old(self)@,
            len > ANDROID_KEY_BATCH_FRAMES ==> r == Err::<(), Error>(
                Error::SessionLifecycle("android key batch length too large")
            ) && final(self)@ == old(self)@,
            0 < len <= ANDROID_KEY_BATCH_FRAMES ==> r == old(self)@.try_send_result()
                && final(self)@ == old(self)@.after_try_send(android_key_batch(len as int, frames)),
    {
        if len == 0 {
            return Ok(());
        }
        if len > ANDROID_KEY_BATCH_FRAMES {
            return Err(Error::SessionLifecycle("android key batch length too large"));
        }
        if len == 1 {
            let frame = frames[0];
            return self.try_send(
                HidCommand::InjectKeycode {
                    action: frame.action,
                    keycode: frame.keycode,
                    repeat: frame.repeat,
                    metastate: frame.metastate,
                },
            );
        }
        self.try_send(HidCommand::AndroidKeyBatchFixed { len: len as u8, frames })
    }

    /// Sends the first `len` of `frames` as one command; none are a no-op.
    pub fn send_scroll_batch_fixed(
        &mut self,
        len: usize,
        frames: [ScrollFrame; SCROLL_BATCH_FRAMES],
    ) -> (r: Result<()>)
        ensures
            len == 0 ==> r == Ok::<(), Error>(()) && final(self)@ == old(self)@,
            len > SCROLL_BATCH_FRAMES ==> r == Err::<(), Error>(
                Error::SessionLifecycle("scroll batch length too large")
            ) && final(self)@ == old(self)@,
            0 < len <= SCROLL_BATCH_FRAMES ==> r == old(self)@.send_result() && final(self)@
                == old(self)@.after_send(scroll_batch(len as int, frames)),
    {
        if len == 0 {
            return Ok(());
        }
        if len > SCROLL_BATCH_FRAMES {
            return Err(Error::SessionLifecycle("scroll batch length too large"));
        }
        if len == 1 {
            let frame = frames[0];
            return self.send(
                HidCommand::InjectScroll {
                    x: frame.x,
                    y: frame.y,
                    hscroll: frame.hscroll,
                    vscroll: frame.vscroll,
                    buttons: frame.buttons,
                },
            );
        }
        self.send(HidCommand::InjectScrollBatchFixed { len: len as u8, frames })
    }

    /// Sends the first `len` of `frames` as one command; none are a no-op.
    pub fn try_send_scroll_batch_fixed(
        &mut self,
        len: usize,
        frames: [ScrollFrame; SCROLL_BATCH_FRAMES],
    ) -> (r: Result<()>)
        ensures
            len == 0 ==> r == Ok::<(), Error>(()) && final(self)@ == old(self)@,
            len > SCROLL_BATCH_FRAMES ==> r == Err::<(), Error>(
                Error::SessionLifecycle("scroll batch length too large")
            ) && final(self)@ == old(self)@,
            0 < len <= SCROLL_BATCH_FRAMES ==> r == old(self)@.try_send_result() && final(self)@
                == old(self)@.after_try_send(scroll_batch(len as int, frames)),
    {
        if len == 0 {
            return Ok(());
        }
        if len > SCROLL_BATCH_FRAMES {
            return Err(Error::SessionLifecycle("scroll batch length too large"));
        }
        if len == 1 {
            let frame = frames[0];
            return self.try_send(
                HidCommand::InjectScroll {
                    x: frame.x,
                    y: frame.y,
                    hscroll: frame.hscroll,
                    vscroll: frame.vscroll,
                    buttons: frame.buttons,
                },
            );
        }
        self.try_send(HidCommand::InjectScrollBatchFixed { len: len as u8, frames })
    }

    /// Sends the first `len` of `frames` as one command, also where that is a
    /// single frame; none are a no-op.
    pub fn send_touch_batch_fixed(
        &mut self,
        len: usize,
        frames: [TouchFrame; TOUCH_BATCH_FRAMES],
    ) -> (r: Result<()>)
        ensures
            len == 0 ==> r == Ok::<(), Error>(()) && final(self)@ == old(self)@,
            len > TOUCH_BATCH_FRAMES ==> r == Err::<(), Error>(
                Error::SessionLifecycle("touch batch length too large")
            ) && final(self)@ == old(self)@,
            0 < len <= TOUCH_BATCH_FRAMES ==> r == old(self)@.send_result() && final(self)@
                == old(self)@.after_send(HidCommand::TouchBatchFixed { len: len as u8, frames }),
    {
        if len == 0 {
            return Ok(());
        }
        if len > TOUCH_BATCH_FRAMES {
            return Err(Error::SessionLifecycle("touch batch length too large"));
        }
        self.send(HidCommand::TouchBatchFixed { len: len as u8, frames })
    }

    fn send_frame_batch_fixed_internal(
        &mut self,
        len: usize,
        frames: [GamepadFrameRaw; GAMEPAD_BATCH_FRAMES],
        dedupe: bool,
    ) -> (r: Result<()>)
        ensures
            len == 0 ==> r == Ok::<(), Error>(()) && final(self)@ == old(self)@,
            len > GAMEPAD_BATCH_FRAMES ==> r == Err::<(), Error>(
                Error::SessionLifecycle("frame batch fixed length overflow")
            ) && final(self)@ == old(self)@,
            0 < len <= GAMEPAD_BATCH_FRAMES ==> r == old(self)@.send_result() && final(self)@
                == old(self)@.after_send(frame_batch(len as int, frames, dedupe)),
    {
        if len == 0 {
            return Ok(());
        }
        if len > GAMEPAD_BATCH_FRAMES {
            return Err(Error::SessionLifecycle("frame batch fixed length overflow"));
        }
        if len == 1 {
            let frame = frames[0];
            if dedupe {
                return self.send_frame(frame);
            }
            return self.send_frame_unchecked(frame);
        }
        if dedupe {
            self.send(HidCommand::GamepadFrameRawBatchFixed { len: len as u8, frames })
        } else {
            self.send(HidCommand::GamepadFrameRawBatchFixedUnchecked { len: len as u8, frames })
        }
    }

    /// Sends the first `len` gamepad frames as one command; none are a no-op.
    pub fn send_frame_batch_fixed(
        &mut self,
        len: usize,
        frames: [GamepadFrameRaw; GAMEPAD_BATCH_FRAMES],
    ) -> (r: Result<()>)
        ensures
            len == 0 ==> r == Ok::<(), Error>(()) && final(self)@ == old(self)@,
            len > GAMEPAD_BATCH_FRAMES ==> r == Err::<(), Error>(
                Error::SessionLifecycle("frame batch fixed length overflow")
            ) && final(self)@ == old(self)@,
            0 < len <= GAMEPAD_BATCH_FRAMES ==> r == old(self)@.send_result() && final(self)@
                == old(self)@.after_send(frame_batch(len as int, frames, true)),
    {
        self.send_frame_batch_fixed_internal(len, frames, true)
    }

    /// Sends all of `frames` as one command; none are a no-op.
    pub fn send_frame_batch(&mut self, frames: Vec<GamepadFrameRaw>) -> (r: Result<()>)
        ensures
            frames@.len() == 0 ==> r == Ok::<(), Error>(()) && final(self)@ == old(self)@,
            frames@.len() > 0 ==> r == old(self)@.send_result() && final(self)@
                == old(self)@.after_send(frame_batch_owned(frames, true)),
    {
        if frames.len() == 0 {
            return Ok(());
        }
        if frames.len() == 1 {
            return self.send_frame(frames[0]);
        }
        self.send(HidCommand::GamepadFrameRawBatch(frames))
    }

    /// Sends the first `len` gamepad frames as one command; none are a no-op.
    pub fn send_frame_batch_fixed_unchecked(
        &mut self,
        len: usize,
        frames: [GamepadFrameRaw; GAMEPAD_BATCH_FRAMES],
    ) -> (r: Result<()>)
        ensures
            len == 0 ==> r == Ok::<(), Error>(()) && final(self)@ == old(self)@,
            len > GAMEPAD_BATCH_FRAMES ==> r == Err::<(), Error>(
                Error::SessionLifecycle("frame batch fixed length overflow")
            ) && final(self)@ == old(self)@,
            0 < len <= GAMEPAD_BATCH_FRAMES ==> r == old(self)@.send_result() && final(self)@
                == old(self)@.after_send(frame_batch(len as int, frames, false)),
    {
        self.send_frame_batch_fixed_internal(len, frames, false)
    }

    /// Sends all of `frames` as one command; none are a no-op.
    pub fn send_frame_batch_unchecked(&mut self, frames: Vec<GamepadFrameRaw>) -> (r: Result<()>)
        ensures
            frames@.len() == 0 ==> r == Ok::<(), Error>(()) && final(self)@ == old(self)@,
            frames@.len() > 0 ==> r == old(self)@.send_result() && final(self)@
                == old(self)@.after_send(frame_batch_owned(frames, false)),
    {
        if frames.len() == 0 {
            return Ok(());
        }
        if frames.len() == 1 {
            return self.send_frame_unchecked(frames[0]);
        }
        self.send(HidCommand::GamepadFrameRawBatchUnchecked(frames))
    }

    /// Sends the first `len` packed frames as one command; none are a no-op.
    pub fn send_frame_packed_batch_fixed(
        &mut self,
        len: usize,
        frames: [[u8; GAMEPAD_FRAME_BYTES]; GAMEPAD_BATCH_FRAMES],
    ) -> (r: Result<()>)
        ensures
            len == 0 ==> r == Ok::<(), Error>(()) && final(self)@ == old(self)@,
            len > GAMEPAD_BATCH_FRAMES ==> r == Err::<(), Error>(
                Error::SessionLifecycle("frame packed batch fixed length overflow")
            ) && final(self)@ == old(self)@,
            0 < len <= GAMEPAD_BATCH_FRAMES ==> r == old(self)@.send_result() && final(self)@
                == old(self)@.after_send(packed_batch(len as int, frames)),
    {
        if len == 0 {
            return Ok(());
        }
        if len > GAMEPAD_BATCH_FRAMES {
            return Err(Error::SessionLifecycle("frame packed batch fixed length overflow"));
        }
        if len == 1 {
            return self.send_frame_packed(frames[0]);
        }
        self.send(HidCommand::GamepadPackedFrameBatchFixed { len: len as u8, frames })
    }

    /// Sends all of the packed `frames` as one command; none are a no-op.
    pub fn send_frame_packed_batch(
        &mut self,
        frames: Vec<[u8; GAMEPAD_FRAME_BYTES]>,
    ) -> (r: Result<()>)
        ensures
            frames@.len() == 0 ==> r == Ok::<(), Error>(()) && final(self)@ == old(self)@,
            frames@.len() > 0 ==> r == old(self)@.send_result() && final(self)@
                == old(self)@.after_send(packed_batch_owned(frames)),
    {
        if frames.len() == 0 {
            return Ok(());
        }
        if frames.len() == 1 {
            return self.send_frame_packed(frames[0]);
        }
        self.send(HidCommand::GamepadPackedFrameBatch(frames))
    }

    /// Sends the edges of a chord as one command.
    pub fn key_chord(&mut self, chord: KeyboardChordFrame) -> (r: Result<()>)
        ensures
            chord.len > KEYBOARD_CHORD_KEYS ==> r == Err::<(), Error>(
                Error::SessionLifecycle("keyboard chord length overflow")
            ) && final(self)@ == old(self)@,
            chord.len == 0 ==> r == Ok::<(), Error>(()) && final(self)@ == old(self)@,
            0 < chord.len <= KEYBOARD_CHORD_KEYS ==> r == old(self)@.send_result() && match r {
                Ok(_) => chord_queued(chord, old(self)@, final(self)@),
                Err(_) => final(self)@ == old(self)@,
            },
    {
        let (edges, len): ([KeyboardFrame; 12], usize) = match chord.edge_frames() {
            Ok(p) => p,
            Err(e) => {
                return Err(e);
            },
        };
        let mut batch: [KeyboardFrame; KEYBOARD_BATCH_FRAMES] = [
            KeyboardFrame::empty();
            KEYBOARD_BATCH_FRAMES
        ];
        let mut i: usize = 0;
        while i < len
            invariant
                i <= len <= 12,
                forall|j: int|
                    0 <= j < KEYBOARD_BATCH_FRAMES ==> #[trigger] batch@[j] == if j < i {
                        edges@[j]
                    } else {
                        KeyboardFrame::empty()
                    },
            decreases len - i,
        {
            batch[i] = edges[i];
            i = i + 1;
        }
        proof {
            assert(batch@.take(len as int) =~= edges@.take(len as int));
            assert(batch@ =~= padded_keys(chord.edges()));
        }
        self.send_key_batch_fixed(len, batch)
    }

    /// Sends a chord over named keys; see [`KeyboardChordFrame::try_scancodes`]
    /// for what is refused.
    pub fn scancode_chord(&mut self, scancodes: &[Scancode], mods: Modifiers) -> (r: Result<()>)
        ensures
            scancode_chord_sent(
                scancodes@,
                mods,
                old(self)@.send_result(),
                old(self)@,
                final(self)@,
                r,
            ),
    {
        match KeyboardChordFrame::try_scancodes(scancodes, mods) {
            Ok(chord) => self.key_chord(chord),
            Err(e) => Err(e),
        }
    }

    /// Sends the first `len` of `frames` as one command, also where that is a
    /// single frame; none are a no-op.
    pub fn try_send_touch_batch_fixed(
        &mut self,
        len: usize,
        frames: [TouchFrame; TOUCH_BATCH_FRAMES],
    ) -> (r: Result<()>)
        ensures
            len == 0 ==> r == Ok::<(), Error>(()) && final(self)@ == old(self)@,
            len > TOUCH_BATCH_FRAMES ==> r == Err::<(), Error>(
                Error::SessionLifecycle("touch batch length too large")
            ) && final(self)@ == old(self)@,
            0 < len <= TOUCH_BATCH_FRAMES ==> r == old(self)@.try_send_result() && final(self)@
                == old(self)@.after_try_send(
                    HidCommand::TouchBatchFixed { len: len as u8, frames },
                ),
    {
        if len == 0 {
            return Ok(());
        }
        if len > TOUCH_BATCH_FRAMES {
            return Err(Error::SessionLifecycle("touch batch length too large"));
        }
        self.try_send(HidCommand::TouchBatchFixed { len: len as u8, frames })
    }

    fn try_send_frame_batch_fixed_internal(
        &mut self,
        len: usize,
        frames: [GamepadFrameRaw; GAMEPAD_BATCH_FRAMES],
        dedupe: bool,
    ) -> (r: Result<()>)
        ensures
            len == 0 ==> r == Ok::<(), Error>(()) && final(self)@ == old(self)@,
            len > GAMEPAD_BATCH_FRAMES ==> r == Err::<(), Error>(
                Error::SessionLifecycle("frame batch fixed length overflow")
            ) && final(self)@ == old(self)@,
            0 < len <= GAMEPAD_BATCH_FRAMES ==> r == old(self)@.try_send_result() && final(self)@
                == old(self)@.after_try_send(frame_batch(len as int, frames, dedupe)),
    {
        if len == 0 {
            return Ok(());
        }
        if len > GAMEPAD_BATCH_FRAMES {
            return Err(Error::SessionLifecycle("frame batch fixed length overflow"));
        }
        if len == 1 {
            let frame = frames[0];
            if dedupe {
                return self.try_send_frame(frame);
            }
            return self.try_send_frame_unchecked(frame);
        }
        if dedupe {
            self.try_send(HidCommand::GamepadFrameRawBatchFixed { len: len as u8, frames })
        } else {
            self.try_send(HidCommand::GamepadFrameRawBatchFixedUnchecked { len: len as u8, frames })
        }
    }

    /// Sends the first `len` gamepad frames as one command; none are a no-op.
    pub fn try_send_frame_batch_fixed(
        &mut self,
        len: usize,
        frames: [GamepadFrameRaw; GAMEPAD_BATCH_FRAMES],
    ) -> (r: Result<()>)
        ensures
            len == 0 ==> r == Ok::<(), Error>(()) && final(self)@ == old(self)@,
            len > GAMEPAD_BATCH_FRAMES ==> r == Err::<(), Error>(
                Error::SessionLifecycle("frame batch fixed length overflow")
            ) && final(self)@ == old(self)@,
            0 < len <= GAMEPAD_BATCH_FRAMES ==> r == old(self)@.try_send_result() && final(self)@
                == old(self)@.after_try_send(frame_batch(len as int, frames, true)),
    {
        self.try_send_frame_batch_fixed_internal(len, frames, true)
    }

    /// Sends all of `frames` as one command; none are a no-op.
    pub fn try_send_frame_batch(&mut self, frames: Vec<GamepadFrameRaw>) -> (r: Result<()>)
        ensures
            frames@.len() == 0 ==> r == Ok::<(), Error>(()) && final(self)@ == old(self)@,
            frames@.len() > 0 ==> r == old(self)@.try_send_result() && final(self)@
                == old(self)@.after_try_send(frame_batch_owned(frames, true)),
    {
        if frames.len() == 0 {
            return Ok(());
        }
        if frames.len() == 1 {
            return self.try_send_frame(frames[0]);
        }
        self.try_send(HidCommand::GamepadFrameRawBatch(frames))
    }

    /// Sends the first `len` gamepad frames as one command; none are a no-op.
    pub fn try_send_frame_batch_fixed_unchecked(
        &mut self,
        len: usize,
        frames: [GamepadFrameRaw; GAMEPAD_BATCH_FRAMES],
    ) -> (r: Result<()>)
        ensures
            len == 0 ==> r == Ok::<(), Error>(()) && final(self)@ == old(self)@,
            len > GAMEPAD_BATCH_FRAMES ==> r == Err::<(), Error>(
                Error::SessionLifecycle("frame batch fixed length overflow")
            ) && final(self)@ == old(self)@,
            0 < len <= GAMEPAD_BATCH_FRAMES ==> r == old(self)@.try_send_result() && final(self)@
                == old(self)@.after_try_send(frame_batch(len as int, frames, false)),
    {
        self.try_send_frame_batch_fixed_internal(len, frames, false)
    }

    /// Sends all of `frames` as one command; none are a no-op.
    pub fn try_send_frame_batch_unchecked(
        &mut self,
        frames: Vec<GamepadFrameRaw>,
    ) -> (r: Result<()>)
        ensures
            frames@.len() == 0 ==> r == Ok::<(), Error>(()) && final(self)@ == old(self)@,
            frames@.len() > 0 ==> r == old(self)@.try_send_result() && final(self)@
                == old(self)@.after_try_send(frame_batch_owned(frames, false)),
    {
        if frames.len() == 0 {
            return Ok(());
        }
        if frames.len() == 1 {
            return self.try_send_frame_unchecked(frames[0]);
        }
        self.try_send(HidCommand::GamepadFrameRawBatchUnchecked(frames))
    }

    /// Sends the first `len` packed frames as one command; none are a no-op.
    pub fn try_send_frame_packed_batch_fixed(
        &mut self,
        len: usize,
        frames: [[u8; GAMEPAD_FRAME_BYTES]; GAMEPAD_BATCH_FRAMES],
    ) -> (r: Result<()>)
        ensures
            len == 0 ==> r == Ok::<(), Error>(()) && final(self)@ == old(self)@,
            len > GAMEPAD_BATCH_FRAMES ==> r == Err::<(), Error>(
                Error::SessionLifecycle("frame packed batch fixed length overflow")
            ) && final(self)@ == old(self)@,
            0 < len <= GAMEPAD_BATCH_FRAMES ==> r == old(self)@.try_send_result() && final(self)@
                == old(self)@.after_try_send(packed_batch(len as int, frames)),
    {
        if len == 0 {
            return Ok(());
        }
        if len > GAMEPAD_BATCH_FRAMES {
            return Err(Error::SessionLifecycle("frame packed batch fixed length overflow"));
        }
        if len == 1 {
            return self.try_send_frame_packed(frames[0]);
        }
        self.try_send(HidCommand::GamepadPackedFrameBatchFixed { len: len as u8, frames })
    }

    /// Sends all of the packed `frames` as one command; none are a no-op.
    pub fn try_send_frame_packed_batch(
        &mut self,
        frames: Vec<[u8; GAMEPAD_FRAME_BYTES]>,
    ) -> (r: Result<()>)
        ensures
            frames@.len() == 0 ==> r == Ok::<(), Error>(()) && final(self)@ == old(self)@,
            frames@.len() > 0 ==> r == old(self)@.try_send_result() && final(self)@
                == old(self)@.after_try_send(packed_batch_owned(frames)),
    {
        if frames.len() == 0 {
            return Ok(());
        }
        if frames.len() == 1 {
            return self.try_send_frame_packed(frames[0]);
        }
        self.try_send(HidCommand::GamepadPackedFrameBatch(frames))
    }

    /// Sends the edges of a chord as one command.
    pub fn try_key_chord(&mut self, chord: KeyboardChordFrame) -> (r: Result<()>)
        ensures
            chord.len > KEYBOARD_CHORD_KEYS ==> r == Err::<(), Error>(
                Error::SessionLifecycle("keyboard chord length overflow")
            ) && final(self)@ == old(self)@,
            chord.len == 0 ==> r == Ok::<(), Error>(()) && final(self)@ == old(self)@,
            0 < chord.len <= KEYBOARD_CHORD_KEYS ==> r == old(self)@.try_send_result() && match r {
                Ok(_) => chord_queued(chord, old(self)@, final(self)@),
                Err(_) => final(self)@ == old(self)@,
            },
    {
        let (edges, len): ([KeyboardFrame; 12], usize) = match chord.edge_frames() {
            Ok(p) => p,
            Err(e) => {
                return Err(e);
            },
        };
        let mut batch: [KeyboardFrame; KEYBOARD_BATCH_FRAMES] = [
            KeyboardFrame::empty();
            KEYBOARD_BATCH_FRAMES
        ];
        let mut i: usize = 0;
        while i < len
            invariant
                i <= len <= 12,
                forall|j: int|
                    0 <= j < KEYBOARD_BATCH_FRAMES ==> #[trigger] batch@[j] == if j < i {
                        edges@[j]
                    } else {
                        KeyboardFrame::empty()
                    },
            decreases len - i,
        {
            batch[i] = edges[i];
            i = i + 1;
        }
        proof {
            assert(batch@.take(len as int) =~= edges@.take(len as int));
            assert(batch@ =~= padded_keys(chord.edges()));
        }
        self.try_send_key_batch_fixed(len, batch)
    }

    /// Sends a chord over named keys; see [`KeyboardChordFrame::try_scancodes`]
    /// for what is refused.
    pub fn try_scancode_chord(&mut self, scancodes: &[Scancode], mods: Modifiers) -> (r: Result<()>)
        ensures
            scancode_chord_sent(
                scancodes@,
                mods,
                old(self)@.try_send_result(),
                old(self)@,
                final(self)@,
                r,
            ),
    {
        match KeyboardChordFrame::try_scancodes(scancodes, mods) {
            Ok(chord) => self.try_key_chord(chord),
            Err(e) => Err(e),
        }
    }

    /// Queues an acknowledged flush and gives its ticket, under which the
    /// dispatcher will reply.
    pub fn flush_wait(&mut self) -> (r: Result<u64>)
        ensures
            old(self)@.connected ==> r == Ok::<u64, Error>(
                old(self)@.next_ticket
            ) && final(self)@ == old(self)@.flush_queued(),
            !old(self)@.connected ==> r == Err::<u64, Error>(
                Error::DispatcherDown("channel disconnected")
            ) && final(self)@ == old(self)@,
    {
        let ticket: u64 = self.next_ticket;
        match self.send(HidCommand::FlushAck { ticket }) {
            Ok(_) => {},
            Err(e) => {
                return Err(e);
            },
        }
        self.next_ticket = if ticket == u64::MAX { 0 } else { ticket + 1 };
        Ok(ticket)
    }

    /// Queues an acknowledged flush if the bound leaves room, and gives its
    /// ticket.
    pub fn try_flush_wait(&mut self) -> (r: Result<u64>)
        ensures
            match old(self)@.try_send_result() {
                Ok(_) => r == Ok::<u64, Error>(
                    old(self)@.next_ticket
                ) && final(self)@ == old(self)@.flush_queued(),
                Err(e) => r == Err::<u64, Error>(e) && final(self)@ == old(self)@,
            },
    {
        let ticket: u64 = self.next_ticket;
        match self.try_send(HidCommand::FlushAck { ticket }) {
            Ok(_) => {},
            Err(e) => {
                return Err(e);
            },
        }
        self.next_ticket = if ticket == u64::MAX { 0 } else { ticket + 1 };
        Ok(ticket)
    }

    /// Asks the dispatcher to close the session; without a dispatcher there is
    /// nothing to close.
    pub fn close(&mut self)
        ensures
            final(self)@ == old(self)@.after_send(HidCommand::Close),
    {
        let _ = self.send(HidCommand::Close);
    }

    /// Queues the acknowledged flush that comes before a checked close, and gives
    /// its ticket. The close itself waits for the flush's outcome.
    pub fn close_wait(&mut self) -> (r: Result<u64>)
        ensures
            old(self)@.connected ==> r == Ok::<u64, Error>(
                old(self)@.next_ticket
            ) && final(self)@ == old(self)@.flush_queued(),
            !old(self)@.connected ==> r == Err::<u64, Error>(
                Error::DispatcherDown("channel disconnected")
            ) && final(self)@ == old(self)@,
    {
        self.flush_wait()
    }

    /// Ends a checked close: queues the close behind whatever was queued since,
    /// however the flush came out, and reports that outcome.
    pub fn close_wait_end(&mut self, flush: Result<usize>) -> (r: Result<()>)
        ensures
            final(self)@ == old(self)@.after_send(HidCommand::Close),
            match flush {
                Ok(_) => r is Ok,
                Err(e) => r == Err::<(), Error>(e),
            },
    {
        self.close();
        match flush {
            Ok(_) => Ok(()),
            Err(e) => Err(e),
        }
    }

    fn send_then_flush(&mut self, cmd: HidCommand) -> (r: Result<u64>)
        ensures
            sent_then_flushed(cmd, old(self)@, final(self)@, r),
    {
        match self.send(cmd) {
            Ok(_) => self.flush_wait(),
            Err(e) => Err(e),
        }
    }

    /// Scrolls at a point and flushes; gives the flush's ticket.
    pub fn scroll(&mut self, x: i32, y: i32, hscroll: u32, vscroll: u32) -> (r: Result<u64>)
        ensures
            sent_then_flushed(
                (HidCommand::InjectScroll { x, y, hscroll, vscroll, buttons: 0 }),
                old(self)@,
                final(self)@,
                r,
            ),
    {
        self.send_then_flush(HidCommand::InjectScroll { x, y, hscroll, vscroll, buttons: 0 })
    }

    /// Scrolls at a point with buttons held and flushes; gives the flush's ticket.
    pub fn scroll_with_buttons(
        &mut self,
        x: i32,
        y: i32,
        hscroll: u32,
        vscroll: u32,
        buttons: u32,
    ) -> (r: Result<u64>)
        ensures
            sent_then_flushed(
                (HidCommand::InjectScroll { x, y, hscroll, vscroll, buttons }),
                old(self)@,
                final(self)@,
                r,
            ),
    {
        self.send_then_flush(HidCommand::InjectScroll { x, y, hscroll, vscroll, buttons })
    }

    /// Cancels a touch and flushes; gives the flush's ticket.
    pub fn cancel_touch(&mut self, pointer_id: u64) -> (r: Result<u64>)
        ensures
            sent_then_flushed(
                (HidCommand::MultitouchCancel { id: pointer_id }),
                old(self)@,
                final(self)@,
                r,
            ),
    {
        self.send_then_flush(HidCommand::MultitouchCancel { id: pointer_id })
    }

    /// Cancels a touch and flushes; gives the flush's ticket.
    pub fn cancel_touch_pointer(&mut self, pointer_id: TouchPointerId) -> (r: Result<u64>)
        ensures
            sent_then_flushed(
                (HidCommand::MultitouchCancel { id: pointer_id.code() }),
                old(self)@,
                final(self)@,
                r,
            ),
    {
        self.send_then_flush(HidCommand::MultitouchCancel { id: pointer_id.value() })
    }
}

/// Keyboard frames filled up to a whole batch with empty ones.
pub open spec fn padded_keys(frames: Seq<KeyboardFrame>) -> Seq<KeyboardFrame> {
    Seq::new(
        KEYBOARD_BATCH_FRAMES as nat,
        |i: int| if i < frames.len() { frames[i] } else { KeyboardFrame::empty() },
    )
}

/// Whether the client went from `old` to `new` by queueing the edges of `chord`
/// in one batch.
pub open spec fn chord_queued(chord: KeyboardChordFrame, old: ClientView, new: ClientView) -> bool {
    &&& new.queue.len() > 0
    &&& new == old.queued(new.queue.last())
    &&& new.queue.last() matches HidCommand::KeyBatchFixed { len, frames }
    &&& len == 2 * chord.len
    &&& frames@ == padded_keys(chord.edges())
}

/// Commands leave the queue in the order in which they were sent.
pub proof fn lemma_queue_is_fifo(c: ClientView, cmd: HidCommand)
    requires
        c.connected,
    ensures
        c.after_send(cmd).queue.last() == cmd,
        c.queue.len() > 0 ==> c.after_send(cmd).queue[0] == c.queue[0]
            && c.after_send(cmd).queue.drop_first() == c.queue.drop_first().push(cmd),
        c.queue.len() == 0 ==> c.after_send(cmd).queue[0] == cmd,
{
    if c.queue.len() > 0 {
        assert(c.after_send(cmd).queue.drop_first() =~= c.queue.drop_first().push(cmd));
    }
}

/// Bounded sends never fill the queue past its capacity, and a refused send leaves
/// the client as it was.
pub proof fn lemma_bounded_send_respects_bound(c: ClientView, cmd: HidCommand)
    requires
        c.queue.len() <= c.capacity(),
    ensures
        c.after_try_send(cmd).queue.len() <= c.capacity(),
        c.try_send_result() is Err ==> c.after_try_send(cmd) == c,
        c.try_send_result() is Ok ==> c.after_try_send(cmd) == c.after_send(cmd),
{
}

/// A blocked caller goes on exactly when the dispatcher has taken as many commands
/// as were queued past the bound; with a bound of zero, when it has taken all.
pub proof fn lemma_blocked_send_waits_for_place(c: ClientView, taken: nat)
    requires
        c.connected,
        taken <= c.queue.len(),
    ensures
        (ClientView { queue: c.queue.skip(taken as int), ..c }).blocked_send() == if taken + c.bound
            >= c.queue.len() {
            Some(Ok::<(), Error>(()))
        } else {
            None
        },
{
}

/// When a send is taken: a plain one as long as the dispatcher is there, a bounded one
/// only while the queue is below its bound as well. A queue of bound zero takes one
/// command from a bounded send, and only while the dispatcher waits for it.
pub proof fn lemma_send_is_taken(c: ClientView)
    ensures
        c.send_result() is Ok <==> c.connected,
        c.try_send_result() is Ok <==> c.connected && (c.queue.len() < c.bound || (c.bound == 0
            && c.waiting && c.queue.len() == 0)),
        !c.connected ==> c.send_result() == Err::<(), Error>(
            Error::DispatcherDown("channel disconnected"),
        ),
        c.connected && c.try_send_result() is Err ==> c.try_send_result() == Err::<(), Error>(
            Error::SessionLifecycle("channel full (back-pressure)"),
        ),
        !c.connected ==> c.try_send_result() == c.send_result(),
        c.admission(true) == c.send_result() && c.admission(false) == c.try_send_result(),
{
}

/// A send that is taken puts its command behind all that is queued and changes nothing
/// else. One that is refused changes nothing.
pub proof fn lemma_send_queues_behind(c: ClientView, cmd: HidCommand)
    ensures
        c.send_result() is Ok ==> c.after_send(cmd).queue == c.queue + seq![cmd],
        c.try_send_result() is Ok ==> c.after_try_send(cmd).queue == c.queue + seq![cmd],
        c.send_result() is Err ==> c.after_send(cmd).queue == c.queue,
        c.try_send_result() is Err ==> c.after_try_send(cmd).queue == c.queue,
        c.after_send(cmd).bound == c.bound && c.after_send(cmd).connected == c.connected
            && c.after_send(cmd).waiting == c.waiting && c.after_send(cmd).next_ticket
            == c.next_ticket,
        c.after_try_send(cmd).bound == c.bound && c.after_try_send(cmd).connected == c.connected
            && c.after_try_send(cmd).waiting == c.waiting && c.after_try_send(cmd).next_ticket
            == c.next_ticket,
        c.queued(cmd).queue == c.queue + seq![cmd],
{
    assert(c.queue.push(cmd) =~= c.queue + seq![cmd]);
}

/// Bounded sends one after the other fill the queue up to its bound and no further.
pub proof fn lemma_bounded_sends_fill_up(c: ClientView, cmd: HidCommand)
    requires
        c.connected,
        c.bound > 0,
    ensures
        c.queue.len() + 1 == c.bound ==> c.try_send_result() is Ok && c.after_try_send(
            cmd,
        ).try_send_result() is Err,
        c.queue.len() + 1 < c.bound ==> c.after_try_send(cmd).try_send_result() is Ok,
{
}

/// The tickets of acknowledged flushes count up, and begin anew behind the last one.
pub proof fn lemma_tickets_count_up(c: ClientView)
    ensures
        c.flush_queued().queue == c.queue + seq![HidCommand::FlushAck { ticket: c.next_ticket }],
        c.flush_queued().next_ticket == (c.next_ticket + 1) % 0x1_0000_0000_0000_0000,
        c.flush_queued().next_ticket != c.next_ticket,
        c.flush_queued().bound == c.bound && c.flush_queued().connected == c.connected
            && c.flush_queued().waiting == c.waiting,
{
    assert(c.flush_queued().queue =~= c.queue + seq![
        HidCommand::FlushAck { ticket: c.next_ticket },
    ]);
}

/// A command with a flush behind it: the flush is the newest command, its ticket comes
/// back, and the command stands right in front of it.
pub proof fn lemma_flush_follows_command(
    cmd: HidCommand,
    old: ClientView,
    new: ClientView,
    r: Result<u64>,
)
    requires
        sent_then_flushed(cmd, old, new, r),
    ensures
        r is Ok <==> old.connected,
        r matches Ok(ticket) ==> new.queue == old.queue + seq![
            cmd,
            HidCommand::FlushAck { ticket },
        ] && ticket == old.next_ticket,
        r is Err ==> new.queue == old.queue && new.next_ticket == old.next_ticket,
{
    if old.connected {
        assert(new.queue =~= old.queue + seq![
            cmd,
            HidCommand::FlushAck { ticket: old.next_ticket },
        ]);
    }
}

/// Sends that fit the bound hold nobody up. Commands past it hold their sender up
/// while the dispatcher is there, and fail when it goes.
pub proof fn lemma_blocked_send_outcomes(c: ClientView)
    ensures
        c.queue.len() <= c.bound ==> c.blocked_send() == Some(Ok::<(), Error>(())),
        c.queue.len() > c.bound && c.connected ==> c.blocked_send() is None,
        c.queue.len() > c.bound && !c.connected ==> c.blocked_send() == Some(c.send_result()),
{
}

/// Some sends, the last of which was taken, leave the dispatcher there; bounded ones
/// leave the queue inside its capacity.
pub proof fn lemma_admitted_by_sends(c: ClientView, cmd: HidCommand, blocking: bool)
    requires
        c.admission(blocking) is Ok,
    ensures
        c.queued(cmd).admitted(1, blocking),
        c.admitted(0, blocking),
{
}

} // verus!
