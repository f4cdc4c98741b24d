//! What the pushes of a batcher add to its batch.
use vstd::prelude::*;

use crate::batch::{
    cut, lemma_flush_keeps_frames, lemma_flush_sends_once, lemma_push_keeps_frames,
    lemma_push_sends_when_full, lemma_slice_keeps_frames, lemma_turns_keep_frames,
    lemma_two_frames_keep_order, pushed, pushed_all, pushed_in_turn, pushed_twice, stream,
    BatchFrame, FrameBatcher,
};
use crate::client::{ClientView, HidClient};
use crate::error::{Error, Result};
use crate::frames::{
    lemma_chord_clears_modifiers, lemma_chord_presses_named_keys, lemma_chord_releases_in_reverse,
    names_chord, names_modifier, AndroidKeyFrame, KeyboardChordFrame, KeyboardFrame, MouseFrame,
    ScrollFrame, TouchFrame,
};
use crate::types::{
    AndroidKeyAction, AndroidKeycode, Modifiers, MouseButton, Scancode, TouchPointerId,
};

verus! {

/// Whether a client takes a command now: a plain send as long as the dispatcher is
/// there, a bounded one only while the queue has a place as well.
pub open spec fn takes(plain: bool, c: ClientView) -> bool {
    c.connected && (plain || c.queue.len() < c.bound || (c.bound == 0 && c.waiting && c.queue.len()
        == 0))
}

/// Some frames joined a batch. On success they stand behind all earlier frames, sent or
/// held. They are held without a word to the client while the batch has slots for them,
/// and refused, with nothing changed, where it is full and the client takes nothing.
pub open spec fn joined<F: BatchFrame>(
    plain: bool,
    b0: Seq<F>,
    c0: ClientView,
    frames: Seq<F>,
    b1: Seq<F>,
    c1: ClientView,
    r: Result<()>,
) -> bool {
    &&& r is Ok ==> stream::<F>(c1.queue) + b1 == stream::<F>(c0.queue) + b0 + frames
    &&& b0.len() + frames.len() <= F::cap() ==> r is Ok && c1 == c0
    &&& b0.len() == F::cap() && !takes(plain, c0) ==> r is Err && b1 == b0 && c1 == c0
    &&& b0.len() == F::cap() && takes(plain, c0) && frames.len() == 1 ==> r is Ok
}

proof fn lemma_joined_once<F: BatchFrame>(
    plain: bool,
    b0: Seq<F>,
    c0: ClientView,
    frame: F,
    b1: Seq<F>,
    c1: ClientView,
    r: Result<()>,
)
    requires
        1 < F::cap(),
        b0.len() <= F::cap(),
    ensures
        pushed(b0, c0, frame, plain, b1, c1, r) ==> joined(plain, b0, c0, seq![frame], b1, c1, r),
{
    if pushed(b0, c0, frame, plain, b1, c1, r) {
        lemma_push_keeps_frames(b0, c0, frame, plain, b1, c1, r);
        lemma_push_sends_when_full(b0, c0, frame, plain, b1, c1, r);
        assert(stream::<F>(c0.queue) + b0.push(frame) =~= stream::<F>(c0.queue) + b0 + seq![frame]);
    }
}

proof fn lemma_joined_twice<F: BatchFrame>(
    plain: bool,
    b0: Seq<F>,
    c0: ClientView,
    first: F,
    second: F,
    b2: Seq<F>,
    c2: ClientView,
    r: Result<()>,
)
    requires
        1 < F::cap(),
        b0.len() <= F::cap(),
    ensures
        pushed_twice(b0, c0, first, second, plain, b2, c2, r) ==> joined(
            plain,
            b0,
            c0,
            seq![first, second],
            b2,
            c2,
            r,
        ),
{
    if pushed_twice(b0, c0, first, second, plain, b2, c2, r) {
        lemma_two_frames_keep_order(b0, c0, first, second, plain, b2, c2, r);
        assert(stream::<F>(c0.queue) + b0.push(first).push(second) =~= stream::<F>(c0.queue) + b0
            + seq![first, second]);
    }
}

/// A press, a move, a release and a cancel join the batch as touches with the codes 0,
/// 2, 1 and 3; a release has no pressure, and a cancel no position either.
pub proof fn lemma_touch_pushes(
    b: &mut FrameBatcher<TouchFrame>,
    c: &mut HidClient,
    pointer_id: u64,
    x: i32,
    y: i32,
    pressure: u32,
    r: Result<()>,
)
    requires
        old(b).valid(),
    ensures
        call_ensures(
            FrameBatcher::<TouchFrame>::down,
            (b, c, pointer_id, x, y, pressure),
            r,
        ) ==> joined(
            true,
            old(b)@,
            old(c)@,
            seq![
                TouchFrame { action: 0, pointer_id, x, y, pressure },
            ],
            final(b)@,
            final(c)@,
            r,
        ),
        call_ensures(
            FrameBatcher::<TouchFrame>::try_down,
            (b, c, pointer_id, x, y, pressure),
            r,
        ) ==> joined(
            false,
            old(b)@,
            old(c)@,
            seq![
                TouchFrame { action: 0, pointer_id, x, y, pressure },
            ],
            final(b)@,
            final(c)@,
            r,
        ),
        call_ensures(
            FrameBatcher::<TouchFrame>::move_to,
            (b, c, pointer_id, x, y, pressure),
            r,
        ) ==> joined(
            true,
            old(b)@,
            old(c)@,
            seq![
                TouchFrame { action: 2, pointer_id, x, y, pressure },
            ],
            final(b)@,
            final(c)@,
            r,
        ),
        call_ensures(
            FrameBatcher::<TouchFrame>::try_move_to,
            (b, c, pointer_id, x, y, pressure),
            r,
        ) ==> joined(
            false,
            old(b)@,
            old(c)@,
            seq![
                TouchFrame { action: 2, pointer_id, x, y, pressure },
            ],
            final(b)@,
            final(c)@,
            r,
        ),
        call_ensures(FrameBatcher::<TouchFrame>::up, (b, c, pointer_id, x, y), r) ==> joined(
            true,
            old(b)@,
            old(c)@,
            seq![
                TouchFrame { action: 1, pointer_id, x, y, pressure: 0 },
            ],
            final(b)@,
            final(c)@,
            r,
        ),
        call_ensures(FrameBatcher::<TouchFrame>::try_up, (b, c, pointer_id, x, y), r) ==> joined(
            false,
            old(b)@,
            old(c)@,
            seq![
                TouchFrame { action: 1, pointer_id, x, y, pressure: 0 },
            ],
            final(b)@,
            final(c)@,
            r,
        ),
        call_ensures(FrameBatcher::<TouchFrame>::cancel, (b, c, pointer_id), r) ==> joined(
            true,
            old(b)@,
            old(c)@,
            seq![
                TouchFrame { action: 3, pointer_id, x: 0, y: 0, pressure: 0 },
            ],
            final(b)@,
            final(c)@,
            r,
        ),
        call_ensures(FrameBatcher::<TouchFrame>::try_cancel, (b, c, pointer_id), r) ==> joined(
            false,
            old(b)@,
            old(c)@,
            seq![
                TouchFrame { action: 3, pointer_id, x: 0, y: 0, pressure: 0 },
            ],
            final(b)@,
            final(c)@,
            r,
        ),
{
    lemma_joined_once(
        true,
        old(b)@,
        old(c)@,
        TouchFrame { action: 0, pointer_id, x, y, pressure },
        final(b)@,
        final(c)@,
        r,
    );
    lemma_joined_once(
        false,
        old(b)@,
        old(c)@,
        TouchFrame { action: 0, pointer_id, x, y, pressure },
        final(b)@,
        final(c)@,
        r,
    );
    lemma_joined_once(
        true,
        old(b)@,
        old(c)@,
        TouchFrame { action: 2, pointer_id, x, y, pressure },
        final(b)@,
        final(c)@,
        r,
    );
    lemma_joined_once(
        false,
        old(b)@,
        old(c)@,
        TouchFrame { action: 2, pointer_id, x, y, pressure },
        final(b)@,
        final(c)@,
        r,
    );
    lemma_joined_once(
        true,
        old(b)@,
        old(c)@,
        TouchFrame { action: 1, pointer_id, x, y, pressure: 0 },
        final(b)@,
        final(c)@,
        r,
    );
    lemma_joined_once(
        false,
        old(b)@,
        old(c)@,
        TouchFrame { action: 1, pointer_id, x, y, pressure: 0 },
        final(b)@,
        final(c)@,
        r,
    );
    lemma_joined_once(
        true,
        old(b)@,
        old(c)@,
        TouchFrame { action: 3, pointer_id, x: 0, y: 0, pressure: 0 },
        final(b)@,
        final(c)@,
        r,
    );
    lemma_joined_once(
        false,
        old(b)@,
        old(c)@,
        TouchFrame { action: 3, pointer_id, x: 0, y: 0, pressure: 0 },
        final(b)@,
        final(c)@,
        r,
    );
}

/// Touches of a named pointer join the batch with its number.
pub proof fn lemma_pointer_touch_pushes(
    b: &mut FrameBatcher<TouchFrame>,
    c: &mut HidClient,
    pointer_id: TouchPointerId,
    x: i32,
    y: i32,
    pressure: u32,
    r: Result<()>,
)
    requires
        old(b).valid(),
    ensures
        call_ensures(
            FrameBatcher::<TouchFrame>::down_pointer,
            (b, c, pointer_id, x, y, pressure),
            r,
        ) ==> joined(
            true,
            old(b)@,
            old(c)@,
            seq![
                TouchFrame { action: 0, pointer_id: pointer_id.code(), x, y, pressure },
            ],
            final(b)@,
            final(c)@,
            r,
        ),
        call_ensures(
            FrameBatcher::<TouchFrame>::try_down_pointer,
            (b, c, pointer_id, x, y, pressure),
            r,
        ) ==> joined(
            false,
            old(b)@,
            old(c)@,
            seq![
                TouchFrame { action: 0, pointer_id: pointer_id.code(), x, y, pressure },
            ],
            final(b)@,
            final(c)@,
            r,
        ),
        call_ensures(
            FrameBatcher::<TouchFrame>::move_pointer_to,
            (b, c, pointer_id, x, y, pressure),
            r,
        ) ==> joined(
            true,
            old(b)@,
            old(c)@,
            seq![
                TouchFrame { action: 2, pointer_id: pointer_id.code(), x, y, pressure },
            ],
            final(b)@,
            final(c)@,
            r,
        ),
        call_ensures(
            FrameBatcher::<TouchFrame>::try_move_pointer_to,
            (b, c, pointer_id, x, y, pressure),
            r,
        ) ==> joined(
            false,
            old(b)@,
            old(c)@,
            seq![
                TouchFrame { action: 2, pointer_id: pointer_id.code(), x, y, pressure },
            ],
            final(b)@,
            final(c)@,
            r,
        ),
        call_ensures(
            FrameBatcher::<TouchFrame>::up_pointer,
            (b, c, pointer_id, x, y),
            r,
        ) ==> joined(
            true,
            old(b)@,
            old(c)@,
            seq![
                TouchFrame { action: 1, pointer_id: pointer_id.code(), x, y, pressure: 0 },
            ],
            final(b)@,
            final(c)@,
            r,
        ),
        call_ensures(
            FrameBatcher::<TouchFrame>::try_up_pointer,
            (b, c, pointer_id, x, y),
            r,
        ) ==> joined(
            false,
            old(b)@,
            old(c)@,
            seq![
                TouchFrame { action: 1, pointer_id: pointer_id.code(), x, y, pressure: 0 },
            ],
            final(b)@,
            final(c)@,
            r,
        ),
        call_ensures(FrameBatcher::<TouchFrame>::cancel_pointer, (b, c, pointer_id), r) ==> joined(
            true,
            old(b)@,
            old(c)@,
            seq![
                TouchFrame { action: 3, pointer_id: pointer_id.code(), x: 0, y: 0, pressure: 0 },
            ],
            final(b)@,
            final(c)@,
            r,
        ),
        call_ensures(
            FrameBatcher::<TouchFrame>::try_cancel_pointer,
            (b, c, pointer_id),
            r,
        ) ==> joined(
            false,
            old(b)@,
            old(c)@,
            seq![
                TouchFrame { action: 3, pointer_id: pointer_id.code(), x: 0, y: 0, pressure: 0 },
            ],
            final(b)@,
            final(c)@,
            r,
        ),
{
    lemma_joined_once(
        true,
        old(b)@,
        old(c)@,
        TouchFrame { action: 0, pointer_id: pointer_id.code(), x, y, pressure },
        final(b)@,
        final(c)@,
        r,
    );
    lemma_joined_once(
        false,
        old(b)@,
        old(c)@,
        TouchFrame { action: 0, pointer_id: pointer_id.code(), x, y, pressure },
        final(b)@,
        final(c)@,
        r,
    );
    lemma_joined_once(
        true,
        old(b)@,
        old(c)@,
        TouchFrame { action: 2, pointer_id: pointer_id.code(), x, y, pressure },
        final(b)@,
        final(c)@,
        r,
    );
    lemma_joined_once(
        false,
        old(b)@,
        old(c)@,
        TouchFrame { action: 2, pointer_id: pointer_id.code(), x, y, pressure },
        final(b)@,
        final(c)@,
        r,
    );
    lemma_joined_once(
        true,
        old(b)@,
        old(c)@,
        TouchFrame { action: 1, pointer_id: pointer_id.code(), x, y, pressure: 0 },
        final(b)@,
        final(c)@,
        r,
    );
    lemma_joined_once(
        false,
        old(b)@,
        old(c)@,
        TouchFrame { action: 1, pointer_id: pointer_id.code(), x, y, pressure: 0 },
        final(b)@,
        final(c)@,
        r,
    );
    lemma_joined_once(
        true,
        old(b)@,
        old(c)@,
        TouchFrame { action: 3, pointer_id: pointer_id.code(), x: 0, y: 0, pressure: 0 },
        final(b)@,
        final(c)@,
        r,
    );
    lemma_joined_once(
        false,
        old(b)@,
        old(c)@,
        TouchFrame { action: 3, pointer_id: pointer_id.code(), x: 0, y: 0, pressure: 0 },
        final(b)@,
        final(c)@,
        r,
    );
}

/// A key edge joins the batch as it is. A tap joins it as a press under the modifiers
/// and a release under none.
pub proof fn lemma_key_pushes(
    b: &mut FrameBatcher<KeyboardFrame>,
    c: &mut HidClient,
    scancode: u8,
    pressed: bool,
    mods: Modifiers,
    r: Result<()>,
)
    requires
        old(b).valid(),
    ensures
        call_ensures(
            FrameBatcher::<KeyboardFrame>::key,
            (b, c, scancode, pressed, mods),
            r,
        ) ==> joined(
            true,
            old(b)@,
            old(c)@,
            seq![
                KeyboardFrame { scancode, pressed, mods },
            ],
            final(b)@,
            final(c)@,
            r,
        ),
        call_ensures(
            FrameBatcher::<KeyboardFrame>::try_key,
            (b, c, scancode, pressed, mods),
            r,
        ) ==> joined(
            false,
            old(b)@,
            old(c)@,
            seq![
                KeyboardFrame { scancode, pressed, mods },
            ],
            final(b)@,
            final(c)@,
            r,
        ),
        call_ensures(FrameBatcher::<KeyboardFrame>::tap_key, (b, c, scancode, mods), r) ==> joined(
            true,
            old(b)@,
            old(c)@,
            seq![
                KeyboardFrame { scancode, pressed: true, mods },
                KeyboardFrame { scancode, pressed: false, mods: Modifiers { bits: 0 } },
            ],
            final(b)@,
            final(c)@,
            r,
        ),
        call_ensures(
            FrameBatcher::<KeyboardFrame>::try_tap_key,
            (b, c, scancode, mods),
            r,
        ) ==> joined(
            false,
            old(b)@,
            old(c)@,
            seq![
                KeyboardFrame { scancode, pressed: true, mods },
                KeyboardFrame { scancode, pressed: false, mods: Modifiers { bits: 0 } },
            ],
            final(b)@,
            final(c)@,
            r,
        ),
{
    lemma_joined_once(
        true,
        old(b)@,
        old(c)@,
        KeyboardFrame { scancode, pressed, mods },
        final(b)@,
        final(c)@,
        r,
    );
    lemma_joined_once(
        false,
        old(b)@,
        old(c)@,
        KeyboardFrame { scancode, pressed, mods },
        final(b)@,
        final(c)@,
        r,
    );
    lemma_joined_twice(
        true,
        old(b)@,
        old(c)@,
        KeyboardFrame { scancode, pressed: true, mods },
        KeyboardFrame { scancode, pressed: false, mods: Modifiers { bits: 0 } },
        final(b)@,
        final(c)@,
        r,
    );
    lemma_joined_twice(
        false,
        old(b)@,
        old(c)@,
        KeyboardFrame { scancode, pressed: true, mods },
        KeyboardFrame { scancode, pressed: false, mods: Modifiers { bits: 0 } },
        final(b)@,
        final(c)@,
        r,
    );
}

/// A named key joins the batch by its usage code.
pub proof fn lemma_named_key_pushes(
    b: &mut FrameBatcher<KeyboardFrame>,
    c: &mut HidClient,
    scancode: Scancode,
    pressed: bool,
    mods: Modifiers,
    r: Result<()>,
)
    requires
        old(b).valid(),
    ensures
        call_ensures(
            FrameBatcher::<KeyboardFrame>::key_scancode,
            (b, c, scancode, pressed, mods),
            r,
        ) ==> joined(
            true,
            old(b)@,
            old(c)@,
            seq![
                KeyboardFrame { scancode: scancode.code(), pressed, mods },
            ],
            final(b)@,
            final(c)@,
            r,
        ),
        call_ensures(
            FrameBatcher::<KeyboardFrame>::try_key_scancode,
            (b, c, scancode, pressed, mods),
            r,
        ) ==> joined(
            false,
            old(b)@,
            old(c)@,
            seq![
                KeyboardFrame { scancode: scancode.code(), pressed, mods },
            ],
            final(b)@,
            final(c)@,
            r,
        ),
        call_ensures(
            FrameBatcher::<KeyboardFrame>::tap_scancode,
            (b, c, scancode, mods),
            r,
        ) ==> joined(
            true,
            old(b)@,
            old(c)@,
            seq![
                KeyboardFrame { scancode: scancode.code(), pressed: true, mods },
                KeyboardFrame { scancode: scancode.code(), pressed: false, mods: Modifiers { bits: 0 } },
            ],
            final(b)@,
            final(c)@,
            r,
        ),
        call_ensures(
            FrameBatcher::<KeyboardFrame>::try_tap_scancode,
            (b, c, scancode, mods),
            r,
        ) ==> joined(
            false,
            old(b)@,
            old(c)@,
            seq![
                KeyboardFrame { scancode: scancode.code(), pressed: true, mods },
                KeyboardFrame { scancode: scancode.code(), pressed: false, mods: Modifiers { bits: 0 } },
            ],
            final(b)@,
            final(c)@,
            r,
        ),
{
    lemma_joined_once(
        true,
        old(b)@,
        old(c)@,
        KeyboardFrame { scancode: scancode.code(), pressed, mods },
        final(b)@,
        final(c)@,
        r,
    );
    lemma_joined_once(
        false,
        old(b)@,
        old(c)@,
        KeyboardFrame { scancode: scancode.code(), pressed, mods },
        final(b)@,
        final(c)@,
        r,
    );
    lemma_joined_twice(
        true,
        old(b)@,
        old(c)@,
        KeyboardFrame { scancode: scancode.code(), pressed: true, mods },
        KeyboardFrame { scancode: scancode.code(), pressed: false, mods: Modifiers { bits: 0 } },
        final(b)@,
        final(c)@,
        r,
    );
    lemma_joined_twice(
        false,
        old(b)@,
        old(c)@,
        KeyboardFrame { scancode: scancode.code(), pressed: true, mods },
        KeyboardFrame { scancode: scancode.code(), pressed: false, mods: Modifiers { bits: 0 } },
        final(b)@,
        final(c)@,
        r,
    );
}

/// An Android key event joins the batch as it is, and a tap as a press and a release.
pub proof fn lemma_android_key_pushes(
    b: &mut FrameBatcher<AndroidKeyFrame>,
    c: &mut HidClient,
    action: u8,
    keycode: u32,
    repeat: u32,
    metastate: u32,
    r: Result<()>,
)
    requires
        old(b).valid(),
    ensures
        call_ensures(
            FrameBatcher::<AndroidKeyFrame>::keycode,
            (b, c, action, keycode, repeat, metastate),
            r,
        ) ==> joined(
            true,
            old(b)@,
            old(c)@,
            seq![
                AndroidKeyFrame { action, keycode, repeat, metastate },
            ],
            final(b)@,
            final(c)@,
            r,
        ),
        call_ensures(
            FrameBatcher::<AndroidKeyFrame>::try_keycode,
            (b, c, action, keycode, repeat, metastate),
            r,
        ) ==> joined(
            false,
            old(b)@,
            old(c)@,
            seq![
                AndroidKeyFrame { action, keycode, repeat, metastate },
            ],
            final(b)@,
            final(c)@,
            r,
        ),
        call_ensures(
            FrameBatcher::<AndroidKeyFrame>::tap_keycode,
            (b, c, keycode, metastate),
            r,
        ) ==> joined(
            true,
            old(b)@,
            old(c)@,
            seq![
                AndroidKeyFrame { action: 0, keycode, repeat: 0, metastate },
                AndroidKeyFrame { action: 1, keycode, repeat: 0, metastate },
            ],
            final(b)@,
            final(c)@,
            r,
        ),
        call_ensures(
            FrameBatcher::<AndroidKeyFrame>::try_tap_keycode,
            (b, c, keycode, metastate),
            r,
        ) ==> joined(
            false,
            old(b)@,
            old(c)@,
            seq![
                AndroidKeyFrame { action: 0, keycode, repeat: 0, metastate },
                AndroidKeyFrame { action: 1, keycode, repeat: 0, metastate },
            ],
            final(b)@,
            final(c)@,
            r,
        ),
{
    lemma_joined_once(
        true,
        old(b)@,
        old(c)@,
        AndroidKeyFrame { action, keycode, repeat, metastate },
        final(b)@,
        final(c)@,
        r,
    );
    lemma_joined_once(
        false,
        old(b)@,
        old(c)@,
        AndroidKeyFrame { action, keycode, repeat, metastate },
        final(b)@,
        final(c)@,
        r,
    );
    lemma_joined_twice(
        true,
        old(b)@,
        old(c)@,
        AndroidKeyFrame { action: 0, keycode, repeat: 0, metastate },
        AndroidKeyFrame { action: 1, keycode, repeat: 0, metastate },
        final(b)@,
        final(c)@,
        r,
    );
    lemma_joined_twice(
        false,
        old(b)@,
        old(c)@,
        AndroidKeyFrame { action: 0, keycode, repeat: 0, metastate },
        AndroidKeyFrame { action: 1, keycode, repeat: 0, metastate },
        final(b)@,
        final(c)@,
        r,
    );
}

/// A named Android key event joins the batch by the codes of its action and key.
pub proof fn lemma_android_key_event_pushes(
    b: &mut FrameBatcher<AndroidKeyFrame>,
    c: &mut HidClient,
    action: AndroidKeyAction,
    keycode: AndroidKeycode,
    repeat: u32,
    metastate: u32,
    r: Result<()>,
)
    requires
        old(b).valid(),
    ensures
        call_ensures(
            FrameBatcher::<AndroidKeyFrame>::key_event,
            (b, c, action, keycode, repeat, metastate),
            r,
        ) ==> joined(
            true,
            old(b)@,
            old(c)@,
            seq![
                AndroidKeyFrame { action: action.code(), keycode: keycode.code(), repeat, metastate },
            ],
            final(b)@,
            final(c)@,
            r,
        ),
        call_ensures(
            FrameBatcher::<AndroidKeyFrame>::try_key_event,
            (b, c, action, keycode, repeat, metastate),
            r,
        ) ==> joined(
            false,
            old(b)@,
            old(c)@,
            seq![
                AndroidKeyFrame { action: action.code(), keycode: keycode.code(), repeat, metastate },
            ],
            final(b)@,
            final(c)@,
            r,
        ),
{
    lemma_joined_once(
        true,
        old(b)@,
        old(c)@,
        AndroidKeyFrame { action: action.code(), keycode: keycode.code(), repeat, metastate },
        final(b)@,
        final(c)@,
        r,
    );
    lemma_joined_once(
        false,
        old(b)@,
        old(c)@,
        AndroidKeyFrame { action: action.code(), keycode: keycode.code(), repeat, metastate },
        final(b)@,
        final(c)@,
        r,
    );
}

/// A tap of a named Android key joins the batch as a press and a release of its code,
/// with the meta state given or none.
pub proof fn lemma_named_android_tap_pushes(
    b: &mut FrameBatcher<AndroidKeyFrame>,
    c: &mut HidClient,
    keycode: AndroidKeycode,
    metastate: u32,
    r: Result<()>,
)
    requires
        old(b).valid(),
    ensures
        call_ensures(FrameBatcher::<AndroidKeyFrame>::tap_key, (b, c, keycode), r) ==> joined(
            true,
            old(b)@,
            old(c)@,
            seq![
                AndroidKeyFrame { action: 0, keycode: keycode.code(), repeat: 0, metastate: 0 },
                AndroidKeyFrame { action: 1, keycode: keycode.code(), repeat: 0, metastate: 0 },
            ],
            final(b)@,
            final(c)@,
            r,
        ),
        call_ensures(FrameBatcher::<AndroidKeyFrame>::try_tap_key, (b, c, keycode), r) ==> joined(
            false,
            old(b)@,
            old(c)@,
            seq![
                AndroidKeyFrame { action: 0, keycode: keycode.code(), repeat: 0, metastate: 0 },
                AndroidKeyFrame { action: 1, keycode: keycode.code(), repeat: 0, metastate: 0 },
            ],
            final(b)@,
            final(c)@,
            r,
        ),
        call_ensures(
            FrameBatcher::<AndroidKeyFrame>::tap_key_with_metastate,
            (b, c, keycode, metastate),
            r,
        ) ==> joined(
            true,
            old(b)@,
            old(c)@,
            seq![
                AndroidKeyFrame { action: 0, keycode: keycode.code(), repeat: 0, metastate },
                AndroidKeyFrame { action: 1, keycode: keycode.code(), repeat: 0, metastate },
            ],
            final(b)@,
            final(c)@,
            r,
        ),
        call_ensures(
            FrameBatcher::<AndroidKeyFrame>::try_tap_key_with_metastate,
            (b, c, keycode, metastate),
            r,
        ) ==> joined(
            false,
            old(b)@,
            old(c)@,
            seq![
                AndroidKeyFrame { action: 0, keycode: keycode.code(), repeat: 0, metastate },
                AndroidKeyFrame { action: 1, keycode: keycode.code(), repeat: 0, metastate },
            ],
            final(b)@,
            final(c)@,
            r,
        ),
{
    lemma_joined_twice(
        true,
        old(b)@,
        old(c)@,
        AndroidKeyFrame { action: 0, keycode: keycode.code(), repeat: 0, metastate: 0 },
        AndroidKeyFrame { action: 1, keycode: keycode.code(), repeat: 0, metastate: 0 },
        final(b)@,
        final(c)@,
        r,
    );
    lemma_joined_twice(
        false,
        old(b)@,
        old(c)@,
        AndroidKeyFrame { action: 0, keycode: keycode.code(), repeat: 0, metastate: 0 },
        AndroidKeyFrame { action: 1, keycode: keycode.code(), repeat: 0, metastate: 0 },
        final(b)@,
        final(c)@,
        r,
    );
    lemma_joined_twice(
        true,
        old(b)@,
        old(c)@,
        AndroidKeyFrame { action: 0, keycode: keycode.code(), repeat: 0, metastate },
        AndroidKeyFrame { action: 1, keycode: keycode.code(), repeat: 0, metastate },
        final(b)@,
        final(c)@,
        r,
    );
    lemma_joined_twice(
        false,
        old(b)@,
        old(c)@,
        AndroidKeyFrame { action: 0, keycode: keycode.code(), repeat: 0, metastate },
        AndroidKeyFrame { action: 1, keycode: keycode.code(), repeat: 0, metastate },
        final(b)@,
        final(c)@,
        r,
    );
}

/// A mouse motion joins the batch with its way and buttons, and a button change with no
/// way.
pub proof fn lemma_motion_pushes(
    b: &mut FrameBatcher<MouseFrame>,
    c: &mut HidClient,
    dx: i32,
    dy: i32,
    buttons: u8,
    r: Result<()>,
)
    requires
        old(b).valid(),
    ensures
        call_ensures(FrameBatcher::<MouseFrame>::motion, (b, c, dx, dy, buttons), r) ==> joined(
            true,
            old(b)@,
            old(c)@,
            seq![
                MouseFrame { dx, dy, buttons },
            ],
            final(b)@,
            final(c)@,
            r,
        ),
        call_ensures(FrameBatcher::<MouseFrame>::try_motion, (b, c, dx, dy, buttons), r) ==> joined(
            false,
            old(b)@,
            old(c)@,
            seq![
                MouseFrame { dx, dy, buttons },
            ],
            final(b)@,
            final(c)@,
            r,
        ),
        call_ensures(FrameBatcher::<MouseFrame>::buttons, (b, c, buttons), r) ==> joined(
            true,
            old(b)@,
            old(c)@,
            seq![
                MouseFrame { dx: 0, dy: 0, buttons },
            ],
            final(b)@,
            final(c)@,
            r,
        ),
        call_ensures(FrameBatcher::<MouseFrame>::try_buttons, (b, c, buttons), r) ==> joined(
            false,
            old(b)@,
            old(c)@,
            seq![
                MouseFrame { dx: 0, dy: 0, buttons },
            ],
            final(b)@,
            final(c)@,
            r,
        ),
{
    lemma_joined_once(
        true,
        old(b)@,
        old(c)@,
        MouseFrame { dx, dy, buttons },
        final(b)@,
        final(c)@,
        r,
    );
    lemma_joined_once(
        false,
        old(b)@,
        old(c)@,
        MouseFrame { dx, dy, buttons },
        final(b)@,
        final(c)@,
        r,
    );
    lemma_joined_once(
        true,
        old(b)@,
        old(c)@,
        MouseFrame { dx: 0, dy: 0, buttons },
        final(b)@,
        final(c)@,
        r,
    );
    lemma_joined_once(
        false,
        old(b)@,
        old(c)@,
        MouseFrame { dx: 0, dy: 0, buttons },
        final(b)@,
        final(c)@,
        r,
    );
}

/// Listed buttons join the batch as the report byte with exactly them held.
pub proof fn lemma_listed_button_pushes(
    b: &mut FrameBatcher<MouseFrame>,
    c: &mut HidClient,
    dx: i32,
    dy: i32,
    buttons: &[MouseButton],
    r: Result<()>,
)
    requires
        old(b).valid(),
    ensures
        call_ensures(
            FrameBatcher::<MouseFrame>::motion_buttons,
            (b, c, dx, dy, buttons),
            r,
        ) ==> joined(
            true,
            old(b)@,
            old(c)@,
            seq![
                MouseFrame { dx, dy, buttons: MouseButton::held(buttons@) },
            ],
            final(b)@,
            final(c)@,
            r,
        ),
        call_ensures(
            FrameBatcher::<MouseFrame>::try_motion_buttons,
            (b, c, dx, dy, buttons),
            r,
        ) ==> joined(
            false,
            old(b)@,
            old(c)@,
            seq![
                MouseFrame { dx, dy, buttons: MouseButton::held(buttons@) },
            ],
            final(b)@,
            final(c)@,
            r,
        ),
        call_ensures(FrameBatcher::<MouseFrame>::button_state, (b, c, buttons), r) ==> joined(
            true,
            old(b)@,
            old(c)@,
            seq![
                MouseFrame { dx: 0, dy: 0, buttons: MouseButton::held(buttons@) },
            ],
            final(b)@,
            final(c)@,
            r,
        ),
        call_ensures(FrameBatcher::<MouseFrame>::try_button_state, (b, c, buttons), r) ==> joined(
            false,
            old(b)@,
            old(c)@,
            seq![
                MouseFrame { dx: 0, dy: 0, buttons: MouseButton::held(buttons@) },
            ],
            final(b)@,
            final(c)@,
            r,
        ),
{
    lemma_joined_once(
        true,
        old(b)@,
        old(c)@,
        MouseFrame { dx, dy, buttons: MouseButton::held(buttons@) },
        final(b)@,
        final(c)@,
        r,
    );
    lemma_joined_once(
        false,
        old(b)@,
        old(c)@,
        MouseFrame { dx, dy, buttons: MouseButton::held(buttons@) },
        final(b)@,
        final(c)@,
        r,
    );
    lemma_joined_once(
        true,
        old(b)@,
        old(c)@,
        MouseFrame { dx: 0, dy: 0, buttons: MouseButton::held(buttons@) },
        final(b)@,
        final(c)@,
        r,
    );
    lemma_joined_once(
        false,
        old(b)@,
        old(c)@,
        MouseFrame { dx: 0, dy: 0, buttons: MouseButton::held(buttons@) },
        final(b)@,
        final(c)@,
        r,
    );
}

/// A scroll joins the batch at its point with its way, with the buttons given or none.
pub proof fn lemma_scroll_pushes(
    b: &mut FrameBatcher<ScrollFrame>,
    c: &mut HidClient,
    x: i32,
    y: i32,
    hscroll: u32,
    vscroll: u32,
    buttons: u32,
    r: Result<()>,
)
    requires
        old(b).valid(),
    ensures
        call_ensures(
            FrameBatcher::<ScrollFrame>::scroll,
            (b, c, x, y, hscroll, vscroll),
            r,
        ) ==> joined(
            true,
            old(b)@,
            old(c)@,
            seq![
                ScrollFrame { x, y, hscroll, vscroll, buttons: 0 },
            ],
            final(b)@,
            final(c)@,
            r,
        ),
        call_ensures(
            FrameBatcher::<ScrollFrame>::try_scroll,
            (b, c, x, y, hscroll, vscroll),
            r,
        ) ==> joined(
            false,
            old(b)@,
            old(c)@,
            seq![
                ScrollFrame { x, y, hscroll, vscroll, buttons: 0 },
            ],
            final(b)@,
            final(c)@,
            r,
        ),
        call_ensures(
            FrameBatcher::<ScrollFrame>::scroll_with_buttons,
            (b, c, x, y, hscroll, vscroll, buttons),
            r,
        ) ==> joined(
            true,
            old(b)@,
            old(c)@,
            seq![
                ScrollFrame { x, y, hscroll, vscroll, buttons },
            ],
            final(b)@,
            final(c)@,
            r,
        ),
        call_ensures(
            FrameBatcher::<ScrollFrame>::try_scroll_with_buttons,
            (b, c, x, y, hscroll, vscroll, buttons),
            r,
        ) ==> joined(
            false,
            old(b)@,
            old(c)@,
            seq![
                ScrollFrame { x, y, hscroll, vscroll, buttons },
            ],
            final(b)@,
            final(c)@,
            r,
        ),
{
    lemma_joined_once(
        true,
        old(b)@,
        old(c)@,
        ScrollFrame { x, y, hscroll, vscroll, buttons: 0 },
        final(b)@,
        final(c)@,
        r,
    );
    lemma_joined_once(
        false,
        old(b)@,
        old(c)@,
        ScrollFrame { x, y, hscroll, vscroll, buttons: 0 },
        final(b)@,
        final(c)@,
        r,
    );
    lemma_joined_once(
        true,
        old(b)@,
        old(c)@,
        ScrollFrame { x, y, hscroll, vscroll, buttons },
        final(b)@,
        final(c)@,
        r,
    );
    lemma_joined_once(
        false,
        old(b)@,
        old(c)@,
        ScrollFrame { x, y, hscroll, vscroll, buttons },
        final(b)@,
        final(c)@,
        r,
    );
}

/// A push joins the batch, plain or bounded.
pub proof fn lemma_frame_pushes<F: BatchFrame>(
    b: &mut FrameBatcher<F>,
    c: &mut HidClient,
    frame: F,
    r: Result<()>,
)
    requires
        1 < F::cap(),
        old(b).valid(),
    ensures
        call_ensures(FrameBatcher::<F>::push, (b, c, frame), r) ==> joined(
            true,
            old(b)@,
            old(c)@,
            seq![frame],
            final(b)@,
            final(c)@,
            r,
        ),
        call_ensures(FrameBatcher::<F>::try_push, (b, c, frame), r) ==> joined(
            false,
            old(b)@,
            old(c)@,
            seq![frame],
            final(b)@,
            final(c)@,
            r,
        ),
{
    lemma_joined_once(true, old(b)@, old(c)@, frame, final(b)@, final(c)@, r);
    lemma_joined_once(false, old(b)@, old(c)@, frame, final(b)@, final(c)@, r);
}

/// Many frames joined a batch: on success all of them, behind all earlier ones, and
/// otherwise a leading part of them. Nothing is sent to a client that is gone, and
/// nothing fails where a plain send finds it there.
pub open spec fn all_joined<F: BatchFrame>(
    plain: bool,
    b0: Seq<F>,
    c0: ClientView,
    frames: Seq<F>,
    b1: Seq<F>,
    c1: ClientView,
    r: Result<()>,
) -> bool {
    &&& r is Ok ==> stream::<F>(c1.queue) + b1 == stream::<F>(c0.queue) + b0 + frames
    &&& r is Err ==> exists|k: int|
        0 <= k <= (b0 + frames).len() && stream::<F>(c1.queue) + b1 == stream::<F>(c0.queue)
            + #[trigger] (b0 + frames).take(k)
    &&& c1.queue.take(c0.queue.len() as int) == c0.queue
    &&& plain && c0.connected ==> r is Ok
    &&& !c0.connected ==> c1.queue == c0.queue
    &&& !plain && c1.queue.len() > c0.queue.len() && c0.bound > 0 ==> c1.queue.len() <= c0.bound
    &&& r is Err ==> !takes(plain, c1)
    &&& frames.len() == 0 ==> r is Ok && b1 == b0
}

proof fn lemma_all_joined<F: BatchFrame>(
    plain: bool,
    b0: Seq<F>,
    c0: ClientView,
    frames: Seq<F>,
    b1: Seq<F>,
    c1: ClientView,
    r: Result<()>,
)
    requires
        1 < F::cap(),
        b0.len() <= F::cap(),
    ensures
        pushed_all(b0, c0, frames, plain, b1, c1, r) ==> all_joined(plain, b0, c0, frames, b1, c1, r),
        pushed_in_turn(b0, c0, frames, plain, b1, c1, r) ==> all_joined(
            plain,
            b0,
            c0,
            frames,
            b1,
            c1,
            r,
        ),
{
    let all = b0 + frames;
    let done = c1.queue.len() - c0.queue.len();
    assert(0 * F::cap() == 0) by (nonlinear_arith);
    assert(1 * F::cap() == F::cap()) by (nonlinear_arith);
    if pushed_all(b0, c0, frames, plain, b1, c1, r) {
        lemma_slice_keeps_frames(b0, c0, frames, plain, b1, c1, r);
        if done == 0 {
            assert(c1.queue =~= c0.queue);
        }
        if frames.len() == 0 {
            assert(cut(F::cap(), 0) == 0);
            assert(all.skip(0) =~= b0);
        }
    }
    if pushed_in_turn(b0, c0, frames, plain, b1, c1, r) {
        lemma_turns_keep_frames(b0, c0, frames, plain, b1, c1, r);
        if done == 0 {
            assert(c1.queue =~= c0.queue);
        }
        if frames.len() == 0 {
            assert(cut(F::cap(), 0) == 0);
            assert(cut(F::cap(), done + 1) >= F::cap()) by (nonlinear_arith)
                requires
                    done >= 0,
                    cut(F::cap(), done + 1) == (done + 1) * F::cap(),
            ;
            if done > 0 {
                assert(cut(F::cap(), done) >= F::cap()) by (nonlinear_arith)
                    requires
                        done >= 1,
                        cut(F::cap(), done) == done * F::cap(),
                ;
            }
            assert(all =~= b0);
            assert(all.skip(0) =~= b0);
        }
    }
}

/// Pushes of many frames, in turn or as a slice, plain or bounded.
pub proof fn lemma_many_pushes<F: BatchFrame>(
    b: &mut FrameBatcher<F>,
    c: &mut HidClient,
    frames: &Vec<F>,
    slice: &[F],
    r: Result<()>,
)
    requires
        1 < F::cap(),
        old(b).valid(),
    ensures
        call_ensures(FrameBatcher::<F>::push_many, (b, c, frames), r) ==> all_joined(
            true,
            old(b)@,
            old(c)@,
            frames@,
            final(b)@,
            final(c)@,
            r,
        ),
        call_ensures(FrameBatcher::<F>::try_push_many, (b, c, frames), r) ==> all_joined(
            false,
            old(b)@,
            old(c)@,
            frames@,
            final(b)@,
            final(c)@,
            r,
        ),
        call_ensures(FrameBatcher::<F>::push_many_slice, (b, c, slice), r) ==> all_joined(
            true,
            old(b)@,
            old(c)@,
            slice@,
            final(b)@,
            final(c)@,
            r,
        ) && (r is Ok && slice@.len() > 0 ==> final(b)@.len() < F::cap()),
        call_ensures(FrameBatcher::<F>::try_push_many_slice, (b, c, slice), r) ==> all_joined(
            false,
            old(b)@,
            old(c)@,
            slice@,
            final(b)@,
            final(c)@,
            r,
        ) && (r is Ok && slice@.len() > 0 ==> final(b)@.len() < F::cap()),
{
    lemma_all_joined(true, old(b)@, old(c)@, frames@, final(b)@, final(c)@, r);
    lemma_all_joined(false, old(b)@, old(c)@, frames@, final(b)@, final(c)@, r);
    lemma_all_joined(true, old(b)@, old(c)@, slice@, final(b)@, final(c)@, r);
    lemma_all_joined(false, old(b)@, old(c)@, slice@, final(b)@, final(c)@, r);
}

/// The edges of a chord join the batch: presses in order, releases in reverse, and the
/// last release lets the modifiers go.
pub proof fn lemma_chord_pushes(
    b: &mut FrameBatcher<KeyboardFrame>,
    c: &mut HidClient,
    chord: KeyboardChordFrame,
    r: Result<()>,
    i: int,
)
    requires
        old(b).valid(),
        0 <= i < chord.len,
    ensures
        call_ensures(FrameBatcher::<KeyboardFrame>::chord, (b, c, chord), r) && chord.len <= 6
            ==> exists|edges: Seq<KeyboardFrame>| #[trigger]
            all_joined(true, old(b)@, old(c)@, edges, final(b)@, final(c)@, r) && plays(
                edges,
                chord.keys@.take(chord.len as int),
                chord.mods,
            ),
        call_ensures(FrameBatcher::<KeyboardFrame>::try_chord, (b, c, chord), r) && chord.len <= 6
            ==> exists|edges: Seq<KeyboardFrame>| #[trigger]
            all_joined(false, old(b)@, old(c)@, edges, final(b)@, final(c)@, r) && plays(
                edges,
                chord.keys@.take(chord.len as int),
                chord.mods,
            ),
        (call_ensures(FrameBatcher::<KeyboardFrame>::chord, (b, c, chord), r) || call_ensures(
            FrameBatcher::<KeyboardFrame>::try_chord,
            (b, c, chord),
            r,
        )) && chord.len > 6 ==> r is Err && final(b)@ == old(b)@ && final(c)@ == old(c)@,
{
    lemma_all_joined(true, old(b)@, old(c)@, chord.edges(), final(b)@, final(c)@, r);
    lemma_all_joined(false, old(b)@, old(c)@, chord.edges(), final(b)@, final(c)@, r);
    if chord.len <= 6 {
        lemma_chord_plays(chord);
    }
}

/// Whether some edges press the keys in order, release them in reverse, and hold the
/// modifiers up to the last release, which lets them go.
pub open spec fn plays(edges: Seq<KeyboardFrame>, keys: Seq<u8>, mods: Modifiers) -> bool {
    let n = keys.len() as int;
    &&& edges.len() == 2 * n
    &&& forall|i: int|
        #![trigger keys[i]]
        0 <= i < n ==> {
            let (down, up) = (edges[i], edges[2 * n - 1 - i]);
            &&& down.scancode == keys[i] && down.pressed && down.mods == mods
            &&& up.scancode == keys[i] && !up.pressed
            &&& i > 0 ==> up.mods == mods
            &&& i == 0 ==> up.mods.bits == 0
        }
}

proof fn lemma_chord_plays(chord: KeyboardChordFrame)
    requires
        chord.len <= 6,
    ensures
        plays(chord.edges(), chord.keys@.take(chord.len as int), chord.mods),
{
    let n = chord.len as int;
    let keys = chord.keys@.take(n);
    let edges = chord.edges();
    assert forall|i: int| #![trigger keys[i]] 0 <= i < n implies ({
        let (down, up) = (edges[i], edges[2 * n - 1 - i]);
        &&& down.scancode == keys[i] && down.pressed && down.mods == chord.mods
        &&& up.scancode == keys[i] && !up.pressed
        &&& i > 0 ==> up.mods == chord.mods
        &&& i == 0 ==> up.mods.bits == 0
    }) by {
        lemma_chord_releases_in_reverse(chord, i);
        lemma_chord_clears_modifiers(chord);
    }
}

/// A chord over named keys joins the batch with their codes; it is refused where it
/// names too many keys or a modifier.
pub proof fn lemma_named_chord_pushes(
    b: &mut FrameBatcher<KeyboardFrame>,
    c: &mut HidClient,
    scancodes: &[Scancode],
    mods: Modifiers,
    r: Result<()>,
)
    requires
        old(b).valid(),
    ensures
        call_ensures(FrameBatcher::<KeyboardFrame>::scancode_chord, (b, c, scancodes, mods), r)
            && scancodes@.len() <= 6 && !names_modifier(scancodes@) ==> exists|
            edges: Seq<KeyboardFrame>,
        | #[trigger]
            all_joined(true, old(b)@, old(c)@, edges, final(b)@, final(c)@, r) && plays(
                edges,
                scancodes@.map_values(|s: Scancode| s.code()),
                mods,
            ),
        call_ensures(FrameBatcher::<KeyboardFrame>::try_scancode_chord, (b, c, scancodes, mods), r)
            && scancodes@.len() <= 6 && !names_modifier(scancodes@) ==> exists|
            edges: Seq<KeyboardFrame>,
        | #[trigger]
            all_joined(false, old(b)@, old(c)@, edges, final(b)@, final(c)@, r) && plays(
                edges,
                scancodes@.map_values(|s: Scancode| s.code()),
                mods,
            ),
        (call_ensures(FrameBatcher::<KeyboardFrame>::scancode_chord, (b, c, scancodes, mods), r)
            || call_ensures(
            FrameBatcher::<KeyboardFrame>::try_scancode_chord,
            (b, c, scancodes, mods),
            r,
        )) && (scancodes@.len() > 6 || names_modifier(scancodes@)) ==> r is Err && final(b)@ == old(b)@ && final(c)@ == old(c)@,
{
    let codes = scancodes@.map_values(|s: Scancode| s.code());
    assert forall|chord: KeyboardChordFrame|
        scancodes@.len() <= 6 && #[trigger] names_chord(scancodes@, mods, chord) implies plays(
        chord.edges(),
        codes,
        mods,
    ) by {
        assert forall|i: int| 0 <= i < scancodes@.len() implies chord.keys@[i]
            == scancodes@[i].code() && chord.mods == mods by {
            lemma_chord_presses_named_keys(scancodes@, mods, chord, i);
            lemma_chord_releases_in_reverse(chord, i);
        }
        lemma_chord_plays(chord);
        assert(chord.len == scancodes@.len());
        assert(chord.keys@.take(chord.len as int) =~= codes);
    }
    assert forall|chord: KeyboardChordFrame, plain: bool|
        #![trigger pushed_all(old(b)@, old(c)@, chord.edges(), plain, final(b)@, final(c)@, r)]
        pushed_all(
            old(b)@,
            old(c)@,
            chord.edges(),
            plain,
            final(b)@,
            final(c)@,
            r,
        ) implies all_joined(plain, old(b)@, old(c)@, chord.edges(), final(b)@, final(c)@, r) by {
        lemma_all_joined(plain, old(b)@, old(c)@, chord.edges(), final(b)@, final(c)@, r);
    }
}

/// A flush delivers what is held in one command, and asks nothing where nothing is held.
pub proof fn lemma_batch_flushes<F: BatchFrame>(
    b: &mut FrameBatcher<F>,
    c: &mut HidClient,
    plain: bool,
    r: Result<()>,
)
    requires
        1 < F::cap(),
        old(b).valid(),
        if plain {
            call_ensures(FrameBatcher::<F>::flush, (b, c), r)
        } else {
            call_ensures(FrameBatcher::<F>::try_flush, (b, c), r)
        },
    ensures
        r is Ok ==> final(b)@.len() == 0 && stream::<F>(final(c)@.queue) == stream::<F>(
            old(c)@.queue,
        ) + old(b)@,
        r is Err ==> final(b)@ == old(b)@ && final(c)@ == old(c)@,
        old(b)@.len() == 0 ==> r is Ok && final(c)@ == old(c)@,
        old(b)@.len() > 0 ==> (r is Ok <==> takes(plain, old(c)@)),
        old(b)@.len() > 0 && r is Ok ==> final(c)@.queue.len() == old(c)@.queue.len() + 1,
{
    lemma_flush_keeps_frames(old(b)@, old(c)@, plain, final(b)@, final(c)@, r);
    lemma_flush_sends_once(old(b)@, old(c)@, plain, final(b)@, final(c)@, r);
}

/// A new batcher holds nothing, whoever makes it, and tells how much it holds.
pub proof fn lemma_new_batchers<F: BatchFrame>(
    c: &HidClient,
    b: &FrameBatcher<F>,
    n: usize,
    e: bool,
    f: FrameBatcher<F>,
    t: FrameBatcher<TouchFrame>,
    k: FrameBatcher<KeyboardFrame>,
    a: FrameBatcher<AndroidKeyFrame>,
    m: FrameBatcher<MouseFrame>,
    s: FrameBatcher<ScrollFrame>,
)
    ensures
        call_ensures(FrameBatcher::<F>::len, (b,), n) ==> n == b@.len(),
        call_ensures(FrameBatcher::<F>::is_empty, (b,), e) ==> (e <==> b@.len() == 0),
        call_ensures(FrameBatcher::<F>::new, (), f) ==> f@.len() == 0,
        call_ensures(HidClient::touch_frame_batcher, (c,), t) ==> t@.len() == 0,
        call_ensures(HidClient::keyboard_frame_batcher, (c,), k) ==> k@.len() == 0,
        call_ensures(HidClient::android_key_frame_batcher, (c,), a) ==> a@.len() == 0,
        call_ensures(HidClient::mouse_frame_batcher, (c,), m) ==> m@.len() == 0,
        call_ensures(HidClient::scroll_frame_batcher, (c,), s) ==> s@.len() == 0,
{
}

/// Why a chord over named keys does not join a batch.
pub proof fn lemma_chord_push_refusals_are_named(
    b: &mut FrameBatcher<KeyboardFrame>,
    c: &mut HidClient,
    scancodes: &[Scancode],
    mods: Modifiers,
    r: Result<()>,
)
    requires
        call_ensures(FrameBatcher::<KeyboardFrame>::scancode_chord, (b, c, scancodes, mods), r)
            || call_ensures(
            FrameBatcher::<KeyboardFrame>::try_scancode_chord,
            (b, c, scancodes, mods),
            r,
        ),
    ensures
        scancodes@.len() > 6 ==> r == Err::<(), Error>(
            Error::SessionLifecycle("keyboard chord too large"),
        ),
        scancodes@.len() <= 6 && names_modifier(scancodes@) ==> r == Err::<(), Error>(
            Error::SessionLifecycle("keyboard chord keys must be non-modifier scancodes"),
        ),
{
}

} // verus!
