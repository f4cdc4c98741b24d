//! Touch gestures as queued commands.
//!
//! A gesture is queued as touch batches followed by an acknowledged flush, whose
//! ticket it returns.
use vstd::prelude::*;

use crate::batch::{
    cut, flushed, pushed_all, sent_batches, sent_one, BatchFrame, TouchFrameBatcher,
};
use crate::client::{ClientView, HidClient};
use crate::command::HidCommand;
use crate::error::{Error, Result};
use crate::frames::{TouchFrame, F32_ONE_BITS, TOUCH_BATCH_FRAMES};
use crate::types::{TouchAction, TouchPointerId};

verus! {

/// Whether the client went from `old` to `new` by queueing `frames` in batches:
/// full ones, and a last one with the rest.
pub open spec fn path_sent(old: ClientView, new: ClientView, frames: Seq<TouchFrame>) -> bool {
    let n = new.queue.len() - old.queue.len();
    &&& new == (ClientView { queue: new.queue, ..old })
    &&& new.queue.len() >= old.queue.len()
    &&& new.queue.take(old.queue.len() as int) == old.queue
    &&& frames.len() <= TOUCH_BATCH_FRAMES * n
    &&& TOUCH_BATCH_FRAMES * (n - 1) < frames.len() || n == 0
    &&& forall|j: int|
        0 <= j < n ==> TouchFrame::batch_of(
            #[trigger] new.queue[old.queue.len() + j],
            batch_piece(frames, j),
        )
}

/// The frames of the `j`-th batch.
pub open spec fn batch_piece(frames: Seq<TouchFrame>, j: int) -> Seq<TouchFrame> {
    let from = TOUCH_BATCH_FRAMES * j;
    let to = TOUCH_BATCH_FRAMES * (j + 1);
    frames.subrange(from, if to <= frames.len() { to } else { frames.len() as int })
}

/// Whether a gesture of `frames` took the client from `old` to `new`.
pub open spec fn gesture_queued(
    old: ClientView,
    new: ClientView,
    frames: Seq<TouchFrame>,
    r: Result<u64>,
) -> bool {
    if old.connected {
        &&& r == Ok::<u64, Error>(old.next_ticket)
        &&& exists|mid: ClientView| #[trigger]
            path_sent(old, mid, frames) && new == mid.flush_queued()
    } else {
        r == Err::<u64, Error>(Error::DispatcherDown("channel disconnected")) && new == old
    }
}

pub open spec fn down_frame(id: u64, x: i32, y: i32) -> TouchFrame {
    TouchFrame { action: 0, pointer_id: id, x, y, pressure: F32_ONE_BITS }
}

pub open spec fn move_frame(id: u64, x: i32, y: i32) -> TouchFrame {
    TouchFrame { action: 2, pointer_id: id, x, y, pressure: F32_ONE_BITS }
}

pub open spec fn up_frame(id: u64, x: i32, y: i32) -> TouchFrame {
    TouchFrame { action: 1, pointer_id: id, x, y, pressure: 0 }
}

/// The frames of a swipe along `path`.
pub open spec fn swipe_frames(
    id: u64,
    from: (i32, i32),
    to: (i32, i32),
    path: Seq<(i32, i32)>,
) -> Seq<TouchFrame> {
    seq![down_frame(id, from.0, from.1)] + Seq::new(
        path.len(),
        |i: int| move_frame(id, path[i].0, path[i].1),
    ) + seq![up_frame(id, to.0, to.1)]
}

/// Column of a finger in the three-finger gesture.
pub open spec fn finger_x(w: int, id: int) -> int {
    w / 4 * (id + 1)
}

/// Row of the three fingers after `step` of ten steps.
pub open spec fn finger_y(h: int, step: int) -> int {
    h / 4 + h / 2 * step / 10
}

/// The frames of the three-finger gesture: three fingers down in the upper
/// quarter, ten steps down the screen, and up at three quarters.
pub open spec fn screenshot_frames(w: int, h: int) -> Seq<TouchFrame> {
    Seq::new(
        36,
        |i: int|
            if i < 3 {
                down_frame(i as u64, finger_x(w, i) as i32, (h / 4) as i32)
            } else if i < 33 {
                move_frame(
                    (i % 3) as u64,
                    finger_x(w, i % 3) as i32,
                    finger_y(h, i / 3) as i32,
                )
            } else {
                up_frame((i - 33) as u64, finger_x(w, i - 33) as i32, (h * 3 / 4) as i32)
            },
    )
}

proof fn lemma_touch_cut(j: int)
    ensures
        cut(TouchFrame::cap(), j) == TOUCH_BATCH_FRAMES * j,
{
    let step = TouchFrame::cap();
    assert(j * step == 24 * j) by (nonlinear_arith)
        requires
            step == 24,
    ;
}

proof fn lemma_batches_are_path(
    c0: ClientView,
    c1: ClientView,
    c2: ClientView,
    frames: Seq<TouchFrame>,
    rest: Seq<TouchFrame>,
)
    requires
        c0.queue.len() <= c1.queue.len(),
        sent_batches(c0, c1, frames, (c1.queue.len() - c0.queue.len()) as nat),
        rest == frames.skip(cut(TouchFrame::cap(), c1.queue.len() - c0.queue.len())),
        rest.len() < TOUCH_BATCH_FRAMES,
        frames.len() > 0,
        rest.len() == 0 ==> c2 == c1,
        rest.len() > 0 ==> sent_one(c1, c2, rest),
    ensures
        path_sent(c0, c2, frames),
{
    let done = c1.queue.len() - c0.queue.len();
    let n = c2.queue.len() - c0.queue.len();
    let old_len = c0.queue.len();
    lemma_touch_cut(done);
    assert(c2.queue.take(old_len as int) =~= c1.queue.take(old_len as int));
    assert forall|j: int| 0 <= j < n implies TouchFrame::batch_of(
        #[trigger] c2.queue[old_len + j],
        batch_piece(frames, j),
    ) by {
        lemma_touch_cut(j);
        lemma_touch_cut(j + 1);
        if j < done {
            assert(c2.queue[old_len + j] == c1.queue[old_len + j]);
            assert(batch_piece(frames, j) =~= frames.subrange(
                cut(TouchFrame::cap(), j),
                cut(TouchFrame::cap(), j + 1),
            ));
        } else {
            assert(c2.queue[old_len + j] == c2.queue.last());
            assert(batch_piece(frames, j) =~= rest);
        }
    }
}

/// Queues a path of touch frames in batches.
fn send_touch_path(client: &mut HidClient, frames: &[TouchFrame]) -> (r: Result<()>)
    requires
        frames@.len() > 0,
    ensures
        r == old(client)@.send_result(),
        match r {
            Ok(_) => path_sent(old(client)@, final(client)@, frames@),
            Err(_) => final(client)@ == old(client)@,
        },
{
    let ghost c0 = client@;
    let mut batch: TouchFrameBatcher = TouchFrameBatcher::new();
    let ghost b0 = batch@;
    let pushed = batch.push_many_slice(client, frames);
    let ghost c1 = client@;
    let ghost b1 = batch@;
    proof {
        assert(b0 + frames@ =~= frames@);
        assert(pushed_all(b0, c0, frames@, true, b1, c1, pushed));
        lemma_touch_cut(c1.queue.len() - c0.queue.len());
        assert(c1.queue.take(c1.queue.len() as int) =~= c1.queue);
    }
    match pushed {
        Ok(_) => {},
        Err(e) => {
            return Err(e);
        },
    }
    let r = batch.flush(client);
    proof {
        assert(flushed(b1, c1, true, batch@, client@, r));
        if c0.connected {
            assert(r is Ok);
            assert(b1.len() == 0 ==> client@ == c1);
            lemma_batches_are_path(c0, c1, client@, frames@, b1);
        } else {
            assert(b1 =~= frames@);
        }
    }
    r
}

fn down(id: u64, x: i32, y: i32) -> (f: TouchFrame)
    ensures
        f == down_frame(id, x, y),
{
    TouchFrame::new(0, id, x, y, F32_ONE_BITS)
}

fn up(id: u64, x: i32, y: i32) -> (f: TouchFrame)
    ensures
        f == up_frame(id, x, y),
{
    TouchFrame::new(1, id, x, y, 0)
}

/// Steps of a swipe: at least one.
pub fn swipe_steps(steps: usize) -> (n: usize)
    ensures
        n == if steps == 0 { 1 } else { steps },
{
    if steps == 0 {
        1
    } else {
        steps
    }
}

impl HidClient {
    fn gesture(&mut self, frames: &[TouchFrame]) -> (r: Result<u64>)
        requires
            frames@.len() > 0,
        ensures
            gesture_queued(old(self)@, final(self)@, frames@, r),
    {
        match send_touch_path(self, frames) {
            Ok(_) => {
                assert(path_sent(old(self)@, self@, frames@));
                self.flush_wait()
            },
            Err(e) => Err(e),
        }
    }

    /// A tap with the first finger.
    pub fn tap(&mut self, x: i32, y: i32) -> (r: Result<u64>)
        ensures
            gesture_queued(
                old(self)@,
                final(self)@,
                seq![down_frame(0, x, y), up_frame(0, x, y)],
                r,
            ),
    {
        self.tap_pointer(TouchPointerId::finger(0), x, y)
    }

    /// A tap with a given pointer.
    pub fn tap_pointer(&mut self, pointer_id: TouchPointerId, x: i32, y: i32) -> (r: Result<u64>)
        ensures
            gesture_queued(
                old(self)@,
                final(self)@,
                seq![down_frame(pointer_id.code(), x, y), up_frame(pointer_id.code(), x, y)],
                r,
            ),
    {
        let id: u64 = pointer_id.value();
        let frames: [TouchFrame; 2] = [down(id, x, y), up(id, x, y)];
        assert(frames@ =~= seq![down_frame(id, x, y), up_frame(id, x, y)]);
        self.gesture(frames.as_slice())
    }

    /// Two taps with the first finger.
    pub fn double_tap(&mut self, x: i32, y: i32) -> (r: Result<u64>)
        ensures
            gesture_queued(
                old(self)@,
                final(self)@,
                seq![
                    down_frame(0, x, y),
                    up_frame(0, x, y),
                    down_frame(0, x, y),
                    up_frame(0, x, y),
                ],
                r,
            ),
    {
        self.double_tap_pointer(TouchPointerId::finger(0), x, y)
    }

    /// Two taps with a given pointer.
    pub fn double_tap_pointer(&mut self, pointer_id: TouchPointerId, x: i32, y: i32) -> (r: Result<
        u64,
    >)
        ensures
            gesture_queued(
                old(self)@,
                final(self)@,
                seq![
                    down_frame(pointer_id.code(), x, y),
                    up_frame(pointer_id.code(), x, y),
                    down_frame(pointer_id.code(), x, y),
                    up_frame(pointer_id.code(), x, y),
                ],
                r,
            ),
    {
        let id: u64 = pointer_id.value();
        let frames: [TouchFrame; 4] = [
            down(id, x, y),
            up(id, x, y),
            down(id, x, y),
            up(id, x, y),
        ];
        assert(frames@ =~= seq![
            down_frame(id, x, y),
            up_frame(id, x, y),
            down_frame(id, x, y),
            up_frame(id, x, y),
        ]);
        self.gesture(frames.as_slice())
    }

    /// A swipe with the first finger along the points of `path`.
    pub fn swipe(&mut self, from: (i32, i32), to: (i32, i32), path: &[(i32, i32)]) -> (r: Result<
        u64,
    >)
        ensures
            gesture_queued(old(self)@, final(self)@, swipe_frames(0, from, to, path@), r),
    {
        self.swipe_pointer(TouchPointerId::finger(0), from, to, path)
    }

    /// A swipe with a given pointer along the points of `path`.
    pub fn swipe_pointer(
        &mut self,
        pointer_id: TouchPointerId,
        from: (i32, i32),
        to: (i32, i32),
        path: &[(i32, i32)],
    ) -> (r: Result<u64>)
        ensures
            gesture_queued(
                old(self)@,
                final(self)@,
                swipe_frames(pointer_id.code(), from, to, path@),
                r,
            ),
    {
        let id: u64 = pointer_id.value();
        let mut frames: Vec<TouchFrame> = Vec::new();
        frames.push(down(id, from.0, from.1));
        let mut i: usize = 0;
        while i < path.len()
            invariant
                i <= path@.len(),
                frames@ =~= seq![down_frame(id, from.0, from.1)] + Seq::new(
                    i as nat,
                    |j: int| move_frame(id, path@[j].0, path@[j].1),
                ),
            decreases path@.len() - i,
        {
            let p: (i32, i32) = path[i];
            frames.push(TouchFrame::new(2, id, p.0, p.1, F32_ONE_BITS));
            i = i + 1;
        }
        frames.push(up(id, to.0, to.1));
        assert(frames@ =~= swipe_frames(id, from, to, path@));
        self.gesture(frames.as_slice())
    }

    /// The press that begins a long press with the first finger. The caller waits
    /// for the press to be flushed, holds it, and then calls
    /// [`HidClient::long_press_release`].
    pub fn long_press(&mut self, x: i32, y: i32) -> (r: Result<u64>)
        ensures
            gesture_queued(old(self)@, final(self)@, seq![down_frame(0, x, y)], r),
    {
        self.long_press_pointer(TouchPointerId::finger(0), x, y)
    }

    /// The press that begins a long press with a given pointer.
    pub fn long_press_pointer(&mut self, pointer_id: TouchPointerId, x: i32, y: i32) -> (r: Result<
        u64,
    >)
        ensures
            gesture_queued(
                old(self)@,
                final(self)@,
                seq![down_frame(pointer_id.code(), x, y)],
                r,
            ),
    {
        let frames: [TouchFrame; 1] = [down(pointer_id.value(), x, y)];
        assert(frames@ =~= seq![down_frame(pointer_id.code(), x, y)]);
        self.gesture(frames.as_slice())
    }

    /// The release that ends a long press.
    pub fn long_press_release(&mut self, pointer_id: TouchPointerId, x: i32, y: i32) -> (r: Result<
        u64,
    >)
        ensures
            gesture_queued(old(self)@, final(self)@, seq![up_frame(pointer_id.code(), x, y)], r),
    {
        let frames: [TouchFrame; 1] = [up(pointer_id.value(), x, y)];
        assert(frames@ =~= seq![up_frame(pointer_id.code(), x, y)]);
        self.gesture(frames.as_slice())
    }

    /// The three-finger screenshot gesture on a screen of the given size.
    pub fn three_finger_screenshot(&mut self, screen_w: u16, screen_h: u16) -> (r: Result<u64>)
        ensures
            gesture_queued(
                old(self)@,
                final(self)@,
                screenshot_frames(screen_w as int, screen_h as int),
                r,
            ),
    {
        let w: i32 = screen_w as i32;
        let h: i32 = screen_h as i32;
        let ghost all = screenshot_frames(w as int, h as int);
        let mut frames: Vec<TouchFrame> = Vec::new();
        let mut id: u64 = 0;
        while id < 3
            invariant
                id <= 3,
                0 <= w <= 0xFFFF,
                0 <= h <= 0xFFFF,
                all == screenshot_frames(w as int, h as int),
                frames@ =~= all.take(id as int),
            decreases 3 - id,
        {
            proof {
                lemma_column(w as int, id as int);
            }
            frames.push(down(id, w / 4 * (id as i32 + 1), h / 4));
            id = id + 1;
        }
        let mut i: u64 = 3;
        while i < 33
            invariant
                3 <= i <= 33,
                0 <= w <= 0xFFFF,
                0 <= h <= 0xFFFF,
                all == screenshot_frames(w as int, h as int),
                frames@ =~= all.take(i as int),
            decreases 33 - i,
        {
            let id: u64 = i % 3;
            let step: i32 = (i / 3) as i32;
            proof {
                lemma_column(w as int, id as int);
                lemma_row(h as int, step as int);
            }
            frames.push(
                TouchFrame::new(
                    2,
                    id,
                    w / 4 * (id as i32 + 1),
                    h / 4 + h / 2 * step / 10,
                    F32_ONE_BITS,
                ),
            );
            i = i + 1;
        }
        let mut id: u64 = 0;
        while id < 3
            invariant
                id <= 3,
                0 <= w <= 0xFFFF,
                0 <= h <= 0xFFFF,
                all == screenshot_frames(w as int, h as int),
                frames@ =~= all.take(33 + id),
            decreases 3 - id,
        {
            proof {
                lemma_column(w as int, id as int);
            }
            frames.push(up(id, w / 4 * (id as i32 + 1), h * 3 / 4));
            id = id + 1;
        }
        assert(frames@ =~= all);
        self.gesture(frames.as_slice())
    }
}

proof fn lemma_column(w: int, id: int)
    requires
        0 <= w <= 0xFFFF,
        0 <= id < 3,
    ensures
        0 <= w / 4 * (id + 1) <= 0xFFFF,
{
    assert(0 <= w / 4 * (id + 1) <= 0xFFFF) by (nonlinear_arith)
        requires
            0 <= w <= 0xFFFF,
            0 <= id < 3,
    ;
}

proof fn lemma_row(h: int, step: int)
    requires
        0 <= h <= 0xFFFF,
        1 <= step <= 10,
    ensures
        0 <= h / 2 * step <= 0x5_0000,
        0 <= h / 2 * step / 10 <= 0x8000,
{
    let half = h / 2;
    assert(0 <= half * step <= 0x7FFF * 10) by (nonlinear_arith)
        requires
            0 <= half <= 0x7FFF,
            1 <= step <= 10,
    ;
}

/// A swipe begins with the press, ends with the release and only moves in
/// between.
pub proof fn lemma_swipe_presses_and_releases(
    id: u64,
    from: (i32, i32),
    to: (i32, i32),
    path: Seq<(i32, i32)>,
)
    ensures
        swipe_frames(id, from, to, path).len() == path.len() + 2,
        swipe_frames(id, from, to, path)[0] == down_frame(id, from.0, from.1),
        swipe_frames(id, from, to, path).last() == up_frame(id, to.0, to.1),
        forall|i: int|
            1 <= i <= path.len() ==> (#[trigger] swipe_frames(id, from, to, path)[i]).action == 2,
{
}

/// The pointers that are down after frames.
pub open spec fn pointers_down(frames: Seq<TouchFrame>) -> Set<u64>
    decreases frames.len(),
{
    if frames.len() == 0 {
        Set::empty()
    } else {
        let before = pointers_down(frames.drop_last());
        let last = frames.last();
        if last.action == 0 {
            before.insert(last.pointer_id)
        } else if last.action == 2 {
            before
        } else {
            before.remove(last.pointer_id)
        }
    }
}

proof fn lemma_moves_keep_pointers(frames: Seq<TouchFrame>, from: int, to: int)
    requires
        0 <= from <= to <= frames.len(),
        forall|i: int| from <= i < to ==> (#[trigger] frames[i]).action == 2,
    ensures
        pointers_down(frames.take(to)) == pointers_down(frames.take(from)),
    decreases to - from,
{
    if from < to {
        lemma_moves_keep_pointers(frames, from, to - 1);
        assert(frames.take(to).drop_last() =~= frames.take(to - 1));
        assert(frames.take(to).last() == frames[to - 1]);
    }
}

proof fn lemma_pointer_step(frames: Seq<TouchFrame>, n: int)
    requires
        0 < n <= frames.len(),
    ensures
        frames[n - 1].action == 0 ==> pointers_down(frames.take(n)) == pointers_down(
            frames.take(n - 1),
        ).insert(frames[n - 1].pointer_id),
        frames[n - 1].action == 1 ==> pointers_down(frames.take(n)) == pointers_down(
            frames.take(n - 1),
        ).remove(frames[n - 1].pointer_id),
{
    assert(frames.take(n).drop_last() =~= frames.take(n - 1));
    assert(frames.take(n).last() == frames[n - 1]);
}

/// A tap lifts the pointer that it presses, and so does each tap of a double tap.
pub proof fn lemma_taps_lift_pointers(id: u64, x: i32, y: i32)
    ensures
        pointers_down(seq![down_frame(id, x, y), up_frame(id, x, y)]) == Set::<u64>::empty(),
        pointers_down(
            seq![
                down_frame(id, x, y),
                up_frame(id, x, y),
                down_frame(id, x, y),
                up_frame(id, x, y),
            ],
        ) == Set::<u64>::empty(),
{
    let twice = seq![
        down_frame(id, x, y),
        up_frame(id, x, y),
        down_frame(id, x, y),
        up_frame(id, x, y),
    ];
    assert(twice.take(0) =~= Seq::<TouchFrame>::empty());
    lemma_pointer_step(twice, 1);
    lemma_pointer_step(twice, 2);
    assert(pointers_down(twice.take(2)) =~= Set::<u64>::empty());
    lemma_pointer_step(twice, 3);
    lemma_pointer_step(twice, 4);
    assert(pointers_down(twice.take(4)) =~= Set::<u64>::empty());
    assert(twice.take(2) =~= seq![down_frame(id, x, y), up_frame(id, x, y)]);
    assert(twice.take(4) =~= twice);
}

/// A swipe lifts the pointer that it presses.
pub proof fn lemma_swipe_lifts_pointer(
    id: u64,
    from: (i32, i32),
    to: (i32, i32),
    path: Seq<(i32, i32)>,
)
    ensures
        pointers_down(swipe_frames(id, from, to, path)) == Set::<u64>::empty(),
{
    let all = swipe_frames(id, from, to, path);
    let n = all.len() as int;
    assert(all.take(0) =~= Seq::<TouchFrame>::empty());
    lemma_pointer_step(all, 1);
    lemma_moves_keep_pointers(all, 1, n - 1);
    lemma_pointer_step(all, n);
    assert(all.take(n) =~= all);
    assert(pointers_down(all) =~= Set::<u64>::empty());
}

/// The three-finger gesture lifts the three pointers that it presses.
pub proof fn lemma_screenshot_lifts_pointers(w: u16, h: u16)
    ensures
        pointers_down(screenshot_frames(w as int, h as int)) == Set::<u64>::empty(),
{
    let all = screenshot_frames(w as int, h as int);
    assert(all.take(0) =~= Seq::<TouchFrame>::empty());
    lemma_pointer_step(all, 1);
    lemma_pointer_step(all, 2);
    lemma_pointer_step(all, 3);
    lemma_moves_keep_pointers(all, 3, 33);
    lemma_pointer_step(all, 34);
    lemma_pointer_step(all, 35);
    lemma_pointer_step(all, 36);
    assert(all.take(36) =~= all);
    assert(pointers_down(all) =~= Set::<u64>::empty());
}

/// The three-finger gesture stays on the screen.
pub proof fn lemma_screenshot_stays_on_screen(w: u16, h: u16, i: int)
    requires
        w >= 4,
        h >= 4,
        0 <= i < 36,
    ensures
        0 <= screenshot_frames(w as int, h as int)[i].x < w,
        0 <= screenshot_frames(w as int, h as int)[i].y < h,
{
    let id = if i < 3 { i } else if i < 33 { i % 3 } else { i - 33 };
    let q = w as int / 4;
    assert(q * (id + 1) <= q * 3) by (nonlinear_arith)
        requires
            0 <= id < 3,
            q >= 0,
    ;
    lemma_column(w as int, id);
    if 3 <= i < 33 {
        let step = i / 3;
        lemma_row(h as int, step);
        let half = h as int / 2;
        assert(half * step / 10 <= half) by (nonlinear_arith)
            requires
                1 <= step <= 10,
                half >= 0,
        ;
    }
}

/// A swipe goes where its path goes: it presses at its start, stands at the `i`-th
/// point of the path at its `i`-th move, and lifts at its end. All of it is one
/// pointer, at full pressure until it lifts.
pub proof fn lemma_swipe_follows_path(
    id: u64,
    from: (i32, i32),
    to: (i32, i32),
    path: Seq<(i32, i32)>,
    i: int,
)
    requires
        0 <= i < path.len() + 2,
    ensures
        ({
            let frames = swipe_frames(id, from, to, path);
            let last = path.len() + 1;
            &&& frames.len() == path.len() + 2
            &&& frames[i].pointer_id == id
            &&& (frames[i].x, frames[i].y) == if i == 0 {
                from
            } else if i <= path.len() {
                path[i - 1]
            } else {
                to
            }
            &&& frames[i].pressure == if i <= path.len() {
                0x3F80_0000u32
            } else {
                0
            }
            &&& frames[0].action == TouchAction::DOWN.code()
            &&& 0 < i <= path.len() ==> frames[i].action == TouchAction::MOVE.code()
            &&& frames[last as int].action == TouchAction::UP.code()
        }),
{
}

/// Swiping a path and swiping it back visit the same points, in reverse.
pub proof fn lemma_swipe_back_retraces(
    id: u64,
    from: (i32, i32),
    to: (i32, i32),
    path: Seq<(i32, i32)>,
    i: int,
)
    requires
        0 <= i < path.len() + 2,
    ensures
        ({
            let there = swipe_frames(id, from, to, path);
            let back = swipe_frames(id, to, from, path.reverse());
            back[i].x == there[path.len() + 1 - i].x && back[i].y == there[path.len() + 1 - i].y
        }),
{
    let there = swipe_frames(id, from, to, path);
    let back = swipe_frames(id, to, from, path.reverse());
    assert(path.reverse().len() == path.len());
    if 0 < i <= path.len() {
        assert(path.reverse()[i - 1] == path[path.len() - i]);
    }
}

/// A press and a release stand where they are asked to, with the pointer that they
/// are asked for; a press is at full pressure and a release at none.
pub proof fn lemma_tap_stands_still(id: u64, x: i32, y: i32)
    ensures
        down_frame(id, x, y).action == TouchAction::DOWN.code(),
        up_frame(id, x, y).action == TouchAction::UP.code(),
        move_frame(id, x, y).action == TouchAction::MOVE.code(),
        down_frame(id, x, y).pressure == 0x3F80_0000,
        move_frame(id, x, y).pressure == 0x3F80_0000,
        up_frame(id, x, y).pressure == 0,
        forall|f: TouchFrame|
            f == down_frame(id, x, y) || f == move_frame(id, x, y) || f == up_frame(id, x, y)
                ==> #[trigger] f.pointer_id == id && f.x == x && f.y == y,
{
}

/// The three fingers stand side by side, a quarter of the width apart, and never
/// leave their columns. They start a quarter down the screen, are all on one row
/// after each step, and lift three quarters down.
pub proof fn lemma_screenshot_fingers_move_together(w: u16, h: u16, step: int, id: int)
    requires
        0 <= step <= 11,
        0 <= id < 3,
    ensures
        ({
            let frames = screenshot_frames(w as int, h as int);
            let f = frames[3 * step + id];
            let quarter = w as int / 4;
            &&& frames.len() == 36
            &&& f.pointer_id == id
            &&& f.x == frames[id].x
            &&& f.y == frames[3 * step].y
            &&& frames[0].x == quarter
            &&& frames[1].x - frames[0].x == quarter
            &&& frames[2].x - frames[1].x == quarter
            &&& frames[0].y == h as int / 4
            &&& frames[33].y == h * 3 / 4
            &&& f.action == if step == 0 {
                TouchAction::DOWN.code()
            } else if step <= 10 {
                TouchAction::MOVE.code()
            } else {
                TouchAction::UP.code()
            }
            &&& f.pressure == if step <= 10 {
                0x3F80_0000u32
            } else {
                0
            }
        }),
{
    let i = 3 * step + id;
    assert(i % 3 == id && i / 3 == step);
    assert((3 * step) / 3 == step);
    lemma_column(w as int, 0);
    lemma_column(w as int, 1);
    lemma_column(w as int, 2);
    let q = w as int / 4;
    assert(q * (0 + 1) == q && q * (1 + 1) == 2 * q && q * (2 + 1) == 3 * q) by (nonlinear_arith);
    if 1 <= step <= 10 {
        lemma_row(h as int, step);
    }
}

/// The fingers come down evenly: after each step they have covered the step's share
/// of half the height, to within a row.
pub proof fn lemma_screenshot_moves_evenly(w: u16, h: u16, step: int)
    requires
        1 <= step <= 10,
    ensures
        ({
            let frames = screenshot_frames(w as int, h as int);
            let covered = frames[3 * step].y - frames[0].y;
            10 * covered <= (h as int / 2) * step < 10 * covered + 10
        }),
{
    assert((3 * step) % 3 == 0 && (3 * step) / 3 == step);
    lemma_row(h as int, step);
}

/// A gesture's frames are queued in order, in as few batches as hold them, and the
/// flush whose ticket comes back stands behind them. Nothing that was queued before
/// changes.
pub proof fn lemma_gesture_reaches_queue(
    old: ClientView,
    new: ClientView,
    frames: Seq<TouchFrame>,
    r: Result<u64>,
    i: int,
)
    requires
        gesture_queued(old, new, frames, r),
        old.connected,
        0 <= i < frames.len(),
    ensures
        r == Ok::<u64, Error>(old.next_ticket),
        new.queue.len() == old.queue.len() + (frames.len() + 23) / 24 + 1,
        new.queue.take(old.queue.len() as int) == old.queue,
        new.queue.last() == (HidCommand::FlushAck { ticket: old.next_ticket }),
        new.next_ticket == (old.next_ticket + 1) % 0x1_0000_0000_0000_0000,
        new.bound == old.bound && new.connected && new.waiting == old.waiting,
        new.queue[old.queue.len() + i / 24] matches HidCommand::TouchBatchFixed {
            len,
            frames: slots,
        } && i % 24 < len <= 24 && slots@[i % 24] == frames[i] && (len == 24 || 24 * (i / 24) + len
            == frames.len()),
{
    let mid = choose|mid: ClientView| #[trigger]
        path_sent(old, mid, frames) && new == mid.flush_queued();
    let n = mid.queue.len() - old.queue.len();
    let j = i / 24;
    assert(n == (frames.len() + 23) / 24);
    assert(0 <= j < n);
    assert(new.queue[old.queue.len() + j] == mid.queue[old.queue.len() + j]);
    assert(TouchFrame::batch_of(mid.queue[old.queue.len() + j], batch_piece(frames, j)));
    assert(new.queue.take(old.queue.len() as int) =~= mid.queue.take(old.queue.len() as int));
    let piece = batch_piece(frames, j);
    assert(piece[i % 24] == frames[i]);
}

/// A gesture for a dispatcher that is gone changes nothing.
pub proof fn lemma_gesture_refused(
    old: ClientView,
    new: ClientView,
    frames: Seq<TouchFrame>,
    r: Result<u64>,
)
    requires
        gesture_queued(old, new, frames, r),
        !old.connected,
    ensures
        r is Err,
        new.queue == old.queue,
        new.next_ticket == old.next_ticket,
{
}

/// A tap presses and lifts one pointer at one point, the first finger unless another is
/// named, and a double tap does so twice.
pub proof fn lemma_tap_gestures(
    c: &mut HidClient,
    pointer: TouchPointerId,
    x: i32,
    y: i32,
    r: Result<u64>,
)
    ensures
        ({
            let id = pointer.code();
            let down = TouchFrame { action: 0, pointer_id: id, x, y, pressure: 0x3F80_0000 };
            let up = TouchFrame { action: 1, pointer_id: id, x, y, pressure: 0 };
            let first_down = TouchFrame { pointer_id: 0, ..down };
            let first_up = TouchFrame { pointer_id: 0, ..up };
            &&& call_ensures(HidClient::tap_pointer, (c, pointer, x, y), r) ==> gesture_queued(
                old(c)@,
                final(c)@,
                seq![down, up],
                r,
            )
            &&& call_ensures(HidClient::double_tap_pointer, (c, pointer, x, y), r)
                ==> gesture_queued(old(c)@, final(c)@, seq![down, up, down, up], r)
            &&& call_ensures(HidClient::tap, (c, x, y), r) ==> gesture_queued(
                old(c)@,
                final(c)@,
                seq![first_down, first_up],
                r,
            )
            &&& call_ensures(HidClient::double_tap, (c, x, y), r) ==> gesture_queued(
                old(c)@,
                final(c)@,
                seq![first_down, first_up, first_down, first_up],
                r,
            )
        }),
{
}

/// A long press presses one pointer at a point; its release lifts that pointer there.
pub proof fn lemma_long_press_gestures(
    c: &mut HidClient,
    pointer: TouchPointerId,
    x: i32,
    y: i32,
    r: Result<u64>,
)
    ensures
        ({
            let id = pointer.code();
            let down = TouchFrame { action: 0, pointer_id: id, x, y, pressure: 0x3F80_0000 };
            let up = TouchFrame { action: 1, pointer_id: id, x, y, pressure: 0 };
            &&& call_ensures(HidClient::long_press_pointer, (c, pointer, x, y), r)
                ==> gesture_queued(old(c)@, final(c)@, seq![down], r)
            &&& call_ensures(HidClient::long_press, (c, x, y), r) ==> gesture_queued(
                old(c)@,
                final(c)@,
                seq![TouchFrame { pointer_id: 0, ..down }],
                r,
            )
            &&& call_ensures(HidClient::long_press_release, (c, pointer, x, y), r)
                ==> gesture_queued(old(c)@, final(c)@, seq![up], r)
        }),
{
}

/// A swipe that is taken puts its frames on the queue one by one: the press at its
/// start, a move to each point of the path, and the release at its end, with the first
/// finger unless another pointer is named.
pub proof fn lemma_swipe_gestures(
    c: &mut HidClient,
    pointer: TouchPointerId,
    from: (i32, i32),
    to: (i32, i32),
    path: &[(i32, i32)],
    r: Result<u64>,
    i: int,
)
    requires
        r is Ok,
        1 <= i <= path@.len(),
    ensures
        call_ensures(HidClient::swipe_pointer, (c, pointer, from, to, path), r) ==> moves_to(
            old(c)@,
            final(c)@,
            pointer.code(),
            i,
            path@[i - 1],
        ),
        call_ensures(HidClient::swipe, (c, from, to, path), r) ==> moves_to(
            old(c)@,
            final(c)@,
            0,
            i,
            path@[i - 1],
        ),
{
    lemma_swipe_moves(old(c)@, final(c)@, pointer.code(), from, to, path@, r, i);
    lemma_swipe_moves(old(c)@, final(c)@, 0, from, to, path@, r, i);
}

/// Whether the `i`-th frame that was put on the queue moves a pointer to a point.
pub open spec fn moves_to(
    old: ClientView,
    new: ClientView,
    id: u64,
    i: int,
    point: (i32, i32),
) -> bool {
    &&& new.queue[old.queue.len() + i / 24] matches HidCommand::TouchBatchFixed { len, frames }
    &&& i % 24 < len
    &&& frames@[i % 24].action == 2
    &&& frames@[i % 24].pointer_id == id
    &&& (frames@[i % 24].x, frames@[i % 24].y) == point
    &&& frames@[i % 24].pressure == 0x3F80_0000
}

proof fn lemma_swipe_moves(
    old: ClientView,
    new: ClientView,
    id: u64,
    from: (i32, i32),
    to: (i32, i32),
    path: Seq<(i32, i32)>,
    r: Result<u64>,
    i: int,
)
    requires
        r is Ok,
        1 <= i <= path.len(),
    ensures
        gesture_queued(old, new, swipe_frames(id, from, to, path), r) ==> moves_to(
            old,
            new,
            id,
            i,
            path[i - 1],
        ),
{
    let frames = swipe_frames(id, from, to, path);
    if gesture_queued(old, new, frames, r) {
        lemma_swipe_follows_path(id, from, to, path, i);
        lemma_gesture_reaches_queue(old, new, frames, r, i);
    }
}

/// The three-finger gesture is the one for the screen's width and height, and a swipe
/// takes at least one step.
pub proof fn lemma_other_gestures(
    c: &mut HidClient,
    w: u16,
    h: u16,
    r: Result<u64>,
    steps: usize,
    n: usize,
)
    ensures
        call_ensures(HidClient::three_finger_screenshot, (c, w, h), r) ==> gesture_queued(
            old(c)@,
            final(c)@,
            screenshot_frames(w as int, h as int),
            r,
        ),
        call_ensures(swipe_steps, (steps,), n) ==> n >= 1 && (steps >= 1 ==> n == steps) && (steps
            == 0 ==> n == 1),
{
}

} // verus!
