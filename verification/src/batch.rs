//! Batching of input frames into commands.
//!
//! A batcher gathers frames and hands them to a client in as few commands as it
//! can. Frames leave in the order in which they were pushed; a refused command
//! leaves them in the batcher.
use vstd::prelude::*;

use crate::client::{padded_keys, ClientView, HidClient};
use crate::command::HidCommand;
use crate::error::{Error, Result};
use crate::frames::{
    names_chord, names_modifier, AndroidKeyFrame, KeyboardChordFrame, KeyboardFrame, MouseFrame,
    ScrollFrame, TouchFrame,
    ANDROID_KEY_BATCH_FRAMES, KEYBOARD_BATCH_FRAMES, KEYBOARD_CHORD_KEYS, MOUSE_BATCH_FRAMES,
    SCROLL_BATCH_FRAMES, TOUCH_BATCH_FRAMES,
};
use crate::types::{
    AndroidKeyAction, AndroidKeycode, Modifiers, MouseButton, Scancode, TouchAction,
    TouchPointerId,
};

verus! {

/// A kind of frame that travels in batches.
pub trait BatchFrame: Copy + Sized {
    /// Most frames in one command.
    spec fn cap() -> nat;

    /// The frames of this kind that a command carries.
    spec fn carried(cmd: HidCommand) -> Seq<Self>;

    /// Whether `cmd` is the command for `frames`.
    spec fn batch_of(cmd: HidCommand, frames: Seq<Self>) -> bool;

    /// The command for some frames carries exactly them.
    proof fn lemma_batch_carries(cmd: HidCommand, frames: Seq<Self>)
        requires
            Self::batch_of(cmd, frames),
            0 < frames.len() <= Self::cap(),
        ensures
            Self::carried(cmd) == frames,
            cmd.well_formed(),
    ;

    /// Most frames in one command.
    fn capacity() -> (n: usize)
        ensures
            n == Self::cap(),
            n >= 2,
    ;

    /// Builds the command for some frames.
    fn command(frames: &Vec<Self>) -> (cmd: HidCommand)
        requires
            0 < frames@.len() <= Self::cap(),
        ensures
            Self::batch_of(cmd, frames@),
    ;
}

/// The frames that the commands of a queue carry, in order.
pub open spec fn stream<F: BatchFrame>(queue: Seq<HidCommand>) -> Seq<F>
    decreases queue.len(),
{
    if queue.len() == 0 {
        Seq::empty()
    } else {
        stream::<F>(queue.drop_last()) + F::carried(queue.last())
    }
}

/// Where the `j`-th command starts in the pushed frames, when each command takes
/// `step` of them.
pub open spec fn cut(step: nat, j: int) -> int {
    j * step
}

/// Whether the client went from `old` to `new` by queueing `done` commands, the
/// `j`-th for the `j`-th whole batch of `all`.
pub open spec fn sent_batches<F: BatchFrame>(
    old: ClientView,
    new: ClientView,
    all: Seq<F>,
    done: nat,
) -> bool {
    &&& new == (ClientView { queue: new.queue, ..old })
    &&& new.queue.len() == old.queue.len() + done
    &&& new.queue.take(old.queue.len() as int) == old.queue
    &&& cut(F::cap(), done as int) <= all.len()
    &&& forall|j: int|
        0 <= j < done ==> F::batch_of(
            #[trigger] new.queue[old.queue.len() + j],
            all.subrange(cut(F::cap(), j), cut(F::cap(), j + 1)),
        )
}

/// Whether the client went from `old` to `new` by queueing one command for
/// `frames`.
pub open spec fn sent_one<F: BatchFrame>(old: ClientView, new: ClientView, frames: Seq<F>) -> bool {
    &&& new.queue.len() == old.queue.len() + 1
    &&& new == old.queued(new.queue.last())
    &&& F::batch_of(new.queue.last(), frames)
}

/// What pushing a frame returns: a full batcher has to empty itself first.
pub open spec fn push_result<F: BatchFrame>(
    buffered: Seq<F>,
    client: ClientView,
    blocking: bool,
) -> Result<()> {
    if buffered.len() < F::cap() {
        Ok(())
    } else {
        client.admission(blocking)
    }
}

/// The buffered frames after pushing `frame`.
pub open spec fn after_push<F: BatchFrame>(
    buffered: Seq<F>,
    client: ClientView,
    frame: F,
    blocking: bool,
) -> Seq<F> {
    if buffered.len() < F::cap() {
        buffered.push(frame)
    } else if client.admission(blocking) is Ok {
        seq![frame]
    } else {
        buffered
    }
}

/// How a push relates the client before and after.
pub open spec fn client_after_push<F: BatchFrame>(
    buffered: Seq<F>,
    old: ClientView,
    new: ClientView,
    blocking: bool,
) -> bool {
    if buffered.len() >= F::cap() && old.admission(blocking) is Ok {
        sent_one(old, new, buffered)
    } else {
        new == old
    }
}

/// One frame has been pushed.
pub open spec fn pushed<F: BatchFrame>(
    b0: Seq<F>,
    c0: ClientView,
    frame: F,
    blocking: bool,
    b1: Seq<F>,
    c1: ClientView,
    r: Result<()>,
) -> bool {
    &&& r == push_result(b0, c0, blocking)
    &&& b1 == after_push(b0, c0, frame, blocking)
    &&& client_after_push(b0, c0, c1, blocking)
}

/// Two frames have been pushed, the second only after the first went in.
pub open spec fn pushed_twice<F: BatchFrame>(
    b0: Seq<F>,
    c0: ClientView,
    first: F,
    second: F,
    blocking: bool,
    b2: Seq<F>,
    c2: ClientView,
    r: Result<()>,
) -> bool {
    if push_result(b0, c0, blocking) is Err {
        r == push_result(b0, c0, blocking) && b2 == b0 && c2 == c0
    } else {
        exists|c1: ClientView| #[trigger]
            client_after_push(b0, c0, c1, blocking) && pushed(
                after_push(b0, c0, first, blocking),
                c1,
                second,
                blocking,
                b2,
                c2,
                r,
            )
    }
}

/// A slice of frames has been pushed: every full batch left at once.
pub open spec fn pushed_all<F: BatchFrame>(
    b0: Seq<F>,
    c0: ClientView,
    frames: Seq<F>,
    blocking: bool,
    b1: Seq<F>,
    c1: ClientView,
    r: Result<()>,
) -> bool {
    let all = b0 + frames;
    let done = (c1.queue.len() - c0.queue.len()) as nat;
    &&& sent_batches(c0, c1, all, done)
    &&& c1.admitted(done, blocking)
    &&& match r {
        Ok(_) => {
            &&& b1 == all.skip(cut(F::cap(), done as int))
            &&& frames.len() > 0 ==> b1.len() < F::cap()
            &&& frames.len() == 0 ==> done == 0
        },
        Err(e) => {
            &&& frames.len() > 0
            &&& cut(F::cap(), done as int + 1) <= all.len()
            &&& b1 == all.subrange(cut(F::cap(), done as int), cut(F::cap(), done as int + 1))
            &&& c1.admission(blocking) == Err::<(), Error>(e)
        },
    }
}

/// Frames have been pushed one by one: a batch leaves when the frame behind it
/// comes.
pub open spec fn pushed_in_turn<F: BatchFrame>(
    b0: Seq<F>,
    c0: ClientView,
    frames: Seq<F>,
    blocking: bool,
    b1: Seq<F>,
    c1: ClientView,
    r: Result<()>,
) -> bool {
    let all = b0 + frames;
    let done = (c1.queue.len() - c0.queue.len()) as nat;
    &&& sent_batches(c0, c1, all, done)
    &&& c1.admitted(done, blocking)
    &&& match r {
        Ok(_) => {
            &&& b1 == all.skip(cut(F::cap(), done as int))
            &&& b1.len() <= F::cap()
            &&& done > 0 ==> b1.len() > 0
        },
        Err(e) => {
            &&& cut(F::cap(), done as int + 1) < all.len()
            &&& b1 == all.subrange(cut(F::cap(), done as int), cut(F::cap(), done as int + 1))
            &&& c1.admission(blocking) == Err::<(), Error>(e)
        },
    }
}

/// The buffer has been handed to the client.
pub open spec fn flushed<F: BatchFrame>(
    b0: Seq<F>,
    c0: ClientView,
    blocking: bool,
    b1: Seq<F>,
    c1: ClientView,
    r: Result<()>,
) -> bool {
    if b0.len() == 0 {
        r == Ok::<(), Error>(()) && b1 == b0 && c1 == c0
    } else {
        &&& r == c0.admission(blocking)
        &&& match r {
            Ok(_) => b1.len() == 0 && sent_one(c0, c1, b0),
            Err(_) => b1 == b0 && c1 == c0,
        }
    }
}

proof fn lemma_cut_step(step: nat, j: int)
    ensures
        cut(step, j + 1) == cut(step, j) + step,
        cut(step, 0) == 0,
        j >= 0 ==> cut(step, j) >= 0,
{
    assert((j + 1) * step == j * step + step) by (nonlinear_arith);
    assert(0 * step == 0) by (nonlinear_arith);
    if j >= 0 {
        assert(j * step >= 0) by (nonlinear_arith)
            requires
                j >= 0,
        ;
    }
}

proof fn lemma_stream_push<F: BatchFrame>(queue: Seq<HidCommand>, cmd: HidCommand)
    ensures
        stream::<F>(queue.push(cmd)) == stream::<F>(queue) + F::carried(cmd),
{
    assert(queue.push(cmd).drop_last() =~= queue);
}

/// Queueing batches delivers the frames of those batches, in order, behind the
/// frames that were queued before.
pub proof fn lemma_batches_keep_stream<F: BatchFrame>(
    old: ClientView,
    new: ClientView,
    all: Seq<F>,
    done: nat,
)
    requires
        sent_batches(old, new, all, done),
        F::cap() > 0,
    ensures
        stream::<F>(new.queue) == stream::<F>(old.queue) + all.take(cut(F::cap(), done as int)),
    decreases done,
{
    lemma_cut_step(F::cap(), done as int);
    if done == 0 {
        assert(new.queue =~= old.queue);
        assert(all.take(0) =~= Seq::<F>::empty());
        assert(stream::<F>(old.queue) + Seq::<F>::empty() =~= stream::<F>(old.queue));
    } else {
        let prev = (done - 1) as nat;
        lemma_cut_step(F::cap(), prev as int);
        let mid = ClientView { queue: new.queue.drop_last(), ..new };
        assert(mid.queue.take(old.queue.len() as int) =~= new.queue.take(old.queue.len() as int));
        assert forall|j: int| 0 <= j < prev implies F::batch_of(
            #[trigger] mid.queue[old.queue.len() + j],
            all.subrange(cut(F::cap(), j), cut(F::cap(), j + 1)),
        ) by {
            assert(mid.queue[old.queue.len() + j] == new.queue[old.queue.len() + j]);
        }
        lemma_batches_keep_stream(old, mid, all, prev);
        let last = new.queue.last();
        let piece = all.subrange(cut(F::cap(), prev as int), cut(F::cap(), done as int));
        assert(last == new.queue[(old.queue.len() + prev) as int]);
        assert(F::batch_of(last, piece));
        F::lemma_batch_carries(last, piece);
        assert(new.queue =~= mid.queue.push(last));
        lemma_stream_push::<F>(mid.queue, last);
        assert(all.take(cut(F::cap(), done as int)) =~= all.take(cut(F::cap(), prev as int))
            + piece);
        assert(stream::<F>(new.queue) =~= stream::<F>(old.queue) + all.take(
            cut(F::cap(), done as int),
        ));
    }
}

/// Pushing a slice loses, repeats and reorders nothing: what the queue carries
/// followed by what the batcher holds grows by the frames, all of them on
/// success and a leading part of them otherwise.
pub proof fn lemma_slice_keeps_frames<F: BatchFrame>(
    b0: Seq<F>,
    c0: ClientView,
    frames: Seq<F>,
    blocking: bool,
    b1: Seq<F>,
    c1: ClientView,
    r: Result<()>,
)
    requires
        F::cap() > 0,
        pushed_all(b0, c0, frames, blocking, b1, c1, r),
    ensures
        r is Ok ==> stream::<F>(c1.queue) + b1 == stream::<F>(c0.queue) + b0 + frames,
        r is Err ==> exists|k: int|
            0 <= k <= (b0 + frames).len() && stream::<F>(c1.queue) + b1 == stream::<F>(c0.queue)
                + #[trigger] (b0 + frames).take(k),
{
    let all = b0 + frames;
    let done = (c1.queue.len() - c0.queue.len()) as nat;
    lemma_batches_keep_stream(c0, c1, all, done);
    lemma_cut_step(F::cap(), done as int);
    let from = cut(F::cap(), done as int);
    if r is Ok {
        assert(all.take(from) + all.skip(from) =~= all);
        assert(stream::<F>(c1.queue) + b1 =~= stream::<F>(c0.queue) + (all.take(from) + all.skip(
            from,
        )));
        assert(stream::<F>(c0.queue) + all =~= stream::<F>(c0.queue) + b0 + frames);
    } else {
        let to = cut(F::cap(), done as int + 1);
        assert(all.take(to) =~= all.take(from) + all.subrange(from, to));
        assert(stream::<F>(c1.queue) + b1 =~= stream::<F>(c0.queue) + all.take(to));
    }
}

/// Pushing frames one by one loses, repeats and reorders nothing either: on
/// success all of them are added, and otherwise a leading part.
pub proof fn lemma_turns_keep_frames<F: BatchFrame>(
    b0: Seq<F>,
    c0: ClientView,
    frames: Seq<F>,
    blocking: bool,
    b1: Seq<F>,
    c1: ClientView,
    r: Result<()>,
)
    requires
        F::cap() > 0,
        pushed_in_turn(b0, c0, frames, blocking, b1, c1, r),
    ensures
        r is Ok ==> stream::<F>(c1.queue) + b1 == stream::<F>(c0.queue) + b0 + frames,
        r is Err ==> exists|k: int|
            0 <= k <= (b0 + frames).len() && stream::<F>(c1.queue) + b1 == stream::<F>(c0.queue)
                + #[trigger] (b0 + frames).take(k),
{
    let all = b0 + frames;
    let done = (c1.queue.len() - c0.queue.len()) as nat;
    lemma_batches_keep_stream(c0, c1, all, done);
    lemma_cut_step(F::cap(), done as int);
    let from = cut(F::cap(), done as int);
    if r is Ok {
        assert(all.take(from) + all.skip(from) =~= all);
        assert(stream::<F>(c1.queue) + b1 =~= stream::<F>(c0.queue) + (all.take(from) + all.skip(
            from,
        )));
        assert(stream::<F>(c0.queue) + all =~= stream::<F>(c0.queue) + b0 + frames);
    } else {
        let to = cut(F::cap(), done as int + 1);
        assert(all.take(to) =~= all.take(from) + all.subrange(from, to));
        assert(stream::<F>(c1.queue) + b1 =~= stream::<F>(c0.queue) + all.take(to));
    }
}

/// Pushing one frame adds it behind all earlier ones, or, where the client
/// refuses, changes nothing.
pub proof fn lemma_push_keeps_frames<F: BatchFrame>(
    b0: Seq<F>,
    c0: ClientView,
    frame: F,
    blocking: bool,
    b1: Seq<F>,
    c1: ClientView,
    r: Result<()>,
)
    requires
        0 < F::cap(),
        b0.len() <= F::cap(),
        pushed(b0, c0, frame, blocking, b1, c1, r),
    ensures
        r is Ok ==> stream::<F>(c1.queue) + b1 == stream::<F>(c0.queue) + b0.push(frame),
        r is Err ==> b1 == b0 && c1 == c0,
{
    if r is Ok {
        if b0.len() >= F::cap() {
            F::lemma_batch_carries(c1.queue.last(), b0);
            lemma_stream_push::<F>(c0.queue, c1.queue.last());
            assert(stream::<F>(c1.queue) + b1 =~= stream::<F>(c0.queue) + b0.push(frame));
        }
    }
}

/// Flushing delivers every buffered frame, or, where the client refuses, changes
/// nothing.
pub proof fn lemma_flush_keeps_frames<F: BatchFrame>(
    b0: Seq<F>,
    c0: ClientView,
    blocking: bool,
    b1: Seq<F>,
    c1: ClientView,
    r: Result<()>,
)
    requires
        0 < F::cap(),
        b0.len() <= F::cap(),
        flushed(b0, c0, blocking, b1, c1, r),
    ensures
        r is Ok ==> b1.len() == 0 && stream::<F>(c1.queue) == stream::<F>(c0.queue) + b0,
        r is Err ==> b1 == b0 && c1 == c0,
{
    if r is Ok {
        if b0.len() > 0 {
            F::lemma_batch_carries(c1.queue.last(), b0);
            lemma_stream_push::<F>(c0.queue, c1.queue.last());
        } else {
            assert(stream::<F>(c0.queue) + b0 =~= stream::<F>(c0.queue));
        }
    }
}

/// A batcher of frames of one kind.
pub struct FrameBatcher<F: BatchFrame> {
    frames: Vec<F>,
}

pub type TouchFrameBatcher = FrameBatcher<TouchFrame>;

pub type KeyboardFrameBatcher = FrameBatcher<KeyboardFrame>;

pub type AndroidKeyFrameBatcher = FrameBatcher<AndroidKeyFrame>;

pub type MouseFrameBatcher = FrameBatcher<MouseFrame>;

pub type ScrollFrameBatcher = FrameBatcher<ScrollFrame>;

impl<F: BatchFrame> View for FrameBatcher<F> {
    type V = Seq<F>;

    closed spec fn view(&self) -> Seq<F> {
        self.frames@
    }
}

impl<F: BatchFrame> FrameBatcher<F> {
    /// A batcher never holds more than one command's worth.
    pub open spec fn valid(&self) -> bool {
        self@.len() <= F::cap()
    }

    pub fn new() -> (b: FrameBatcher<F>)
        ensures
            b.valid(),
            b@ == Seq::<F>::empty(),
    {
        FrameBatcher { frames: Vec::new() }
    }

    pub fn len(&self) -> (n: usize)
        ensures
            n == self@.len(),
    {
        self.frames.len()
    }

    pub fn is_empty(&self) -> (r: bool)
        ensures
            r == (self@.len() == 0),
    {
        self.frames.len() == 0
    }

    fn flush_with(&mut self, client: &mut HidClient, blocking: bool) -> (r: Result<()>)
        requires
            old(self).valid(),
        ensures
            final(self).valid(),
            flushed(old(self)@, old(client)@, blocking, final(self)@, final(client)@, r),
    {
        if self.frames.len() == 0 {
            return Ok(());
        }
        match client.admission(blocking) {
            Ok(_) => {},
            Err(e) => {
                return Err(e);
            },
        }
        let cmd = F::command(&self.frames);
        match client.send_with(cmd, blocking) {
            Ok(_) => {},
            Err(e) => {
                return Err(e);
            },
        }
        self.frames = Vec::new();
        Ok(())
    }

    fn push_with(&mut self, client: &mut HidClient, frame: F, blocking: bool) -> (r: Result<()>)
        requires
            old(self).valid(),
        ensures
            final(self).valid(),
            pushed(old(self)@, old(client)@, frame, blocking, final(self)@, final(client)@, r),
    {
        if self.frames.len() == F::capacity() {
            match self.flush_with(client, blocking) {
                Ok(_) => {},
                Err(e) => {
                    return Err(e);
                },
            }
        }
        self.frames.push(frame);
        assert(self@ =~= after_push(old(self)@, old(client)@, frame, blocking));
        Ok(())
    }

    fn push_slice_with(&mut self, client: &mut HidClient, frames: &[F], blocking: bool) -> (r:
        Result<()>)
        requires
            old(self).valid(),
        ensures
            final(self).valid(),
            pushed_all(
                old(self)@,
                old(client)@,
                frames@,
                blocking,
                final(self)@,
                final(client)@,
                r,
            ),
    {
        let cap: usize = F::capacity();
        let ghost b0 = self@;
        let ghost c0 = client@;
        let ghost all = b0 + frames@;
        let ghost mut done: nat = 0;
        let mut idx: usize = 0;
        proof {
            lemma_cut_step(F::cap(), 0);
            assert(c0.queue.take(c0.queue.len() as int) =~= c0.queue);
            assert(all.subrange(0, b0.len() as int) =~= b0);
        }
        while idx < frames.len()
            invariant
                cap == F::cap(),
                cap >= 2,
                idx <= frames@.len(),
                b0 == old(self)@,
                c0 == old(client)@,
                all == b0 + frames@,
                b0.len() <= cap,
                self.valid(),
                sent_batches(c0, client@, all, done),
                client@.admitted(done, blocking),
                0 <= cut(F::cap(), done as int) <= b0.len() + idx,
                self@ == all.subrange(cut(F::cap(), done as int), b0.len() + idx),
                idx > 0 ==> self@.len() < cap,
                idx == 0 ==> done == 0,
            decreases frames@.len() - idx,
        {
            if self.frames.len() == cap {
                proof {
                    lemma_cut_step(F::cap(), done as int);
                }
                let ghost before = client@;
                let ghost was = self@;
                match self.flush_with(client, blocking) {
                    Ok(_) => {},
                    Err(e) => {
                        return Err(e);
                    },
                }
                proof {
                    lemma_sent_next(c0, before, client@, all, done, was);
                    done = done + 1;
                    assert(self@ =~= all.subrange(cut(F::cap(), done as int), b0.len() + idx));
                }
            }
            let ghost was = self@;
            self.frames.push(frames[idx]);
            idx = idx + 1;
            assert(self@ =~= all.subrange(cut(F::cap(), done as int), b0.len() + idx));
            if self.frames.len() == cap {
                proof {
                    lemma_cut_step(F::cap(), done as int);
                }
                let ghost before = client@;
                let ghost was = self@;
                match self.flush_with(client, blocking) {
                    Ok(_) => {},
                    Err(e) => {
                        return Err(e);
                    },
                }
                proof {
                    lemma_sent_next(c0, before, client@, all, done, was);
                    done = done + 1;
                    assert(self@ =~= all.subrange(cut(F::cap(), done as int), b0.len() + idx));
                }
            }
        }
        assert(self@ =~= all.skip(cut(F::cap(), done as int)));
        Ok(())
    }

    fn push_many_with(&mut self, client: &mut HidClient, frames: &Vec<F>, blocking: bool) -> (r:
        Result<()>)
        requires
            old(self).valid(),
        ensures
            final(self).valid(),
            pushed_in_turn(
                old(self)@,
                old(client)@,
                frames@,
                blocking,
                final(self)@,
                final(client)@,
                r,
            ),
    {
        let ghost b0 = self@;
        let ghost c0 = client@;
        let ghost all = b0 + frames@;
        let ghost mut done: nat = 0;
        let mut idx: usize = 0;
        proof {
            lemma_cut_step(F::cap(), 0);
            assert(c0.queue.take(c0.queue.len() as int) =~= c0.queue);
            assert(all.subrange(0, b0.len() as int) =~= b0);
        }
        while idx < frames.len()
            invariant
                idx <= frames@.len(),
                b0 == old(self)@,
                c0 == old(client)@,
                all == b0 + frames@,
                self.valid(),
                sent_batches(c0, client@, all, done),
                client@.admitted(done, blocking),
                0 <= cut(F::cap(), done as int) <= b0.len() + idx,
                self@ == all.subrange(cut(F::cap(), done as int), b0.len() + idx),
                done > 0 ==> self@.len() > 0,
            decreases frames@.len() - idx,
        {
            let ghost before = client@;
            let ghost was = self@;
            proof {
                lemma_cut_step(F::cap(), done as int);
            }
            match self.push_with(client, frames[idx], blocking) {
                Ok(_) => {},
                Err(e) => {
                    return Err(e);
                },
            }
            idx = idx + 1;
            proof {
                if was.len() >= F::cap() {
                    lemma_sent_next(c0, before, client@, all, done, was);
                    done = done + 1;
                }
                assert(self@ =~= all.subrange(cut(F::cap(), done as int), b0.len() + idx));
            }
        }
        assert(self@ =~= all.skip(cut(F::cap(), done as int)));
        Ok(())
    }

    /// Pushes frames one by one.
    pub fn push_many(&mut self, client: &mut HidClient, frames: &Vec<F>) -> (r: Result<()>)
        requires
            old(self).valid(),
        ensures
            final(self).valid(),
            pushed_in_turn(
                old(self)@,
                old(client)@,
                frames@,
                true,
                final(self)@,
                final(client)@,
                r,
            ),
    {
        self.push_many_with(client, frames, true)
    }

    /// Pushes frames one by one, by bounded sends.
    pub fn try_push_many(&mut self, client: &mut HidClient, frames: &Vec<F>) -> (r: Result<()>)
        requires
            old(self).valid(),
        ensures
            final(self).valid(),
            pushed_in_turn(
                old(self)@,
                old(client)@,
                frames@,
                false,
                final(self)@,
                final(client)@,
                r,
            ),
    {
        self.push_many_with(client, frames, false)
    }

    /// Pushes a frame, after emptying a full batcher.
    pub fn push(&mut self, client: &mut HidClient, frame: F) -> (r: Result<()>)
        requires
            old(self).valid(),
        ensures
            final(self).valid(),
            pushed(old(self)@, old(client)@, frame, true, final(self)@, final(client)@, r),
    {
        self.push_with(client, frame, true)
    }

    /// Pushes a frame, after emptying a full batcher by a bounded send.
    pub fn try_push(&mut self, client: &mut HidClient, frame: F) -> (r: Result<()>)
        requires
            old(self).valid(),
        ensures
            final(self).valid(),
            pushed(old(self)@, old(client)@, frame, false, final(self)@, final(client)@, r),
    {
        self.push_with(client, frame, false)
    }

    /// Pushes frames, handing on each full batch.
    pub fn push_many_slice(&mut self, client: &mut HidClient, frames: &[F]) -> (r: Result<()>)
        requires
            old(self).valid(),
        ensures
            final(self).valid(),
            pushed_all(old(self)@, old(client)@, frames@, true, final(self)@, final(client)@, r),
    {
        self.push_slice_with(client, frames, true)
    }

    /// Pushes frames, handing on each full batch by a bounded send.
    pub fn try_push_many_slice(&mut self, client: &mut HidClient, frames: &[F]) -> (r: Result<()>)
        requires
            old(self).valid(),
        ensures
            final(self).valid(),
            pushed_all(old(self)@, old(client)@, frames@, false, final(self)@, final(client)@, r),
    {
        self.push_slice_with(client, frames, false)
    }

    /// Hands the buffered frames to the client.
    pub fn flush(&mut self, client: &mut HidClient) -> (r: Result<()>)
        requires
            old(self).valid(),
        ensures
            final(self).valid(),
            flushed(old(self)@, old(client)@, true, final(self)@, final(client)@, r),
    {
        self.flush_with(client, true)
    }

    /// Hands the buffered frames to the client by a bounded send.
    pub fn try_flush(&mut self, client: &mut HidClient) -> (r: Result<()>)
        requires
            old(self).valid(),
        ensures
            final(self).valid(),
            flushed(old(self)@, old(client)@, false, final(self)@, final(client)@, r),
    {
        self.flush_with(client, false)
    }

    fn push_two(&mut self, client: &mut HidClient, first: F, second: F, blocking: bool) -> (r:
        Result<()>)
        requires
            old(self).valid(),
        ensures
            final(self).valid(),
            pushed_twice(
                old(self)@,
                old(client)@,
                first,
                second,
                blocking,
                final(self)@,
                final(client)@,
                r,
            ),
    {
        match self.push_with(client, first, blocking) {
            Ok(_) => {
                assert(client_after_push(old(self)@, old(client)@, client@, blocking));
                self.push_with(client, second, blocking)
            },
            Err(e) => Err(e),
        }
    }
}

proof fn lemma_sent_next<F: BatchFrame>(
    c0: ClientView,
    before: ClientView,
    after: ClientView,
    all: Seq<F>,
    done: nat,
    piece: Seq<F>,
)
    requires
        sent_batches(c0, before, all, done),
        cut(F::cap(), done as int + 1) <= all.len(),
        0 <= cut(F::cap(), done as int) <= cut(F::cap(), done as int + 1),
        piece == all.subrange(cut(F::cap(), done as int), cut(F::cap(), done as int + 1)),
        sent_one(before, after, piece),
    ensures
        sent_batches(c0, after, all, (done + 1) as nat),
{
    let n = c0.queue.len();
    assert(after.queue.take(n as int) =~= before.queue.take(n as int));
    assert forall|j: int| 0 <= j < done + 1 implies F::batch_of(
        #[trigger] after.queue[n + j],
        all.subrange(cut(F::cap(), j), cut(F::cap(), j + 1)),
    ) by {
        if j < done {
            assert(after.queue[n + j] == before.queue[n + j]);
        } else {
            assert(after.queue[n + j] == after.queue.last());
        }
    }
}

/// Touch frames filled up to a whole batch with empty ones.
pub open spec fn padded_touches(frames: Seq<TouchFrame>) -> Seq<TouchFrame> {
    Seq::new(
        TOUCH_BATCH_FRAMES as nat,
        |i: int| if i < frames.len() { frames[i] } else { TouchFrame::empty() },
    )
}

impl BatchFrame for TouchFrame {
    open spec fn cap() -> nat {
        TOUCH_BATCH_FRAMES as nat
    }

    open spec fn carried(cmd: HidCommand) -> Seq<TouchFrame> {
        match cmd {
            HidCommand::TouchBatchFixed { len, frames } => frames@.take(len as int),
            _ => Seq::empty(),
        }
    }

    open spec fn batch_of(cmd: HidCommand, frames: Seq<TouchFrame>) -> bool {
        &&& cmd matches HidCommand::TouchBatchFixed { len, frames: slots }
        &&& len == frames.len()
        &&& slots@ == padded_touches(frames)
    }

    proof fn lemma_batch_carries(cmd: HidCommand, frames: Seq<TouchFrame>) {
        assert(Self::carried(cmd) =~= frames);
    }

    fn capacity() -> (n: usize) {
        TOUCH_BATCH_FRAMES
    }

    fn command(frames: &Vec<TouchFrame>) -> (cmd: HidCommand) {
        let mut slots: [TouchFrame; TOUCH_BATCH_FRAMES] = [
            TouchFrame::empty();
            TOUCH_BATCH_FRAMES
        ];
        let mut i: usize = 0;
        while i < frames.len()
            invariant
                i <= frames@.len() <= TOUCH_BATCH_FRAMES,
                forall|j: int|
                    0 <= j < TOUCH_BATCH_FRAMES ==> #[trigger] slots@[j] == if j < i {
                        frames@[j]
                    } else {
                        TouchFrame::empty()
                    },
            decreases frames@.len() - i,
        {
            slots[i] = frames[i];
            i = i + 1;
        }
        assert(slots@ =~= padded_touches(frames@));
        HidCommand::TouchBatchFixed { len: frames.len() as u8, frames: slots }
    }
}

impl BatchFrame for KeyboardFrame {
    open spec fn cap() -> nat {
        KEYBOARD_BATCH_FRAMES as nat
    }

    open spec fn carried(cmd: HidCommand) -> Seq<KeyboardFrame> {
        match cmd {
            HidCommand::Key { scancode, pressed, mods } => seq![
                KeyboardFrame { scancode, pressed, mods },
            ],
            HidCommand::KeyBatchFixed { len, frames } => frames@.take(len as int),
            _ => Seq::empty(),
        }
    }

    open spec fn batch_of(cmd: HidCommand, frames: Seq<KeyboardFrame>) -> bool {
        if frames.len() == 1 {
            cmd == (
                HidCommand::Key {
                    scancode: frames[0].scancode,
                    pressed: frames[0].pressed,
                    mods: frames[0].mods,
                }
            )
        } else {
            &&& cmd matches HidCommand::KeyBatchFixed { len, frames: slots }
            &&& len == frames.len()
            &&& slots@ == padded_keys(frames)
        }
    }

    proof fn lemma_batch_carries(cmd: HidCommand, frames: Seq<KeyboardFrame>) {
        assert(Self::carried(cmd) =~= frames);
    }

    fn capacity() -> (n: usize) {
        KEYBOARD_BATCH_FRAMES
    }

    fn command(frames: &Vec<KeyboardFrame>) -> (cmd: HidCommand) {
        if frames.len() == 1 {
            let f: KeyboardFrame = frames[0];
            return HidCommand::Key { scancode: f.scancode, pressed: f.pressed, mods: f.mods };
        }
        let mut slots: [KeyboardFrame; KEYBOARD_BATCH_FRAMES] = [
            KeyboardFrame::empty();
            KEYBOARD_BATCH_FRAMES
        ];
        let mut i: usize = 0;
        while i < frames.len()
            invariant
                i <= frames@.len() <= KEYBOARD_BATCH_FRAMES,
                forall|j: int|
                    0 <= j < KEYBOARD_BATCH_FRAMES ==> #[trigger] slots@[j] == if j < i {
                        frames@[j]
                    } else {
                        KeyboardFrame::empty()
                    },
            decreases frames@.len() - i,
        {
            slots[i] = frames[i];
            i = i + 1;
        }
        assert(slots@ =~= padded_keys(frames@));
        HidCommand::KeyBatchFixed { len: frames.len() as u8, frames: slots }
    }
}

/// Android key frames filled up to a whole batch with empty ones.
pub open spec fn padded_android_keys(frames: Seq<AndroidKeyFrame>) -> Seq<AndroidKeyFrame> {
    Seq::new(
        ANDROID_KEY_BATCH_FRAMES as nat,
        |i: int| if i < frames.len() { frames[i] } else { AndroidKeyFrame::empty() },
    )
}

impl BatchFrame for AndroidKeyFrame {
    open spec fn cap() -> nat {
        ANDROID_KEY_BATCH_FRAMES as nat
    }

    open spec fn carried(cmd: HidCommand) -> Seq<AndroidKeyFrame> {
        match cmd {
            HidCommand::InjectKeycode { action, keycode, repeat, metastate } => seq![
                AndroidKeyFrame { action, keycode, repeat, metastate },
            ],
            HidCommand::AndroidKeyBatchFixed { len, frames } => frames@.take(len as int),
            _ => Seq::empty(),
        }
    }

    open spec fn batch_of(cmd: HidCommand, frames: Seq<AndroidKeyFrame>) -> bool {
        if frames.len() == 1 {
            cmd == (
                HidCommand::InjectKeycode {
                    action: frames[0].action,
                    keycode: frames[0].keycode,
                    repeat: frames[0].repeat,
                    metastate: frames[0].metastate,
                }
            )
        } else {
            &&& cmd matches HidCommand::AndroidKeyBatchFixed { len, frames: slots }
            &&& len == frames.len()
            &&& slots@ == padded_android_keys(frames)
        }
    }

    proof fn lemma_batch_carries(cmd: HidCommand, frames: Seq<AndroidKeyFrame>) {
        assert(Self::carried(cmd) =~= frames);
    }

    fn capacity() -> (n: usize) {
        ANDROID_KEY_BATCH_FRAMES
    }

    fn command(frames: &Vec<AndroidKeyFrame>) -> (cmd: HidCommand) {
        if frames.len() == 1 {
            let f: AndroidKeyFrame = frames[0];
            return HidCommand::InjectKeycode {
                action: f.action,
                keycode: f.keycode,
                repeat: f.repeat,
                metastate: f.metastate,
            };
        }
        let mut slots: [AndroidKeyFrame; ANDROID_KEY_BATCH_FRAMES] = [
            AndroidKeyFrame::empty();
            ANDROID_KEY_BATCH_FRAMES
        ];
        let mut i: usize = 0;
        while i < frames.len()
            invariant
                i <= frames@.len() <= ANDROID_KEY_BATCH_FRAMES,
                forall|j: int|
                    0 <= j < ANDROID_KEY_BATCH_FRAMES ==> #[trigger] slots@[j] == if j < i {
                        frames@[j]
                    } else {
                        AndroidKeyFrame::empty()
                    },
            decreases frames@.len() - i,
        {
            slots[i] = frames[i];
            i = i + 1;
        }
        assert(slots@ =~= padded_android_keys(frames@));
        HidCommand::AndroidKeyBatchFixed { len: frames.len() as u8, frames: slots }
    }
}

/// Mouse frames filled up to a whole batch with empty ones.
pub open spec fn padded_motions(frames: Seq<MouseFrame>) -> Seq<MouseFrame> {
    Seq::new(
        MOUSE_BATCH_FRAMES as nat,
        |i: int| if i < frames.len() { frames[i] } else { MouseFrame::empty() },
    )
}

impl BatchFrame for MouseFrame {
    open spec fn cap() -> nat {
        MOUSE_BATCH_FRAMES as nat
    }

    open spec fn carried(cmd: HidCommand) -> Seq<MouseFrame> {
        match cmd {
            HidCommand::MouseMotion { dx, dy, buttons } => seq![MouseFrame { dx, dy, buttons }],
            HidCommand::MouseBatchFixed { len, frames } => frames@.take(len as int),
            _ => Seq::empty(),
        }
    }

    open spec fn batch_of(cmd: HidCommand, frames: Seq<MouseFrame>) -> bool {
        if frames.len() == 1 {
            cmd == (
                HidCommand::MouseMotion {
                    dx: frames[0].dx,
                    dy: frames[0].dy,
                    buttons: frames[0].buttons,
                }
            )
        } else {
            &&& cmd matches HidCommand::MouseBatchFixed { len, frames: slots }
            &&& len == frames.len()
            &&& slots@ == padded_motions(frames)
        }
    }

    proof fn lemma_batch_carries(cmd: HidCommand, frames: Seq<MouseFrame>) {
        assert(Self::carried(cmd) =~= frames);
    }

    fn capacity() -> (n: usize) {
        MOUSE_BATCH_FRAMES
    }

    fn command(frames: &Vec<MouseFrame>) -> (cmd: HidCommand) {
        if frames.len() == 1 {
            let f: MouseFrame = frames[0];
            return HidCommand::MouseMotion { dx: f.dx, dy: f.dy, buttons: f.buttons };
        }
        let mut slots: [MouseFrame; MOUSE_BATCH_FRAMES] = [
            MouseFrame::empty();
            MOUSE_BATCH_FRAMES
        ];
        let mut i: usize = 0;
        while i < frames.len()
            invariant
                i <= frames@.len() <= MOUSE_BATCH_FRAMES,
                forall|j: int|
                    0 <= j < MOUSE_BATCH_FRAMES ==> #[trigger] slots@[j] == if j < i {
                        frames@[j]
                    } else {
                        MouseFrame::empty()
                    },
            decreases frames@.len() - i,
        {
            slots[i] = frames[i];
            i = i + 1;
        }
        assert(slots@ =~= padded_motions(frames@));
        HidCommand::MouseBatchFixed { len: frames.len() as u8, frames: slots }
    }
}

/// Scroll frames filled up to a whole batch with empty ones.
pub open spec fn padded_scrolls(frames: Seq<ScrollFrame>) -> Seq<ScrollFrame> {
    Seq::new(
        SCROLL_BATCH_FRAMES as nat,
        |i: int| if i < frames.len() { frames[i] } else { ScrollFrame::empty() },
    )
}

impl BatchFrame for ScrollFrame {
    open spec fn cap() -> nat {
        SCROLL_BATCH_FRAMES as nat
    }

    open spec fn carried(cmd: HidCommand) -> Seq<ScrollFrame> {
        match cmd {
            HidCommand::InjectScroll { x, y, hscroll, vscroll, buttons } => seq![
                ScrollFrame { x, y, hscroll, vscroll, buttons },
            ],
            HidCommand::InjectScrollBatchFixed { len, frames } => frames@.take(len as int),
            _ => Seq::empty(),
        }
    }

    open spec fn batch_of(cmd: HidCommand, frames: Seq<ScrollFrame>) -> bool {
        if frames.len() == 1 {
            cmd == (
                HidCommand::InjectScroll {
                    x: frames[0].x,
                    y: frames[0].y,
                    hscroll: frames[0].hscroll,
                    vscroll: frames[0].vscroll,
                    buttons: frames[0].buttons,
                }
            )
        } else {
            &&& cmd matches HidCommand::InjectScrollBatchFixed { len, frames: slots }
            &&& len == frames.len()
            &&& slots@ == padded_scrolls(frames)
        }
    }

    proof fn lemma_batch_carries(cmd: HidCommand, frames: Seq<ScrollFrame>) {
        assert(Self::carried(cmd) =~= frames);
    }

    fn capacity() -> (n: usize) {
        SCROLL_BATCH_FRAMES
    }

    fn command(frames: &Vec<ScrollFrame>) -> (cmd: HidCommand) {
        if frames.len() == 1 {
            let f: ScrollFrame = frames[0];
            return HidCommand::InjectScroll {
                x: f.x,
                y: f.y,
                hscroll: f.hscroll,
                vscroll: f.vscroll,
                buttons: f.buttons,
            };
        }
        let mut slots: [ScrollFrame; SCROLL_BATCH_FRAMES] = [
            ScrollFrame::empty();
            SCROLL_BATCH_FRAMES
        ];
        let mut i: usize = 0;
        while i < frames.len()
            invariant
                i <= frames@.len() <= SCROLL_BATCH_FRAMES,
                forall|j: int|
                    0 <= j < SCROLL_BATCH_FRAMES ==> #[trigger] slots@[j] == if j < i {
                        frames@[j]
                    } else {
                        ScrollFrame::empty()
                    },
            decreases frames@.len() - i,
        {
            slots[i] = frames[i];
            i = i + 1;
        }
        assert(slots@ =~= padded_scrolls(frames@));
        HidCommand::InjectScrollBatchFixed { len: frames.len() as u8, frames: slots }
    }
}

impl FrameBatcher<TouchFrame> {
    pub fn down(
        &mut self,
        client: &mut HidClient,
        pointer_id: u64,
        x: i32,
        y: i32,
        pressure: u32,
    ) -> (r: Result<()>)
        requires
            old(self).valid(),
        ensures
            final(self).valid(),
            pushed(
                old(self)@,
                old(client)@,
                (TouchFrame { action: 0, pointer_id: pointer_id, x: x, y: y, pressure: pressure }),
                true,
                final(self)@,
                final(client)@,
                r,
            ),
    {
        self.push_with(
            client,
            TouchFrame::with_action(TouchAction::DOWN, pointer_id, x, y, pressure),
            true,
        )
    }

    pub fn try_down(
        &mut self,
        client: &mut HidClient,
        pointer_id: u64,
        x: i32,
        y: i32,
        pressure: u32,
    ) -> (r: Result<()>)
        requires
            old(self).valid(),
        ensures
            final(self).valid(),
            pushed(
                old(self)@,
                old(client)@,
                (TouchFrame { action: 0, pointer_id: pointer_id, x: x, y: y, pressure: pressure }),
                false,
                final(self)@,
                final(client)@,
                r,
            ),
    {
        self.push_with(
            client,
            TouchFrame::with_action(TouchAction::DOWN, pointer_id, x, y, pressure),
            false,
        )
    }

    pub fn down_pointer(
        &mut self,
        client: &mut HidClient,
        pointer_id: TouchPointerId,
        x: i32,
        y: i32,
        pressure: u32,
    ) -> (r: Result<()>)
        requires
            old(self).valid(),
        ensures
            final(self).valid(),
            pushed(
                old(self)@,
                old(client)@,
                (
                    TouchFrame {
                        action: 0,
                        pointer_id: pointer_id.code(),
                        x: x,
                        y: y,
                        pressure: pressure,
                    }
                ),
                true,
                final(self)@,
                final(client)@,
                r,
            ),
    {
        self.push_with(
            client,
            TouchFrame::with_pointer(TouchAction::DOWN, pointer_id, x, y, pressure),
            true,
        )
    }

    pub fn try_down_pointer(
        &mut self,
        client: &mut HidClient,
        pointer_id: TouchPointerId,
        x: i32,
        y: i32,
        pressure: u32,
    ) -> (r: Result<()>)
        requires
            old(self).valid(),
        ensures
            final(self).valid(),
            pushed(
                old(self)@,
                old(client)@,
                (
                    TouchFrame {
                        action: 0,
                        pointer_id: pointer_id.code(),
                        x: x,
                        y: y,
                        pressure: pressure,
                    }
                ),
                false,
                final(self)@,
                final(client)@,
                r,
            ),
    {
        self.push_with(
            client,
            TouchFrame::with_pointer(TouchAction::DOWN, pointer_id, x, y, pressure),
            false,
        )
    }

    pub fn move_to(
        &mut self,
        client: &mut HidClient,
        pointer_id: u64,
        x: i32,
        y: i32,
        pressure: u32,
    ) -> (r: Result<()>)
        requires
            old(self).valid(),
        ensures
            final(self).valid(),
            pushed(
                old(self)@,
                old(client)@,
                (TouchFrame { action: 2, pointer_id: pointer_id, x: x, y: y, pressure: pressure }),
                true,
                final(self)@,
                final(client)@,
                r,
            ),
    {
        self.push_with(
            client,
            TouchFrame::with_action(TouchAction::MOVE, pointer_id, x, y, pressure),
            true,
        )
    }

    pub fn try_move_to(
        &mut self,
        client: &mut HidClient,
        pointer_id: u64,
        x: i32,
        y: i32,
        pressure: u32,
    ) -> (r: Result<()>)
        requires
            old(self).valid(),
        ensures
            final(self).valid(),
            pushed(
                old(self)@,
                old(client)@,
                (TouchFrame { action: 2, pointer_id: pointer_id, x: x, y: y, pressure: pressure }),
                false,
                final(self)@,
                final(client)@,
                r,
            ),
    {
        self.push_with(
            client,
            TouchFrame::with_action(TouchAction::MOVE, pointer_id, x, y, pressure),
            false,
        )
    }

    pub fn move_pointer_to(
        &mut self,
        client: &mut HidClient,
        pointer_id: TouchPointerId,
        x: i32,
        y: i32,
        pressure: u32,
    ) -> (r: Result<()>)
        requires
            old(self).valid(),
        ensures
            final(self).valid(),
            pushed(
                old(self)@,
                old(client)@,
                (
                    TouchFrame {
                        action: 2,
                        pointer_id: pointer_id.code(),
                        x: x,
                        y: y,
                        pressure: pressure,
                    }
                ),
                true,
                final(self)@,
                final(client)@,
                r,
            ),
    {
        self.push_with(
            client,
            TouchFrame::with_pointer(TouchAction::MOVE, pointer_id, x, y, pressure),
            true,
        )
    }

    pub fn try_move_pointer_to(
        &mut self,
        client: &mut HidClient,
        pointer_id: TouchPointerId,
        x: i32,
        y: i32,
        pressure: u32,
    ) -> (r: Result<()>)
        requires
            old(self).valid(),
        ensures
            final(self).valid(),
            pushed(
                old(self)@,
                old(client)@,
                (
                    TouchFrame {
                        action: 2,
                        pointer_id: pointer_id.code(),
                        x: x,
                        y: y,
                        pressure: pressure,
                    }
                ),
                false,
                final(self)@,
                final(client)@,
                r,
            ),
    {
        self.push_with(
            client,
            TouchFrame::with_pointer(TouchAction::MOVE, pointer_id, x, y, pressure),
            false,
        )
    }

    pub fn up(&mut self, client: &mut HidClient, pointer_id: u64, x: i32, y: i32) -> (r: Result<()>)
        requires
            old(self).valid(),
        ensures
            final(self).valid(),
            pushed(
                old(self)@,
                old(client)@,
                (TouchFrame { action: 1, pointer_id: pointer_id, x: x, y: y, pressure: 0 }),
                true,
                final(self)@,
                final(client)@,
                r,
            ),
    {
        self.push_with(client, TouchFrame::with_action(TouchAction::UP, pointer_id, x, y, 0), true)
    }

    pub fn try_up(
        &mut self,
        client: &mut HidClient,
        pointer_id: u64,
        x: i32,
        y: i32,
    ) -> (r: Result<()>)
        requires
            old(self).valid(),
        ensures
            final(self).valid(),
            pushed(
                old(self)@,
                old(client)@,
                (TouchFrame { action: 1, pointer_id: pointer_id, x: x, y: y, pressure: 0 }),
                false,
                final(self)@,
                final(client)@,
                r,
            ),
    {
        self.push_with(client, TouchFrame::with_action(TouchAction::UP, pointer_id, x, y, 0), false)
    }

    pub fn up_pointer(
        &mut self,
        client: &mut HidClient,
        pointer_id: TouchPointerId,
        x: i32,
        y: i32,
    ) -> (r: Result<()>)
        requires
            old(self).valid(),
        ensures
            final(self).valid(),
            pushed(
                old(self)@,
                old(client)@,
                (TouchFrame { action: 1, pointer_id: pointer_id.code(), x: x, y: y, pressure: 0 }),
                true,
                final(self)@,
                final(client)@,
                r,
            ),
    {
        self.push_with(client, TouchFrame::with_pointer(TouchAction::UP, pointer_id, x, y, 0), true)
    }

    pub fn try_up_pointer(
        &mut self,
        client: &mut HidClient,
        pointer_id: TouchPointerId,
        x: i32,
        y: i32,
    ) -> (r: Result<()>)
        requires
            old(self).valid(),
        ensures
            final(self).valid(),
            pushed(
                old(self)@,
                old(client)@,
                (TouchFrame { action: 1, pointer_id: pointer_id.code(), x: x, y: y, pressure: 0 }),
                false,
                final(self)@,
                final(client)@,
                r,
            ),
    {
        self.push_with(
            client,
            TouchFrame::with_pointer(TouchAction::UP, pointer_id, x, y, 0),
            false,
        )
    }

    pub fn cancel(&mut self, client: &mut HidClient, pointer_id: u64) -> (r: Result<()>)
        requires
            old(self).valid(),
        ensures
            final(self).valid(),
            pushed(
                old(self)@,
                old(client)@,
                (TouchFrame { action: 3, pointer_id: pointer_id, x: 0, y: 0, pressure: 0 }),
                true,
                final(self)@,
                final(client)@,
                r,
            ),
    {
        self.push_with(
            client,
            TouchFrame::with_action(TouchAction::CANCEL, pointer_id, 0, 0, 0),
            true,
        )
    }

    pub fn try_cancel(&mut self, client: &mut HidClient, pointer_id: u64) -> (r: Result<()>)
        requires
            old(self).valid(),
        ensures
            final(self).valid(),
            pushed(
                old(self)@,
                old(client)@,
                (TouchFrame { action: 3, pointer_id: pointer_id, x: 0, y: 0, pressure: 0 }),
                false,
                final(self)@,
                final(client)@,
                r,
            ),
    {
        self.push_with(
            client,
            TouchFrame::with_action(TouchAction::CANCEL, pointer_id, 0, 0, 0),
            false,
        )
    }

    pub fn cancel_pointer(
        &mut self,
        client: &mut HidClient,
        pointer_id: TouchPointerId,
    ) -> (r: Result<()>)
        requires
            old(self).valid(),
        ensures
            final(self).valid(),
            pushed(
                old(self)@,
                old(client)@,
                (TouchFrame { action: 3, pointer_id: pointer_id.code(), x: 0, y: 0, pressure: 0 }),
                true,
                final(self)@,
                final(client)@,
                r,
            ),
    {
        self.push_with(
            client,
            TouchFrame::with_pointer(TouchAction::CANCEL, pointer_id, 0, 0, 0),
            true,
        )
    }

    pub fn try_cancel_pointer(
        &mut self,
        client: &mut HidClient,
        pointer_id: TouchPointerId,
    ) -> (r: Result<()>)
        requires
            old(self).valid(),
        ensures
            final(self).valid(),
            pushed(
                old(self)@,
                old(client)@,
                (TouchFrame { action: 3, pointer_id: pointer_id.code(), x: 0, y: 0, pressure: 0 }),
                false,
                final(self)@,
                final(client)@,
                r,
            ),
    {
        self.push_with(
            client,
            TouchFrame::with_pointer(TouchAction::CANCEL, pointer_id, 0, 0, 0),
            false,
        )
    }
}

impl FrameBatcher<KeyboardFrame> {
    pub fn key(
        &mut self,
        client: &mut HidClient,
        scancode: u8,
        pressed: bool,
        mods: Modifiers,
    ) -> (r: Result<()>)
        requires
            old(self).valid(),
        ensures
            final(self).valid(),
            pushed(
                old(self)@,
                old(client)@,
                (KeyboardFrame { scancode, pressed, mods }),
                true,
                final(self)@,
                final(client)@,
                r,
            ),
    {
        self.push_with(client, KeyboardFrame::new(scancode, pressed, mods), true)
    }

    pub fn try_key(
        &mut self,
        client: &mut HidClient,
        scancode: u8,
        pressed: bool,
        mods: Modifiers,
    ) -> (r: Result<()>)
        requires
            old(self).valid(),
        ensures
            final(self).valid(),
            pushed(
                old(self)@,
                old(client)@,
                (KeyboardFrame { scancode, pressed, mods }),
                false,
                final(self)@,
                final(client)@,
                r,
            ),
    {
        self.push_with(client, KeyboardFrame::new(scancode, pressed, mods), false)
    }

    pub fn key_scancode(
        &mut self,
        client: &mut HidClient,
        scancode: Scancode,
        pressed: bool,
        mods: Modifiers,
    ) -> (r: Result<()>)
        requires
            old(self).valid(),
        ensures
            final(self).valid(),
            pushed(
                old(self)@,
                old(client)@,
                (KeyboardFrame { scancode: scancode.code(), pressed, mods }),
                true,
                final(self)@,
                final(client)@,
                r,
            ),
    {
        self.push_with(client, KeyboardFrame::scancode(scancode, pressed, mods), true)
    }

    pub fn try_key_scancode(
        &mut self,
        client: &mut HidClient,
        scancode: Scancode,
        pressed: bool,
        mods: Modifiers,
    ) -> (r: Result<()>)
        requires
            old(self).valid(),
        ensures
            final(self).valid(),
            pushed(
                old(self)@,
                old(client)@,
                (KeyboardFrame { scancode: scancode.code(), pressed, mods }),
                false,
                final(self)@,
                final(client)@,
                r,
            ),
    {
        self.push_with(client, KeyboardFrame::scancode(scancode, pressed, mods), false)
    }

    /// A press with modifiers, then a release without.
    pub fn tap_key(
        &mut self,
        client: &mut HidClient,
        scancode: u8,
        mods: Modifiers,
    ) -> (r: Result<()>)
        requires
            old(self).valid(),
        ensures
            final(self).valid(),
            pushed_twice(
                old(self)@,
                old(client)@,
                (KeyboardFrame { scancode, pressed: true, mods }),
                (KeyboardFrame { scancode, pressed: false, mods: Modifiers::empty() }),
                true,
                final(self)@,
                final(client)@,
                r,
            ),
    {
        self.push_two(
            client,
            KeyboardFrame::down(scancode, mods),
            KeyboardFrame::up(scancode),
            true,
        )
    }

    /// A press with modifiers, then a release without.
    pub fn try_tap_key(
        &mut self,
        client: &mut HidClient,
        scancode: u8,
        mods: Modifiers,
    ) -> (r: Result<()>)
        requires
            old(self).valid(),
        ensures
            final(self).valid(),
            pushed_twice(
                old(self)@,
                old(client)@,
                (KeyboardFrame { scancode, pressed: true, mods }),
                (KeyboardFrame { scancode, pressed: false, mods: Modifiers::empty() }),
                false,
                final(self)@,
                final(client)@,
                r,
            ),
    {
        self.push_two(
            client,
            KeyboardFrame::down(scancode, mods),
            KeyboardFrame::up(scancode),
            false,
        )
    }

    /// A press with modifiers, then a release without.
    pub fn tap_scancode(
        &mut self,
        client: &mut HidClient,
        scancode: Scancode,
        mods: Modifiers,
    ) -> (r: Result<()>)
        requires
            old(self).valid(),
        ensures
            final(self).valid(),
            pushed_twice(
                old(self)@,
                old(client)@,
                (KeyboardFrame { scancode: scancode.code(), pressed: true, mods }),
                (
                    KeyboardFrame {
                        scancode: scancode.code(),
                        pressed: false,
                        mods: Modifiers::empty(),
                    }
                ),
                true,
                final(self)@,
                final(client)@,
                r,
            ),
    {
        self.push_two(
            client,
            KeyboardFrame::scancode_down(scancode, mods),
            KeyboardFrame::scancode_up(scancode),
            true,
        )
    }

    /// A press with modifiers, then a release without.
    pub fn try_tap_scancode(
        &mut self,
        client: &mut HidClient,
        scancode: Scancode,
        mods: Modifiers,
    ) -> (r: Result<()>)
        requires
            old(self).valid(),
        ensures
            final(self).valid(),
            pushed_twice(
                old(self)@,
                old(client)@,
                (KeyboardFrame { scancode: scancode.code(), pressed: true, mods }),
                (
                    KeyboardFrame {
                        scancode: scancode.code(),
                        pressed: false,
                        mods: Modifiers::empty(),
                    }
                ),
                false,
                final(self)@,
                final(client)@,
                r,
            ),
    {
        self.push_two(
            client,
            KeyboardFrame::scancode_down(scancode, mods),
            KeyboardFrame::scancode_up(scancode),
            false,
        )
    }

    /// Pushes the edges of a chord.
    pub fn chord(&mut self, client: &mut HidClient, chord: KeyboardChordFrame) -> (r: Result<()>)
        requires
            old(self).valid(),
        ensures
            final(self).valid(),
            chord.len > KEYBOARD_CHORD_KEYS ==> r == Err::<(), Error>(
                Error::SessionLifecycle("keyboard chord length overflow"),
            ) && final(self)@ == old(self)@ && final(client)@ == old(client)@,
            chord.len <= KEYBOARD_CHORD_KEYS ==> pushed_all(
                old(self)@,
                old(client)@,
                chord.edges(),
                true,
                final(self)@,
                final(client)@,
                r,
            ),
    {
        match chord.edge_frames() {
            Ok((edges, len)) => {
                let edges: &[KeyboardFrame] = edges.as_slice();
                assert(edges@.subrange(0, len as int) =~= edges@.take(len as int));
                self.push_slice_with(client, &edges[0..len], true)
            },
            Err(e) => Err(e),
        }
    }

    /// Pushes the edges of a chord over named keys; see
    /// [`KeyboardChordFrame::try_scancodes`] for what is refused.
    pub fn scancode_chord(
        &mut self,
        client: &mut HidClient,
        scancodes: &[Scancode],
        mods: Modifiers,
    ) -> (r: Result<()>)
        requires
            old(self).valid(),
        ensures
            final(self).valid(),
            scancodes@.len() > KEYBOARD_CHORD_KEYS ==> r == Err::<(), Error>(
                Error::SessionLifecycle("keyboard chord too large"),
            ) && final(self)@ == old(self)@ && final(client)@ == old(client)@,
            scancodes@.len() <= KEYBOARD_CHORD_KEYS && names_modifier(scancodes@) ==> r == Err::<
                (),
                Error,
            >(
                Error::SessionLifecycle("keyboard chord keys must be non-modifier scancodes"),
            ) && final(self)@ == old(self)@ && final(client)@ == old(client)@,
            scancodes@.len() <= KEYBOARD_CHORD_KEYS && !names_modifier(scancodes@) ==> exists|
                chord: KeyboardChordFrame,
            |
                #[trigger]
                names_chord(scancodes@, mods, chord) && pushed_all(
                    old(self)@,
                    old(client)@,
                    chord.edges(),
                    true,
                    final(self)@,
                    final(client)@,
                    r,
                ),
    {
        match KeyboardChordFrame::try_scancodes(scancodes, mods) {
            Ok(chord) => self.chord(client, chord),
            Err(e) => Err(e),
        }
    }

    /// Pushes the edges of a chord.
    pub fn try_chord(
        &mut self,
        client: &mut HidClient,
        chord: KeyboardChordFrame,
    ) -> (r: Result<()>)
        requires
            old(self).valid(),
        ensures
            final(self).valid(),
            chord.len > KEYBOARD_CHORD_KEYS ==> r == Err::<(), Error>(
                Error::SessionLifecycle("keyboard chord length overflow"),
            ) && final(self)@ == old(self)@ && final(client)@ == old(client)@,
            chord.len <= KEYBOARD_CHORD_KEYS ==> pushed_all(
                old(self)@,
                old(client)@,
                chord.edges(),
                false,
                final(self)@,
                final(client)@,
                r,
            ),
    {
        match chord.edge_frames() {
            Ok((edges, len)) => {
                let edges: &[KeyboardFrame] = edges.as_slice();
                assert(edges@.subrange(0, len as int) =~= edges@.take(len as int));
                self.push_slice_with(client, &edges[0..len], false)
            },
            Err(e) => Err(e),
        }
    }

    /// Pushes the edges of a chord over named keys; see
    /// [`KeyboardChordFrame::try_scancodes`] for what is refused.
    pub fn try_scancode_chord(
        &mut self,
        client: &mut HidClient,
        scancodes: &[Scancode],
        mods: Modifiers,
    ) -> (r: Result<()>)
        requires
            old(self).valid(),
        ensures
            final(self).valid(),
            scancodes@.len() > KEYBOARD_CHORD_KEYS ==> r == Err::<(), Error>(
                Error::SessionLifecycle("keyboard chord too large"),
            ) && final(self)@ == old(self)@ && final(client)@ == old(client)@,
            scancodes@.len() <= KEYBOARD_CHORD_KEYS && names_modifier(scancodes@) ==> r == Err::<
                (),
                Error,
            >(
                Error::SessionLifecycle("keyboard chord keys must be non-modifier scancodes"),
            ) && final(self)@ == old(self)@ && final(client)@ == old(client)@,
            scancodes@.len() <= KEYBOARD_CHORD_KEYS && !names_modifier(scancodes@) ==> exists|
                chord: KeyboardChordFrame,
            |
                #[trigger]
                names_chord(scancodes@, mods, chord) && pushed_all(
                    old(self)@,
                    old(client)@,
                    chord.edges(),
                    false,
                    final(self)@,
                    final(client)@,
                    r,
                ),
    {
        match KeyboardChordFrame::try_scancodes(scancodes, mods) {
            Ok(chord) => self.try_chord(client, chord),
            Err(e) => Err(e),
        }
    }
}

impl FrameBatcher<AndroidKeyFrame> {
    pub fn keycode(
        &mut self,
        client: &mut HidClient,
        action: u8,
        keycode: u32,
        repeat: u32,
        metastate: u32,
    ) -> (r: Result<()>)
        requires
            old(self).valid(),
        ensures
            final(self).valid(),
            pushed(
                old(self)@,
                old(client)@,
                (AndroidKeyFrame { action, keycode, repeat, metastate }),
                true,
                final(self)@,
                final(client)@,
                r,
            ),
    {
        self.push_with(client, AndroidKeyFrame::new(action, keycode, repeat, metastate), true)
    }

    pub fn try_keycode(
        &mut self,
        client: &mut HidClient,
        action: u8,
        keycode: u32,
        repeat: u32,
        metastate: u32,
    ) -> (r: Result<()>)
        requires
            old(self).valid(),
        ensures
            final(self).valid(),
            pushed(
                old(self)@,
                old(client)@,
                (AndroidKeyFrame { action, keycode, repeat, metastate }),
                false,
                final(self)@,
                final(client)@,
                r,
            ),
    {
        self.push_with(client, AndroidKeyFrame::new(action, keycode, repeat, metastate), false)
    }

    pub fn key_event(
        &mut self,
        client: &mut HidClient,
        action: AndroidKeyAction,
        keycode: AndroidKeycode,
        repeat: u32,
        metastate: u32,
    ) -> (r: Result<()>)
        requires
            old(self).valid(),
        ensures
            final(self).valid(),
            pushed(
                old(self)@,
                old(client)@,
                (
                    AndroidKeyFrame {
                        action: action.code(),
                        keycode: keycode.code(),
                        repeat,
                        metastate,
                    }
                ),
                true,
                final(self)@,
                final(client)@,
                r,
            ),
    {
        self.push_with(client, AndroidKeyFrame::typed(action, keycode, repeat, metastate), true)
    }

    pub fn try_key_event(
        &mut self,
        client: &mut HidClient,
        action: AndroidKeyAction,
        keycode: AndroidKeycode,
        repeat: u32,
        metastate: u32,
    ) -> (r: Result<()>)
        requires
            old(self).valid(),
        ensures
            final(self).valid(),
            pushed(
                old(self)@,
                old(client)@,
                (
                    AndroidKeyFrame {
                        action: action.code(),
                        keycode: keycode.code(),
                        repeat,
                        metastate,
                    }
                ),
                false,
                final(self)@,
                final(client)@,
                r,
            ),
    {
        self.push_with(client, AndroidKeyFrame::typed(action, keycode, repeat, metastate), false)
    }

    /// A press and a release.
    pub fn tap_keycode(
        &mut self,
        client: &mut HidClient,
        keycode: u32,
        metastate: u32,
    ) -> (r: Result<()>)
        requires
            old(self).valid(),
        ensures
            final(self).valid(),
            pushed_twice(
                old(self)@,
                old(client)@,
                (AndroidKeyFrame { action: 0, keycode: keycode, repeat: 0, metastate: metastate }),
                (AndroidKeyFrame { action: 1, keycode: keycode, repeat: 0, metastate: metastate }),
                true,
                final(self)@,
                final(client)@,
                r,
            ),
    {
        self.push_two(
            client,
            AndroidKeyFrame::new(0, keycode, 0, metastate),
            AndroidKeyFrame::new(1, keycode, 0, metastate),
            true,
        )
    }

    /// A press and a release.
    pub fn try_tap_keycode(
        &mut self,
        client: &mut HidClient,
        keycode: u32,
        metastate: u32,
    ) -> (r: Result<()>)
        requires
            old(self).valid(),
        ensures
            final(self).valid(),
            pushed_twice(
                old(self)@,
                old(client)@,
                (AndroidKeyFrame { action: 0, keycode: keycode, repeat: 0, metastate: metastate }),
                (AndroidKeyFrame { action: 1, keycode: keycode, repeat: 0, metastate: metastate }),
                false,
                final(self)@,
                final(client)@,
                r,
            ),
    {
        self.push_two(
            client,
            AndroidKeyFrame::new(0, keycode, 0, metastate),
            AndroidKeyFrame::new(1, keycode, 0, metastate),
            false,
        )
    }

    /// A press and a release.
    pub fn tap_key(&mut self, client: &mut HidClient, keycode: AndroidKeycode) -> (r: Result<()>)
        requires
            old(self).valid(),
        ensures
            final(self).valid(),
            pushed_twice(
                old(self)@,
                old(client)@,
                (AndroidKeyFrame { action: 0, keycode: keycode.code(), repeat: 0, metastate: 0 }),
                (AndroidKeyFrame { action: 1, keycode: keycode.code(), repeat: 0, metastate: 0 }),
                true,
                final(self)@,
                final(client)@,
                r,
            ),
    {
        self.push_two(
            client,
            AndroidKeyFrame::down(keycode, 0),
            AndroidKeyFrame::up(keycode, 0),
            true,
        )
    }

    /// A press and a release.
    pub fn try_tap_key(
        &mut self,
        client: &mut HidClient,
        keycode: AndroidKeycode,
    ) -> (r: Result<()>)
        requires
            old(self).valid(),
        ensures
            final(self).valid(),
            pushed_twice(
                old(self)@,
                old(client)@,
                (AndroidKeyFrame { action: 0, keycode: keycode.code(), repeat: 0, metastate: 0 }),
                (AndroidKeyFrame { action: 1, keycode: keycode.code(), repeat: 0, metastate: 0 }),
                false,
                final(self)@,
                final(client)@,
                r,
            ),
    {
        self.push_two(
            client,
            AndroidKeyFrame::down(keycode, 0),
            AndroidKeyFrame::up(keycode, 0),
            false,
        )
    }

    /// A press and a release.
    pub fn tap_key_with_metastate(
        &mut self,
        client: &mut HidClient,
        keycode: AndroidKeycode,
        metastate: u32,
    ) -> (r: Result<()>)
        requires
            old(self).valid(),
        ensures
            final(self).valid(),
            pushed_twice(
                old(self)@,
                old(client)@,
                (
                    AndroidKeyFrame {
                        action: 0,
                        keycode: keycode.code(),
                        repeat: 0,
                        metastate: metastate,
                    }
                ),
                (
                    AndroidKeyFrame {
                        action: 1,
                        keycode: keycode.code(),
                        repeat: 0,
                        metastate: metastate,
                    }
                ),
                true,
                final(self)@,
                final(client)@,
                r,
            ),
    {
        self.push_two(
            client,
            AndroidKeyFrame::down(keycode, metastate),
            AndroidKeyFrame::up(keycode, metastate),
            true,
        )
    }

    /// A press and a release.
    pub fn try_tap_key_with_metastate(
        &mut self,
        client: &mut HidClient,
        keycode: AndroidKeycode,
        metastate: u32,
    ) -> (r: Result<()>)
        requires
            old(self).valid(),
        ensures
            final(self).valid(),
            pushed_twice(
                old(self)@,
                old(client)@,
                (
                    AndroidKeyFrame {
                        action: 0,
                        keycode: keycode.code(),
                        repeat: 0,
                        metastate: metastate,
                    }
                ),
                (
                    AndroidKeyFrame {
                        action: 1,
                        keycode: keycode.code(),
                        repeat: 0,
                        metastate: metastate,
                    }
                ),
                false,
                final(self)@,
                final(client)@,
                r,
            ),
    {
        self.push_two(
            client,
            AndroidKeyFrame::down(keycode, metastate),
            AndroidKeyFrame::up(keycode, metastate),
            false,
        )
    }
}

impl FrameBatcher<MouseFrame> {
    pub fn motion(
        &mut self,
        client: &mut HidClient,
        dx: i32,
        dy: i32,
        buttons: u8,
    ) -> (r: Result<()>)
        requires
            old(self).valid(),
        ensures
            final(self).valid(),
            pushed(
                old(self)@,
                old(client)@,
                (MouseFrame { dx, dy, buttons }),
                true,
                final(self)@,
                final(client)@,
                r,
            ),
    {
        self.push_with(client, MouseFrame::motion(dx, dy, buttons), true)
    }

    pub fn try_motion(
        &mut self,
        client: &mut HidClient,
        dx: i32,
        dy: i32,
        buttons: u8,
    ) -> (r: Result<()>)
        requires
            old(self).valid(),
        ensures
            final(self).valid(),
            pushed(
                old(self)@,
                old(client)@,
                (MouseFrame { dx, dy, buttons }),
                false,
                final(self)@,
                final(client)@,
                r,
            ),
    {
        self.push_with(client, MouseFrame::motion(dx, dy, buttons), false)
    }

    pub fn motion_buttons(
        &mut self,
        client: &mut HidClient,
        dx: i32,
        dy: i32,
        buttons: &[MouseButton],
    ) -> (r: Result<()>)
        requires
            old(self).valid(),
        ensures
            final(self).valid(),
            pushed(
                old(self)@,
                old(client)@,
                (MouseFrame { dx, dy, buttons: MouseButton::held(buttons@) }),
                true,
                final(self)@,
                final(client)@,
                r,
            ),
    {
        self.push_with(client, MouseFrame::motion_buttons(dx, dy, buttons), true)
    }

    pub fn try_motion_buttons(
        &mut self,
        client: &mut HidClient,
        dx: i32,
        dy: i32,
        buttons: &[MouseButton],
    ) -> (r: Result<()>)
        requires
            old(self).valid(),
        ensures
            final(self).valid(),
            pushed(
                old(self)@,
                old(client)@,
                (MouseFrame { dx, dy, buttons: MouseButton::held(buttons@) }),
                false,
                final(self)@,
                final(client)@,
                r,
            ),
    {
        self.push_with(client, MouseFrame::motion_buttons(dx, dy, buttons), false)
    }

    pub fn buttons(&mut self, client: &mut HidClient, buttons: u8) -> (r: Result<()>)
        requires
            old(self).valid(),
        ensures
            final(self).valid(),
            pushed(
                old(self)@,
                old(client)@,
                (MouseFrame { dx: 0, dy: 0, buttons }),
                true,
                final(self)@,
                final(client)@,
                r,
            ),
    {
        self.push_with(client, MouseFrame::buttons(buttons), true)
    }

    pub fn try_buttons(&mut self, client: &mut HidClient, buttons: u8) -> (r: Result<()>)
        requires
            old(self).valid(),
        ensures
            final(self).valid(),
            pushed(
                old(self)@,
                old(client)@,
                (MouseFrame { dx: 0, dy: 0, buttons }),
                false,
                final(self)@,
                final(client)@,
                r,
            ),
    {
        self.push_with(client, MouseFrame::buttons(buttons), false)
    }

    pub fn button_state(
        &mut self,
        client: &mut HidClient,
        buttons: &[MouseButton],
    ) -> (r: Result<()>)
        requires
            old(self).valid(),
        ensures
            final(self).valid(),
            pushed(
                old(self)@,
                old(client)@,
                (MouseFrame { dx: 0, dy: 0, buttons: MouseButton::held(buttons@) }),
                true,
                final(self)@,
                final(client)@,
                r,
            ),
    {
        self.push_with(client, MouseFrame::buttons(MouseButton::state(buttons)), true)
    }

    pub fn try_button_state(
        &mut self,
        client: &mut HidClient,
        buttons: &[MouseButton],
    ) -> (r: Result<()>)
        requires
            old(self).valid(),
        ensures
            final(self).valid(),
            pushed(
                old(self)@,
                old(client)@,
                (MouseFrame { dx: 0, dy: 0, buttons: MouseButton::held(buttons@) }),
                false,
                final(self)@,
                final(client)@,
                r,
            ),
    {
        self.push_with(client, MouseFrame::buttons(MouseButton::state(buttons)), false)
    }
}

impl FrameBatcher<ScrollFrame> {
    pub fn scroll(
        &mut self,
        client: &mut HidClient,
        x: i32,
        y: i32,
        hscroll: u32,
        vscroll: u32,
    ) -> (r: Result<()>)
        requires
            old(self).valid(),
        ensures
            final(self).valid(),
            pushed(
                old(self)@,
                old(client)@,
                (ScrollFrame { x, y, hscroll, vscroll, buttons: 0 }),
                true,
                final(self)@,
                final(client)@,
                r,
            ),
    {
        self.push_with(client, ScrollFrame::scroll(x, y, hscroll, vscroll), true)
    }

    pub fn try_scroll(
        &mut self,
        client: &mut HidClient,
        x: i32,
        y: i32,
        hscroll: u32,
        vscroll: u32,
    ) -> (r: Result<()>)
        requires
            old(self).valid(),
        ensures
            final(self).valid(),
            pushed(
                old(self)@,
                old(client)@,
                (ScrollFrame { x, y, hscroll, vscroll, buttons: 0 }),
                false,
                final(self)@,
                final(client)@,
                r,
            ),
    {
        self.push_with(client, ScrollFrame::scroll(x, y, hscroll, vscroll), false)
    }

    pub fn scroll_with_buttons(
        &mut self,
        client: &mut HidClient,
        x: i32,
        y: i32,
        hscroll: u32,
        vscroll: u32,
        buttons: u32,
    ) -> (r: Result<()>)
        requires
            old(self).valid(),
        ensures
            final(self).valid(),
            pushed(
                old(self)@,
                old(client)@,
                (ScrollFrame { x, y, hscroll, vscroll, buttons }),
                true,
                final(self)@,
                final(client)@,
                r,
            ),
    {
        self.push_with(client, ScrollFrame::new(x, y, hscroll, vscroll, buttons), true)
    }

    pub fn try_scroll_with_buttons(
        &mut self,
        client: &mut HidClient,
        x: i32,
        y: i32,
        hscroll: u32,
        vscroll: u32,
        buttons: u32,
    ) -> (r: Result<()>)
        requires
            old(self).valid(),
        ensures
            final(self).valid(),
            pushed(
                old(self)@,
                old(client)@,
                (ScrollFrame { x, y, hscroll, vscroll, buttons }),
                false,
                final(self)@,
                final(client)@,
                r,
            ),
    {
        self.push_with(client, ScrollFrame::new(x, y, hscroll, vscroll, buttons), false)
    }
}

impl HidClient {
    pub fn touch_frame_batcher(&self) -> (b: TouchFrameBatcher)
        ensures
            b.valid(),
            b@.len() == 0,
    {
        TouchFrameBatcher::new()
    }

    pub fn keyboard_frame_batcher(&self) -> (b: KeyboardFrameBatcher)
        ensures
            b.valid(),
            b@.len() == 0,
    {
        KeyboardFrameBatcher::new()
    }

    pub fn android_key_frame_batcher(&self) -> (b: AndroidKeyFrameBatcher)
        ensures
            b.valid(),
            b@.len() == 0,
    {
        AndroidKeyFrameBatcher::new()
    }

    pub fn mouse_frame_batcher(&self) -> (b: MouseFrameBatcher)
        ensures
            b.valid(),
            b@.len() == 0,
    {
        MouseFrameBatcher::new()
    }

    pub fn scroll_frame_batcher(&self) -> (b: ScrollFrameBatcher)
        ensures
            b.valid(),
            b@.len() == 0,
    {
        ScrollFrameBatcher::new()
    }
}

/// A command carries up to 24 touches, and up to 32 frames of any other kind.
pub proof fn lemma_batch_sizes()
    ensures
        TouchFrame::cap() == 24,
        KeyboardFrame::cap() == 32,
        AndroidKeyFrame::cap() == 32,
        MouseFrame::cap() == 32,
        ScrollFrame::cap() == 32,
{
}

/// A batcher sends nothing before it is full and a frame more comes. Then it sends one
/// command with all that it holds, and keeps the new frame.
pub proof fn lemma_push_sends_when_full<F: BatchFrame>(
    b0: Seq<F>,
    c0: ClientView,
    frame: F,
    blocking: bool,
    b1: Seq<F>,
    c1: ClientView,
    r: Result<()>,
)
    requires
        0 < F::cap(),
        b0.len() <= F::cap(),
        pushed(b0, c0, frame, blocking, b1, c1, r),
    ensures
        b0.len() < F::cap() ==> r is Ok && c1 == c0 && b1 == b0.push(frame),
        b0.len() == F::cap() ==> (r is Ok <==> c0.admission(blocking) is Ok),
        b0.len() == F::cap() && r is Ok ==> c1.queue.len() == c0.queue.len() + 1
            && c1.queue.drop_last() == c0.queue && F::carried(c1.queue.last()) == b0 && b1 == seq![
            frame,
        ],
        b0.len() == F::cap() && r is Err ==> r == c0.admission(blocking),
        b1.len() <= F::cap(),
{
    if b0.len() == F::cap() && r is Ok {
        F::lemma_batch_carries(c1.queue.last(), b0);
        assert(c1.queue.drop_last() =~= c0.queue);
    }
}

/// A flush sends what is held in one command, and nothing where nothing is held.
pub proof fn lemma_flush_sends_once<F: BatchFrame>(
    b0: Seq<F>,
    c0: ClientView,
    blocking: bool,
    b1: Seq<F>,
    c1: ClientView,
    r: Result<()>,
)
    requires
        0 < F::cap(),
        b0.len() <= F::cap(),
        flushed(b0, c0, blocking, b1, c1, r),
    ensures
        b0.len() == 0 ==> r is Ok && c1 == c0,
        b0.len() > 0 ==> (r is Ok <==> c0.admission(blocking) is Ok),
        b0.len() > 0 && r is Ok ==> c1.queue.len() == c0.queue.len() + 1 && c1.queue.drop_last()
            == c0.queue && F::carried(c1.queue.last()) == b0 && b1.len() == 0,
        r is Err ==> r == c0.admission(blocking) && b1 == b0 && c1 == c0,
{
    if b0.len() > 0 && r is Ok {
        F::lemma_batch_carries(c1.queue.last(), b0);
        assert(c1.queue.drop_last() =~= c0.queue);
    }
}

/// A slice that goes in sends every batch that it fills and keeps the rest, which is
/// less than a batch.
pub proof fn lemma_slice_sends_filled_batches<F: BatchFrame>(
    b0: Seq<F>,
    c0: ClientView,
    frames: Seq<F>,
    blocking: bool,
    b1: Seq<F>,
    c1: ClientView,
    r: Result<()>,
)
    requires
        0 < F::cap(),
        r is Ok,
        frames.len() > 0,
        pushed_all(b0, c0, frames, blocking, b1, c1, r),
    ensures
        (c1.queue.len() - c0.queue.len()) * F::cap() + b1.len() == b0.len() + frames.len(),
        b1.len() < F::cap(),
        c1.queue.take(c0.queue.len() as int) == c0.queue,
        c1.queue.len() > c0.queue.len() ==> c0.connected,
{
}

/// Frames that go in one by one leave the last batch in the batcher even if it is full:
/// a batch is sent only for the frame behind it.
pub proof fn lemma_turns_keep_last_batch<F: BatchFrame>(
    b0: Seq<F>,
    c0: ClientView,
    frames: Seq<F>,
    blocking: bool,
    b1: Seq<F>,
    c1: ClientView,
    r: Result<()>,
)
    requires
        0 < F::cap(),
        r is Ok,
        pushed_in_turn(b0, c0, frames, blocking, b1, c1, r),
    ensures
        (c1.queue.len() - c0.queue.len()) * F::cap() + b1.len() == b0.len() + frames.len(),
        b1.len() <= F::cap(),
        c1.queue.len() > c0.queue.len() ==> b1.len() > 0 && c0.connected,
        c1.queue.take(c0.queue.len() as int) == c0.queue,
{
}

/// Two frames that go in stand behind all earlier ones, in their order. Where the first
/// is refused, nothing has changed.
pub proof fn lemma_two_frames_keep_order<F: BatchFrame>(
    b0: Seq<F>,
    c0: ClientView,
    first: F,
    second: F,
    blocking: bool,
    b2: Seq<F>,
    c2: ClientView,
    r: Result<()>,
)
    requires
        1 < F::cap(),
        b0.len() <= F::cap(),
        pushed_twice(b0, c0, first, second, blocking, b2, c2, r),
    ensures
        r is Ok ==> stream::<F>(c2.queue) + b2 == stream::<F>(c0.queue) + b0.push(first).push(
            second,
        ),
        b0.len() == F::cap() && c0.admission(blocking) is Err ==> r is Err && b2 == b0 && c2 == c0,
        b0.len() + 2 <= F::cap() ==> r is Ok && c2 == c0 && b2 == b0.push(first).push(second),
{
    if push_result(b0, c0, blocking) is Ok {
        let c1 = choose|c1: ClientView| #[trigger]
            client_after_push(b0, c0, c1, blocking) && pushed(
                after_push(b0, c0, first, blocking),
                c1,
                second,
                blocking,
                b2,
                c2,
                r,
            );
        let b1 = after_push(b0, c0, first, blocking);
        assert(pushed(b0, c0, first, blocking, b1, c1, Ok(())));
        lemma_push_keeps_frames(b0, c0, first, blocking, b1, c1, Ok(()));
        lemma_push_keeps_frames(b1, c1, second, blocking, b2, c2, r);
        if r is Ok {
            assert(stream::<F>(c2.queue) + b2 =~= (stream::<F>(c1.queue) + b1).push(second));
            assert(stream::<F>(c0.queue) + b0.push(first).push(second) =~= (stream::<F>(c0.queue)
                + b0.push(first)).push(second));
        }
    }
}

/// The slots behind the frames of a batch are empty, and the frames stand in the slots
/// in front of them.
pub proof fn lemma_unused_slots_are_empty(
    touches: Seq<TouchFrame>,
    keys: Seq<KeyboardFrame>,
    android_keys: Seq<AndroidKeyFrame>,
    motions: Seq<MouseFrame>,
    scrolls: Seq<ScrollFrame>,
    i: int,
)
    requires
        0 <= i,
    ensures
        padded_touches(touches).len() == 24,
        padded_keys(keys).len() == 32,
        padded_android_keys(android_keys).len() == 32,
        padded_motions(motions).len() == 32,
        padded_scrolls(scrolls).len() == 32,
        i < 24 && i < touches.len() ==> padded_touches(touches)[i] == touches[i],
        touches.len() <= i < 24 ==> padded_touches(touches)[i] == (TouchFrame {
            action: 0,
            pointer_id: 0,
            x: 0,
            y: 0,
            pressure: 0,
        }),
        i < 32 && i < keys.len() ==> padded_keys(keys)[i] == keys[i],
        keys.len() <= i < 32 ==> padded_keys(keys)[i].scancode == 0 && !padded_keys(keys)[i].pressed
            && padded_keys(keys)[i].mods.bits == 0,
        i < 32 && i < android_keys.len() ==> padded_android_keys(android_keys)[i]
            == android_keys[i],
        android_keys.len() <= i < 32 ==> padded_android_keys(android_keys)[i] == (AndroidKeyFrame {
            action: 0,
            keycode: 0,
            repeat: 0,
            metastate: 0,
        }),
        i < 32 && i < motions.len() ==> padded_motions(motions)[i] == motions[i],
        motions.len() <= i < 32 ==> padded_motions(motions)[i] == (MouseFrame {
            dx: 0,
            dy: 0,
            buttons: 0,
        }),
        i < 32 && i < scrolls.len() ==> padded_scrolls(scrolls)[i] == scrolls[i],
        scrolls.len() <= i < 32 ==> padded_scrolls(scrolls)[i] == (ScrollFrame {
            x: 0,
            y: 0,
            hscroll: 0,
            vscroll: 0,
            buttons: 0,
        }),
{
}

} // verus!
