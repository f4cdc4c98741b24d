//! Batching of gamepad frames.
//!
//! A gamepad batcher hands its frames on as soon as it holds as many as its
//! batch size. Up to [`GAMEPAD_BATCH_FRAMES`] frames travel in a fixed batch,
//! larger batches in an owned one.
use vstd::prelude::*;

use crate::client::{frame_command, ClientView, HidClient};
use crate::command::HidCommand;
use crate::error::{Error, Result};
use crate::frames::GAMEPAD_BATCH_FRAMES;
use crate::gamepad::{GamepadFrameRaw, GAMEPAD_FRAME_BYTES};

verus! {

/// A form of gamepad frame that travels in batches.
pub trait GamepadItem: Copy + Sized {
    /// The frames of this form that a command carries.
    spec fn carried(cmd: HidCommand) -> Seq<Self>;

    /// Whether `cmd` is the command for `frames`; `dedupe` asks the dispatcher to
    /// drop repeats, `fixed` tells that the frames fit a fixed batch.
    spec fn batch_of(cmd: HidCommand, frames: Seq<Self>, dedupe: bool, fixed: bool) -> bool;

    /// The command for some frames carries exactly them.
    proof fn lemma_batch_carries(cmd: HidCommand, frames: Seq<Self>, dedupe: bool, fixed: bool)
        requires
            Self::batch_of(cmd, frames, dedupe, fixed),
            0 < frames.len(),
            fixed ==> frames.len() <= GAMEPAD_BATCH_FRAMES,
        ensures
            Self::carried(cmd) == frames,
            cmd.well_formed(),
    ;

    /// Builds the command for some frames.
    fn command(frames: &Vec<Self>, dedupe: bool, fixed: bool) -> (cmd: HidCommand)
        requires
            0 < frames@.len(),
            fixed ==> frames@.len() <= GAMEPAD_BATCH_FRAMES,
        ensures
            Self::batch_of(cmd, frames@, dedupe, fixed),
    ;
}

/// Gamepad frames filled up to a whole batch with neutral ones.
pub open spec fn padded_frames(frames: Seq<GamepadFrameRaw>) -> Seq<GamepadFrameRaw> {
    Seq::new(
        GAMEPAD_BATCH_FRAMES as nat,
        |i: int| if i < frames.len() { frames[i] } else { GamepadFrameRaw::neutral() },
    )
}

fn fixed_frames(frames: &Vec<GamepadFrameRaw>) -> (slots: [GamepadFrameRaw; GAMEPAD_BATCH_FRAMES])
    requires
        frames@.len() <= GAMEPAD_BATCH_FRAMES,
    ensures
        slots@ == padded_frames(frames@),
{
    let mut slots: [GamepadFrameRaw; GAMEPAD_BATCH_FRAMES] = [
        GamepadFrameRaw::neutral();
        GAMEPAD_BATCH_FRAMES
    ];
    let mut i: usize = 0;
    while i < frames.len()
        invariant
            i <= frames@.len() <= GAMEPAD_BATCH_FRAMES,
            forall|j: int|
                0 <= j < GAMEPAD_BATCH_FRAMES ==> #[trigger] slots@[j] == if j < i {
                    frames@[j]
                } else {
                    GamepadFrameRaw::neutral()
                },
        decreases frames@.len() - i,
    {
        slots[i] = frames[i];
        i = i + 1;
    }
    assert(slots@ =~= padded_frames(frames@));
    slots
}

fn copied<G: Copy>(frames: &Vec<G>) -> (v: Vec<G>)
    ensures
        v@ == frames@,
{
    let mut v: Vec<G> = Vec::new();
    let mut i: usize = 0;
    while i < frames.len()
        invariant
            i <= frames@.len(),
            v@ =~= frames@.take(i as int),
        decreases frames@.len() - i,
    {
        v.push(frames[i]);
        i = i + 1;
    }
    assert(v@ =~= frames@);
    v
}

impl GamepadItem for GamepadFrameRaw {
    open spec fn carried(cmd: HidCommand) -> Seq<GamepadFrameRaw> {
        match cmd {
            HidCommand::GamepadFrameRaw {
                buttons,
                left_x,
                left_y,
                right_x,
                right_y,
                left_trigger,
                right_trigger,
            } => seq![
                GamepadFrameRaw {
                    buttons,
                    left_x,
                    left_y,
                    right_x,
                    right_y,
                    left_trigger,
                    right_trigger,
                },
            ],
            HidCommand::GamepadFrameRawUnchecked(frame) => seq![frame],
            HidCommand::GamepadFrameRawBatch(frames) => frames@,
            HidCommand::GamepadFrameRawBatchUnchecked(frames) => frames@,
            HidCommand::GamepadFrameRawBatchFixed { len, frames } => frames@.take(len as int),
            HidCommand::GamepadFrameRawBatchFixedUnchecked { len, frames } => frames@.take(
                len as int,
            ),
            _ => Seq::empty(),
        }
    }

    open spec fn batch_of(
        cmd: HidCommand,
        frames: Seq<GamepadFrameRaw>,
        dedupe: bool,
        fixed: bool,
    ) -> bool {
        if frames.len() == 1 {
            cmd == frame_command(frames[0], dedupe)
        } else if fixed && dedupe {
            &&& cmd matches HidCommand::GamepadFrameRawBatchFixed { len, frames: slots }
            &&& len == frames.len()
            &&& slots@ == padded_frames(frames)
        } else if fixed {
            &&& cmd matches HidCommand::GamepadFrameRawBatchFixedUnchecked { len, frames: slots }
            &&& len == frames.len()
            &&& slots@ == padded_frames(frames)
        } else if dedupe {
            cmd matches HidCommand::GamepadFrameRawBatch(v) && v@ == frames
        } else {
            cmd matches HidCommand::GamepadFrameRawBatchUnchecked(v) && v@ == frames
        }
    }

    proof fn lemma_batch_carries(
        cmd: HidCommand,
        frames: Seq<GamepadFrameRaw>,
        dedupe: bool,
        fixed: bool,
    ) {
        assert(Self::carried(cmd) =~= frames);
    }

    fn command(frames: &Vec<GamepadFrameRaw>, dedupe: bool, fixed: bool) -> (cmd: HidCommand) {
        if frames.len() == 1 {
            let f: GamepadFrameRaw = frames[0];
            if dedupe {
                return HidCommand::GamepadFrameRaw {
                    buttons: f.buttons,
                    left_x: f.left_x,
                    left_y: f.left_y,
                    right_x: f.right_x,
                    right_y: f.right_y,
                    left_trigger: f.left_trigger,
                    right_trigger: f.right_trigger,
                };
            }
            return HidCommand::GamepadFrameRawUnchecked(f);
        }
        if fixed {
            let len: u8 = frames.len() as u8;
            let slots: [GamepadFrameRaw; GAMEPAD_BATCH_FRAMES] = fixed_frames(frames);
            if dedupe {
                return HidCommand::GamepadFrameRawBatchFixed { len, frames: slots };
            }
            return HidCommand::GamepadFrameRawBatchFixedUnchecked { len, frames: slots };
        }
        if dedupe {
            HidCommand::GamepadFrameRawBatch(copied(frames))
        } else {
            HidCommand::GamepadFrameRawBatchUnchecked(copied(frames))
        }
    }
}

/// A packed frame of zeros.
pub open spec fn blank_packed(frame: [u8; GAMEPAD_FRAME_BYTES]) -> bool {
    forall|i: int| 0 <= i < GAMEPAD_FRAME_BYTES ==> #[trigger] frame@[i] == 0u8
}

/// Whether `slots` are packed frames filled up to a whole batch with blank ones.
pub open spec fn padded_packed(
    slots: Seq<[u8; GAMEPAD_FRAME_BYTES]>,
    frames: Seq<[u8; GAMEPAD_FRAME_BYTES]>,
) -> bool {
    &&& slots.len() == GAMEPAD_BATCH_FRAMES
    &&& forall|i: int| 0 <= i < frames.len() ==> #[trigger] slots[i] == frames[i]
    &&& forall|i: int| frames.len() <= i < slots.len() ==> blank_packed(#[trigger] slots[i])
}

impl GamepadItem for [u8; GAMEPAD_FRAME_BYTES] {
    open spec fn carried(cmd: HidCommand) -> Seq<[u8; GAMEPAD_FRAME_BYTES]> {
        match cmd {
            HidCommand::GamepadPackedFrame(frame) => seq![frame],
            HidCommand::GamepadPackedFrameBatch(frames) => frames@,
            HidCommand::GamepadPackedFrameBatchFixed { len, frames } => frames@.take(len as int),
            _ => Seq::empty(),
        }
    }

    open spec fn batch_of(
        cmd: HidCommand,
        frames: Seq<[u8; GAMEPAD_FRAME_BYTES]>,
        dedupe: bool,
        fixed: bool,
    ) -> bool {
        if frames.len() == 1 {
            cmd == HidCommand::GamepadPackedFrame(frames[0])
        } else if fixed {
            &&& cmd matches HidCommand::GamepadPackedFrameBatchFixed { len, frames: slots }
            &&& len == frames.len()
            &&& padded_packed(slots@, frames)
        } else {
            cmd matches HidCommand::GamepadPackedFrameBatch(v) && v@ == frames
        }
    }

    proof fn lemma_batch_carries(
        cmd: HidCommand,
        frames: Seq<[u8; GAMEPAD_FRAME_BYTES]>,
        dedupe: bool,
        fixed: bool,
    ) {
        assert(Self::carried(cmd) =~= frames);
    }

    fn command(frames: &Vec<[u8; GAMEPAD_FRAME_BYTES]>, dedupe: bool, fixed: bool) -> (cmd:
        HidCommand) {
        if frames.len() == 1 {
            return HidCommand::GamepadPackedFrame(frames[0]);
        }
        if !fixed {
            return HidCommand::GamepadPackedFrameBatch(copied(frames));
        }
        let blank: [u8; GAMEPAD_FRAME_BYTES] = [0; GAMEPAD_FRAME_BYTES];
        assert(blank_packed(blank));
        let mut slots: [[u8; GAMEPAD_FRAME_BYTES]; GAMEPAD_BATCH_FRAMES] = [
            blank;
            GAMEPAD_BATCH_FRAMES
        ];
        let mut i: usize = 0;
        while i < frames.len()
            invariant
                i <= frames@.len() <= GAMEPAD_BATCH_FRAMES,
                blank_packed(blank),
                forall|j: int|
                    0 <= j < GAMEPAD_BATCH_FRAMES ==> #[trigger] slots@[j] == if j < i {
                        frames@[j]
                    } else {
                        blank
                    },
            decreases frames@.len() - i,
        {
            slots[i] = frames[i];
            i = i + 1;
        }
        HidCommand::GamepadPackedFrameBatchFixed { len: frames.len() as u8, frames: slots }
    }
}

/// The gamepad frames that the commands of a queue carry, in order.
pub open spec fn gamepad_frames<G: GamepadItem>(queue: Seq<HidCommand>) -> Seq<G>
    decreases queue.len(),
{
    if queue.len() == 0 {
        Seq::empty()
    } else {
        gamepad_frames::<G>(queue.drop_last()) + G::carried(queue.last())
    }
}

/// How a batcher cuts and labels its commands.
pub struct BatchRule {
    pub batch_size: nat,
    pub dedupe: bool,
}

impl BatchRule {
    /// Whether batches travel in fixed commands.
    pub open spec fn fixed(self) -> bool {
        self.batch_size <= GAMEPAD_BATCH_FRAMES
    }

    /// Where the `j`-th command starts in the pushed frames. Frames that an
    /// earlier refusal left above the batch size leave together.
    pub open spec fn cut(self, held: nat, j: int) -> int {
        if j <= 0 {
            0
        } else {
            (if held >= self.batch_size {
                held
            } else {
                self.batch_size
            }) + (j - 1) * self.batch_size
        }
    }
}

/// Whether the client went from `old` to `new` by queueing one command for
/// `frames`.
pub open spec fn sent_frames<G: GamepadItem>(
    rule: BatchRule,
    old: ClientView,
    new: ClientView,
    frames: Seq<G>,
) -> bool {
    &&& new.queue.len() == old.queue.len() + 1
    &&& new == old.queued(new.queue.last())
    &&& G::batch_of(new.queue.last(), frames, rule.dedupe, rule.fixed())
}

/// The buffer has been handed to the client.
pub open spec fn drained<G: GamepadItem>(
    rule: BatchRule,
    b0: Seq<G>,
    c0: ClientView,
    blocking: bool,
    b1: Seq<G>,
    c1: ClientView,
    r: Result<()>,
) -> bool {
    if b0.len() == 0 {
        r == Ok::<(), Error>(()) && b1 == b0 && c1 == c0
    } else {
        &&& r == c0.admission(blocking)
        &&& match r {
            Ok(_) => b1.len() == 0 && sent_frames(rule, c0, c1, b0),
            Err(_) => b1 == b0 && c1 == c0,
        }
    }
}

/// A buffer that has reached the batch size has been handed to the client.
pub open spec fn settled<G: GamepadItem>(
    rule: BatchRule,
    b0: Seq<G>,
    c0: ClientView,
    blocking: bool,
    b1: Seq<G>,
    c1: ClientView,
    r: Result<()>,
) -> bool {
    if b0.len() >= rule.batch_size {
        drained(rule, b0, c0, blocking, b1, c1, r)
    } else {
        r == Ok::<(), Error>(()) && b1 == b0 && c1 == c0
    }
}

/// One frame has been pushed. A fixed buffer that is still full makes room
/// first; an owned one grows.
pub open spec fn pushed_frame<G: GamepadItem>(
    rule: BatchRule,
    b0: Seq<G>,
    c0: ClientView,
    frame: G,
    blocking: bool,
    b1: Seq<G>,
    c1: ClientView,
    r: Result<()>,
) -> bool {
    if rule.fixed() && b0.len() >= rule.batch_size {
        if c0.admission(blocking) is Err {
            r == c0.admission(blocking) && b1 == b0 && c1 == c0
        } else {
            exists|mid: ClientView| #[trigger]
                sent_frames(rule, c0, mid, b0) && settled(
                    rule,
                    seq![frame],
                    mid,
                    blocking,
                    b1,
                    c1,
                    r,
                )
        }
    } else {
        settled(rule, b0.push(frame), c0, blocking, b1, c1, r)
    }
}

/// Whether the client went from `old` to `new` by queueing `done` commands, the
/// `j`-th for the `j`-th piece of `all`.
pub open spec fn sent_pieces<G: GamepadItem>(
    rule: BatchRule,
    held: nat,
    old: ClientView,
    new: ClientView,
    all: Seq<G>,
    done: nat,
) -> bool {
    &&& new == (ClientView { queue: new.queue, ..old })
    &&& new.queue.len() == old.queue.len() + done
    &&& new.queue.take(old.queue.len() as int) == old.queue
    &&& rule.cut(held, done as int) <= all.len()
    &&& forall|j: int|
        0 <= j < done ==> G::batch_of(
            #[trigger] new.queue[old.queue.len() + j],
            all.subrange(rule.cut(held, j), rule.cut(held, j + 1)),
            rule.dedupe,
            rule.fixed(),
        )
}

/// A slice of frames has been pushed.
pub open spec fn pushed_frames<G: GamepadItem>(
    rule: BatchRule,
    b0: Seq<G>,
    c0: ClientView,
    frames: Seq<G>,
    blocking: bool,
    b1: Seq<G>,
    c1: ClientView,
    r: Result<()>,
) -> bool {
    let all = b0 + frames;
    let done = (c1.queue.len() - c0.queue.len()) as nat;
    let from = rule.cut(b0.len(), done as int);
    let to = rule.cut(b0.len(), done as int + 1);
    &&& sent_pieces(rule, b0.len(), c0, c1, all, done)
    &&& c1.admitted(done, blocking)
    &&& match r {
        Ok(_) => {
            &&& b1 == all.skip(from)
            &&& frames.len() > 0 ==> b1.len() < rule.batch_size
            &&& frames.len() == 0 ==> done == 0
        },
        Err(e) => {
            &&& frames.len() > 0
            &&& to <= all.len()
            &&& b1 == all.subrange(from, to)
            &&& c1.admission(blocking) == Err::<(), Error>(e)
        },
    }
}

/// Frames have been pushed one by one, up to the first that the client refuses.
pub open spec fn pushed_in_turn<G: GamepadItem>(
    rule: BatchRule,
    b0: Seq<G>,
    c0: ClientView,
    frames: Seq<G>,
    blocking: bool,
    b1: Seq<G>,
    c1: ClientView,
    r: Result<()>,
) -> bool
    decreases frames.len(),
{
    if frames.len() == 0 {
        r == Ok::<(), Error>(()) && b1 == b0 && c1 == c0
    } else {
        ||| r is Err && pushed_in_turn(rule, b0, c0, frames.drop_last(), blocking, b1, c1, r)
        ||| exists|b: Seq<G>, c: ClientView|
            pushed_in_turn(rule, b0, c0, frames.drop_last(), blocking, b, c, Ok(()))
                && #[trigger] pushed_frame(rule, b, c, frames.last(), blocking, b1, c1, r)
    }
}

proof fn lemma_refusal_ends_turns<G: GamepadItem>(
    rule: BatchRule,
    b0: Seq<G>,
    c0: ClientView,
    frames: Seq<G>,
    n: int,
    blocking: bool,
    b1: Seq<G>,
    c1: ClientView,
    r: Result<()>,
)
    requires
        0 <= n <= frames.len(),
        r is Err,
        pushed_in_turn(rule, b0, c0, frames.take(n), blocking, b1, c1, r),
    ensures
        pushed_in_turn(rule, b0, c0, frames, blocking, b1, c1, r),
    decreases frames.len() - n,
{
    if n < frames.len() {
        let next = frames.take(n + 1);
        assert(next.drop_last() =~= frames.take(n));
        assert(pushed_in_turn(rule, b0, c0, next, blocking, b1, c1, r));
        lemma_refusal_ends_turns(rule, b0, c0, frames, n + 1, blocking, b1, c1, r);
    } else {
        assert(frames.take(n) =~= frames);
    }
}

proof fn lemma_cut_step(rule: BatchRule, held: nat, j: int)
    requires
        rule.batch_size > 0,
        j >= 0,
    ensures
        rule.cut(held, 0) == 0,
        0 <= rule.cut(held, j) < rule.cut(held, j + 1),
        j > 0 ==> rule.cut(held, j + 1) == rule.cut(held, j) + rule.batch_size,
        rule.cut(held, 1) == if held >= rule.batch_size { held } else { rule.batch_size },
{
    let n = rule.batch_size as int;
    assert((j + 1 - 1) * n == (j - 1) * n + n) by (nonlinear_arith);
    assert(0 * n == 0) by (nonlinear_arith);
    if j >= 1 {
        assert((j - 1) * n >= 0) by (nonlinear_arith)
            requires
                j >= 1,
                n > 0,
        ;
    }
}

proof fn lemma_sent_next<G: GamepadItem>(
    rule: BatchRule,
    held: nat,
    c0: ClientView,
    before: ClientView,
    after: ClientView,
    all: Seq<G>,
    done: nat,
)
    requires
        sent_pieces(rule, held, c0, before, all, done),
        0 <= rule.cut(held, done as int) <= rule.cut(held, done as int + 1) <= all.len(),
        sent_frames(
            rule,
            before,
            after,
            all.subrange(rule.cut(held, done as int), rule.cut(held, done as int + 1)),
        ),
    ensures
        sent_pieces(rule, held, c0, after, all, (done + 1) as nat),
{
    let n = c0.queue.len();
    assert(after.queue.take(n as int) =~= before.queue.take(n as int));
    assert forall|j: int| 0 <= j < done + 1 implies G::batch_of(
        #[trigger] after.queue[n + j],
        all.subrange(rule.cut(held, j), rule.cut(held, j + 1)),
        rule.dedupe,
        rule.fixed(),
    ) by {
        if j < done {
            assert(after.queue[n + j] == before.queue[n + j]);
        } else {
            assert(after.queue[n + j] == after.queue.last());
        }
    }
}

/// A batcher of gamepad frames.
pub struct GamepadBatcher<G: GamepadItem> {
    frames: Vec<G>,
    dedupe: bool,
    batch_size: usize,
}

pub type GamepadFrameBatcher = GamepadBatcher<GamepadFrameRaw>;

pub type PackedGamepadFrameBatcher = GamepadBatcher<[u8; GAMEPAD_FRAME_BYTES]>;

impl<G: GamepadItem> View for GamepadBatcher<G> {
    type V = Seq<G>;

    closed spec fn view(&self) -> Seq<G> {
        self.frames@
    }
}

impl<G: GamepadItem> GamepadBatcher<G> {
    /// How the batcher cuts and labels its commands.
    pub closed spec fn rule(&self) -> BatchRule {
        BatchRule { batch_size: self.batch_size as nat, dedupe: self.dedupe }
    }

    /// Batches are never empty, and a fixed buffer never overflows.
    pub open spec fn valid(&self) -> bool {
        &&& self.rule().batch_size >= 1
        &&& self.rule().fixed() ==> self@.len() <= self.rule().batch_size
    }

    fn with_rule(batch_size: usize, dedupe: bool) -> (b: GamepadBatcher<G>)
        ensures
            b.valid(),
            b@ == Seq::<G>::empty(),
            b.rule() == (BatchRule {
                batch_size: if batch_size == 0 {
                    1
                } else {
                    batch_size as nat
                },
                dedupe,
            }),
    {
        let batch_size: usize = if batch_size == 0 { 1 } else { batch_size };
        GamepadBatcher { frames: Vec::new(), dedupe, batch_size }
    }

    fn is_fixed(&self) -> (r: bool)
        ensures
            r == self.rule().fixed(),
    {
        self.batch_size <= GAMEPAD_BATCH_FRAMES
    }

    fn flush_with(&mut self, client: &mut HidClient, blocking: bool) -> (r: Result<()>)
        requires
            old(self).valid(),
        ensures
            final(self).valid(),
            final(self).rule() == old(self).rule(),
            drained(
                old(self).rule(),
                old(self)@,
                old(client)@,
                blocking,
                final(self)@,
                final(client)@,
                r,
            ),
    {
        if self.frames.len() == 0 {
            return Ok(());
        }
        match client.admission(blocking) {
            Ok(_) => {},
            Err(e) => {
                return Err(e);
            },
        }
        let cmd = G::command(&self.frames, self.dedupe, self.is_fixed());
        match client.send_with(cmd, blocking) {
            Ok(_) => {},
            Err(e) => {
                return Err(e);
            },
        }
        self.frames = Vec::new();
        Ok(())
    }

    fn push_with(&mut self, client: &mut HidClient, frame: G, blocking: bool) -> (r: Result<()>)
        requires
            old(self).valid(),
        ensures
            final(self).valid(),
            final(self).rule() == old(self).rule(),
            pushed_frame(
                old(self).rule(),
                old(self)@,
                old(client)@,
                frame,
                blocking,
                final(self)@,
                final(client)@,
                r,
            ),
    {
        let room = !(self.is_fixed() && self.frames.len() >= self.batch_size);
        if !room {
            match self.flush_with(client, blocking) {
                Ok(_) => {},
                Err(e) => {
                    return Err(e);
                },
            }
            assert(sent_frames(self.rule(), old(client)@, client@, old(self)@));
        }
        let ghost mid = client@;
        let ghost was = self@;
        self.frames.push(frame);
        assert(!room ==> self@ =~= seq![frame]);
        assert(room ==> self@ =~= old(self)@.push(frame));
        let ghost full = self@;
        let r = if self.frames.len() >= self.batch_size {
            self.flush_with(client, blocking)
        } else {
            Ok(())
        };
        assert(settled(self.rule(), full, mid, blocking, self@, client@, r));
        r
    }

    fn push_many_with(&mut self, client: &mut HidClient, frames: &Vec<G>, blocking: bool) -> (r:
        Result<()>)
        requires
            old(self).valid(),
        ensures
            final(self).valid(),
            final(self).rule() == old(self).rule(),
            pushed_in_turn(
                old(self).rule(),
                old(self)@,
                old(client)@,
                frames@,
                blocking,
                final(self)@,
                final(client)@,
                r,
            ),
    {
        let ghost rule = self.rule();
        let ghost b0 = self@;
        let ghost c0 = client@;
        let mut idx: usize = 0;
        while idx < frames.len()
            invariant
                idx <= frames@.len(),
                self.valid(),
                self.rule() == rule,
                rule == old(self).rule(),
                b0 == old(self)@,
                c0 == old(client)@,
                pushed_in_turn(
                    rule,
                    b0,
                    c0,
                    frames@.take(idx as int),
                    blocking,
                    self@,
                    client@,
                    Ok(()),
                ),
            decreases frames@.len() - idx,
        {
            let ghost b = self@;
            let ghost c = client@;
            let r = self.push_with(client, frames[idx], blocking);
            idx = idx + 1;
            proof {
                let some = frames@.take(idx as int);
                assert(some.drop_last() =~= frames@.take(idx - 1));
                assert(some.last() == frames@[idx - 1]);
                assert(pushed_frame(rule, b, c, some.last(), blocking, self@, client@, r));
                assert(pushed_in_turn(rule, b0, c0, some, blocking, self@, client@, r));
                if r is Err {
                    lemma_refusal_ends_turns(
                        rule,
                        b0,
                        c0,
                        frames@,
                        idx as int,
                        blocking,
                        self@,
                        client@,
                        r,
                    );
                }
            }
            if r.is_err() {
                return r;
            }
        }
        assert(frames@.take(idx as int) =~= frames@);
        Ok(())
    }

    /// Pushes frames one by one.
    pub fn push_many(&mut self, client: &mut HidClient, frames: &Vec<G>) -> (r: Result<()>)
        requires
            old(self).valid(),
        ensures
            final(self).valid(),
            final(self).rule() == old(self).rule(),
            pushed_in_turn(
                old(self).rule(),
                old(self)@,
                old(client)@,
                frames@,
                true,
                final(self)@,
                final(client)@,
                r,
            ),
    {
        self.push_many_with(client, frames, true)
    }

    /// Pushes frames one by one, by bounded sends.
    pub fn try_push_many(&mut self, client: &mut HidClient, frames: &Vec<G>) -> (r: Result<()>)
        requires
            old(self).valid(),
        ensures
            final(self).valid(),
            final(self).rule() == old(self).rule(),
            pushed_in_turn(
                old(self).rule(),
                old(self)@,
                old(client)@,
                frames@,
                false,
                final(self)@,
                final(client)@,
                r,
            ),
    {
        self.push_many_with(client, frames, false)
    }

    fn push_slice_with(&mut self, client: &mut HidClient, frames: &[G], blocking: bool) -> (r:
        Result<()>)
        requires
            old(self).valid(),
        ensures
            final(self).valid(),
            final(self).rule() == old(self).rule(),
            pushed_frames(
                old(self).rule(),
                old(self)@,
                old(client)@,
                frames@,
                blocking,
                final(self)@,
                final(client)@,
                r,
            ),
    {
        let ghost rule = self.rule();
        let ghost b0 = self@;
        let ghost c0 = client@;
        let ghost held = b0.len();
        let ghost all = b0 + frames@;
        let ghost mut done: nat = 0;
        let mut idx: usize = 0;
        proof {
            lemma_cut_step(rule, held, 0);
            assert(c0.queue.take(c0.queue.len() as int) =~= c0.queue);
            assert(all.subrange(0, b0.len() as int) =~= b0);
        }
        while idx < frames.len()
            invariant
                b0 == old(self)@,
                c0 == old(client)@,
                rule == old(self).rule(),
                rule == self.rule(),
                held == b0.len(),
                idx <= frames@.len(),
                all == b0 + frames@,
                self.valid(),
                sent_pieces(rule, held, c0, client@, all, done),
                client@.admitted(done, blocking),
                0 <= rule.cut(held, done as int) <= held + idx,
                self@ == all.subrange(rule.cut(held, done as int), held + idx),
                idx > 0 ==> self@.len() < rule.batch_size,
                idx == 0 ==> done == 0,
                held >= rule.batch_size && idx > 0 ==> done > 0,
            decreases frames@.len() - idx,
        {
            if self.frames.len() >= self.batch_size {
                proof {
                    lemma_cut_step(rule, held, done as int);
                }
                let ghost before = client@;
                match self.flush_with(client, blocking) {
                    Ok(_) => {},
                    Err(e) => {
                        return Err(e);
                    },
                }
                proof {
                    lemma_sent_next(rule, held, c0, before, client@, all, done);
                    done = done + 1;
                    assert(self@ =~= all.subrange(rule.cut(held, done as int), held + idx));
                }
            }
            self.frames.push(frames[idx]);
            idx = idx + 1;
            assert(self@ =~= all.subrange(rule.cut(held, done as int), held + idx));
            if self.frames.len() >= self.batch_size {
                proof {
                    lemma_cut_step(rule, held, done as int);
                }
                let ghost before = client@;
                match self.flush_with(client, blocking) {
                    Ok(_) => {},
                    Err(e) => {
                        return Err(e);
                    },
                }
                proof {
                    lemma_sent_next(rule, held, c0, before, client@, all, done);
                    done = done + 1;
                    assert(self@ =~= all.subrange(rule.cut(held, done as int), held + idx));
                }
            }
        }
        assert(self@ =~= all.skip(rule.cut(held, done as int)));
        Ok(())
    }

    /// Frames held.
    pub fn len(&self) -> (n: usize)
        ensures
            n == self@.len(),
    {
        self.frames.len()
    }

    pub fn is_empty(&self) -> (r: bool)
        ensures
            r == (self@.len() == 0),
    {
        self.frames.len() == 0
    }

    /// Pushes a frame and hands a full batch on.
    pub fn push(&mut self, client: &mut HidClient, frame: G) -> (r: Result<()>)
        requires
            old(self).valid(),
        ensures
            final(self).valid(),
            final(self).rule() == old(self).rule(),
            pushed_frame(
                old(self).rule(),
                old(self)@,
                old(client)@,
                frame,
                true,
                final(self)@,
                final(client)@,
                r,
            ),
    {
        self.push_with(client, frame, true)
    }

    /// Pushes a frame and hands a full batch on by a bounded send.
    pub fn try_push(&mut self, client: &mut HidClient, frame: G) -> (r: Result<()>)
        requires
            old(self).valid(),
        ensures
            final(self).valid(),
            final(self).rule() == old(self).rule(),
            pushed_frame(
                old(self).rule(),
                old(self)@,
                old(client)@,
                frame,
                false,
                final(self)@,
                final(client)@,
                r,
            ),
    {
        self.push_with(client, frame, false)
    }

    /// Pushes frames, handing on each full batch.
    pub fn push_many_slice(&mut self, client: &mut HidClient, frames: &[G]) -> (r: Result<()>)
        requires
            old(self).valid(),
        ensures
            final(self).valid(),
            final(self).rule() == old(self).rule(),
            pushed_frames(
                old(self).rule(),
                old(self)@,
                old(client)@,
                frames@,
                true,
                final(self)@,
                final(client)@,
                r,
            ),
    {
        self.push_slice_with(client, frames, true)
    }

    /// Pushes frames, handing on each full batch by a bounded send.
    pub fn try_push_many_slice(&mut self, client: &mut HidClient, frames: &[G]) -> (r: Result<()>)
        requires
            old(self).valid(),
        ensures
            final(self).valid(),
            final(self).rule() == old(self).rule(),
            pushed_frames(
                old(self).rule(),
                old(self)@,
                old(client)@,
                frames@,
                false,
                final(self)@,
                final(client)@,
                r,
            ),
    {
        self.push_slice_with(client, frames, false)
    }

    /// Hands the held frames to the client.
    pub fn flush(&mut self, client: &mut HidClient) -> (r: Result<()>)
        requires
            old(self).valid(),
        ensures
            final(self).valid(),
            final(self).rule() == old(self).rule(),
            drained(
                old(self).rule(),
                old(self)@,
                old(client)@,
                true,
                final(self)@,
                final(client)@,
                r,
            ),
    {
        self.flush_with(client, true)
    }

    /// Hands the held frames to the client by a bounded send.
    pub fn try_flush(&mut self, client: &mut HidClient) -> (r: Result<()>)
        requires
            old(self).valid(),
        ensures
            final(self).valid(),
            final(self).rule() == old(self).rule(),
            drained(
                old(self).rule(),
                old(self)@,
                old(client)@,
                false,
                final(self)@,
                final(client)@,
                r,
            ),
    {
        self.flush_with(client, false)
    }
}

impl GamepadBatcher<GamepadFrameRaw> {
    /// A batcher whose repeated frames the dispatcher drops. A batch size of
    /// zero counts as one.
    pub fn dedupe(batch_size: usize) -> (b: GamepadFrameBatcher)
        ensures
            b.valid(),
            b@ == Seq::<GamepadFrameRaw>::empty(),
            b.rule() == (BatchRule {
                batch_size: if batch_size == 0 {
                    1
                } else {
                    batch_size as nat
                },
                dedupe: true,
            }),
    {
        GamepadBatcher::with_rule(batch_size, true)
    }

    /// A batcher whose frames are all sent. A batch size of zero counts as one.
    pub fn unchecked(batch_size: usize) -> (b: GamepadFrameBatcher)
        ensures
            b.valid(),
            b@ == Seq::<GamepadFrameRaw>::empty(),
            b.rule() == (BatchRule {
                batch_size: if batch_size == 0 {
                    1
                } else {
                    batch_size as nat
                },
                dedupe: false,
            }),
    {
        GamepadBatcher::with_rule(batch_size, false)
    }
}

impl GamepadBatcher<[u8; GAMEPAD_FRAME_BYTES]> {
    /// A batcher of packed frames. A batch size of zero counts as one.
    pub fn new(batch_size: usize) -> (b: PackedGamepadFrameBatcher)
        ensures
            b.valid(),
            b@ == Seq::<[u8; GAMEPAD_FRAME_BYTES]>::empty(),
            b.rule() == (BatchRule {
                batch_size: if batch_size == 0 {
                    1
                } else {
                    batch_size as nat
                },
                dedupe: false,
            }),
    {
        GamepadBatcher::with_rule(batch_size, false)
    }
}

proof fn lemma_frames_push<G: GamepadItem>(queue: Seq<HidCommand>, cmd: HidCommand)
    ensures
        gamepad_frames::<G>(queue.push(cmd)) == gamepad_frames::<G>(queue) + G::carried(cmd),
{
    assert(queue.push(cmd).drop_last() =~= queue);
}

proof fn lemma_pieces_keep_frames<G: GamepadItem>(
    rule: BatchRule,
    held: nat,
    old: ClientView,
    new: ClientView,
    all: Seq<G>,
    done: nat,
)
    requires
        rule.batch_size > 0,
        rule.fixed() ==> held <= rule.batch_size,
        sent_pieces(rule, held, old, new, all, done),
    ensures
        gamepad_frames::<G>(new.queue) == gamepad_frames::<G>(old.queue) + all.take(
            rule.cut(held, done as int),
        ),
    decreases done,
{
    if done == 0 {
        assert(new.queue =~= old.queue);
        assert(all.take(0) =~= Seq::<G>::empty());
        assert(gamepad_frames::<G>(old.queue) + Seq::<G>::empty() =~= gamepad_frames::<G>(
            old.queue,
        ));
    } else {
        let prev = (done - 1) as nat;
        lemma_cut_step(rule, held, prev as int);
        let mid = ClientView { queue: new.queue.drop_last(), ..new };
        assert(mid.queue.take(old.queue.len() as int) =~= new.queue.take(old.queue.len() as int));
        assert forall|j: int| 0 <= j < prev implies G::batch_of(
            #[trigger] mid.queue[old.queue.len() + j],
            all.subrange(rule.cut(held, j), rule.cut(held, j + 1)),
            rule.dedupe,
            rule.fixed(),
        ) by {
            assert(mid.queue[old.queue.len() + j] == new.queue[old.queue.len() + j]);
        }
        lemma_pieces_keep_frames(rule, held, old, mid, all, prev);
        let last = new.queue.last();
        let from = rule.cut(held, prev as int);
        let to = rule.cut(held, done as int);
        let piece = all.subrange(from, to);
        assert(last == new.queue[(old.queue.len() + prev) as int]);
        assert(G::batch_of(last, piece, rule.dedupe, rule.fixed()));
        G::lemma_batch_carries(last, piece, rule.dedupe, rule.fixed());
        assert(new.queue =~= mid.queue.push(last));
        lemma_frames_push::<G>(mid.queue, last);
        assert(all.take(to) =~= all.take(from) + piece);
        assert(gamepad_frames::<G>(new.queue) =~= gamepad_frames::<G>(old.queue) + all.take(to));
    }
}

/// Pushing a slice loses, repeats and reorders no gamepad frame: what the queue
/// carries followed by what the batcher holds grows by the frames, all of them
/// on success and a leading part of them otherwise.
pub proof fn lemma_gamepad_slice_keeps_frames<G: GamepadItem>(
    rule: BatchRule,
    b0: Seq<G>,
    c0: ClientView,
    frames: Seq<G>,
    blocking: bool,
    b1: Seq<G>,
    c1: ClientView,
    r: Result<()>,
)
    requires
        rule.batch_size > 0,
        rule.fixed() ==> b0.len() <= rule.batch_size,
        pushed_frames(rule, b0, c0, frames, blocking, b1, c1, r),
    ensures
        r is Ok ==> gamepad_frames::<G>(c1.queue) + b1 == gamepad_frames::<G>(c0.queue) + b0
            + frames,
        r is Err ==> exists|k: int|
            0 <= k <= (b0 + frames).len() && gamepad_frames::<G>(c1.queue) + b1
                == gamepad_frames::<G>(c0.queue) + #[trigger] (b0 + frames).take(k),
{
    let all = b0 + frames;
    let done = (c1.queue.len() - c0.queue.len()) as nat;
    lemma_pieces_keep_frames(rule, b0.len(), c0, c1, all, done);
    lemma_cut_step(rule, b0.len(), done as int);
    let from = rule.cut(b0.len(), done as int);
    let before = gamepad_frames::<G>(c0.queue);
    if r is Ok {
        assert(all.take(from) + all.skip(from) =~= all);
        assert(gamepad_frames::<G>(c1.queue) + b1 =~= before + (all.take(from) + all.skip(from)));
        assert(before + all =~= before + b0 + frames);
    } else {
        let to = rule.cut(b0.len(), done as int + 1);
        assert(all.take(to) =~= all.take(from) + all.subrange(from, to));
        assert(gamepad_frames::<G>(c1.queue) + b1 =~= before + all.take(to));
    }
}

/// Flushing delivers every held gamepad frame, or, where the client refuses,
/// changes nothing.
pub proof fn lemma_gamepad_flush_keeps_frames<G: GamepadItem>(
    rule: BatchRule,
    b0: Seq<G>,
    c0: ClientView,
    blocking: bool,
    b1: Seq<G>,
    c1: ClientView,
    r: Result<()>,
)
    requires
        rule.fixed() ==> b0.len() <= rule.batch_size,
        drained(rule, b0, c0, blocking, b1, c1, r),
    ensures
        r is Ok ==> b1.len() == 0 && gamepad_frames::<G>(c1.queue) == gamepad_frames::<G>(
            c0.queue,
        ) + b0,
        r is Err ==> b1 == b0 && c1 == c0,
{
    if r is Ok {
        if b0.len() > 0 {
            G::lemma_batch_carries(c1.queue.last(), b0, rule.dedupe, rule.fixed());
            lemma_frames_push::<G>(c0.queue, c1.queue.last());
        } else {
            assert(gamepad_frames::<G>(c0.queue) + b0 =~= gamepad_frames::<G>(c0.queue));
        }
    }
}

/// Pushing a gamepad frame adds it behind all earlier ones. Where the client
/// refuses, either nothing has changed or the frame is held all the same.
pub proof fn lemma_gamepad_push_keeps_frames<G: GamepadItem>(
    rule: BatchRule,
    b0: Seq<G>,
    c0: ClientView,
    frame: G,
    blocking: bool,
    b1: Seq<G>,
    c1: ClientView,
    r: Result<()>,
)
    requires
        rule.batch_size > 0,
        rule.fixed() ==> b0.len() <= rule.batch_size,
        pushed_frame(rule, b0, c0, frame, blocking, b1, c1, r),
    ensures
        ({
            let grown = gamepad_frames::<G>(c1.queue) + b1 == gamepad_frames::<G>(c0.queue)
                + b0.push(frame);
            &&& r is Ok ==> grown
            &&& r is Err ==> grown || (b1 == b0 && c1 == c0)
        }),
{
    let sent0 = gamepad_frames::<G>(c0.queue);
    if rule.fixed() && b0.len() >= rule.batch_size {
        if c0.admission(blocking) is Ok {
            let mid = choose|mid: ClientView| #[trigger]
                sent_frames(rule, c0, mid, b0) && settled(
                    rule,
                    seq![frame],
                    mid,
                    blocking,
                    b1,
                    c1,
                    r,
                );
            G::lemma_batch_carries(mid.queue.last(), b0, rule.dedupe, rule.fixed());
            lemma_frames_push::<G>(c0.queue, mid.queue.last());
            lemma_settled_keeps_frames(rule, seq![frame], mid, blocking, b1, c1, r);
            assert(sent0 + b0 + seq![frame] =~= sent0 + b0.push(frame));
        }
    } else {
        lemma_settled_keeps_frames(rule, b0.push(frame), c0, blocking, b1, c1, r);
    }
}

proof fn lemma_settled_keeps_frames<G: GamepadItem>(
    rule: BatchRule,
    b0: Seq<G>,
    c0: ClientView,
    blocking: bool,
    b1: Seq<G>,
    c1: ClientView,
    r: Result<()>,
)
    requires
        rule.fixed() ==> b0.len() <= rule.batch_size,
        settled(rule, b0, c0, blocking, b1, c1, r),
    ensures
        gamepad_frames::<G>(c1.queue) + b1 == gamepad_frames::<G>(c0.queue) + b0,
{
    if b0.len() >= rule.batch_size {
        lemma_gamepad_flush_keeps_frames(rule, b0, c0, blocking, b1, c1, r);
        if r is Ok {
            assert(gamepad_frames::<G>(c1.queue) + b1 =~= gamepad_frames::<G>(c1.queue));
        }
    }
}

/// Pushing gamepad frames one by one loses, repeats and reorders nothing: on
/// success all of them stand behind the earlier ones.
pub proof fn lemma_gamepad_turns_keep_frames<G: GamepadItem>(
    rule: BatchRule,
    b0: Seq<G>,
    c0: ClientView,
    frames: Seq<G>,
    blocking: bool,
    b1: Seq<G>,
    c1: ClientView,
    r: Result<()>,
)
    requires
        rule.batch_size > 0,
        rule.fixed() ==> b0.len() <= rule.batch_size,
        r is Ok,
        pushed_in_turn(rule, b0, c0, frames, blocking, b1, c1, r),
    ensures
        gamepad_frames::<G>(c1.queue) + b1 == gamepad_frames::<G>(c0.queue) + b0 + frames,
        rule.fixed() ==> b1.len() <= rule.batch_size,
    decreases frames.len(),
{
    let sent0 = gamepad_frames::<G>(c0.queue);
    if frames.len() == 0 {
        assert(sent0 + b0 + frames =~= sent0 + b0);
    } else {
        let before = frames.drop_last();
        let (b, c) = choose|b: Seq<G>, c: ClientView|
            pushed_in_turn(rule, b0, c0, before, blocking, b, c, Ok(())) && #[trigger] pushed_frame(
                rule,
                b,
                c,
                frames.last(),
                blocking,
                b1,
                c1,
                r,
            );
        lemma_gamepad_turns_keep_frames(rule, b0, c0, before, blocking, b, c, Ok(()));
        lemma_gamepad_push_keeps_frames(rule, b, c, frames.last(), blocking, b1, c1, r);
        assert(gamepad_frames::<G>(c.queue) + b.push(frames.last()) =~= (gamepad_frames::<G>(
            c.queue,
        ) + b).push(frames.last()));
        assert((sent0 + b0 + before).push(frames.last()) =~= sent0 + b0 + frames);
    }
}

/// Batches of up to 32 frames travel in fixed commands, larger ones in owned ones.
pub proof fn lemma_fixed_batches_fit(rule: BatchRule)
    ensures
        rule.fixed() <==> rule.batch_size <= 32,
{
}

/// A batcher that has room takes a frame and sends nothing until its batch is full.
/// The frame that fills the batch goes out with it at once.
pub proof fn lemma_gamepad_push_sends_full_batch<G: GamepadItem>(
    rule: BatchRule,
    b0: Seq<G>,
    c0: ClientView,
    frame: G,
    blocking: bool,
    b1: Seq<G>,
    c1: ClientView,
    r: Result<()>,
)
    requires
        rule.batch_size > 0,
        b0.len() < rule.batch_size,
        pushed_frame(rule, b0, c0, frame, blocking, b1, c1, r),
    ensures
        b0.len() + 1 < rule.batch_size ==> r is Ok && c1 == c0 && b1 == b0.push(frame),
        b0.len() + 1 == rule.batch_size ==> (r is Ok <==> c0.admission(blocking) is Ok),
        b0.len() + 1 == rule.batch_size && r is Ok ==> b1.len() == 0 && c1.queue.len()
            == c0.queue.len() + 1 && c1.queue.drop_last() == c0.queue && G::carried(c1.queue.last())
            == b0.push(frame),
        b0.len() + 1 == rule.batch_size && r is Err ==> b1 == b0.push(frame) && c1 == c0 && r
            == c0.admission(blocking),
{
    if b0.len() + 1 == rule.batch_size && r is Ok {
        G::lemma_batch_carries(c1.queue.last(), b0.push(frame), rule.dedupe, rule.fixed());
        assert(c1.queue.drop_last() =~= c0.queue);
    }
}

/// A fixed buffer that a refusal left full is sent before the next frame is taken, or
/// the frame is refused and nothing changes. An owned buffer takes the frame all the
/// same.
pub proof fn lemma_full_gamepad_buffer_makes_room<G: GamepadItem>(
    rule: BatchRule,
    b0: Seq<G>,
    c0: ClientView,
    frame: G,
    blocking: bool,
    b1: Seq<G>,
    c1: ClientView,
    r: Result<()>,
)
    requires
        rule.batch_size > 0,
        b0.len() >= rule.batch_size,
        pushed_frame(rule, b0, c0, frame, blocking, b1, c1, r),
        c0.admission(blocking) is Err,
    ensures
        r == c0.admission(blocking),
        c1 == c0,
        rule.fixed() ==> b1 == b0,
        !rule.fixed() ==> b1 == b0.push(frame),
{
}

/// A slice that goes into a batcher with room sends every batch that it fills, and
/// keeps less than a batch.
pub proof fn lemma_gamepad_slice_sends_filled_batches<G: GamepadItem>(
    rule: BatchRule,
    b0: Seq<G>,
    c0: ClientView,
    frames: Seq<G>,
    blocking: bool,
    b1: Seq<G>,
    c1: ClientView,
    r: Result<()>,
)
    requires
        rule.batch_size > 0,
        b0.len() < rule.batch_size,
        frames.len() > 0,
        r is Ok,
        pushed_frames(rule, b0, c0, frames, blocking, b1, c1, r),
    ensures
        (c1.queue.len() - c0.queue.len()) * rule.batch_size + b1.len() == b0.len() + frames.len(),
        b1.len() < rule.batch_size,
        c1.queue.take(c0.queue.len() as int) == c0.queue,
{
    let done = c1.queue.len() - c0.queue.len();
    let size = rule.batch_size as int;
    assert(done * size == (done - 1) * size + size) by (nonlinear_arith);
    assert(0 * size == 0) by (nonlinear_arith);
}

/// A flush sends all that is held in one command, and nothing where nothing is held.
pub proof fn lemma_gamepad_flush_sends_once<G: GamepadItem>(
    rule: BatchRule,
    b0: Seq<G>,
    c0: ClientView,
    blocking: bool,
    b1: Seq<G>,
    c1: ClientView,
    r: Result<()>,
)
    requires
        rule.fixed() ==> b0.len() <= rule.batch_size,
        drained(rule, b0, c0, blocking, b1, c1, r),
    ensures
        b0.len() == 0 ==> r is Ok && c1 == c0,
        b0.len() > 0 ==> r == c0.admission(blocking),
        b0.len() > 0 && r is Ok ==> b1.len() == 0 && c1.queue.len() == c0.queue.len() + 1
            && G::carried(c1.queue.last()) == b0,
{
    if b0.len() > 0 && r is Ok {
        G::lemma_batch_carries(c1.queue.last(), b0, rule.dedupe, rule.fixed());
    }
}

/// The slots behind the frames of a batch are at rest, or blank where frames are
/// packed, and the frames stand in the slots in front of them.
pub proof fn lemma_unused_gamepad_slots(
    frames: Seq<GamepadFrameRaw>,
    slots: Seq<[u8; GAMEPAD_FRAME_BYTES]>,
    packed: Seq<[u8; GAMEPAD_FRAME_BYTES]>,
    i: int,
    b: int,
)
    requires
        0 <= i < 32,
        0 <= b < 15,
        padded_packed(slots, packed),
    ensures
        padded_frames(frames).len() == 32,
        i < frames.len() ==> padded_frames(frames)[i] == frames[i],
        i >= frames.len() ==> padded_frames(frames)[i] == (GamepadFrameRaw {
            buttons: 0,
            left_x: 0,
            left_y: 0,
            right_x: 0,
            right_y: 0,
            left_trigger: 0,
            right_trigger: 0,
        }),
        slots.len() == 32,
        i < packed.len() ==> slots[i] == packed[i],
        i >= packed.len() ==> slots[i]@[b] == 0,
{
    if i >= packed.len() {
        assert(blank_packed(slots[i]));
    }
}

/// Whether a client takes a command now: a plain send as long as the dispatcher is
/// there, a bounded one only while the queue has a place as well.
pub open spec fn has_place(plain: bool, c: ClientView) -> bool {
    c.connected && (plain || c.queue.len() < c.bound || (c.bound == 0 && c.waiting && c.queue.len()
        == 0))
}

/// New gamepad batchers hold nothing and send batches of the size asked for, or of one
/// where that is zero. Only the first kind has repeats skipped.
pub proof fn lemma_new_gamepad_batchers(
    batch_size: usize,
    d: GamepadFrameBatcher,
    u: GamepadFrameBatcher,
    p: PackedGamepadFrameBatcher,
)
    requires
        call_ensures(GamepadBatcher::<GamepadFrameRaw>::dedupe, (batch_size,), d),
        call_ensures(GamepadBatcher::<GamepadFrameRaw>::unchecked, (batch_size,), u),
        call_ensures(GamepadBatcher::<[u8; GAMEPAD_FRAME_BYTES]>::new, (batch_size,), p),
    ensures
        d@.len() == 0 && u@.len() == 0 && p@.len() == 0,
        d.rule().dedupe && !u.rule().dedupe && !p.rule().dedupe,
        batch_size > 0 ==> d.rule().batch_size == batch_size && u.rule().batch_size == batch_size
            && p.rule().batch_size == batch_size,
        batch_size == 0 ==> d.rule().batch_size == 1 && u.rule().batch_size == 1
            && p.rule().batch_size == 1,
{
}

/// A pushed gamepad frame stands behind all earlier ones. The frame that fills the batch
/// goes out with it, in one command; before it nothing is sent.
pub proof fn lemma_gamepad_pushes<G: GamepadItem>(
    b: &mut GamepadBatcher<G>,
    c: &mut HidClient,
    frame: G,
    plain: bool,
    r: Result<()>,
)
    requires
        old(b).valid(),
        if plain {
            call_ensures(GamepadBatcher::<G>::push, (b, c, frame), r)
        } else {
            call_ensures(GamepadBatcher::<G>::try_push, (b, c, frame), r)
        },
    ensures
        final(b).rule() == old(b).rule(),
        r is Ok ==> gamepad_frames::<G>(final(c)@.queue) + final(b)@ == gamepad_frames::<G>(
            old(c)@.queue,
        ) + old(b)@.push(frame),
        old(b)@.len() + 1 < old(b).rule().batch_size ==> r is Ok && final(c)@ == old(c)@,
        old(b)@.len() + 1 == old(b).rule().batch_size ==> (r is Ok <==> has_place(plain, old(c)@)),
        old(b)@.len() + 1 == old(b).rule().batch_size && r is Ok ==> final(b)@.len() == 0 && final(c)@.queue.len() == old(c)@.queue.len() + 1,
        old(b)@.len() + 1 == old(b).rule().batch_size && r is Err ==> final(b)@ == old(b)@.push(
            frame,
        ) && final(c)@ == old(c)@,
{
    let rule = old(b).rule();
    lemma_gamepad_push_keeps_frames(rule, old(b)@, old(c)@, frame, plain, final(b)@, final(c)@, r);
    if old(b)@.len() < rule.batch_size {
        lemma_gamepad_push_sends_full_batch(
            rule,
            old(b)@,
            old(c)@,
            frame,
            plain,
            final(b)@,
            final(c)@,
            r,
        );
    }
}

/// Pushed gamepad frames stand behind all earlier ones, in their order; a slice leaves
/// less than a batch behind.
pub proof fn lemma_many_gamepad_pushes<G: GamepadItem>(
    b: &mut GamepadBatcher<G>,
    c: &mut HidClient,
    frames: &Vec<G>,
    slice: &[G],
    r: Result<()>,
)
    requires
        old(b).valid(),
        r is Ok,
    ensures
        call_ensures(GamepadBatcher::<G>::push_many, (b, c, frames), r) || call_ensures(
            GamepadBatcher::<G>::try_push_many,
            (b, c, frames),
            r,
        ) ==> final(b).rule() == old(b).rule() && gamepad_frames::<G>(final(c)@.queue) + final(b)@
            == gamepad_frames::<G>(old(c)@.queue) + old(b)@ + frames@,
        call_ensures(GamepadBatcher::<G>::push_many_slice, (b, c, slice), r) || call_ensures(
            GamepadBatcher::<G>::try_push_many_slice,
            (b, c, slice),
            r,
        ) ==> final(b).rule() == old(b).rule() && gamepad_frames::<G>(final(c)@.queue) + final(b)@
            == gamepad_frames::<G>(old(c)@.queue) + old(b)@ + slice@ && (slice@.len() > 0 ==> final(b)@.len() < old(b).rule().batch_size),
        call_ensures(GamepadBatcher::<G>::try_push_many_slice, (b, c, slice), r) && final(c)@.queue.len() > old(c)@.queue.len() && old(c)@.bound > 0 ==> final(c)@.queue.len() <= old(c)@.bound,
{
    let rule = old(b).rule();
    let (b0, c0, b1, c1) = (old(b)@, old(c)@, final(b)@, final(c)@);
    if call_ensures(GamepadBatcher::<G>::push_many, (b, c, frames), r) {
        lemma_gamepad_turns_keep_frames(rule, b0, c0, frames@, true, b1, c1, r);
    }
    if call_ensures(GamepadBatcher::<G>::try_push_many, (b, c, frames), r) {
        lemma_gamepad_turns_keep_frames(rule, b0, c0, frames@, false, b1, c1, r);
    }
    if call_ensures(GamepadBatcher::<G>::push_many_slice, (b, c, slice), r) {
        lemma_gamepad_slice_keeps_frames(rule, b0, c0, slice@, true, b1, c1, r);
    }
    if call_ensures(GamepadBatcher::<G>::try_push_many_slice, (b, c, slice), r) {
        lemma_gamepad_slice_keeps_frames(rule, b0, c0, slice@, false, b1, c1, r);
    }
}

/// When frames that were pushed as a slice fail: never by plain pushes while the
/// dispatcher is there, and otherwise only where the client takes nothing any more.
pub proof fn lemma_gamepad_slice_fails<G: GamepadItem>(
    b: &mut GamepadBatcher<G>,
    c: &mut HidClient,
    slice: &[G],
    r: Result<()>,
)
    requires
        old(b).valid(),
        r is Err,
    ensures
        call_ensures(GamepadBatcher::<G>::push_many_slice, (b, c, slice), r) ==> !old(c)@.connected && slice@.len() > 0 && final(c)@.queue == old(c)@.queue,
        call_ensures(GamepadBatcher::<G>::try_push_many_slice, (b, c, slice), r) ==> !has_place(
            false,
            final(c)@,
        ) && slice@.len() > 0,
{
    if call_ensures(GamepadBatcher::<G>::push_many_slice, (b, c, slice), r) {
        let done = final(c)@.queue.len() - old(c)@.queue.len();
        assert(!old(c)@.connected);
        assert(done == 0);
        assert(final(c)@.queue =~= old(c)@.queue);
    }
}

/// A flush delivers all gamepad frames that are held, in one command.
pub proof fn lemma_gamepad_flushes<G: GamepadItem>(
    b: &mut GamepadBatcher<G>,
    c: &mut HidClient,
    plain: bool,
    r: Result<()>,
)
    requires
        old(b).valid(),
        if plain {
            call_ensures(GamepadBatcher::<G>::flush, (b, c), r)
        } else {
            call_ensures(GamepadBatcher::<G>::try_flush, (b, c), r)
        },
    ensures
        final(b).rule() == old(b).rule(),
        r is Ok ==> final(b)@.len() == 0 && gamepad_frames::<G>(final(c)@.queue)
            == gamepad_frames::<G>(old(c)@.queue) + old(b)@,
        r is Err ==> final(b)@ == old(b)@ && final(c)@ == old(c)@,
        old(b)@.len() == 0 ==> r is Ok && final(c)@ == old(c)@,
        old(b)@.len() > 0 ==> (r is Ok <==> has_place(plain, old(c)@)),
        old(b)@.len() > 0 && r is Ok ==> final(c)@.queue.len() == old(c)@.queue.len() + 1,
{
    let rule = old(b).rule();
    lemma_gamepad_flush_keeps_frames(rule, old(b)@, old(c)@, plain, final(b)@, final(c)@, r);
    lemma_gamepad_flush_sends_once(rule, old(b)@, old(c)@, plain, final(b)@, final(c)@, r);
}

/// A gamepad batcher tells how much it holds.
pub proof fn lemma_gamepad_batcher_tells<G: GamepadItem>(b: &GamepadBatcher<G>, n: usize, e: bool)
    requires
        call_ensures(GamepadBatcher::<G>::len, (b,), n),
        call_ensures(GamepadBatcher::<G>::is_empty, (b,), e),
    ensures
        n == b@.len(),
        e <==> n == 0,
{
}

} // verus!
