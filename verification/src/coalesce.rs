//! Coalesced writing of control messages.
//!
//! Droppable messages gather in a buffer that is written in one piece when it
//! reaches a hard limit or when a time window has passed. Device creation and
//! removal flush the buffer and then go out alone. A writer with neither limit
//! nor window writes every message at once.
//!
//! Every push first stages its bytes and then asks the clock how long the window
//! has run. The functions named `..._at` take that answer as an argument. Every
//! write starts the window anew.
use std::time::Instant;
use vstd::prelude::*;

use crate::clock::{nanos, reading, Clock, ClockCall};
use crate::error::{Error, Result};
use crate::gamepad::{
    lemma_report_len, lemma_report_reads_back, report, GamepadFrameRaw, GAMEPAD_FRAME_BYTES,
};
use crate::message::{
    input_count, lemma_critical_by_tag, lemma_inputs_are_counted, lemma_message_reads_back,
    lemma_scan_finds_message, lemma_scan_recovers_tags, message_len_at, push_uhid_input_to_buf,
    stream as message_stream, tags_from, uhid_input_bytes, uhid_inputs_from, ControlMessage,
    UhidInput, TAG_UHID_INPUT,
};
use crate::transport::{
    lemma_more_calls, lemma_write_and_flush, pushed_out, write_count, written_data, wrote,
    TransportCall, TransportWrite,
};
use crate::types::HID_MAX_SIZE;
use crate::wire::{be16, push_be16};

verus! {

/// Why a push did or did not write.
#[derive(Debug, Clone, Copy, PartialEq, Eq, Hash, Structural)]
pub enum FlushReason {
    /// Nothing was written: the message waits in the buffer.
    Pending,
    /// The buffer reached its hard limit.
    Full,
    /// The time window had passed, or the writer is direct.
    Window,
    /// The message had to go out alone.
    Critical,
}

/// Buffer limit of a default writer, in bytes.
pub const DEFAULT_HARD_LIMIT: usize = 4096;

/// Time window of a default writer, in nanoseconds.
pub const DEFAULT_WINDOW_NS: u64 = 1_000_000;

/// Gamepad frames that a direct writer puts in one write.
pub const DIRECT_GAMEPAD_BATCH_FRAMES: usize = 32;

/// Bytes of one gamepad input message.
pub const GAMEPAD_MESSAGE_BYTES: usize = 20;

/// What a writer has done and holds.
#[verifier::ext_equal]
pub struct WriterView {
    /// Bytes that the transport has accepted.
    pub wire: Seq<u8>,
    /// Calls that the transport was given.
    pub calls: Seq<TransportCall>,
    /// Bytes that wait in the buffer.
    pub pending: Seq<u8>,
    /// Messages pushed.
    pub pushed: nat,
    /// Bytes written by this writer.
    pub written: nat,
    /// Writes made by this writer.
    pub flushes: nat,
    pub hard_limit: nat,
    /// Time window in nanoseconds.
    pub window_ns: nat,
    pub direct: bool,
    /// The errors that the transport can return.
    pub faults: Set<Error>,
    /// The clock reading from which the window runs.
    pub last_write: Instant,
    /// What the clock was asked, and its answers.
    pub clock: Seq<ClockCall>,
}

impl WriterView {
    /// Whether the transport never fails.
    pub open spec fn reliable(self) -> bool {
        forall|e: Error| !self.faults.contains(e)
    }

    /// With `n` more messages counted.
    pub open spec fn counted(self, n: nat) -> WriterView {
        WriterView { pushed: self.pushed + n, ..self }
    }

    /// With `bytes` buffered.
    pub open spec fn buffered(self, bytes: Seq<u8>) -> WriterView {
        WriterView { pending: self.pending + bytes, ..self }
    }

    /// With the window running from the next reading of the clock, which is the
    /// next entry of `clock`.
    pub open spec fn restarted(self, clock: Seq<ClockCall>) -> WriterView {
        let now = reading(clock, self.clock.len() as int);
        WriterView { last_write: now, clock: self.clock.push(ClockCall::Now(now)), ..self }
    }

    /// With the clock asked how long the window has run; the answer is the next
    /// entry of `clock`.
    pub open spec fn asked(self, clock: Seq<ClockCall>) -> WriterView {
        let ns = nanos(clock, self.clock.len() as int);
        WriterView {
            clock: self.clock.push(ClockCall::Elapsed { since: self.last_write, ns }),
            ..self
        }
    }

    /// With the buffer written out by one write and one flush of the transport;
    /// an empty buffer makes no call.
    pub open spec fn written_out(self) -> WriterView {
        if self.pending.len() == 0 {
            self
        } else {
            WriterView { pending: Seq::empty(), ..self.sent(self.pending) }
        }
    }

    /// With the buffer written out, and the window started anew even where there
    /// was nothing to write.
    pub open spec fn flushed(self, clock: Seq<ClockCall>) -> WriterView {
        self.written_out().restarted(clock)
    }

    /// With `bytes` written past the buffer, by one write and one flush of the
    /// transport. The window runs on.
    pub open spec fn sent(self, bytes: Seq<u8>) -> WriterView {
        WriterView {
            wire: self.wire + bytes,
            calls: self.calls.push(wrote(bytes)).push(pushed_out()),
            written: self.written + bytes.len(),
            flushes: self.flushes + 1,
            ..self
        }
    }

    /// With a batch written past the buffer: one write for each chunk, then one
    /// flush.
    pub open spec fn sent_batch(self, id: u16, data: Seq<Seq<u8>>) -> WriterView {
        WriterView {
            wire: self.wire + gamepad_stream(id, data),
            calls: (self.calls + chunk_writes(id, data, chunk_count(data.len()) as int)).push(
                pushed_out(),
            ),
            written: self.written + gamepad_stream(id, data).len(),
            flushes: self.flushes + chunk_count(data.len()),
            ..self
        }
    }

    /// Equal to `self` in all but what the transport was given.
    pub open spec fn same_but_transport(self, new: WriterView) -> bool {
        new == (WriterView { wire: new.wire, calls: new.calls, ..self })
    }

    /// The state after a write of `bytes`, or the flush behind it, has failed with
    /// `e`: nothing is counted, and how much has reached the wire is open.
    pub open spec fn broken(self, bytes: Seq<u8>, e: Error, new: WriterView) -> bool {
        &&& self.same_but_transport(new)
        &&& self.faults.contains(e)
        &&& {
            ||| new.calls == self.calls.push(TransportCall::Write { data: bytes, fault: Some(e) })
            ||| new.calls == self.calls.push(wrote(bytes)).push(
                TransportCall::Flush { fault: Some(e) },
            )
        }
    }

    /// The state after a batch written past the buffer has failed with `e`, at
    /// one of its writes or at the flush.
    pub open spec fn broken_batch(
        self,
        id: u16,
        data: Seq<Seq<u8>>,
        e: Error,
        new: WriterView,
    ) -> bool {
        let n = chunk_count(data.len()) as int;
        &&& self.same_but_transport(new)
        &&& self.faults.contains(e)
        &&& {
            ||| new.calls == (self.calls + chunk_writes(id, data, n)).push(
                TransportCall::Flush { fault: Some(e) },
            )
            ||| exists|k: int|
                0 <= k < n && new.calls == (self.calls + #[trigger] chunk_writes(id, data, k)).push(
                    TransportCall::Write {
                        data: gamepad_stream(id, chunk(data, k)),
                        fault: Some(e),
                    },
                )
        }
    }

    /// A direct writer never buffers.
    pub open spec fn valid(self) -> bool {
        self.direct ==> self.pending.len() == 0
    }

    /// Room in the counters for `n` messages of `bytes` bytes in all.
    pub open spec fn room(self, n: nat, bytes: nat) -> bool {
        &&& self.pushed + n <= u64::MAX
        &&& self.written + self.pending.len() + bytes <= u64::MAX
        &&& self.flushes + n + 1 <= u64::MAX
    }

    /// Room in the counters for one message; one without a wire form brings no
    /// bytes.
    pub open spec fn room_for(self, msg: ControlMessage) -> bool {
        self.room(
            1,
            if msg.encodable() {
                msg.bytes().len()
            } else {
                0
            },
        )
    }

    /// Staged bytes have met the clock: a window that has passed writes what is
    /// left in the buffer, and any other leaves it and returns `otherwise`. The
    /// time since the last write is `elapsed` where that is given, and the clock's
    /// answer where it is not.
    pub open spec fn decided(
        self,
        otherwise: FlushReason,
        elapsed: Option<u128>,
        new: WriterView,
        r: Result<FlushReason>,
    ) -> bool {
        let (w, ns) = match elapsed {
            Some(ns) => (self, ns),
            None => (self.asked(new.clock), nanos(new.clock, self.clock.len() as int)),
        };
        if ns >= self.window_ns && self.pending.len() > 0 {
            match r {
                Ok(reason) => reason == FlushReason::Window && new == w.flushed(new.clock),
                Err(e) => w.broken(self.pending, e, new),
            }
        } else {
            r == Ok::<FlushReason, Error>(otherwise) && new == w
        }
    }

    /// The buffered writer after bytes have joined the buffer: it writes when
    /// the limit is reached or the window has passed.
    pub open spec fn settled(
        self,
        elapsed: Option<u128>,
        new: WriterView,
        r: Result<FlushReason>,
    ) -> bool {
        if self.pending.len() >= self.hard_limit {
            match r {
                Ok(reason) => reason == FlushReason::Full && new == self.flushed(new.clock),
                Err(e) => self.pending.len() > 0 && self.broken(self.pending, e, new),
            }
        } else {
            self.decided(FlushReason::Pending, elapsed, new, r)
        }
    }

    /// A non-critical message with the wire form `bytes` has been pushed.
    pub open spec fn pushed_bytes(
        self,
        bytes: Seq<u8>,
        elapsed: Option<u128>,
        new: WriterView,
        r: Result<FlushReason>,
    ) -> bool {
        if self.direct {
            match r {
                Ok(reason) => reason == FlushReason::Window && new == self.counted(1).sent(
                    bytes,
                ).restarted(new.clock),
                Err(e) => self.counted(1).broken(bytes, e, new),
            }
        } else {
            self.counted(1).buffered(bytes).settled(elapsed, new, r)
        }
    }

    /// A critical message has been pushed: the buffer first, then the message
    /// alone.
    pub open spec fn pushed_critical(
        self,
        msg: ControlMessage,
        new: WriterView,
        r: Result<FlushReason>,
    ) -> bool {
        let first = self.counted(1).flushed(new.clock);
        match r {
            Ok(reason) => {
                &&& msg.encodable()
                &&& reason == FlushReason::Critical
                &&& new == first.sent(msg.bytes())
            },
            Err(e) => {
                ||| self.pending.len() > 0 && self.counted(1).broken(self.pending, e, new)
                ||| !msg.encodable() && e == msg.too_large() && new == first
                ||| msg.encodable() && first.broken(msg.bytes(), e, new)
            },
        }
    }

    /// `msg` has been pushed. The time since the last write, asked for once the
    /// message is in the buffer, is `elapsed` or, without that, the clock's answer.
    pub open spec fn pushed_message(
        self,
        msg: ControlMessage,
        elapsed: Option<u128>,
        new: WriterView,
        r: Result<FlushReason>,
    ) -> bool {
        if self.direct && msg.encodable() && msg.critical() {
            match r {
                Ok(reason) => reason == FlushReason::Critical && new == self.counted(1).sent(
                    msg.bytes(),
                ).restarted(new.clock),
                Err(e) => self.counted(1).broken(msg.bytes(), e, new),
            }
        } else if !self.direct && msg.critical() {
            self.pushed_critical(msg, new, r)
        } else if !msg.encodable() {
            r == Err::<FlushReason, Error>(msg.too_large()) && new == self.counted(1)
        } else {
            self.pushed_bytes(msg.bytes(), elapsed, new, r)
        }
    }

    /// The first `size` bytes of `data` have been pushed as an input report.
    pub open spec fn pushed_input(
        self,
        id: u16,
        size: u16,
        data: Seq<u8>,
        elapsed: Option<u128>,
        new: WriterView,
        r: Result<FlushReason>,
    ) -> bool {
        if size <= HID_MAX_SIZE && size <= data.len() {
            self.pushed_bytes(uhid_input_bytes(id, size as int, data), elapsed, new, r)
        } else {
            &&& r == Err::<FlushReason, Error>(
                Error::ControlMessageTooLarge {
                    size: size as usize,
                    max: (HID_MAX_SIZE + 5) as usize,
                },
            )
            &&& new == self.counted(1)
        }
    }

    /// Two or more reports have been pushed together.
    pub open spec fn pushed_batch(
        self,
        id: u16,
        data: Seq<Seq<u8>>,
        elapsed: Option<u128>,
        new: WriterView,
        r: Result<FlushReason>,
    ) -> bool {
        let counted = self.counted(data.len());
        if self.direct {
            match r {
                Ok(reason) => reason == FlushReason::Window && new == counted.sent_batch(
                    id,
                    data,
                ).restarted(new.clock),
                Err(e) => counted.broken_batch(id, data, e, new),
            }
        } else if self.pending.len() + data.len() * GAMEPAD_MESSAGE_BYTES < self.hard_limit {
            counted.buffered(gamepad_stream(id, data)).decided(
                FlushReason::Pending,
                elapsed,
                new,
                r,
            )
        } else {
            ||| spill_broken(counted, id, data, new, r)
            ||| spilled(counted, id, data, data.len() as int, new.clock).decided(
                FlushReason::Full,
                elapsed,
                new,
                r,
            )
        }
    }

    /// Any number of reports have been pushed together. None do nothing, and one
    /// is pushed by itself.
    pub open spec fn pushed_reports(
        self,
        id: u16,
        data: Seq<Seq<u8>>,
        elapsed: Option<u128>,
        new: WriterView,
        r: Result<FlushReason>,
    ) -> bool {
        if data.len() == 0 {
            r == Ok::<FlushReason, Error>(FlushReason::Pending) && new == self
        } else if data.len() == 1 {
            self.pushed_bytes(gamepad_bytes(id, data[0]), elapsed, new, r)
        } else {
            self.pushed_batch(id, data, elapsed, new, r)
        }
    }
}

/// The wire form of a gamepad report.
pub open spec fn gamepad_bytes(id: u16, data: Seq<u8>) -> Seq<u8> {
    seq![TAG_UHID_INPUT] + be16(id) + be16(GAMEPAD_FRAME_BYTES as u16) + data
}

/// The concatenated wire forms of gamepad reports.
pub open spec fn gamepad_stream(id: u16, data: Seq<Seq<u8>>) -> Seq<u8>
    decreases data.len(),
{
    if data.len() == 0 {
        Seq::empty()
    } else {
        gamepad_stream(id, data.drop_last()) + gamepad_bytes(id, data.last())
    }
}

/// The number of writes in which a direct writer sends `n` reports.
pub open spec fn chunk_count(n: nat) -> nat {
    (n + DIRECT_GAMEPAD_BATCH_FRAMES - 1) as nat / DIRECT_GAMEPAD_BATCH_FRAMES as nat
}

/// The reports of write `k`: each write but the last is full.
pub open spec fn chunk(data: Seq<Seq<u8>>, k: int) -> Seq<Seq<u8>> {
    let from = k * DIRECT_GAMEPAD_BATCH_FRAMES;
    let to = from + DIRECT_GAMEPAD_BATCH_FRAMES;
    data.subrange(
        from,
        if to <= data.len() {
            to
        } else {
            data.len() as int
        },
    )
}

/// The first `n` writes of a batch.
pub open spec fn chunk_writes(id: u16, data: Seq<Seq<u8>>, n: int) -> Seq<TransportCall> {
    Seq::new(n as nat, |k: int| wrote(gamepad_stream(id, chunk(data, k))))
}

/// A buffered writer after the first `k` reports of a batch that reaches the
/// limit: it writes each time the limit is reached. The clock's readings on the
/// way are entries of `clock`.
pub open spec fn spilled(
    w: WriterView,
    id: u16,
    data: Seq<Seq<u8>>,
    k: int,
    clock: Seq<ClockCall>,
) -> WriterView
    decreases k,
{
    if k <= 0 {
        w
    } else {
        let next = spilled(w, id, data, k - 1, clock).buffered(gamepad_bytes(id, data[k - 1]));
        if next.pending.len() >= next.hard_limit {
            next.flushed(clock)
        } else {
            next
        }
    }
}

/// A write on the way through such a batch has failed.
pub open spec fn spill_broken(
    w: WriterView,
    id: u16,
    data: Seq<Seq<u8>>,
    new: WriterView,
    r: Result<FlushReason>,
) -> bool {
    r matches Err(e) && exists|k: int|
        0 <= k < data.len() && {
            let full = (#[trigger] spilled(w, id, data, k, new.clock)).buffered(
                gamepad_bytes(id, data[k]),
            );
            full.pending.len() >= full.hard_limit && full.broken(full.pending, e, new)
        }
}

/// What was spilled depends on the clock's readings on the way alone, not on what
/// the clock is asked later.
proof fn lemma_spill_clock(
    w: WriterView,
    id: u16,
    data: Seq<Seq<u8>>,
    k: int,
    clock: Seq<ClockCall>,
    later: Seq<ClockCall>,
)
    requires
        forall|i: int|
            0 <= i < spilled(w, id, data, k, clock).clock.len() ==> clock[i] == later[i],
    ensures
        spilled(w, id, data, k, clock) == spilled(w, id, data, k, later),
    decreases k,
{
    if k > 0 {
        lemma_spill_clock(w, id, data, k - 1, clock, later);
    }
}

/// The contents of packed reports.
pub open spec fn payloads(data: Seq<[u8; GAMEPAD_FRAME_BYTES]>) -> Seq<Seq<u8>> {
    Seq::new(data.len(), |i: int| data[i]@)
}

/// The packed reports of frames.
pub open spec fn reports(frames: Seq<GamepadFrameRaw>) -> Seq<Seq<u8>> {
    Seq::new(frames.len(), |i: int| report(frames[i]))
}

/// Whether each of `data` has the size of a gamepad report.
pub open spec fn report_sized(data: Seq<Seq<u8>>) -> bool {
    forall|i: int| 0 <= i < data.len() ==> (#[trigger] data[i]).len() == GAMEPAD_FRAME_BYTES
}

fn push_gamepad_input_to_buf(buf: &mut Vec<u8>, id: u16, data: &[u8; GAMEPAD_FRAME_BYTES])
    ensures
        final(buf)@ == old(buf)@ + gamepad_bytes(id, data@),
{
    let ghost start = buf@;
    buf.push(TAG_UHID_INPUT);
    push_be16(buf, id);
    push_be16(buf, GAMEPAD_FRAME_BYTES as u16);
    buf.extend_from_slice(data.as_slice());
    assert(buf@ =~= start + gamepad_bytes(id, data@));
}

/// A gamepad message is twenty bytes, and a stream of them twenty each.
pub proof fn lemma_gamepad_stream_len(id: u16, data: Seq<Seq<u8>>)
    requires
        report_sized(data),
    ensures
        gamepad_stream(id, data).len() == data.len() * GAMEPAD_MESSAGE_BYTES,
    decreases data.len(),
{
    if data.len() > 0 {
        lemma_gamepad_stream_len(id, data.drop_last());
        assert(data.last().len() == GAMEPAD_FRAME_BYTES);
    }
}

/// The stream of reports in two parts.
proof fn lemma_stream_parts(id: u16, a: Seq<Seq<u8>>, b: Seq<Seq<u8>>)
    ensures
        gamepad_stream(id, a + b) == gamepad_stream(id, a) + gamepad_stream(id, b),
    decreases b.len(),
{
    if b.len() == 0 {
        assert(a + b =~= a);
        assert(gamepad_stream(id, a) + gamepad_stream(id, b) =~= gamepad_stream(id, a));
    } else {
        lemma_stream_parts(id, a, b.drop_last());
        assert((a + b).drop_last() =~= a + b.drop_last());
        assert(gamepad_stream(id, a + b) =~= gamepad_stream(id, a) + gamepad_stream(id, b));
    }
}

/// Packs frames into reports.
fn pack_frames(frames: &[GamepadFrameRaw]) -> (data: Vec<[u8; GAMEPAD_FRAME_BYTES]>)
    ensures
        data@.len() == frames@.len(),
        payloads(data@) == reports(frames@),
{
    let mut data: Vec<[u8; GAMEPAD_FRAME_BYTES]> = Vec::new();
    let mut i: usize = 0;
    while i < frames.len()
        invariant
            i <= frames@.len(),
            data@.len() == i,
            forall|j: int| 0 <= j < i ==> (#[trigger] data@[j])@ == report(frames@[j]),
        decreases frames@.len() - i,
    {
        data.push(frames[i].pack());
        i = i + 1;
    }
    assert(payloads(data@) =~= reports(frames@));
    data
}

/// How far a push has come before the clock is asked.
enum Staged {
    /// The push has ended.
    Done(FlushReason),
    /// The window still decides about what is in the buffer; the reason stands
    /// where it has not passed.
    Open(FlushReason),
}

impl Staged {
    /// A staged push has ended.
    spec fn ends(
        self,
        staged: WriterView,
        elapsed: Option<u128>,
        new: WriterView,
        r: Result<FlushReason>,
    ) -> bool {
        match self {
            Staged::Done(reason) => r == Ok::<FlushReason, Error>(reason) && new == staged,
            Staged::Open(otherwise) => staged.decided(otherwise, elapsed, new, r),
        }
    }
}

/// A writer that coalesces control messages for a transport.
pub struct CoalescingWriter<T: TransportWrite> {
    transport: T,
    pending: Vec<u8>,
    clock: Clock,
    last_flush: Instant,
    window_ns: u64,
    hard_limit: usize,
    direct: bool,
    pushed: u64,
    written: u64,
    flushes: u64,
}

impl<T: TransportWrite> View for CoalescingWriter<T> {
    type V = WriterView;

    closed spec fn view(&self) -> WriterView {
        WriterView {
            wire: self.transport.wire(),
            calls: self.transport.calls(),
            pending: self.pending@,
            pushed: self.pushed as nat,
            written: self.written as nat,
            flushes: self.flushes as nat,
            hard_limit: self.hard_limit as nat,
            window_ns: self.window_ns as nat,
            direct: self.direct,
            faults: self.transport.faults(),
            last_write: self.last_flush,
            clock: self.clock.calls(),
        }
    }
}

impl<T: TransportWrite> CoalescingWriter<T> {
    /// A writer with the default limit and window.
    pub fn new(transport: T) -> (w: CoalescingWriter<T>)
        ensures
            w@ == (WriterView {
                wire: transport.wire(),
                calls: transport.calls(),
                pending: Seq::empty(),
                pushed: 0,
                written: 0,
                flushes: 0,
                hard_limit: DEFAULT_HARD_LIMIT as nat,
                window_ns: DEFAULT_WINDOW_NS as nat,
                direct: false,
                faults: transport.faults(),
                last_write: w@.last_write,
                clock: seq![ClockCall::Now(w@.last_write)],
            }),
    {
        CoalescingWriter::with_limits(transport, DEFAULT_WINDOW_NS, DEFAULT_HARD_LIMIT)
    }

    /// A writer that buffers nothing.
    pub fn direct(transport: T) -> (w: CoalescingWriter<T>)
        ensures
            w@ == (WriterView {
                wire: transport.wire(),
                calls: transport.calls(),
                pending: Seq::empty(),
                pushed: 0,
                written: 0,
                flushes: 0,
                hard_limit: 0,
                window_ns: 0,
                direct: true,
                faults: transport.faults(),
                last_write: w@.last_write,
                clock: seq![ClockCall::Now(w@.last_write)],
            }),
    {
        CoalescingWriter::with_limits(transport, 0, 0)
    }

    /// A writer with a window of `window_ns` nanoseconds and a buffer limit of
    /// `hard_limit` bytes; with both zero it is direct.
    pub fn with_limits(transport: T, window_ns: u64, hard_limit: usize) -> (w: CoalescingWriter<T>)
        ensures
            w@ == (WriterView {
                wire: transport.wire(),
                calls: transport.calls(),
                pending: Seq::empty(),
                pushed: 0,
                written: 0,
                flushes: 0,
                hard_limit: hard_limit as nat,
                window_ns: window_ns as nat,
                direct: hard_limit == 0 && window_ns == 0,
                faults: transport.faults(),
                last_write: w@.last_write,
                clock: seq![ClockCall::Now(w@.last_write)],
            }),
    {
        let mut clock = Clock::new();
        let now = clock.now();
        assert(clock.calls() =~= seq![ClockCall::Now(now)]);
        CoalescingWriter {
            transport,
            pending: Vec::new(),
            clock,
            last_flush: now,
            window_ns,
            hard_limit,
            direct: hard_limit == 0 && window_ns == 0,
            pushed: 0,
            written: 0,
            flushes: 0,
        }
    }

    /// Asks the clock whether the window has passed.
    fn window_elapsed(&mut self) -> (elapsed: bool)
        ensures
            final(self)@ == old(self)@.asked(final(self)@.clock),
            elapsed == (nanos(final(self)@.clock, old(self)@.clock.len() as int)
                >= old(self)@.window_ns),
    {
        let ns: u128 = self.clock.elapsed(&self.last_flush);
        self.window_passed(ns)
    }

    /// Starts the window anew.
    fn restart_window(&mut self)
        ensures
            final(self)@ == old(self)@.restarted(final(self)@.clock),
    {
        self.last_flush = self.clock.now();
    }

    /// Whether the window has passed `elapsed_ns` nanoseconds after the last
    /// write.
    fn window_passed(&self, elapsed_ns: u128) -> (passed: bool)
        ensures
            passed == (elapsed_ns >= self@.window_ns),
    {
        elapsed_ns >= self.window_ns as u128
    }

    /// Writes `bytes` past the buffer. The window runs on.
    fn send_alone(&mut self, bytes: &[u8]) -> (r: Result<()>)
        requires
            old(self)@.written + bytes@.len() <= u64::MAX,
            old(self)@.flushes < u64::MAX,
        ensures
            match r {
                Ok(_) => final(self)@ == old(self)@.sent(bytes@),
                Err(e) => old(self)@.broken(bytes@, e, final(self)@),
            },
    {
        let n: usize = bytes.len();
        match self.transport.write_all(bytes) {
            Ok(_) => {},
            Err(e) => {
                return Err(e);
            },
        }
        match self.transport.flush() {
            Ok(_) => {},
            Err(e) => {
                return Err(e);
            },
        }
        self.written = self.written + n as u64;
        self.flushes = self.flushes + 1;
        Ok(())
    }

    /// Writes the buffer out, starts the window anew and tells how many bytes were
    /// written. After a failed write the buffer is still there, and the window runs
    /// on.
    pub fn flush_now(&mut self) -> (r: Result<usize>)
        requires
            old(self)@.written + old(self)@.pending.len() <= u64::MAX,
            old(self)@.flushes < u64::MAX,
        ensures
            match r {
                Ok(n) => n == old(self)@.pending.len() && final(self)@ == old(self)@.flushed(
                    final(self)@.clock,
                ),
                Err(e) => old(self)@.pending.len() > 0 && old(self)@.broken(
                    old(self)@.pending,
                    e,
                    final(self)@,
                ),
            },
    {
        if self.pending.len() == 0 {
            self.restart_window();
            return Ok(0);
        }
        let n: usize = self.pending.len();
        match self.transport.write_all(self.pending.as_slice()) {
            Ok(_) => {},
            Err(e) => {
                return Err(e);
            },
        }
        match self.transport.flush() {
            Ok(_) => {},
            Err(e) => {
                return Err(e);
            },
        }
        self.pending.clear();
        self.restart_window();
        self.written = self.written + n as u64;
        self.flushes = self.flushes + 1;
        assert(self@ =~= old(self)@.flushed(self@.clock));
        Ok(n)
    }

    /// Whether the counters hold a write of the buffer.
    spec fn can_flush(&self) -> bool {
        self@.written + self@.pending.len() <= u64::MAX && self@.flushes < u64::MAX
    }

    /// Ends a push: where the window still decides, it decides now.
    fn settle(&mut self, staged: Staged, elapsed: Option<u128>) -> (r: Result<FlushReason>)
        requires
            staged is Open ==> old(self).can_flush(),
        ensures
            staged.ends(old(self)@, elapsed, final(self)@, r),
    {
        match staged {
            Staged::Done(reason) => Ok(reason),
            Staged::Open(otherwise) => {
                let passed = match elapsed {
                    Some(ns) => self.window_passed(ns),
                    None => self.window_elapsed(),
                };
                if passed && self.pending.len() > 0 {
                    return match self.flush_now() {
                        Ok(_) => Ok(FlushReason::Window),
                        Err(e) => Err(e),
                    };
                }
                Ok(otherwise)
            },
        }
    }

    /// Writes a message past the buffer of a direct writer.
    fn stage_direct(&mut self, bytes: &[u8], reason: FlushReason) -> (r: Result<Staged>)
        requires
            old(self)@.written + bytes@.len() <= u64::MAX,
            old(self)@.flushes < u64::MAX,
        ensures
            match r {
                Ok(staged) => staged == Staged::Done(reason) && final(self)@ == old(self)@.sent(
                    bytes@,
                ).restarted(final(self)@.clock),
                Err(e) => old(self)@.broken(bytes@, e, final(self)@),
            },
    {
        match self.send_alone(bytes) {
            Ok(_) => {
                self.restart_window();
                Ok(Staged::Done(reason))
            },
            Err(e) => Err(e),
        }
    }

    /// Writes a buffer that has reached its limit.
    fn stage_buffered(&mut self) -> (r: Result<Staged>)
        requires
            old(self).can_flush(),
        ensures
            match r {
                Ok(staged) => {
                    &&& old(self)@.pending.len() >= old(self)@.hard_limit ==> staged
                        == Staged::Done(FlushReason::Full) && final(self)@ == old(self)@.flushed(
                        final(self)@.clock,
                    )
                    &&& old(self)@.pending.len() < old(self)@.hard_limit ==> staged
                        == Staged::Open(FlushReason::Pending) && *final(self) == *old(self)
                },
                Err(e) => {
                    &&& old(self)@.pending.len() >= old(self)@.hard_limit
                    &&& old(self)@.pending.len() > 0
                    &&& old(self)@.broken(old(self)@.pending, e, final(self)@)
                },
            },
    {
        if self.pending.len() >= self.hard_limit {
            return match self.flush_now() {
                Ok(_) => Ok(Staged::Done(FlushReason::Full)),
                Err(e) => Err(e),
            };
        }
        Ok(Staged::Open(FlushReason::Pending))
    }

    /// Counts `msg` and sends or buffers it.
    fn stage_message(&mut self, msg: &ControlMessage) -> (r: Result<Staged>)
        requires
            old(self)@.room_for(*msg),
        ensures
            match r {
                Ok(staged) => {
                    &&& forall|e: Option<u128>, new: WriterView, q: Result<FlushReason>|
                        #[trigger]
                        staged.ends(final(self)@, e, new, q) ==> old(self)@.pushed_message(
                            *msg,
                            e,
                            new,
                            q,
                        )
                    &&& staged is Open ==> final(self).can_flush()
                },
                Err(err) => forall|e: Option<u128>|
                    #[trigger]
                    old(self)@.pushed_message(*msg, e, final(self)@, Err(err)),
            },
    {
        self.pushed = self.pushed + 1;
        if self.direct {
            let mut bytes: Vec<u8> = Vec::new();
            match msg.serialize_into(&mut bytes) {
                Ok(_) => {},
                Err(e) => {
                    return Err(e);
                },
            }
            assert(bytes@ =~= msg.bytes());
            let reason = if msg.is_critical() {
                FlushReason::Critical
            } else {
                FlushReason::Window
            };
            return self.stage_direct(bytes.as_slice(), reason);
        }
        if msg.is_critical() {
            match self.flush_now() {
                Ok(_) => {},
                Err(e) => {
                    return Err(e);
                },
            }
            let mut bytes: Vec<u8> = Vec::new();
            match msg.serialize_into(&mut bytes) {
                Ok(_) => {},
                Err(e) => {
                    return Err(e);
                },
            }
            assert(bytes@ =~= msg.bytes());
            return match self.send_alone(bytes.as_slice()) {
                Ok(_) => Ok(Staged::Done(FlushReason::Critical)),
                Err(e) => Err(e),
            };
        }
        match msg.serialize_into(&mut self.pending) {
            Ok(_) => self.stage_buffered(),
            Err(e) => Err(e),
        }
    }

    /// Counts an input report and sends or buffers it.
    fn stage_input(&mut self, id: u16, size: u16, data: &[u8]) -> (r: Result<Staged>)
        requires
            old(self)@.room(1, 5 + size as nat),
        ensures
            match r {
                Ok(staged) => {
                    &&& forall|e: Option<u128>, new: WriterView, q: Result<FlushReason>|
                        #[trigger]
                        staged.ends(final(self)@, e, new, q) ==> old(self)@.pushed_input(
                            id,
                            size,
                            data@,
                            e,
                            new,
                            q,
                        )
                    &&& staged is Open ==> final(self).can_flush()
                },
                Err(err) => forall|e: Option<u128>|
                    #[trigger]
                    old(self)@.pushed_input(id, size, data@, e, final(self)@, Err(err)),
            },
    {
        self.pushed = self.pushed + 1;
        if self.direct {
            let mut bytes: Vec<u8> = Vec::new();
            match push_uhid_input_to_buf(&mut bytes, id, size as usize, data) {
                Ok(_) => {},
                Err(e) => {
                    return Err(e);
                },
            }
            assert(bytes@ =~= uhid_input_bytes(id, size as int, data@));
            return self.stage_direct(bytes.as_slice(), FlushReason::Window);
        }
        match push_uhid_input_to_buf(&mut self.pending, id, size as usize, data) {
            Ok(_) => self.stage_buffered(),
            Err(e) => Err(e),
        }
    }

    /// Counts a packed gamepad report and sends or buffers it.
    fn stage_gamepad(&mut self, id: u16, data: &[u8; GAMEPAD_FRAME_BYTES]) -> (r: Result<Staged>)
        requires
            old(self)@.room(1, GAMEPAD_MESSAGE_BYTES as nat),
        ensures
            match r {
                Ok(staged) => {
                    &&& forall|e: Option<u128>, new: WriterView, q: Result<FlushReason>|
                        #[trigger]
                        staged.ends(final(self)@, e, new, q) ==> old(self)@.pushed_bytes(
                            gamepad_bytes(id, data@),
                            e,
                            new,
                            q,
                        )
                    &&& staged is Open ==> final(self).can_flush()
                },
                Err(err) => forall|e: Option<u128>|
                    #[trigger]
                    old(self)@.pushed_bytes(gamepad_bytes(id, data@), e, final(self)@, Err(err)),
            },
    {
        self.pushed = self.pushed + 1;
        if self.direct {
            let mut bytes: Vec<u8> = Vec::new();
            push_gamepad_input_to_buf(&mut bytes, id, data);
            assert(bytes@ =~= gamepad_bytes(id, data@));
            return self.stage_direct(bytes.as_slice(), FlushReason::Window);
        }
        push_gamepad_input_to_buf(&mut self.pending, id, data);
        self.stage_buffered()
    }

    /// Pushes a message, with a clock that shows `elapsed_ns` nanoseconds since
    /// the last write once the message is in the buffer.
    pub fn push_at(&mut self, msg: &ControlMessage, elapsed_ns: u128) -> (r: Result<FlushReason>)
        requires
            old(self)@.room_for(*msg),
        ensures
            old(self)@.pushed_message(
                *msg,
                Some(elapsed_ns),
                final(self)@,
                r,
            ),
    {
        match self.stage_message(msg) {
            Ok(staged) => self.settle(staged, Some(elapsed_ns)),
            Err(e) => Err(e),
        }
    }

    /// Pushes a message. Whether the window has passed is read from the clock
    /// once the message is in the buffer.
    pub fn push(&mut self, msg: &ControlMessage) -> (r: Result<FlushReason>)
        requires
            old(self)@.room_for(*msg),
        ensures
            old(self)@.pushed_message(*msg, None, final(self)@, r),
    {
        match self.stage_message(msg) {
            Ok(staged) => self.settle(staged, None),
            Err(e) => Err(e),
        }
    }

    /// Pushes the first `size` bytes of `data` as an input report, with the time
    /// since the last write given.
    pub fn push_uhid_input_at(
        &mut self,
        id: u16,
        size: u16,
        data: &[u8],
        elapsed_ns: u128,
    ) -> (r: Result<FlushReason>)
        requires
            old(self)@.room(1, 5 + size as nat),
        ensures
            old(self)@.pushed_input(
                id,
                size,
                data@,
                Some(elapsed_ns),
                final(self)@,
                r,
            ),
    {
        match self.stage_input(id, size, data) {
            Ok(staged) => self.settle(staged, Some(elapsed_ns)),
            Err(e) => Err(e),
        }
    }

    /// Pushes the first `size` bytes of `data` as an input report.
    pub fn push_uhid_input(&mut self, id: u16, size: u16, data: &[u8]) -> (r: Result<FlushReason>)
        requires
            old(self)@.room(1, 5 + size as nat),
        ensures
            old(self)@.pushed_input(id, size, data@, None, final(self)@, r),
    {
        match self.stage_input(id, size, data) {
            Ok(staged) => self.settle(staged, None),
            Err(e) => Err(e),
        }
    }

    /// Pushes one packed gamepad report, with the time since the last write given.
    pub fn push_gamepad_input_at(
        &mut self,
        id: u16,
        data: &[u8; GAMEPAD_FRAME_BYTES],
        elapsed_ns: u128,
    ) -> (r: Result<FlushReason>)
        requires
            old(self)@.room(1, GAMEPAD_MESSAGE_BYTES as nat),
        ensures
            old(self)@.pushed_bytes(
                gamepad_bytes(id, data@),
                Some(elapsed_ns),
                final(self)@,
                r,
            ),
    {
        match self.stage_gamepad(id, data) {
            Ok(staged) => self.settle(staged, Some(elapsed_ns)),
            Err(e) => Err(e),
        }
    }

    /// Pushes one packed gamepad report.
    pub fn push_gamepad_input(&mut self, id: u16, data: &[u8; GAMEPAD_FRAME_BYTES]) -> (r: Result<
        FlushReason,
    >)
        requires
            old(self)@.room(1, GAMEPAD_MESSAGE_BYTES as nat),
        ensures
            old(self)@.pushed_bytes(gamepad_bytes(id, data@), None, final(self)@, r),
    {
        match self.stage_gamepad(id, data) {
            Ok(staged) => self.settle(staged, None),
            Err(e) => Err(e),
        }
    }

    /// Pushes one gamepad frame, with the time since the last write given.
    pub fn push_gamepad_input_fields_at(
        &mut self,
        id: u16,
        frame: &GamepadFrameRaw,
        elapsed_ns: u128,
    ) -> (r: Result<FlushReason>)
        requires
            old(self)@.room(1, GAMEPAD_MESSAGE_BYTES as nat),
        ensures
            old(self)@.pushed_bytes(
                gamepad_bytes(id, report(*frame)),
                Some(elapsed_ns),
                final(self)@,
                r,
            ),
    {
        let data: [u8; GAMEPAD_FRAME_BYTES] = frame.pack();
        self.push_gamepad_input_at(id, &data, elapsed_ns)
    }

    /// Pushes one gamepad frame.
    pub fn push_gamepad_input_fields(&mut self, id: u16, frame: &GamepadFrameRaw) -> (r: Result<
        FlushReason,
    >)
        requires
            old(self)@.room(1, GAMEPAD_MESSAGE_BYTES as nat),
        ensures
            old(self)@.pushed_bytes(gamepad_bytes(id, report(*frame)), None, final(self)@, r),
    {
        let data: [u8; GAMEPAD_FRAME_BYTES] = frame.pack();
        self.push_gamepad_input(id, &data)
    }

    /// Writes a batch past the buffer, a bounded number of reports per write, and
    /// flushes the transport once.
    fn send_batch_direct(&mut self, id: u16, data: &[[u8; GAMEPAD_FRAME_BYTES]]) -> (r: Result<()>)
        requires
            old(self)@.written + data@.len() * GAMEPAD_MESSAGE_BYTES <= u64::MAX,
            old(self)@.flushes + data@.len() <= u64::MAX,
        ensures
            match r {
                Ok(_) => final(self)@ == old(self)@.sent_batch(id, payloads(data@)).restarted(
                    final(self)@.clock,
                ),
                Err(e) => old(self)@.broken_batch(id, payloads(data@), e, final(self)@),
            },
    {
        let ghost all = payloads(data@);
        let mut sent: u64 = 0;
        let mut chunks: u64 = 0;
        let mut idx: usize = 0;
        proof {
            assert(all.take(0) =~= Seq::<Seq<u8>>::empty());
            assert(self@.wire + gamepad_stream(id, all.take(0)) =~= self@.wire);
            assert(self@.calls + chunk_writes(id, all, 0) =~= self@.calls);
        }
        while idx < data.len()
            invariant
                all == payloads(data@),
                idx <= data@.len(),
                idx == chunks * DIRECT_GAMEPAD_BATCH_FRAMES || idx == data@.len(),
                chunks == chunk_count(idx as nat),
                old(self)@.same_but_transport(self@),
                old(self)@.written + data@.len() * GAMEPAD_MESSAGE_BYTES <= u64::MAX,
                self@.wire == old(self)@.wire + gamepad_stream(id, all.take(idx as int)),
                self@.calls == old(self)@.calls + chunk_writes(id, all, chunks as int),
                sent == idx * GAMEPAD_MESSAGE_BYTES,
            decreases data@.len() - idx,
        {
            let ghost from = idx as int;
            let mut raw: Vec<u8> = Vec::new();
            let mut in_chunk: usize = 0;
            assert(all.subrange(from, from) =~= Seq::<Seq<u8>>::empty());
            while idx < data.len() && in_chunk < DIRECT_GAMEPAD_BATCH_FRAMES
                invariant
                    all == payloads(data@),
                    0 <= from <= idx <= data@.len(),
                    in_chunk <= DIRECT_GAMEPAD_BATCH_FRAMES,
                    idx == from + in_chunk,
                    raw@ == gamepad_stream(id, all.subrange(from, idx as int)),
                    raw@.len() == in_chunk * GAMEPAD_MESSAGE_BYTES,
                decreases data@.len() - idx,
            {
                push_gamepad_input_to_buf(&mut raw, id, &data[idx]);
                proof {
                    let t = all.subrange(from, idx + 1);
                    assert(t.drop_last() =~= all.subrange(from, idx as int));
                    assert(t.last() == data@[idx as int]@);
                    assert(data@[idx as int]@.len() == GAMEPAD_FRAME_BYTES);
                }
                idx = idx + 1;
                in_chunk = in_chunk + 1;
            }
            let ghost before = self@.calls;
            assert(all.subrange(from, idx as int) =~= chunk(all, chunks as int));
            match self.transport.write_all(raw.as_slice()) {
                Ok(_) => {},
                Err(e) => {
                    proof {
                        assert(chunks < chunk_count(all.len()));
                        assert(self@.calls == (old(self)@.calls + chunk_writes(
                            id,
                            all,
                            chunks as int,
                        )).push(
                            TransportCall::Write {
                                data: gamepad_stream(id, chunk(all, chunks as int)),
                                fault: Some(e),
                            },
                        ));
                    }
                    return Err(e);
                },
            }
            proof {
                lemma_stream_parts(id, all.take(from), all.subrange(from, idx as int));
                assert(all.take(from) + all.subrange(from, idx as int) =~= all.take(idx as int));
                assert(self@.wire =~= old(self)@.wire + gamepad_stream(id, all.take(idx as int)));
                assert(self@.calls =~= old(self)@.calls + chunk_writes(id, all, chunks + 1));
            }
            sent = sent + raw.len() as u64;
            chunks = chunks + 1;
        }
        assert(all.take(idx as int) =~= all);
        match self.transport.flush() {
            Ok(_) => {},
            Err(e) => {
                return Err(e);
            },
        }
        proof {
            assert(report_sized(all));
            lemma_gamepad_stream_len(id, all);
        }
        self.written = self.written + sent;
        self.flushes = self.flushes + chunks;
        self.restart_window();
        Ok(())
    }

    /// Buffers a batch, writing each time the limit is reached.
    fn spill(&mut self, id: u16, data: &[[u8; GAMEPAD_FRAME_BYTES]]) -> (r: Result<()>)
        requires
            old(self)@.written + old(self)@.pending.len() + data@.len() * GAMEPAD_MESSAGE_BYTES
                <= u64::MAX,
            old(self)@.flushes + data@.len() < u64::MAX,
        ensures
            match r {
                Ok(_) => final(self)@ == spilled(
                    old(self)@,
                    id,
                    payloads(data@),
                    data@.len() as int,
                    final(self)@.clock,
                ) && final(self).can_flush(),
                Err(e) => spill_broken(
                    old(self)@,
                    id,
                    payloads(data@),
                    final(self)@,
                    Err::<FlushReason, Error>(e),
                ),
            },
    {
        let ghost all = payloads(data@);
        let mut idx: usize = 0;
        while idx < data.len()
            invariant
                all == payloads(data@),
                idx <= data@.len(),
                self@ == spilled(old(self)@, id, all, idx as int, self@.clock),
                old(self)@.written + old(self)@.pending.len() + data@.len() * GAMEPAD_MESSAGE_BYTES
                    <= u64::MAX,
                old(self)@.flushes + data@.len() < u64::MAX,
                self@.written + self@.pending.len()
                    == old(self)@.written + old(self)@.pending.len() + idx * GAMEPAD_MESSAGE_BYTES,
                self@.flushes <= old(self)@.flushes + idx,
            decreases data@.len() - idx,
        {
            let ghost before = self@;
            push_gamepad_input_to_buf(&mut self.pending, id, &data[idx]);
            assert(data@[idx as int]@.len() == GAMEPAD_FRAME_BYTES);
            assert(all[idx as int] == data@[idx as int]@);
            let ghost full = before.buffered(gamepad_bytes(id, all[idx as int]));
            assert(self@ == full);
            if self.pending.len() >= self.hard_limit {
                match self.flush_now() {
                    Ok(_) => {},
                    Err(e) => {
                        assert(self@.clock == before.clock);
                        assert(spilled(old(self)@, id, all, idx as int, self@.clock) == before);
                        assert(full.broken(full.pending, e, self@));
                        return Err(e);
                    },
                }
                proof {
                    lemma_spill_clock(
                        old(self)@,
                        id,
                        all,
                        idx as int,
                        before.clock,
                        self@.clock,
                    );
                }
            }
            idx = idx + 1;
        }
        Ok(())
    }

    /// Buffers a whole batch.
    fn buffer_batch(&mut self, id: u16, data: &[[u8; GAMEPAD_FRAME_BYTES]])
        ensures
            final(self)@ == old(self)@.buffered(gamepad_stream(id, payloads(data@))),
    {
        let ghost all = payloads(data@);
        let mut idx: usize = 0;
        proof {
            assert(all.take(0) =~= Seq::<Seq<u8>>::empty());
            assert(self@.pending + gamepad_stream(id, all.take(0)) =~= self@.pending);
        }
        while idx < data.len()
            invariant
                all == payloads(data@),
                idx <= data@.len(),
                self@ == old(self)@.buffered(gamepad_stream(id, all.take(idx as int))),
            decreases data@.len() - idx,
        {
            push_gamepad_input_to_buf(&mut self.pending, id, &data[idx]);
            proof {
                let t = all.take(idx + 1);
                assert(t.drop_last() =~= all.take(idx as int));
                assert(t.last() == data@[idx as int]@);
                assert(self@.pending =~= old(self)@.pending + gamepad_stream(id, t));
            }
            idx = idx + 1;
        }
        assert(all.take(idx as int) =~= all);
    }

    /// Counts reports and sends or buffers them.
    fn stage_reports(&mut self, id: u16, data: &[[u8; GAMEPAD_FRAME_BYTES]]) -> (r: Result<Staged>)
        requires
            old(self)@.room(data@.len(), data@.len() * GAMEPAD_MESSAGE_BYTES as nat),
        ensures
            match r {
                Ok(staged) => {
                    &&& forall|e: Option<u128>, new: WriterView, q: Result<FlushReason>|
                        #[trigger]
                        staged.ends(final(self)@, e, new, q) ==> old(self)@.pushed_reports(
                            id,
                            payloads(data@),
                            e,
                            new,
                            q,
                        )
                    &&& staged is Open ==> final(self).can_flush()
                },
                Err(err) => forall|e: Option<u128>|
                    #[trigger]
                    old(self)@.pushed_reports(id, payloads(data@), e, final(self)@, Err(err)),
            },
    {
        if data.len() == 0 {
            return Ok(Staged::Done(FlushReason::Pending));
        }
        if data.len() == 1 {
            return self.stage_gamepad(id, &data[0]);
        }
        self.pushed = self.pushed + data.len() as u64;
        assert(self@ == old(self)@.counted(data@.len()));
        if self.direct {
            return match self.send_batch_direct(id, data) {
                Ok(_) => Ok(Staged::Done(FlushReason::Window)),
                Err(e) => Err(e),
            };
        }
        let below = self.pending.len() < self.hard_limit && data.len() <= (self.hard_limit
            - self.pending.len() - 1) / GAMEPAD_MESSAGE_BYTES;
        if below {
            self.buffer_batch(id, data);
            proof {
                assert(report_sized(payloads(data@)));
                lemma_gamepad_stream_len(id, payloads(data@));
            }
            return Ok(Staged::Open(FlushReason::Pending));
        }
        match self.spill(id, data) {
            Ok(_) => {
                proof {
                    let all = payloads(data@);
                    let counted = old(self)@.counted(all.len());
                    let n = all.len() as int;
                    assert forall|e: Option<u128>, new: WriterView, q: Result<FlushReason>|
                        #[trigger]
                        Staged::Open(FlushReason::Full).ends(self@, e, new, q) implies old(
                        self,
                    )@.pushed_reports(id, all, e, new, q) by {
                        lemma_spill_clock(counted, id, all, n, self@.clock, new.clock);
                    }
                }
                Ok(Staged::Open(FlushReason::Full))
            },
            Err(e) => Err(e),
        }
    }

    /// Pushes packed gamepad reports together, with a clock that shows
    /// `elapsed_ns` nanoseconds since the last write once all of them are staged.
    pub fn push_gamepad_input_batch_at(
        &mut self,
        id: u16,
        data: &[[u8; GAMEPAD_FRAME_BYTES]],
        elapsed_ns: u128,
    ) -> (r: Result<FlushReason>)
        requires
            old(self)@.room(data@.len(), data@.len() * GAMEPAD_MESSAGE_BYTES as nat),
        ensures
            old(self)@.pushed_reports(
                id,
                payloads(data@),
                Some(elapsed_ns),
                final(self)@,
                r,
            ),
    {
        match self.stage_reports(id, data) {
            Ok(staged) => self.settle(staged, Some(elapsed_ns)),
            Err(e) => Err(e),
        }
    }

    /// Pushes packed gamepad reports together. An empty batch does nothing and one
    /// report is pushed by itself. The clock is asked once, at the end.
    pub fn push_gamepad_input_batch(&mut self, id: u16, data: &[[u8; GAMEPAD_FRAME_BYTES]]) -> (r:
        Result<FlushReason>)
        requires
            old(self)@.room(data@.len(), data@.len() * GAMEPAD_MESSAGE_BYTES as nat),
        ensures
            old(self)@.pushed_reports(id, payloads(data@), None, final(self)@, r),
    {
        match self.stage_reports(id, data) {
            Ok(staged) => self.settle(staged, None),
            Err(e) => Err(e),
        }
    }

    /// Pushes gamepad frames together, as the batch of their packed reports, with
    /// the time since the last write given.
    pub fn push_gamepad_input_batch_from_fields_at(
        &mut self,
        id: u16,
        frames: &[GamepadFrameRaw],
        elapsed_ns: u128,
    ) -> (r: Result<FlushReason>)
        requires
            old(self)@.room(frames@.len(), frames@.len() * GAMEPAD_MESSAGE_BYTES as nat),
        ensures
            old(self)@.pushed_reports(
                id,
                reports(frames@),
                Some(elapsed_ns),
                final(self)@,
                r,
            ),
    {
        let data = pack_frames(frames);
        self.push_gamepad_input_batch_at(id, data.as_slice(), elapsed_ns)
    }

    /// Pushes gamepad frames together, as the batch of their packed reports.
    pub fn push_gamepad_input_batch_from_fields(
        &mut self,
        id: u16,
        frames: &[GamepadFrameRaw],
    ) -> (r: Result<FlushReason>)
        requires
            old(self)@.room(frames@.len(), frames@.len() * GAMEPAD_MESSAGE_BYTES as nat),
        ensures
            old(self)@.pushed_reports(id, reports(frames@), None, final(self)@, r),
    {
        let data = pack_frames(frames);
        self.push_gamepad_input_batch(id, data.as_slice())
    }

    /// Bytes that wait in the buffer.
    pub fn pending_bytes(&self) -> (n: usize)
        ensures
            n == self@.pending.len(),
    {
        self.pending.len()
    }

    /// Messages pushed.
    pub fn pushed(&self) -> (n: u64)
        ensures
            n == self@.pushed,
    {
        self.pushed
    }

    /// Bytes written.
    pub fn written(&self) -> (n: u64)
        ensures
            n == self@.written,
    {
        self.written
    }

    /// Writes made.
    pub fn flushes(&self) -> (n: u64)
        ensures
            n == self@.flushes,
    {
        self.flushes
    }

    /// Whether every message is written at once.
    pub fn is_direct(&self) -> (r: bool)
        ensures
            r == self@.direct,
    {
        self.direct
    }

    /// Writes the buffer out and gives the transport back.
    pub fn into_inner(self) -> (r: Result<T>)
        requires
            self@.written + self@.pending.len() <= u64::MAX,
            self@.flushes < u64::MAX,
        ensures
            match r {
                Ok(t) => {
                    &&& t.wire() == self@.written_out().wire
                    &&& t.calls() == self@.written_out().calls
                    &&& t.faults() == self@.faults
                },
                Err(e) => self@.pending.len() > 0 && self@.faults.contains(e),
            },
    {
        let mut w = self;
        match w.flush_now() {
            Ok(_) => Ok(w.transport),
            Err(e) => Err(e),
        }
    }
}

impl WriterView {
    /// What was given to the transport followed by what waits.
    pub open spec fn stream(self) -> Seq<u8> {
        written_data(self.calls) + self.pending
    }

    /// `new` follows from `self` by writes that succeeded, and `bytes` have joined
    /// the stream: neither dropped, doubled nor out of order. Every byte given to
    /// the transport and every write is counted.
    pub open spec fn extended(self, bytes: Seq<u8>, new: WriterView) -> bool {
        &&& new.wire + new.pending == self.wire + self.pending + bytes
        &&& new.stream() == self.stream() + bytes
        &&& new.written - self.written == new.wire.len() - self.wire.len()
        &&& new.flushes - self.flushes == write_count(new.calls) - write_count(self.calls)
    }
}

/// Writing past the buffer, where nothing waits, and buffering extend the stream.
proof fn lemma_sent_extends(w: WriterView, bytes: Seq<u8>, clock: Seq<ClockCall>)
    ensures
        w.pending.len() == 0 ==> w.extended(bytes, w.sent(bytes)),
        w.extended(bytes, w.buffered(bytes)),
        w.extended(Seq::empty(), w.flushed(clock)),
{
    let f = w.flushed(clock);
    lemma_write_and_flush(w.calls, bytes);
    lemma_write_and_flush(w.calls, w.pending);
    assert(w.wire + (w.pending + bytes) =~= w.wire + w.pending + bytes);
    assert(w.buffered(bytes).stream() =~= w.stream() + bytes);
    assert(f.wire + f.pending =~= w.wire + w.pending + Seq::<u8>::empty());
    assert(f.stream() =~= w.stream() + Seq::<u8>::empty());
    if w.pending.len() == 0 {
        let s = w.sent(bytes);
        assert(s.wire + s.pending =~= w.wire + w.pending + bytes);
        assert(s.stream() =~= w.stream() + bytes);
    }
}

/// One extension after the other.
proof fn lemma_extended_twice(
    w: WriterView,
    a: Seq<u8>,
    mid: WriterView,
    b: Seq<u8>,
    new: WriterView,
)
    requires
        w.extended(a, mid),
        mid.extended(b, new),
    ensures
        w.extended(a + b, new),
{
    assert(new.wire + new.pending =~= w.wire + w.pending + (a + b));
    assert(new.stream() =~= w.stream() + (a + b));
}

/// A non-critical message, or any message of a direct writer, extends the stream.
proof fn lemma_bytes_extend(
    w: WriterView,
    bytes: Seq<u8>,
    elapsed: Option<u128>,
    new: WriterView,
    reason: FlushReason,
)
    requires
        w.valid(),
        w.pushed_bytes(bytes, elapsed, new, Ok(reason)) || w.direct && new == w.counted(1).sent(
            bytes,
        ).restarted(new.clock),
    ensures
        w.extended(bytes, new),
        new.valid(),
        new.pushed == w.pushed + 1,
{
    let c = w.counted(1);
    let all = c.buffered(bytes);
    lemma_sent_extends(c, bytes, new.clock);
    if !w.direct {
        assert(bytes + Seq::<u8>::empty() =~= bytes);
        lemma_decided_extends(all, elapsed, new, FlushReason::Pending, reason);
        lemma_sent_extends(all, bytes, new.clock);
        lemma_extended_twice(c, bytes, all, Seq::empty(), new);
    }
}

/// What the window decides about staged bytes extends the stream by nothing.
proof fn lemma_decided_extends(
    w: WriterView,
    elapsed: Option<u128>,
    new: WriterView,
    otherwise: FlushReason,
    reason: FlushReason,
)
    ensures
        w.decided(otherwise, elapsed, new, Ok(reason)) ==> w.extended(Seq::empty(), new),
        new == w.flushed(new.clock) ==> w.extended(Seq::empty(), new),
{
    lemma_sent_extends(w, Seq::empty(), new.clock);
    lemma_sent_extends(w.asked(new.clock), Seq::empty(), new.clock);
    assert(w.wire + w.pending =~= w.wire + w.pending + Seq::<u8>::empty());
    assert(w.stream() =~= w.stream() + Seq::<u8>::empty());
}

/// A push that succeeds neither drops, doubles nor reorders a byte: what was
/// written followed by what waits grows by exactly the message.
#[verifier::spinoff_prover]
pub proof fn lemma_push_keeps_stream(
    w: WriterView,
    msg: ControlMessage,
    elapsed: Option<u128>,
    new: WriterView,
    reason: FlushReason,
)
    requires
        w.valid(),
        w.pushed_message(msg, elapsed, new, Ok(reason)),
    ensures
        w.extended(msg.bytes(), new),
        new.valid(),
        new.pushed == w.pushed + 1,
{
    if w.direct || !msg.critical() {
        lemma_bytes_extend(w, msg.bytes(), elapsed, new, reason);
    } else {
        let c = w.counted(1);
        let bytes = msg.bytes();
        let first = c.flushed(new.clock);
        lemma_sent_extends(c, bytes, new.clock);
        lemma_sent_extends(first, bytes, new.clock);
        lemma_extended_twice(c, Seq::empty(), first, bytes, new);
        assert(Seq::<u8>::empty() + bytes =~= bytes);
    }
}

/// After a push that succeeds the buffer is empty or below its limit, so it never
/// grows past the limit by more than one message.
pub proof fn lemma_push_bounds_buffer(
    w: WriterView,
    msg: ControlMessage,
    elapsed: Option<u128>,
    new: WriterView,
    reason: FlushReason,
)
    requires
        w.valid(),
        w.pushed_message(msg, elapsed, new, Ok(reason)),
    ensures
        new.pending.len() == 0 || new.pending.len() < new.hard_limit,
        reason != FlushReason::Pending ==> new.pending.len() == 0,
{
}

/// A push that writes starts the window anew, from a reading that the clock gave
/// during the push; one that does not lets it run on.
pub proof fn lemma_write_restarts_window(
    w: WriterView,
    msg: ControlMessage,
    elapsed: Option<u128>,
    new: WriterView,
    reason: FlushReason,
)
    requires
        w.pushed_message(msg, elapsed, new, Ok(reason)),
    ensures
        reason != FlushReason::Pending ==> new.clock.len() > w.clock.len() && new.clock.last()
            == ClockCall::Now(new.last_write),
        reason == FlushReason::Pending ==> new.last_write == w.last_write && (elapsed is None
            ==> new.clock == w.asked(new.clock).clock && nanos(
            new.clock,
            w.clock.len() as int,
        ) < w.window_ns),
{
}

/// A direct writer makes of each message one write and one flush of the transport,
/// and never waits.
pub proof fn lemma_direct_push_writes_once(
    w: WriterView,
    msg: ControlMessage,
    elapsed: Option<u128>,
    new: WriterView,
    reason: FlushReason,
)
    requires
        w.valid(),
        w.direct,
        w.pushed_message(msg, elapsed, new, Ok(reason)),
    ensures
        new.pending.len() == 0,
        new.calls == w.calls.push(wrote(msg.bytes())).push(pushed_out()),
        reason == if msg.critical() {
            FlushReason::Critical
        } else {
            FlushReason::Window
        },
{
}

/// A critical message that was accepted is on the wire, behind everything that
/// was pushed before it, and nothing waits.
pub proof fn lemma_critical_never_waits(
    w: WriterView,
    msg: ControlMessage,
    elapsed: Option<u128>,
    new: WriterView,
    reason: FlushReason,
)
    requires
        w.valid(),
        msg.critical(),
        w.pushed_message(msg, elapsed, new, Ok(reason)),
    ensures
        reason == FlushReason::Critical,
        new.pending.len() == 0,
        new.wire == w.wire + w.pending + msg.bytes(),
{
    assert(new.wire =~= w.wire + w.pending + msg.bytes());
}

/// A spilled batch extends the stream, leaves the buffer below its limit, and has
/// written if it ever reached the limit.
proof fn lemma_spill(
    w: WriterView,
    id: u16,
    data: Seq<Seq<u8>>,
    k: int,
    clock: Seq<ClockCall>,
)
    requires
        0 <= k <= data.len(),
        report_sized(data),
    ensures
        ({
            let s = spilled(w, id, data, k, clock);
            &&& w.extended(gamepad_stream(id, data.take(k)), s)
            &&& s.pushed == w.pushed
            &&& s.direct == w.direct
            &&& s.hard_limit == w.hard_limit
            &&& k > 0 ==> s.pending.len() == 0 || s.pending.len() < s.hard_limit
            &&& s.flushes >= w.flushes
            &&& s.flushes > w.flushes || s.pending.len() == w.pending.len() + k
                * GAMEPAD_MESSAGE_BYTES
        }),
    decreases k,
{
    let s = spilled(w, id, data, k, clock);
    if k == 0 {
        assert(data.take(0) =~= Seq::<Seq<u8>>::empty());
        assert(s.wire + s.pending =~= w.wire + w.pending + gamepad_stream(id, data.take(0)));
        assert(s.stream() =~= w.stream() + gamepad_stream(id, data.take(0)));
    } else {
        lemma_spill(w, id, data, k - 1, clock);
        let before = spilled(w, id, data, k - 1, clock);
        let bytes = gamepad_bytes(id, data[k - 1]);
        let next = before.buffered(bytes);
        assert(data[k - 1].len() == GAMEPAD_FRAME_BYTES);
        assert(bytes.len() == GAMEPAD_MESSAGE_BYTES);
        assert(data.take(k).drop_last() =~= data.take(k - 1));
        assert(data.take(k).last() == data[k - 1]);
        lemma_sent_extends(before, bytes, clock);
        lemma_sent_extends(next, bytes, clock);
        let stream = gamepad_stream(id, data.take(k - 1));
        lemma_extended_twice(w, stream, before, bytes, next);
        lemma_extended_twice(w, stream + bytes, next, Seq::empty(), next.flushed(clock));
        assert(stream + bytes + Seq::<u8>::empty() =~= stream + bytes);
    }
}

/// The writes of a batch carry its stream.
proof fn lemma_chunks_carry_stream(id: u16, data: Seq<Seq<u8>>, n: int)
    requires
        0 <= n <= chunk_count(data.len()),
    ensures
        write_count(chunk_writes(id, data, n)) == n,
        ({
            let to = if n * DIRECT_GAMEPAD_BATCH_FRAMES <= data.len() {
                n * DIRECT_GAMEPAD_BATCH_FRAMES
            } else {
                data.len() as int
            };
            written_data(chunk_writes(id, data, n)) == gamepad_stream(id, data.take(to))
        }),
    decreases n,
{
    let writes = chunk_writes(id, data, n);
    if n == 0 {
        assert(data.take(0) =~= Seq::<Seq<u8>>::empty());
    } else {
        lemma_chunks_carry_stream(id, data, n - 1);
        let from = (n - 1) * DIRECT_GAMEPAD_BATCH_FRAMES;
        let to = if n * DIRECT_GAMEPAD_BATCH_FRAMES <= data.len() {
            n * DIRECT_GAMEPAD_BATCH_FRAMES
        } else {
            data.len() as int
        };
        assert(writes.drop_last() =~= chunk_writes(id, data, n - 1));
        lemma_stream_parts(id, data.take(from), chunk(data, n - 1));
        assert(data.take(from) + chunk(data, n - 1) =~= data.take(to));
    }
}

/// A batch written past an empty buffer extends the stream.
#[verifier::spinoff_prover]
proof fn lemma_sent_batch_extends(w: WriterView, id: u16, data: Seq<Seq<u8>>)
    requires
        w.pending.len() == 0,
    ensures
        w.extended(gamepad_stream(id, data), w.sent_batch(id, data)),
{
    let n = chunk_count(data.len()) as int;
    let stream = gamepad_stream(id, data);
    let new = w.sent_batch(id, data);
    let writes = w.calls + chunk_writes(id, data, n);
    lemma_chunks_carry_stream(id, data, n);
    assert(data.take(data.len() as int) =~= data);
    lemma_more_calls(w.calls, chunk_writes(id, data, n));
    assert(n * DIRECT_GAMEPAD_BATCH_FRAMES >= data.len());
    assert(written_data(writes) == written_data(w.calls) + stream);
    assert(new.calls.drop_last() =~= writes);
    assert(new.calls.last() == pushed_out());
    assert(written_data(new.calls) == written_data(writes));
    assert(write_count(new.calls) == write_count(w.calls) + n);
    assert(new.wire + new.pending =~= w.wire + w.pending + stream);
    assert(new.stream() =~= w.stream() + stream);
}

/// A batch that succeeds puts exactly its reports, in order, behind what was
/// pushed before, however it was cut into writes.
pub proof fn lemma_batch_keeps_stream(
    w: WriterView,
    id: u16,
    data: Seq<Seq<u8>>,
    elapsed: Option<u128>,
    new: WriterView,
    reason: FlushReason,
)
    requires
        w.valid(),
        report_sized(data),
        w.pushed_reports(id, data, elapsed, new, Ok(reason)),
    ensures
        w.extended(gamepad_stream(id, data), new),
        new.valid(),
        new.pushed == w.pushed + data.len(),
{
    let c = w.counted(data.len());
    let stream = gamepad_stream(id, data);
    assert(stream + Seq::<u8>::empty() =~= stream);
    if data.len() == 0 {
        assert(w.wire + w.pending =~= w.wire + w.pending + stream);
        assert(w.stream() =~= w.stream() + stream);
    } else if data.len() == 1 {
        assert(data.drop_last() =~= Seq::<Seq<u8>>::empty());
        assert(gamepad_stream(id, data.drop_last()) =~= Seq::<u8>::empty());
        assert(stream =~= gamepad_bytes(id, data[0]));
        lemma_bytes_extend(w, stream, elapsed, new, reason);
    } else if w.direct {
        lemma_sent_batch_extends(c, id, data);
    } else if w.pending.len() + data.len() * GAMEPAD_MESSAGE_BYTES < w.hard_limit {
        let all = c.buffered(stream);
        lemma_sent_extends(c, stream, new.clock);
        lemma_decided_extends(all, elapsed, new, FlushReason::Pending, reason);
        lemma_extended_twice(c, stream, all, Seq::empty(), new);
    } else {
        let end = spilled(c, id, data, data.len() as int, new.clock);
        lemma_spill(c, id, data, data.len() as int, new.clock);
        assert(data.take(data.len() as int) =~= data);
        lemma_decided_extends(end, elapsed, new, FlushReason::Full, reason);
        lemma_extended_twice(c, stream, end, Seq::empty(), new);
    }
}

/// After a batch that succeeds the buffer is empty or below its limit. It waits
/// only where the whole batch stays below the limit, and a batch that reaches the
/// limit has written.
pub proof fn lemma_batch_bounds_buffer(
    w: WriterView,
    id: u16,
    data: Seq<Seq<u8>>,
    elapsed: Option<u128>,
    new: WriterView,
    reason: FlushReason,
)
    requires
        w.valid(),
        report_sized(data),
        data.len() > 0,
        w.pushed_reports(id, data, elapsed, new, Ok(reason)),
    ensures
        new.pending.len() == 0 || new.pending.len() < new.hard_limit,
        reason == FlushReason::Pending ==> w.pending.len() + data.len() * GAMEPAD_MESSAGE_BYTES
            < w.hard_limit,
        reason != FlushReason::Pending ==> new.flushes > w.flushes,
{
    lemma_gamepad_stream_len(id, data);
    lemma_spill(w.counted(data.len()), id, data, data.len() as int, new.clock);
}

/// As the calls of the transport show it, a batch has either ended with a flush
/// that succeeded, or made no call, or failed with the error of the last call.
proof fn lemma_calls_tell_outcome(
    w: WriterView,
    id: u16,
    data: Seq<Seq<u8>>,
    elapsed: Option<u128>,
    new: WriterView,
    r: Result<FlushReason>,
)
    requires
        w.pushed_reports(id, data, elapsed, new, r),
    ensures
        new.calls.len() >= w.calls.len(),
        match r {
            Ok(_) => new.calls.len() == w.calls.len() || new.calls.last() == pushed_out(),
            Err(e) => new.calls.len() > w.calls.len() && match new.calls.last() {
                TransportCall::Write { fault, .. } => fault == Some(e),
                TransportCall::Flush { fault } => fault == Some(e),
            },
        },
{
    let c = w.counted(data.len());
    assert forall|k: int| 0 <= k <= data.len() implies {
        let s = #[trigger] spilled(c, id, data, k, new.clock);
        &&& s.calls.len() >= w.calls.len()
        &&& s.calls.len() == w.calls.len() || s.calls.last() == pushed_out()
    } by {
        lemma_spill_calls(c, id, data, 0, k, new.clock);
    }
}

/// A spilled batch makes calls in pairs, and after report `k` two more than before
/// if that reached the limit.
proof fn lemma_spill_calls(
    w: WriterView,
    id: u16,
    data: Seq<Seq<u8>>,
    k: int,
    n: int,
    clock: Seq<ClockCall>,
)
    requires
        0 <= k <= n <= data.len(),
    ensures
        ({
            let a = spilled(w, id, data, k, clock);
            let b = spilled(w, id, data, n, clock);
            let full = a.buffered(gamepad_bytes(id, data[k]));
            &&& b.calls.len() >= a.calls.len()
            &&& b.calls == a.calls || b.calls.last() == pushed_out()
            &&& k < n && full.pending.len() >= full.hard_limit ==> b.calls.len() >= a.calls.len()
                + 2
        }),
    decreases n,
{
    if k < n {
        lemma_spill_calls(w, id, data, k, n - 1, clock);
    }
}

/// The answers of the clock and of the transport fix how a batch ends.
proof fn lemma_batch_outcome_is_unique(
    w: WriterView,
    id: u16,
    data: Seq<Seq<u8>>,
    elapsed: Option<u128>,
    new1: WriterView,
    r1: Result<FlushReason>,
    new2: WriterView,
    r2: Result<FlushReason>,
)
    requires
        w.pushed_reports(id, data, elapsed, new1, r1),
        w.pushed_reports(id, data, elapsed, new2, r2),
        new1.clock == new2.clock,
        new1.calls == new2.calls,
    ensures
        r1 == r2,
        new1 == (WriterView { wire: new1.wire, ..new2 }),
        r1 is Ok ==> new1 == new2,
{
    lemma_calls_tell_outcome(w, id, data, elapsed, new1, r1);
    lemma_calls_tell_outcome(w, id, data, elapsed, new2, r2);
    let c = w.counted(data.len());
    let n = data.len() as int;
    let limit = w.pending.len() + data.len() * GAMEPAD_MESSAGE_BYTES >= w.hard_limit;
    if n >= 2 && !w.direct && limit && r1 is Err && r2 is Err {
        assert forall|k1: int, k2: int| 0 <= k1 < k2 <= n implies {
            let a = #[trigger] spilled(c, id, data, k1, new1.clock);
            let b = #[trigger] spilled(c, id, data, k2, new1.clock);
            let full = a.buffered(gamepad_bytes(id, data[k1]));
            full.pending.len() >= full.hard_limit ==> b.calls.len() >= a.calls.len() + 2
        } by {
            lemma_spill_calls(c, id, data, k1, k2, new1.clock);
        }
    }
}

/// Frames pushed together and their packed reports pushed together do the same:
/// with the same answers of the clock and of the transport they make the same
/// calls, return the same result and leave the same state, but for how much of a
/// failed write has reached the wire.
pub proof fn lemma_batch_forms_agree(
    w: WriterView,
    id: u16,
    frames: Seq<GamepadFrameRaw>,
    packed: Seq<[u8; GAMEPAD_FRAME_BYTES]>,
    elapsed: Option<u128>,
    new1: WriterView,
    r1: Result<FlushReason>,
    new2: WriterView,
    r2: Result<FlushReason>,
)
    requires
        packed.len() == frames.len(),
        forall|i: int| 0 <= i < frames.len() ==> (#[trigger] packed[i])@ == report(frames[i]),
        w.pushed_reports(id, reports(frames), elapsed, new1, r1),
        w.pushed_reports(id, payloads(packed), elapsed, new2, r2),
    ensures
        reports(frames) == payloads(packed),
        new1.clock == new2.clock && r1 is Ok && r2 is Ok ==> r1 == r2 && new1 == new2,
        new1.clock == new2.clock && new1.calls == new2.calls ==> r1 == r2 && new1 == (WriterView {
            wire: new1.wire,
            ..new2
        }),
        new1.clock == new2.clock && w.reliable() ==> r1 is Ok && r1 == r2 && new1 == new2,
{
    assert(reports(frames) =~= payloads(packed));
    if new1.clock == new2.clock && new1.calls == new2.calls {
        lemma_batch_outcome_is_unique(w, id, reports(frames), elapsed, new1, r1, new2, r2);
    }
    if w.reliable() {
        lemma_reliable_batch_succeeds(w, id, reports(frames), elapsed, new1, r1);
        lemma_reliable_batch_succeeds(w, id, reports(frames), elapsed, new2, r2);
    }
}

proof fn lemma_spill_keeps_faults(
    w: WriterView,
    id: u16,
    data: Seq<Seq<u8>>,
    k: int,
    clock: Seq<ClockCall>,
)
    ensures
        spilled(w, id, data, k, clock).faults == w.faults,
    decreases k,
{
    if k > 0 {
        lemma_spill_keeps_faults(w, id, data, k - 1, clock);
    }
}

/// On a transport that never fails, a batch is never refused.
pub proof fn lemma_reliable_batch_succeeds(
    w: WriterView,
    id: u16,
    data: Seq<Seq<u8>>,
    elapsed: Option<u128>,
    new: WriterView,
    r: Result<FlushReason>,
)
    requires
        w.reliable(),
        w.pushed_reports(id, data, elapsed, new, r),
    ensures
        r is Ok,
        new.reliable(),
{
    let c = w.counted(data.len());
    assert forall|k: int| (#[trigger] spilled(c, id, data, k, new.clock)).faults == w.faults by {
        lemma_spill_keeps_faults(c, id, data, k, new.clock);
    }
}

/// On a transport that never fails, a message that has a wire form is never
/// refused.
pub proof fn lemma_reliable_push_succeeds(
    w: WriterView,
    msg: ControlMessage,
    elapsed: Option<u128>,
    new: WriterView,
    r: Result<FlushReason>,
)
    requires
        w.reliable(),
        msg.encodable(),
        w.pushed_message(msg, elapsed, new, r),
    ensures
        r is Ok,
        new.reliable(),
{
}

/// A step of a writer's use: what was called, with the time since the last write
/// where that was given, and what came back.
pub enum WriterStep {
    Push { msg: ControlMessage, elapsed: Option<u128>, reason: FlushReason },
    PushInput {
        id: u16,
        size: u16,
        data: Seq<u8>,
        elapsed: Option<u128>,
        reason: FlushReason,
    },
    PushReports { id: u16, reports: Seq<Seq<u8>>, elapsed: Option<u128>, reason: FlushReason },
    /// A message that is too large for its frame.
    RefusedPush { msg: ControlMessage, elapsed: Option<u128>, error: Error },
    /// An input report that is too large for its frame.
    RefusedInput { id: u16, size: u16, data: Seq<u8>, elapsed: Option<u128>, error: Error },
    Flush,
}

impl WriterStep {
    /// The step leads from `w` to `new`, and no call of the transport fails on the
    /// way.
    pub open spec fn leads(self, w: WriterView, new: WriterView) -> bool {
        match self {
            WriterStep::Push { msg, elapsed, reason } => w.pushed_message(
                msg,
                elapsed,
                new,
                Ok(reason),
            ),
            WriterStep::PushInput { id, size, data, elapsed, reason } => w.pushed_input(
                id,
                size,
                data,
                elapsed,
                new,
                Ok(reason),
            ),
            WriterStep::PushReports { id, reports: data, elapsed, reason } => report_sized(data)
                && w.pushed_reports(id, data, elapsed, new, Ok(reason)),
            WriterStep::RefusedPush { msg, elapsed, error } => !w.faults.contains(error)
                && w.pushed_message(msg, elapsed, new, Err(error)),
            WriterStep::RefusedInput { id, size, data, elapsed, error } => !w.faults.contains(error)
                && w.pushed_input(id, size, data, elapsed, new, Err(error)),
            WriterStep::Flush => new == w.flushed(new.clock),
        }
    }

    /// The bytes that the step pushes. A refused message brings none.
    pub open spec fn bytes(self) -> Seq<u8> {
        match self {
            WriterStep::Push { msg, .. } => msg.bytes(),
            WriterStep::PushInput { id, size, data, .. } => uhid_input_bytes(id, size as int, data),
            WriterStep::PushReports { id, reports: data, .. } => gamepad_stream(id, data),
            WriterStep::RefusedPush { .. } => Seq::empty(),
            WriterStep::RefusedInput { .. } => Seq::empty(),
            WriterStep::Flush => Seq::empty(),
        }
    }

    /// The messages that the step pushes, refused ones too.
    pub open spec fn messages(self) -> nat {
        match self {
            WriterStep::PushReports { reports: data, .. } => data.len(),
            WriterStep::Flush => 0,
            _ => 1,
        }
    }
}

/// The bytes that steps push, in order.
pub open spec fn pushed_stream(steps: Seq<WriterStep>) -> Seq<u8>
    decreases steps.len(),
{
    if steps.len() == 0 {
        Seq::empty()
    } else {
        pushed_stream(steps.drop_last()) + steps.last().bytes()
    }
}

/// The messages that steps push.
pub open spec fn pushed_messages(steps: Seq<WriterStep>) -> nat
    decreases steps.len(),
{
    if steps.len() == 0 {
        0
    } else {
        pushed_messages(steps.drop_last()) + steps.last().messages()
    }
}

/// Whether the steps lead through the states one after the other.
pub open spec fn is_run(states: Seq<WriterView>, steps: Seq<WriterStep>) -> bool {
    &&& states.len() == steps.len() + 1
    &&& forall|i: int|
        0 <= i < steps.len() ==> (#[trigger] steps[i]).leads(states[i], states[i + 1])
}

/// One step extends the stream by its bytes and counts its messages.
proof fn lemma_step_extends(w: WriterView, step: WriterStep, new: WriterView)
    requires
        w.valid(),
        step.leads(w, new),
    ensures
        w.extended(step.bytes(), new),
        new.valid(),
        new.pushed == w.pushed + step.messages(),
{
    let c = w.counted(1);
    lemma_sent_extends(w, Seq::empty(), new.clock);
    lemma_sent_extends(c, Seq::empty(), new.clock);
    assert(c.wire + c.pending =~= w.wire + w.pending + Seq::<u8>::empty());
    assert(c.stream() =~= w.stream() + Seq::<u8>::empty());
    match step {
        WriterStep::Push { msg, elapsed, reason } => {
            lemma_push_keeps_stream(w, msg, elapsed, new, reason);
        },
        WriterStep::PushInput { id, size, data, elapsed, reason } => {
            lemma_bytes_extend(w, step.bytes(), elapsed, new, reason);
        },
        WriterStep::PushReports { id, reports: data, elapsed, reason } => {
            lemma_batch_keeps_stream(w, id, data, elapsed, new, reason);
        },
        _ => {},
    }
}

/// Over any run of pushes, batches and flushes in which the transport does not
/// fail, what the transport was given followed by what waits is exactly what was
/// pushed, in order, every write of the transport is counted, and so is every
/// message, refused ones too.
pub proof fn lemma_run_keeps_stream(states: Seq<WriterView>, steps: Seq<WriterStep>)
    requires
        is_run(states, steps),
        states[0].valid(),
    ensures
        states[0].extended(pushed_stream(steps), states.last()),
        states.last().pushed == states[0].pushed + pushed_messages(steps),
        states.last().valid(),
    decreases steps.len(),
{
    let first = states[0];
    let last = states.last();
    if steps.len() == 0 {
        assert(last.wire + last.pending =~= first.wire + first.pending + pushed_stream(steps));
        assert(last.stream() =~= first.stream() + pushed_stream(steps));
    } else {
        let n = steps.len() as int - 1;
        assert(is_run(states.drop_last(), steps.drop_last())) by {
            assert forall|i: int| 0 <= i < n implies (#[trigger] steps.drop_last()[i]).leads(
                states.drop_last()[i],
                states.drop_last()[i + 1],
            ) by {
                assert(steps[i].leads(states[i], states[i + 1]));
            }
        }
        lemma_run_keeps_stream(states.drop_last(), steps.drop_last());
        let mid = states[n];
        assert(steps[n].leads(mid, last));
        lemma_step_extends(mid, steps[n], last);
        lemma_extended_twice(
            first,
            pushed_stream(steps.drop_last()),
            mid,
            steps[n].bytes(),
            last,
        );
    }
}

/// A gamepad report goes out as the input message with its device, fifteen bytes
/// and its contents: the device number stands behind the tag, the size behind the
/// device number.
pub proof fn lemma_report_is_input_message(id: u16, data: [u8; GAMEPAD_FRAME_BYTES])
    ensures
        ({
            let b = gamepad_bytes(id, data@);
            &&& b == ControlMessage::UhidInput(UhidInput { id, size: 15, data }).bytes()
            &&& b.len() == 20
            &&& b[0] == 13
            &&& b[1] * 256 + b[2] == id
            &&& b[3] * 256 + b[4] == 15
            &&& forall|k: int| 0 <= k < 15 ==> #[trigger] b[5 + k] == data@[k]
        }),
{
    let b = gamepad_bytes(id, data@);
    let m = ControlMessage::UhidInput(UhidInput { id, size: 15, data });
    lemma_message_reads_back(m);
    assert(b =~= m.bytes());
}

/// The input messages that carry gamepad reports.
pub open spec fn input_messages(id: u16, data: Seq<[u8; GAMEPAD_FRAME_BYTES]>) -> Seq<
    ControlMessage,
> {
    Seq::new(
        data.len(),
        |k: int| ControlMessage::UhidInput(UhidInput { id, size: 15, data: data[k] }),
    )
}

proof fn lemma_stream_push(ms: Seq<ControlMessage>, m: ControlMessage)
    ensures
        message_stream(ms.push(m)) == message_stream(ms) + m.bytes(),
    decreases ms.len(),
{
    let all = ms.push(m);
    if ms.len() == 0 {
        assert(all.drop_first() =~= Seq::<ControlMessage>::empty());
        assert(message_stream(all.drop_first()) =~= Seq::<u8>::empty());
        assert(message_stream(all) =~= message_stream(ms) + m.bytes());
    } else {
        lemma_stream_push(ms.drop_first(), m);
        assert(all.drop_first() =~= ms.drop_first().push(m));
        assert(message_stream(all) =~= message_stream(ms) + m.bytes());
    }
}

/// A batch of reports is, on the wire, one input message after the other: a scan
/// finds as many input messages as there are reports and nothing else.
pub proof fn lemma_batch_scans_as_inputs(id: u16, data: Seq<[u8; GAMEPAD_FRAME_BYTES]>)
    ensures
        gamepad_stream(id, payloads(data)) == message_stream(input_messages(id, data)),
        tags_from(gamepad_stream(id, payloads(data)), 0) == Seq::new(data.len(), |k: int| 13u8),
        uhid_inputs_from(gamepad_stream(id, payloads(data)), 0) == data.len(),
{
    let ms = input_messages(id, data);
    lemma_stream_is_inputs(id, data);
    let s = gamepad_stream(id, payloads(data));
    let none = Seq::<u8>::empty();
    assert(none + message_stream(ms) =~= message_stream(ms));
    assert forall|k: int| 0 <= k < ms.len() implies (#[trigger] ms[k]).encodable() by {}
    lemma_scan_recovers_tags(ms, none);
    assert forall|k: int| 0 <= k < ms.len() implies (#[trigger] ms[k]).bytes()[0] == 13 by {
        lemma_message_reads_back(ms[k]);
    }
    assert(tags_from(s, 0) =~= Seq::new(data.len(), |k: int| 13u8));
    lemma_inputs_are_counted(ms, none);
    lemma_all_inputs_count(ms);
}

/// Report `k` of a batch is the complete message of twenty bytes at byte `20 * k`. It
/// names the device, and its contents are the report.
pub proof fn lemma_batch_message_at(id: u16, data: Seq<[u8; GAMEPAD_FRAME_BYTES]>, k: int)
    requires
        0 <= k < data.len(),
    ensures
        ({
            let s = gamepad_stream(id, payloads(data));
            &&& s.len() == 20 * data.len()
            &&& message_len_at(s, 20 * k) == Some(20nat)
            &&& s[20 * k + 1] * 256 + s[20 * k + 2] == id
            &&& s.subrange(20 * k + 5, 20 * k + 20) == data[k]@
        }),
{
    let s = gamepad_stream(id, payloads(data));
    let all = payloads(data);
    let b = gamepad_bytes(id, data[k]@);
    lemma_report_is_input_message(id, data[k]);
    lemma_stream_parts(id, all.take(k + 1), all.skip(k + 1));
    assert(all.take(k + 1) + all.skip(k + 1) =~= all);
    assert(all.take(k + 1).drop_last() =~= all.take(k));
    assert(report_sized(all));
    assert(report_sized(all.take(k)));
    lemma_gamepad_stream_len(id, all);
    lemma_gamepad_stream_len(id, all.take(k));
    let pre = gamepad_stream(id, all.take(k));
    let post = gamepad_stream(id, all.skip(k + 1));
    assert(s =~= pre + b + post);
    lemma_scan_finds_message(
        ControlMessage::UhidInput(UhidInput { id, size: 15, data: data[k] }),
        pre,
        post,
    );
    assert(s[20 * k + 1] == b[1] && s[20 * k + 2] == b[2]);
    assert(s.subrange(20 * k + 5, 20 * k + 20) =~= data[k]@) by {
        assert forall|i: int| 0 <= i < 15 implies s.subrange(20 * k + 5, 20 * k + 20)[i]
            == data[k]@[i] by {
            assert(b[5 + i] == data[k]@[i]);
        }
    }
}

proof fn lemma_stream_is_inputs(id: u16, data: Seq<[u8; GAMEPAD_FRAME_BYTES]>)
    ensures
        gamepad_stream(id, payloads(data)) == message_stream(input_messages(id, data)),
    decreases data.len(),
{
    if data.len() == 0 {
        assert(gamepad_stream(id, payloads(data)) =~= message_stream(input_messages(id, data)));
    } else {
        let before = data.drop_last();
        lemma_stream_is_inputs(id, before);
        lemma_report_is_input_message(id, data.last());
        assert(payloads(data).drop_last() =~= payloads(before));
        let last = ControlMessage::UhidInput(UhidInput { id, size: 15, data: data.last() });
        assert(input_messages(id, data) =~= input_messages(id, before).push(last));
        lemma_stream_push(input_messages(id, before), last);
    }
}

proof fn lemma_all_inputs_count(ms: Seq<ControlMessage>)
    requires
        forall|k: int| 0 <= k < ms.len() ==> (#[trigger] ms[k]) is UhidInput,
    ensures
        input_count(ms) == ms.len(),
    decreases ms.len(),
{
    if ms.len() > 0 {
        let tail = ms.drop_first();
        assert forall|k: int| 0 <= k < tail.len() implies (#[trigger] tail[k]) is UhidInput by {
            assert(tail[k] == ms[k + 1]);
        }
        lemma_all_inputs_count(tail);
    }
}

/// What a buffered push of a message reports: it is written with the buffer as soon
/// as the two together reach the limit, otherwise if the given time is as long as the
/// window, and otherwise it waits.
pub proof fn lemma_reason_tells_what_happened(
    w: WriterView,
    msg: ControlMessage,
    elapsed_ns: u128,
    new: WriterView,
    reason: FlushReason,
)
    requires
        !w.direct,
        msg.bytes()[0] != 12,
        msg.bytes()[0] != 14,
        w.pushed_message(msg, Some(elapsed_ns), new, Ok(reason)),
    ensures
        ({
            let total = w.pending.len() + msg.bytes().len();
            &&& reason == FlushReason::Full <==> total >= w.hard_limit
            &&& reason == FlushReason::Window <==> total < w.hard_limit && elapsed_ns >= w.window_ns
            &&& reason == FlushReason::Pending <==> total < w.hard_limit && elapsed_ns < w.window_ns
            &&& reason == FlushReason::Pending ==> new.pending == w.pending + msg.bytes()
                && new.wire == w.wire
            &&& reason != FlushReason::Pending ==> new.pending.len() == 0 && new.wire == w.wire
                + w.pending + msg.bytes()
        }),
{
    lemma_critical_by_tag(msg);
    assert(msg.bytes().len() > 0);
    assert(w.wire + (w.pending + msg.bytes()) =~= w.wire + w.pending + msg.bytes());
}

/// A push that the transport fails loses nothing: a buffered message stays in the
/// buffer behind what was there, nothing counts as written, and the window runs on.
pub proof fn lemma_failed_push_loses_nothing(
    w: WriterView,
    msg: ControlMessage,
    elapsed_ns: u128,
    new: WriterView,
    e: Error,
)
    requires
        w.valid(),
        msg.encodable(),
        msg.bytes()[0] != 12,
        msg.bytes()[0] != 14,
        w.pushed_message(msg, Some(elapsed_ns), new, Err(e)),
    ensures
        w.faults.contains(e),
        new.pending == if w.direct {
            w.pending
        } else {
            w.pending + msg.bytes()
        },
        new.written == w.written,
        new.flushes == w.flushes,
        new.pushed == w.pushed + 1,
        new.last_write == w.last_write,
        new.hard_limit == w.hard_limit,
        new.window_ns == w.window_ns,
{
    lemma_critical_by_tag(msg);
}

/// A direct writer cuts a batch into writes of thirty-two reports, all full but the
/// last, which is not empty; each write is full messages of twenty bytes.
pub proof fn lemma_direct_batch_writes(id: u16, data: Seq<Seq<u8>>, k: int)
    requires
        report_sized(data),
        0 <= k < chunk_count(data.len()),
    ensures
        chunk_writes(id, data, chunk_count(data.len()) as int).len() == chunk_count(data.len()),
        32 * (chunk_count(data.len()) - 1) < data.len() <= 32 * chunk_count(data.len()),
        match chunk_writes(id, data, chunk_count(data.len()) as int)[k] {
            TransportCall::Write { data: bytes, fault } => {
                &&& fault is None
                &&& 0 < bytes.len() <= 640
                &&& k + 1 < chunk_count(data.len()) ==> bytes.len() == 640
                &&& bytes.len() % 20 == 0
                &&& bytes == gamepad_stream(id, data).subrange(640 * k, 640 * k + bytes.len())
            },
            TransportCall::Flush { .. } => false,
        },
{
    let piece = chunk(data, k);
    assert(report_sized(piece)) by {
        assert forall|i: int| 0 <= i < piece.len() implies (#[trigger] piece[i]).len()
            == GAMEPAD_FRAME_BYTES by {
            assert(piece[i] == data[32 * k + i]);
        }
    }
    lemma_gamepad_stream_len(id, piece);
    let from = 32 * k;
    let head = data.take(from);
    let tail = data.skip(from + piece.len());
    assert(report_sized(head));
    lemma_gamepad_stream_len(id, head);
    lemma_stream_parts(id, head, piece);
    lemma_stream_parts(id, head + piece, tail);
    assert(head + piece + tail =~= data);
    let bytes = gamepad_stream(id, piece);
    assert(bytes =~= gamepad_stream(id, data).subrange(640 * k, 640 * k + bytes.len()));
}

/// Reports and frames keep their number and order, and the report of a frame is its
/// packed form.
pub proof fn lemma_reports_in_order(
    frames: Seq<GamepadFrameRaw>,
    data: Seq<[u8; GAMEPAD_FRAME_BYTES]>,
    i: int,
)
    requires
        0 <= i < frames.len(),
        0 <= i < data.len(),
    ensures
        reports(frames).len() == frames.len(),
        payloads(data).len() == data.len(),
        payloads(data)[i] == data[i]@,
        reports(frames)[i][0] + 256 * reports(frames)[i][1] == frames[i].left_x + 32768,
        reports(frames)[i].len() == 15,
{
    lemma_report_reads_back(frames[i]);
    lemma_report_len(frames[i]);
}

/// A flush leaves nothing waiting. It makes one write and one flush of the transport
/// for all that waited, and no call where nothing did; it starts the window anew either
/// way.
pub proof fn lemma_flush_empties_buffer(w: WriterView, clock: Seq<ClockCall>)
    ensures
        ({
            let new = w.flushed(clock);
            &&& new.pending.len() == 0
            &&& new.wire == w.wire + w.pending
            &&& new.written == w.written + w.pending.len()
            &&& w.pending.len() > 0 ==> new.calls.len() == w.calls.len() + 2 && new.flushes
                == w.flushes + 1
            &&& w.pending.len() == 0 ==> new.calls == w.calls && new.flushes == w.flushes
            &&& new.pushed == w.pushed
            &&& new.clock.len() == w.clock.len() + 1
            &&& new.clock.last() == ClockCall::Now(new.last_write)
            &&& new.hard_limit == w.hard_limit && new.window_ns == w.window_ns && new.direct
                == w.direct
        }),
{
    assert(w.pending.len() == 0 ==> w.wire + w.pending =~= w.wire);
}

/// What a buffered push of two or more reports does. While they stay below the limit
/// together with what waits, they are written exactly if the given time is as long as
/// the window. Otherwise some of them are written at once, and what is left of them
/// goes by the same time.
pub proof fn lemma_batch_reason_tells_what_happened(
    w: WriterView,
    id: u16,
    data: Seq<Seq<u8>>,
    elapsed_ns: u128,
    new: WriterView,
    reason: FlushReason,
)
    requires
        !w.direct,
        data.len() >= 2,
        report_sized(data),
        w.pending.len() < w.hard_limit,
        w.pushed_reports(id, data, Some(elapsed_ns), new, Ok(reason)),
    ensures
        ({
            let total = w.pending.len() + 20 * data.len();
            &&& reason == FlushReason::Pending <==> total < w.hard_limit && elapsed_ns < w.window_ns
            &&& total < w.hard_limit && elapsed_ns >= w.window_ns ==> reason == FlushReason::Window
            &&& reason == FlushReason::Full ==> total >= w.hard_limit
            &&& total >= w.hard_limit ==> new.flushes > w.flushes
            &&& reason == FlushReason::Critical ==> false
            &&& reason == FlushReason::Pending ==> new.pending == w.pending + gamepad_stream(
                id,
                data,
            ) && new.wire == w.wire
            &&& reason == FlushReason::Window ==> new.pending.len() == 0
            &&& elapsed_ns >= w.window_ns ==> new.pending.len() == 0
            &&& new.pending.len() < w.hard_limit
            &&& new.pushed == w.pushed + data.len()
        }),
{
    lemma_gamepad_stream_len(id, data);
    let c = w.counted(data.len());
    lemma_spill(c, id, data, data.len() as int, new.clock);
    lemma_spill_keeps_window(c, id, data, data.len() as int, new.clock);
}

proof fn lemma_spill_keeps_window(
    w: WriterView,
    id: u16,
    data: Seq<Seq<u8>>,
    k: int,
    clock: Seq<ClockCall>,
)
    ensures
        spilled(w, id, data, k, clock).window_ns == w.window_ns,
    decreases k,
{
    if k > 0 {
        lemma_spill_keeps_window(w, id, data, k - 1, clock);
    }
}

/// No reports do nothing, and one report is the push of its message.
pub proof fn lemma_few_reports(
    w: WriterView,
    id: u16,
    data: [u8; GAMEPAD_FRAME_BYTES],
    size: u16,
    elapsed: Option<u128>,
    new: WriterView,
    r: Result<FlushReason>,
)
    requires
        size == 15,
    ensures
        w.pushed_reports(id, Seq::empty(), elapsed, new, r) ==> r == Ok::<FlushReason, Error>(
            FlushReason::Pending,
        ) && new == w,
        w.pushed_reports(id, seq![data@], elapsed, new, r) <==> w.pushed_input(
            id,
            size,
            data@,
            elapsed,
            new,
            r,
        ),
{
    lemma_report_is_input_message(id, data);
    assert(data@.take(15) =~= data@);
    assert(gamepad_bytes(id, data@) =~= uhid_input_bytes(id, 15, data@));
}

/// An input report is taken exactly if it fits its slot and its data; one that does not
/// is counted and changes nothing else.
pub proof fn lemma_oversized_input_is_refused(
    w: WriterView,
    id: u16,
    size: u16,
    data: Seq<u8>,
    elapsed: Option<u128>,
    new: WriterView,
    r: Result<FlushReason>,
)
    requires
        w.pushed_input(id, size, data, elapsed, new, r),
        size > HID_MAX_SIZE || size > data.len(),
    ensures
        r matches Err(Error::ControlMessageTooLarge { size: s, max }) && s == size && max
            == HID_MAX_SIZE + 5,
        new.pushed == w.pushed + 1,
        new.pending == w.pending && new.wire == w.wire && new.calls == w.calls && new.clock
            == w.clock && new.last_write == w.last_write,
{
}

/// A message without a wire form is counted and never written. A device creation or
/// removal without one still writes out what waits.
pub proof fn lemma_unencodable_message_is_refused(
    w: WriterView,
    msg: ControlMessage,
    elapsed: Option<u128>,
    new: WriterView,
    r: Result<FlushReason>,
)
    requires
        w.reliable(),
        !msg.encodable(),
        w.pushed_message(msg, elapsed, new, r),
    ensures
        r == Err::<FlushReason, Error>(msg.too_large()),
        new.pushed == w.pushed + 1,
        new.wire + new.pending == w.wire + w.pending,
        w.direct || !msg.critical() ==> new.pending == w.pending && new.calls == w.calls,
        !w.direct && msg.critical() ==> new.pending.len() == 0,
{
    assert(w.wire + w.pending + Seq::<u8>::empty() =~= w.wire + w.pending);
    assert(new.pending.len() == 0 ==> new.wire + new.pending =~= new.wire);
}

/// The counters have room exactly if none of them overflows: the messages, the bytes
/// that can be written, and one write for each message and one for the buffer.
pub proof fn lemma_room_for_counters(w: WriterView, n: nat, bytes: nat)
    ensures
        w.room(n, bytes) <==> w.pushed + n < 0x1_0000_0000_0000_0000 && w.written + w.pending.len()
            + bytes < 0x1_0000_0000_0000_0000 && w.flushes + n + 1 < 0x1_0000_0000_0000_0000,
        w.room(n + 1, bytes + 1) ==> w.room(n, bytes),
{
}

/// What new writers look like. A default one waits for 4096 bytes or a millisecond. One
/// with limits waits for them, and is direct exactly if both are zero. A direct one
/// buffers nothing. None has pushed or written anything, and the window runs from the
/// moment that the writer was made.
pub proof fn lemma_new_writers<T: TransportWrite>(
    t: T,
    window_ns: u64,
    hard_limit: usize,
    w: CoalescingWriter<T>,
)
    ensures
        call_ensures(CoalescingWriter::<T>::new, (t,), w) ==> w@.hard_limit == 4096 && w@.window_ns
            == 1_000_000 && !w@.direct,
        call_ensures(CoalescingWriter::<T>::direct, (t,), w) ==> w@.direct && w@.hard_limit == 0
            && w@.window_ns == 0,
        call_ensures(CoalescingWriter::<T>::with_limits, (t, window_ns, hard_limit), w)
            ==> w@.hard_limit == hard_limit && w@.window_ns == window_ns && (w@.direct
            <==> hard_limit == 0 && window_ns == 0),
        call_ensures(CoalescingWriter::<T>::new, (t,), w) || call_ensures(
            CoalescingWriter::<T>::direct,
            (t,),
            w,
        ) || call_ensures(CoalescingWriter::<T>::with_limits, (t, window_ns, hard_limit), w) ==> {
            &&& w@.wire == t.wire() && w@.calls == t.calls() && w@.faults == t.faults()
            &&& w@.pending.len() == 0 && w@.pushed == 0 && w@.written == 0 && w@.flushes == 0
            &&& w@.clock.len() == 1 && w@.clock[0] == ClockCall::Now(w@.last_write)
            &&& w@.valid()
        },
{
}

/// Every push that succeeds adds the bytes of what it pushes to the stream, behind all
/// that was pushed before: a message, an input report cut to its size, or gamepad
/// reports one by one.
pub proof fn lemma_pushes_add_their_bytes<T: TransportWrite>(
    w: &mut CoalescingWriter<T>,
    msg: &ControlMessage,
    id: u16,
    size: u16,
    data: &[u8],
    packed: &[u8; GAMEPAD_FRAME_BYTES],
    frame: &GamepadFrameRaw,
    ns: u128,
    r: Result<FlushReason>,
)
    requires
        old(w)@.valid(),
        r is Ok,
    ensures
        call_ensures(CoalescingWriter::<T>::push_at, (w, msg, ns), r) || call_ensures(
            CoalescingWriter::<T>::push,
            (w, msg),
            r,
        ) ==> old(w)@.extended(msg.bytes(), final(w)@),
        call_ensures(CoalescingWriter::<T>::push_uhid_input_at, (w, id, size, data, ns), r)
            || call_ensures(CoalescingWriter::<T>::push_uhid_input, (w, id, size, data), r)
            ==> old(w)@.extended(uhid_input_bytes(id, size as int, data@), final(w)@) && size
            <= data@.len(),
        call_ensures(CoalescingWriter::<T>::push_gamepad_input_at, (w, id, packed, ns), r)
            || call_ensures(CoalescingWriter::<T>::push_gamepad_input, (w, id, packed), r)
            ==> old(w)@.extended(uhid_input_bytes(id, 15, packed@), final(w)@),
        call_ensures(CoalescingWriter::<T>::push_gamepad_input_fields_at, (w, id, frame, ns), r)
            || call_ensures(CoalescingWriter::<T>::push_gamepad_input_fields, (w, id, frame), r)
            ==> old(w)@.extended(uhid_input_bytes(id, 15, report(*frame)), final(w)@),
{
    let reason = r->Ok_0;
    let old_w = old(w)@;
    let new = final(w)@;
    assert(packed@.take(15) =~= packed@);
    assert(gamepad_bytes(id, packed@) =~= uhid_input_bytes(id, 15, packed@));
    lemma_report_len(*frame);
    assert(report(*frame).take(15) =~= report(*frame));
    assert(gamepad_bytes(id, report(*frame)) =~= uhid_input_bytes(id, 15, report(*frame)));
    if old_w.pushed_message(*msg, Some(ns), new, r) {
        lemma_push_keeps_stream(old_w, *msg, Some(ns), new, reason);
    }
    if old_w.pushed_message(*msg, None, new, r) {
        lemma_push_keeps_stream(old_w, *msg, None, new, reason);
    }
    lemma_bytes_extend_if_pushed(
        old_w,
        uhid_input_bytes(id, size as int, data@),
        Some(ns),
        new,
        reason,
    );
    lemma_bytes_extend_if_pushed(
        old_w,
        uhid_input_bytes(id, size as int, data@),
        None,
        new,
        reason,
    );
    lemma_bytes_extend_if_pushed(old_w, gamepad_bytes(id, packed@), Some(ns), new, reason);
    lemma_bytes_extend_if_pushed(old_w, gamepad_bytes(id, packed@), None, new, reason);
    lemma_bytes_extend_if_pushed(old_w, gamepad_bytes(id, report(*frame)), Some(ns), new, reason);
    lemma_bytes_extend_if_pushed(old_w, gamepad_bytes(id, report(*frame)), None, new, reason);
}

proof fn lemma_bytes_extend_if_pushed(
    w: WriterView,
    bytes: Seq<u8>,
    elapsed: Option<u128>,
    new: WriterView,
    reason: FlushReason,
)
    requires
        w.valid(),
    ensures
        w.pushed_bytes(bytes, elapsed, new, Ok(reason)) ==> w.extended(bytes, new),
{
    if w.pushed_bytes(bytes, elapsed, new, Ok(reason)) {
        lemma_bytes_extend(w, bytes, elapsed, new, reason);
    }
}

/// A batch of reports that succeeds adds all of them to the stream, in order, whether it
/// is given packed or as frames.
pub proof fn lemma_batches_add_their_bytes<T: TransportWrite>(
    w: &mut CoalescingWriter<T>,
    id: u16,
    data: &[[u8; GAMEPAD_FRAME_BYTES]],
    frames: &[GamepadFrameRaw],
    ns: u128,
    r: Result<FlushReason>,
)
    requires
        old(w)@.valid(),
        r is Ok,
    ensures
        call_ensures(CoalescingWriter::<T>::push_gamepad_input_batch_at, (w, id, data, ns), r)
            || call_ensures(CoalescingWriter::<T>::push_gamepad_input_batch, (w, id, data), r)
            ==> old(w)@.extended(gamepad_stream(id, payloads(data@)), final(w)@)
            && final(w)@.pushed == old(w)@.pushed + data@.len(),
        call_ensures(
            CoalescingWriter::<T>::push_gamepad_input_batch_from_fields_at,
            (w, id, frames, ns),
            r,
        ) || call_ensures(
            CoalescingWriter::<T>::push_gamepad_input_batch_from_fields,
            (w, id, frames),
            r,
        ) ==> old(w)@.extended(gamepad_stream(id, reports(frames@)), final(w)@)
            && final(w)@.pushed == old(w)@.pushed + frames@.len(),
{
    let reason = r->Ok_0;
    assert(report_sized(payloads(data@)));
    assert(report_sized(reports(frames@))) by {
        assert forall|i: int| 0 <= i < reports(frames@).len() implies (#[trigger] reports(
            frames@,
        )[i]).len() == GAMEPAD_FRAME_BYTES by {
            lemma_report_len(frames@[i]);
        }
    }
    lemma_batch_extends_if_pushed(old(w)@, id, payloads(data@), Some(ns), final(w)@, reason);
    lemma_batch_extends_if_pushed(old(w)@, id, payloads(data@), None, final(w)@, reason);
    lemma_batch_extends_if_pushed(old(w)@, id, reports(frames@), Some(ns), final(w)@, reason);
    lemma_batch_extends_if_pushed(old(w)@, id, reports(frames@), None, final(w)@, reason);
}

proof fn lemma_batch_extends_if_pushed(
    w: WriterView,
    id: u16,
    data: Seq<Seq<u8>>,
    elapsed: Option<u128>,
    new: WriterView,
    reason: FlushReason,
)
    requires
        w.valid(),
        report_sized(data),
    ensures
        w.pushed_reports(id, data, elapsed, new, Ok(reason)) ==> w.extended(
            gamepad_stream(id, data),
            new,
        ) && new.pushed == w.pushed + data.len(),
{
    if w.pushed_reports(id, data, elapsed, new, Ok(reason)) {
        let step = WriterStep::PushReports { id, reports: data, elapsed, reason };
        lemma_step_extends(w, step, new);
    }
}

/// A flush tells how many bytes waited and leaves none. Taking the transport out of a
/// writer writes them first, so that the transport holds all that was pushed.
pub proof fn lemma_nothing_is_left_behind<T: TransportWrite>(
    w: &mut CoalescingWriter<T>,
    n: usize,
    done: CoalescingWriter<T>,
    t: T,
)
    ensures
        call_ensures(CoalescingWriter::<T>::flush_now, (w,), Ok(n)) ==> n == old(w)@.pending.len()
            && final(w)@.pending.len() == 0 && final(w)@.wire == old(w)@.wire + old(w)@.pending,
        call_ensures(CoalescingWriter::<T>::into_inner, (done,), Ok(t)) ==> t.wire()
            == done@.wire + done@.pending && written_data(t.calls()) == done@.stream(),
{
    let old_w = old(w)@;
    lemma_flush_empties_buffer(old_w, final(w)@.clock);
    lemma_write_and_flush(done@.calls, done@.pending);
    assert(done@.pending.len() == 0 ==> done@.wire + done@.pending =~= done@.wire);
    assert(done@.pending.len() == 0 ==> done@.stream() =~= written_data(done@.calls));
}

/// What a writer tells of itself is what it has counted.
pub proof fn lemma_writer_tells_counts<T: TransportWrite>(
    w: &CoalescingWriter<T>,
    n: usize,
    m: u64,
    b: bool,
)
    ensures
        call_ensures(CoalescingWriter::<T>::pending_bytes, (w,), n) ==> n == w@.pending.len(),
        call_ensures(CoalescingWriter::<T>::pushed, (w,), m) ==> m == w@.pushed,
        call_ensures(CoalescingWriter::<T>::written, (w,), m) ==> m == w@.written,
        call_ensures(CoalescingWriter::<T>::flushes, (w,), m) ==> m == w@.flushes,
        call_ensures(CoalescingWriter::<T>::is_direct, (w,), b) ==> b == w@.direct,
{
}

proof fn lemma_spill_restarts_window(
    w: WriterView,
    id: u16,
    data: Seq<Seq<u8>>,
    k: int,
    clock: Seq<ClockCall>,
)
    ensures
        ({
            let s = spilled(w, id, data, k, clock);
            ||| s.last_write == w.last_write && s.clock == w.clock && s.calls == w.calls
            ||| s.clock.len() > w.clock.len() && s.clock.last() == ClockCall::Now(s.last_write)
        }),
    decreases k,
{
    if k > 0 {
        lemma_spill_restarts_window(w, id, data, k - 1, clock);
    }
}

/// Reports that a direct writer sends start the window anew, from the one reading that
/// the clock gives. A buffered writer starts it anew where it writes, and lets it run on
/// where it does not.
pub proof fn lemma_batch_write_restarts_window(
    w: WriterView,
    id: u16,
    data: Seq<Seq<u8>>,
    elapsed: Option<u128>,
    new: WriterView,
    reason: FlushReason,
)
    requires
        w.pushed_reports(id, data, elapsed, new, Ok(reason)),
        data.len() > 0,
    ensures
        w.direct ==> new.clock == w.clock.push(ClockCall::Now(new.last_write)),
        reason == FlushReason::Window ==> new.clock.len() > w.clock.len() && new.clock.last()
            == ClockCall::Now(new.last_write),
        reason == FlushReason::Pending ==> new.last_write == w.last_write && new.calls == w.calls,
        reason == FlushReason::Full && elapsed is Some && new.calls != w.calls ==> new.clock.len()
            > w.clock.len() && new.clock.last() == ClockCall::Now(new.last_write),
        reason == FlushReason::Full && elapsed is None && data.len() > 1 ==> new.clock.last() == (
        ClockCall::Elapsed { since: new.last_write, ns: nanos(new.clock, new.clock.len() - 1) }),
{
    if !w.direct && data.len() > 1 {
        lemma_spill_restarts_window(
            w.counted(data.len()),
            id,
            data,
            data.len() as int,
            new.clock,
        );
    }
}

/// The same of an input report of any size.
pub proof fn lemma_input_write_restarts_window(
    w: WriterView,
    id: u16,
    size: u16,
    data: Seq<u8>,
    elapsed: Option<u128>,
    new: WriterView,
    reason: FlushReason,
)
    requires
        w.pushed_input(id, size, data, elapsed, new, Ok(reason)),
    ensures
        w.direct ==> new.clock == w.clock.push(ClockCall::Now(new.last_write)),
        reason != FlushReason::Pending ==> new.clock.len() > w.clock.len() && new.clock.last()
            == ClockCall::Now(new.last_write),
        reason == FlushReason::Pending ==> new.last_write == w.last_write && new.calls == w.calls,
{
}

/// A direct batch that fails has made its writes in order up to the one that failed, 32
/// reports to a write, and no call behind it. The last call is the one that carries the
/// error, and nothing of the batch is counted as written.
pub proof fn lemma_failed_direct_batch(
    w: WriterView,
    id: u16,
    data: Seq<Seq<u8>>,
    elapsed: Option<u128>,
    new: WriterView,
    e: Error,
    j: int,
)
    requires
        w.direct,
        data.len() > 1,
        w.pushed_reports(id, data, elapsed, new, Err(e)),
    ensures
        ({
            let n = w.calls.len() as int;
            let k = new.calls.len() - n - 1;
            let upto = |i: int| if 32 * i + 32 <= data.len() { 32 * i + 32 } else { data.len() as int };
            &&& k >= 0
            &&& new.calls.take(n) == w.calls
            &&& 0 <= j < k ==> new.calls[n + j] == (TransportCall::Write {
                data: gamepad_stream(id, data.subrange(32 * j, upto(j))),
                fault: None,
            })
            &&& new.calls.last() == (TransportCall::Flush { fault: Some(e) }) ==> 32 * k
                >= data.len() && 32 * (k - 1) < data.len()
            &&& new.calls.last() != (TransportCall::Flush { fault: Some(e) }) ==> 32 * k
                < data.len() && new.calls.last() == (TransportCall::Write {
                data: gamepad_stream(id, data.subrange(32 * k, upto(k))),
                fault: Some(e),
            })
        }),
        new.written == w.written && new.flushes == w.flushes && new.pending == w.pending,
        new.pushed == w.pushed + data.len(),
        new.last_write == w.last_write && new.clock == w.clock,
        w.faults.contains(e),
{
    let n = w.calls.len() as int;
    let m = chunk_count(data.len()) as int;
    let counted = w.counted(data.len());
    assert(counted.broken_batch(id, data, e, new));
    let whole = (w.calls + chunk_writes(id, data, m)).push(TransportCall::Flush { fault: Some(e) });
    if new.calls == whole {
        assert(new.calls.take(n) =~= w.calls);
        if 0 <= j < m {
            assert(new.calls[n + j] == chunk_writes(id, data, m)[j]);
        }
    } else {
        let k = choose|k: int|
            0 <= k < m && new.calls == (w.calls + #[trigger] chunk_writes(id, data, k)).push(
                TransportCall::Write { data: gamepad_stream(id, chunk(data, k)), fault: Some(e) },
            );
        assert(new.calls.take(n) =~= w.calls);
        if 0 <= j < k {
            assert(new.calls[n + j] == chunk_writes(id, data, k)[j]);
        }
    }
}

/// Whether a buffered writer that got `n` more bytes wrote for the right reason: at its
/// limit because it was full, and below it exactly if the window had passed after `ns`.
pub open spec fn wrote_in_time(w: WriterView, n: nat, ns: u128, r: Result<FlushReason>) -> bool {
    &&& w.pending.len() + n >= w.hard_limit ==> r == Ok::<FlushReason, Error>(FlushReason::Full)
    &&& w.pending.len() + n < w.hard_limit && ns >= w.window_ns ==> r
        == Ok::<FlushReason, Error>(FlushReason::Window)
    &&& w.pending.len() + n < w.hard_limit && ns < w.window_ns ==> r
        == Ok::<FlushReason, Error>(FlushReason::Pending)
}

/// The time that the clock told of the window during a push, where it was asked.
pub open spec fn told(w: WriterView, new: WriterView) -> u128 {
    match new.clock[w.clock.len() as int] {
        ClockCall::Elapsed { ns, .. } => ns,
        ClockCall::Now(_) => 0,
    }
}

/// Every push of a buffered writer goes by the time that it is given, or by the one that
/// the clock tells where none is given.
pub proof fn lemma_pushes_go_by_their_time<T: TransportWrite>(
    w: &mut CoalescingWriter<T>,
    msg: &ControlMessage,
    id: u16,
    size: u16,
    data: &[u8],
    packed: &[u8; GAMEPAD_FRAME_BYTES],
    frame: &GamepadFrameRaw,
    ns: u128,
    r: Result<FlushReason>,
)
    requires
        !old(w)@.direct,
        r is Ok,
    ensures
        call_ensures(CoalescingWriter::<T>::push_at, (w, msg, ns), r) && !msg.critical()
            ==> wrote_in_time(old(w)@, msg.bytes().len(), ns, r),
        call_ensures(CoalescingWriter::<T>::push_uhid_input_at, (w, id, size, data, ns), r)
            ==> wrote_in_time(old(w)@, (5 + size) as nat, ns, r),
        call_ensures(CoalescingWriter::<T>::push_gamepad_input_at, (w, id, packed, ns), r)
            ==> wrote_in_time(old(w)@, 20, ns, r),
        call_ensures(CoalescingWriter::<T>::push_gamepad_input_fields_at, (w, id, frame, ns), r)
            ==> wrote_in_time(old(w)@, 20, ns, r),
        call_ensures(CoalescingWriter::<T>::push, (w, msg), r) && !msg.critical() ==> wrote_in_time(
            old(w)@,
            msg.bytes().len(),
            told(old(w)@, final(w)@),
            r,
        ),
        call_ensures(CoalescingWriter::<T>::push_uhid_input, (w, id, size, data), r)
            ==> wrote_in_time(old(w)@, (5 + size) as nat, told(old(w)@, final(w)@), r),
        call_ensures(CoalescingWriter::<T>::push_gamepad_input, (w, id, packed), r)
            ==> wrote_in_time(old(w)@, 20, told(old(w)@, final(w)@), r),
        call_ensures(CoalescingWriter::<T>::push_gamepad_input_fields, (w, id, frame), r)
            ==> wrote_in_time(old(w)@, 20, told(old(w)@, final(w)@), r),
        (call_ensures(CoalescingWriter::<T>::push_at, (w, msg, ns), r) || call_ensures(
            CoalescingWriter::<T>::push,
            (w, msg),
            r,
        )) && msg.critical() ==> r == Ok::<FlushReason, Error>(FlushReason::Critical),
{
    lemma_report_len(*frame);
    assert(gamepad_bytes(id, packed@).len() == 20);
    assert(gamepad_bytes(id, report(*frame)).len() == 20);
    if size <= data@.len() {
        assert(uhid_input_bytes(id, size as int, data@).len() == 5 + size);
    }
    if msg.encodable() {
        lemma_scan_finds_message(*msg, Seq::empty(), Seq::empty());
    }
}

/// So does every batch of two reports or more that stays below the limit.
pub proof fn lemma_batches_go_by_their_time<T: TransportWrite>(
    w: &mut CoalescingWriter<T>,
    id: u16,
    data: &[[u8; GAMEPAD_FRAME_BYTES]],
    frames: &[GamepadFrameRaw],
    ns: u128,
    r: Result<FlushReason>,
)
    requires
        !old(w)@.direct,
        r is Ok,
    ensures
        data@.len() > 1 && old(w)@.pending.len() + 20 * data@.len() < old(w)@.hard_limit ==> {
            &&& call_ensures(
                CoalescingWriter::<T>::push_gamepad_input_batch_at,
                (w, id, data, ns),
                r,
            ) ==> wrote_in_time(old(w)@, 20 * data@.len(), ns, r)
            &&& call_ensures(CoalescingWriter::<T>::push_gamepad_input_batch, (w, id, data), r)
                ==> wrote_in_time(old(w)@, 20 * data@.len(), told(old(w)@, final(w)@), r)
        },
        frames@.len() > 1 && old(w)@.pending.len() + 20 * frames@.len() < old(w)@.hard_limit ==> {
            &&& call_ensures(
                CoalescingWriter::<T>::push_gamepad_input_batch_from_fields_at,
                (w, id, frames, ns),
                r,
            ) ==> wrote_in_time(old(w)@, 20 * frames@.len(), ns, r)
            &&& call_ensures(
                CoalescingWriter::<T>::push_gamepad_input_batch_from_fields,
                (w, id, frames),
                r,
            ) ==> wrote_in_time(old(w)@, 20 * frames@.len(), told(old(w)@, final(w)@), r)
        },
{
    assert(report_sized(payloads(data@)));
    assert(report_sized(reports(frames@))) by {
        assert forall|i: int| 0 <= i < reports(frames@).len() implies (#[trigger] reports(
            frames@,
        )[i]).len() == GAMEPAD_FRAME_BYTES by {
            lemma_report_len(frames@[i]);
        }
    }
    lemma_gamepad_stream_len(id, payloads(data@));
    lemma_gamepad_stream_len(id, reports(frames@));
}

/// A failed flush leaves the bytes where they were; it fails only with an error of the
/// transport, and only where there was something to write. So does taking the transport
/// out.
pub proof fn lemma_failed_flush<T: TransportWrite>(
    w: &mut CoalescingWriter<T>,
    done: CoalescingWriter<T>,
    e: Error,
)
    ensures
        call_ensures(CoalescingWriter::<T>::flush_now, (w,), Err(e)) ==> old(w)@.pending.len() > 0
            && final(w)@.pending == old(w)@.pending && old(w)@.faults.contains(e) && final(
            w)@.written == old(w)@.written && final(w)@.flushes == old(w)@.flushes && final(
            w)@.last_write == old(w)@.last_write,
        call_ensures(CoalescingWriter::<T>::into_inner, (done,), Err(e)) ==> done@.pending.len() > 0
            && done@.faults.contains(e),
{
}

} // verus!
