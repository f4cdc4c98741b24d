//! The newest frame of a stream, and how readers wait for it.
//!
//! A pump keeps only the newest frame summary under a version that grows with
//! every frame. A reader remembers a version as a boundary and asks for what came
//! behind it.
use vstd::prelude::*;

use crate::ai::{FrameSummary, FrameView};
use crate::device::{DeviceEvent, EventView};

verus! {

/// A frame and the version under which it was published.
#[derive(Debug, PartialEq)]
pub struct LatestFrameSummarySnapshot {
    pub version: u64,
    pub summary: FrameSummary,
}

/// The contents of a [`LatestFrameSummarySnapshot`].
#[verifier::ext_equal]
pub struct SnapshotView {
    pub version: u64,
    pub summary: FrameView,
}

impl View for LatestFrameSummarySnapshot {
    type V = SnapshotView;

    open spec fn view(&self) -> SnapshotView {
        SnapshotView { version: self.version, summary: self.summary@ }
    }
}

impl Clone for LatestFrameSummarySnapshot {
    fn clone(&self) -> (r: LatestFrameSummarySnapshot)
        ensures
            r@ == self@,
    {
        LatestFrameSummarySnapshot { version: self.version, summary: self.summary.clone() }
    }
}

impl LatestFrameSummarySnapshot {
    /// The boundary behind this frame.
    pub fn boundary(&self) -> (b: LatestFrameSummaryBoundary)
        ensures
            b.version == self.version,
    {
        LatestFrameSummaryBoundary { version: self.version }
    }

    /// Whether the frame was published after `version`.
    pub fn is_after_version(&self, version: u64) -> (r: bool)
        ensures
            r == (self.version > version),
    {
        self.version > version
    }

    /// Whether the frame's own number is above `frame_seq`.
    pub fn is_after_frame_seq(&self, frame_seq: u32) -> (r: bool)
        ensures
            r == (self.summary.frame_seq > frame_seq),
    {
        self.summary.frame_seq > frame_seq
    }

    /// Whether the frame was taken after `timestamp_ms`.
    pub fn is_after_timestamp(&self, timestamp_ms: u64) -> (r: bool)
        ensures
            r == (self.summary.timestamp_ms > timestamp_ms),
    {
        self.summary.timestamp_ms > timestamp_ms
    }
}

/// A point in the sequence of published frames.
#[derive(Debug, Clone, Copy, PartialEq, Eq, Structural)]
pub struct LatestFrameSummaryBoundary {
    pub version: u64,
}

impl LatestFrameSummaryBoundary {
    pub fn new(version: u64) -> (b: LatestFrameSummaryBoundary)
        ensures
            b.version == version,
    {
        LatestFrameSummaryBoundary { version }
    }

    pub fn version(&self) -> (v: u64)
        ensures
            v == self.version,
    {
        self.version
    }

    /// The boundary behind a frame.
    pub fn from_snapshot(snapshot: &LatestFrameSummarySnapshot) -> (b: LatestFrameSummaryBoundary)
        ensures
            b.version == snapshot.version,
    {
        snapshot.boundary()
    }

    /// Whether a frame was published after the boundary.
    pub fn accepts(&self, snapshot: &LatestFrameSummarySnapshot) -> (r: bool)
        ensures
            r == (snapshot.version > self.version),
    {
        snapshot.version > self.version
    }
}

/// A boundary together with the newest frame at that point.
#[derive(Debug, PartialEq)]
pub struct LatestFrameSummaryObservation {
    pub boundary: LatestFrameSummaryBoundary,
    pub snapshot: Option<LatestFrameSummarySnapshot>,
}

impl LatestFrameSummaryObservation {
    pub fn from_parts(
        boundary: LatestFrameSummaryBoundary,
        snapshot: Option<LatestFrameSummarySnapshot>,
    ) -> (o: LatestFrameSummaryObservation)
        ensures
            o.boundary == boundary,
            o.snapshot == snapshot,
    {
        LatestFrameSummaryObservation { boundary, snapshot }
    }

    /// An observation of a frame, at the boundary behind it.
    pub fn from_snapshot(snapshot: LatestFrameSummarySnapshot) -> (o:
        LatestFrameSummaryObservation)
        ensures
            o.boundary.version == snapshot.version,
            o.snapshot == Some(snapshot),
    {
        let boundary = snapshot.boundary();
        LatestFrameSummaryObservation { boundary, snapshot: Some(snapshot) }
    }

    /// An observation of a version alone.
    pub fn at_version(version: u64) -> (o: LatestFrameSummaryObservation)
        ensures
            o.boundary.version == version,
            o.snapshot is None,
    {
        LatestFrameSummaryObservation {
            boundary: LatestFrameSummaryBoundary { version },
            snapshot: None,
        }
    }

    /// An observation of a boundary alone.
    pub fn at_boundary(boundary: LatestFrameSummaryBoundary) -> (o: LatestFrameSummaryObservation)
        ensures
            o.boundary == boundary,
            o.snapshot is None,
    {
        LatestFrameSummaryObservation { boundary, snapshot: None }
    }

    pub fn boundary(&self) -> (b: LatestFrameSummaryBoundary)
        ensures
            b == self.boundary,
    {
        self.boundary
    }

    pub fn boundary_version(&self) -> (v: u64)
        ensures
            v == self.boundary.version,
    {
        self.boundary.version
    }

    pub fn has_snapshot(&self) -> (r: bool)
        ensures
            r == (self.snapshot is Some),
    {
        self.snapshot.is_some()
    }

    pub fn snapshot(&self) -> (r: Option<&LatestFrameSummarySnapshot>)
        ensures
            match self.snapshot {
                Some(s) => r == Some(&s),
                None => r is None,
            },
    {
        self.snapshot.as_ref()
    }

    pub fn into_snapshot(self) -> (r: Option<LatestFrameSummarySnapshot>)
        ensures
            r == self.snapshot,
    {
        self.snapshot
    }

    pub fn summary(&self) -> (r: Option<&FrameSummary>)
        ensures
            match self.snapshot {
                Some(s) => r == Some(&s.summary),
                None => r is None,
            },
    {
        match &self.snapshot {
            Some(s) => Some(&s.summary),
            None => None,
        }
    }

    /// Whether a frame was published after the observation.
    pub fn accepts(&self, snapshot: &LatestFrameSummarySnapshot) -> (r: bool)
        ensures
            r == (snapshot.version > self.boundary.version),
    {
        self.boundary.accepts(snapshot)
    }
}

/// What a pump has published: the newest frame, and the error that ended it.
#[derive(Debug)]
pub struct AsyncLatestFrameSummaryState<E> {
    pub latest: Option<LatestFrameSummarySnapshot>,
    pub version: u64,
    pub terminal_error: Option<E>,
}

/// The contents of an [`AsyncLatestFrameSummaryState`].
pub struct LatestView<E> {
    pub latest: Option<SnapshotView>,
    pub version: u64,
    pub terminal_error: Option<E>,
}

/// The contents of an optional frame.
pub open spec fn snapshot_view(s: Option<LatestFrameSummarySnapshot>) -> Option<SnapshotView> {
    match s {
        Some(snapshot) => Some(snapshot@),
        None => None,
    }
}

impl<E> View for AsyncLatestFrameSummaryState<E> {
    type V = LatestView<E>;

    open spec fn view(&self) -> LatestView<E> {
        LatestView {
            latest: snapshot_view(self.latest),
            version: self.version,
            terminal_error: self.terminal_error,
        }
    }
}

/// The version of the next frame.
pub open spec fn next_version(version: u64) -> u64 {
    if version == u64::MAX {
        u64::MAX
    } else {
        (version + 1) as u64
    }
}

impl<E> LatestView<E> {
    /// Before the first frame.
    pub open spec fn start() -> LatestView<E> {
        LatestView { latest: None, version: 0, terminal_error: None }
    }

    /// Whether the newest frame carries the current version.
    pub open spec fn valid(self) -> bool {
        match self.latest {
            Some(s) => s.version == self.version && s.version > 0,
            None => self.version == 0,
        }
    }

    /// After an event: a frame replaces the newest one, and anything else is
    /// passed over.
    pub open spec fn after(self, event: EventView) -> LatestView<E> {
        match event {
            EventView::FrameSummary(summary) => LatestView {
                latest: Some(SnapshotView { version: next_version(self.version), summary }),
                version: next_version(self.version),
                ..self
            },
            _ => self,
        }
    }

    /// The newest frame, if it is newer than `version`.
    pub open spec fn newer_than(self, version: u64) -> Option<SnapshotView> {
        if self.version > version {
            self.latest
        } else {
            None
        }
    }

    /// After a sequence of events.
    pub open spec fn after_all(self, events: Seq<EventView>) -> LatestView<E>
        decreases events.len(),
    {
        if events.len() == 0 {
            self
        } else {
            self.after_all(events.drop_last()).after(events.last())
        }
    }
}

/// What a pump does after a read.
#[derive(Debug, Clone, Copy, PartialEq, Eq, Structural)]
pub enum DrainStep {
    /// Publish the state and read on.
    Publish,
    /// Read on.
    Skip,
    /// Publish the state and stop.
    Stop,
}

/// What a waiting reader does.
#[derive(Debug)]
pub enum WaitStep<'a, E> {
    /// Return the frame.
    Ready(LatestFrameSummarySnapshot),
    /// Return the error that ended the pump.
    Failed(&'a E),
    /// Wait for a change.
    Wait,
}

impl<E> AsyncLatestFrameSummaryState<E> {
    /// Before the first frame.
    pub fn new() -> (s: AsyncLatestFrameSummaryState<E>)
        ensures
            s@ == LatestView::<E>::start(),
    {
        AsyncLatestFrameSummaryState { latest: None, version: 0, terminal_error: None }
    }

    /// Takes an event, and says whether it changed what is published.
    pub fn record(&mut self, event: DeviceEvent) -> (published: bool)
        ensures
            final(self)@ == old(self)@.after(event@),
            published == (event@ is FrameSummary),
    {
        match event {
            DeviceEvent::FrameSummary(summary) => {
                if self.version < u64::MAX {
                    self.version = self.version + 1;
                }
                self.latest = Some(
                    LatestFrameSummarySnapshot { version: self.version, summary },
                );
                true
            },
            _ => false,
        }
    }

    /// Takes the result of a read.
    pub fn drain(&mut self, read: std::result::Result<DeviceEvent, E>) -> (step: DrainStep)
        ensures
            match read {
                Ok(event) => {
                    &&& final(self)@ == old(self)@.after(event@)
                    &&& step == if event@ is FrameSummary {
                        DrainStep::Publish
                    } else {
                        DrainStep::Skip
                    }
                },
                Err(e) => {
                    &&& final(self)@ == (LatestView { terminal_error: Some(e), ..old(self)@ })
                    &&& step == DrainStep::Stop
                },
            },
    {
        match read {
            Ok(event) => if self.record(event) {
                DrainStep::Publish
            } else {
                DrainStep::Skip
            },
            Err(e) => {
                self.terminal_error = Some(e);
                DrainStep::Stop
            },
        }
    }

    /// The newest frame.
    pub fn snapshot(&self) -> (r: Option<LatestFrameSummarySnapshot>)
        ensures
            snapshot_view(r) == self@.latest,
    {
        match &self.latest {
            Some(s) => Some(s.clone()),
            None => None,
        }
    }

    /// The current boundary and the newest frame, taken together.
    pub fn observe(&self) -> (o: LatestFrameSummaryObservation)
        ensures
            o.boundary.version == self@.version,
            snapshot_view(o.snapshot) == self@.latest,
    {
        LatestFrameSummaryObservation::from_parts(self.boundary(), self.snapshot())
    }

    pub fn version(&self) -> (v: u64)
        ensures
            v == self@.version,
    {
        self.version
    }

    pub fn boundary(&self) -> (b: LatestFrameSummaryBoundary)
        ensures
            b.version == self@.version,
    {
        LatestFrameSummaryBoundary::new(self.version)
    }

    /// The error that ended the pump.
    pub fn terminal_error(&self) -> (r: Option<&E>)
        ensures
            match self@.terminal_error {
                Some(e) => r == Some(&e),
                None => r is None,
            },
    {
        self.terminal_error.as_ref()
    }

    /// The newest frame, if it is newer than `after_version`.
    pub fn snapshot_after_version(&self, after_version: u64) -> (r: Option<
        LatestFrameSummarySnapshot,
    >)
        ensures
            snapshot_view(r) == self@.newer_than(after_version),
    {
        if self.version > after_version {
            self.snapshot()
        } else {
            None
        }
    }

    /// The newest frame, if it is newer than `boundary`.
    pub fn snapshot_after_boundary(&self, boundary: LatestFrameSummaryBoundary) -> (r: Option<
        LatestFrameSummarySnapshot,
    >)
        ensures
            snapshot_view(r) == self@.newer_than(boundary.version),
    {
        self.snapshot_after_version(boundary.version())
    }

    /// The newest frame, if it is newer than `observation`.
    pub fn snapshot_after_observation(&self, observation: &LatestFrameSummaryObservation) -> (r:
        Option<LatestFrameSummarySnapshot>)
        ensures
            snapshot_view(r) == self@.newer_than(observation.boundary.version),
    {
        self.snapshot_after_boundary(observation.boundary())
    }

    /// The newest frame, if its number is above `min_frame_seq`.
    pub fn snapshot_after_frame_seq(&self, min_frame_seq: u32) -> (r: Option<
        LatestFrameSummarySnapshot,
    >)
        ensures
            snapshot_view(r) == match self@.latest {
                Some(s) if s.summary.frame_seq > min_frame_seq => Some(s),
                _ => None,
            },
    {
        match &self.latest {
            Some(s) => if s.is_after_frame_seq(min_frame_seq) {
                Some(s.clone())
            } else {
                None
            },
            None => None,
        }
    }

    /// The newest frame, if it was taken after `min_timestamp_ms`.
    pub fn snapshot_after_timestamp(&self, min_timestamp_ms: u64) -> (r: Option<
        LatestFrameSummarySnapshot,
    >)
        ensures
            snapshot_view(r) == match self@.latest {
                Some(s) if s.summary.timestamp_ms > min_timestamp_ms => Some(s),
                _ => None,
            },
    {
        match &self.latest {
            Some(s) => if s.is_after_timestamp(min_timestamp_ms) {
                Some(s.clone())
            } else {
                None
            },
            None => None,
        }
    }

    /// The newest frame, if the caller accepts it.
    pub fn snapshot_matching(&self, accepted: bool) -> (r: Option<LatestFrameSummarySnapshot>)
        ensures
            snapshot_view(r) == if accepted {
                self@.latest
            } else {
                None
            },
    {
        if accepted {
            self.snapshot()
        } else {
            None
        }
    }

    /// What a reader does that waits for a frame: `accepted` says whether the
    /// newest frame is one that it waits for. A frame goes before an error.
    pub fn wait_step(&self, accepted: bool) -> (step: WaitStep<'_, E>)
        ensures
            match step {
                WaitStep::Ready(s) => accepted && self@.latest == Some(s@),
                WaitStep::Failed(e) => (!accepted || self@.latest is None)
                    && self@.terminal_error == Some(*e),
                WaitStep::Wait => (!accepted || self@.latest is None)
                    && self@.terminal_error is None,
            },
    {
        if accepted {
            if let Some(s) = &self.latest {
                return WaitStep::Ready(s.clone());
            }
        }
        match &self.terminal_error {
            Some(e) => WaitStep::Failed(e),
            None => WaitStep::Wait,
        }
    }
}

/// How many frames are among events.
pub open spec fn frame_count(events: Seq<EventView>) -> nat
    decreases events.len(),
{
    if events.len() == 0 {
        0
    } else {
        frame_count(events.drop_last()) + if events.last() is FrameSummary {
            1nat
        } else {
            0nat
        }
    }
}

/// Whether the last frame among events stands at `i`.
pub open spec fn last_frame_at(events: Seq<EventView>, i: int) -> bool {
    &&& 0 <= i < events.len()
    &&& events[i] is FrameSummary
    &&& forall|j: int| i < j < events.len() ==> !(#[trigger] events[j] is FrameSummary)
}

/// Every event keeps the version of the newest frame current.
pub proof fn lemma_events_keep_valid<E>(state: LatestView<E>, event: EventView)
    requires
        state.valid(),
    ensures
        state.after(event).valid(),
{
}

/// However many events come, the newest frame is the last one among them, and
/// the version counts the frames.
pub proof fn lemma_newest_frame_is_kept<E>(
    state: LatestView<E>,
    events: Seq<EventView>,
    i: int,
)
    requires
        last_frame_at(events, i),
        state.version + frame_count(events) <= u64::MAX,
    ensures
        state.after_all(events).version == state.version + frame_count(events),
        state.after_all(events).latest == Some(
            SnapshotView {
                version: (state.version + frame_count(events)) as u64,
                summary: events[i]->FrameSummary_0,
            },
        ),
    decreases events.len(),
{
    let before = events.drop_last();
    lemma_version_counts_frames(state, before);
    if i < events.len() - 1 {
        assert(before[i] == events[i]);
        assert forall|j: int| i < j < before.len() implies !(#[trigger] before[j]
            is FrameSummary) by {
            assert(before[j] == events[j]);
        }
        assert(!(events[events.len() - 1] is FrameSummary));
        lemma_newest_frame_is_kept(state, before, i);
    }
}

/// The version counts the frames among events.
pub proof fn lemma_version_counts_frames<E>(state: LatestView<E>, events: Seq<EventView>)
    requires
        state.version + frame_count(events) <= u64::MAX,
    ensures
        state.after_all(events).version == state.version + frame_count(events),
        frame_count(events) == 0 ==> state.after_all(events) == state,
    decreases events.len(),
{
    if events.len() > 0 {
        lemma_version_counts_frames(state, events.drop_last());
    }
}

/// A frame is never newer than the boundary behind it, and a frame that came
/// after a boundary was taken is newer than the boundary, as long as versions
/// last.
pub proof fn lemma_boundary_separates_frames<E>(state: LatestView<E>, summary: FrameView)
    requires
        state.valid(),
    ensures
        state.newer_than(state.version) is None,
        state.version < u64::MAX ==> state.after(EventView::FrameSummary(summary)).newer_than(
            state.version,
        ) == Some(SnapshotView { version: (state.version + 1) as u64, summary }),
{
}

/// A reader at any older version gets the newest frame, and one at the current version
/// or beyond gets none.
pub proof fn lemma_older_readers_get_newest<E>(state: LatestView<E>, version: u64)
    ensures
        version < state.version ==> state.newer_than(version) == state.latest,
        version >= state.version ==> state.newer_than(version) is None,
{
}

/// A frame raises the version by one until versions run out, and becomes the newest
/// frame under it. Any other event, and the error that ended the pump, are left alone.
pub proof fn lemma_only_frames_are_kept<E>(
    state: LatestView<E>,
    event: EventView,
    summary: FrameView,
)
    ensures
        ({
            let next = state.after(EventView::FrameSummary(summary));
            &&& state.version < 0xFFFF_FFFF_FFFF_FFFF ==> next.version == state.version + 1
            &&& state.version == 0xFFFF_FFFF_FFFF_FFFF ==> next.version == state.version
            &&& next.latest == Some(SnapshotView { version: next.version, summary })
            &&& next.terminal_error == state.terminal_error
        }),
        !(event is FrameSummary) ==> state.after(event) == state,
        LatestView::<E>::start().latest is None,
        LatestView::<E>::start().version == 0,
        LatestView::<E>::start().terminal_error is None,
        LatestView::<E>::start().valid(),
{
}

/// What a reader gets of a published state. A frame behind a version, a boundary or an
/// observation is the newest one if it is newer; one behind a number or a time is the
/// newest one if its own number or time is greater.
pub proof fn lemma_readers_get_newer_frames<E>(
    state: &AsyncLatestFrameSummaryState<E>,
    version: u64,
    boundary: LatestFrameSummaryBoundary,
    observation: &LatestFrameSummaryObservation,
    seq: u32,
    time: u64,
    r: Option<LatestFrameSummarySnapshot>,
)
    requires
        state@.valid(),
    ensures
        call_ensures(AsyncLatestFrameSummaryState::<E>::snapshot, (state,), r) ==> snapshot_view(r)
            == state@.latest,
        call_ensures(
            AsyncLatestFrameSummaryState::<E>::snapshot_after_version,
            (state, version),
            r,
        ) ==> (r is Some <==> state@.version > version) && (r matches Some(s) ==> s.version
            > version && Some(s@) == state@.latest),
        call_ensures(
            AsyncLatestFrameSummaryState::<E>::snapshot_after_boundary,
            (state, boundary),
            r,
        ) ==> (r is Some <==> state@.version > boundary.version) && (r matches Some(s) ==> Some(s@)
            == state@.latest),
        call_ensures(
            AsyncLatestFrameSummaryState::<E>::snapshot_after_observation,
            (state, observation),
            r,
        ) ==> (r is Some <==> state@.version > observation.boundary.version) && (r matches Some(s)
            ==> Some(s@) == state@.latest),
        call_ensures(
            AsyncLatestFrameSummaryState::<E>::snapshot_after_frame_seq,
            (state, seq),
            r,
        ) ==> match r {
            Some(s) => Some(s@) == state@.latest && s.summary.frame_seq > seq,
            None => state@.latest matches Some(s) ==> s.summary.frame_seq <= seq,
        },
        call_ensures(
            AsyncLatestFrameSummaryState::<E>::snapshot_after_timestamp,
            (state, time),
            r,
        ) ==> match r {
            Some(s) => Some(s@) == state@.latest && s.summary.timestamp_ms > time,
            None => state@.latest matches Some(s) ==> s.summary.timestamp_ms <= time,
        },
        call_ensures(
            AsyncLatestFrameSummaryState::<E>::snapshot_matching,
            (state, true),
            r,
        ) ==> snapshot_view(r) == state@.latest,
        call_ensures(
            AsyncLatestFrameSummaryState::<E>::snapshot_matching,
            (state, false),
            r,
        ) ==> r is None,
{
}

/// A frame is behind a boundary, an observation or a version exactly if its version is
/// greater, and never behind its own boundary.
pub proof fn lemma_boundaries_accept_later_frames(
    s: &LatestFrameSummarySnapshot,
    later: &LatestFrameSummarySnapshot,
    b: LatestFrameSummaryBoundary,
    o: LatestFrameSummaryObservation,
    version: u64,
    seq: u32,
    time: u64,
    r: bool,
    taken: LatestFrameSummarySnapshot,
)
    ensures
        call_ensures(LatestFrameSummarySnapshot::boundary, (s,), b) || call_ensures(
            LatestFrameSummaryBoundary::from_snapshot,
            (s,),
            b,
        ) ==> (call_ensures(LatestFrameSummaryBoundary::accepts, (&b, later), r) ==> (r
            <==> later.version > s.version)) && (call_ensures(
            LatestFrameSummaryBoundary::accepts,
            (&b, s),
            r,
        ) ==> !r),
        call_ensures(LatestFrameSummaryBoundary::new, (version,), b) ==> b.version == version,
        call_ensures(LatestFrameSummaryObservation::at_version, (version,), o) ==> (call_ensures(
            LatestFrameSummaryObservation::accepts,
            (&o, later),
            r,
        ) ==> (r <==> later.version > version)) && o.snapshot is None,
        call_ensures(LatestFrameSummaryObservation::at_boundary, (b,), o) ==> o.boundary.version
            == b.version && o.snapshot is None,
        call_ensures(LatestFrameSummaryObservation::from_snapshot, (taken,), o) ==> o.snapshot
            == Some(taken) && (call_ensures(
            LatestFrameSummaryObservation::accepts,
            (&o, later),
            r,
        ) ==> (r <==> later.version > taken.version)),
        call_ensures(LatestFrameSummarySnapshot::is_after_version, (s, version), r) ==> (r
            <==> s.version > version),
        call_ensures(LatestFrameSummarySnapshot::is_after_frame_seq, (s, seq), r) ==> (r
            <==> s.summary.frame_seq > seq),
        call_ensures(LatestFrameSummarySnapshot::is_after_timestamp, (s, time), r) ==> (r
            <==> s.summary.timestamp_ms > time),
{
}

/// What a pump does after a read: it publishes a frame, passes over any other event and
/// stops at an error, which readers then see; the newest frame stays.
pub proof fn lemma_pump_steps<E>(
    state: &mut AsyncLatestFrameSummaryState<E>,
    event: DeviceEvent,
    e: E,
    step: DrainStep,
    published: bool,
)
    ensures
        call_ensures(
            AsyncLatestFrameSummaryState::<E>::drain,
            (state, Ok::<DeviceEvent, E>(event)),
            step,
        ) ==> (step == DrainStep::Publish <==> event@ is FrameSummary) && step != DrainStep::Stop
            && final(state)@ == old(state)@.after(event@),
        call_ensures(
            AsyncLatestFrameSummaryState::<E>::drain,
            (state, Err::<DeviceEvent, E>(e)),
            step,
        ) ==> step == DrainStep::Stop && final(state)@.terminal_error == Some(e)
            && final(state)@.latest == old(state)@.latest && final(state)@.version
            == old(state)@.version,
        call_ensures(AsyncLatestFrameSummaryState::<E>::record, (state, event), published) ==> (
        published <==> event@ is FrameSummary) && final(state)@ == old(state)@.after(event@),
{
}

/// What a waiting reader does: it takes the newest frame if that is accepted, even where
/// the pump has ended; else it fails if the pump has ended, and else it waits.
pub proof fn lemma_waiting_reader<'a, E>(
    state: &'a AsyncLatestFrameSummaryState<E>,
    accepted: bool,
    step: WaitStep<'a, E>,
)
    requires
        call_ensures(AsyncLatestFrameSummaryState::<E>::wait_step, (state, accepted), step),
    ensures
        step is Ready <==> accepted && state@.latest is Some,
        step is Failed <==> !(accepted && state@.latest is Some) && state@.terminal_error is Some,
        step matches WaitStep::Ready(s) ==> Some(s@) == state@.latest,
        step matches WaitStep::Failed(e) ==> state@.terminal_error == Some(*e),
{
}

/// What a boundary and an observation tell is what they were made of.
pub proof fn lemma_observations_tell(
    version: u64,
    b: LatestFrameSummaryBoundary,
    v: u64,
    snapshot: Option<LatestFrameSummarySnapshot>,
    o: LatestFrameSummaryObservation,
    bv: u64,
    has: bool,
    summary: Option<&FrameSummary>,
    inner: Option<LatestFrameSummarySnapshot>,
)
    requires
        call_ensures(LatestFrameSummaryBoundary::new, (version,), b),
        call_ensures(LatestFrameSummaryBoundary::version, (&b,), v),
        call_ensures(LatestFrameSummaryObservation::from_parts, (b, snapshot), o),
        call_ensures(LatestFrameSummaryObservation::boundary_version, (&o,), bv),
        call_ensures(LatestFrameSummaryObservation::has_snapshot, (&o,), has),
        call_ensures(LatestFrameSummaryObservation::summary, (&o,), summary),
        call_ensures(LatestFrameSummaryObservation::into_snapshot, (o,), inner),
    ensures
        v == version && bv == version,
        inner == snapshot,
        has <==> snapshot is Some,
        summary is Some <==> has,
        snapshot matches Some(s) ==> summary == Some(&s.summary),
{
}

/// What is kept tells its version, its newest frame and the error that ended it.
pub proof fn lemma_state_tells<'a, E>(
    s: &'a AsyncLatestFrameSummaryState<E>,
    v: u64,
    o: LatestFrameSummaryObservation,
    e: Option<&'a E>,
)
    requires
        call_ensures(AsyncLatestFrameSummaryState::<E>::version, (s,), v),
        call_ensures(AsyncLatestFrameSummaryState::<E>::observe, (s,), o),
        call_ensures(AsyncLatestFrameSummaryState::<E>::terminal_error, (s,), e),
    ensures
        o.boundary.version == v,
        v == s@.version,
        o.snapshot is Some <==> s@.latest is Some,
        o.snapshot matches Some(snap) ==> snap@ == s@.latest->0,
        e is Some <==> s@.terminal_error is Some,
        e matches Some(x) ==> *x == s@.terminal_error->0,
{
}

/// At the start there is no frame, no error, and the lowest version. What is kept and
/// what was observed hand out the same boundary and frame as they hold.
pub proof fn lemma_start_and_boundaries<'a, E>(
    fresh: AsyncLatestFrameSummaryState<E>,
    s: &AsyncLatestFrameSummaryState<E>,
    b: LatestFrameSummaryBoundary,
    kept: Option<LatestFrameSummarySnapshot>,
    o: &'a LatestFrameSummaryObservation,
    ob: LatestFrameSummaryBoundary,
    seen: Option<&'a LatestFrameSummarySnapshot>,
)
    requires
        call_ensures(AsyncLatestFrameSummaryState::<E>::new, (), fresh),
        call_ensures(AsyncLatestFrameSummaryState::<E>::boundary, (s,), b),
        call_ensures(AsyncLatestFrameSummaryState::<E>::snapshot, (s,), kept),
        call_ensures(LatestFrameSummaryObservation::boundary, (o,), ob),
        call_ensures(LatestFrameSummaryObservation::snapshot, (o,), seen),
    ensures
        fresh@.version == 0 && fresh@.latest is None && fresh@.terminal_error is None,
        b.version == s@.version,
        kept is Some <==> s@.latest is Some,
        kept matches Some(k) ==> k@ == s@.latest->0,
        ob.version == o.boundary.version,
        seen is Some <==> o.snapshot is Some,
        seen matches Some(k) ==> *k == o.snapshot->0,
{
}

} // verus!
