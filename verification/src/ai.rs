//! Frame summaries and statistics of the on-device AI pipeline.
//!
//! Feature values and rates are kept as the bit patterns of single-precision
//! numbers.
use vstd::prelude::*;
use vstd::std_specs::cmp::{PartialEqSpec, PartialEqSpecImpl};

use crate::error::{Error, Result};
use crate::single::{is_nan, numbers_equal, rows_equal, same_number, same_numbers};
use crate::text::{decimal, hex_byte, push_decimal, push_hex_byte};
use crate::wire::{
    be16, be32, be64, bits16, lemma_be16_round_trip, lemma_be32_round_trip, lemma_be64_round_trip,
    lemma_signed16_round_trip, push_be16, push_be32, push_be64, read_u16, read_u32, read_u64,
    signed16, to_bits16, to_signed16, u16_at, u32_at, u64_at,
};

verus! {

pub const TYPE_FRAME_SUMMARY: u8 = 3;

pub const TYPE_AI_STATS: u8 = 4;

pub const FLAG_KEYFRAME: u8 = 1;

pub const FLAG_SCENE_CHANGE: u8 = 2;

pub const FLAG_MOTION: u8 = 4;

pub const FLAG_OBJECTS: u8 = 8;

pub const FLAG_TEXT: u8 = 16;

pub const FLAG_HAS_JPEG: u8 = 32;

/// Bytes of an encoded [`AiStats`].
pub const AI_STATS_BYTES: usize = 36;

/// Motion at a point of the frame.
#[derive(Debug, Clone, Copy, PartialEq, Eq, Structural)]
pub struct MotionVector {
    pub x: u16,
    pub y: u16,
    pub dx: i16,
    pub dy: i16,
}

/// A detected object.
#[derive(Debug, Clone, Copy, PartialEq, Eq, Structural)]
pub struct ObjectBox {
    pub x: u16,
    pub y: u16,
    pub w: u16,
    pub h: u16,
    pub class_id: u8,
    pub confidence: u8,
}

/// A detected region of text.
#[derive(Debug, Clone, Copy, PartialEq, Eq, Structural)]
pub struct TextRegion {
    pub x: u16,
    pub y: u16,
    pub w: u16,
    pub h: u16,
}

/// What the device reports about one sampled frame. `==` compares the features as
/// numbers.
#[derive(Debug)]
pub struct FrameSummary {
    pub timestamp_ms: u64,
    pub frame_seq: u32,
    pub width: u16,
    pub height: u16,
    pub flags: u8,
    pub features: Vec<u32>,
    pub motion: Vec<MotionVector>,
    pub objects: Vec<ObjectBox>,
    pub text_regions: Vec<TextRegion>,
}

/// The contents of a [`FrameSummary`].
#[verifier::ext_equal]
pub struct FrameView {
    pub timestamp_ms: u64,
    pub frame_seq: u32,
    pub width: u16,
    pub height: u16,
    pub flags: u8,
    pub features: Seq<u32>,
    pub motion: Seq<MotionVector>,
    pub objects: Seq<ObjectBox>,
    pub text_regions: Seq<TextRegion>,
}

impl View for FrameSummary {
    type V = FrameView;

    open spec fn view(&self) -> FrameView {
        FrameView {
            timestamp_ms: self.timestamp_ms,
            frame_seq: self.frame_seq,
            width: self.width,
            height: self.height,
            flags: self.flags,
            features: self.features@,
            motion: self.motion@,
            objects: self.objects@,
            text_regions: self.text_regions@,
        }
    }
}

fn same_motion(a: &Vec<MotionVector>, b: &Vec<MotionVector>) -> (r: bool)
    ensures
        r == (a@ == b@),
{
    if a.len() != b.len() {
        return false;
    }
    let mut i: usize = 0;
    while i < a.len()
        invariant
            i <= a@.len() == b@.len(),
            forall|j: int| 0 <= j < i ==> a@[j] == b@[j],
        decreases a@.len() - i,
    {
        if a[i] != b[i] {
            return false;
        }
        i = i + 1;
    }
    assert(a@ =~= b@);
    true
}

fn same_objects(a: &Vec<ObjectBox>, b: &Vec<ObjectBox>) -> (r: bool)
    ensures
        r == (a@ == b@),
{
    if a.len() != b.len() {
        return false;
    }
    let mut i: usize = 0;
    while i < a.len()
        invariant
            i <= a@.len() == b@.len(),
            forall|j: int| 0 <= j < i ==> a@[j] == b@[j],
        decreases a@.len() - i,
    {
        if a[i] != b[i] {
            return false;
        }
        i = i + 1;
    }
    assert(a@ =~= b@);
    true
}

fn same_regions(a: &Vec<TextRegion>, b: &Vec<TextRegion>) -> (r: bool)
    ensures
        r == (a@ == b@),
{
    if a.len() != b.len() {
        return false;
    }
    let mut i: usize = 0;
    while i < a.len()
        invariant
            i <= a@.len() == b@.len(),
            forall|j: int| 0 <= j < i ==> a@[j] == b@[j],
        decreases a@.len() - i,
    {
        if a[i] != b[i] {
            return false;
        }
        i = i + 1;
    }
    assert(a@ =~= b@);
    true
}

impl PartialEq for FrameSummary {
    fn eq(&self, other: &FrameSummary) -> (r: bool) {
        self.timestamp_ms == other.timestamp_ms && self.frame_seq == other.frame_seq && self.width
            == other.width && self.height == other.height && self.flags == other.flags
            && same_numbers(&self.features, &other.features) && same_motion(
            &self.motion,
            &other.motion,
        ) && same_objects(&self.objects, &other.objects) && same_regions(
            &self.text_regions,
            &other.text_regions,
        )
    }
}

impl PartialEqSpecImpl for FrameSummary {
    open spec fn obeys_eq_spec() -> bool {
        true
    }

    open spec fn eq_spec(&self, other: &FrameSummary) -> bool {
        &&& rows_equal(self@.features, other@.features)
        &&& self@ == (FrameView { features: self@.features, ..other@ })
    }
}

impl Clone for FrameSummary {
    fn clone(&self) -> (r: FrameSummary)
        ensures
            r@ == self@,
    {
        let r = FrameSummary {
            timestamp_ms: self.timestamp_ms,
            frame_seq: self.frame_seq,
            width: self.width,
            height: self.height,
            flags: self.flags,
            features: self.features.clone(),
            motion: self.motion.clone(),
            objects: self.objects.clone(),
            text_regions: self.text_regions.clone(),
        };
        assert(r@ =~= self@);
        r
    }
}

/// Offset of the motion count, behind the feature values.
pub open spec fn motion_at(s: Seq<u8>) -> int {
    19 + 4 * u16_at(s, 17)
}

/// Offset of the object count, behind the motion vectors.
pub open spec fn objects_at(s: Seq<u8>) -> int {
    motion_at(s) + 2 + 8 * u16_at(s, motion_at(s))
}

/// Offset of the text-region count, behind the objects.
pub open spec fn text_at(s: Seq<u8>) -> int {
    objects_at(s) + 2 + 10 * u16_at(s, objects_at(s))
}

/// Offset behind the last text region.
pub open spec fn frame_end(s: Seq<u8>) -> int {
    text_at(s) + 1 + 8 * s[text_at(s)]
}

/// Whether every section that a payload announces is there. Bytes behind the
/// last section are allowed.
pub open spec fn well_framed(s: Seq<u8>) -> bool {
    &&& 19 <= s.len()
    &&& motion_at(s) + 2 <= s.len()
    &&& objects_at(s) + 2 <= s.len()
    &&& text_at(s) + 1 <= s.len()
    &&& frame_end(s) <= s.len()
}

/// The motion vector encoded at `at`.
pub open spec fn motion_vector(s: Seq<u8>, at: int) -> MotionVector {
    MotionVector {
        x: u16_at(s, at),
        y: u16_at(s, at + 2),
        dx: signed16(u16_at(s, at + 4)),
        dy: signed16(u16_at(s, at + 6)),
    }
}

/// The object encoded at `at`.
pub open spec fn object_box(s: Seq<u8>, at: int) -> ObjectBox {
    ObjectBox {
        x: u16_at(s, at),
        y: u16_at(s, at + 2),
        w: u16_at(s, at + 4),
        h: u16_at(s, at + 6),
        class_id: s[at + 8],
        confidence: s[at + 9],
    }
}

/// The text region encoded at `at`.
pub open spec fn text_region(s: Seq<u8>, at: int) -> TextRegion {
    TextRegion {
        x: u16_at(s, at),
        y: u16_at(s, at + 2),
        w: u16_at(s, at + 4),
        h: u16_at(s, at + 6),
    }
}

/// The frame that a well-framed payload encodes.
pub open spec fn decoded_frame(s: Seq<u8>) -> FrameView {
    FrameView {
        timestamp_ms: u64_at(s, 0),
        frame_seq: u32_at(s, 8),
        width: u16_at(s, 12),
        height: u16_at(s, 14),
        flags: s[16],
        features: Seq::new(u16_at(s, 17) as nat, |i: int| u32_at(s, 19 + 4 * i)),
        motion: Seq::new(
            u16_at(s, motion_at(s)) as nat,
            |i: int| motion_vector(s, motion_at(s) + 2 + 8 * i),
        ),
        objects: Seq::new(
            u16_at(s, objects_at(s)) as nat,
            |i: int| object_box(s, objects_at(s) + 2 + 10 * i),
        ),
        text_regions: Seq::new(
            s[text_at(s)] as nat,
            |i: int| text_region(s, text_at(s) + 1 + 8 * i),
        ),
    }
}

/// The text of the error for input that ends early.
pub open spec fn short_read_text() -> Seq<char> {
    "failed to fill whole buffer"@
}

/// The error for input that ends early.
pub open spec fn is_short_read(e: Error) -> bool {
    e matches Error::Transport(m) && m@ == short_read_text()
}

fn short_read() -> (e: Error)
    ensures
        is_short_read(e),
{
    Error::Transport(String::from_str("failed to fill whole buffer"))
}

fn read_motion_vector(s: &[u8], at: usize) -> (r: MotionVector)
    requires
        at + 8 <= s.len(),
    ensures
        r == motion_vector(s@, at as int),
{
    MotionVector {
        x: read_u16(s, at),
        y: read_u16(s, at + 2),
        dx: to_signed16(read_u16(s, at + 4)),
        dy: to_signed16(read_u16(s, at + 6)),
    }
}

fn read_object_box(s: &[u8], at: usize) -> (r: ObjectBox)
    requires
        at + 10 <= s.len(),
    ensures
        r == object_box(s@, at as int),
{
    ObjectBox {
        x: read_u16(s, at),
        y: read_u16(s, at + 2),
        w: read_u16(s, at + 4),
        h: read_u16(s, at + 6),
        class_id: s[at + 8],
        confidence: s[at + 9],
    }
}

fn read_text_region(s: &[u8], at: usize) -> (r: TextRegion)
    requires
        at + 8 <= s.len(),
    ensures
        r == text_region(s@, at as int),
{
    TextRegion {
        x: read_u16(s, at),
        y: read_u16(s, at + 2),
        w: read_u16(s, at + 4),
        h: read_u16(s, at + 6),
    }
}

/// The one-line description of a frame.
pub open spec fn frame_text(f: FrameView) -> Seq<char> {
    let s = "frame#"@ + decimal(f.frame_seq as nat) + " ts="@ + decimal(f.timestamp_ms as nat)
        + "ms "@ + decimal(f.width as nat) + "x"@ + decimal(f.height as nat) + " flags=0x"@
        + hex_byte(f.flags);
    let s = if f.flags & FLAG_KEYFRAME != 0 { s + " KEYFRAME"@ } else { s };
    let s = if f.flags & FLAG_SCENE_CHANGE != 0 { s + " SCENE_CHANGE"@ } else { s };
    let s = if f.motion.len() > 0 { s + " MOTION("@ + decimal(f.motion.len()) + ")"@ } else { s };
    let s = if f.objects.len() > 0 {
        s + " OBJECTS("@ + decimal(f.objects.len()) + ")"@
    } else {
        s
    };
    let s = if f.text_regions.len() > 0 {
        s + " TEXT("@ + decimal(f.text_regions.len()) + ")"@
    } else {
        s
    };
    if f.features.len() > 0 { s + " features_dim="@ + decimal(f.features.len()) } else { s }
}

impl FrameSummary {
    pub fn is_keyframe(&self) -> (r: bool)
        ensures
            r == (self.flags & FLAG_KEYFRAME != 0),
    {
        self.flags & FLAG_KEYFRAME != 0
    }

    pub fn is_scene_change(&self) -> (r: bool)
        ensures
            r == (self.flags & FLAG_SCENE_CHANGE != 0),
    {
        self.flags & FLAG_SCENE_CHANGE != 0
    }

    /// Whether objects were detected, whatever the flags say.
    pub fn has_objects(&self) -> (r: bool)
        ensures
            r == (self.objects@.len() > 0),
    {
        self.objects.len() > 0
    }

    /// Whether motion was detected, whatever the flags say.
    pub fn is_moving(&self) -> (r: bool)
        ensures
            r == (self.motion@.len() > 0),
    {
        self.motion.len() > 0
    }

    /// A one-line description.
    pub fn describe(&self) -> (r: String)
        ensures
            r@ == frame_text(self@),
    {
        let mut s: String = String::from_str("frame#");
        push_decimal(&mut s, self.frame_seq as u64);
        s.append(" ts=");
        push_decimal(&mut s, self.timestamp_ms);
        s.append("ms ");
        push_decimal(&mut s, self.width as u64);
        s.append("x");
        push_decimal(&mut s, self.height as u64);
        s.append(" flags=0x");
        push_hex_byte(&mut s, self.flags);
        if self.is_keyframe() {
            s.append(" KEYFRAME");
        }
        if self.is_scene_change() {
            s.append(" SCENE_CHANGE");
        }
        if self.is_moving() {
            s.append(" MOTION(");
            push_decimal(&mut s, self.motion.len() as u64);
            s.append(")");
        }
        if self.has_objects() {
            s.append(" OBJECTS(");
            push_decimal(&mut s, self.objects.len() as u64);
            s.append(")");
        }
        if self.text_regions.len() > 0 {
            s.append(" TEXT(");
            push_decimal(&mut s, self.text_regions.len() as u64);
            s.append(")");
        }
        if self.features.len() > 0 {
            s.append(" features_dim=");
            push_decimal(&mut s, self.features.len() as u64);
        }
        s
    }

    /// Decodes a payload. Trailing bytes are ignored; a payload that ends early
    /// is refused.
    pub fn parse(payload: &[u8]) -> (r: Result<FrameSummary>)
        ensures
            well_framed(payload@) ==> (r matches Ok(f) && f@ == decoded_frame(payload@)),
            !well_framed(payload@) ==> (r matches Err(e) && is_short_read(e)),
    {
        let n: usize = payload.len();
        if n < 19 {
            return Err(short_read());
        }
        let ghost s = payload@;
        let timestamp_ms: u64 = read_u64(payload, 0);
        let frame_seq: u32 = read_u32(payload, 8);
        let width: u16 = read_u16(payload, 12);
        let height: u16 = read_u16(payload, 14);
        let flags: u8 = payload[16];
        let feature_dim: usize = read_u16(payload, 17) as usize;
        if n - 19 < 4 * feature_dim + 2 {
            return Err(short_read());
        }
        let mut features: Vec<u32> = Vec::new();
        let mut i: usize = 0;
        while i < feature_dim
            invariant
                i <= feature_dim <= 0xFFFF,
                n == payload.len(),
                s == payload@,
                19 + 4 * feature_dim + 2 <= n,
                features@ =~= Seq::new(i as nat, |j: int| u32_at(s, 19 + 4 * j)),
            decreases feature_dim - i,
        {
            features.push(read_u32(payload, 19 + 4 * i));
            i = i + 1;
        }
        let at_motion: usize = 19 + 4 * feature_dim;
        let num_motion: usize = read_u16(payload, at_motion) as usize;
        if n - at_motion - 2 < 8 * num_motion + 2 {
            return Err(short_read());
        }
        let mut motion: Vec<MotionVector> = Vec::new();
        let mut i: usize = 0;
        while i < num_motion
            invariant
                i <= num_motion <= 0xFFFF,
                at_motion == 19 + 4 * feature_dim,
                feature_dim <= 0xFFFF,
                n == payload.len(),
                s == payload@,
                at_motion + 2 + 8 * num_motion + 2 <= n,
                motion@ =~= Seq::new(i as nat, |j: int| motion_vector(s, at_motion + 2 + 8 * j)),
            decreases num_motion - i,
        {
            motion.push(read_motion_vector(payload, at_motion + 2 + 8 * i));
            i = i + 1;
        }
        let at_objects: usize = at_motion + 2 + 8 * num_motion;
        let num_obj: usize = read_u16(payload, at_objects) as usize;
        if n - at_objects - 2 < 10 * num_obj + 1 {
            return Err(short_read());
        }
        let mut objects: Vec<ObjectBox> = Vec::new();
        let mut i: usize = 0;
        while i < num_obj
            invariant
                i <= num_obj <= 0xFFFF,
                at_objects <= 0xF_FFFF,
                n == payload.len(),
                s == payload@,
                at_objects + 2 + 10 * num_obj + 1 <= n,
                objects@ =~= Seq::new(i as nat, |j: int| object_box(s, at_objects + 2 + 10 * j)),
            decreases num_obj - i,
        {
            objects.push(read_object_box(payload, at_objects + 2 + 10 * i));
            i = i + 1;
        }
        let at_text: usize = at_objects + 2 + 10 * num_obj;
        let num_text: usize = payload[at_text] as usize;
        if n - at_text - 1 < 8 * num_text {
            return Err(short_read());
        }
        let mut text_regions: Vec<TextRegion> = Vec::new();
        let mut i: usize = 0;
        while i < num_text
            invariant
                i <= num_text <= 0xFF,
                at_text <= 0x1F_FFFF,
                n == payload.len(),
                s == payload@,
                at_text + 1 + 8 * num_text <= n,
                text_regions@ =~= Seq::new(i as nat, |j: int| text_region(s, at_text + 1 + 8 * j)),
            decreases num_text - i,
        {
            text_regions.push(read_text_region(payload, at_text + 1 + 8 * i));
            i = i + 1;
        }
        let f = FrameSummary {
            timestamp_ms,
            frame_seq,
            width,
            height,
            flags,
            features,
            motion,
            objects,
            text_regions,
        };
        assert(f@ =~= decoded_frame(s));
        Ok(f)
    }

    /// The payload of the frame, or `None` where a section has more entries than
    /// its count field can hold.
    pub fn encode_payload(&self) -> (r: Option<Vec<u8>>)
        ensures
            countable(self@) ==> (r matches Some(b) && b@ == frame_payload(self@)),
            !countable(self@) ==> r is None,
    {
        if self.features.len() > 0xFFFF || self.motion.len() > 0xFFFF || self.objects.len() > 0xFFFF
            || self.text_regions.len() > 0xFF {
            return None;
        }
        let mut b: Vec<u8> = Vec::new();
        push_be64(&mut b, self.timestamp_ms);
        push_be32(&mut b, self.frame_seq);
        push_be16(&mut b, self.width);
        push_be16(&mut b, self.height);
        b.push(self.flags);
        push_be16(&mut b, self.features.len() as u16);
        let ghost head = frame_head(self@);
        assert(b@ =~= head);
        let mut i: usize = 0;
        assert(b@ =~= head + flat(self.features@.take(0), |v: u32| be32(v)));
        while i < self.features.len()
            invariant
                i <= self.features@.len(),
                b@ == head + flat(self.features@.take(i as int), |v: u32| be32(v)),
            decreases self.features@.len() - i,
        {
            let ghost before = b@;
            push_be32(&mut b, self.features[i]);
            proof {
                let t = self.features@.take(i + 1);
                assert(t.drop_last() =~= self.features@.take(i as int));
                assert(b@ =~= head + flat(t, |v: u32| be32(v)));
            }
            i = i + 1;
        }
        assert(self.features@.take(i as int) =~= self.features@);
        push_be16(&mut b, self.motion.len() as u16);
        let ghost to_motion = b@;
        let mut i: usize = 0;
        assert(b@ =~= to_motion + flat(self.motion@.take(0), |v: MotionVector| motion_bytes(v)));
        while i < self.motion.len()
            invariant
                i <= self.motion@.len(),
                b@ == to_motion + flat(
                    self.motion@.take(i as int),
                    |v: MotionVector| motion_bytes(v),
                ),
            decreases self.motion@.len() - i,
        {
            let ghost before = b@;
            let v: MotionVector = self.motion[i];
            push_be16(&mut b, v.x);
            push_be16(&mut b, v.y);
            push_be16(&mut b, to_bits16(v.dx));
            push_be16(&mut b, to_bits16(v.dy));
            proof {
                let t = self.motion@.take(i + 1);
                assert(t.drop_last() =~= self.motion@.take(i as int));
                assert(b@ =~= before + motion_bytes(v));
                assert(b@ =~= to_motion + flat(t, |v: MotionVector| motion_bytes(v)));
            }
            i = i + 1;
        }
        assert(self.motion@.take(i as int) =~= self.motion@);
        push_be16(&mut b, self.objects.len() as u16);
        let ghost to_objects = b@;
        let mut i: usize = 0;
        assert(b@ =~= to_objects + flat(self.objects@.take(0), |v: ObjectBox| object_bytes(v)));
        while i < self.objects.len()
            invariant
                i <= self.objects@.len(),
                b@ == to_objects + flat(
                    self.objects@.take(i as int),
                    |v: ObjectBox| object_bytes(v),
                ),
            decreases self.objects@.len() - i,
        {
            let ghost before = b@;
            let v: ObjectBox = self.objects[i];
            push_be16(&mut b, v.x);
            push_be16(&mut b, v.y);
            push_be16(&mut b, v.w);
            push_be16(&mut b, v.h);
            b.push(v.class_id);
            b.push(v.confidence);
            proof {
                let t = self.objects@.take(i + 1);
                assert(t.drop_last() =~= self.objects@.take(i as int));
                assert(b@ =~= before + object_bytes(v));
                assert(b@ =~= to_objects + flat(t, |v: ObjectBox| object_bytes(v)));
            }
            i = i + 1;
        }
        assert(self.objects@.take(i as int) =~= self.objects@);
        b.push(self.text_regions.len() as u8);
        let ghost to_text = b@;
        let mut i: usize = 0;
        assert(b@ =~= to_text + flat(self.text_regions@.take(0), |v: TextRegion| region_bytes(v)));
        while i < self.text_regions.len()
            invariant
                i <= self.text_regions@.len(),
                b@ == to_text + flat(
                    self.text_regions@.take(i as int),
                    |v: TextRegion| region_bytes(v),
                ),
            decreases self.text_regions@.len() - i,
        {
            let ghost before = b@;
            let v: TextRegion = self.text_regions[i];
            push_be16(&mut b, v.x);
            push_be16(&mut b, v.y);
            push_be16(&mut b, v.w);
            push_be16(&mut b, v.h);
            proof {
                let t = self.text_regions@.take(i + 1);
                assert(t.drop_last() =~= self.text_regions@.take(i as int));
                assert(b@ =~= before + region_bytes(v));
                assert(b@ =~= to_text + flat(t, |v: TextRegion| region_bytes(v)));
            }
            i = i + 1;
        }
        assert(self.text_regions@.take(i as int) =~= self.text_regions@);
        assert(b@ =~= frame_payload(self@));
        Some(b)
    }
}

/// The concatenated encodings of items.
pub open spec fn flat<A>(items: Seq<A>, enc: spec_fn(A) -> Seq<u8>) -> Seq<u8>
    decreases items.len(),
{
    if items.len() == 0 {
        Seq::empty()
    } else {
        flat(items.drop_last(), enc) + enc(items.last())
    }
}

pub open spec fn motion_bytes(v: MotionVector) -> Seq<u8> {
    be16(v.x) + be16(v.y) + be16(bits16(v.dx)) + be16(bits16(v.dy))
}

pub open spec fn object_bytes(v: ObjectBox) -> Seq<u8> {
    be16(v.x) + be16(v.y) + be16(v.w) + be16(v.h) + seq![v.class_id, v.confidence]
}

pub open spec fn region_bytes(v: TextRegion) -> Seq<u8> {
    be16(v.x) + be16(v.y) + be16(v.w) + be16(v.h)
}

/// The fixed part of a payload.
pub open spec fn frame_head(f: FrameView) -> Seq<u8> {
    be64(f.timestamp_ms) + be32(f.frame_seq) + be16(f.width) + be16(f.height) + seq![f.flags]
        + be16(f.features.len() as u16)
}

/// Whether every section's count fits its field.
pub open spec fn countable(f: FrameView) -> bool {
    &&& f.features.len() <= 0xFFFF
    &&& f.motion.len() <= 0xFFFF
    &&& f.objects.len() <= 0xFFFF
    &&& f.text_regions.len() <= 0xFF
}

/// The payload of a frame.
pub open spec fn frame_payload(f: FrameView) -> Seq<u8> {
    frame_head(f) + flat(f.features, |v: u32| be32(v)) + be16(f.motion.len() as u16) + flat(
        f.motion,
        |v: MotionVector| motion_bytes(v),
    ) + be16(f.objects.len() as u16) + flat(f.objects, |v: ObjectBox| object_bytes(v)) + seq![
        f.text_regions.len() as u8,
    ] + flat(f.text_regions, |v: TextRegion| region_bytes(v))
}

proof fn lemma_flat<A>(items: Seq<A>, enc: spec_fn(A) -> Seq<u8>, w: int)
    requires
        w >= 0,
        forall|a: A| (#[trigger] enc(a)).len() == w,
    ensures
        flat(items, enc).len() == w * items.len(),
    decreases items.len(),
{
    if items.len() > 0 {
        lemma_flat(items.drop_last(), enc, w);
        assert(w * items.len() == w * (items.len() - 1) + w) by (nonlinear_arith);
    }
}

proof fn lemma_flat_at<A>(items: Seq<A>, enc: spec_fn(A) -> Seq<u8>, w: int, i: int)
    requires
        w >= 0,
        forall|a: A| (#[trigger] enc(a)).len() == w,
        0 <= i < items.len(),
    ensures
        0 <= w * i,
        w * i + w <= flat(items, enc).len(),
        flat(items, enc).subrange(w * i, w * i + w) == enc(items[i]),
    decreases items.len(),
{
    let n = items.len() as int;
    lemma_flat(items, enc, w);
    lemma_flat(items.drop_last(), enc, w);
    assert(w * n == w * (n - 1) + w) by (nonlinear_arith);
    assert(0 <= w * i) by (nonlinear_arith)
        requires
            w >= 0,
            i >= 0,
    ;
    let init = flat(items.drop_last(), enc);
    let whole = flat(items, enc);
    if i == n - 1 {
        assert(whole.subrange(w * i, w * i + w) =~= enc(items[i]));
    } else {
        lemma_flat_at(items.drop_last(), enc, w, i);
        assert(whole.subrange(w * i, w * i + w) =~= init.subrange(w * i, w * i + w));
    }
}

proof fn lemma_subrange_shift(s: Seq<u8>, at: int, part: Seq<u8>, from: int, to: int)
    requires
        0 <= at,
        at + part.len() <= s.len(),
        s.subrange(at, at + part.len()) == part,
        0 <= from <= to <= part.len(),
    ensures
        s.subrange(at + from, at + to) == part.subrange(from, to),
{
    let t = s.subrange(at, at + part.len());
    assert(s.subrange(at + from, at + to) =~= t.subrange(from, to));
}

proof fn lemma_motion_round_trip(v: MotionVector, s: Seq<u8>, at: int)
    requires
        0 <= at,
        at + 8 <= s.len(),
        s.subrange(at, at + 8) == motion_bytes(v),
    ensures
        motion_vector(s, at) == v,
{
    let b = motion_bytes(v);
    lemma_subrange_shift(s, at, b, 0, 2);
    lemma_subrange_shift(s, at, b, 2, 4);
    lemma_subrange_shift(s, at, b, 4, 6);
    lemma_subrange_shift(s, at, b, 6, 8);
    assert(b.subrange(0, 2) =~= be16(v.x));
    assert(b.subrange(2, 4) =~= be16(v.y));
    assert(b.subrange(4, 6) =~= be16(bits16(v.dx)));
    assert(b.subrange(6, 8) =~= be16(bits16(v.dy)));
    lemma_be16_round_trip(v.x, s, at);
    lemma_be16_round_trip(v.y, s, at + 2);
    lemma_be16_round_trip(bits16(v.dx), s, at + 4);
    lemma_be16_round_trip(bits16(v.dy), s, at + 6);
    lemma_signed16_round_trip(v.dx);
    lemma_signed16_round_trip(v.dy);
}

proof fn lemma_object_round_trip(v: ObjectBox, s: Seq<u8>, at: int)
    requires
        0 <= at,
        at + 10 <= s.len(),
        s.subrange(at, at + 10) == object_bytes(v),
    ensures
        object_box(s, at) == v,
{
    let b = object_bytes(v);
    lemma_subrange_shift(s, at, b, 0, 2);
    lemma_subrange_shift(s, at, b, 2, 4);
    lemma_subrange_shift(s, at, b, 4, 6);
    lemma_subrange_shift(s, at, b, 6, 8);
    assert(b.subrange(0, 2) =~= be16(v.x));
    assert(b.subrange(2, 4) =~= be16(v.y));
    assert(b.subrange(4, 6) =~= be16(v.w));
    assert(b.subrange(6, 8) =~= be16(v.h));
    lemma_be16_round_trip(v.x, s, at);
    lemma_be16_round_trip(v.y, s, at + 2);
    lemma_be16_round_trip(v.w, s, at + 4);
    lemma_be16_round_trip(v.h, s, at + 6);
    let t = s.subrange(at, at + 10);
    assert(s[at + 8] == t[8]);
    assert(s[at + 9] == t[9]);
}

proof fn lemma_region_round_trip(v: TextRegion, s: Seq<u8>, at: int)
    requires
        0 <= at,
        at + 8 <= s.len(),
        s.subrange(at, at + 8) == region_bytes(v),
    ensures
        text_region(s, at) == v,
{
    let b = region_bytes(v);
    lemma_subrange_shift(s, at, b, 0, 2);
    lemma_subrange_shift(s, at, b, 2, 4);
    lemma_subrange_shift(s, at, b, 4, 6);
    lemma_subrange_shift(s, at, b, 6, 8);
    assert(b.subrange(0, 2) =~= be16(v.x));
    assert(b.subrange(2, 4) =~= be16(v.y));
    assert(b.subrange(4, 6) =~= be16(v.w));
    assert(b.subrange(6, 8) =~= be16(v.h));
    lemma_be16_round_trip(v.x, s, at);
    lemma_be16_round_trip(v.y, s, at + 2);
    lemma_be16_round_trip(v.w, s, at + 4);
    lemma_be16_round_trip(v.h, s, at + 6);
}

proof fn lemma_head_round_trip(f: FrameView, s: Seq<u8>)
    requires
        countable(f),
        19 <= s.len(),
        s.subrange(0, 19) == frame_head(f),
    ensures
        u64_at(s, 0) == f.timestamp_ms,
        u32_at(s, 8) == f.frame_seq,
        u16_at(s, 12) == f.width,
        u16_at(s, 14) == f.height,
        s[16] == f.flags,
        u16_at(s, 17) == f.features.len(),
{
    let b = frame_head(f);
    lemma_subrange_shift(s, 0, b, 0, 8);
    lemma_subrange_shift(s, 0, b, 8, 12);
    lemma_subrange_shift(s, 0, b, 12, 14);
    lemma_subrange_shift(s, 0, b, 14, 16);
    lemma_subrange_shift(s, 0, b, 17, 19);
    assert(b.subrange(0, 8) =~= be64(f.timestamp_ms));
    assert(b.subrange(8, 12) =~= be32(f.frame_seq));
    assert(b.subrange(12, 14) =~= be16(f.width));
    assert(b.subrange(14, 16) =~= be16(f.height));
    assert(b.subrange(17, 19) =~= be16(f.features.len() as u16));
    lemma_be64_round_trip(f.timestamp_ms, s, 0);
    lemma_be32_round_trip(f.frame_seq, s, 8);
    lemma_be16_round_trip(f.width, s, 12);
    lemma_be16_round_trip(f.height, s, 14);
    lemma_be16_round_trip(f.features.len() as u16, s, 17);
    let t = s.subrange(0, 19);
    assert(s[16] == t[16]);
}

proof fn lemma_append_keeps(u: Seq<u8>, v: Seq<u8>, i: int, j: int)
    requires
        0 <= i <= j <= u.len(),
    ensures
        (u + v).subrange(i, j) == u.subrange(i, j),
{
    assert((u + v).subrange(i, j) =~= u.subrange(i, j));
}

proof fn lemma_append_adds(u: Seq<u8>, v: Seq<u8>)
    ensures
        (u + v).len() == u.len() + v.len(),
        (u + v).subrange(u.len() as int, (u + v).len() as int) == v,
{
    assert((u + v).subrange(u.len() as int, (u + v).len() as int) =~= v);
}

proof fn lemma_features_round_trip(items: Seq<u32>, s: Seq<u8>, at: int)
    requires
        0 <= at,
        at + 4 * items.len() <= s.len(),
        s.subrange(at, at + 4 * items.len()) == flat(items, |v: u32| be32(v)),
    ensures
        forall|i: int| 0 <= i < items.len() ==> u32_at(s, #[trigger] (at + 4 * i)) == items[i],
{
    let enc = |v: u32| be32(v);
    lemma_flat(items, enc, 4);
    assert forall|i: int| 0 <= i < items.len() implies u32_at(s, #[trigger] (at + 4 * i))
        == items[i] by {
        lemma_flat_at(items, enc, 4, i);
        lemma_subrange_shift(s, at, flat(items, enc), 4 * i, 4 * i + 4);
        lemma_be32_round_trip(items[i], s, at + 4 * i);
    }
}

proof fn lemma_motions_round_trip(items: Seq<MotionVector>, s: Seq<u8>, at: int)
    requires
        0 <= at,
        at + 8 * items.len() <= s.len(),
        s.subrange(at, at + 8 * items.len()) == flat(items, |v: MotionVector| motion_bytes(v)),
    ensures
        forall|i: int|
            0 <= i < items.len() ==> motion_vector(s, #[trigger] (at + 8 * i)) == items[i],
{
    let enc = |v: MotionVector| motion_bytes(v);
    lemma_flat(items, enc, 8);
    assert forall|i: int| 0 <= i < items.len() implies motion_vector(s, #[trigger] (at + 8 * i))
        == items[i] by {
        lemma_flat_at(items, enc, 8, i);
        lemma_subrange_shift(s, at, flat(items, enc), 8 * i, 8 * i + 8);
        lemma_motion_round_trip(items[i], s, at + 8 * i);
    }
}

proof fn lemma_objects_round_trip(items: Seq<ObjectBox>, s: Seq<u8>, at: int)
    requires
        0 <= at,
        at + 10 * items.len() <= s.len(),
        s.subrange(at, at + 10 * items.len()) == flat(items, |v: ObjectBox| object_bytes(v)),
    ensures
        forall|i: int|
            0 <= i < items.len() ==> object_box(s, #[trigger] (at + 10 * i)) == items[i],
{
    let enc = |v: ObjectBox| object_bytes(v);
    lemma_flat(items, enc, 10);
    assert forall|i: int| 0 <= i < items.len() implies object_box(s, #[trigger] (at + 10 * i))
        == items[i] by {
        lemma_flat_at(items, enc, 10, i);
        lemma_subrange_shift(s, at, flat(items, enc), 10 * i, 10 * i + 10);
        lemma_object_round_trip(items[i], s, at + 10 * i);
    }
}

proof fn lemma_regions_round_trip(items: Seq<TextRegion>, s: Seq<u8>, at: int)
    requires
        0 <= at,
        at + 8 * items.len() <= s.len(),
        s.subrange(at, at + 8 * items.len()) == flat(items, |v: TextRegion| region_bytes(v)),
    ensures
        forall|i: int|
            0 <= i < items.len() ==> text_region(s, #[trigger] (at + 8 * i)) == items[i],
{
    let enc = |v: TextRegion| region_bytes(v);
    lemma_flat(items, enc, 8);
    assert forall|i: int| 0 <= i < items.len() implies text_region(s, #[trigger] (at + 8 * i))
        == items[i] by {
        lemma_flat_at(items, enc, 8, i);
        lemma_subrange_shift(s, at, flat(items, enc), 8 * i, 8 * i + 8);
        lemma_region_round_trip(items[i], s, at + 8 * i);
    }
}

/// The sections of a payload followed by `tail`, each where its offset says.
spec fn sections_of(f: FrameView, s: Seq<u8>) -> bool {
    let am: int = 19 + 4 * f.features.len() as int;
    let ao: int = am + 2 + 8 * f.motion.len();
    let at: int = ao + 2 + 10 * f.objects.len();
    let end: int = at + 1 + 8 * f.text_regions.len();
    &&& end <= s.len()
    &&& s.subrange(0, 19) == frame_head(f)
    &&& s.subrange(19, am) == flat(f.features, |v: u32| be32(v))
    &&& s.subrange(am, am + 2) == be16(f.motion.len() as u16)
    &&& s.subrange(am + 2, ao) == flat(f.motion, |v: MotionVector| motion_bytes(v))
    &&& s.subrange(ao, ao + 2) == be16(f.objects.len() as u16)
    &&& s.subrange(ao + 2, at) == flat(f.objects, |v: ObjectBox| object_bytes(v))
    &&& s[at] == f.text_regions.len() as u8
    &&& s.subrange(at + 1, end) == flat(f.text_regions, |v: TextRegion| region_bytes(v))
}

/// Concatenated parts stand one behind the other.
proof fn lemma_parts(
    a: Seq<u8>,
    b: Seq<u8>,
    c: Seq<u8>,
    d: Seq<u8>,
    e: Seq<u8>,
    g: Seq<u8>,
    h: Seq<u8>,
    k: Seq<u8>,
    tail: Seq<u8>,
)
    ensures
        ({
            let s = a + b + c + d + e + g + h + k + tail;
            let ib = a.len() as int;
            let ic = ib + b.len();
            let id = ic + c.len();
            let ie = id + d.len();
            let ig = ie + e.len();
            let ih = ig + g.len();
            let ik = ih + h.len();
            let it = ik + k.len();
            &&& it <= s.len()
            &&& s.subrange(0, ib) == a
            &&& s.subrange(ib, ic) == b
            &&& s.subrange(ic, id) == c
            &&& s.subrange(id, ie) == d
            &&& s.subrange(ie, ig) == e
            &&& s.subrange(ig, ih) == g
            &&& s.subrange(ih, ik) == h
            &&& s.subrange(ik, it) == k
        }),
{
    let p1 = a;
    let p2 = p1 + b;
    let p3 = p2 + c;
    let p4 = p3 + d;
    let p5 = p4 + e;
    let p6 = p5 + g;
    let p7 = p6 + h;
    let p8 = p7 + k;
    let p9 = p8 + tail;
    lemma_append_adds(p1, b);
    lemma_append_adds(p2, c);
    lemma_append_adds(p3, d);
    lemma_append_adds(p4, e);
    lemma_append_adds(p5, g);
    lemma_append_adds(p6, h);
    lemma_append_adds(p7, k);
    lemma_append_adds(p8, tail);
    assert(a.subrange(0, a.len() as int) =~= a);
    lemma_append_keeps(p1, b, 0, p1.len() as int);
    lemma_append_keeps(p2, c, 0, p1.len() as int);
    lemma_append_keeps(p2, c, p1.len() as int, p2.len() as int);
    lemma_append_keeps(p3, d, 0, p1.len() as int);
    lemma_append_keeps(p3, d, p1.len() as int, p2.len() as int);
    lemma_append_keeps(p3, d, p2.len() as int, p3.len() as int);
    lemma_append_keeps(p4, e, 0, p1.len() as int);
    lemma_append_keeps(p4, e, p1.len() as int, p2.len() as int);
    lemma_append_keeps(p4, e, p2.len() as int, p3.len() as int);
    lemma_append_keeps(p4, e, p3.len() as int, p4.len() as int);
    lemma_append_keeps(p5, g, 0, p1.len() as int);
    lemma_append_keeps(p5, g, p1.len() as int, p2.len() as int);
    lemma_append_keeps(p5, g, p2.len() as int, p3.len() as int);
    lemma_append_keeps(p5, g, p3.len() as int, p4.len() as int);
    lemma_append_keeps(p5, g, p4.len() as int, p5.len() as int);
    lemma_append_keeps(p6, h, 0, p1.len() as int);
    lemma_append_keeps(p6, h, p1.len() as int, p2.len() as int);
    lemma_append_keeps(p6, h, p2.len() as int, p3.len() as int);
    lemma_append_keeps(p6, h, p3.len() as int, p4.len() as int);
    lemma_append_keeps(p6, h, p4.len() as int, p5.len() as int);
    lemma_append_keeps(p6, h, p5.len() as int, p6.len() as int);
    lemma_append_keeps(p7, k, 0, p1.len() as int);
    lemma_append_keeps(p7, k, p1.len() as int, p2.len() as int);
    lemma_append_keeps(p7, k, p2.len() as int, p3.len() as int);
    lemma_append_keeps(p7, k, p3.len() as int, p4.len() as int);
    lemma_append_keeps(p7, k, p4.len() as int, p5.len() as int);
    lemma_append_keeps(p7, k, p5.len() as int, p6.len() as int);
    lemma_append_keeps(p7, k, p6.len() as int, p7.len() as int);
    lemma_append_keeps(p8, tail, 0, p1.len() as int);
    lemma_append_keeps(p8, tail, p1.len() as int, p2.len() as int);
    lemma_append_keeps(p8, tail, p2.len() as int, p3.len() as int);
    lemma_append_keeps(p8, tail, p3.len() as int, p4.len() as int);
    lemma_append_keeps(p8, tail, p4.len() as int, p5.len() as int);
    lemma_append_keeps(p8, tail, p5.len() as int, p6.len() as int);
    lemma_append_keeps(p8, tail, p6.len() as int, p7.len() as int);
    lemma_append_keeps(p8, tail, p7.len() as int, p8.len() as int);
}

proof fn lemma_sections(f: FrameView, tail: Seq<u8>)
    ensures
        sections_of(f, frame_payload(f) + tail),
        frame_payload(f).len() == 22 + 4 * f.features.len() + 2 + 8 * f.motion.len() + 10
            * f.objects.len() + 8 * f.text_regions.len(),
{
    let b = flat(f.features, |v: u32| be32(v));
    let d = flat(f.motion, |v: MotionVector| motion_bytes(v));
    let g = flat(f.objects, |v: ObjectBox| object_bytes(v));
    let h = seq![f.text_regions.len() as u8];
    let k = flat(f.text_regions, |v: TextRegion| region_bytes(v));
    lemma_flat(f.features, |v: u32| be32(v), 4);
    lemma_flat(f.motion, |v: MotionVector| motion_bytes(v), 8);
    lemma_flat(f.objects, |v: ObjectBox| object_bytes(v), 10);
    lemma_flat(f.text_regions, |v: TextRegion| region_bytes(v), 8);
    assert(frame_head(f).len() == 19);
    let s = frame_payload(f) + tail;
    lemma_parts(
        frame_head(f),
        b,
        be16(f.motion.len() as u16),
        d,
        be16(f.objects.len() as u16),
        g,
        h,
        k,
        tail,
    );
    let at = 19 + b.len() + 2 + d.len() + 2 + g.len() as int;
    assert(s.subrange(at, at + 1)[0] == h[0]);
}

/// Decoding the payload of a frame gives the frame back, whatever bytes follow
/// the payload.
pub proof fn lemma_frame_round_trip(f: FrameView, tail: Seq<u8>)
    requires
        countable(f),
    ensures
        well_framed(frame_payload(f) + tail),
        decoded_frame(frame_payload(f) + tail) == f,
        frame_end(frame_payload(f) + tail) == frame_payload(f).len(),
{
    let s = frame_payload(f) + tail;
    lemma_sections(f, tail);
    lemma_sections_decode(f, s);
}

proof fn lemma_sections_decode(f: FrameView, s: Seq<u8>)
    requires
        countable(f),
        sections_of(f, s),
    ensures
        well_framed(s),
        decoded_frame(s) == f,
        frame_end(s) == 22 + 4 * f.features.len() + 2 + 8 * f.motion.len() + 10
            * f.objects.len() + 8 * f.text_regions.len(),
{
    let am: int = 19 + 4 * f.features.len() as int;
    let ao: int = am + 2 + 8 * f.motion.len();
    let at: int = ao + 2 + 10 * f.objects.len();
    lemma_head_round_trip(f, s);
    lemma_be16_round_trip(f.motion.len() as u16, s, am);
    lemma_be16_round_trip(f.objects.len() as u16, s, ao);
    lemma_features_round_trip(f.features, s, 19);
    lemma_motions_round_trip(f.motion, s, am + 2);
    lemma_objects_round_trip(f.objects, s, ao + 2);
    lemma_regions_round_trip(f.text_regions, s, at + 1);
    let d = decoded_frame(s);
    assert forall|i: int| 0 <= i < f.features.len() implies d.features[i] == f.features[i] by {
        assert(u32_at(s, 19 + 4 * i) == f.features[i]);
    }
    assert forall|i: int| 0 <= i < f.motion.len() implies d.motion[i] == f.motion[i] by {
        assert(motion_vector(s, am + 2 + 8 * i) == f.motion[i]);
    }
    assert forall|i: int| 0 <= i < f.objects.len() implies d.objects[i] == f.objects[i] by {
        assert(object_box(s, ao + 2 + 10 * i) == f.objects[i]);
    }
    assert forall|i: int| 0 <= i < f.text_regions.len() implies d.text_regions[i]
        == f.text_regions[i] by {
        assert(text_region(s, at + 1 + 8 * i) == f.text_regions[i]);
    }
    assert(d =~= f);
}

/// Running totals of the AI pipeline. `==` compares the latency and the rate as
/// numbers.
#[derive(Debug, Clone, Copy)]
pub struct AiStats {
    pub uptime_ms: u64,
    pub frames_sampled: u32,
    pub frames_skipped_keyframe: u32,
    pub frames_yolo_inferred: u32,
    pub bytes_summary_emitted: u64,
    pub avg_latency_ms: u32,
    pub current_fps: u32,
}

impl PartialEq for AiStats {
    fn eq(&self, other: &AiStats) -> (r: bool) {
        self.uptime_ms == other.uptime_ms && self.frames_sampled == other.frames_sampled
            && self.frames_skipped_keyframe == other.frames_skipped_keyframe
            && self.frames_yolo_inferred == other.frames_yolo_inferred
            && self.bytes_summary_emitted == other.bytes_summary_emitted && same_number(
            self.avg_latency_ms,
            other.avg_latency_ms,
        ) && same_number(self.current_fps, other.current_fps)
    }
}

impl PartialEqSpecImpl for AiStats {
    open spec fn obeys_eq_spec() -> bool {
        true
    }

    open spec fn eq_spec(&self, other: &AiStats) -> bool {
        &&& numbers_equal(self.avg_latency_ms, other.avg_latency_ms)
        &&& numbers_equal(self.current_fps, other.current_fps)
        &&& *self == (AiStats {
            avg_latency_ms: self.avg_latency_ms,
            current_fps: self.current_fps,
            ..*other
        })
    }
}

/// The statistics that a payload of at least [`AI_STATS_BYTES`] encodes.
pub open spec fn decoded_stats(s: Seq<u8>) -> AiStats {
    AiStats {
        uptime_ms: u64_at(s, 0),
        frames_sampled: u32_at(s, 8),
        frames_skipped_keyframe: u32_at(s, 12),
        frames_yolo_inferred: u32_at(s, 16),
        bytes_summary_emitted: u64_at(s, 20),
        avg_latency_ms: u32_at(s, 28),
        current_fps: u32_at(s, 32),
    }
}

/// The payload of statistics.
pub open spec fn stats_payload(a: AiStats) -> Seq<u8> {
    be64(a.uptime_ms) + be32(a.frames_sampled) + be32(a.frames_skipped_keyframe) + be32(
        a.frames_yolo_inferred,
    ) + be64(a.bytes_summary_emitted) + be32(a.avg_latency_ms) + be32(a.current_fps)
}

/// Decoding the payload of statistics gives the statistics back.
pub proof fn lemma_stats_round_trip(a: AiStats, tail: Seq<u8>)
    ensures
        stats_payload(a).len() == AI_STATS_BYTES,
        decoded_stats(stats_payload(a) + tail) == a,
{
    let s = stats_payload(a) + tail;
    assert(s.subrange(0, 8) =~= be64(a.uptime_ms));
    assert(s.subrange(8, 12) =~= be32(a.frames_sampled));
    assert(s.subrange(12, 16) =~= be32(a.frames_skipped_keyframe));
    assert(s.subrange(16, 20) =~= be32(a.frames_yolo_inferred));
    assert(s.subrange(20, 28) =~= be64(a.bytes_summary_emitted));
    assert(s.subrange(28, 32) =~= be32(a.avg_latency_ms));
    assert(s.subrange(32, 36) =~= be32(a.current_fps));
    lemma_be64_round_trip(a.uptime_ms, s, 0);
    lemma_be32_round_trip(a.frames_sampled, s, 8);
    lemma_be32_round_trip(a.frames_skipped_keyframe, s, 12);
    lemma_be32_round_trip(a.frames_yolo_inferred, s, 16);
    lemma_be64_round_trip(a.bytes_summary_emitted, s, 20);
    lemma_be32_round_trip(a.avg_latency_ms, s, 28);
    lemma_be32_round_trip(a.current_fps, s, 32);
}

impl AiStats {
    /// Decodes a payload; trailing bytes are ignored.
    pub fn parse(payload: &[u8]) -> (r: Result<AiStats>)
        ensures
            payload@.len() >= AI_STATS_BYTES ==> r == Ok::<AiStats, Error>(
                decoded_stats(payload@),
            ),
            payload@.len() < AI_STATS_BYTES ==> (r matches Err(e) && is_short_read(e)),
    {
        if payload.len() < AI_STATS_BYTES {
            return Err(short_read());
        }
        Ok(
            AiStats {
                uptime_ms: read_u64(payload, 0),
                frames_sampled: read_u32(payload, 8),
                frames_skipped_keyframe: read_u32(payload, 12),
                frames_yolo_inferred: read_u32(payload, 16),
                bytes_summary_emitted: read_u64(payload, 20),
                avg_latency_ms: read_u32(payload, 28),
                current_fps: read_u32(payload, 32),
            },
        )
    }

    /// A one-line description around the texts of the two rates.
    pub fn describe(&self, avg_latency: &str, fps: &str) -> (r: String)
        ensures
            r@ == "uptime="@ + decimal((self.uptime_ms / 1000) as nat) + "s sampled="@ + decimal(
                self.frames_sampled as nat,
            ) + " yolo="@ + decimal(self.frames_yolo_inferred as nat) + " bytes="@ + decimal(
                self.bytes_summary_emitted as nat,
            ) + " avg="@ + avg_latency@ + "ms fps="@ + fps@,
    {
        let mut s: String = String::from_str("uptime=");
        push_decimal(&mut s, self.uptime_ms / 1000);
        s.append("s sampled=");
        push_decimal(&mut s, self.frames_sampled as u64);
        s.append(" yolo=");
        push_decimal(&mut s, self.frames_yolo_inferred as u64);
        s.append(" bytes=");
        push_decimal(&mut s, self.bytes_summary_emitted);
        s.append(" avg=");
        s.append(avg_latency);
        s.append("ms fps=");
        s.append(fps);
        s
    }
}

/// Bytes of an envelope's type and length.
pub const ENVELOPE_HEADER_BYTES: usize = 5;

/// One device message of the AI extension.
#[derive(Debug, PartialEq)]
pub enum DeviceEnvelope {
    Frame(FrameSummary),
    Stats(AiStats),
}

impl Clone for DeviceEnvelope {
    fn clone(&self) -> (r: DeviceEnvelope)
        ensures
            match *self {
                DeviceEnvelope::Frame(f) => r matches DeviceEnvelope::Frame(g) && g@ == f@,
                DeviceEnvelope::Stats(_) => r == *self,
            },
    {
        match self {
            DeviceEnvelope::Frame(f) => DeviceEnvelope::Frame(f.clone()),
            DeviceEnvelope::Stats(a) => DeviceEnvelope::Stats(*a),
        }
    }
}

/// The payload that an envelope announces.
pub open spec fn envelope_payload(s: Seq<u8>) -> Seq<u8> {
    s.subrange(5, 5 + u32_at(s, 1))
}

/// The bytes that an envelope takes, header and payload, as its header announces
/// them; `None` before a whole header.
pub fn envelope_announced(bytes: &[u8]) -> (r: Option<u64>)
    ensures
        r == if bytes@.len() >= ENVELOPE_HEADER_BYTES {
            Some((ENVELOPE_HEADER_BYTES + u32_at(bytes@, 1)) as u64)
        } else {
            None
        },
{
    if bytes.len() < ENVELOPE_HEADER_BYTES {
        return None;
    }
    Some(ENVELOPE_HEADER_BYTES as u64 + read_u32(bytes, 1) as u64)
}

/// The bytes that the envelope at the start of `bytes` takes, if it is all there.
/// What follows it begins there, whatever its type.
pub fn envelope_len(bytes: &[u8]) -> (r: Option<usize>)
    ensures
        r == if bytes@.len() >= ENVELOPE_HEADER_BYTES && bytes@.len() >= ENVELOPE_HEADER_BYTES
            + u32_at(bytes@, 1) {
            Some((ENVELOPE_HEADER_BYTES + u32_at(bytes@, 1)) as usize)
        } else {
            None
        },
{
    match envelope_announced(bytes) {
        Some(n) => if n <= bytes.len() as u64 {
            Some(n as usize)
        } else {
            None
        },
        None => None,
    }
}

/// Decodes the envelope at the start of `bytes`: a type byte, a length and a
/// payload. `None` stands for the end of the stream before a whole header, and
/// for types that carry nothing of the AI extension.
pub fn read_device_envelope(bytes: &[u8]) -> (r: Result<Option<DeviceEnvelope>>)
    ensures
        bytes@.len() < 5 ==> r == Ok::<Option<DeviceEnvelope>, Error>(None),
        5 <= bytes@.len() < 5 + u32_at(bytes@, 1) ==> (r matches Err(e) && is_short_read(e)),
        bytes@.len() >= 5 && bytes@.len() >= 5 + u32_at(bytes@, 1) ==> {
            let p = envelope_payload(bytes@);
            if bytes@[0] == TYPE_FRAME_SUMMARY {
                if well_framed(p) {
                    r matches Ok(Some(DeviceEnvelope::Frame(f))) && f@ == decoded_frame(p)
                } else {
                    r matches Err(e) && is_short_read(e)
                }
            } else if bytes@[0] == TYPE_AI_STATS {
                if p.len() >= AI_STATS_BYTES {
                    r == Ok::<Option<DeviceEnvelope>, Error>(
                        Some(DeviceEnvelope::Stats(decoded_stats(p))),
                    )
                } else {
                    r matches Err(e) && is_short_read(e)
                }
            } else {
                r == Ok::<Option<DeviceEnvelope>, Error>(None)
            }
        },
{
    if bytes.len() < 5 {
        return Ok(None);
    }
    let len: u32 = read_u32(bytes, 1);
    let have: usize = bytes.len() - 5;
    if (have as u64) < len as u64 {
        return Err(short_read());
    }
    let payload: &[u8] = &bytes[5..5 + len as usize];
    if bytes[0] == TYPE_FRAME_SUMMARY {
        return match FrameSummary::parse(payload) {
            Ok(f) => Ok(Some(DeviceEnvelope::Frame(f))),
            Err(e) => Err(e),
        };
    }
    if bytes[0] == TYPE_AI_STATS {
        return match AiStats::parse(payload) {
            Ok(a) => Ok(Some(DeviceEnvelope::Stats(a))),
            Err(e) => Err(e),
        };
    }
    Ok(None)
}

/// Encodes a frame as a whole envelope, or `None` where a section has more
/// entries than its count field can hold.
pub fn frame_summary_envelope(frame: &FrameSummary) -> (r: Option<Vec<u8>>)
    ensures
        countable(frame@) ==> (r matches Some(b) && b@ == seq![TYPE_FRAME_SUMMARY] + be32(
            frame_payload(frame@).len() as u32,
        ) + frame_payload(frame@)),
        !countable(frame@) ==> r is None,
{
    let payload: Vec<u8> = match frame.encode_payload() {
        Some(payload) => payload,
        None => {
            return None;
        },
    };
    let mut b: Vec<u8> = Vec::new();
    b.push(TYPE_FRAME_SUMMARY);
    #[verifier::truncate]
    let n: u32 = payload.len() as u32;
    push_be32(&mut b, n);
    b.extend_from_slice(payload.as_slice());
    assert(b@ =~= seq![TYPE_FRAME_SUMMARY] + be32(frame_payload(frame@).len() as u32)
        + frame_payload(frame@));
    Some(b)
}

/// An envelope of any type takes exactly its header and its payload: what was
/// written behind it is what a reader finds there.
pub proof fn lemma_envelope_skips(ty: u8, payload: Seq<u8>, rest: Seq<u8>)
    requires
        payload.len() <= u32::MAX,
    ensures
        ({
            let s = seq![ty] + be32(payload.len() as u32) + payload + rest;
            let n = ENVELOPE_HEADER_BYTES + u32_at(s, 1);
            &&& s[0] == ty
            &&& n == ENVELOPE_HEADER_BYTES + payload.len()
            &&& envelope_payload(s) == payload
            &&& s.skip(n) == rest
        }),
{
    let s = seq![ty] + be32(payload.len() as u32) + payload + rest;
    assert(s.subrange(1, 5) =~= be32(payload.len() as u32));
    lemma_be32_round_trip(payload.len() as u32, s, 1);
    assert(envelope_payload(s) =~= payload);
    assert(s.skip(ENVELOPE_HEADER_BYTES + payload.len()) =~= rest);
}

/// Where the parts of a frame stand in its payload: the fixed part in the first 17
/// bytes, then the four sections, each behind its count.
pub proof fn lemma_frame_layout(s: Seq<u8>, i: int)
    requires
        i >= 0,
    ensures
        ({
            let f = decoded_frame(s);
            let n = f.features.len();
            let m = f.motion.len();
            let k = f.objects.len();
            let motion = 21 + 4 * n + 8 * i;
            let object = 23 + 4 * n + 8 * m + 10 * i;
            let region = 24 + 4 * n + 8 * m + 10 * k + 8 * i;
            &&& f.timestamp_ms == 0x1_0000_0000 * (0x1_0000 * (256 * s[0] + s[1]) + 256 * s[2]
                + s[3]) + 0x1_0000 * (256 * s[4] + s[5]) + 256 * s[6] + s[7]
            &&& f.frame_seq == 0x1_0000 * (256 * s[8] + s[9]) + 256 * s[10] + s[11]
            &&& f.width == 256 * s[12] + s[13]
            &&& f.height == 256 * s[14] + s[15]
            &&& f.flags == s[16]
            &&& n == 256 * s[17] + s[18]
            &&& i < n ==> f.features[i] == 0x1_0000 * (256 * s[19 + 4 * i] + s[20 + 4 * i]) + 256
                * s[21 + 4 * i] + s[22 + 4 * i]
            &&& m == 256 * s[(19 + 4 * n) as int] + s[(20 + 4 * n) as int]
            &&& i < m ==> {
                &&& f.motion[i].x == 256 * s[motion] + s[motion + 1]
                &&& f.motion[i].y == 256 * s[motion + 2] + s[motion + 3]
                &&& f.motion[i].dx == signed16((256 * s[motion + 4] + s[motion + 5]) as u16)
                &&& f.motion[i].dy == signed16((256 * s[motion + 6] + s[motion + 7]) as u16)
            }
            &&& k == 256 * s[(21 + 4 * n + 8 * m) as int] + s[(22 + 4 * n + 8 * m) as int]
            &&& i < k ==> {
                &&& f.objects[i].x == 256 * s[object] + s[object + 1]
                &&& f.objects[i].y == 256 * s[object + 2] + s[object + 3]
                &&& f.objects[i].w == 256 * s[object + 4] + s[object + 5]
                &&& f.objects[i].h == 256 * s[object + 6] + s[object + 7]
                &&& f.objects[i].class_id == s[object + 8]
                &&& f.objects[i].confidence == s[object + 9]
            }
            &&& f.text_regions.len() == s[(23 + 4 * n + 8 * m + 10 * k) as int]
            &&& i < f.text_regions.len() ==> {
                &&& f.text_regions[i].x == 256 * s[region] + s[region + 1]
                &&& f.text_regions[i].y == 256 * s[region + 2] + s[region + 3]
                &&& f.text_regions[i].w == 256 * s[region + 4] + s[region + 5]
                &&& f.text_regions[i].h == 256 * s[region + 6] + s[region + 7]
            }
        }),
{
}

/// Where the totals stand in the payload of statistics.
pub proof fn lemma_stats_layout(s: Seq<u8>)
    ensures
        ({
            let a = decoded_stats(s);
            &&& a.uptime_ms == 0x1_0000_0000 * (0x1_0000 * (256 * s[0] + s[1]) + 256 * s[2] + s[3])
                + 0x1_0000 * (256 * s[4] + s[5]) + 256 * s[6] + s[7]
            &&& a.frames_sampled == 0x1_0000 * (256 * s[8] + s[9]) + 256 * s[10] + s[11]
            &&& a.frames_skipped_keyframe == 0x1_0000 * (256 * s[12] + s[13]) + 256 * s[14] + s[15]
            &&& a.frames_yolo_inferred == 0x1_0000 * (256 * s[16] + s[17]) + 256 * s[18] + s[19]
            &&& a.bytes_summary_emitted == 0x1_0000_0000 * (0x1_0000 * (256 * s[20] + s[21]) + 256
                * s[22] + s[23]) + 0x1_0000 * (256 * s[24] + s[25]) + 256 * s[26] + s[27]
            &&& a.avg_latency_ms == 0x1_0000 * (256 * s[28] + s[29]) + 256 * s[30] + s[31]
            &&& a.current_fps == 0x1_0000 * (256 * s[32] + s[33]) + 256 * s[34] + s[35]
        }),
{
}

/// A payload is whole exactly if it is as long as its counts say: a fixed part of 24
/// bytes, 4 for a feature, 8 for a motion vector, 10 for an object and 8 for a region.
pub proof fn lemma_whole_payload_length(s: Seq<u8>)
    ensures
        well_framed(s) ==> ({
            let f = decoded_frame(s);
            &&& s.len() >= 24 + 4 * f.features.len() + 8 * f.motion.len() + 10 * f.objects.len() + 8
                * f.text_regions.len()
            &&& frame_end(s) == 24 + 4 * f.features.len() + 8 * f.motion.len() + 10
                * f.objects.len() + 8 * f.text_regions.len()
        }),
        ({
            let f = decoded_frame(s);
            s.len() >= 24 + 4 * f.features.len() + 8 * f.motion.len() + 10 * f.objects.len() + 8
                * f.text_regions.len() ==> well_framed(s)
        }),
{
}

/// A frame's payload that lost bytes at its end is never whole.
pub proof fn lemma_cut_payload_is_refused(f: FrameView, n: int)
    requires
        countable(f),
        0 <= n < frame_payload(f).len(),
    ensures
        !well_framed(frame_payload(f).take(n)),
{
    let s = frame_payload(f);
    let c = s.take(n);
    assert(s + Seq::<u8>::empty() =~= s);
    lemma_frame_round_trip(f, Seq::empty());
    assert(frame_end(s) == s.len());
    assert forall|i: int| 0 <= i < n implies #[trigger] c[i] == s[i] by {}
    if n >= 19 {
        assert(motion_at(c) == motion_at(s));
        if motion_at(s) + 2 <= n {
            assert(objects_at(c) == objects_at(s));
            if objects_at(s) + 2 <= n {
                assert(text_at(c) == text_at(s));
                if text_at(s) + 1 <= n {
                    assert(frame_end(c) == frame_end(s));
                }
            }
        }
    }
}

/// A frame's sections can be written exactly if none has more entries than its count
/// has room for: two bytes, and one for the regions.
pub proof fn lemma_countable_by_fields(f: FrameView)
    ensures
        countable(f) <==> f.features.len() < 0x1_0000 && f.motion.len() < 0x1_0000
            && f.objects.len() < 0x1_0000 && f.text_regions.len() < 0x100,
        countable(f) ==> frame_payload(f).len() == 24 + 4 * f.features.len() + 8 * f.motion.len()
            + 10 * f.objects.len() + 8 * f.text_regions.len(),
{
    if countable(f) {
        lemma_sections(f, Seq::empty());
    }
}

/// A plain frame is described by its number, its time, its size and its flags. Each
/// further section that is not empty adds its name and its count behind them, in the
/// order motion, objects, text, features.
pub proof fn lemma_description_lists_sections(f: FrameView)
    ensures
        f.features.len() > 0 ==> frame_text(f) == frame_text(
            FrameView { features: Seq::empty(), ..f },
        ) + " features_dim="@ + decimal(f.features.len()),
        f.features.len() == 0 && f.text_regions.len() > 0 ==> frame_text(f) == frame_text(
            FrameView { text_regions: Seq::empty(), ..f },
        ) + " TEXT("@ + decimal(f.text_regions.len()) + ")"@,
        f.features.len() == 0 && f.text_regions.len() == 0 && f.objects.len() > 0 ==> frame_text(f)
            == frame_text(FrameView { objects: Seq::empty(), ..f }) + " OBJECTS("@ + decimal(
            f.objects.len(),
        ) + ")"@,
        f.features.len() == 0 && f.text_regions.len() == 0 && f.objects.len() == 0
            && f.motion.len() > 0 ==> frame_text(f) == frame_text(
            FrameView { motion: Seq::empty(), ..f },
        ) + " MOTION("@ + decimal(f.motion.len()) + ")"@,
        f.features.len() == 0 && f.text_regions.len() == 0 && f.objects.len() == 0
            && f.motion.len() == 0 ==> ({
            let plain = "frame#"@ + decimal(f.frame_seq as nat) + " ts="@ + decimal(
                f.timestamp_ms as nat,
            ) + "ms "@ + decimal(f.width as nat) + "x"@ + decimal(f.height as nat) + " flags=0x"@
                + hex_byte(f.flags);
            let key = if f.flags % 2 == 1 {
                plain + " KEYFRAME"@
            } else {
                plain
            };
            frame_text(f) == if (f.flags / 2) % 2 == 1 {
                key + " SCENE_CHANGE"@
            } else {
                key
            }
        }),
{
    let flags = f.flags;
    assert(flags & 1 != 0 <==> flags % 2 == 1) by (bit_vector);
    assert(flags & 2 != 0 <==> (flags / 2) % 2 == 1) by (bit_vector);
}

/// Two frames are equal exactly if their features compare equal as numbers and all
/// else is the same; so it is with two sets of statistics and their rates.
pub proof fn lemma_summary_equality(a: FrameSummary, b: FrameSummary, c: AiStats, d: AiStats)
    ensures
        PartialEqSpec::eq_spec(&a, &b) ==> a.timestamp_ms == b.timestamp_ms && a.frame_seq == b.frame_seq && a.width
            == b.width && a.height == b.height && a.flags == b.flags && rows_equal(
            a.features@,
            b.features@,
        ) && a.motion@ == b.motion@ && a.objects@ == b.objects@ && a.text_regions@
            == b.text_regions@,
        PartialEqSpec::eq_spec(&c, &d) ==> c.uptime_ms == d.uptime_ms && c.frames_sampled == d.frames_sampled
            && c.frames_skipped_keyframe == d.frames_skipped_keyframe && c.frames_yolo_inferred
            == d.frames_yolo_inferred && c.bytes_summary_emitted == d.bytes_summary_emitted
            && numbers_equal(c.avg_latency_ms, d.avg_latency_ms) && numbers_equal(
            c.current_fps,
            d.current_fps,
        ),
        c == d && !is_nan(c.avg_latency_ms) && !is_nan(c.current_fps) ==> PartialEqSpec::eq_spec(&c, &d),
{
}

/// The flags of a frame are bits of their own, and what it holds is told by its lists.
pub proof fn lemma_frame_tells(
    f: &FrameSummary,
    key: bool,
    scene: bool,
    objects: bool,
    moving: bool,
)
    requires
        call_ensures(FrameSummary::is_keyframe, (f,), key),
        call_ensures(FrameSummary::is_scene_change, (f,), scene),
        call_ensures(FrameSummary::has_objects, (f,), objects),
        call_ensures(FrameSummary::is_moving, (f,), moving),
    ensures
        key <==> f.flags % 2 == 1,
        scene <==> f.flags / 2 % 2 == 1,
        objects <==> f@.objects.len() > 0,
        moving <==> f@.motion.len() > 0,
{
    let b = f.flags;
    assert(b & 1 != 0 <==> b % 2 == 1) by (bit_vector);
    assert(b & 2 != 0 <==> b / 2 % 2 == 1) by (bit_vector);
}

/// A frame that was encoded decodes to itself, whatever follows it.
pub proof fn lemma_encoded_frame_decodes(
    f: &FrameSummary,
    payload: Option<Vec<u8>>,
    p: &[u8],
    g: Result<FrameSummary>,
    tail: Seq<u8>,
)
    requires
        call_ensures(FrameSummary::encode_payload, (f,), payload),
        payload is Some,
        p@ == payload->0@ + tail,
        call_ensures(FrameSummary::parse, (p,), g),
    ensures
        g matches Ok(h) && h@ == f@,
{
    lemma_frame_round_trip(f@, tail);
}

/// The envelope of a frame is its type, its length and its payload.
pub proof fn lemma_frame_envelope_wraps_payload(
    f: &FrameSummary,
    payload: Option<Vec<u8>>,
    envelope: Option<Vec<u8>>,
)
    requires
        call_ensures(FrameSummary::encode_payload, (f,), payload),
        call_ensures(frame_summary_envelope, (f,), envelope),
        payload is Some,
    ensures
        envelope is Some,
        envelope->0@ == seq![3u8] + be32(payload->0@.len() as u32) + payload->0@,
{
}

/// An envelope is as long as it announces, header and all, and the whole of it is told
/// only where it is there.
pub proof fn lemma_envelope_tells_length(
    ty: u8,
    payload: Seq<u8>,
    tail: Seq<u8>,
    e: &[u8],
    announced: Option<u64>,
    len: Option<usize>,
)
    requires
        payload.len() <= u32::MAX,
        e@ == seq![ty] + be32(payload.len() as u32) + payload + tail,
        call_ensures(envelope_announced, (e,), announced),
        call_ensures(envelope_len, (e,), len),
    ensures
        announced == Some((5 + payload.len()) as u64),
        len == Some((5 + payload.len()) as usize),
{
    lemma_envelope_skips(ty, payload, tail);
}

/// Of an envelope that is cut off behind its header only the announced length is told,
/// and of one that is cut off in its header nothing.
pub proof fn lemma_cut_envelope_tells(e: &[u8], announced: Option<u64>, len: Option<usize>)
    requires
        call_ensures(envelope_announced, (e,), announced),
        call_ensures(envelope_len, (e,), len),
    ensures
        announced is None <==> e@.len() < 5,
        len is Some <==> announced is Some && announced->0 <= e@.len(),
        len is Some ==> len->0 == announced->0 as usize,
{
}

/// A payload in an envelope of frames is read as the payload alone is.
pub proof fn lemma_enveloped_frame_is_read(
    payload: &[u8],
    tail: Seq<u8>,
    e: &[u8],
    g: Result<FrameSummary>,
    d: Result<Option<DeviceEnvelope>>,
)
    requires
        payload@.len() <= u32::MAX,
        e@ == seq![3u8] + be32(payload@.len() as u32) + payload@ + tail,
        call_ensures(FrameSummary::parse, (payload,), g),
        call_ensures(read_device_envelope, (e,), d),
    ensures
        g is Ok <==> d is Ok,
        g matches Ok(h) ==> (d matches Ok(Some(DeviceEnvelope::Frame(k))) && k@ == h@),
{
    lemma_envelope_skips(3, payload@, tail);
}

/// A frame has no encoding exactly if it is not countable.
pub proof fn lemma_encoding_refused(
    f: &FrameSummary,
    payload: Option<Vec<u8>>,
    envelope: Option<Vec<u8>>,
)
    requires
        call_ensures(FrameSummary::encode_payload, (f,), payload),
        call_ensures(frame_summary_envelope, (f,), envelope),
    ensures
        payload is None <==> envelope is None,
        payload is None <==> !countable(f@),
{
}

/// Statistics in an envelope decode to what was written, and without enough bytes they
/// are refused.
pub proof fn lemma_encoded_stats_decode(
    a: AiStats,
    tail: Seq<u8>,
    p: &[u8],
    e: &[u8],
    r: Result<AiStats>,
    d: Result<Option<DeviceEnvelope>>,
)
    requires
        call_ensures(AiStats::parse, (p,), r),
        call_ensures(read_device_envelope, (e,), d),
    ensures
        p@ == stats_payload(a) + tail ==> r == Ok::<AiStats, Error>(a),
        p@.len() < 36 <==> r is Err,
        e@ == seq![4u8] + be32(36) + stats_payload(a) + tail ==> d
            == Ok::<Option<DeviceEnvelope>, Error>(Some(DeviceEnvelope::Stats(a))),
        e@.len() < 5 ==> d == Ok::<Option<DeviceEnvelope>, Error>(None),
        e@.len() >= 5 && e@.len() < 5 + u32_at(e@, 1) ==> d is Err,
        e@.len() >= 5 && e@.len() >= 5 + u32_at(e@, 1) && e@[0] != 3 && e@[0] != 4 ==> d
            == Ok::<Option<DeviceEnvelope>, Error>(None),
{
    lemma_stats_round_trip(a, tail);
    lemma_stats_round_trip(a, Seq::empty());
    assert(stats_payload(a) + Seq::<u8>::empty() =~= stats_payload(a));
    lemma_envelope_skips(4, stats_payload(a), tail);
}

/// How statistics read: whole seconds of uptime, then the counts, then the two rates as
/// they are given.
pub proof fn lemma_stats_text(
    a: &AiStats,
    avg: &str,
    fps: &str,
    r: String,
    seconds: u64,
)
    requires
        call_ensures(AiStats::describe, (a, avg, fps), r),
        1000 * seconds <= a.uptime_ms < 1000 * (seconds + 1),
    ensures
        r@ == "uptime="@ + decimal(seconds as nat) + "s sampled="@ + decimal(
            a.frames_sampled as nat,
        ) + " yolo="@ + decimal(a.frames_yolo_inferred as nat) + " bytes="@ + decimal(
            a.bytes_summary_emitted as nat,
        ) + " avg="@ + avg@ + "ms fps="@ + fps@,
{
}

/// Input that ends early is refused under one text, whatever was to be read.
pub proof fn lemma_early_end_is_named(
    p: &[u8],
    f: Result<FrameSummary>,
    a: Result<AiStats>,
    d: Result<Option<DeviceEnvelope>>,
)
    ensures
        call_ensures(FrameSummary::parse, (p,), f) && f is Err ==> (f->Err_0 matches Error::Transport(
            m,
        ) && m@ == "failed to fill whole buffer"@),
        call_ensures(AiStats::parse, (p,), a) && a is Err ==> (a->Err_0 matches Error::Transport(m)
            && m@ == "failed to fill whole buffer"@),
        call_ensures(read_device_envelope, (p,), d) && d is Err ==> (d->Err_0 matches Error::Transport(
            m,
        ) && m@ == "failed to fill whole buffer"@),
{
}

} // verus!
