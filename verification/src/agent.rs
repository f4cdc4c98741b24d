//! What an agent points at: normalized points, rectangles and targets.
use vstd::prelude::*;

use crate::ai::{FrameSummary, FrameView, ObjectBox, TextRegion};
use crate::error::{Error, Result};
use crate::frames::{ScrollFrame, TouchFrame};
use crate::geometry::{
    area, basis_points_to_unit, between, inside_frame, lemma_between_edges,
    lemma_conversions_round_to_nearest, lemma_ends_map_to_ends, lemma_pixel_in_range,
    lemma_pixel_monotone, lemma_pixel_round_trip, lemma_ranking, normalized_axis_to_pixel,
    normalized_rect_axis_at_basis_points, object_ranks, pixel_of_unit, pixel_rect_axis_to_unit,
    ranks, region_area, unit_of_basis, unit_of_pixel,
};
use crate::types::{TouchAction, TouchPointerId};

verus! {

/// A point on the screen, each axis from 0 to 65535.
#[derive(Debug, Clone, Copy, PartialEq, Eq, Hash, Structural)]
pub struct AgentPoint {
    pub x: u16,
    pub y: u16,
}

impl AgentPoint {
    pub fn new(x: u16, y: u16) -> (r: AgentPoint)
        ensures
            r == (AgentPoint { x, y }),
    {
        AgentPoint { x, y }
    }

    /// The top left corner of the screen.
    pub fn top_left() -> (r: AgentPoint)
        ensures
            r == (AgentPoint { x: 0, y: 0 }),
    {
        AgentPoint::new(0, 0)
    }

    /// The middle of the screen.
    pub fn center() -> (r: AgentPoint)
        ensures
            r == (AgentPoint { x: 0x8000, y: 0x8000 }),
    {
        AgentPoint::new(0x8000, 0x8000)
    }

    /// The bottom right corner of the screen.
    pub fn bottom_right() -> (r: AgentPoint)
        ensures
            r == (AgentPoint { x: 0xFFFF, y: 0xFFFF }),
    {
        AgentPoint::new(0xFFFF, 0xFFFF)
    }

    /// The point at the given shares of the screen, in basis points.
    pub fn try_from_basis_points(x: u16, y: u16) -> (r: Result<AgentPoint>)
        ensures
            x <= 10_000 && y <= 10_000 ==> r == Ok::<AgentPoint, Error>(
                AgentPoint {
                    x: unit_of_basis(x as int) as u16,
                    y: unit_of_basis(y as int) as u16,
                },
            ),
            !(x <= 10_000 && y <= 10_000) ==> r == Err::<AgentPoint, Error>(
                Error::SessionLifecycle("normalized point out of range"),
            ),
    {
        if x > 10_000 || y > 10_000 {
            return Err(Error::SessionLifecycle("normalized point out of range"));
        }
        Ok(AgentPoint::new(basis_points_to_unit(x), basis_points_to_unit(y)))
    }

    /// The pixel of the point on a screen of the given size.
    pub fn to_pixels(self, width: u16, height: u16) -> (r: (i32, i32))
        ensures
            r.0 == pixel_of_unit(self.x as int, width as int),
            r.1 == pixel_of_unit(self.y as int, height as int),
    {
        (normalized_axis_to_pixel(self.x, width), normalized_axis_to_pixel(self.y, height))
    }
}

/// A choice among detected objects.
#[derive(Debug, Clone, Copy, PartialEq, Eq, Hash, Structural)]
pub struct AgentObjectSelector {
    pub class_id: Option<u8>,
    pub min_confidence: u8,
}

impl AgentObjectSelector {
    /// Whether the selector accepts an object.
    pub open spec fn accepts(self, object: ObjectBox) -> bool {
        &&& object.confidence >= self.min_confidence
        &&& self.class_id matches Some(c) ==> object.class_id == c
    }

    /// Whether `i` is the selected object: accepted, ranked no lower than any
    /// accepted object, and the last of those that rank equal.
    pub open spec fn picks(self, objects: Seq<ObjectBox>, i: int) -> bool {
        &&& 0 <= i < objects.len()
        &&& self.accepts(objects[i])
        &&& forall|j: int|
            0 <= j < objects.len() && self.accepts(#[trigger] objects[j]) ==> ranks(
                objects[i],
                objects[j],
            ) && (j > i ==> !ranks(objects[j], objects[i]))
    }

    /// Whether `r` is what the selector finds among `objects`.
    pub open spec fn finds(self, objects: Seq<ObjectBox>, r: Option<ObjectBox>) -> bool {
        match r {
            Some(o) => exists|i: int| #[trigger] self.picks(objects, i) && objects[i] == o,
            None => forall|j: int|
                0 <= j < objects.len() ==> !self.accepts(#[trigger] objects[j]),
        }
    }

    pub fn new(class_id: Option<u8>, min_confidence: u8) -> (r: AgentObjectSelector)
        ensures
            r == (AgentObjectSelector { class_id, min_confidence }),
    {
        AgentObjectSelector { class_id, min_confidence }
    }

    /// Accepts every object.
    pub fn any() -> (r: AgentObjectSelector)
        ensures
            r == (AgentObjectSelector { class_id: None, min_confidence: 0 }),
            forall|o: ObjectBox| #[trigger] r.accepts(o),
    {
        AgentObjectSelector::new(None, 0)
    }

    pub fn class_id(class_id: u8) -> (r: AgentObjectSelector)
        ensures
            r == (AgentObjectSelector { class_id: Some(class_id), min_confidence: 0 }),
    {
        AgentObjectSelector::new(Some(class_id), 0)
    }

    pub fn min_confidence(min_confidence: u8) -> (r: AgentObjectSelector)
        ensures
            r == (AgentObjectSelector { class_id: None, min_confidence }),
    {
        AgentObjectSelector::new(None, min_confidence)
    }

    pub fn class_min_confidence(class_id: u8, min_confidence: u8) -> (r: AgentObjectSelector)
        ensures
            r == (AgentObjectSelector { class_id: Some(class_id), min_confidence }),
    {
        AgentObjectSelector::new(Some(class_id), min_confidence)
    }

    pub fn with_class_id(self, class_id: u8) -> (r: AgentObjectSelector)
        ensures
            r == (AgentObjectSelector { class_id: Some(class_id), ..self }),
    {
        AgentObjectSelector { class_id: Some(class_id), min_confidence: self.min_confidence }
    }

    pub fn with_min_confidence(self, min_confidence: u8) -> (r: AgentObjectSelector)
        ensures
            r == (AgentObjectSelector { min_confidence, ..self }),
    {
        AgentObjectSelector { class_id: self.class_id, min_confidence }
    }

    pub fn matches(self, object: ObjectBox) -> (r: bool)
        ensures
            r == self.accepts(object),
    {
        if object.confidence < self.min_confidence {
            return false;
        }
        match self.class_id {
            Some(class_id) => object.class_id == class_id,
            None => true,
        }
    }

    /// The best accepted object of a frame.
    pub fn select(self, summary: &FrameSummary) -> (r: Option<ObjectBox>)
        ensures
            self.finds(summary.objects@, r),
    {
        let objects: &Vec<ObjectBox> = &summary.objects;
        let mut best: Option<usize> = None;
        let mut i: usize = 0;
        while i < objects.len()
            invariant
                i <= objects@.len(),
                match best {
                    Some(b) => b < i && self.picks(objects@.take(i as int), b as int),
                    None => forall|j: int| 0 <= j < i ==> !self.accepts(#[trigger] objects@[j]),
                },
            decreases objects@.len() - i,
        {
            let o: ObjectBox = objects[i];
            let ghost before = objects@.take(i as int);
            let ghost after = objects@.take(i + 1);
            if self.matches(o) {
                match best {
                    Some(b) => {
                        assert(before[b as int] == objects@[b as int]);
                        if object_ranks(o, objects[b]) {
                            proof {
                                assert forall|j: int|
                                    0 <= j < after.len() && self.accepts(
                                        #[trigger] after[j],
                                    ) implies ranks(after[i as int], after[j]) by {
                                    if j < i {
                                        assert(before[j] == after[j]);
                                    }
                                }
                                assert(self.picks(after, i as int));
                            }
                            best = Some(i);
                        } else {
                            proof {
                                assert forall|j: int|
                                    0 <= j < after.len() && self.accepts(
                                        #[trigger] after[j],
                                    ) implies ranks(after[b as int], after[j]) && (j > b
                                    ==> !ranks(after[j], after[b as int])) by {
                                    if j < i {
                                        assert(before[j] == after[j]);
                                    }
                                }
                                assert(self.picks(after, b as int));
                            }
                        }
                    },
                    None => {
                        proof {
                            assert forall|j: int|
                                0 <= j < after.len() && self.accepts(
                                    #[trigger] after[j],
                                ) implies j == i by {
                                assert(after[j] == objects@[j]);
                            }
                            assert(self.picks(after, i as int));
                        }
                        best = Some(i);
                    },
                }
            } else {
                proof {
                    if let Some(b) = best {
                        assert forall|j: int|
                            0 <= j < after.len() && self.accepts(#[trigger] after[j]) implies ranks(
                            after[b as int],
                            after[j],
                        ) && (j > b ==> !ranks(after[j], after[b as int])) by {
                            assert(j < i);
                            assert(before[j] == after[j]);
                        }
                        assert(before[b as int] == after[b as int]);
                        assert(self.picks(after, b as int));
                    }
                }
            }
            i = i + 1;
        }
        assert(objects@.take(i as int) =~= objects@);
        match best {
            Some(b) => {
                assert(self.picks(objects@, b as int));
                Some(objects[b])
            },
            None => None,
        }
    }

    /// The rectangle of the best accepted object of a frame.
    pub fn select_rect(self, summary: &FrameSummary) -> (r: Result<Option<AgentRect>>)
        ensures
            target_rect(AgentTargetSelector::ObjectMatching(self), summary@, r),
    {
        match self.select(summary) {
            Some(o) => {
                let rect = AgentRect::try_from_object_box(o, summary.width, summary.height);
                proof {
                    let i = choose|i: int|
                        #[trigger]
                        self.picks(summary.objects@, i) && summary.objects@[i] == o;
                    assert(self.picks(summary@.objects, i));
                }
                some_rect(rect)
            },
            None => Ok(None),
        }
    }
}

fn some_rect(r: Result<AgentRect>) -> (o: Result<Option<AgentRect>>)
    ensures
        o == found(r),
{
    match r {
        Ok(rect) => Ok(Some(rect)),
        Err(e) => Err(e),
    }
}

/// A rectangle on the screen, each axis from 0 to 65535.
#[derive(Debug, Clone, Copy, PartialEq, Eq, Hash, Structural)]
pub struct AgentRect {
    pub left: u16,
    pub top: u16,
    pub right: u16,
    pub bottom: u16,
}

/// The rectangle between two corners, whichever way they lie.
pub open spec fn ordered_rect(x1: u16, y1: u16, x2: u16, y2: u16) -> AgentRect {
    AgentRect {
        left: if x1 <= x2 { x1 } else { x2 },
        top: if y1 <= y2 { y1 } else { y2 },
        right: if x1 <= x2 { x2 } else { x1 },
        bottom: if y1 <= y2 { y2 } else { y1 },
    }
}

/// Whether a rectangle of pixels lies inside the frame.
pub open spec fn pixels_inside(x: int, y: int, w: int, h: int, fw: int, fh: int) -> bool {
    inside_frame(x, w, fw) && inside_frame(y, h, fh)
}

/// The rectangle from the first to the last pixel of a pixel rectangle.
pub open spec fn rect_of_pixels(x: int, y: int, w: int, h: int, fw: int, fh: int) -> AgentRect {
    ordered_rect(
        unit_of_pixel(x, fw - 1) as u16,
        unit_of_pixel(y, fh - 1) as u16,
        unit_of_pixel(x + w - 1, fw - 1) as u16,
        unit_of_pixel(y + h - 1, fh - 1) as u16,
    )
}

/// The rectangle of a pixel rectangle, or the error of one that leaves the
/// frame.
pub open spec fn pixel_rect(x: int, y: int, w: int, h: int, fw: int, fh: int) -> Result<AgentRect> {
    if pixels_inside(x, y, w, h, fw, fh) {
        Ok(rect_of_pixels(x, y, w, h, fw, fh))
    } else {
        Err(Error::SessionLifecycle("agent rectangle out of range"))
    }
}

/// [`pixel_rect`] of an object in a frame.
pub open spec fn object_rect(o: ObjectBox, fw: u16, fh: u16) -> Result<AgentRect> {
    pixel_rect(o.x as int, o.y as int, o.w as int, o.h as int, fw as int, fh as int)
}

/// [`pixel_rect`] of a text region in a frame.
pub open spec fn region_rect(t: TextRegion, fw: u16, fh: u16) -> Result<AgentRect> {
    pixel_rect(t.x as int, t.y as int, t.w as int, t.h as int, fw as int, fh as int)
}

/// Whether `i` is the largest text region, the last one among equals.
pub open spec fn largest_region(regions: Seq<TextRegion>, i: int) -> bool {
    &&& 0 <= i < regions.len()
    &&& forall|j: int|
        0 <= j < regions.len() ==> region_area(#[trigger] regions[j]) <= region_area(regions[i])
            && (j > i ==> region_area(regions[j]) < region_area(regions[i]))
}

impl AgentRect {
    /// The rectangle between two corners, whichever way they lie.
    pub fn new(left: u16, top: u16, right: u16, bottom: u16) -> (r: AgentRect)
        ensures
            r == ordered_rect(left, top, right, bottom),
            r.left <= r.right,
            r.top <= r.bottom,
    {
        let (l, r): (u16, u16) = if left <= right { (left, right) } else { (right, left) };
        let (t, b): (u16, u16) = if top <= bottom { (top, bottom) } else { (bottom, top) };
        AgentRect { left: l, top: t, right: r, bottom: b }
    }

    /// The whole screen.
    pub fn full_screen() -> (r: AgentRect)
        ensures
            r == (AgentRect { left: 0, top: 0, right: 0xFFFF, bottom: 0xFFFF }),
    {
        AgentRect::new(0, 0, 0xFFFF, 0xFFFF)
    }

    pub fn from_points(a: AgentPoint, b: AgentPoint) -> (r: AgentRect)
        ensures
            r == ordered_rect(a.x, a.y, b.x, b.y),
    {
        AgentRect::new(a.x, a.y, b.x, b.y)
    }

    /// The rectangle at the given shares of the screen, in basis points.
    pub fn try_from_basis_points(left: u16, top: u16, right: u16, bottom: u16) -> (r: Result<
        AgentRect,
    >)
        ensures
            left <= 10_000 && top <= 10_000 && right <= 10_000 && bottom <= 10_000 ==> r == Ok::<
                AgentRect,
                Error,
            >(
                ordered_rect(
                    unit_of_basis(left as int) as u16,
                    unit_of_basis(top as int) as u16,
                    unit_of_basis(right as int) as u16,
                    unit_of_basis(bottom as int) as u16,
                ),
            ),
            !(left <= 10_000 && top <= 10_000 && right <= 10_000 && bottom <= 10_000) ==> r
                == Err::<AgentRect, Error>(
                Error::SessionLifecycle("normalized point out of range"),
            ),
    {
        match AgentPoint::try_from_basis_points(left, top) {
            Err(e) => Err(e),
            Ok(a) => match AgentPoint::try_from_basis_points(right, bottom) {
                Err(e) => Err(e),
                Ok(b) => Ok(AgentRect::from_points(a, b)),
            },
        }
    }

    /// The rectangle of `w` by `h` pixels at `(x, y)` of a frame.
    pub fn try_from_pixels(
        x: i32,
        y: i32,
        w: i32,
        h: i32,
        frame_width: u16,
        frame_height: u16,
    ) -> (r: Result<AgentRect>)
        ensures
            r == pixel_rect(
                x as int,
                y as int,
                w as int,
                h as int,
                frame_width as int,
                frame_height as int,
            ),
    {
        match pixel_rect_axis_to_unit(x, w, frame_width) {
            Err(e) => Err(e),
            Ok((left, right)) => match pixel_rect_axis_to_unit(y, h, frame_height) {
                Err(e) => Err(e),
                Ok((top, bottom)) => Ok(AgentRect::new(left, top, right, bottom)),
            },
        }
    }

    pub fn try_from_object_box(object: ObjectBox, frame_width: u16, frame_height: u16) -> (r:
        Result<AgentRect>)
        ensures
            r == object_rect(object, frame_width, frame_height),
    {
        AgentRect::try_from_pixels(
            object.x as i32,
            object.y as i32,
            object.w as i32,
            object.h as i32,
            frame_width,
            frame_height,
        )
    }

    pub fn try_from_text_region(region: TextRegion, frame_width: u16, frame_height: u16) -> (r:
        Result<AgentRect>)
        ensures
            r == region_rect(region, frame_width, frame_height),
    {
        AgentRect::try_from_pixels(
            region.x as i32,
            region.y as i32,
            region.w as i32,
            region.h as i32,
            frame_width,
            frame_height,
        )
    }

    /// The rectangle of the object at `index`, if the frame has that many.
    pub fn try_from_frame_object(summary: &FrameSummary, index: usize) -> (r: Result<
        Option<AgentRect>,
    >)
        ensures
            target_rect(AgentTargetSelector::Object(index), summary@, r),
    {
        if index < summary.objects.len() {
            some_rect(
                AgentRect::try_from_object_box(
                    summary.objects[index],
                    summary.width,
                    summary.height,
                ),
            )
        } else {
            Ok(None)
        }
    }

    /// The rectangle of the text region at `index`, if the frame has that many.
    pub fn try_from_frame_text_region(summary: &FrameSummary, index: usize) -> (r: Result<
        Option<AgentRect>,
    >)
        ensures
            target_rect(AgentTargetSelector::TextRegion(index), summary@, r),
    {
        if index < summary.text_regions.len() {
            some_rect(
                AgentRect::try_from_text_region(
                    summary.text_regions[index],
                    summary.width,
                    summary.height,
                ),
            )
        } else {
            Ok(None)
        }
    }

    /// The rectangle of the best object.
    pub fn try_from_best_object(summary: &FrameSummary) -> (r: Result<Option<AgentRect>>)
        ensures
            target_rect(AgentTargetSelector::BestObject, summary@, r),
    {
        AgentRect::try_from_best_object_matching(summary, AgentObjectSelector::any())
    }

    /// The rectangle of the best object of a class.
    pub fn try_from_best_object_class(summary: &FrameSummary, class_id: u8) -> (r: Result<
        Option<AgentRect>,
    >)
        ensures
            target_rect(
                AgentTargetSelector::ObjectMatching(
                    AgentObjectSelector { class_id: Some(class_id), min_confidence: 0 },
                ),
                summary@,
                r,
            ),
    {
        AgentRect::try_from_best_object_matching(summary, AgentObjectSelector::class_id(class_id))
    }

    /// The rectangle of the best object that `selector` accepts.
    pub fn try_from_best_object_matching(
        summary: &FrameSummary,
        selector: AgentObjectSelector,
    ) -> (r: Result<Option<AgentRect>>)
        ensures
            target_rect(AgentTargetSelector::ObjectMatching(selector), summary@, r),
    {
        selector.select_rect(summary)
    }

    /// The rectangle of the largest text region.
    pub fn try_from_largest_text_region(summary: &FrameSummary) -> (r: Result<Option<AgentRect>>)
        ensures
            target_rect(AgentTargetSelector::LargestTextRegion, summary@, r),
    {
        let regions: &Vec<TextRegion> = &summary.text_regions;
        if regions.len() == 0 {
            return Ok(None);
        }
        let mut best: usize = 0;
        let mut i: usize = 1;
        while i < regions.len()
            invariant
                best < i <= regions@.len(),
                forall|j: int|
                    0 <= j < i ==> region_area(#[trigger] regions@[j]) <= region_area(
                        regions@[best as int],
                    ) && (j > best ==> region_area(regions@[j]) < region_area(
                        regions@[best as int],
                    )),
            decreases regions@.len() - i,
        {
            let t: TextRegion = regions[i];
            let b: TextRegion = regions[best];
            if area(t.w, t.h) >= area(b.w, b.h) {
                best = i;
            }
            i = i + 1;
        }
        assert(largest_region(summary@.text_regions, best as int));
        some_rect(
            AgentRect::try_from_text_region(regions[best], summary.width, summary.height),
        )
    }

    pub fn top_left(self) -> (r: AgentPoint)
        ensures
            r == (AgentPoint { x: self.left, y: self.top }),
    {
        AgentPoint::new(self.left, self.top)
    }

    pub fn top_right(self) -> (r: AgentPoint)
        ensures
            r == (AgentPoint { x: self.right, y: self.top }),
    {
        AgentPoint::new(self.right, self.top)
    }

    pub fn bottom_left(self) -> (r: AgentPoint)
        ensures
            r == (AgentPoint { x: self.left, y: self.bottom }),
    {
        AgentPoint::new(self.left, self.bottom)
    }

    pub fn bottom_right(self) -> (r: AgentPoint)
        ensures
            r == (AgentPoint { x: self.right, y: self.bottom }),
    {
        AgentPoint::new(self.right, self.bottom)
    }

    /// The middle of the rectangle, halves rounded up.
    pub fn center(self) -> (r: AgentPoint)
        ensures
            r.x == (self.left + self.right + 1) / 2,
            r.y == (self.top + self.bottom + 1) / 2,
    {
        AgentPoint::new(
            ((self.left as u32 + self.right as u32 + 1) / 2) as u16,
            ((self.top as u32 + self.bottom as u32 + 1) / 2) as u16,
        )
    }

    /// The point at the given shares of the way across and down, in basis
    /// points.
    pub fn try_point_at_basis_points(self, x: u16, y: u16) -> (r: Result<AgentPoint>)
        ensures
            x <= 10_000 && y <= 10_000 ==> r == Ok::<AgentPoint, Error>(
                AgentPoint {
                    x: between(self.left as int, self.right as int, x as int) as u16,
                    y: between(self.top as int, self.bottom as int, y as int) as u16,
                },
            ),
            !(x <= 10_000 && y <= 10_000) ==> r == Err::<AgentPoint, Error>(
                Error::SessionLifecycle("normalized point out of range"),
            ),
    {
        if x > 10_000 || y > 10_000 {
            return Err(Error::SessionLifecycle("normalized point out of range"));
        }
        Ok(
            AgentPoint::new(
                normalized_rect_axis_at_basis_points(self.left, self.right, x),
                normalized_rect_axis_at_basis_points(self.top, self.bottom, y),
            ),
        )
    }

    /// The pixels of the left, top, right and bottom edges.
    pub fn to_pixels(self, width: u16, height: u16) -> (r: (i32, i32, i32, i32))
        ensures
            r.0 == pixel_of_unit(self.left as int, width as int),
            r.1 == pixel_of_unit(self.top as int, height as int),
            r.2 == pixel_of_unit(self.right as int, width as int),
            r.3 == pixel_of_unit(self.bottom as int, height as int),
    {
        let (left, top): (i32, i32) = self.top_left().to_pixels(width, height);
        let (right, bottom): (i32, i32) = self.bottom_right().to_pixels(width, height);
        (left, top, right, bottom)
    }
}

/// A choice of something to point at in a frame.
#[derive(Debug, Clone, Copy, PartialEq, Eq, Hash, Structural)]
pub enum AgentTargetSelector {
    Object(usize),
    BestObject,
    ObjectMatching(AgentObjectSelector),
    TextRegion(usize),
    LargestTextRegion,
}

/// Whether the frame holds what the selector asks for.
pub open spec fn target_present(t: AgentTargetSelector, f: FrameView) -> bool {
    match t {
        AgentTargetSelector::Object(index) => index < f.objects.len(),
        AgentTargetSelector::BestObject => f.objects.len() > 0,
        AgentTargetSelector::ObjectMatching(s) => exists|i: int|
            0 <= i < f.objects.len() && s.accepts(#[trigger] f.objects[i]),
        AgentTargetSelector::TextRegion(index) => index < f.text_regions.len(),
        AgentTargetSelector::LargestTextRegion => f.text_regions.len() > 0,
    }
}

/// The error or rectangle of a target that was found.
pub open spec fn found(inner: Result<AgentRect>) -> Result<Option<AgentRect>> {
    match inner {
        Ok(rect) => Ok(Some(rect)),
        Err(e) => Err(e),
    }
}

/// Whether `r` is what the selector gives on the frame.
pub open spec fn target_rect(
    t: AgentTargetSelector,
    f: FrameView,
    r: Result<Option<AgentRect>>,
) -> bool {
    let any = AgentObjectSelector { class_id: None, min_confidence: 0 };
    match t {
        AgentTargetSelector::Object(index) => if index < f.objects.len() {
            r == found(object_rect(f.objects[index as int], f.width, f.height))
        } else {
            r == Ok::<Option<AgentRect>, Error>(None)
        },
        AgentTargetSelector::BestObject => selected_rect(any, f, r),
        AgentTargetSelector::ObjectMatching(s) => selected_rect(s, f, r),
        AgentTargetSelector::TextRegion(index) => if index < f.text_regions.len() {
            r == found(region_rect(f.text_regions[index as int], f.width, f.height))
        } else {
            r == Ok::<Option<AgentRect>, Error>(None)
        },
        AgentTargetSelector::LargestTextRegion => if f.text_regions.len() > 0 {
            exists|i: int| #[trigger]
                largest_region(f.text_regions, i) && r == found(
                    region_rect(f.text_regions[i], f.width, f.height),
                )
        } else {
            r == Ok::<Option<AgentRect>, Error>(None)
        },
    }
}

/// Whether `r` is the rectangle of the object that `s` picks.
pub open spec fn selected_rect(
    s: AgentObjectSelector,
    f: FrameView,
    r: Result<Option<AgentRect>>,
) -> bool {
    if target_present(AgentTargetSelector::ObjectMatching(s), f) {
        exists|i: int| #[trigger]
            s.picks(f.objects, i) && r == found(object_rect(f.objects[i], f.width, f.height))
    } else {
        r == Ok::<Option<AgentRect>, Error>(None)
    }
}

impl AgentTargetSelector {
    pub fn object(index: usize) -> (r: AgentTargetSelector)
        ensures
            r == AgentTargetSelector::Object(index),
    {
        AgentTargetSelector::Object(index)
    }

    pub fn best_object() -> (r: AgentTargetSelector)
        ensures
            r == AgentTargetSelector::BestObject,
    {
        AgentTargetSelector::BestObject
    }

    pub fn object_matching(selector: AgentObjectSelector) -> (r: AgentTargetSelector)
        ensures
            r == AgentTargetSelector::ObjectMatching(selector),
    {
        AgentTargetSelector::ObjectMatching(selector)
    }

    pub fn object_class(class_id: u8) -> (r: AgentTargetSelector)
        ensures
            r == AgentTargetSelector::ObjectMatching(
                AgentObjectSelector { class_id: Some(class_id), min_confidence: 0 },
            ),
    {
        AgentTargetSelector::ObjectMatching(AgentObjectSelector::class_id(class_id))
    }

    pub fn object_class_min_confidence(class_id: u8, min_confidence: u8) -> (r:
        AgentTargetSelector)
        ensures
            r == AgentTargetSelector::ObjectMatching(
                AgentObjectSelector { class_id: Some(class_id), min_confidence },
            ),
    {
        AgentTargetSelector::ObjectMatching(
            AgentObjectSelector::class_min_confidence(class_id, min_confidence),
        )
    }

    pub fn text_region(index: usize) -> (r: AgentTargetSelector)
        ensures
            r == AgentTargetSelector::TextRegion(index),
    {
        AgentTargetSelector::TextRegion(index)
    }

    pub fn largest_text_region() -> (r: AgentTargetSelector)
        ensures
            r == AgentTargetSelector::LargestTextRegion,
    {
        AgentTargetSelector::LargestTextRegion
    }

    /// Whether the frame holds what the selector asks for.
    pub fn is_present(self, summary: &FrameSummary) -> (r: bool)
        ensures
            r == target_present(self, summary@),
    {
        match self {
            AgentTargetSelector::Object(index) => index < summary.objects.len(),
            AgentTargetSelector::BestObject => summary.objects.len() > 0,
            AgentTargetSelector::ObjectMatching(selector) => {
                match selector.select(summary) {
                    Some(o) => {
                        proof {
                            let i = choose|i: int|
                                #[trigger]
                                selector.picks(summary.objects@, i) && summary.objects@[i] == o;
                            assert(selector.accepts(summary@.objects[i]));
                        }
                        true
                    },
                    None => false,
                }
            },
            AgentTargetSelector::TextRegion(index) => index < summary.text_regions.len(),
            AgentTargetSelector::LargestTextRegion => summary.text_regions.len() > 0,
        }
    }

    /// The rectangle of the target, if the frame holds it.
    pub fn select_rect(self, summary: &FrameSummary) -> (r: Result<Option<AgentRect>>)
        ensures
            target_rect(self, summary@, r),
    {
        match self {
            AgentTargetSelector::Object(index) => AgentRect::try_from_frame_object(summary, index),
            AgentTargetSelector::BestObject => AgentRect::try_from_best_object(summary),
            AgentTargetSelector::ObjectMatching(selector) => {
                AgentRect::try_from_best_object_matching(summary, selector)
            },
            AgentTargetSelector::TextRegion(index) => AgentRect::try_from_frame_text_region(
                summary,
                index,
            ),
            AgentTargetSelector::LargestTextRegion => AgentRect::try_from_largest_text_region(
                summary,
            ),
        }
    }
}

/// A touch event with pressure from 0 to 65535.
#[derive(Debug, Clone, Copy, PartialEq, Eq, Hash, Structural)]
pub struct AgentTouchFrame {
    pub action: TouchAction,
    pub pointer_id: u64,
    pub x: i32,
    pub y: i32,
    pub pressure: u16,
}

impl AgentTouchFrame {
    pub open spec fn spec_empty() -> AgentTouchFrame {
        AgentTouchFrame { action: TouchAction::MOVE, pointer_id: 0, x: 0, y: 0, pressure: 0 }
    }

    /// The filler of unused batch slots.
    #[verifier::when_used_as_spec(spec_empty)]
    pub fn empty() -> (r: AgentTouchFrame)
        ensures
            r == Self::spec_empty(),
    {
        AgentTouchFrame { action: TouchAction::MOVE, pointer_id: 0, x: 0, y: 0, pressure: 0 }
    }

    pub fn new(action: TouchAction, pointer_id: u64, x: i32, y: i32, pressure: u16) -> (r:
        AgentTouchFrame)
        ensures
            r == (AgentTouchFrame { action, pointer_id, x, y, pressure }),
    {
        AgentTouchFrame { action, pointer_id, x, y, pressure }
    }

    pub fn with_pointer(
        action: TouchAction,
        pointer_id: TouchPointerId,
        x: i32,
        y: i32,
        pressure: u16,
    ) -> (r: AgentTouchFrame)
        ensures
            r == (AgentTouchFrame { action, pointer_id: pointer_id.code(), x, y, pressure }),
    {
        AgentTouchFrame::new(action, pointer_id.value(), x, y, pressure)
    }

    pub fn down(pointer_id: u64, x: i32, y: i32, pressure: u16) -> (r: AgentTouchFrame)
        ensures
            r == (AgentTouchFrame { action: TouchAction::DOWN, pointer_id, x, y, pressure }),
    {
        AgentTouchFrame::new(TouchAction::DOWN, pointer_id, x, y, pressure)
    }

    pub fn down_pointer(pointer_id: TouchPointerId, x: i32, y: i32, pressure: u16) -> (r:
        AgentTouchFrame)
        ensures
            r == (AgentTouchFrame {
                action: TouchAction::DOWN,
                pointer_id: pointer_id.code(),
                x,
                y,
                pressure,
            }),
    {
        AgentTouchFrame::with_pointer(TouchAction::DOWN, pointer_id, x, y, pressure)
    }

    pub fn move_to(pointer_id: u64, x: i32, y: i32, pressure: u16) -> (r: AgentTouchFrame)
        ensures
            r == (AgentTouchFrame { action: TouchAction::MOVE, pointer_id, x, y, pressure }),
    {
        AgentTouchFrame::new(TouchAction::MOVE, pointer_id, x, y, pressure)
    }

    pub fn move_pointer_to(pointer_id: TouchPointerId, x: i32, y: i32, pressure: u16) -> (r:
        AgentTouchFrame)
        ensures
            r == (AgentTouchFrame {
                action: TouchAction::MOVE,
                pointer_id: pointer_id.code(),
                x,
                y,
                pressure,
            }),
    {
        AgentTouchFrame::with_pointer(TouchAction::MOVE, pointer_id, x, y, pressure)
    }

    pub fn up(pointer_id: u64, x: i32, y: i32) -> (r: AgentTouchFrame)
        ensures
            r == (AgentTouchFrame { action: TouchAction::UP, pointer_id, x, y, pressure: 0 }),
    {
        AgentTouchFrame::new(TouchAction::UP, pointer_id, x, y, 0)
    }

    pub fn up_pointer(pointer_id: TouchPointerId, x: i32, y: i32) -> (r: AgentTouchFrame)
        ensures
            r == (AgentTouchFrame {
                action: TouchAction::UP,
                pointer_id: pointer_id.code(),
                x,
                y,
                pressure: 0,
            }),
    {
        AgentTouchFrame::with_pointer(TouchAction::UP, pointer_id, x, y, 0)
    }

    pub fn cancel(pointer_id: u64) -> (r: AgentTouchFrame)
        ensures
            r == (AgentTouchFrame {
                action: TouchAction::CANCEL,
                pointer_id,
                x: 0,
                y: 0,
                pressure: 0,
            }),
    {
        AgentTouchFrame::new(TouchAction::CANCEL, pointer_id, 0, 0, 0)
    }

    pub fn cancel_pointer(pointer_id: TouchPointerId) -> (r: AgentTouchFrame)
        ensures
            r == (AgentTouchFrame {
                action: TouchAction::CANCEL,
                pointer_id: pointer_id.code(),
                x: 0,
                y: 0,
                pressure: 0,
            }),
    {
        AgentTouchFrame::with_pointer(TouchAction::CANCEL, pointer_id, 0, 0, 0)
    }

    /// The touch frame with the pressure given as a single-precision bit
    /// pattern.
    pub fn into_touch_frame(self, pressure_bits: u32) -> (r: TouchFrame)
        ensures
            r == (TouchFrame {
                action: self.action.code(),
                pointer_id: self.pointer_id,
                x: self.x,
                y: self.y,
                pressure: pressure_bits,
            }),
    {
        TouchFrame::with_action(self.action, self.pointer_id, self.x, self.y, pressure_bits)
    }
}

/// A scroll event in whole steps.
#[derive(Debug, Clone, Copy, PartialEq, Eq, Hash, Structural)]
pub struct AgentScrollFrame {
    pub x: i32,
    pub y: i32,
    pub hscroll: i16,
    pub vscroll: i16,
    pub buttons: u32,
}

impl AgentScrollFrame {
    pub open spec fn spec_empty() -> AgentScrollFrame {
        AgentScrollFrame { x: 0, y: 0, hscroll: 0, vscroll: 0, buttons: 0 }
    }

    /// The filler of unused batch slots.
    #[verifier::when_used_as_spec(spec_empty)]
    pub fn empty() -> (r: AgentScrollFrame)
        ensures
            r == Self::spec_empty(),
    {
        AgentScrollFrame { x: 0, y: 0, hscroll: 0, vscroll: 0, buttons: 0 }
    }

    pub fn new(x: i32, y: i32, hscroll: i16, vscroll: i16, buttons: u32) -> (r: AgentScrollFrame)
        ensures
            r == (AgentScrollFrame { x, y, hscroll, vscroll, buttons }),
    {
        AgentScrollFrame { x, y, hscroll, vscroll, buttons }
    }

    pub fn scroll(x: i32, y: i32, hscroll: i16, vscroll: i16) -> (r: AgentScrollFrame)
        ensures
            r == (AgentScrollFrame { x, y, hscroll, vscroll, buttons: 0 }),
    {
        AgentScrollFrame::new(x, y, hscroll, vscroll, 0)
    }

    /// The scroll frame with both deltas given as single-precision bit patterns.
    pub fn into_scroll_frame(self, hscroll_bits: u32, vscroll_bits: u32) -> (r: ScrollFrame)
        ensures
            r == (ScrollFrame {
                x: self.x,
                y: self.y,
                hscroll: hscroll_bits,
                vscroll: vscroll_bits,
                buttons: self.buttons,
            }),
    {
        ScrollFrame::new(self.x, self.y, hscroll_bits, vscroll_bits, self.buttons)
    }
}

/// Swapping the corners of a rectangle does not change it, and ordering an
/// ordered rectangle leaves it alone.
pub proof fn lemma_rect_corner_order(x1: u16, y1: u16, x2: u16, y2: u16)
    ensures
        ordered_rect(x1, y1, x2, y2) == ordered_rect(x2, y2, x1, y1),
        ({
            let r = ordered_rect(x1, y1, x2, y2);
            ordered_rect(r.left, r.top, r.right, r.bottom) == r
        }),
{
}

/// A pixel rectangle inside a frame comes back, first and last pixel, when its
/// normalized rectangle is converted to the frame's pixels.
pub proof fn lemma_pixel_rect_round_trip(x: int, y: int, w: int, h: int, fw: u16, fh: u16)
    requires
        pixels_inside(x, y, w, h, fw as int, fh as int),
    ensures
        ({
            let r = rect_of_pixels(x, y, w, h, fw as int, fh as int);
            &&& pixel_of_unit(r.left as int, fw as int) == x
            &&& pixel_of_unit(r.top as int, fh as int) == y
            &&& pixel_of_unit(r.right as int, fw as int) == x + w - 1
            &&& pixel_of_unit(r.bottom as int, fh as int) == y + h - 1
        }),
{
    lemma_pixel_round_trip(x, fw as int);
    lemma_pixel_round_trip(x + w - 1, fw as int);
    lemma_pixel_round_trip(y, fh as int);
    lemma_pixel_round_trip(y + h - 1, fh as int);
    let l = unit_of_pixel(x, fw - 1);
    let r = unit_of_pixel(x + w - 1, fw - 1);
    if r < l {
        lemma_pixel_monotone(r, l, fw as int);
    }
    let t = unit_of_pixel(y, fh - 1);
    let b = unit_of_pixel(y + h - 1, fh - 1);
    if b < t {
        lemma_pixel_monotone(b, t, fh as int);
    }
}

/// A point picked inside a rectangle never leaves it, on any screen: its pixel
/// lies between the pixels of the edges, and on the screen.
pub proof fn lemma_anchor_stays_inside(rect: AgentRect, x: u16, y: u16, width: u16, height: u16)
    requires
        rect.left <= rect.right,
        rect.top <= rect.bottom,
        x <= 10_000,
        y <= 10_000,
        width > 0,
        height > 0,
    ensures
        ({
            let px = between(rect.left as int, rect.right as int, x as int);
            let py = between(rect.top as int, rect.bottom as int, y as int);
            &&& rect.left <= px <= rect.right
            &&& rect.top <= py <= rect.bottom
            &&& pixel_of_unit(rect.left as int, width as int) <= pixel_of_unit(px, width as int)
                <= pixel_of_unit(rect.right as int, width as int)
            &&& pixel_of_unit(rect.top as int, height as int) <= pixel_of_unit(py, height as int)
                <= pixel_of_unit(rect.bottom as int, height as int)
            &&& 0 <= pixel_of_unit(px, width as int) < width
            &&& 0 <= pixel_of_unit(py, height as int) < height
        }),
{
    let px = between(rect.left as int, rect.right as int, x as int);
    let py = between(rect.top as int, rect.bottom as int, y as int);
    lemma_between_edges(rect.left as int, rect.right as int, x as int);
    lemma_between_edges(rect.top as int, rect.bottom as int, y as int);
    lemma_pixel_monotone(rect.left as int, px, width as int);
    lemma_pixel_monotone(px, rect.right as int, width as int);
    lemma_pixel_monotone(rect.top as int, py, height as int);
    lemma_pixel_monotone(py, rect.bottom as int, height as int);
    lemma_pixel_in_range(px, width as int);
    lemma_pixel_in_range(py, height as int);
}

/// At most one object of a frame is the one that a selector picks.
pub proof fn lemma_pick_is_unique(s: AgentObjectSelector, objects: Seq<ObjectBox>, i: int, j: int)
    requires
        s.picks(objects, i),
        s.picks(objects, j),
    ensures
        i == j,
{
    if i < j {
        assert(!ranks(objects[j], objects[i]));
        assert(ranks(objects[j], objects[i]));
    } else if j < i {
        assert(!ranks(objects[i], objects[j]));
        assert(ranks(objects[i], objects[j]));
    }
}

/// The text region that is selected covers at least as many pixels, width times
/// height, as any other of the frame, and more than any behind it.
pub proof fn lemma_largest_region_by_pixels(regions: Seq<TextRegion>, i: int, j: int)
    requires
        largest_region(regions, i),
        0 <= j < regions.len(),
    ensures
        0 <= i < regions.len(),
        regions[i].w * regions[i].h >= regions[j].w * regions[j].h,
        j > i ==> regions[i].w * regions[i].h > regions[j].w * regions[j].h,
{
    let a = regions[i];
    let b = regions[j];
    assert(region_area(b) <= region_area(a));
}

/// Turning every text region on its side selects the same one.
pub proof fn lemma_largest_region_ignores_sides(
    regions: Seq<TextRegion>,
    turned: Seq<TextRegion>,
    i: int,
)
    requires
        turned.len() == regions.len(),
        forall|k: int|
            0 <= k < regions.len() ==> (#[trigger] turned[k]).w == regions[k].h && turned[k].h
                == regions[k].w,
        largest_region(regions, i),
    ensures
        largest_region(turned, i),
{
    assert forall|k: int| 0 <= k < regions.len() implies turned[k].w * turned[k].h == regions[k].w
        * regions[k].h by {
        let t = turned[k];
        let r = regions[k];
        assert(t.w * t.h == r.w * r.h) by (nonlinear_arith)
            requires
                t.w == r.h,
                t.h == r.w,
        ;
    }
    assert forall|j: int| 0 <= j < turned.len() implies region_area(#[trigger] turned[j])
        <= region_area(turned[i]) && (j > i ==> region_area(turned[j]) < region_area(turned[i])) by {
        lemma_largest_region_by_pixels(regions, i, j);
    }
}

/// A frame has only one largest text region.
pub proof fn lemma_largest_region_is_unique(regions: Seq<TextRegion>, i: int, j: int)
    requires
        largest_region(regions, i),
        largest_region(regions, j),
    ensures
        i == j,
{
    lemma_largest_region_by_pixels(regions, i, j);
    lemma_largest_region_by_pixels(regions, j, i);
}

/// What a selector picks: an object of the asked class, if one is asked for, that is
/// at least as sure as asked. No such object is surer, none that is as sure covers
/// more pixels, and none behind it is as good.
pub proof fn lemma_pick_is_best(s: AgentObjectSelector, objects: Seq<ObjectBox>, i: int, j: int)
    requires
        s.picks(objects, i),
        0 <= j < objects.len(),
        objects[j].confidence >= s.min_confidence,
        s.class_id is None || objects[j].class_id == s.class_id->0,
    ensures
        0 <= i < objects.len(),
        objects[i].confidence >= s.min_confidence,
        s.class_id is Some ==> objects[i].class_id == s.class_id->0,
        objects[i].confidence >= objects[j].confidence,
        objects[i].confidence == objects[j].confidence ==> objects[i].w * objects[i].h
            >= objects[j].w * objects[j].h,
        j > i && objects[i].confidence == objects[j].confidence ==> objects[i].w * objects[i].h
            > objects[j].w * objects[j].h,
{
    assert(s.accepts(objects[j]));
    lemma_ranking(objects[i], objects[j]);
    lemma_ranking(objects[j], objects[i]);
}

/// A selector finds nothing exactly where no object is of the asked class and as
/// sure as asked.
pub proof fn lemma_nothing_found(s: AgentObjectSelector, objects: Seq<ObjectBox>)
    ensures
        s.finds(objects, None) <==> (forall|j: int|
            0 <= j < objects.len() ==> (#[trigger] objects[j]).confidence < s.min_confidence || (
            s.class_id is Some && objects[j].class_id != s.class_id->0)),
{
    assert forall|j: int| 0 <= j < objects.len() implies (s.accepts(#[trigger] objects[j]) <==> !(
    objects[j].confidence < s.min_confidence || (s.class_id is Some && objects[j].class_id
        != s.class_id->0))) by {}
    if s.finds(objects, None) {
        assert forall|j: int| 0 <= j < objects.len() implies (#[trigger] objects[j]).confidence
            < s.min_confidence || (s.class_id is Some && objects[j].class_id != s.class_id->0) by {
            assert(!s.accepts(objects[j]));
        }
    }
}

/// The rectangle of a target is the target's pixels: on a screen as large as the
/// frame its edges fall on the first and the last column and row of the target.
pub proof fn lemma_target_covers_its_pixels(
    t: AgentTargetSelector,
    f: FrameView,
    rect: AgentRect,
)
    requires
        target_rect(t, f, Ok(Some(rect))),
    ensures
        ({
            let left = pixel_of_unit(rect.left as int, f.width as int);
            let top = pixel_of_unit(rect.top as int, f.height as int);
            let right = pixel_of_unit(rect.right as int, f.width as int);
            let bottom = pixel_of_unit(rect.bottom as int, f.height as int);
            match t {
                AgentTargetSelector::Object(k) => {
                    let o = f.objects[k as int];
                    &&& k < f.objects.len()
                    &&& (left, top) == (o.x as int, o.y as int)
                    &&& (right, bottom) == (o.x + o.w - 1, o.y + o.h - 1)
                },
                AgentTargetSelector::TextRegion(k) => {
                    let r = f.text_regions[k as int];
                    &&& k < f.text_regions.len()
                    &&& (left, top) == (r.x as int, r.y as int)
                    &&& (right, bottom) == (r.x + r.w - 1, r.y + r.h - 1)
                },
                AgentTargetSelector::LargestTextRegion => exists|i: int|
                    0 <= i < f.text_regions.len() && (forall|j: int|
                        0 <= j < f.text_regions.len() ==> f.text_regions[i].w * f.text_regions[i].h
                            >= (#[trigger] f.text_regions[j]).w * f.text_regions[j].h) && (left, top)
                        == ((#[trigger] f.text_regions[i]).x as int, f.text_regions[i].y as int) && (
                    right,
                    bottom,
                    ) == (
                        f.text_regions[i].x + f.text_regions[i].w - 1,
                        f.text_regions[i].y + f.text_regions[i].h - 1,
                    ),
                AgentTargetSelector::BestObject => exists|i: int|
                    0 <= i < f.objects.len() && (forall|j: int|
                        0 <= j < f.objects.len() ==> f.objects[i].confidence >= (
                        #[trigger] f.objects[j]).confidence) && (left, top) == (
                        (#[trigger] f.objects[i]).x as int,
                        f.objects[i].y as int,
                    ) && (right, bottom) == (
                        f.objects[i].x + f.objects[i].w - 1,
                        f.objects[i].y + f.objects[i].h - 1,
                    ),
                AgentTargetSelector::ObjectMatching(s) => exists|i: int|
                    0 <= i < f.objects.len() && (#[trigger] f.objects[i]).confidence
                        >= s.min_confidence && (s.class_id is Some ==> f.objects[i].class_id
                        == s.class_id->0) && (left, top) == (
                        f.objects[i].x as int,
                        f.objects[i].y as int,
                    ) && (right, bottom) == (
                        f.objects[i].x + f.objects[i].w - 1,
                        f.objects[i].y + f.objects[i].h - 1,
                    ),
            }
        }),
{
    match t {
        AgentTargetSelector::Object(k) => {
            lemma_object_covers_its_pixels(f.objects[k as int], f.width, f.height, rect);
        },
        AgentTargetSelector::TextRegion(k) => {
            lemma_region_covers_its_pixels(f.text_regions[k as int], f.width, f.height, rect);
        },
        AgentTargetSelector::LargestTextRegion => {
            let i = choose|i: int| #[trigger]
                largest_region(f.text_regions, i) && Ok::<Option<AgentRect>, Error>(Some(rect))
                    == found(region_rect(f.text_regions[i], f.width, f.height));
            lemma_region_covers_its_pixels(f.text_regions[i], f.width, f.height, rect);
            assert forall|j: int| 0 <= j < f.text_regions.len() implies f.text_regions[i].w
                * f.text_regions[i].h >= (#[trigger] f.text_regions[j]).w * f.text_regions[j].h by {
                lemma_largest_region_by_pixels(f.text_regions, i, j);
            }
        },
        AgentTargetSelector::BestObject => {
            let s = AgentObjectSelector { class_id: None, min_confidence: 0 };
            let i = choose|i: int| #[trigger]
                s.picks(f.objects, i) && Ok::<Option<AgentRect>, Error>(Some(rect)) == found(
                    object_rect(f.objects[i], f.width, f.height),
                );
            lemma_object_covers_its_pixels(f.objects[i], f.width, f.height, rect);
            assert forall|j: int| 0 <= j < f.objects.len() implies f.objects[i].confidence >= (
            #[trigger] f.objects[j]).confidence by {
                lemma_pick_is_best(s, f.objects, i, j);
            }
        },
        AgentTargetSelector::ObjectMatching(s) => {
            let i = choose|i: int| #[trigger]
                s.picks(f.objects, i) && Ok::<Option<AgentRect>, Error>(Some(rect)) == found(
                    object_rect(f.objects[i], f.width, f.height),
                );
            lemma_object_covers_its_pixels(f.objects[i], f.width, f.height, rect);
            lemma_pick_is_best(s, f.objects, i, i);
        },
    }
}

proof fn lemma_object_covers_its_pixels(o: ObjectBox, fw: u16, fh: u16, rect: AgentRect)
    requires
        object_rect(o, fw, fh) == Ok::<AgentRect, Error>(rect),
    ensures
        pixel_of_unit(rect.left as int, fw as int) == o.x,
        pixel_of_unit(rect.top as int, fh as int) == o.y,
        pixel_of_unit(rect.right as int, fw as int) == o.x + o.w - 1,
        pixel_of_unit(rect.bottom as int, fh as int) == o.y + o.h - 1,
{
    lemma_pixel_rect_round_trip(o.x as int, o.y as int, o.w as int, o.h as int, fw, fh);
}

proof fn lemma_region_covers_its_pixels(t: TextRegion, fw: u16, fh: u16, rect: AgentRect)
    requires
        region_rect(t, fw, fh) == Ok::<AgentRect, Error>(rect),
    ensures
        pixel_of_unit(rect.left as int, fw as int) == t.x,
        pixel_of_unit(rect.top as int, fh as int) == t.y,
        pixel_of_unit(rect.right as int, fw as int) == t.x + t.w - 1,
        pixel_of_unit(rect.bottom as int, fh as int) == t.y + t.h - 1,
{
    lemma_pixel_rect_round_trip(t.x as int, t.y as int, t.w as int, t.h as int, fw, fh);
}

/// A selector gives nothing exactly where the frame does not hold its target, and
/// an error only for a target that reaches out of the frame or covers nothing.
pub proof fn lemma_target_outcome(
    t: AgentTargetSelector,
    f: FrameView,
    r: Result<Option<AgentRect>>,
)
    requires
        target_rect(t, f, r),
    ensures
        r == Ok::<Option<AgentRect>, Error>(None) <==> !target_present(t, f),
        match t {
            AgentTargetSelector::Object(k) => target_present(t, f) <==> k < f.objects.len(),
            AgentTargetSelector::BestObject => target_present(t, f) <==> f.objects.len() > 0,
            AgentTargetSelector::ObjectMatching(s) => {
                &&& f.objects.len() == 0 ==> !target_present(t, f)
                &&& s.class_id is None && s.min_confidence == 0 && f.objects.len() > 0
                    ==> target_present(t, f)
            },
            AgentTargetSelector::TextRegion(k) => target_present(t, f) <==> k
                < f.text_regions.len(),
            AgentTargetSelector::LargestTextRegion => target_present(t, f) <==> f.text_regions.len()
                > 0,
        },
        match t {
            AgentTargetSelector::Object(k) => k < f.objects.len() ==> {
                let o = f.objects[k as int];
                r is Err <==> o.w == 0 || o.h == 0 || o.x + o.w > f.width || o.y + o.h > f.height
            },
            AgentTargetSelector::TextRegion(k) => k < f.text_regions.len() ==> {
                let o = f.text_regions[k as int];
                r is Err <==> o.w == 0 || o.h == 0 || o.x + o.w > f.width || o.y + o.h > f.height
            },
            _ => true,
        },
        r matches Err(e) ==> e == Error::SessionLifecycle("agent rectangle out of range"),
{
    if f.objects.len() > 0 {
        let s = AgentObjectSelector { class_id: None, min_confidence: 0 };
        assert(s.accepts(f.objects[0]));
        if let AgentTargetSelector::ObjectMatching(m) = t {
            if m.class_id is None && m.min_confidence == 0 {
                assert(m.accepts(f.objects[0]));
            }
        }
    }
}

/// The rectangle between two corners contains both and is no larger than they ask
/// for: its edges are the corners' own coordinates, in order.
pub proof fn lemma_rect_spans_corners(x1: u16, y1: u16, x2: u16, y2: u16)
    ensures
        ({
            let r = ordered_rect(x1, y1, x2, y2);
            &&& r.left <= x1 <= r.right && r.left <= x2 <= r.right
            &&& r.top <= y1 <= r.bottom && r.top <= y2 <= r.bottom
            &&& r.left == x1 || r.left == x2
            &&& r.right == x1 || r.right == x2
            &&& r.top == y1 || r.top == y2
            &&& r.bottom == y1 || r.bottom == y2
        }),
{
}

/// The fillers of unused slots hold zeros, and a filler touch is a move.
pub proof fn lemma_agent_fillers()
    ensures
        AgentTouchFrame::empty().action == TouchAction::MOVE,
        AgentTouchFrame::empty().pointer_id == 0 && AgentTouchFrame::empty().x == 0
            && AgentTouchFrame::empty().y == 0 && AgentTouchFrame::empty().pressure == 0,
        AgentScrollFrame::empty().x == 0 && AgentScrollFrame::empty().y == 0
            && AgentScrollFrame::empty().hscroll == 0 && AgentScrollFrame::empty().vscroll == 0
            && AgentScrollFrame::empty().buttons == 0,
{
}

/// A selector accepts by class and confidence alone: asking for less accepts no less,
/// and what is accepted of one class is accepted without a class.
pub proof fn lemma_looser_selector_accepts_more(s: AgentObjectSelector, o: ObjectBox, lower: u8)
    requires
        lower <= s.min_confidence,
    ensures
        s.accepts(o) ==> (AgentObjectSelector { min_confidence: lower, ..s }).accepts(o),
        s.accepts(o) ==> (AgentObjectSelector { class_id: None, ..s }).accepts(o),
        (AgentObjectSelector { class_id: Some(o.class_id), min_confidence: o.confidence }).accepts(
            o,
        ),
        o.confidence < 255 ==> !(AgentObjectSelector {
            class_id: None,
            min_confidence: (o.confidence + 1) as u8,
        }).accepts(o),
{
}

/// The rectangle of some pixels exists exactly if all of them are on the frame, and two
/// targets with the same pixels have the same rectangle.
pub proof fn lemma_pixel_rect_exists(o: ObjectBox, t: TextRegion, fw: u16, fh: u16)
    ensures
        object_rect(o, fw, fh) is Ok <==> o.w > 0 && o.h > 0 && o.x + o.w <= fw && o.y + o.h <= fh,
        region_rect(t, fw, fh) is Ok <==> t.w > 0 && t.h > 0 && t.x + t.w <= fw && t.y + t.h <= fh,
        o.x == t.x && o.y == t.y && o.w == t.w && o.h == t.h ==> object_rect(o, fw, fh)
            == region_rect(t, fw, fh),
{
}

/// The named points of the screen are its corners and its middle: on any screen their
/// pixels are the first and the last one, and one next to half of the way.
pub proof fn lemma_named_points(w: u16, h: u16, a: AgentPoint, b: AgentPoint, m: AgentPoint)
    requires
        w >= 2,
        h >= 2,
        call_ensures(AgentPoint::top_left, (), a),
        call_ensures(AgentPoint::bottom_right, (), b),
        call_ensures(AgentPoint::center, (), m),
    ensures
        pixel_of_unit(a.x as int, w as int) == 0 && pixel_of_unit(a.y as int, h as int) == 0,
        pixel_of_unit(b.x as int, w as int) == w - 1 && pixel_of_unit(b.y as int, h as int) == h
            - 1,
        m.x - a.x == b.x - m.x + 1,
        m.y - a.y == b.y - m.y + 1,
{
    lemma_ends_map_to_ends(w as int);
    lemma_ends_map_to_ends(h as int);
}

/// A point given by its coordinates keeps them, and its pixel on a screen is the nearest
/// one on each axis.
pub proof fn lemma_point_to_pixels(
    x: u16,
    y: u16,
    p: AgentPoint,
    w: u16,
    h: u16,
    pixel: (i32, i32),
)
    requires
        w >= 2,
        h >= 2,
        call_ensures(AgentPoint::new, (x, y), p),
        call_ensures(AgentPoint::to_pixels, (p, w, h), pixel),
    ensures
        -65535 <= 2 * (65535 * pixel.0 - x * (w - 1)) <= 65535,
        -65535 <= 2 * (65535 * pixel.1 - y * (h - 1)) <= 65535,
        0 <= pixel.0 < w,
        0 <= pixel.1 < h,
{
    lemma_conversions_round_to_nearest(x as int, w as int, 0, 0, 0, 0);
    lemma_conversions_round_to_nearest(y as int, h as int, 0, 0, 0, 0);
    lemma_pixel_in_range(x as int, w as int);
    lemma_pixel_in_range(y as int, h as int);
}

/// A point at shares of the screen exists exactly if neither share is more than the
/// whole, and is the nearest one on each axis.
pub proof fn lemma_point_at_shares(x: u16, y: u16, r: Result<AgentPoint>)
    requires
        call_ensures(AgentPoint::try_from_basis_points, (x, y), r),
    ensures
        r is Ok <==> x <= 10_000 && y <= 10_000,
        r matches Ok(p) ==> -10_000 <= 2 * (10_000 * p.x - x * 65535) <= 10_000 && -10_000 <= 2 * (
        10_000 * p.y - y * 65535) <= 10_000,
{
    if x <= 10_000 && y <= 10_000 {
        lemma_conversions_round_to_nearest(0, 2, 0, x as int, 0, 0);
        lemma_conversions_round_to_nearest(0, 2, 0, y as int, 0, 0);
    }
}

/// A rectangle's corners are the points that it was made from: made anew from two
/// opposite corners, either pair, it is the same.
pub proof fn lemma_rect_from_its_corners(
    rect: AgentRect,
    a: AgentPoint,
    b: AgentPoint,
    c: AgentPoint,
    d: AgentPoint,
    r1: AgentRect,
    r2: AgentRect,
)
    requires
        rect.left <= rect.right,
        rect.top <= rect.bottom,
        call_ensures(AgentRect::top_left, (rect,), a),
        call_ensures(AgentRect::bottom_right, (rect,), b),
        call_ensures(AgentRect::top_right, (rect,), c),
        call_ensures(AgentRect::bottom_left, (rect,), d),
        call_ensures(AgentRect::from_points, (a, b), r1),
        call_ensures(AgentRect::from_points, (c, d), r2),
    ensures
        r1 == rect,
        r2 == rect,
        a.x == d.x <= b.x == c.x,
        a.y == c.y <= b.y == d.y,
{
}

/// The rectangle between two corners spans both, the full screen spans every point, and
/// the middle of a rectangle is as far from one edge as from the other, to within one.
pub proof fn lemma_rect_spans_and_halves(
    x1: u16,
    y1: u16,
    x2: u16,
    y2: u16,
    rect: AgentRect,
    m: AgentPoint,
    full: AgentRect,
)
    requires
        call_ensures(AgentRect::new, (x1, y1, x2, y2), rect),
        call_ensures(AgentRect::center, (rect,), m),
        call_ensures(AgentRect::full_screen, (), full),
    ensures
        rect.left <= x1 <= rect.right && rect.left <= x2 <= rect.right,
        rect.top <= y1 <= rect.bottom && rect.top <= y2 <= rect.bottom,
        0 <= (m.x - rect.left) - (rect.right - m.x) <= 1,
        0 <= (m.y - rect.top) - (rect.bottom - m.y) <= 1,
        full.left == 0 && full.top == 0 && full.right == u16::MAX && full.bottom == u16::MAX,
{
}

/// A rectangle at shares of the screen exists exactly if no share is more than the
/// whole, and its edges are the points at those shares.
pub proof fn lemma_rect_at_shares(
    left: u16,
    top: u16,
    right: u16,
    bottom: u16,
    r: Result<AgentRect>,
)
    requires
        call_ensures(AgentRect::try_from_basis_points, (left, top, right, bottom), r),
        left <= right,
        top <= bottom,
    ensures
        r is Ok <==> right <= 10_000 && bottom <= 10_000,
        r matches Ok(rect) ==> -10_000 <= 2 * (10_000 * rect.left - left * 65535) <= 10_000
            && -10_000 <= 2 * (10_000 * rect.right - right * 65535) <= 10_000 && -10_000 <= 2 * (
        10_000 * rect.top - top * 65535) <= 10_000 && -10_000 <= 2 * (10_000 * rect.bottom - bottom
            * 65535) <= 10_000,
{
    if right <= 10_000 && bottom <= 10_000 {
        lemma_conversions_round_to_nearest(0, 2, 0, left as int, 0, 0);
        lemma_conversions_round_to_nearest(0, 2, 0, top as int, 0, 0);
        lemma_conversions_round_to_nearest(0, 2, 0, right as int, 0, 0);
        lemma_conversions_round_to_nearest(0, 2, 0, bottom as int, 0, 0);
        assert(unit_of_basis(left as int) <= unit_of_basis(right as int));
        assert(unit_of_basis(top as int) <= unit_of_basis(bottom as int));
    }
}

/// A rectangle made of pixels gives the pixels back on a screen of the same size: its
/// edges are the first and the last column and row.
pub proof fn lemma_rect_of_pixels_reads_back(
    x: i32,
    y: i32,
    w: i32,
    h: i32,
    fw: u16,
    fh: u16,
    r: Result<AgentRect>,
    edges: (i32, i32, i32, i32),
)
    requires
        call_ensures(AgentRect::try_from_pixels, (x, y, w, h, fw, fh), r),
        r is Ok,
        call_ensures(AgentRect::to_pixels, (r->Ok_0, fw, fh), edges),
    ensures
        w > 0 && h > 0 && 0 <= x && 0 <= y && x + w <= fw && y + h <= fh,
        edges == (x, y, (x + w - 1) as i32, (y + h - 1) as i32),
{
    lemma_pixel_rect_round_trip(x as int, y as int, w as int, h as int, fw, fh);
}

/// A rectangle of pixels is refused exactly if it is empty or leaves the frame.
pub proof fn lemma_rect_of_pixels_refused(
    x: i32,
    y: i32,
    w: i32,
    h: i32,
    fw: u16,
    fh: u16,
    r: Result<AgentRect>,
)
    requires
        call_ensures(AgentRect::try_from_pixels, (x, y, w, h, fw, fh), r),
    ensures
        r is Err <==> w <= 0 || h <= 0 || x < 0 || y < 0 || x + w > fw || y + h > fh,
{
}

/// The point at shares of a rectangle exists exactly if neither share is more than the
/// whole. It lies in the rectangle: at its top left corner for no share, at its bottom
/// right one for the whole, and in between in proportion, to the nearest.
pub proof fn lemma_point_inside_rect(rect: AgentRect, x: u16, y: u16, r: Result<AgentPoint>)
    requires
        rect.left <= rect.right,
        rect.top <= rect.bottom,
        call_ensures(AgentRect::try_point_at_basis_points, (rect, x, y), r),
    ensures
        r is Ok <==> x <= 10_000 && y <= 10_000,
        r matches Ok(p) ==> {
            &&& rect.left <= p.x <= rect.right && rect.top <= p.y <= rect.bottom
            &&& x == 0 ==> p.x == rect.left
            &&& y == 0 ==> p.y == rect.top
            &&& x == 10_000 ==> p.x == rect.right
            &&& y == 10_000 ==> p.y == rect.bottom
            &&& -10_000 <= 2 * (10_000 * (p.x - rect.left) - (rect.right - rect.left) * x) <= 10_000
            &&& -10_000 <= 2 * (10_000 * (p.y - rect.top) - (rect.bottom - rect.top) * y) <= 10_000
        },
{
    if x <= 10_000 && y <= 10_000 {
        lemma_between_edges(rect.left as int, rect.right as int, x as int);
        lemma_between_edges(rect.top as int, rect.bottom as int, y as int);
        lemma_conversions_round_to_nearest(
            0,
            2,
            0,
            x as int,
            rect.left as int,
            rect.right as int,
        );
        lemma_conversions_round_to_nearest(
            0,
            2,
            0,
            y as int,
            rect.top as int,
            rect.bottom as int,
        );
    }
}

/// What the selectors made by name accept: everything, one class, a confidence, or
/// both. Narrowing a selector replaces one of the two and leaves the other.
pub proof fn lemma_selectors_by_name(
    class: u8,
    confidence: u8,
    o: ObjectBox,
    any: AgentObjectSelector,
    by_class: AgentObjectSelector,
    by_confidence: AgentObjectSelector,
    by_both: AgentObjectSelector,
    s: AgentObjectSelector,
    with_class: AgentObjectSelector,
    with_confidence: AgentObjectSelector,
    accepted: bool,
)
    requires
        call_ensures(AgentObjectSelector::any, (), any),
        call_ensures(AgentObjectSelector::class_id, (class,), by_class),
        call_ensures(AgentObjectSelector::min_confidence, (confidence,), by_confidence),
        call_ensures(AgentObjectSelector::class_min_confidence, (class, confidence), by_both),
        call_ensures(AgentObjectSelector::with_class_id, (s, class), with_class),
        call_ensures(AgentObjectSelector::with_min_confidence, (s, confidence), with_confidence),
        call_ensures(AgentObjectSelector::matches, (by_both, o), accepted),
    ensures
        any.accepts(o),
        by_class.accepts(o) <==> o.class_id == class,
        by_confidence.accepts(o) <==> o.confidence >= confidence,
        by_both.accepts(o) <==> o.class_id == class && o.confidence >= confidence,
        accepted <==> o.class_id == class && o.confidence >= confidence,
        with_class.accepts(o) <==> o.class_id == class && o.confidence >= s.min_confidence,
        with_confidence.accepts(o) <==> o.confidence >= confidence && (s.class_id is None
            || s.class_id == Some(o.class_id)),
{
}

/// What the target selectors made by name find: an object or a region by its place, the
/// best object of all, of a class or of some confidence, or the largest region.
pub proof fn lemma_targets_by_name(
    i: usize,
    class: u8,
    confidence: u8,
    f: FrameView,
    object: AgentTargetSelector,
    best: AgentTargetSelector,
    by_class: AgentTargetSelector,
    by_both: AgentTargetSelector,
    region: AgentTargetSelector,
    largest: AgentTargetSelector,
)
    requires
        call_ensures(AgentTargetSelector::object, (i,), object),
        call_ensures(AgentTargetSelector::best_object, (), best),
        call_ensures(AgentTargetSelector::object_class, (class,), by_class),
        call_ensures(
            AgentTargetSelector::object_class_min_confidence,
            (class, confidence),
            by_both,
        ),
        call_ensures(AgentTargetSelector::text_region, (i,), region),
        call_ensures(AgentTargetSelector::largest_text_region, (), largest),
    ensures
        target_present(object, f) <==> i < f.objects.len(),
        target_present(best, f) <==> f.objects.len() > 0,
        target_present(by_class, f) <==> exists|j: int|
            0 <= j < f.objects.len() && (#[trigger] f.objects[j]).class_id == class,
        target_present(by_both, f) <==> exists|j: int|
            0 <= j < f.objects.len() && (#[trigger] f.objects[j]).class_id == class
                && f.objects[j].confidence >= confidence,
        target_present(region, f) <==> i < f.text_regions.len(),
        target_present(largest, f) <==> f.text_regions.len() > 0,
        best is BestObject && largest is LargestTextRegion,
{
    let s = AgentObjectSelector { class_id: Some(class), min_confidence: 0 };
    let t = AgentObjectSelector { class_id: Some(class), min_confidence: confidence };
    assert forall|j: int| 0 <= j < f.objects.len() implies (s.accepts(#[trigger] f.objects[j])
        <==> f.objects[j].class_id == class) && (t.accepts(f.objects[j]) <==> f.objects[j].class_id
        == class && f.objects[j].confidence >= confidence) by {}
    if target_present(by_class, f) {
        let j = choose|j: int| 0 <= j < f.objects.len() && s.accepts(#[trigger] f.objects[j]);
        assert(f.objects[j].class_id == class);
    }
    if exists|j: int| 0 <= j < f.objects.len() && (#[trigger] f.objects[j]).class_id == class {
        let j = choose|j: int|
            0 <= j < f.objects.len() && (#[trigger] f.objects[j]).class_id == class;
        assert(s.accepts(f.objects[j]));
    }
    if target_present(by_both, f) {
        let j = choose|j: int| 0 <= j < f.objects.len() && t.accepts(#[trigger] f.objects[j]);
        assert(f.objects[j].class_id == class && f.objects[j].confidence >= confidence);
    }
    if exists|j: int|
        0 <= j < f.objects.len() && (#[trigger] f.objects[j]).class_id == class
            && f.objects[j].confidence >= confidence {
        let j = choose|j: int|
            0 <= j < f.objects.len() && (#[trigger] f.objects[j]).class_id == class
                && f.objects[j].confidence >= confidence;
        assert(t.accepts(f.objects[j]));
    }
}

/// Asking a frame for its largest text region gives the pixels of one that covers no
/// fewer pixels than any other, and nothing only where the frame has none.
pub proof fn lemma_largest_region_of_frame(f: &FrameSummary, r: Result<Option<AgentRect>>)
    requires
        call_ensures(AgentRect::try_from_largest_text_region, (f,), r),
    ensures
        r == Ok::<Option<AgentRect>, Error>(None) <==> f.text_regions@.len() == 0,
        r matches Ok(Some(rect)) ==> exists|i: int|
            0 <= i < f.text_regions@.len() && (forall|j: int|
                0 <= j < f.text_regions@.len() ==> f.text_regions@[i].w * f.text_regions@[i].h >= (
                #[trigger] f.text_regions@[j]).w * f.text_regions@[j].h) && pixel_of_unit(
                rect.left as int,
                f.width as int,
            ) == (#[trigger] f.text_regions@[i]).x && pixel_of_unit(
                rect.top as int,
                f.height as int,
            ) == f.text_regions@[i].y && pixel_of_unit(rect.right as int, f.width as int)
                == f.text_regions@[i].x + f.text_regions@[i].w - 1 && pixel_of_unit(
                rect.bottom as int,
                f.height as int,
            ) == f.text_regions@[i].y + f.text_regions@[i].h - 1,
{
    lemma_target_outcome(AgentTargetSelector::LargestTextRegion, f@, r);
    if let Ok(Some(rect)) = r {
        lemma_target_covers_its_pixels(AgentTargetSelector::LargestTextRegion, f@, rect);
    }
}

/// The rectangles that can be asked for by a function of their own are those of the
/// selectors: both ways give the same answer.
pub proof fn lemma_rects_agree_with_selectors(
    f: &FrameSummary,
    i: usize,
    class: u8,
    s: AgentObjectSelector,
    r1: Result<Option<AgentRect>>,
    r2: Result<Option<AgentRect>>,
)
    ensures
        call_ensures(AgentRect::try_from_frame_object, (f, i), r1) && call_ensures(
            AgentTargetSelector::select_rect,
            (AgentTargetSelector::Object(i), f),
            r2,
        ) ==> r1 == r2,
        call_ensures(AgentRect::try_from_frame_text_region, (f, i), r1) && call_ensures(
            AgentTargetSelector::select_rect,
            (AgentTargetSelector::TextRegion(i), f),
            r2,
        ) ==> r1 == r2,
        call_ensures(AgentRect::try_from_best_object, (f,), r1) && call_ensures(
            AgentTargetSelector::select_rect,
            (AgentTargetSelector::BestObject, f),
            r2,
        ) ==> r1 == r2,
        call_ensures(AgentRect::try_from_best_object_matching, (f, s), r1) && call_ensures(
            AgentTargetSelector::select_rect,
            (AgentTargetSelector::ObjectMatching(s), f),
            r2,
        ) ==> r1 == r2,
        call_ensures(AgentRect::try_from_best_object_class, (f, class), r1) && call_ensures(
            AgentTargetSelector::select_rect,
            (
                AgentTargetSelector::ObjectMatching(
                    AgentObjectSelector { class_id: Some(class), min_confidence: 0 },
                ),
                f,
            ),
            r2,
        ) ==> r1 == r2,
        call_ensures(AgentRect::try_from_largest_text_region, (f,), r1) && call_ensures(
            AgentTargetSelector::select_rect,
            (AgentTargetSelector::LargestTextRegion, f),
            r2,
        ) ==> r1 == r2,
        call_ensures(AgentObjectSelector::select_rect, (s, f), r1) && call_ensures(
            AgentTargetSelector::select_rect,
            (AgentTargetSelector::ObjectMatching(s), f),
            r2,
        ) ==> r1 == r2,
{
    lemma_target_rect_is_unique(AgentTargetSelector::Object(i), f@, r1, r2);
    lemma_target_rect_is_unique(AgentTargetSelector::TextRegion(i), f@, r1, r2);
    lemma_target_rect_is_unique(AgentTargetSelector::BestObject, f@, r1, r2);
    lemma_target_rect_is_unique(AgentTargetSelector::ObjectMatching(s), f@, r1, r2);
    lemma_target_rect_is_unique(
        AgentTargetSelector::ObjectMatching(
            AgentObjectSelector { class_id: Some(class), min_confidence: 0 },
        ),
        f@,
        r1,
        r2,
    );
    lemma_target_rect_is_unique(AgentTargetSelector::LargestTextRegion, f@, r1, r2);
}

/// A selector has one answer on a frame.
pub proof fn lemma_target_rect_is_unique(
    t: AgentTargetSelector,
    f: FrameView,
    r1: Result<Option<AgentRect>>,
    r2: Result<Option<AgentRect>>,
)
    ensures
        target_rect(t, f, r1) && target_rect(t, f, r2) ==> r1 == r2,
{
    if target_rect(t, f, r1) && target_rect(t, f, r2) {
        match t {
            AgentTargetSelector::BestObject => {
                let s = AgentObjectSelector { class_id: None, min_confidence: 0 };
                lemma_selected_rect_is_unique(s, f, r1, r2);
            },
            AgentTargetSelector::ObjectMatching(s) => {
                lemma_selected_rect_is_unique(s, f, r1, r2);
            },
            AgentTargetSelector::LargestTextRegion => {
                if f.text_regions.len() > 0 {
                    let i = choose|i: int| #[trigger]
                        largest_region(f.text_regions, i) && r1 == found(
                            region_rect(f.text_regions[i], f.width, f.height),
                        );
                    let j = choose|j: int| #[trigger]
                        largest_region(f.text_regions, j) && r2 == found(
                            region_rect(f.text_regions[j], f.width, f.height),
                        );
                    lemma_largest_region_is_unique(f.text_regions, i, j);
                }
            },
            _ => {},
        }
    }
}

proof fn lemma_selected_rect_is_unique(
    s: AgentObjectSelector,
    f: FrameView,
    r1: Result<Option<AgentRect>>,
    r2: Result<Option<AgentRect>>,
)
    requires
        selected_rect(s, f, r1),
        selected_rect(s, f, r2),
    ensures
        r1 == r2,
{
    if target_present(AgentTargetSelector::ObjectMatching(s), f) {
        let i = choose|i: int| #[trigger]
            s.picks(f.objects, i) && r1 == found(object_rect(f.objects[i], f.width, f.height));
        let j = choose|j: int| #[trigger]
            s.picks(f.objects, j) && r2 == found(object_rect(f.objects[j], f.width, f.height));
        lemma_pick_is_unique(s, f.objects, i, j);
    }
}

/// A touch made by its phase goes out with the wire code of that phase, with its
/// pointer, its position and the pressure that it is given; a cancel has no position.
pub proof fn lemma_touch_made_by_phase(
    f: AgentTouchFrame,
    id: u64,
    x: i32,
    y: i32,
    pressure: u16,
    bits: u32,
    t: TouchFrame,
)
    requires
        call_ensures(AgentTouchFrame::into_touch_frame, (f, bits), t),
    ensures
        call_ensures(AgentTouchFrame::down, (id, x, y, pressure), f) ==> t == (TouchFrame {
            action: 0,
            pointer_id: id,
            x,
            y,
            pressure: bits,
        }) && f.pressure == pressure,
        call_ensures(AgentTouchFrame::move_to, (id, x, y, pressure), f) ==> t == (TouchFrame {
            action: 2,
            pointer_id: id,
            x,
            y,
            pressure: bits,
        }) && f.pressure == pressure,
        call_ensures(AgentTouchFrame::up, (id, x, y), f) ==> t == (TouchFrame {
            action: 1,
            pointer_id: id,
            x,
            y,
            pressure: bits,
        }) && f.pressure == 0,
        call_ensures(AgentTouchFrame::cancel, (id,), f) ==> t == (TouchFrame {
            action: 3,
            pointer_id: id,
            x: 0,
            y: 0,
            pressure: bits,
        }) && f.pressure == 0,
{
}

/// A touch of a named pointer is the touch of the pointer with its number.
pub proof fn lemma_touch_of_named_pointer(
    pointer: TouchPointerId,
    action: TouchAction,
    x: i32,
    y: i32,
    pressure: u16,
    f: AgentTouchFrame,
    g: AgentTouchFrame,
)
    ensures
        call_ensures(AgentTouchFrame::down_pointer, (pointer, x, y, pressure), f) && call_ensures(
            AgentTouchFrame::down,
            (pointer.code(), x, y, pressure),
            g,
        ) ==> f == g,
        call_ensures(AgentTouchFrame::move_pointer_to, (pointer, x, y, pressure), f)
            && call_ensures(AgentTouchFrame::move_to, (pointer.code(), x, y, pressure), g) ==> f
            == g,
        call_ensures(AgentTouchFrame::up_pointer, (pointer, x, y), f) && call_ensures(
            AgentTouchFrame::up,
            (pointer.code(), x, y),
            g,
        ) ==> f == g,
        call_ensures(AgentTouchFrame::cancel_pointer, (pointer,), f) && call_ensures(
            AgentTouchFrame::cancel,
            (pointer.code(),),
            g,
        ) ==> f == g,
        call_ensures(AgentTouchFrame::with_pointer, (action, pointer, x, y, pressure), f)
            && call_ensures(AgentTouchFrame::new, (action, pointer.code(), x, y, pressure), g) ==> f
            == g,
        call_ensures(AgentTouchFrame::new, (action, pointer.code(), x, y, pressure), g) ==> g.action
            == action && g.pointer_id == pointer.code() && g.x == x && g.y == y && g.pressure
            == pressure,
{
}

/// A scroll goes out at its point with the way that it is given and its buttons, none
/// unless they are named.
pub proof fn lemma_scroll_made_by_steps(
    x: i32,
    y: i32,
    hscroll: i16,
    vscroll: i16,
    buttons: u32,
    f: AgentScrollFrame,
    hbits: u32,
    vbits: u32,
    t: ScrollFrame,
)
    requires
        call_ensures(AgentScrollFrame::into_scroll_frame, (f, hbits, vbits), t),
    ensures
        call_ensures(AgentScrollFrame::new, (x, y, hscroll, vscroll, buttons), f) ==> t.x == x
            && t.y == y && t.buttons == buttons && f.hscroll == hscroll && f.vscroll == vscroll,
        call_ensures(AgentScrollFrame::scroll, (x, y, hscroll, vscroll), f) ==> t.x == x && t.y == y
            && t.buttons == 0 && f.hscroll == hscroll && f.vscroll == vscroll,
        t.hscroll == hbits,
        t.vscroll == vbits,
{
}

/// What a selector selects from a frame: one of its objects, of the class asked for and
/// as sure as asked, and none of those is surer.
pub proof fn lemma_selected_object(
    s: AgentObjectSelector,
    f: &FrameSummary,
    r: Option<ObjectBox>,
    j: int,
)
    requires
        call_ensures(AgentObjectSelector::select, (s, f), r),
        0 <= j < f.objects@.len(),
    ensures
        r matches Some(o) ==> f.objects@.contains(o) && o.confidence >= s.min_confidence && (
        s.class_id is Some ==> o.class_id == s.class_id->0),
        f.objects@[j].confidence >= s.min_confidence && (s.class_id is None || f.objects@[j].class_id
            == s.class_id->0) ==> r is Some && r->0.confidence >= f.objects@[j].confidence && (
        r->0.confidence == f.objects@[j].confidence ==> r->0.w * r->0.h >= f.objects@[j].w
            * f.objects@[j].h),
{
    let objects = f.objects@;
    if let Some(o) = r {
        let i = choose|i: int| #[trigger] s.picks(objects, i) && objects[i] == o;
        if objects[j].confidence >= s.min_confidence && (s.class_id is None || objects[j].class_id
            == s.class_id->0) {
            lemma_pick_is_best(s, objects, i, j);
        }
    } else {
        lemma_nothing_found(s, objects);
    }
}

/// Whether a target is on a frame.
pub proof fn lemma_target_is_present(t: AgentTargetSelector, f: &FrameSummary, r: bool, j: int)
    requires
        call_ensures(AgentTargetSelector::is_present, (t, f), r),
    ensures
        match t {
            AgentTargetSelector::Object(k) => r <==> k < f@.objects.len(),
            AgentTargetSelector::BestObject => r <==> f@.objects.len() > 0,
            AgentTargetSelector::TextRegion(k) => r <==> k < f@.text_regions.len(),
            AgentTargetSelector::LargestTextRegion => r <==> f@.text_regions.len() > 0,
            AgentTargetSelector::ObjectMatching(s) => {
                &&& 0 <= j < f@.objects.len() && f@.objects[j].confidence >= s.min_confidence && (
                s.class_id is None || f@.objects[j].class_id == s.class_id->0) ==> r
                &&& f@.objects.len() == 0 ==> !r
                &&& r && f@.objects.len() == 1 ==> f@.objects[0].confidence >= s.min_confidence && (
                s.class_id is None || f@.objects[0].class_id == s.class_id->0)
            },
        },
{
    if let AgentTargetSelector::ObjectMatching(s) = t {
        if 0 <= j < f@.objects.len() && f@.objects[j].confidence >= s.min_confidence && (
        s.class_id is None || f@.objects[j].class_id == s.class_id->0) {
            assert(s.accepts(f@.objects[j]));
        }
    }
}

/// The rectangle of an object or a text region is that of its pixels.
pub proof fn lemma_rects_of_finds(
    o: ObjectBox,
    t: TextRegion,
    fw: u16,
    fh: u16,
    a: Result<AgentRect>,
    b: Result<AgentRect>,
    edges: (i32, i32, i32, i32),
)
    requires
        call_ensures(AgentRect::try_from_object_box, (o, fw, fh), a),
        call_ensures(AgentRect::try_from_text_region, (t, fw, fh), b),
    ensures
        a is Ok <==> o.w > 0 && o.h > 0 && o.x + o.w <= fw && o.y + o.h <= fh,
        b is Ok <==> t.w > 0 && t.h > 0 && t.x + t.w <= fw && t.y + t.h <= fh,
        a is Ok && call_ensures(AgentRect::to_pixels, (a->Ok_0, fw, fh), edges) ==> edges.0 == o.x
            && edges.1 == o.y && edges.2 == o.x + o.w - 1 && edges.3 == o.y + o.h - 1,
        b is Ok && call_ensures(AgentRect::to_pixels, (b->Ok_0, fw, fh), edges) ==> edges.0 == t.x
            && edges.1 == t.y && edges.2 == t.x + t.w - 1 && edges.3 == t.y + t.h - 1,
{
    if a is Ok {
        lemma_pixel_rect_round_trip(o.x as int, o.y as int, o.w as int, o.h as int, fw, fh);
    }
    if b is Ok {
        lemma_pixel_rect_round_trip(t.x as int, t.y as int, t.w as int, t.h as int, fw, fh);
    }
}

/// A selector made of its parts holds them, and a target that asks for it does too.
pub proof fn lemma_selector_holds_its_parts(
    class_id: Option<u8>,
    min_confidence: u8,
    s: AgentObjectSelector,
    t: AgentTargetSelector,
)
    requires
        call_ensures(AgentObjectSelector::new, (class_id, min_confidence), s),
        call_ensures(AgentTargetSelector::object_matching, (s,), t),
    ensures
        s.class_id == class_id,
        s.min_confidence == min_confidence,
        t matches AgentTargetSelector::ObjectMatching(u) && u == s,
{
}

} // verus!
