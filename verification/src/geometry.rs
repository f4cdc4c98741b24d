//! Integer arithmetic between screen pixels and normalized coordinates.
//!
//! A normalized axis runs from 0 to 65535; a pixel axis of `size` pixels runs
//! from 0 to `size - 1`. Every conversion rounds to the nearest value.
use vstd::prelude::*;

use crate::ai::{ObjectBox, TextRegion};
use crate::error::{Error, Result};

verus! {

/// Basis points in the whole of an axis.
pub const BASIS_POINTS: u16 = 10_000;

/// The normalized position of a share of an axis.
pub open spec fn unit_of_basis(bp: int) -> int {
    (bp * 0xFFFF + 5_000) / 10_000
}

/// The pixel of a normalized position.
pub open spec fn pixel_of_unit(v: int, size: int) -> int {
    if size <= 1 {
        0
    } else {
        (v * (size - 1) + 0x7FFF) / 0xFFFF
    }
}

/// The normalized position of a pixel on an axis whose last pixel is `max`.
pub open spec fn unit_of_pixel(p: int, max: int) -> int {
    if max <= 0 {
        0
    } else {
        (p * 0xFFFF + max / 2) / max
    }
}

/// Whether `len` pixels from `start` on lie inside a frame of `frame` pixels.
pub open spec fn inside_frame(start: int, len: int, frame: int) -> bool {
    0 <= start && 0 < len && start + len <= frame
}

/// The position at a share of the way from the lower to the upper edge.
pub open spec fn between(a: int, b: int, bp: int) -> int {
    let lo = if a <= b { a } else { b };
    let hi = if a <= b { b } else { a };
    lo + ((hi - lo) * bp + 5_000) / 10_000
}

pub(crate) fn basis_points_to_unit(bp: u16) -> (r: u16)
    requires
        bp <= BASIS_POINTS,
    ensures
        r == unit_of_basis(bp as int),
{
    ((bp as u32 * 0xFFFF + 5_000) / 10_000) as u16
}

proof fn lemma_product_bound(a: int, b: int, a_max: int, b_max: int)
    requires
        0 <= a <= a_max,
        0 <= b <= b_max,
    ensures
        0 <= a * b <= a_max * b_max,
{
    assert(0 <= a * b <= a_max * b_max) by (nonlinear_arith)
        requires
            0 <= a <= a_max,
            0 <= b <= b_max,
    ;
}

/// A normalized position lands on a pixel of the screen.
pub proof fn lemma_pixel_in_range(v: int, size: int)
    requires
        0 <= v <= 0xFFFF,
        1 <= size <= 0xFFFF,
    ensures
        0 <= pixel_of_unit(v, size) < size,
{
    if size > 1 {
        lemma_product_bound(v, size - 1, 0xFFFF, size - 1);
        let n = v * (size - 1) + 0x7FFF;
        assert(n / 0xFFFF <= size - 1) by (nonlinear_arith)
            requires
                n <= 0xFFFF * (size - 1) + 0x7FFF,
        ;
    }
}

/// A position further along the axis never lands on an earlier pixel.
pub proof fn lemma_pixel_monotone(v: int, w: int, size: int)
    requires
        0 <= v <= w,
        1 <= size,
    ensures
        pixel_of_unit(v, size) <= pixel_of_unit(w, size),
{
    if size > 1 {
        let m = size - 1;
        assert(v * m <= w * m) by (nonlinear_arith)
            requires
                v <= w,
                m >= 0,
        ;
    }
}

/// Normalizing a pixel and converting back on a screen of the same size gives
/// the pixel again.
pub proof fn lemma_pixel_round_trip(p: int, size: int)
    requires
        0 <= p < size <= 0xFFFF,
    ensures
        0 <= unit_of_pixel(p, size - 1) <= 0xFFFF,
        pixel_of_unit(unit_of_pixel(p, size - 1), size) == p,
{
    let m = size - 1;
    if m > 0 {
        let n = p * 0xFFFF + m / 2;
        let u = n / m;
        assert(u * m <= n < u * m + m) by (nonlinear_arith)
            requires
                u == n / m,
                m > 0,
        ;
        assert(0 <= u) by (nonlinear_arith)
            requires
                u == n / m,
                n >= 0,
                m > 0,
        ;
        assert(u <= 0xFFFF) by (nonlinear_arith)
            requires
                u * m <= n,
                n <= m * 0xFFFF + m / 2,
                m > 0,
        ;
        assert(u * m - p * 0xFFFF <= m / 2);
        assert(p * 0xFFFF - u * m <= m - 1 - m / 2);
        let e = u * m + 0x7FFF - p * 0xFFFF;
        assert(0 <= e < 0xFFFF);
        assert((p * 0xFFFF + e) / 0xFFFF == p);
    }
}

pub(crate) fn normalized_axis_to_pixel(v: u16, size: u16) -> (r: i32)
    ensures
        r == pixel_of_unit(v as int, size as int),
        size > 0 ==> 0 <= r < size,
{
    if size <= 1 {
        return 0;
    }
    let m: u64 = size as u64 - 1;
    proof {
        lemma_product_bound(v as int, m as int, 0xFFFF, 0xFFFF);
        lemma_pixel_in_range(v as int, size as int);
    }
    ((v as u64 * m + 0x7FFF) / 0xFFFF) as i32
}

fn pixel_to_unit(p: u32, max: u32) -> (r: u16)
    requires
        p <= max <= 0xFFFF,
    ensures
        r == unit_of_pixel(p as int, max as int),
{
    if max == 0 {
        return 0;
    }
    proof {
        let n = p * 0xFFFF + max / 2;
        let m = max as int;
        assert(0 <= n / m <= 0xFFFF) by (nonlinear_arith)
            requires
                0 <= n <= m * 0xFFFF + m / 2,
                m > 0,
        ;
    }
    ((p as u64 * 0xFFFF + max as u64 / 2) / max as u64) as u16
}

/// The normalized edges of `len` pixels from `start` on: those of the first and
/// of the last pixel.
pub(crate) fn pixel_rect_axis_to_unit(start: i32, len: i32, frame: u16) -> (r: Result<(u16, u16)>)
    ensures
        inside_frame(start as int, len as int, frame as int) ==> (r matches Ok(e) && e.0
            == unit_of_pixel(start as int, frame - 1) && e.1 == unit_of_pixel(
            start + len - 1,
            frame - 1,
        )),
        !inside_frame(start as int, len as int, frame as int) ==> r == Err::<(u16, u16), Error>(
            Error::SessionLifecycle("agent rectangle out of range"),
        ),
{
    if start < 0 || len <= 0 || start as i64 + len as i64 > frame as i64 {
        return Err(Error::SessionLifecycle("agent rectangle out of range"));
    }
    let max: u32 = frame as u32 - 1;
    let first: u16 = pixel_to_unit(start as u32, max);
    let last: u16 = pixel_to_unit((start + len - 1) as u32, max);
    Ok((first, last))
}

/// The position at a share of the way lies between the edges, the whole way at
/// the upper edge and none of it at the lower.
pub proof fn lemma_between_edges(a: int, b: int, bp: int)
    requires
        0 <= bp <= 10_000,
    ensures
        a <= b ==> a <= between(a, b, bp) <= b,
        b <= a ==> b <= between(a, b, bp) <= a,
        a <= b ==> between(a, b, 0) == a && between(a, b, 10_000) == b,
        between(a, b, bp) == between(b, a, bp),
{
    let d = if a <= b { b - a } else { a - b };
    let n = d * bp;
    assert(0 <= n <= d * 10_000) by (nonlinear_arith)
        requires
            d >= 0,
            0 <= bp <= 10_000,
            n == d * bp,
    ;
    assert(d * 0 == 0) by (nonlinear_arith);
}

pub(crate) fn normalized_rect_axis_at_basis_points(a: u16, b: u16, bp: u16) -> (r: u16)
    requires
        bp <= BASIS_POINTS,
    ensures
        r == between(a as int, b as int, bp as int),
{
    let (lo, hi): (u16, u16) = if a <= b { (a, b) } else { (b, a) };
    proof {
        lemma_between_edges(a as int, b as int, bp as int);
        lemma_product_bound(hi - lo, bp as int, 0xFFFF, 10_000);
    }
    let step: u32 = ((hi - lo) as u32 * bp as u32 + 5_000) / 10_000;
    (lo as u32 + step) as u16
}

/// Pixels that an object covers.
pub open spec fn object_area(o: ObjectBox) -> int {
    o.w * o.h
}

/// Pixels that a text region covers.
pub open spec fn region_area(t: TextRegion) -> int {
    t.w * t.h
}

pub(crate) fn area(w: u16, h: u16) -> (r: u32)
    ensures
        r == w * h,
{
    proof {
        lemma_product_bound(w as int, h as int, 0xFFFF, 0xFFFF);
    }
    w as u32 * h as u32
}

/// Whether `a` ranks at least as high as `b`: by confidence, then by area.
pub open spec fn ranks(a: ObjectBox, b: ObjectBox) -> bool {
    a.confidence > b.confidence || (a.confidence == b.confidence && object_area(a) >= object_area(
        b,
    ))
}

pub(crate) fn object_ranks(a: ObjectBox, b: ObjectBox) -> (r: bool)
    ensures
        r == ranks(a, b),
{
    a.confidence > b.confidence || (a.confidence == b.confidence && area(a.w, a.h) >= area(
        b.w,
        b.h,
    ))
}

/// Every conversion gives the nearest value: the pixel, the normalized position of
/// a pixel, that of a share, and the position at a share of the way are each off by
/// no more than half a step.
pub proof fn lemma_conversions_round_to_nearest(v: int, size: int, p: int, bp: int, a: int, b: int)
    requires
        0 <= v <= 65535,
        2 <= size <= 65535,
        0 <= p < size,
        0 <= bp <= 10_000,
    ensures
        -65535 <= 2 * (65535 * pixel_of_unit(v, size) - v * (size - 1)) <= 65535,
        -(size - 1) <= 2 * ((size - 1) * unit_of_pixel(p, size - 1) - p * 65535) <= size - 1,
        -10_000 <= 2 * (10_000 * unit_of_basis(bp) - bp * 65535) <= 10_000,
        a <= b ==> -10_000 <= 2 * (10_000 * (between(a, b, bp) - a) - (b - a) * bp) <= 10_000,
{
    let m = size - 1;
    let n = p * 65535 + m / 2;
    assert(m * (n / m) <= n < m * (n / m) + m) by (nonlinear_arith)
        requires
            m > 0,
    ;
}

/// The ends of an axis map to its ends: no share to the first position and pixel,
/// the whole to the last.
pub proof fn lemma_ends_map_to_ends(size: int)
    requires
        2 <= size <= 65535,
    ensures
        unit_of_basis(0) == 0,
        unit_of_basis(10_000) == 65535,
        pixel_of_unit(0, size) == 0,
        pixel_of_unit(65535, size) == size - 1,
        unit_of_pixel(0, size - 1) == 0,
        unit_of_pixel(size - 1, size - 1) == 65535,
{
    let m = size - 1;
    assert(0 * m == 0) by (nonlinear_arith);
    assert((m * 65535 + m / 2) / m == 65535) by (nonlinear_arith)
        requires
            m > 0,
    ;
    assert((0 + m / 2) / m == 0) by (nonlinear_arith)
        requires
            m > 0,
    ;
}

/// An axis of one pixel or none has only one position to give.
pub proof fn lemma_single_pixel_axis(v: int, p: int, size: int)
    requires
        size <= 1,
    ensures
        pixel_of_unit(v, size) == 0,
        unit_of_pixel(p, size - 1) == 0,
{
}

/// Some pixels lie inside a frame exactly if the first and the last of them do.
pub proof fn lemma_inside_by_ends(start: int, len: int, frame: int)
    ensures
        inside_frame(start, len, frame) <==> len > 0 && 0 <= start < frame && 0 <= start + len - 1
            < frame,
{
}

/// Objects rank by confidence first. Among equally sure ones the larger ranks
/// higher, by width times height whichever way it lies. Of two objects at least one
/// ranks as high as the other.
pub proof fn lemma_ranking(a: ObjectBox, b: ObjectBox)
    ensures
        a.confidence > b.confidence ==> ranks(a, b) && !ranks(b, a),
        a.confidence == b.confidence ==> (ranks(a, b) <==> a.w * a.h >= b.w * b.h),
        ranks(a, b) || ranks(b, a),
        ranks(a, b) <==> ranks(ObjectBox { w: a.h, h: a.w, ..a }, b),
{
    assert(a.w * a.h == a.h * a.w) by (nonlinear_arith);
}

/// The area of a region or an object is that of a rectangle: each more column adds
/// its height.
pub proof fn lemma_area_grows_by_columns(t: TextRegion, o: ObjectBox)
    requires
        t.w < u16::MAX,
        o.w < u16::MAX,
    ensures
        region_area(TextRegion { w: (t.w + 1) as u16, ..t }) == region_area(t) + t.h,
        region_area(TextRegion { w: 0, ..t }) == 0,
        object_area(ObjectBox { w: (o.w + 1) as u16, ..o }) == object_area(o) + o.h,
        object_area(ObjectBox { w: 0, ..o }) == 0,
{
    assert((t.w + 1) * t.h == t.w * t.h + t.h) by (nonlinear_arith);
    assert((o.w + 1) * o.h == o.w * o.h + o.h) by (nonlinear_arith);
}

} // verus!
