//! Mapping between the bin and the drawing surface, and the rectangle tests
//! that hit-testing and drag validation are built on.
//!
//! In the bin the origin is the lower-left corner and y grows upwards; on the
//! surface the origin is the upper-left corner and y grows downwards.

use vstd::prelude::*;
use crate::fixed::{in_limit, scale_by, scaled, floor_div, whole, whole_of, lemma_scaled_bound, LIMIT, ONE};
use crate::types::{Placement, ZOOM_MAX, ZOOM_MIN};

verus! {

/// Largest magnitude of a coordinate on the surface that a mapping yields.
pub const SCREEN_LIMIT: i128 = 10_000_000_000_000_000_000_000_000_000_000;

/// Position and extent of the drawing surface in its window, in thousandths
/// of a pixel.
#[derive(Debug, Clone, Copy, PartialEq, Eq)]
pub struct Bounds {
    pub x: i64,
    pub y: i64,
    pub width: i64,
    pub height: i64,
}

impl Bounds {
    /// All four values lie within the supported magnitude.
    pub open spec fn wf(&self) -> bool {
        &&& in_limit(self.x as int)
        &&& in_limit(self.y as int)
        &&& in_limit(self.width as int)
        &&& in_limit(self.height as int)
    }

    /// Executable form of [`Bounds::wf`].
    pub fn is_valid(&self) -> (ok: bool)
        ensures
            ok == self.wf(),
    {
        -LIMIT <= self.x && self.x <= LIMIT && -LIMIT <= self.y && self.y <= LIMIT && -LIMIT
            <= self.width && self.width <= LIMIT && -LIMIT <= self.height && self.height <= LIMIT
    }

    /// Whether the point lies on the surface; the right and lower edges do
    /// not belong to it.
    pub open spec fn spec_contains(&self, px: int, py: int) -> bool {
        &&& self.x <= px < self.x + self.width
        &&& self.y <= py < self.y + self.height
    }

    /// Executable form of [`Bounds::spec_contains`].
    pub fn contains(&self, px: i64, py: i64) -> (inside: bool)
        requires
            self.wf(),
        ensures
            inside == self.spec_contains(px as int, py as int),
    {
        self.x <= px && px < self.x + self.width && self.y <= py && py < self.y + self.height
    }
}

/// An axis-aligned rectangle on the surface, by its upper-left corner and its
/// extent, in thousandths of a pixel.
#[derive(Debug, Clone, Copy, PartialEq, Eq)]
pub struct ScreenRect {
    pub x: i128,
    pub y: i128,
    pub width: i128,
    pub height: i128,
}

impl ScreenRect {
    /// All four values lie within [`SCREEN_LIMIT`].
    pub open spec fn wf(&self) -> bool {
        &&& -SCREEN_LIMIT <= self.x <= SCREEN_LIMIT
        &&& -SCREEN_LIMIT <= self.y <= SCREEN_LIMIT
        &&& -SCREEN_LIMIT <= self.width <= SCREEN_LIMIT
        &&& -SCREEN_LIMIT <= self.height <= SCREEN_LIMIT
    }

    /// Executable form of [`ScreenRect::wf`].
    pub fn is_valid(&self) -> (ok: bool)
        ensures
            ok == self.wf(),
    {
        -SCREEN_LIMIT <= self.x && self.x <= SCREEN_LIMIT && -SCREEN_LIMIT <= self.y && self.y
            <= SCREEN_LIMIT && -SCREEN_LIMIT <= self.width && self.width <= SCREEN_LIMIT
            && -SCREEN_LIMIT <= self.height && self.height <= SCREEN_LIMIT
    }

    /// Whether the point lies in the rectangle, edges included.
    pub open spec fn spec_contains(&self, px: int, py: int) -> bool {
        &&& self.x <= px <= self.x + self.width
        &&& self.y <= py <= self.y + self.height
    }

    /// Whether the point lies in the rectangle without its right and lower
    /// edges.
    pub open spec fn spec_covers(&self, px: int, py: int) -> bool {
        &&& self.x <= px < self.x + self.width
        &&& self.y <= py < self.y + self.height
    }

    /// Whether all four corners of `inner` lie in this rectangle, edges
    /// included.
    pub open spec fn spec_encloses(&self, inner: ScreenRect) -> bool {
        &&& self.spec_contains(inner.x as int, inner.y as int)
        &&& self.spec_contains(inner.x + inner.width, inner.y as int)
        &&& self.spec_contains(inner.x as int, inner.y + inner.height)
        &&& self.spec_contains(inner.x + inner.width, inner.y + inner.height)
    }

    /// Whether no axis separates the two rectangles; rectangles that only
    /// touch are separated.
    pub open spec fn spec_overlaps(&self, other: ScreenRect) -> bool {
        !(self.x + self.width <= other.x || self.x >= other.x + other.width || self.y
            + self.height <= other.y || self.y >= other.y + other.height)
    }

    /// The rectangle moved by `(dx, dy)`.
    pub open spec fn spec_shifted(&self, dx: int, dy: int) -> ScreenRect {
        ScreenRect {
            x: (self.x + dx) as i128,
            y: (self.y + dy) as i128,
            width: self.width,
            height: self.height,
        }
    }

    /// Executable form of [`ScreenRect::spec_contains`].
    pub fn contains(&self, px: i128, py: i128) -> (inside: bool)
        requires
            self.wf(),
        ensures
            inside == self.spec_contains(px as int, py as int),
    {
        self.x <= px && px <= self.x + self.width && self.y <= py && py <= self.y + self.height
    }

    /// Executable form of [`ScreenRect::spec_covers`].
    pub fn covers(&self, px: i128, py: i128) -> (inside: bool)
        requires
            self.wf(),
        ensures
            inside == self.spec_covers(px as int, py as int),
    {
        self.x <= px && px < self.x + self.width && self.y <= py && py < self.y + self.height
    }

    /// Executable form of [`ScreenRect::spec_encloses`].
    pub fn encloses(&self, inner: &ScreenRect) -> (inside: bool)
        requires
            self.wf(),
            inner.wf(),
        ensures
            inside == self.spec_encloses(*inner),
    {
        let right: i128 = inner.x + inner.width;
        let bottom: i128 = inner.y + inner.height;
        self.contains(inner.x, inner.y) && self.contains(right, inner.y) && self.contains(
            inner.x,
            bottom,
        ) && self.contains(right, bottom)
    }

    /// Executable form of [`ScreenRect::spec_overlaps`].
    pub fn overlaps(&self, other: &ScreenRect) -> (hit: bool)
        requires
            self.wf(),
            other.wf(),
        ensures
            hit == self.spec_overlaps(*other),
    {
        !(self.x + self.width <= other.x || self.x >= other.x + other.width || self.y
            + self.height <= other.y || self.y >= other.y + other.height)
    }

    /// Executable form of [`ScreenRect::spec_shifted`] for offsets within the
    /// supported magnitude.
    pub fn shifted(&self, dx: i64, dy: i64) -> (moved: ScreenRect)
        requires
            self.wf(),
            in_limit(dx as int),
            in_limit(dy as int),
            -SCREEN_LIMIT <= self.x + dx <= SCREEN_LIMIT,
            -SCREEN_LIMIT <= self.y + dy <= SCREEN_LIMIT,
        ensures
            moved == self.spec_shifted(dx as int, dy as int),
            moved.wf(),
    {
        ScreenRect {
            x: self.x + dx as i128,
            y: self.y + dy as i128,
            width: self.width,
            height: self.height,
        }
    }
}

/// Whether the bin fits the surface by its width: the surface offers no more
/// pixels per unit across than it does down.
pub open spec fn fits_by_width(bin_w: int, bin_h: int, surface_w: int, surface_h: int) -> bool {
    surface_w * bin_h <= surface_h * bin_w
}

/// How the bin is laid onto the surface: `num / den` pixels per unit, and the
/// surface position of the bin's upper-left corner. All lengths are in
/// thousandths.
#[derive(Debug, Clone, Copy, PartialEq, Eq)]
pub struct Mapping {
    pub num: i128,
    pub den: i128,
    pub origin_x: i128,
    pub origin_y: i128,
    pub bin_width: i64,
    pub bin_height: i64,
}

impl Mapping {
    /// The scale is positive and every value is within the range that
    /// [`Mapping::fit`] yields.
    pub open spec fn wf(&self) -> bool {
        &&& 0 < self.num <= ZOOM_MAX * LIMIT
        &&& 0 < self.den <= ONE * LIMIT
        &&& -SCREEN_LIMIT <= 4 * self.origin_x <= SCREEN_LIMIT
        &&& -SCREEN_LIMIT <= 4 * self.origin_y <= SCREEN_LIMIT
        &&& 0 < self.bin_width <= LIMIT
        &&& 0 < self.bin_height <= LIMIT
    }

    /// Executable form of [`Mapping::wf`].
    pub fn is_valid(&self) -> (ok: bool)
        ensures
            ok == self.wf(),
    {
        let quarter: i128 = SCREEN_LIMIT / 4;
        let num_limit: i128 = 40_000_000_000_000_000;
        let den_limit: i128 = 4_000_000_000_000_000;
        assert(num_limit == ZOOM_MAX * LIMIT && den_limit == ONE * LIMIT);
        0 < self.num && self.num <= num_limit && 0 < self.den && self.den <= den_limit
            && -quarter <= self.origin_x
            && self.origin_x <= quarter && -quarter <= self.origin_y && self.origin_y <= quarter
            && 0 < self.bin_width && self.bin_width <= LIMIT && 0 < self.bin_height
            && self.bin_height <= LIMIT
    }

    /// The mapping that centres a bin of `bin_w` by `bin_h` on a surface of
    /// `surface_w` by `surface_h`, enlarged by `zoom` and moved by the pan.
    ///
    /// The scale is the smaller of `surface_w / bin_w` and
    /// `surface_h / bin_h`, times the zoom.
    pub open spec fn spec_fit(
        bin_w: int,
        bin_h: int,
        surface_w: int,
        surface_h: int,
        zoom: int,
        pan_x: int,
        pan_y: int,
    ) -> Mapping {
        let by_width = fits_by_width(bin_w, bin_h, surface_w, surface_h);
        let num = if by_width {
            zoom * surface_w
        } else {
            zoom * surface_h
        };
        let den = if by_width {
            ONE * bin_w
        } else {
            ONE * bin_h
        };
        Mapping {
            num: num as i128,
            den: den as i128,
            origin_x: ((surface_w - scaled(bin_w, num, den)) / 2 + pan_x) as i128,
            origin_y: ((surface_h - scaled(bin_h, num, den)) / 2 + pan_y) as i128,
            bin_width: bin_w as i64,
            bin_height: bin_h as i64,
        }
    }

    /// Whether a bin and a surface of these extents can be mapped at all.
    pub open spec fn mappable(bin_width: int, total_height: int, surface_w: int, surface_h: int) -> bool {
        bin_width > 0 && total_height > 0 && surface_w > 0 && surface_h > 0
    }

    /// Lays a bin of `bin_width` whole units by `total_height` onto a surface
    /// of the given extent. There is no mapping when the bin or the surface
    /// has no positive extent.
    pub fn fit(
        bin_width: i32,
        total_height: i64,
        surface_w: i64,
        surface_h: i64,
        zoom: i64,
        pan_x: i64,
        pan_y: i64,
    ) -> (result: Option<Mapping>)
        requires
            in_limit(total_height as int),
            in_limit(surface_w as int),
            in_limit(surface_h as int),
            in_limit(pan_x as int),
            in_limit(pan_y as int),
            ZOOM_MIN <= zoom <= ZOOM_MAX,
        ensures
            result is Some <==> Self::mappable(
                bin_width as int,
                total_height as int,
                surface_w as int,
                surface_h as int,
            ),
            result matches Some(m) ==> m.wf() && m == Self::spec_fit(
                whole(bin_width as int),
                total_height as int,
                surface_w as int,
                surface_h as int,
                zoom as int,
                pan_x as int,
                pan_y as int,
            ),
    {
        if bin_width <= 0 || total_height <= 0 || surface_w <= 0 || surface_h <= 0 {
            return None;
        }
        let bin_w: i64 = whole_of(bin_width);
        let w: i128 = surface_w as i128;
        let h: i128 = surface_h as i128;
        assert(0 < w * total_height <= LIMIT * LIMIT && 0 < h * bin_w <= LIMIT * LIMIT
            && 0 < zoom * w <= ZOOM_MAX * LIMIT && 0 < zoom * h <= ZOOM_MAX * LIMIT) by (nonlinear_arith)
            requires
                0 < w <= LIMIT,
                0 < h <= LIMIT,
                0 < total_height <= LIMIT,
                0 < bin_w <= LIMIT,
                ZOOM_MIN <= zoom <= ZOOM_MAX,
        ;
        let by_width: bool = w * (total_height as i128) <= h * (bin_w as i128);
        let num: i128 = if by_width {
            (zoom as i128) * w
        } else {
            (zoom as i128) * h
        };
        let den: i128 = if by_width {
            (ONE as i128) * (bin_w as i128)
        } else {
            (ONE as i128) * (total_height as i128)
        };
        let draw_w: i128 = scale_by(bin_w as i128, num, den);
        let draw_h: i128 = scale_by(total_height as i128, num, den);
        proof {
            lemma_scaled_bound(bin_w as int, num as int, den as int, LIMIT as int, ZOOM_MAX * LIMIT);
            lemma_scaled_bound(total_height as int, num as int, den as int, LIMIT as int, ZOOM_MAX * LIMIT);
        }
        let origin_x: i128 = floor_div(w - draw_w, 2) + pan_x as i128;
        let origin_y: i128 = floor_div(h - draw_h, 2) + pan_y as i128;
        Some(Mapping { num, den, origin_x, origin_y, bin_width: bin_w, bin_height: total_height })
    }

    /// The length on the surface of `v` thousandths of a unit.
    pub open spec fn spec_pixels(&self, v: int) -> int {
        scaled(v, self.num as int, self.den as int)
    }

    /// The length in the bin of `d` thousandths of a pixel.
    pub open spec fn spec_units(&self, d: int) -> int {
        scaled(d, self.den as int, self.num as int)
    }

    /// How far a length may fall short after it was mapped onto the surface
    /// and back: the units that one thousandth of a pixel spans, and one
    /// thousandth of a unit.
    pub open spec fn spec_tolerance(&self) -> int {
        self.den / self.num + 1
    }

    /// The bin's outline on the surface.
    pub open spec fn spec_bin_rect(&self) -> ScreenRect {
        ScreenRect {
            x: self.origin_x,
            y: self.origin_y,
            width: self.spec_pixels(self.bin_width as int) as i128,
            height: self.spec_pixels(self.bin_height as int) as i128,
        }
    }

    /// The placement's rectangle on the surface. Its upper edge is the bin's
    /// height less the placement's top, since the y axes run opposite ways.
    pub open spec fn spec_placement_rect(&self, p: Placement) -> ScreenRect {
        ScreenRect {
            x: (self.origin_x + self.spec_pixels(p.x as int)) as i128,
            y: (self.origin_y + self.spec_pixels(
                self.bin_height - (p.y + whole(p.height as int)),
            )) as i128,
            width: self.spec_pixels(whole(p.width as int)) as i128,
            height: self.spec_pixels(whole(p.height as int)) as i128,
        }
    }

    /// Executable form of [`Mapping::spec_pixels`].
    pub fn to_pixels(&self, v: i64) -> (r: i128)
        requires
            self.wf(),
            -4 * LIMIT <= v <= 4 * LIMIT,
        ensures
            r == self.spec_pixels(v as int),
            -SCREEN_LIMIT <= 4 * r <= SCREEN_LIMIT,
    {
        proof {
            lemma_scaled_bound(v as int, self.num as int, self.den as int, 4 * LIMIT, ZOOM_MAX * LIMIT);
            assert((4 * LIMIT) * (ZOOM_MAX * LIMIT) == 640_000_000_000_000_000_000_000_000_000int) by (nonlinear_arith);
        }
        scale_by(v as i128, self.num, self.den)
    }

    /// Executable form of [`Mapping::spec_units`].
    pub fn to_units(&self, d: i64) -> (r: i128)
        requires
            self.wf(),
            in_limit(d as int),
        ensures
            r == self.spec_units(d as int),
            -SCREEN_LIMIT <= 4 * r <= SCREEN_LIMIT,
    {
        proof {
            lemma_scaled_bound(d as int, self.den as int, self.num as int, LIMIT as int, ONE * LIMIT);
        }
        scale_by(d as i128, self.den, self.num)
    }

    /// Executable form of [`Mapping::spec_bin_rect`].
    pub fn bin_rect(&self) -> (r: ScreenRect)
        requires
            self.wf(),
        ensures
            r == self.spec_bin_rect(),
            r.wf(),
    {
        ScreenRect {
            x: self.origin_x,
            y: self.origin_y,
            width: self.to_pixels(self.bin_width),
            height: self.to_pixels(self.bin_height),
        }
    }

    /// Executable form of [`Mapping::spec_placement_rect`].
    pub fn placement_rect(&self, p: &Placement) -> (r: ScreenRect)
        requires
            self.wf(),
            p.wf(),
        ensures
            r == self.spec_placement_rect(*p),
            r.wf(),
            -SCREEN_LIMIT <= 2 * r.x <= SCREEN_LIMIT,
            -SCREEN_LIMIT <= 2 * r.y <= SCREEN_LIMIT,
    {
        let w: i64 = whole_of(p.width);
        let h: i64 = whole_of(p.height);
        let drop: i64 = self.bin_height - (p.y + h);
        ScreenRect {
            x: self.origin_x + self.to_pixels(p.x),
            y: self.origin_y + self.to_pixels(drop),
            width: self.to_pixels(w),
            height: self.to_pixels(h),
        }
    }
}

/// Scaling a length by `num / den` and back by `den / num` never gains, and
/// loses at most `den / num + 1`.
pub proof fn lemma_scale_and_back(v: int, num: int, den: int)
    requires
        num > 0,
        den > 0,
    ensures
        v - (den / num + 1) <= scaled(scaled(v, num, den), den, num) <= v,
{
    let q = scaled(v, num, den);
    let back = scaled(q, den, num);
    let t = den / num;
    assert(q * den <= v * num && v * num - den < q * den) by (nonlinear_arith)
        requires
            q == (v * num) / den,
            den > 0,
    ;
    assert(back <= v) by (nonlinear_arith)
        requires
            back == (q * den) / num,
            q * den <= v * num,
            num > 0,
    ;
    assert(den < (t + 1) * num) by (nonlinear_arith)
        requires
            t == den / num,
            num > 0,
            den > 0,
    ;
    assert(back >= v - (t + 1)) by (nonlinear_arith)
        requires
            back == (q * den) / num,
            v * num - den < q * den,
            den < (t + 1) * num,
            num > 0,
    ;
}

/// The mapping of a bin and a surface of positive extent is well-formed.
pub proof fn lemma_fit_wf(
    bin_width: int,
    total_height: int,
    surface_w: int,
    surface_h: int,
    zoom: int,
    pan_x: int,
    pan_y: int,
)
    requires
        0 < bin_width <= i32::MAX,
        0 < total_height <= LIMIT,
        0 < surface_w <= LIMIT,
        0 < surface_h <= LIMIT,
        in_limit(pan_x),
        in_limit(pan_y),
        ZOOM_MIN <= zoom <= ZOOM_MAX,
    ensures
        Mapping::spec_fit(
            whole(bin_width),
            total_height,
            surface_w,
            surface_h,
            zoom,
            pan_x,
            pan_y,
        ).wf(),
{
    let bin_w = whole(bin_width);
    assert(0 < zoom * surface_w <= ZOOM_MAX * LIMIT && 0 < zoom * surface_h <= ZOOM_MAX * LIMIT)
        by (nonlinear_arith)
        requires
            0 < surface_w <= LIMIT,
            0 < surface_h <= LIMIT,
            ZOOM_MIN <= zoom <= ZOOM_MAX,
    ;
    let by_width = fits_by_width(bin_w, total_height, surface_w, surface_h);
    let num = if by_width {
        zoom * surface_w
    } else {
        zoom * surface_h
    };
    let den = if by_width {
        ONE * bin_w
    } else {
        ONE * total_height
    };
    lemma_scaled_bound(bin_w, num, den, LIMIT as int, ZOOM_MAX * LIMIT);
    lemma_scaled_bound(total_height, num, den, LIMIT as int, ZOOM_MAX * LIMIT);
    assert(LIMIT * (ZOOM_MAX * LIMIT) == 160_000_000_000_000_000_000_000_000_000int)
        by (nonlinear_arith);
}

/// Mapping a placement onto the surface and its corner back into the bin
/// gives the corner again, to within the mapping's tolerance: for every bin
/// and surface of positive extent, every zoom and every pan.
pub proof fn lemma_placement_round_trip(
    bin_width: int,
    total_height: int,
    surface_w: int,
    surface_h: int,
    zoom: int,
    pan_x: int,
    pan_y: int,
    p: Placement,
)
    requires
        0 < bin_width <= i32::MAX,
        0 < total_height <= LIMIT,
        0 < surface_w <= LIMIT,
        0 < surface_h <= LIMIT,
        in_limit(pan_x),
        in_limit(pan_y),
        ZOOM_MIN <= zoom <= ZOOM_MAX,
        p.wf(),
    ensures
        ({
            let m = Mapping::spec_fit(
                whole(bin_width),
                total_height,
                surface_w,
                surface_h,
                zoom,
                pan_x,
                pan_y,
            );
            let r = m.spec_placement_rect(p);
            let x = m.spec_units(r.x - m.origin_x);
            let y = m.bin_height - whole(p.height as int) - m.spec_units(r.y - m.origin_y);
            &&& p.x - m.spec_tolerance() <= x <= p.x
            &&& p.y <= y <= p.y + m.spec_tolerance()
        }),
{
    lemma_fit_wf(bin_width, total_height, surface_w, surface_h, zoom, pan_x, pan_y);
    let m = Mapping::spec_fit(
        whole(bin_width),
        total_height,
        surface_w,
        surface_h,
        zoom,
        pan_x,
        pan_y,
    );
    let drop = m.bin_height - (p.y + whole(p.height as int));
    lemma_scaled_bound(p.x as int, m.num as int, m.den as int, 4 * LIMIT, ZOOM_MAX * LIMIT);
    lemma_scaled_bound(drop, m.num as int, m.den as int, 4 * LIMIT, ZOOM_MAX * LIMIT);
    assert((4 * LIMIT) * (ZOOM_MAX * LIMIT) == 640_000_000_000_000_000_000_000_000_000int)
        by (nonlinear_arith);
    lemma_scale_and_back(p.x as int, m.num as int, m.den as int);
    lemma_scale_and_back(drop, m.num as int, m.den as int);
}

/// A rectangle of non-negative extent lies inside itself: a candidate that
/// matches the bin's outline is inside the bin.
pub proof fn lemma_encloses_itself(r: ScreenRect)
    requires
        r.width >= 0,
        r.height >= 0,
    ensures
        r.spec_encloses(r),
{
}

/// Moved off its place in any direction by any distance, a rectangle no
/// longer lies inside the outline that it matched.
pub proof fn lemma_shifted_not_enclosed(r: ScreenRect, dx: int, dy: int)
    requires
        r.wf(),
        dx != 0 || dy != 0,
        -SCREEN_LIMIT <= dx <= SCREEN_LIMIT,
        -SCREEN_LIMIT <= dy <= SCREEN_LIMIT,
    ensures
        !r.spec_encloses(r.spec_shifted(dx, dy)),
{
}

impl ScreenRect {
    /// Whether the square of one thousandth of a pixel whose upper-left
    /// corner is `(cx, cy)` lies in the rectangle.
    pub open spec fn spec_has_cell(&self, cx: int, cy: int) -> bool {
        &&& self.x <= cx
        &&& cx + 1 <= self.x + self.width
        &&& self.y <= cy
        &&& cy + 1 <= self.y + self.height
    }

    /// Whether the two rectangles share no area.
    pub open spec fn spec_disjoint(&self, other: ScreenRect) -> bool {
        forall|cx: int, cy: int| !(#[trigger] self.spec_has_cell(cx, cy) && other.spec_has_cell(cx, cy))
    }
}

/// Two rectangles of positive extent overlap exactly when they share area:
/// disjoint rectangles never overlap.
pub proof fn lemma_overlap_is_shared_area(a: ScreenRect, b: ScreenRect)
    requires
        a.width > 0,
        a.height > 0,
        b.width > 0,
        b.height > 0,
    ensures
        a.spec_overlaps(b) <==> !a.spec_disjoint(b),
{
    if a.spec_overlaps(b) {
        let cx = if a.x >= b.x {
            a.x as int
        } else {
            b.x as int
        };
        let cy = if a.y >= b.y {
            a.y as int
        } else {
            b.y as int
        };
        assert(a.spec_has_cell(cx, cy) && b.spec_has_cell(cx, cy));
    }
}

/// A rectangle of positive extent overlaps itself.
pub proof fn lemma_overlaps_itself(a: ScreenRect)
    requires
        a.width > 0,
        a.height > 0,
    ensures
        a.spec_overlaps(a),
{
}

/// Rectangles that touch along an edge do not overlap.
pub proof fn lemma_touching_apart(a: ScreenRect, b: ScreenRect)
    requires
        a.x + a.width == b.x || b.x + b.width == a.x || a.y + a.height == b.y || b.y + b.height
            == a.y,
    ensures
        !a.spec_overlaps(b),
{
}

} // verus!
