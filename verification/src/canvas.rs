//! The canvas on one layout: which rectangle lies under the pointer, whether
//! a dragged rectangle may be dropped, what a pointer event means, and what
//! is to be painted.

use vstd::prelude::*;
use crate::fixed::{in_limit, whole, LIMIT};
use crate::geometry::{Bounds, Mapping, ScreenRect};
use crate::types::{BinCanvas, Input, Placement, ScrollDelta};

verus! {

/// A colour by its red, green and blue channels.
#[derive(Debug, Clone, Copy, PartialEq, Eq)]
pub struct Rgb {
    pub r: u8,
    pub g: u8,
    pub b: u8,
}

/// Start value of the hash that colours are taken from.
pub const HASH_BASIS: u64 = 14695981039346656037;

/// Multiplier of the hash that colours are taken from.
pub const HASH_PRIME: u64 = 1099511628211;

/// The 32 bits of `v`, read as an unsigned number.
pub open spec fn spec_bits(v: i32) -> int {
    if v >= 0 {
        v as int
    } else {
        v + 0x1_0000_0000
    }
}

/// One round of the hash: `word` is mixed into `h` by exclusive or, and the
/// result multiplied by [`HASH_PRIME`] modulo 2^64.
pub open spec fn spec_mix(h: u64, word: int) -> u64 {
    (((h ^ (word as u64)) * HASH_PRIME) % 0x1_0000_0000_0000_0000) as u64
}

/// The hash of a size: both numbers mixed into [`HASH_BASIS`], width first.
pub open spec fn spec_size_hash(x: i32, y: i32) -> u64 {
    spec_mix(spec_mix(HASH_BASIS, spec_bits(x)), spec_bits(y))
}

/// The colour of a rectangle of the given size: the three lowest bytes of the
/// size's hash, the lowest for red.
pub open spec fn spec_color(x: i32, y: i32) -> Rgb {
    let h = spec_size_hash(x, y) as int;
    Rgb { r: (h % 256) as u8, g: ((h / 256) % 256) as u8, b: ((h / 65536) % 256) as u8 }
}

fn mix(h: u64, word: u32) -> (out: u64)
    ensures
        out == spec_mix(h, word as int),
{
    (h ^ (word as u64)).wrapping_mul(HASH_PRIME)
}

fn bits(v: i32) -> (out: u32)
    ensures
        out == spec_bits(v),
{
    let out: u32 = v as u32;
    assert(out == spec_bits(v)) by (bit_vector)
        requires
            out == v as u32,
    ;
    out
}

/// The colour that rectangles of this size are painted in. Equal sizes get
/// equal colours.
pub fn color_from_dimensions(x: i32, y: i32) -> (color: Rgb)
    ensures
        color == spec_color(x, y),
{
    let h: u64 = mix(mix(HASH_BASIS, bits(x)), bits(y));
    let r: u64 = h & 0xFF;
    let g: u64 = (h >> 8) & 0xFF;
    let b: u64 = (h >> 16) & 0xFF;
    assert(r == h % 256 && g == (h / 256) % 256 && b == (h / 65536) % 256) by (bit_vector)
        requires
            r == h & 0xFF,
            g == (h >> 8) & 0xFF,
            b == (h >> 16) & 0xFF,
    ;
    Rgb { r: r as u8, g: g as u8, b: b as u8 }
}

/// The topmost of the first `count` placements whose rectangle on the
/// surface holds the point `(lx, ly)`, edges included. Later placements lie
/// on top of earlier ones.
pub open spec fn spec_hit(
    placements: Seq<Placement>,
    count: int,
    m: Mapping,
    lx: int,
    ly: int,
) -> Option<int>
    decreases count,
{
    if count <= 0 {
        None
    } else if m.spec_placement_rect(placements[count - 1]).spec_contains(lx, ly) {
        Some(count - 1)
    } else {
        spec_hit(placements, count - 1, m, lx, ly)
    }
}

/// A hit is one of the first `count` placements, it holds the point, and no
/// placement above it does; there is no hit only where none holds the point.
pub proof fn lemma_hit_is_topmost(
    placements: Seq<Placement>,
    count: int,
    m: Mapping,
    lx: int,
    ly: int,
)
    ensures
        match spec_hit(placements, count, m, lx, ly) {
            Some(k) => {
                &&& 0 <= k < count
                &&& m.spec_placement_rect(placements[k]).spec_contains(lx, ly)
                &&& forall|j: int|
                    k < j < count ==> !m.spec_placement_rect(#[trigger] placements[j]).spec_contains(
                        lx,
                        ly,
                    )
            },
            None => forall|j: int|
                0 <= j < count ==> !m.spec_placement_rect(#[trigger] placements[j]).spec_contains(
                    lx,
                    ly,
                ),
        },
    decreases count,
{
    if count > 0 && !m.spec_placement_rect(placements[count - 1]).spec_contains(lx, ly) {
        lemma_hit_is_topmost(placements, count - 1, m, lx, ly);
    }
}

/// Where two revealed placements both hold the point, the hit is the later
/// of the two or one above it, never the earlier.
pub proof fn lemma_hit_prefers_later(
    placements: Seq<Placement>,
    count: int,
    m: Mapping,
    lx: int,
    ly: int,
    i: int,
    j: int,
)
    requires
        0 <= i < j < count,
        m.spec_placement_rect(placements[i]).spec_contains(lx, ly),
        m.spec_placement_rect(placements[j]).spec_contains(lx, ly),
    ensures
        spec_hit(placements, count, m, lx, ly) matches Some(k) && j <= k < count,
        (forall|t: int| j < t < count ==> !m.spec_placement_rect(#[trigger] placements[t]).spec_contains(lx, ly))
            ==> spec_hit(placements, count, m, lx, ly) == Some(j),
{
    lemma_hit_is_topmost(placements, count, m, lx, ly);
}

impl<'a> BinCanvas<'a> {
    /// The number of placements that are revealed.
    pub open spec fn spec_revealed(&self) -> int {
        if self.visible_count < self.output.placements@.len() {
            self.visible_count as int
        } else {
            self.output.placements@.len() as int
        }
    }

    /// The hit under the window position `(x, y)`: [`spec_hit`] among the
    /// revealed placements, at the position relative to the surface.
    pub open spec fn spec_find(&self, x: int, y: int, bounds: Bounds, m: Mapping) -> Option<int> {
        spec_hit(self.output.placements@, self.spec_revealed(), m, x - bounds.x, y - bounds.y)
    }

    /// The topmost revealed placement under the window position `(x, y)`.
    pub fn find_rectangle_at_point(&self, x: i64, y: i64, bounds: &Bounds, m: &Mapping) -> (hit:
        Option<usize>)
        requires
            self.wf(),
            bounds.wf(),
            m.wf(),
            in_limit(x as int),
            in_limit(y as int),
        ensures
            hit matches Some(k) ==> k < self.visible_count && k < self.output.placements@.len(),
            match hit {
                Some(k) => self.spec_find(x as int, y as int, *bounds, *m) == Some(k as int),
                None => self.spec_find(x as int, y as int, *bounds, *m) is None,
            },
    {
        let total: usize = self.output.placements.len();
        let count: usize = if self.visible_count < total {
            self.visible_count
        } else {
            total
        };
        let lx: i128 = x as i128 - bounds.x as i128;
        let ly: i128 = y as i128 - bounds.y as i128;
        let mut i: usize = count;
        while i > 0
            invariant
                self.wf(),
                m.wf(),
                i <= count <= self.output.placements@.len(),
                count == self.spec_revealed(),
                lx == x - bounds.x,
                ly == y - bounds.y,
                spec_hit(self.output.placements@, count as int, *m, lx as int, ly as int)
                    == spec_hit(self.output.placements@, i as int, *m, lx as int, ly as int),
            decreases i,
        {
            i -= 1;
            let r: ScreenRect = m.placement_rect(&self.output.placements[i]);
            if r.contains(lx, ly) {
                return Some(i);
            }
        }
        None
    }
}

/// No hit is at or beyond the number of revealed placements.
pub proof fn lemma_hit_is_revealed(canvas: BinCanvas, x: int, y: int, bounds: Bounds, m: Mapping)
    ensures
        canvas.spec_find(x, y, bounds, m) matches Some(k) ==> 0 <= k < canvas.visible_count && k
            < canvas.output.placements@.len(),
{
    lemma_hit_is_topmost(
        canvas.output.placements@,
        canvas.spec_revealed(),
        m,
        x - bounds.x,
        y - bounds.y,
    );
}

/// Whether `cand` overlaps the rectangle of any placement but the one at
/// index `skip`.
pub open spec fn spec_collides(
    placements: Seq<Placement>,
    m: Mapping,
    cand: ScreenRect,
    skip: int,
) -> bool {
    exists|i: int|
        0 <= i < placements.len() && i != skip && cand.spec_overlaps(
            m.spec_placement_rect(#[trigger] placements[i]),
        )
}

impl<'a> BinCanvas<'a> {
    /// Where the placement at index `d` would lie if it were dropped now: its
    /// rectangle on the surface, moved by the drag offset.
    pub open spec fn spec_candidate(&self, m: Mapping, d: int) -> ScreenRect {
        m.spec_placement_rect(self.output.placements@[d]).spec_shifted(
            self.dragged_rect_offset_x as int,
            self.dragged_rect_offset_y as int,
        )
    }

    /// Whether the dropped placement would lie inside the bin: all four
    /// corners of the candidate in the bin's outline, edges included.
    pub open spec fn spec_inside(&self, m: Mapping, d: int) -> bool {
        m.spec_bin_rect().spec_encloses(self.spec_candidate(m, d))
    }

    /// Whether the dropped placement would overlap another one.
    pub open spec fn spec_intersects(&self, m: Mapping, d: int) -> bool {
        spec_collides(self.output.placements@, m, self.spec_candidate(m, d), d)
    }

    /// The event that ends the drag of the placement at index `d`: the two
    /// verdicts and the corner that the drop proposes. The offset to the
    /// right is added to the placement's x; the offset downwards is taken
    /// from its y, which grows upwards.
    pub open spec fn spec_release(&self, m: Mapping, d: int) -> Input {
        let p = self.output.placements@[d];
        Input::RectangleDragEnd(
            self.spec_inside(m, d),
            self.spec_intersects(m, d),
            (p.x + m.spec_units(self.dragged_rect_offset_x as int)) as i128,
            (p.y - m.spec_units(self.dragged_rect_offset_y as int)) as i128,
        )
    }

    /// Executable form of [`BinCanvas::spec_candidate`].
    pub fn drag_candidate(&self, m: &Mapping, d: usize) -> (cand: ScreenRect)
        requires
            self.wf(),
            m.wf(),
            d < self.output.placements@.len(),
        ensures
            cand == self.spec_candidate(*m, d as int),
            cand.wf(),
    {
        let r: ScreenRect = m.placement_rect(&self.output.placements[d]);
        r.shifted(self.dragged_rect_offset_x, self.dragged_rect_offset_y)
    }

    /// Whether `cand` overlaps any placement but the one at index `skip`.
    /// The search ends at the first overlap.
    pub fn collides(&self, m: &Mapping, cand: &ScreenRect, skip: usize) -> (hit: bool)
        requires
            self.wf(),
            m.wf(),
            cand.wf(),
        ensures
            hit == spec_collides(self.output.placements@, *m, *cand, skip as int),
    {
        let mut i: usize = 0;
        while i < self.output.placements.len()
            invariant
                self.wf(),
                m.wf(),
                cand.wf(),
                i <= self.output.placements@.len(),
                forall|j: int|
                    0 <= j < i && j != skip ==> !cand.spec_overlaps(
                        m.spec_placement_rect(#[trigger] self.output.placements@[j]),
                    ),
            decreases self.output.placements@.len() - i,
        {
            if i != skip {
                let other: ScreenRect = m.placement_rect(&self.output.placements[i]);
                if cand.overlaps(&other) {
                    return true;
                }
            }
            i += 1;
        }
        false
    }

    /// The verdicts on dropping the placement at index `d` now: whether it
    /// would lie inside the bin, and whether it would overlap another
    /// placement. The drop is acceptable when it is inside and overlaps none.
    pub fn drag_verdict(&self, m: &Mapping, d: usize) -> (verdict: (bool, bool))
        requires
            self.wf(),
            m.wf(),
            d < self.output.placements@.len(),
        ensures
            verdict.0 == self.spec_inside(*m, d as int),
            verdict.1 == self.spec_intersects(*m, d as int),
    {
        let cand: ScreenRect = self.drag_candidate(m, d);
        let bin: ScreenRect = m.bin_rect();
        let inside: bool = bin.encloses(&cand);
        let intersects: bool = self.collides(m, &cand, d);
        (inside, intersects)
    }

    /// Executable form of [`BinCanvas::spec_release`].
    pub fn release_drag(&self, m: &Mapping, d: usize) -> (event: Input)
        requires
            self.wf(),
            m.wf(),
            d < self.output.placements@.len(),
        ensures
            event == self.spec_release(*m, d as int),
    {
        let verdict: (bool, bool) = self.drag_verdict(m, d);
        let p: &Placement = &self.output.placements[d];
        let new_x: i128 = p.x as i128 + m.to_units(self.dragged_rect_offset_x);
        let new_y: i128 = p.y as i128 - m.to_units(self.dragged_rect_offset_y);
        Input::RectangleDragEnd(verdict.0, verdict.1, new_x, new_y)
    }
}

/// Whether the canvas took an event for itself.
#[derive(Debug, Clone, Copy, PartialEq, Eq)]
pub enum Status {
    Captured,
    Ignored,
}

/// What the pointer did on the canvas. Positions are window positions in
/// thousandths of a pixel.
#[derive(Debug, Clone, Copy, PartialEq, Eq)]
pub enum CanvasEvent {
    WheelScrolled(ScrollDelta),
    LeftPressed,
    LeftReleased,
    CursorMoved(i64, i64),
    Other,
}

impl CanvasEvent {
    /// A position that the event carries lies within the supported magnitude.
    pub open spec fn wf(&self) -> bool {
        match self {
            CanvasEvent::CursorMoved(x, y) => in_limit(*x as int) && in_limit(*y as int),
            _ => true,
        }
    }

    /// Executable form of [`CanvasEvent::wf`].
    pub fn is_valid(&self) -> (ok: bool)
        ensures
            ok == self.wf(),
    {
        match self {
            CanvasEvent::CursorMoved(x, y) => -LIMIT <= *x && *x <= LIMIT && -LIMIT <= *y && *y
                <= LIMIT,
            _ => true,
        }
    }
}

/// Zoom factor of one wheel step forward, in thousandths.
pub const ZOOM_IN: i64 = 1100;

/// Zoom factor of one wheel step backward, in thousandths.
pub const ZOOM_OUT: i64 = 900;

/// Whether the wheel was turned forward. Lines and pixels count alike.
pub open spec fn spec_scrolled_up(delta: ScrollDelta) -> bool {
    match delta {
        ScrollDelta::Lines { y } => y > 0,
        ScrollDelta::Pixels { y } => y > 0,
    }
}

/// An index of the model as an index into a vector.
pub open spec fn spec_index(k: Option<int>) -> Option<usize> {
    match k {
        Some(i) => Some(i as usize),
        None => None,
    }
}

/// Whether the pointer position, if there is one, lies within the supported
/// magnitude.
pub open spec fn cursor_wf(cursor: Option<(i64, i64)>) -> bool {
    match cursor {
        Some((x, y)) => in_limit(x as int) && in_limit(y as int),
        None => true,
    }
}

impl<'a> BinCanvas<'a> {
    /// Whether layout and surface can be mapped onto each other.
    pub open spec fn spec_mappable(&self, bounds: Bounds) -> bool {
        Mapping::mappable(
            self.output.bin_width as int,
            self.output.total_height as int,
            bounds.width as int,
            bounds.height as int,
        )
    }

    /// The mapping of the layout onto the surface at the canvas's zoom and
    /// pan.
    pub open spec fn spec_mapping(&self, bounds: Bounds) -> Mapping {
        Mapping::spec_fit(
            whole(self.output.bin_width as int),
            self.output.total_height as int,
            bounds.width as int,
            bounds.height as int,
            self.zoom as int,
            self.pan_x as int,
            self.pan_y as int,
        )
    }

    /// Executable form of [`BinCanvas::spec_mapping`]; there is none where
    /// [`BinCanvas::spec_mappable`] does not hold.
    pub fn mapping(&self, bounds: &Bounds) -> (result: Option<Mapping>)
        requires
            self.wf(),
            bounds.wf(),
        ensures
            result is Some <==> self.spec_mappable(*bounds),
            result matches Some(m) ==> m.wf() && m == self.spec_mapping(*bounds),
    {
        Mapping::fit(
            self.output.bin_width,
            self.output.total_height,
            bounds.width,
            bounds.height,
            self.zoom,
            self.pan_x,
            self.pan_y,
        )
    }

    /// What a press of the left button at `(x, y)` means: nothing off the
    /// surface; the start of a pan off the bin; on the bin the start of a
    /// drag of the rectangle under the pointer, unless the reveal is still
    /// running or there is none.
    pub open spec fn spec_press(&self, bounds: Bounds, m: Mapping, x: i64, y: i64) -> (
        Status,
        Option<Input>,
    ) {
        if !bounds.spec_contains(x as int, y as int) {
            (Status::Ignored, None)
        } else if !m.spec_bin_rect().spec_covers(x - bounds.x, y - bounds.y) {
            (Status::Captured, Some(Input::PanStart(x, y)))
        } else if self.animating {
            (Status::Ignored, None)
        } else {
            match self.spec_find(x as int, y as int, bounds, m) {
                Some(k) => (Status::Captured, Some(Input::RectangleDragStart(k as usize, x, y))),
                None => (Status::Ignored, None),
            }
        }
    }

    /// What a release of the left button means: the end of the pan; else the
    /// end of the drag, with its verdicts; else nothing.
    pub open spec fn spec_lift(&self, m: Mapping) -> (Status, Option<Input>) {
        if self.is_panning {
            (Status::Captured, Some(Input::PanEnd))
        } else {
            match self.dragged_rect {
                Some(d) => if d < self.output.placements@.len() {
                    (Status::Captured, Some(self.spec_release(m, d as int)))
                } else {
                    (Status::Ignored, None)
                },
                None => (Status::Ignored, None),
            }
        }
    }

    /// What a move of the pointer to `(x, y)` means: a step of the pan, else
    /// a step of the drag, else the rectangle that is now hovered.
    pub open spec fn spec_move(&self, bounds: Bounds, m: Mapping, x: i64, y: i64) -> (
        Status,
        Option<Input>,
    ) {
        if self.is_panning {
            (Status::Captured, Some(Input::PanMove(x, y)))
        } else if self.dragged_rect is Some {
            (Status::Captured, Some(Input::RectangleDragMove(x, y)))
        } else {
            (
                Status::Captured,
                Some(
                    Input::RectangleHovered(
                        spec_index(self.spec_find(x as int, y as int, bounds, m)),
                    ),
                ),
            )
        }
    }

    /// What a pointer event means for the application. Nothing is taken
    /// while layout and surface cannot be mapped.
    pub open spec fn spec_update(
        &self,
        event: CanvasEvent,
        bounds: Bounds,
        cursor: Option<(i64, i64)>,
    ) -> (Status, Option<Input>) {
        if !self.spec_mappable(bounds) {
            (Status::Ignored, None)
        } else {
            let m = self.spec_mapping(bounds);
            match event {
                CanvasEvent::WheelScrolled(delta) => (
                    Status::Captured,
                    Some(
                        Input::ZoomChanged(
                            if spec_scrolled_up(delta) {
                                ZOOM_IN
                            } else {
                                ZOOM_OUT
                            },
                        ),
                    ),
                ),
                CanvasEvent::LeftPressed => match cursor {
                    Some((x, y)) => self.spec_press(bounds, m, x, y),
                    None => (Status::Ignored, None),
                },
                CanvasEvent::LeftReleased => self.spec_lift(m),
                CanvasEvent::CursorMoved(x, y) => self.spec_move(bounds, m, x, y),
                CanvasEvent::Other => (Status::Ignored, None),
            }
        }
    }

    /// Turns a pointer event into the event that the application reacts to,
    /// and says whether the canvas took it.
    pub fn update(&self, event: CanvasEvent, bounds: Bounds, cursor: Option<(i64, i64)>) -> (out: (
        Status,
        Option<Input>,
    ))
        requires
            self.wf(),
            bounds.wf(),
            event.wf(),
            cursor_wf(cursor),
        ensures
            out == self.spec_update(event, bounds, cursor),
            out.1 matches Some(input) ==> input.wf(),
    {
        let m: Mapping = match self.mapping(&bounds) {
            Some(m) => m,
            None => {
                return (Status::Ignored, None);
            },
        };
        match event {
            CanvasEvent::WheelScrolled(delta) => {
                let up: bool = match delta {
                    ScrollDelta::Lines { y } => y > 0,
                    ScrollDelta::Pixels { y } => y > 0,
                };
                let factor: i64 = if up {
                    ZOOM_IN
                } else {
                    ZOOM_OUT
                };
                (Status::Captured, Some(Input::ZoomChanged(factor)))
            },
            CanvasEvent::LeftPressed => {
                match cursor {
                    Some((x, y)) => {
                        if !bounds.contains(x, y) {
                            return (Status::Ignored, None);
                        }
                        let bin: ScreenRect = m.bin_rect();
                        let lx: i128 = x as i128 - bounds.x as i128;
                        let ly: i128 = y as i128 - bounds.y as i128;
                        if !bin.covers(lx, ly) {
                            (Status::Captured, Some(Input::PanStart(x, y)))
                        } else if self.animating {
                            (Status::Ignored, None)
                        } else {
                            match self.find_rectangle_at_point(x, y, &bounds, &m) {
                                Some(k) => (
                                    Status::Captured,
                                    Some(Input::RectangleDragStart(k, x, y)),
                                ),
                                None => (Status::Ignored, None),
                            }
                        }
                    },
                    None => (Status::Ignored, None),
                }
            },
            CanvasEvent::LeftReleased => {
                if self.is_panning {
                    (Status::Captured, Some(Input::PanEnd))
                } else {
                    match self.dragged_rect {
                        Some(d) => {
                            if d < self.output.placements.len() {
                                (Status::Captured, Some(self.release_drag(&m, d)))
                            } else {
                                (Status::Ignored, None)
                            }
                        },
                        None => (Status::Ignored, None),
                    }
                }
            },
            CanvasEvent::CursorMoved(x, y) => {
                if self.is_panning {
                    (Status::Captured, Some(Input::PanMove(x, y)))
                } else if self.dragged_rect.is_some() {
                    (Status::Captured, Some(Input::RectangleDragMove(x, y)))
                } else {
                    let hovered: Option<usize> = self.find_rectangle_at_point(x, y, &bounds, &m);
                    (Status::Captured, Some(Input::RectangleHovered(hovered)))
                }
            },
            CanvasEvent::Other => (Status::Ignored, None),
        }
    }
}

/// How a rectangle is outlined.
#[derive(Debug, Clone, Copy, PartialEq, Eq)]
pub enum Outline {
    /// The bin itself.
    Bin,
    /// A placement at rest.
    Plain,
    /// The placement under the pointer.
    Hovered,
    /// A dragged placement that may be dropped where it is.
    Accepted,
    /// A dragged placement that may not.
    Rejected,
}

/// One rectangle to paint: where, filled with what, outlined how.
#[derive(Debug, Clone, Copy, PartialEq, Eq)]
pub struct DrawOp {
    pub rect: ScreenRect,
    pub fill: Option<Rgb>,
    pub outline: Outline,
}

/// The outline of the bin.
pub open spec fn spec_bin_op(m: Mapping) -> DrawOp {
    DrawOp { rect: m.spec_bin_rect(), fill: None, outline: Outline::Bin }
}

/// A placement at rest: filled with the colour of its size.
pub open spec fn spec_plain_op(m: Mapping, p: Placement) -> DrawOp {
    DrawOp {
        rect: m.spec_placement_rect(p),
        fill: Some(spec_color(p.width, p.height)),
        outline: Outline::Plain,
    }
}

/// The first `count` placements at rest, in their order, without the one at
/// index `skip`.
pub open spec fn spec_plain_ops(
    placements: Seq<Placement>,
    count: int,
    m: Mapping,
    skip: Option<usize>,
) -> Seq<DrawOp>
    decreases count,
{
    if count <= 0 {
        Seq::empty()
    } else {
        let below = spec_plain_ops(placements, count - 1, m, skip);
        if skip == Some((count - 1) as usize) {
            below
        } else {
            below.push(spec_plain_op(m, placements[count - 1]))
        }
    }
}

impl<'a> BinCanvas<'a> {
    /// The highlight of the hovered placement: none unless it is revealed
    /// and is not the one that is dragged.
    pub open spec fn spec_hover_ops(&self, m: Mapping) -> Seq<DrawOp> {
        match self.hovered_rect {
            Some(h) => if h < self.spec_revealed() && self.dragged_rect != Some(h) {
                seq![
                    DrawOp {
                        rect: m.spec_placement_rect(self.output.placements@[h as int]),
                        fill: None,
                        outline: Outline::Hovered,
                    },
                ]
            } else {
                Seq::empty()
            },
            None => Seq::empty(),
        }
    }

    /// The dragged placement at its candidate position, outlined by the
    /// verdict on dropping it there: none unless it is revealed.
    pub open spec fn spec_drag_ops(&self, m: Mapping) -> Seq<DrawOp> {
        match self.dragged_rect {
            Some(d) => if d < self.spec_revealed() {
                let p = self.output.placements@[d as int];
                seq![
                    DrawOp {
                        rect: self.spec_candidate(m, d as int),
                        fill: Some(spec_color(p.width, p.height)),
                        outline: if self.spec_inside(m, d as int) && !self.spec_intersects(
                            m,
                            d as int,
                        ) {
                            Outline::Accepted
                        } else {
                            Outline::Rejected
                        },
                    },
                ]
            } else {
                Seq::empty()
            },
            None => Seq::empty(),
        }
    }

    /// What is painted, bottom first: the bin, the revealed placements at
    /// rest, the highlight, the dragged placement. Nothing is painted while
    /// layout and surface cannot be mapped.
    pub open spec fn spec_draw(&self, bounds: Bounds) -> Seq<DrawOp> {
        if !self.spec_mappable(bounds) {
            Seq::empty()
        } else {
            let m = self.spec_mapping(bounds);
            seq![spec_bin_op(m)] + spec_plain_ops(
                self.output.placements@,
                self.spec_revealed(),
                m,
                self.dragged_rect,
            ) + self.spec_hover_ops(m) + self.spec_drag_ops(m)
        }
    }

    /// The rectangles to paint on a surface of the given bounds, bottom
    /// first.
    pub fn draw(&self, bounds: Bounds) -> (ops: Vec<DrawOp>)
        requires
            self.wf(),
            bounds.wf(),
        ensures
            ops@ == self.spec_draw(bounds),
    {
        let mut ops: Vec<DrawOp> = Vec::new();
        let m: Mapping = match self.mapping(&bounds) {
            Some(m) => m,
            None => {
                return ops;
            },
        };
        ops.push(DrawOp { rect: m.bin_rect(), fill: None, outline: Outline::Bin });
        let total: usize = self.output.placements.len();
        let count: usize = if self.visible_count < total {
            self.visible_count
        } else {
            total
        };
        let mut i: usize = 0;
        while i < count
            invariant
                self.wf(),
                m.wf(),
                i <= count <= self.output.placements@.len(),
                ops@ == seq![spec_bin_op(m)] + spec_plain_ops(
                    self.output.placements@,
                    i as int,
                    m,
                    self.dragged_rect,
                ),
            decreases count - i,
        {
            let skip: bool = match self.dragged_rect {
                Some(d) => d == i,
                None => false,
            };
            if !skip {
                let p: &Placement = &self.output.placements[i];
                ops.push(
                    DrawOp {
                        rect: m.placement_rect(p),
                        fill: Some(color_from_dimensions(p.width, p.height)),
                        outline: Outline::Plain,
                    },
                );
            }
            i += 1;
        }
        match self.hovered_rect {
            Some(h) => {
                let dragged: bool = match self.dragged_rect {
                    Some(d) => d == h,
                    None => false,
                };
                if h < count && !dragged {
                    ops.push(
                        DrawOp {
                            rect: m.placement_rect(&self.output.placements[h]),
                            fill: None,
                            outline: Outline::Hovered,
                        },
                    );
                }
            },
            None => {},
        }
        assert(ops@ == seq![spec_bin_op(m)] + spec_plain_ops(
            self.output.placements@,
            count as int,
            m,
            self.dragged_rect,
        ) + self.spec_hover_ops(m));
        match self.dragged_rect {
            Some(d) => {
                if d < count {
                    let p: &Placement = &self.output.placements[d];
                    let verdict: (bool, bool) = self.drag_verdict(&m, d);
                    let outline: Outline = if verdict.0 && !verdict.1 {
                        Outline::Accepted
                    } else {
                        Outline::Rejected
                    };
                    ops.push(
                        DrawOp {
                            rect: self.drag_candidate(&m, d),
                            fill: Some(color_from_dimensions(p.width, p.height)),
                            outline,
                        },
                    );
                }
            },
            None => {},
        }
        ops
    }
}

} // verus!
