//! The data that the engine works on.

use vstd::prelude::*;
use crate::fixed::{in_limit, within_limit};

verus! {

/// A declared rectangle type and the number of copies asked for.
///
/// Two rectangles are of the same type when width and height agree.
#[derive(Debug, Clone, Copy, PartialEq, Eq, Hash)]
pub struct Rectangle {
    pub width: i32,
    pub height: i32,
    pub quantity: i32,
}

/// The finished request that is handed to the packing algorithm.
#[derive(Debug, Clone, PartialEq, Eq)]
pub struct JsonInput {
    pub width_of_bin: i32,
    pub number_of_rectangles: usize,
    pub number_of_types_of_rectangles: usize,
    pub autofill_option: bool,
    pub rectangle_list: Vec<Rectangle>,
}

/// A validated request as entered by the user; a target of `-1` is unset.
#[derive(Debug, Clone, PartialEq, Eq, Hash)]
pub struct ParseOutput {
    pub width: i32,
    pub quantity: i32,
    pub types: i32,
    pub autofill: bool,
    pub rects: Vec<Rectangle>,
    pub input_types: i32,
    pub min_height: i32,
    pub max_height: i32,
}

/// One packed rectangle: its lower-left corner in the bin, in thousandths of
/// a unit, and its size in whole units.
#[derive(Debug, Clone, Copy, PartialEq, Eq)]
pub struct Placement {
    pub x: i64,
    pub y: i64,
    pub width: i32,
    pub height: i32,
}

/// A layout produced by the packing algorithm; `total_height` is in
/// thousandths of a unit. Later placements lie on top of earlier ones.
#[derive(Debug, Clone, PartialEq, Eq)]
pub struct AlgorithmOutput {
    pub bin_width: i32,
    pub total_height: i64,
    pub placements: Vec<Placement>,
}

impl Placement {
    /// The corner lies within the supported magnitude.
    pub open spec fn wf(&self) -> bool {
        in_limit(self.x as int) && in_limit(self.y as int)
    }

    /// Executable form of [`Placement::wf`].
    pub fn is_valid(&self) -> (ok: bool)
        ensures
            ok == self.wf(),
    {
        within_limit(self.x) && within_limit(self.y)
    }
}

impl AlgorithmOutput {
    /// The height and every placement lie within the supported magnitude.
    pub open spec fn wf(&self) -> bool {
        &&& in_limit(self.total_height as int)
        &&& forall|i: int| 0 <= i < self.placements@.len() ==> (#[trigger] self.placements@[i]).wf()
    }

    /// Executable form of [`AlgorithmOutput::wf`].
    pub fn is_valid(&self) -> (ok: bool)
        ensures
            ok == self.wf(),
    {
        if !within_limit(self.total_height) {
            return false;
        }
        let mut i: usize = 0;
        while i < self.placements.len()
            invariant
                i <= self.placements@.len(),
                forall|j: int| 0 <= j < i ==> (#[trigger] self.placements@[j]).wf(),
            decreases self.placements@.len() - i,
        {
            if !self.placements[i].is_valid() {
                return false;
            }
            i += 1;
        }
        true
    }
}

/// A scroll of the wheel, in lines or in thousandths of a pixel.
#[derive(Debug, Clone, Copy, PartialEq, Eq)]
pub enum ScrollDelta {
    Lines { y: i64 },
    Pixels { y: i64 },
}

/// What became of a file that the shell was asked to read or write.
#[derive(Debug, Clone, Copy, PartialEq, Eq)]
pub enum Notice {
    /// The rectangle file could not be read.
    ReadFailed,
    /// The layout file could not be read or decoded.
    OutputInvalid,
    /// A layout was loaded.
    OutputImported,
    /// The request could not be encoded.
    SerializeFailed,
    /// The request was written; `count` rectangle types were declared.
    Exported { count: usize },
    /// The request could not be written.
    SaveFailed,
    /// The user closed the save dialog.
    ExportCancelled,
}

/// The events that the application reacts to. Positions are in thousandths of
/// a pixel, zoom factors in thousandths, the animation period in milliseconds.
#[derive(Debug, Clone, PartialEq, Eq)]
pub enum Input {
    WChanged(String),
    NChanged(String),
    KChanged(String),
    AutofillChanged(bool),
    ImportPressed,
    ImportOutputJsonPressed,
    /// The editor's text after an edit.
    RectangleDataAction(String),
    ExportAlgorithmInput,
    ZoomChanged(i64),
    Tick,
    AnimationSpeedChanged(u64),
    PanStart(i64, i64),
    PanMove(i64, i64),
    PanEnd,
    RectangleHovered(Option<usize>),
    RectangleDragStart(usize, i64, i64),
    RectangleDragMove(i64, i64),
    /// Inside the bin, overlapping another placement, and the advisory new
    /// corner in thousandths of a unit.
    RectangleDragEnd(bool, bool, i128, i128),
    SnapAndAdjustHeight,
    /// The text of the rectangle file that the user picked.
    RectangleFileRead(String),
    /// The layout that the user picked.
    OutputLoaded(AlgorithmOutput),
    /// The outcome of work that the shell did.
    Report(Notice),
}

impl Input {
    /// Every position that the event carries lies within the supported
    /// magnitude, and a layout that it carries is well-formed.
    pub open spec fn wf(&self) -> bool {
        match self {
            Input::PanStart(x, y) => in_limit(*x as int) && in_limit(*y as int),
            Input::PanMove(x, y) => in_limit(*x as int) && in_limit(*y as int),
            Input::RectangleDragStart(_, x, y) => in_limit(*x as int) && in_limit(*y as int),
            Input::RectangleDragMove(x, y) => in_limit(*x as int) && in_limit(*y as int),
            Input::OutputLoaded(output) => output.wf(),
            _ => true,
        }
    }

    /// Executable form of [`Input::wf`].
    pub fn is_valid(&self) -> (ok: bool)
        ensures
            ok == self.wf(),
    {
        match self {
            Input::PanStart(x, y) => within_limit(*x) && within_limit(*y),
            Input::PanMove(x, y) => within_limit(*x) && within_limit(*y),
            Input::RectangleDragStart(_, x, y) => within_limit(*x) && within_limit(*y),
            Input::RectangleDragMove(x, y) => within_limit(*x) && within_limit(*y),
            Input::OutputLoaded(output) => output.is_valid(),
            _ => true,
        }
    }
}

/// Smallest zoom factor, in thousandths.
pub const ZOOM_MIN: i64 = 100;

/// Largest zoom factor, in thousandths.
pub const ZOOM_MAX: i64 = 10_000;

/// Shortest animation period, in milliseconds.
pub const SPEED_MIN: u64 = 10;

/// Longest animation period, in milliseconds.
pub const SPEED_MAX: u64 = 500;

/// The view of one layout that the canvas shows and reacts on.
pub struct BinCanvas<'a> {
    pub output: &'a AlgorithmOutput,
    pub zoom: i64,
    pub visible_count: usize,
    pub pan_x: i64,
    pub pan_y: i64,
    pub hovered_rect: Option<usize>,
    pub is_panning: bool,
    pub dragged_rect: Option<usize>,
    pub dragged_rect_offset_x: i64,
    pub dragged_rect_offset_y: i64,
    pub animating: bool,
}

impl<'a> BinCanvas<'a> {
    /// The layout is well-formed, the zoom is within its range, and pan and
    /// drag offset lie within the supported magnitude.
    pub open spec fn wf(&self) -> bool {
        &&& self.output.wf()
        &&& ZOOM_MIN <= self.zoom <= ZOOM_MAX
        &&& in_limit(self.pan_x as int)
        &&& in_limit(self.pan_y as int)
        &&& in_limit(self.dragged_rect_offset_x as int)
        &&& in_limit(self.dragged_rect_offset_y as int)
    }

    /// Executable form of [`BinCanvas::wf`].
    pub fn is_valid(&self) -> (ok: bool)
        ensures
            ok == self.wf(),
    {
        self.output.is_valid() && ZOOM_MIN <= self.zoom && self.zoom <= ZOOM_MAX && within_limit(
            self.pan_x,
        ) && within_limit(self.pan_y) && within_limit(self.dragged_rect_offset_x) && within_limit(
            self.dragged_rect_offset_y,
        )
    }
}

} // verus!
