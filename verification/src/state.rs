//! The application's state and its reaction to events.
//!
//! The state is changed here and nowhere else. Work on files is not done
//! here: an event that calls for it is answered with a [`Command`], and its
//! outcome comes back as another event.

use vstd::prelude::*;
use crate::autofill::{create_input, spec_completes, spec_refusal, AutofillError};
use crate::fixed::{floor_div, in_limit, saturate, saturating_sum, within_limit, ONE};
use crate::request::{parse_request, spec_parse, ParseError, Request};
use crate::rects::spec_total;
use crate::types::{
    AlgorithmOutput, BinCanvas, Input, JsonInput, Notice, ParseOutput, SPEED_MAX, SPEED_MIN,
    ZOOM_MAX, ZOOM_MIN,
};

verus! {

/// What the message line shows.
#[derive(Debug, Clone, PartialEq, Eq)]
pub enum Message {
    /// The faults of the request that was to be exported.
    Faults(Vec<ParseError>),
    /// Why the request could not be completed.
    Refused(AutofillError),
    /// The outcome of work on a file.
    Notice(Notice),
}

/// Work that the shell is to do after an event.
#[derive(Debug, Clone, PartialEq, Eq)]
pub enum Command {
    /// Nothing.
    Nothing,
    /// Let the user pick a rectangle file, and report its text.
    PickRectangleFile,
    /// Let the user pick a layout file, and report the layout.
    PickOutputFile,
    /// Write the request to a file that the user picks, and report.
    SaveInput(JsonInput),
}

/// The state of the application: the form, the layout that is shown, and the
/// view on it.
pub struct PackingApp {
    pub w_input: String,
    pub n_input: String,
    pub k_input: String,
    pub autofile: bool,
    pub rectangle_data: String,
    pub error_message: Option<Message>,
    pub algorithm_output: Option<AlgorithmOutput>,
    pub zoom: i64,
    pub visible_rects: usize,
    pub animating: bool,
    pub animation_speed: u64,
    pub pan_x: i64,
    pub pan_y: i64,
    pub is_panning: bool,
    pub last_mouse_x: i64,
    pub last_mouse_y: i64,
    pub hovered_rect: Option<usize>,
    pub dragged_rect: Option<usize>,
    pub dragged_rect_offset_x: i64,
    pub dragged_rect_offset_y: i64,
}

/// The zoom after a step by `factor`: their product, kept within
/// [`ZOOM_MIN`] and [`ZOOM_MAX`]. All three are in thousandths.
pub open spec fn spec_zoom(zoom: int, factor: int) -> int {
    let z = zoom * factor / (ONE as int);
    if z < ZOOM_MIN {
        ZOOM_MIN as int
    } else if z > ZOOM_MAX {
        ZOOM_MAX as int
    } else {
        z
    }
}

/// The zoom after one step for each of the factors, first to last.
pub open spec fn spec_zoom_all(zoom: int, factors: Seq<int>) -> int
    decreases factors.len(),
{
    if factors.len() == 0 {
        zoom
    } else {
        spec_zoom(spec_zoom_all(zoom, factors.drop_last()), factors.last())
    }
}

/// After any steps at all the zoom lies within its range.
pub proof fn lemma_zoom_stays_in_range(zoom: int, factors: Seq<int>)
    requires
        ZOOM_MIN <= zoom <= ZOOM_MAX,
    ensures
        ZOOM_MIN <= spec_zoom_all(zoom, factors) <= ZOOM_MAX,
    decreases factors.len(),
{
    if factors.len() > 0 {
        lemma_zoom_stays_in_range(zoom, factors.drop_last());
    }
}

/// An animation period kept within [`SPEED_MIN`] and [`SPEED_MAX`].
pub open spec fn spec_speed(speed: u64) -> u64 {
    if speed < SPEED_MIN {
        SPEED_MIN
    } else if speed > SPEED_MAX {
        SPEED_MAX
    } else {
        speed
    }
}

/// The number of revealed placements after a tick: one more, until all
/// `total` are revealed.
pub open spec fn spec_tick(visible: int, total: int) -> int {
    if visible < total {
        visible + 1
    } else {
        visible
    }
}

/// The number of revealed placements after `ticks` ticks.
pub open spec fn spec_reveal(visible: int, total: int, ticks: nat) -> int
    decreases ticks,
{
    if ticks == 0 {
        visible
    } else {
        spec_tick(spec_reveal(visible, total, (ticks - 1) as nat), total)
    }
}

/// A tick never hides a placement and never reveals more than there are.
pub proof fn lemma_reveal_bounded(visible: int, total: int, ticks: nat)
    requires
        0 <= visible <= total,
    ensures
        spec_reveal(visible, total, ticks) <= spec_reveal(visible, total, ticks + 1) <= total,
        visible <= spec_reveal(visible, total, ticks),
    decreases ticks,
{
    reveal_with_fuel(spec_reveal, 2);
    if ticks > 0 {
        lemma_reveal_bounded(visible, total, (ticks - 1) as nat);
    }
}

/// From none revealed, `ticks` ticks reveal `ticks` placements until all
/// `total` are revealed: that takes `total` ticks and no fewer.
pub proof fn lemma_reveal_counts(total: int, ticks: nat)
    requires
        0 <= total,
    ensures
        spec_reveal(0, total, ticks) == if ticks <= total {
            ticks as int
        } else {
            total
        },
    decreases ticks,
{
    if ticks > 0 {
        lemma_reveal_counts(total, (ticks - 1) as nat);
    }
}

impl PackingApp {
    /// The number of placements of the layout that is shown, none where none
    /// is.
    pub open spec fn spec_total(&self) -> int {
        match self.algorithm_output {
            Some(o) => o.placements@.len() as int,
            None => 0,
        }
    }

    /// What holds of the state at all times: zoom and animation period lie
    /// within their ranges, and pan, pointer and drag offset within the
    /// supported magnitude; the layout is well-formed; no more placements
    /// are revealed than there are; the hovered and the dragged placement
    /// exist; a pan and a drag never run at the same time.
    pub open spec fn wf(&self) -> bool {
        &&& ZOOM_MIN <= self.zoom <= ZOOM_MAX
        &&& SPEED_MIN <= self.animation_speed <= SPEED_MAX
        &&& in_limit(self.pan_x as int)
        &&& in_limit(self.pan_y as int)
        &&& in_limit(self.last_mouse_x as int)
        &&& in_limit(self.last_mouse_y as int)
        &&& in_limit(self.dragged_rect_offset_x as int)
        &&& in_limit(self.dragged_rect_offset_y as int)
        &&& (self.algorithm_output matches Some(o) ==> o.wf())
        &&& self.visible_rects <= self.spec_total()
        &&& (self.hovered_rect matches Some(h) ==> h < self.spec_total())
        &&& (self.dragged_rect matches Some(d) ==> d < self.spec_total())
        &&& !(self.is_panning && self.dragged_rect is Some)
    }

    /// Executable form of [`PackingApp::wf`].
    pub fn is_valid(&self) -> (ok: bool)
        ensures
            ok == self.wf(),
    {
        let total: usize = self.total();
        let layout_ok: bool = match &self.algorithm_output {
            Some(o) => o.is_valid(),
            None => true,
        };
        let hovered_ok: bool = match self.hovered_rect {
            Some(h) => h < total,
            None => true,
        };
        let dragged_ok: bool = match self.dragged_rect {
            Some(d) => d < total,
            None => true,
        };
        ZOOM_MIN <= self.zoom && self.zoom <= ZOOM_MAX && SPEED_MIN <= self.animation_speed
            && self.animation_speed <= SPEED_MAX && within_limit(self.pan_x) && within_limit(
            self.pan_y,
        ) && within_limit(self.last_mouse_x) && within_limit(self.last_mouse_y) && within_limit(
            self.dragged_rect_offset_x,
        ) && within_limit(self.dragged_rect_offset_y) && layout_ok && self.visible_rects <= total
            && hovered_ok && dragged_ok && !(self.is_panning && self.dragged_rect.is_some())
    }

    /// The state after an event other than the request to export.
    pub open spec fn spec_next(self, input: Input) -> PackingApp {
        match input {
            Input::WChanged(text) => PackingApp { w_input: text, ..self },
            Input::NChanged(text) => PackingApp { n_input: text, ..self },
            Input::KChanged(text) => PackingApp { k_input: text, ..self },
            Input::AutofillChanged(on) => PackingApp { autofile: on, ..self },
            Input::RectangleDataAction(text) => PackingApp { rectangle_data: text, ..self },
            Input::RectangleFileRead(text) => PackingApp {
                rectangle_data: text,
                error_message: None,
                ..self
            },
            Input::OutputLoaded(output) => PackingApp {
                algorithm_output: Some(output),
                visible_rects: 0,
                animating: true,
                error_message: Some(Message::Notice(Notice::OutputImported)),
                is_panning: false,
                hovered_rect: None,
                dragged_rect: None,
                dragged_rect_offset_x: 0,
                dragged_rect_offset_y: 0,
                ..self
            },
            Input::Report(notice) => PackingApp {
                error_message: Some(Message::Notice(notice)),
                ..self
            },
            Input::ZoomChanged(factor) => PackingApp {
                zoom: spec_zoom(self.zoom as int, factor as int) as i64,
                ..self
            },
            Input::AnimationSpeedChanged(speed) => PackingApp {
                animation_speed: spec_speed(speed),
                ..self
            },
            Input::PanStart(x, y) => PackingApp {
                is_panning: true,
                last_mouse_x: x,
                last_mouse_y: y,
                dragged_rect: None,
                dragged_rect_offset_x: 0,
                dragged_rect_offset_y: 0,
                ..self
            },
            Input::PanMove(x, y) => if self.is_panning {
                PackingApp {
                    pan_x: saturate(self.pan_x + (x - self.last_mouse_x)) as i64,
                    pan_y: saturate(self.pan_y + (y - self.last_mouse_y)) as i64,
                    last_mouse_x: x,
                    last_mouse_y: y,
                    hovered_rect: None,
                    ..self
                }
            } else {
                PackingApp { hovered_rect: None, ..self }
            },
            Input::PanEnd => PackingApp { is_panning: false, ..self },
            Input::RectangleHovered(index) => PackingApp {
                hovered_rect: match index {
                    Some(h) => if h < self.spec_total() {
                        Some(h)
                    } else {
                        None
                    },
                    None => None,
                },
                ..self
            },
            Input::RectangleDragStart(index, x, y) => if index < self.spec_total() {
                PackingApp {
                    dragged_rect: Some(index),
                    is_panning: false,
                    last_mouse_x: x,
                    last_mouse_y: y,
                    dragged_rect_offset_x: 0,
                    dragged_rect_offset_y: 0,
                    ..self
                }
            } else {
                self
            },
            Input::RectangleDragMove(x, y) => if self.dragged_rect is Some {
                PackingApp {
                    dragged_rect_offset_x: saturate(
                        self.dragged_rect_offset_x + (x - self.last_mouse_x),
                    ) as i64,
                    dragged_rect_offset_y: saturate(
                        self.dragged_rect_offset_y + (y - self.last_mouse_y),
                    ) as i64,
                    last_mouse_x: x,
                    last_mouse_y: y,
                    ..self
                }
            } else {
                self
            },
            Input::RectangleDragEnd(_, _, _, _) => PackingApp {
                dragged_rect: None,
                dragged_rect_offset_x: 0,
                dragged_rect_offset_y: 0,
                ..self
            },
            Input::Tick => if self.algorithm_output is Some && self.visible_rects
                < self.spec_total() {
                PackingApp {
                    visible_rects: spec_tick(self.visible_rects as int, self.spec_total()) as usize,
                    ..self
                }
            } else {
                PackingApp { animating: false, ..self }
            },
            Input::ImportPressed => self,
            Input::ImportOutputJsonPressed => self,
            Input::ExportAlgorithmInput => self,
            Input::SnapAndAdjustHeight => self,
        }
    }
}

/// Every event leaves the state well-formed: the zoom stays within its
/// range, no more placements are revealed than there are, the hovered and
/// the dragged placement exist, and a pan and a drag never run together.
pub proof fn lemma_next_keeps_wf(app: PackingApp, input: Input)
    requires
        app.wf(),
        input.wf(),
    ensures
        app.spec_next(input).wf(),
{
}

/// The work that an event other than the request to export calls for.
pub open spec fn spec_command(input: Input) -> Command {
    match input {
        Input::ImportPressed => Command::PickRectangleFile,
        Input::ImportOutputJsonPressed => Command::PickOutputFile,
        _ => Command::Nothing,
    }
}

impl PackingApp {
    /// What the request to export does. Faults of the request and a refusal
    /// to complete it are shown in the message line. A request that can be
    /// completed is completed and handed out to be saved; the state stays as
    /// it is. How it is completed is left to chance within
    /// [`spec_completes`].
    pub open spec fn spec_export(before: PackingApp, after: PackingApp, cmd: Command) -> bool {
        match spec_parse(
            before.w_input@,
            before.n_input@,
            before.k_input@,
            before.autofile,
            before.rectangle_data@,
        ) {
            Err(faults) => {
                &&& cmd is Nothing
                &&& after == PackingApp { error_message: after.error_message, ..before }
                &&& after.error_message matches Some(Message::Faults(shown))
                &&& shown@ == faults
            },
            Ok(r) => match spec_refusal(r) {
                Some(why) => {
                    &&& cmd is Nothing
                    &&& after == PackingApp {
                        error_message: Some(Message::Refused(why)),
                        ..before
                    }
                },
                None => {
                    &&& after == before
                    &&& cmd matches Command::SaveInput(j)
                    &&& spec_completes(r, j.rectangle_list@)
                    &&& j.width_of_bin == r.width
                    &&& j.autofill_option == r.autofill
                    &&& j.number_of_types_of_rectangles == j.rectangle_list@.len()
                    &&& j.number_of_rectangles == spec_total(j.rectangle_list@)
                },
            },
        }
    }

    /// Reads the request that the form holds.
    pub fn parse_rectangles(&self) -> (out: Result<ParseOutput, Vec<ParseError>>)
        ensures
            match out {
                Ok(r) => spec_parse(
                    self.w_input@,
                    self.n_input@,
                    self.k_input@,
                    self.autofile,
                    self.rectangle_data@,
                ) == Ok::<Request, Seq<ParseError>>(r@) && r@.wf(),
                Err(e) => spec_parse(
                    self.w_input@,
                    self.n_input@,
                    self.k_input@,
                    self.autofile,
                    self.rectangle_data@,
                ) == Err::<Request, Seq<ParseError>>(e@) && e@.len() > 0,
            },
    {
        parse_request(
            self.w_input.as_str(),
            self.n_input.as_str(),
            self.k_input.as_str(),
            self.autofile,
            self.rectangle_data.as_str(),
        )
    }

    /// Reads the request, completes it, and hands it out to be saved.
    pub fn export(&mut self) -> (cmd: Command)
        requires
            old(self).wf(),
        ensures
            final(self).wf(),
            Self::spec_export(*old(self), *final(self), cmd),
    {
        match self.parse_rectangles() {
            Ok(request) => match create_input(&request) {
                Ok(filled) => Command::SaveInput(filled),
                Err(why) => {
                    self.error_message = Some(Message::Refused(why));
                    Command::Nothing
                },
            },
            Err(faults) => {
                self.error_message = Some(Message::Faults(faults));
                Command::Nothing
            },
        }
    }

    /// The period of the animation timer in milliseconds; none while no
    /// reveal is running.
    pub fn subscription(&self) -> (period: Option<u64>)
        ensures
            period == if self.animating {
                Some(self.animation_speed)
            } else {
                None
            },
    {
        if self.animating {
            Some(self.animation_speed)
        } else {
            None
        }
    }

    /// The canvas on the layout that is shown; none where none is.
    pub fn canvas(&self) -> (out: Option<BinCanvas<'_>>)
        requires
            self.wf(),
        ensures
            out is Some == self.algorithm_output is Some,
            out matches Some(c) ==> {
                &&& c.wf()
                &&& *c.output == self.algorithm_output->0
                &&& c.zoom == self.zoom
                &&& c.visible_count == self.visible_rects
                &&& c.pan_x == self.pan_x
                &&& c.pan_y == self.pan_y
                &&& c.hovered_rect == self.hovered_rect
                &&& c.is_panning == self.is_panning
                &&& c.dragged_rect == self.dragged_rect
                &&& c.dragged_rect_offset_x == self.dragged_rect_offset_x
                &&& c.dragged_rect_offset_y == self.dragged_rect_offset_y
                &&& c.animating == self.animating
            },
    {
        match &self.algorithm_output {
            Some(output) => Some(
                BinCanvas {
                    output,
                    zoom: self.zoom,
                    visible_count: self.visible_rects,
                    pan_x: self.pan_x,
                    pan_y: self.pan_y,
                    hovered_rect: self.hovered_rect,
                    is_panning: self.is_panning,
                    dragged_rect: self.dragged_rect,
                    dragged_rect_offset_x: self.dragged_rect_offset_x,
                    dragged_rect_offset_y: self.dragged_rect_offset_y,
                    animating: self.animating,
                },
            ),
            None => None,
        }
    }

    fn total(&self) -> (n: usize)
        ensures
            n == self.spec_total(),
    {
        match &self.algorithm_output {
            Some(o) => o.placements.len(),
            None => 0,
        }
    }

    fn update_form(&mut self, input: Input)
        requires
            old(self).wf(),
            input.wf(),
            input is WChanged || input is NChanged || input is KChanged || input is AutofillChanged
                || input is RectangleDataAction || input is RectangleFileRead
                || input is OutputLoaded || input is Report,
        ensures
            final(self).wf(),
            *final(self) == old(self).spec_next(input),
    {
        match input {
            Input::WChanged(text) => {
                self.w_input = text;
            },
            Input::NChanged(text) => {
                self.n_input = text;
            },
            Input::KChanged(text) => {
                self.k_input = text;
            },
            Input::AutofillChanged(on) => {
                self.autofile = on;
            },
            Input::RectangleDataAction(text) => {
                self.rectangle_data = text;
            },
            Input::RectangleFileRead(text) => {
                self.rectangle_data = text;
                self.error_message = None;
            },
            Input::OutputLoaded(output) => {
                self.algorithm_output = Some(output);
                self.visible_rects = 0;
                self.animating = true;
                self.error_message = Some(Message::Notice(Notice::OutputImported));
                self.is_panning = false;
                self.hovered_rect = None;
                self.dragged_rect = None;
                self.dragged_rect_offset_x = 0;
                self.dragged_rect_offset_y = 0;
            },
            Input::Report(notice) => {
                self.error_message = Some(Message::Notice(notice));
            },
            _ => {},
        }
    }

    fn update_view(&mut self, input: Input)
        requires
            old(self).wf(),
            input is ZoomChanged || input is AnimationSpeedChanged || input is Tick,
        ensures
            final(self).wf(),
            *final(self) == old(self).spec_next(input),
    {
        match input {
            Input::ZoomChanged(factor) => {
                self.zoom = zoom_step(self.zoom, factor);
            },
            Input::AnimationSpeedChanged(speed) => {
                self.animation_speed = if speed < SPEED_MIN {
                    SPEED_MIN
                } else if speed > SPEED_MAX {
                    SPEED_MAX
                } else {
                    speed
                };
            },
            Input::Tick => {
                let total: usize = self.total();
                if self.algorithm_output.is_some() && self.visible_rects < total {
                    self.visible_rects = self.visible_rects + 1;
                } else {
                    self.animating = false;
                }
            },
            _ => {},
        }
    }

    fn update_pan(&mut self, input: Input)
        requires
            old(self).wf(),
            input.wf(),
            input is PanStart || input is PanMove || input is PanEnd || input is RectangleHovered,
        ensures
            final(self).wf(),
            *final(self) == old(self).spec_next(input),
    {
        match input {
            Input::PanStart(x, y) => {
                self.is_panning = true;
                self.last_mouse_x = x;
                self.last_mouse_y = y;
                self.dragged_rect = None;
                self.dragged_rect_offset_x = 0;
                self.dragged_rect_offset_y = 0;
            },
            Input::PanMove(x, y) => {
                if self.is_panning {
                    self.pan_x = saturating_sum(self.pan_x, x - self.last_mouse_x);
                    self.pan_y = saturating_sum(self.pan_y, y - self.last_mouse_y);
                    self.last_mouse_x = x;
                    self.last_mouse_y = y;
                }
                self.hovered_rect = None;
            },
            Input::PanEnd => {
                self.is_panning = false;
            },
            Input::RectangleHovered(index) => {
                let total: usize = self.total();
                self.hovered_rect = match index {
                    Some(h) => if h < total {
                        Some(h)
                    } else {
                        None
                    },
                    None => None,
                };
            },
            _ => {},
        }
    }

    fn update_drag(&mut self, input: Input)
        requires
            old(self).wf(),
            input.wf(),
            input is RectangleDragStart || input is RectangleDragMove || input is RectangleDragEnd,
        ensures
            final(self).wf(),
            *final(self) == old(self).spec_next(input),
    {
        match input {
            Input::RectangleDragStart(index, x, y) => {
                if index < self.total() {
                    self.dragged_rect = Some(index);
                    self.is_panning = false;
                    self.last_mouse_x = x;
                    self.last_mouse_y = y;
                    self.dragged_rect_offset_x = 0;
                    self.dragged_rect_offset_y = 0;
                }
            },
            Input::RectangleDragMove(x, y) => {
                if self.dragged_rect.is_some() {
                    self.dragged_rect_offset_x = saturating_sum(
                        self.dragged_rect_offset_x,
                        x - self.last_mouse_x,
                    );
                    self.dragged_rect_offset_y = saturating_sum(
                        self.dragged_rect_offset_y,
                        y - self.last_mouse_y,
                    );
                    self.last_mouse_x = x;
                    self.last_mouse_y = y;
                }
            },
            Input::RectangleDragEnd(_, _, _, _) => {
                self.dragged_rect = None;
                self.dragged_rect_offset_x = 0;
                self.dragged_rect_offset_y = 0;
            },
            _ => {},
        }
    }

    /// Reacts to an event: changes the state, and says what work the shell
    /// is to do.
    pub fn update(&mut self, input: Input) -> (cmd: Command)
        requires
            old(self).wf(),
            input.wf(),
        ensures
            final(self).wf(),
            input is ExportAlgorithmInput ==> Self::spec_export(*old(self), *final(self), cmd),
            input !is ExportAlgorithmInput ==> *final(self) == old(self).spec_next(input) && cmd
                == spec_command(input),
    {
        match input {
            Input::ImportPressed => Command::PickRectangleFile,
            Input::ImportOutputJsonPressed => Command::PickOutputFile,
            Input::ExportAlgorithmInput => self.export(),
            Input::SnapAndAdjustHeight => Command::Nothing,
            Input::ZoomChanged(_) | Input::AnimationSpeedChanged(_) | Input::Tick => {
                self.update_view(input);
                Command::Nothing
            },
            Input::PanStart(_, _) | Input::PanMove(_, _) | Input::PanEnd | Input::RectangleHovered(
                _,
            ) => {
                self.update_pan(input);
                Command::Nothing
            },
            Input::RectangleDragStart(_, _, _) | Input::RectangleDragMove(_, _)
            | Input::RectangleDragEnd(_, _, _, _) => {
                self.update_drag(input);
                Command::Nothing
            },
            _ => {
                self.update_form(input);
                Command::Nothing
            },
        }
    }
}

/// Executable form of [`spec_zoom`].
pub fn zoom_step(zoom: i64, factor: i64) -> (out: i64)
    requires
        ZOOM_MIN <= zoom <= ZOOM_MAX,
    ensures
        out == spec_zoom(zoom as int, factor as int),
        ZOOM_MIN <= out <= ZOOM_MAX,
{
    assert(-0x8000_0000_0000_0000 * ZOOM_MAX <= zoom * factor <= 0x8000_0000_0000_0000 * ZOOM_MAX)
        by (nonlinear_arith)
        requires
            ZOOM_MIN <= zoom <= ZOOM_MAX,
            -0x8000_0000_0000_0000 <= factor <= 0x8000_0000_0000_0000,
    ;
    let z: i128 = floor_div(zoom as i128 * factor as i128, ONE as i128);
    if z < ZOOM_MIN as i128 {
        ZOOM_MIN
    } else if z > ZOOM_MAX as i128 {
        ZOOM_MAX
    } else {
        z as i64
    }
}

impl Default for PackingApp {
    /// The state at the start: an empty form, no layout, a zoom of one, no
    /// pan, and a period of 80 milliseconds.
    fn default() -> (app: PackingApp)
        ensures
            app.wf(),
            app.w_input@.len() == 0,
            app.n_input@.len() == 0,
            app.k_input@.len() == 0,
            !app.autofile,
            app.rectangle_data@.len() == 0,
            app.error_message is None,
            app.algorithm_output is None,
            app.zoom == ONE,
            app.visible_rects == 0,
            !app.animating,
            app.animation_speed == 80,
            app.pan_x == 0,
            app.pan_y == 0,
            !app.is_panning,
            app.last_mouse_x == 0,
            app.last_mouse_y == 0,
            app.hovered_rect is None,
            app.dragged_rect is None,
            app.dragged_rect_offset_x == 0,
            app.dragged_rect_offset_y == 0,
    {
        PackingApp {
            w_input: String::new(),
            n_input: String::new(),
            k_input: String::new(),
            autofile: false,
            rectangle_data: String::new(),
            error_message: None,
            algorithm_output: None,
            zoom: ONE,
            visible_rects: 0,
            animating: false,
            animation_speed: 80,
            pan_x: 0,
            pan_y: 0,
            is_panning: false,
            last_mouse_x: 0,
            last_mouse_y: 0,
            hovered_rect: None,
            dragged_rect: None,
            dragged_rect_offset_x: 0,
            dragged_rect_offset_y: 0,
        }
    }
}

} // verus!
