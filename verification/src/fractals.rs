//! The navigation state of the renderer and the commands that change it.

use vstd::prelude::*;
use vstd::arithmetic::power::{lemma_pow_positive, pow};
use crate::grid::{painted, whole_pixels, IterationGrid};
use crate::kernel::{Kernel, SamplePoint};
use crate::palette::Palette;

verus! {

/// The centre is held in thousandths: a stored `-800` stands for `-0.8`.
pub const CENTER_SCALE: i32 = 1000;

/// A centre coordinate that a pan step carries beyond this bound, on either
/// side, wraps around to the other side.
pub const CENTER_LIMIT: i32 = 1000;

/// The change of the real part of the centre in one pan step.
pub const PAN_STEP_RE: i32 = 10;

/// The change of the imaginary part of the centre in one pan step.
pub const PAN_STEP_IM: i32 = -20;

/// Where the real part lands after a wrap, up to its sign.
pub const WRAP_TARGET_RE: i32 = 999;

/// Where the imaginary part lands after a wrap, up to its sign.
pub const WRAP_TARGET_IM: i32 = 998;

/// The real part of the centre at start-up.
pub const START_CX: i32 = -800;

/// The imaginary part of the centre at start-up.
pub const START_CY: i32 = 156;

/// The zoom factor before the first zoom step.
pub const ZOOM_START: u32 = 2;

/// One zoom step multiplies the zoom factor by
/// `ZOOM_DAMPING_NUM / ZOOM_DAMPING_DEN`, that is by 0.85.
pub const ZOOM_DAMPING_NUM: u32 = 17;

/// The denominator of the factor of one zoom step.
pub const ZOOM_DAMPING_DEN: u32 = 20;

/// One centre coordinate after a pan step that adds `step` to it: the sum,
/// unless the sum lies beyond the limit, in which case the coordinate
/// restarts at `target` on the opposite side.
pub open spec fn wrapped_step(coord: int, step: int, target: int) -> int {
    if coord + step > CENTER_LIMIT as int {
        -target
    } else if coord + step < -(CENTER_LIMIT as int) {
        target
    } else {
        coord + step
    }
}

/// The sum of two `i32` values as two's complement arithmetic gives it.
pub open spec fn wrapping_sum(a: int, b: int) -> int {
    if a + b > i32::MAX as int {
        a + b - 0x1_0000_0000
    } else if a + b < i32::MIN as int {
        a + b + 0x1_0000_0000
    } else {
        a + b
    }
}

/// The zoom factor after `steps` zoom steps is the fraction
/// `zoom_numerator(steps) / zoom_denominator(steps)`.
pub open spec fn zoom_numerator(steps: nat) -> int {
    ZOOM_START as int * pow(ZOOM_DAMPING_NUM as int, steps)
}

/// The denominator of the zoom factor after `steps` zoom steps.
pub open spec fn zoom_denominator(steps: nat) -> int {
    pow(ZOOM_DAMPING_DEN as int, steps)
}

/// What the host can ask of the navigation state.
#[derive(Clone, Copy, Debug, PartialEq, Eq, Structural)]
pub enum Command {
    /// Move the centre by one pan step.
    PanStep,
    /// Take one zoom step.
    ZoomIn,
    /// Add the two numbers to the pixel offset.
    OffsetBy(i32, i32),
}

/// The parameters that select what part of which Julia set is shown.
///
/// All fields are exact. The centre `(cx, cy)`, the constant of the
/// recurrence, is held in thousandths. The zoom factor is held as the number
/// of zoom steps taken so far. The offset is a whole number of pixels.
#[derive(Clone, Copy, Debug, PartialEq, Eq, Structural)]
pub struct BaseFractal {
    pub cx: i32,
    pub cy: i32,
    pub zoom_steps: u32,
    pub offset_x: i32,
    pub offset_y: i32,
}

impl BaseFractal {
    /// The state at start-up: centre `(-0.8, 0.156)`, zoom factor 2, no offset.
    pub open spec fn new_spec() -> BaseFractal {
        BaseFractal { cx: START_CX, cy: START_CY, zoom_steps: 0, offset_x: 0, offset_y: 0 }
    }

    /// The state at start-up.
    #[verifier::when_used_as_spec(new_spec)]
    pub fn new() -> (state: Self)
        ensures
            state == Self::new_spec(),
    {
        BaseFractal { cx: START_CX, cy: START_CY, zoom_steps: 0, offset_x: 0, offset_y: 0 }
    }

    /// The state after one zoom step: the step counter is one higher, unless
    /// it already holds the largest value it can.
    pub open spec fn zoomed(self) -> BaseFractal {
        BaseFractal {
            zoom_steps: if self.zoom_steps < u32::MAX {
                (self.zoom_steps + 1) as u32
            } else {
                self.zoom_steps
            },
            ..self
        }
    }

    /// The state after one pan step.
    pub open spec fn moved(self) -> BaseFractal {
        BaseFractal {
            cx: wrapped_step(self.cx as int, PAN_STEP_RE as int, WRAP_TARGET_RE as int) as i32,
            cy: wrapped_step(self.cy as int, PAN_STEP_IM as int, WRAP_TARGET_IM as int) as i32,
            ..self
        }
    }

    /// The state after `(off_x, off_y)` is added to the pixel offset.
    pub open spec fn shifted(self, off_x: i32, off_y: i32) -> BaseFractal {
        BaseFractal {
            offset_x: wrapping_sum(self.offset_x as int, off_x as int) as i32,
            offset_y: wrapping_sum(self.offset_y as int, off_y as int) as i32,
            ..self
        }
    }

    /// The state after `command`.
    pub open spec fn after(self, command: Command) -> BaseFractal {
        match command {
            Command::PanStep => self.moved(),
            Command::ZoomIn => self.zoomed(),
            Command::OffsetBy(off_x, off_y) => self.shifted(off_x, off_y),
        }
    }

    /// Takes one zoom step, which multiplies the zoom factor by 0.85. The
    /// step counter stops at the largest value it can hold.
    pub fn zoom(&mut self)
        ensures
            *final(self) == old(self).zoomed(),
    {
        if self.zoom_steps < u32::MAX {
            self.zoom_steps = self.zoom_steps + 1;
        }
    }

    /// Takes one pan step: the centre moves by `(+0.01, -0.02)`, and each
    /// coordinate that this carries beyond `1.0` or `-1.0` wraps around to
    /// just inside the opposite bound. Whatever the centre was, afterwards
    /// neither coordinate lies beyond a bound.
    pub fn move_fractal(&mut self)
        ensures
            *final(self) == old(self).moved(),
            final(self).cx == wrapped_step(
                old(self).cx as int,
                PAN_STEP_RE as int,
                WRAP_TARGET_RE as int,
            ),
            final(self).cy == wrapped_step(
                old(self).cy as int,
                PAN_STEP_IM as int,
                WRAP_TARGET_IM as int,
            ),
            -(CENTER_LIMIT as int) <= final(self).cx <= CENTER_LIMIT as int,
            -(CENTER_LIMIT as int) <= final(self).cy <= CENTER_LIMIT as int,
    {
        if self.cx > CENTER_LIMIT - PAN_STEP_RE {
            self.cx = -WRAP_TARGET_RE;
        } else if self.cx < -CENTER_LIMIT - PAN_STEP_RE {
            self.cx = WRAP_TARGET_RE;
        } else {
            self.cx = self.cx + PAN_STEP_RE;
        }
        if self.cy > CENTER_LIMIT - PAN_STEP_IM {
            self.cy = -WRAP_TARGET_IM;
        } else if self.cy < -CENTER_LIMIT - PAN_STEP_IM {
            self.cy = WRAP_TARGET_IM;
        } else {
            self.cy = self.cy + PAN_STEP_IM;
        }
    }

    /// Adds `(off_x, off_y)` to the pixel offset, in two's complement
    /// arithmetic: the offset has no bound of its own.
    pub fn change_offset(&mut self, off_x: i32, off_y: i32)
        ensures
            *final(self) == old(self).shifted(off_x, off_y),
            final(self).offset_x == wrapping_sum(old(self).offset_x as int, off_x as int),
            final(self).offset_y == wrapping_sum(old(self).offset_y as int, off_y as int),
    {
        self.offset_x = self.offset_x.wrapping_add(off_x);
        self.offset_y = self.offset_y.wrapping_add(off_y);
    }

    /// Carries out one navigation command.
    pub fn navigate(&mut self, command: Command)
        ensures
            *final(self) == old(self).after(command),
    {
        match command {
            Command::PanStep => self.move_fractal(),
            Command::ZoomIn => self.zoom(),
            Command::OffsetBy(off_x, off_y) => self.change_offset(off_x, off_y),
        }
    }
}

/// One zoom step multiplies the zoom factor by 17/20, that is by 0.85, as
/// long as the step counter has not reached its largest value. The zoom
/// factor is a positive fraction.
pub proof fn lemma_zoom_step_scales(state: BaseFractal)
    requires
        state.zoom_steps < u32::MAX,
    ensures
        zoom_numerator(state.zoomed().zoom_steps as nat) * ZOOM_DAMPING_DEN * zoom_denominator(
            state.zoom_steps as nat,
        ) == zoom_numerator(state.zoom_steps as nat) * ZOOM_DAMPING_NUM * zoom_denominator(
            state.zoomed().zoom_steps as nat,
        ),
        zoom_numerator(state.zoom_steps as nat) > 0,
        zoom_denominator(state.zoom_steps as nat) > 0,
{
    let steps = state.zoom_steps as nat;
    reveal(pow);
    lemma_pow_positive(ZOOM_DAMPING_NUM as int, steps);
    lemma_pow_positive(ZOOM_DAMPING_DEN as int, steps);
    let n = pow(ZOOM_DAMPING_NUM as int, steps);
    let d = pow(ZOOM_DAMPING_DEN as int, steps);
    assert(pow(ZOOM_DAMPING_NUM as int, steps + 1) == ZOOM_DAMPING_NUM * n);
    assert(pow(ZOOM_DAMPING_DEN as int, steps + 1) == ZOOM_DAMPING_DEN * d);
    assert((ZOOM_START * (ZOOM_DAMPING_NUM * n)) * ZOOM_DAMPING_DEN * d == (ZOOM_START * n)
        * ZOOM_DAMPING_NUM * (ZOOM_DAMPING_DEN * d)) by (nonlinear_arith);
    assert(ZOOM_START * n > 0) by (nonlinear_arith)
        requires
            n > 0,
            ZOOM_START > 0,
    ;
}

/// An engine that renders the Julia set of its navigation state: it keeps
/// the iteration grid of the last frame and the palette that colours it.
pub trait Fractal {
    /// The navigation state that the next frame is computed for.
    spec fn state(&self) -> BaseFractal;

    /// The iteration grid of the last frame.
    spec fn grid(&self) -> IterationGrid;

    /// The colours of the counts.
    spec fn palette(&self) -> Palette;

    /// Carries out one navigation command. The last frame stays as it is
    /// until the next one is computed.
    fn navigate(&mut self, command: Command)
        ensures
            final(self).state() == old(self).state().after(command),
            final(self).grid() == old(self).grid(),
            final(self).palette() == old(self).palette(),
    ;

    /// Computes the frame for the current navigation state. The state is
    /// read once, before the work starts, and the call returns when the
    /// whole frame is done.
    fn update_fractal<T, P, I, A>(&mut self, kernel: &Kernel<P, I, A>) where
        T: Copy,
        P: Fn(SamplePoint) -> T + Sync,
        I: Fn(T) -> bool + Sync,
        A: Fn(T) -> T + Sync,

        requires
            kernel.callable(),
        ensures
            final(self).grid().wf(),
            final(self).state() == old(self).state(),
            final(self).palette() == old(self).palette(),
            final(self).grid().spec_width() == old(self).grid().spec_width(),
            final(self).grid().spec_height() == old(self).grid().spec_height(),
            kernel.frame_holds(
                old(self).state(),
                old(self).grid().spec_width() as int,
                old(self).grid().spec_height() as int,
                final(self).grid()@,
            ),
    ;

    /// Writes the colours of the last frame into `frame`, four bytes a
    /// pixel, row after row.
    fn draw(&self, frame: &mut [u8])
        requires
            whole_pixels(old(frame)@.len() as int) <= self.grid().spec_width()
                * self.grid().spec_height(),
        ensures
            painted(
                self.grid()@,
                self.grid().spec_width() as int,
                self.palette()@,
                old(frame)@,
                final(frame)@,
            ),
    ;
}

} // verus!
