//! The engine that computes its frames on a work-stealing thread pool.

use vstd::prelude::*;
use crate::fractals::{BaseFractal, Command, Fractal};
use crate::grid::IterationGrid;
use crate::kernel::{Kernel, SamplePoint};
use crate::palette::Palette;

verus! {

/// A Julia-set engine whose rows are computed in parallel.
pub struct RayonFractal {
    pub base: BaseFractal,
    display_frame: IterationGrid,
    palette: Palette,
}

impl RayonFractal {
    /// An engine for a raster of `width` by `height` pixels, in the start-up
    /// state, with an all-zero frame and the cubehelix palette.
    pub fn new(width: u32, height: u32) -> (fractal: Self)
        ensures
            fractal.grid().wf(),
            fractal.palette().wf(),
            fractal.state() == BaseFractal::new_spec(),
            fractal.grid().spec_width() == width,
            fractal.grid().spec_height() == height,
            forall|y: int, x: int|
                0 <= y < height && 0 <= x < width ==> (#[trigger] fractal.grid()@[y][x]) == 0,
    {
        RayonFractal {
            base: BaseFractal::new(),
            display_frame: IterationGrid::new(width, height),
            palette: Palette::cubehelix(),
        }
    }

    /// The navigation state that the next frame is computed for.
    pub fn view_state(&self) -> (state: BaseFractal)
        ensures
            state == self.state(),
    {
        self.base
    }

    /// The iteration grid of the last frame.
    pub fn frame(&self) -> (frame: &IterationGrid)
        ensures
            *frame == self.grid(),
    {
        &self.display_frame
    }

    /// The palette that `draw` colours the frame with.
    pub fn colors(&self) -> (palette: &Palette)
        ensures
            *palette == self.palette(),
    {
        &self.palette
    }
}

impl Fractal for RayonFractal {
    closed spec fn state(&self) -> BaseFractal {
        self.base
    }

    closed spec fn grid(&self) -> IterationGrid {
        self.display_frame
    }

    closed spec fn palette(&self) -> Palette {
        self.palette
    }

    fn navigate(&mut self, command: Command) {
        self.base.navigate(command);
    }

    fn update_fractal<T, P, I, A>(&mut self, kernel: &Kernel<P, I, A>) where
        T: Copy,
        P: Fn(SamplePoint) -> T + Sync,
        I: Fn(T) -> bool + Sync,
        A: Fn(T) -> T + Sync,
     {
        let snapshot = self.base;
        self.display_frame.compute_frame_parallel(&snapshot, kernel);
    }

    fn draw(&self, frame: &mut [u8]) {
        self.display_frame.render_to(&self.palette, frame);
    }
}

} // verus!
