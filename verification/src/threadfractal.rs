//! The engine whose rows are computed by one worker each.
//!
//! The workers themselves are started and joined by the caller. This module
//! holds what a worker runs, and what is done with the rows that the workers
//! hand back once all of them have been joined.

use vstd::prelude::*;
use crate::fractals::{BaseFractal, Command};
use crate::grid::{
    blank_row, cells_of, has_shape, painted, whole_pixels, within_budget, IterationGrid,
};
use crate::kernel::{Kernel, SamplePoint};
use crate::laws::lemma_frame_fits;
use crate::palette::Palette;

verus! {

/// A worker did not finish its row: the frame was given up.
#[derive(Clone, Copy, Debug, PartialEq, Eq, Structural)]
pub struct WorkerFault {
    /// The topmost row whose worker did not finish.
    pub row: usize,
}

/// Why a frame was given up.
#[derive(Clone, Copy, Debug, PartialEq, Eq, Structural)]
pub enum FrameError {
    /// A worker did not finish its row.
    Fault(WorkerFault),
    /// Every worker finished, but the rows do not make a frame for the
    /// raster: their number or the length of one is wrong, or a count in them
    /// is over the iteration budget.
    Malformed,
}

/// Every worker handed back a row.
pub open spec fn all_finished(outcomes: Seq<Result<Vec<u16>, ()>>) -> bool {
    forall|y: int| 0 <= y < outcomes.len() ==> #[trigger] outcomes[y] is Ok
}

/// The rows that the workers handed back, in the order of the workers.
pub open spec fn delivered(outcomes: Seq<Result<Vec<u16>, ()>>) -> Seq<Seq<u16>> {
    Seq::new(outcomes.len(), |y: int| outcomes[y]->Ok_0@)
}

/// `row` is the topmost row whose worker did not finish.
pub open spec fn first_fault(outcomes: Seq<Result<Vec<u16>, ()>>, row: int) -> bool {
    &&& 0 <= row < outcomes.len()
    &&& outcomes[row] is Err
    &&& forall|y: int| 0 <= y < row ==> #[trigger] outcomes[y] is Ok
}

/// Puts the rows that the workers handed back together, in their order.
/// There is a frame if every worker finished; if not, the result names the
/// topmost row that is missing.
pub fn assemble(outcomes: Vec<Result<Vec<u16>, ()>>) -> (frame: Result<Vec<Vec<u16>>, WorkerFault>)
    ensures
        match frame {
            Ok(rows) => all_finished(outcomes@) && cells_of(rows@) == delivered(outcomes@),
            Err(fault) => first_fault(outcomes@, fault.row as int),
        },
{
    let mut outcomes = outcomes;
    let ghost all = outcomes@;
    let mut rows: Vec<Vec<u16>> = Vec::new();
    let mut fault: Option<WorkerFault> = None;
    while outcomes.len() > 0
        invariant
            outcomes@.len() <= all.len(),
            forall|y: int| 0 <= y < outcomes@.len() ==> #[trigger] outcomes@[y] == all[y],
            match fault {
                None => {
                    &&& rows@.len() + outcomes@.len() == all.len()
                    &&& forall|k: int|
                        0 <= k < rows@.len() ==> #[trigger] all[all.len() - 1 - k] == Ok::<Vec<u16>, ()>(
                            rows@[k],
                        )
                },
                Some(first) => {
                    &&& outcomes@.len() <= first.row < all.len()
                    &&& all[first.row as int] is Err
                    &&& forall|y: int| outcomes@.len() <= y < first.row ==> #[trigger] all[y] is Ok
                },
            },
        decreases outcomes@.len(),
    {
        let y = outcomes.len() - 1;
        match outcomes.pop() {
            Some(Ok(row)) => {
                if fault.is_none() {
                    rows.push(row);
                }
            },
            Some(Err(_)) => {
                fault = Some(WorkerFault { row: y });
            },
            None => {},
        }
    }
    match fault {
        Some(first) => Err(first),
        None => {
            let mut frame: Vec<Vec<u16>> = Vec::new();
            while rows.len() > 0
                invariant
                    rows@.len() + frame@.len() == all.len(),
                    forall|k: int|
                        0 <= k < rows@.len() ==> #[trigger] all[all.len() - 1 - k] == Ok::<Vec<u16>, ()>(
                            rows@[k],
                        ),
                    forall|y: int|
                        0 <= y < frame@.len() ==> #[trigger] all[y] == Ok::<Vec<u16>, ()>(frame@[y]),
                decreases rows@.len(),
            {
                let ghost k = rows@.len() - 1;
                match rows.pop() {
                    Some(row) => {
                        assert(all[all.len() - 1 - k] == Ok::<Vec<u16>, ()>(row));
                        frame.push(row);
                    },
                    None => {},
                }
            }
            proof {
                assert(cells_of(frame@) =~= delivered(all));
            }
            Ok(frame)
        },
    }
}

/// If every worker has handed back what `row_task` computes for its row,
/// the rows are a frame for the view: they are not turned down as malformed,
/// and the grid that takes them holds a frame.
pub proof fn lemma_tasks_make_frame<T: Copy, P: Fn(SamplePoint) -> T, I: Fn(T) -> bool, A: Fn(T) -> T>(
    kernel: Kernel<P, I, A>,
    view: BaseFractal,
    width: int,
    height: int,
    outcomes: Seq<Result<Vec<u16>, ()>>,
)
    requires
        outcomes.len() == height,
        forall|y: int|
            0 <= y < height ==> (#[trigger] outcomes[y]) is Ok && kernel.row_holds(
                view,
                y as u32,
                width,
                outcomes[y]->Ok_0@,
            ),
    ensures
        all_finished(outcomes),
        kernel.frame_holds(view, width, height, delivered(outcomes)),
        has_shape(delivered(outcomes), width, height),
        within_budget(delivered(outcomes)),
{
    let cells = delivered(outcomes);
    assert forall|y: int| 0 <= y < height implies kernel.row_holds(
        view,
        y as u32,
        width,
        #[trigger] cells[y],
    ) by {
        assert(outcomes[y] is Ok);
    }
    lemma_frame_fits(kernel, view, width, height, cells);
}

/// A Julia-set engine whose frame is put together from rows that were
/// computed independently, each by a worker that owns its row.
pub struct ThreadFractal {
    pub base: BaseFractal,
    display_frame: IterationGrid,
    palette: Palette,
}

impl ThreadFractal {
    /// The navigation state that the next frame is computed for.
    pub closed spec fn state(&self) -> BaseFractal {
        self.base
    }

    /// The iteration grid of the last frame.
    pub closed spec fn grid(&self) -> IterationGrid {
        self.display_frame
    }

    /// The colours of the counts.
    pub closed spec fn palette(&self) -> Palette {
        self.palette
    }

    /// An engine for a raster of `width` by `height` pixels, in the start-up
    /// state, with an all-zero frame and the cubehelix palette.
    pub fn new(width: u32, height: u32) -> (fractal: Self)
        ensures
            fractal.grid().wf(),
            fractal.palette().wf(),
            fractal.state() == BaseFractal::new_spec(),
            fractal.grid().spec_width() == width,
            fractal.grid().spec_height() == height,
            forall|y: int, x: int|
                0 <= y < height && 0 <= x < width ==> (#[trigger] fractal.grid()@[y][x]) == 0,
    {
        ThreadFractal {
            base: BaseFractal::new(),
            display_frame: IterationGrid::new(width, height),
            palette: Palette::cubehelix(),
        }
    }

    /// The navigation state that the next frame is computed for.
    pub fn view_state(&self) -> (state: BaseFractal)
        ensures
            state == self.state(),
    {
        self.base
    }

    /// Carries out one navigation command. The last frame stays as it is
    /// until the next one is computed.
    pub fn navigate(&mut self, command: Command)
        ensures
            final(self).state() == old(self).state().after(command),
            final(self).grid() == old(self).grid(),
            final(self).palette() == old(self).palette(),
    {
        self.base.navigate(command);
    }

    /// The iteration grid of the last frame.
    pub fn frame(&self) -> (frame: &IterationGrid)
        ensures
            *frame == self.grid(),
    {
        &self.display_frame
    }

    /// The palette that `draw` colours the frame with.
    pub fn colors(&self) -> (palette: &Palette)
        ensures
            *palette == self.palette(),
    {
        &self.palette
    }

    /// What the worker of the raster row `pixel_y` runs: it computes the row
    /// into a vector of its own and hands it back.
    pub fn row_task<T: Copy, P: Fn(SamplePoint) -> T, I: Fn(T) -> bool, A: Fn(T) -> T>(
        view: &BaseFractal,
        width: u32,
        pixel_y: u32,
        kernel: &Kernel<P, I, A>,
    ) -> (row: Vec<u16>)
        requires
            kernel.callable(),
        ensures
            kernel.row_holds(*view, pixel_y, width as int, row@),
    {
        let mut row = blank_row(width);
        kernel.fill_row(view, pixel_y, &mut row);
        row
    }

    /// What is done once every worker has been joined. `outcomes` holds,
    /// for each row from the top, the row that its worker handed back, or
    /// `Err` if the worker did not finish. The rows become the new frame if
    /// all of them are there and they fit the raster. Otherwise the frame is
    /// given up, and the grid holds the last frame as before.
    pub fn finish_update(&mut self, outcomes: Vec<Result<Vec<u16>, ()>>) -> (result: Result<
        (),
        FrameError,
    >)
        ensures
            final(self).grid().wf(),
            final(self).state() == old(self).state(),
            final(self).palette() == old(self).palette(),
            final(self).grid().spec_width() == old(self).grid().spec_width(),
            final(self).grid().spec_height() == old(self).grid().spec_height(),
            match result {
                Ok(()) => {
                    &&& all_finished(outcomes@)
                    &&& has_shape(
                        delivered(outcomes@),
                        old(self).grid().spec_width() as int,
                        old(self).grid().spec_height() as int,
                    )
                    &&& within_budget(delivered(outcomes@))
                    &&& final(self).grid()@ == delivered(outcomes@)
                },
                Err(FrameError::Fault(fault)) => {
                    &&& first_fault(outcomes@, fault.row as int)
                    &&& final(self).grid()@ == old(self).grid()@
                },
                Err(FrameError::Malformed) => {
                    &&& all_finished(outcomes@)
                    &&& !(has_shape(
                        delivered(outcomes@),
                        old(self).grid().spec_width() as int,
                        old(self).grid().spec_height() as int,
                    ) && within_budget(delivered(outcomes@)))
                    &&& final(self).grid()@ == old(self).grid()@
                },
            },
    {
        proof {
            use_type_invariant(&self.display_frame);
        }
        match assemble(outcomes) {
            Err(fault) => Err(FrameError::Fault(fault)),
            Ok(rows) => {
                if self.display_frame.install(rows) {
                    Ok(())
                } else {
                    Err(FrameError::Malformed)
                }
            },
        }
    }

    /// Writes the colours of the last frame into `frame`, four bytes a
    /// pixel, row after row.
    pub fn draw(&self, frame: &mut [u8])
        requires
            whole_pixels(old(frame)@.len() as int) <= self.grid().spec_width()
                * self.grid().spec_height(),
        ensures
            painted(
                self.grid()@,
                self.grid().spec_width() as int,
                self.palette()@,
                old(frame)@,
                final(frame)@,
            ),
    {
        self.display_frame.render_to(&self.palette, frame);
    }
}

} // verus!
