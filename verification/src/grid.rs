//! The grid of iteration counts of one frame.

use vstd::prelude::*;
use rayon::iter::{IndexedParallelIterator, IntoParallelRefMutIterator, ParallelIterator};
use crate::fractals::BaseFractal;
use crate::kernel::{Kernel, SamplePoint};
use crate::laws::lemma_frame_fits;
use crate::palette::{Palette, CHANNELS};
use crate::MAX_ITERATION;

verus! {

/// One iteration count for each pixel of a raster, held row by row.
pub struct IterationGrid {
    width: u32,
    height: u32,
    rows: Vec<Vec<u16>>,
}

impl View for IterationGrid {
    type V = Seq<Seq<u16>>;

    /// The rows of the grid from top to bottom, each from left to right.
    closed spec fn view(&self) -> Seq<Seq<u16>> {
        cells_of(self.rows@)
    }
}

/// The counts that `rows` holds, row by row.
pub open spec fn cells_of(rows: Seq<Vec<u16>>) -> Seq<Seq<u16>> {
    Seq::new(rows.len(), |y: int| rows[y]@)
}

/// Every count in `cells` is within the iteration budget.
pub open spec fn within_budget(cells: Seq<Seq<u16>>) -> bool {
    forall|y: int, x: int|
        0 <= y < cells.len() && 0 <= x < cells[y].len() ==> #[trigger] cells[y][x] <= MAX_ITERATION
}

/// `cells` has `height` rows of `width` entries each.
pub open spec fn has_shape(cells: Seq<Seq<u16>>, width: int, height: int) -> bool {
    &&& cells.len() == height
    &&& forall|y: int| 0 <= y < height ==> (#[trigger] cells[y]).len() == width
}

/// Fills every row of `rows` on rayon's thread pool: the call of
/// `par_iter_mut().enumerate().for_each(..)` hands each row, with its index,
/// to `Kernel::fill_row` once, and returns when every row is done.
///
/// The contract claims of rayon that the number of rows stays, and that the
/// row with index `y` is left as a call of `fill_row` for the raster row `y`
/// leaves it: with its old length and a possible value in each pixel.
#[verifier::external_body]
fn fill_rows_in_parallel<T, P, I, A>(
    rows: &mut Vec<Vec<u16>>,
    view: &BaseFractal,
    kernel: &Kernel<P, I, A>,
) where
    T: Copy,
    P: Fn(SamplePoint) -> T + Sync,
    I: Fn(T) -> bool + Sync,
    A: Fn(T) -> T + Sync,

    requires
        kernel.callable(),
        old(rows)@.len() <= u32::MAX,
        forall|y: int| 0 <= y < old(rows)@.len() ==> (#[trigger] old(rows)@[y])@.len() <= u32::MAX,
    ensures
        final(rows)@.len() == old(rows)@.len(),
        forall|y: int|
            0 <= y < old(rows)@.len() ==> kernel.row_holds(
                *view,
                y as u32,
                old(rows)@[y]@.len() as int,
                (#[trigger] final(rows)@[y])@,
            ),
{
    rows.par_iter_mut().enumerate().for_each(|(y, row)| kernel.fill_row(view, y as u32, row));
}

/// A row of `width` pixels with the count 0 everywhere.
pub fn blank_row(width: u32) -> (row: Vec<u16>)
    ensures
        row@.len() == width,
        forall|x: int| 0 <= x < width ==> (#[trigger] row@[x]) == 0,
{
    let mut row: Vec<u16> = Vec::new();
    let mut x: u32 = 0;
    while x < width
        invariant
            x <= width,
            row@.len() == x,
            forall|i: int| 0 <= i < x ==> (#[trigger] row@[i]) == 0,
        decreases width - x,
    {
        row.push(0);
        x += 1;
    }
    row
}

/// `height` rows of `width` pixels each, with the count 0 everywhere.
pub fn blank_rows(width: u32, height: u32) -> (rows: Vec<Vec<u16>>)
    ensures
        rows@.len() == height,
        forall|y: int| 0 <= y < height ==> (#[trigger] rows@[y])@.len() == width,
        forall|y: int, x: int| 0 <= y < height && 0 <= x < width ==> (#[trigger] rows@[y]@[x]) == 0,
{
    let mut rows: Vec<Vec<u16>> = Vec::new();
    let mut y: u32 = 0;
    while y < height
        invariant
            y <= height,
            rows@.len() == y,
            forall|j: int| 0 <= j < y ==> (#[trigger] rows@[j])@.len() == width,
            forall|j: int, i: int| 0 <= j < y && 0 <= i < width ==> (#[trigger] rows@[j]@[i]) == 0,
        decreases height - y,
    {
        rows.push(blank_row(width));
        y += 1;
    }
    rows
}

/// The number of whole pixels that `len` bytes hold, which is also the
/// index of the pixel that the byte with index `len` lies in.
pub open spec fn whole_pixels(len: int) -> int {
    len / (CHANNELS as int)
}

/// The byte that belongs at the index `j` of a frame: a channel of the
/// colour of the pixel that the index lies in.
pub open spec fn pixel_byte(cells: Seq<Seq<u16>>, width: int, colors: Seq<Seq<u8>>, j: int) -> u8 {
    let pixel = whole_pixels(j);
    let channel = j % (CHANNELS as int);
    colors[cells[pixel / width][pixel % width] as int][channel]
}

/// `after` is `before` with the colour of every pixel written into it, as
/// far as whole pixels fit.
pub open spec fn painted(
    cells: Seq<Seq<u16>>,
    width: int,
    colors: Seq<Seq<u8>>,
    before: Seq<u8>,
    after: Seq<u8>,
) -> bool {
    &&& after.len() == before.len()
    &&& forall|j: int|
        0 <= j < before.len() ==> #[trigger] after[j] == if whole_pixels(j) < whole_pixels(
            before.len() as int,
        ) {
            pixel_byte(cells, width, colors, j)
        } else {
            before[j]
        }
}

impl IterationGrid {
    /// The number of pixels in a row.
    pub closed spec fn spec_width(&self) -> u32 {
        self.width
    }

    /// The number of rows.
    pub closed spec fn spec_height(&self) -> u32 {
        self.height
    }

    /// The grid has the shape that its dimensions give, and no count in it
    /// exceeds the iteration budget. This holds of every grid.
    #[verifier::type_invariant]
    pub open spec fn wf(&self) -> bool {
        &&& has_shape(self@, self.spec_width() as int, self.spec_height() as int)
        &&& within_budget(self@)
    }

    /// A grid of `width` by `height` pixels with the count 0 everywhere.
    pub fn new(width: u32, height: u32) -> (grid: Self)
        ensures
            grid.wf(),
            grid.spec_width() == width,
            grid.spec_height() == height,
            forall|y: int, x: int|
                0 <= y < height && 0 <= x < width ==> (#[trigger] grid@[y][x]) == 0,
    {
        let rows = blank_rows(width, height);
        proof {
            assert forall|y: int| 0 <= y < height implies (#[trigger] cells_of(rows@)[y]).len()
                == width by {
                assert(cells_of(rows@)[y] == rows@[y]@);
            }
        }
        IterationGrid { width, height, rows }
    }

    #[verifier::when_used_as_spec(spec_width)]
    pub fn width(&self) -> (width: u32)
        ensures
            width == self.spec_width(),
    {
        self.width
    }

    #[verifier::when_used_as_spec(spec_height)]
    pub fn height(&self) -> (height: u32)
        ensures
            height == self.spec_height(),
    {
        self.height
    }

    /// The count of the pixel in column `x` of row `y`, if the grid has
    /// such a pixel.
    pub fn get(&self, x: u32, y: u32) -> (count: Option<u16>)
        ensures
            count == if x < self.spec_width() && y < self.spec_height() {
                Some(self@[y as int][x as int])
            } else {
                None
            },
    {
        if x < self.width && y < self.height {
            proof {
                use_type_invariant(self);
                assert(self@[y as int] == self.rows@[y as int]@);
            }
            Some(self.rows[y as usize][x as usize])
        } else {
            None
        }
    }

    /// Takes `rows` as the new content of the grid if they are a frame for
    /// it: as many rows as the grid is high, each as long as the grid is
    /// wide, and no count over the iteration budget. Otherwise the grid stays
    /// as it is.
    pub fn install(&mut self, rows: Vec<Vec<u16>>) -> (installed: bool)
        ensures
            final(self).wf(),
            final(self).spec_width() == old(self).spec_width(),
            final(self).spec_height() == old(self).spec_height(),
            installed == (has_shape(
                cells_of(rows@),
                old(self).spec_width() as int,
                old(self).spec_height() as int,
            ) && within_budget(cells_of(rows@))),
            final(self)@ == if installed {
                cells_of(rows@)
            } else {
                old(self)@
            },
    {
        proof {
            use_type_invariant(&*self);
        }
        let ghost cells = cells_of(rows@);
        if rows.len() != self.height as usize {
            return false;
        }
        let mut y: usize = 0;
        while y < rows.len()
            invariant
                *self == *old(self),
                self.wf(),
                cells == cells_of(rows@),
                y <= rows@.len(),
                forall|j: int| 0 <= j < y ==> (#[trigger] cells[j]).len() == self.width,
                forall|j: int, i: int|
                    0 <= j < y && 0 <= i < cells[j].len() ==> #[trigger] cells[j][i] <= MAX_ITERATION,
            decreases rows@.len() - y,
        {
            if rows[y].len() != self.width as usize {
                assert(cells[y as int].len() != self.width);
                return false;
            }
            let mut x: usize = 0;
            while x < rows[y as usize].len()
                invariant
                    *self == *old(self),
                    self.wf(),
                    cells == cells_of(rows@),
                    y < rows@.len(),
                    x <= rows@[y as int]@.len(),
                    forall|i: int| 0 <= i < x ==> #[trigger] cells[y as int][i] <= MAX_ITERATION,
                decreases rows@[y as int]@.len() - x,
            {
                if rows[y][x] > MAX_ITERATION {
                    assert(cells[y as int][x as int] > MAX_ITERATION);
                    return false;
                }
                x += 1;
            }
            y += 1;
        }
        self.rows = rows;
        true
    }

    /// Computes every pixel of the frame, row after row. The new frame takes
    /// the place of the last one when all of it is there.
    pub fn compute_frame<T: Copy, P: Fn(SamplePoint) -> T, I: Fn(T) -> bool, A: Fn(T) -> T>(
        &mut self,
        view: &BaseFractal,
        kernel: &Kernel<P, I, A>,
    )
        requires
            kernel.callable(),
        ensures
            final(self).wf(),
            final(self).spec_width() == old(self).spec_width(),
            final(self).spec_height() == old(self).spec_height(),
            kernel.frame_holds(
                *view,
                old(self).spec_width() as int,
                old(self).spec_height() as int,
                final(self)@,
            ),
    {
        let mut rows = blank_rows(self.width, self.height);
        let mut y: usize = 0;
        while y < rows.len()
            invariant
                kernel.callable(),
                rows@.len() == self.height,
                y <= rows@.len(),
                forall|j: int| 0 <= j < rows@.len() ==> (#[trigger] rows@[j])@.len() == self.width,
                forall|j: int|
                    0 <= j < y ==> kernel.row_holds(
                        *view,
                        j as u32,
                        self.width as int,
                        (#[trigger] rows@[j])@,
                    ),
            decreases rows@.len() - y,
        {
            kernel.fill_row(view, y as u32, &mut rows[y]);
            y += 1;
        }
        self.replace(view, kernel, rows);
    }

    /// Computes every pixel of the frame, the rows spread over the workers
    /// of a thread pool. The call returns when every row is done, and only
    /// then does the new frame take the place of the last one.
    pub fn compute_frame_parallel<T, P, I, A>(&mut self, view: &BaseFractal, kernel: &Kernel<P, I, A>) where
        T: Copy,
        P: Fn(SamplePoint) -> T + Sync,
        I: Fn(T) -> bool + Sync,
        A: Fn(T) -> T + Sync,

        requires
            kernel.callable(),
        ensures
            final(self).wf(),
            final(self).spec_width() == old(self).spec_width(),
            final(self).spec_height() == old(self).spec_height(),
            kernel.frame_holds(
                *view,
                old(self).spec_width() as int,
                old(self).spec_height() as int,
                final(self)@,
            ),
    {
        let mut rows = blank_rows(self.width, self.height);
        fill_rows_in_parallel(&mut rows, view, kernel);
        self.replace(view, kernel, rows);
    }

    /// Puts a frame that was computed for `view` in the place of the last one.
    fn replace<T: Copy, P: Fn(SamplePoint) -> T, I: Fn(T) -> bool, A: Fn(T) -> T>(
        &mut self,
        view: &BaseFractal,
        kernel: &Kernel<P, I, A>,
        rows: Vec<Vec<u16>>,
    )
        requires
            rows@.len() == old(self).spec_height(),
            forall|y: int|
                0 <= y < rows@.len() ==> kernel.row_holds(
                    *view,
                    y as u32,
                    old(self).spec_width() as int,
                    (#[trigger] rows@[y])@,
                ),
        ensures
            final(self).wf(),
            final(self).spec_width() == old(self).spec_width(),
            final(self).spec_height() == old(self).spec_height(),
            final(self)@ == cells_of(rows@),
            kernel.frame_holds(
                *view,
                old(self).spec_width() as int,
                old(self).spec_height() as int,
                final(self)@,
            ),
    {
        proof {
            let cells = cells_of(rows@);
            assert forall|y: int| 0 <= y < self.height implies kernel.row_holds(
                *view,
                y as u32,
                self.width as int,
                #[trigger] cells[y],
            ) by {
                assert(cells[y] == rows@[y]@);
            }
            lemma_frame_fits(*kernel, *view, self.width as int, self.height as int, cells);
        }
        self.rows = rows;
    }

    /// Writes the colour of every pixel into `frame`, four bytes a pixel,
    /// row after row: the pixel in column `x` of row `y` gets the bytes from
    /// `(y * width + x) * 4` on. A frame that is too short for the raster
    /// gets the pixels that fit in it whole; its last one to three bytes, if
    /// its length is no multiple of four, stay as they are.
    pub fn render_to(&self, palette: &Palette, frame: &mut [u8])
        requires
            whole_pixels(old(frame)@.len() as int) <= self.spec_width() * self.spec_height(),
        ensures
            painted(self@, self.spec_width() as int, palette@, old(frame)@, final(frame)@),
    {
        proof {
            use_type_invariant(self);
        }
        let pixels = frame.len() / CHANNELS;
        let width = self.width as usize;
        let ghost before = frame@;
        let mut i: usize = 0;
        while i < pixels
            invariant
                self.wf(),
                width == self.width,
                before.len() <= usize::MAX,
                pixels == whole_pixels(before.len() as int),
                pixels <= self.spec_width() * self.spec_height(),
                i <= pixels,
                frame@.len() == before.len(),
                forall|j: int|
                    0 <= j < before.len() ==> #[trigger] frame@[j] == if whole_pixels(j) < i {
                        pixel_byte(self@, width as int, palette@, j)
                    } else {
                        before[j]
                    },
            decreases pixels - i,
        {
            proof {
                lemma_pixel_in_raster(i as int, self.width as int, self.height as int);
                assert(self@[i as int / width as int] == self.rows@[i as int / width as int]@);
                assert(CHANNELS * i + 3 < before.len());
            }
            let x = i % width;
            let y = i / width;
            let rgba = palette.color(self.rows[y][x]);
            let ghost at_start = frame@;
            frame[CHANNELS * i] = rgba[0];
            frame[CHANNELS * i + 1] = rgba[1];
            frame[CHANNELS * i + 2] = rgba[2];
            frame[CHANNELS * i + 3] = rgba[3];
            proof {
                assert forall|j: int| 0 <= j < before.len() implies #[trigger] frame@[j] == if whole_pixels(
                    j,
                ) < i + 1 {
                    pixel_byte(self@, width as int, palette@, j)
                } else {
                    before[j]
                } by {
                    if whole_pixels(j) == i {
                        assert(j == CHANNELS * i + j % (CHANNELS as int));
                    } else {
                        assert(frame@[j] == at_start[j]);
                    }
                }
            }
            i += 1;
        }
    }
}

/// A pixel index below `width * height` lies in a row below `height`, and
/// the raster has at least one column.
proof fn lemma_pixel_in_raster(i: int, width: int, height: int)
    requires
        0 <= i < width * height,
        0 <= width,
        0 <= height,
    ensures
        0 < width,
        0 <= i / width < height,
        0 <= i % width < width,
{
    assert(0 < width) by (nonlinear_arith)
        requires
            0 <= i < width * height,
            0 <= width,
            0 <= height,
    ;
    assert(0 <= i / width < height && 0 <= i % width < width) by (nonlinear_arith)
        requires
            0 <= i < width * height,
            0 < width,
    ;
}

} // verus!
