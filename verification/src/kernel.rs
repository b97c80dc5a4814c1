//! The escape-time evaluation of one sample, one pixel and one row.

use vstd::prelude::*;
use crate::fractals::BaseFractal;
use crate::{MAX_ITERATION, SAMPLES_PER_LINE, SAMPLES_PER_PIXEL};

verus! {

/// Where a sample lies on the raster: the pixel it belongs to, moved by the
/// pixel offset of the view, and its place in the sample grid of that pixel.
/// The sample lies `sub_col / SAMPLES_PER_LINE` of a pixel to the right of
/// column `col` and `sub_row / SAMPLES_PER_LINE` of a pixel below row `row`.
#[derive(Clone, Copy, Debug, PartialEq, Eq, Structural)]
pub struct SamplePoint {
    pub col: i64,
    pub row: i64,
    pub sub_col: u8,
    pub sub_row: u8,
}

/// The sample with index `index` of the pixel `(pixel_x, pixel_y)` under `view`.
pub open spec fn sample_point_of(view: BaseFractal, pixel_x: u32, pixel_y: u32, index: u8) -> SamplePoint {
    SamplePoint {
        col: (pixel_x + view.offset_x) as i64,
        row: (pixel_y + view.offset_y) as i64,
        sub_col: (index % SAMPLES_PER_LINE) as u8,
        sub_row: (index / SAMPLES_PER_LINE) as u8,
    }
}

/// Computes the sample with index `sample_index` of a pixel.
pub fn sample_point(view: &BaseFractal, pixel_x: u32, pixel_y: u32, sample_index: u8) -> (point:
    SamplePoint)
    ensures
        point == sample_point_of(*view, pixel_x, pixel_y, sample_index),
        point.col == pixel_x + view.offset_x,
        point.row == pixel_y + view.offset_y,
        point.sub_col == sample_index % SAMPLES_PER_LINE,
        point.sub_row == sample_index / SAMPLES_PER_LINE,
{
    SamplePoint {
        col: pixel_x as i64 + view.offset_x as i64,
        row: pixel_y as i64 + view.offset_y as i64,
        sub_col: sample_index % SAMPLES_PER_LINE,
        sub_row: sample_index / SAMPLES_PER_LINE,
    }
}

/// The sum of the entries of `counts`.
pub open spec fn sum_of(counts: Seq<int>) -> int
    decreases counts.len(),
{
    if counts.len() == 0 {
        0
    } else {
        sum_of(counts.drop_last()) + counts.last()
    }
}

/// The arithmetic of the plane, over a point type `T` of the caller's choice.
///
/// `place` maps a sample to its point in the plane, `inside` tells whether a
/// point is still within the escape radius, and `advance` applies one step
/// of the recurrence.
pub struct Kernel<P, I, A> {
    pub place: P,
    pub inside: I,
    pub advance: A,
}

impl<T: Copy, P: Fn(SamplePoint) -> T, I: Fn(T) -> bool, A: Fn(T) -> T> Kernel<P, I, A> {
    /// Every closure of the kernel accepts every argument.
    pub open spec fn callable(&self) -> bool {
        &&& forall|s: SamplePoint| call_requires(self.place, (s,))
        &&& forall|z: T| call_requires(self.inside, (z,))
        &&& forall|z: T| call_requires(self.advance, (z,))
    }

    /// `orbit` is a run of the escape-time loop from `start` that ends with
    /// the count `n`: it starts at `start`, each of its first `n` points is
    /// inside and is followed by its successor under `advance`, and the run
    /// ends either at a point that is not inside or with the budget used up.
    pub open spec fn runs(&self, orbit: Seq<T>, start: T, n: int) -> bool {
        &&& 0 <= n <= MAX_ITERATION
        &&& orbit.len() == n + 1
        &&& orbit[0] == start
        &&& forall|k: int|
            0 <= k < n ==> call_ensures(self.inside, (#[trigger] orbit[k],), true) && call_ensures(
                self.advance,
                (orbit[k],),
                orbit[k + 1],
            )
        &&& n < MAX_ITERATION ==> call_ensures(self.inside, (orbit[n],), false)
    }

    /// The escape-time loop, started at `start`, may return the count `n`.
    pub open spec fn escapes_after(&self, start: T, n: int) -> bool {
        exists|orbit: Seq<T>| self.runs(orbit, start, n)
    }

    /// Counts the steps of the recurrence that keep the orbit of `start`
    /// inside the escape radius, up to the iteration budget.
    pub fn escape_count(&self, start: T) -> (count: u16)
        requires
            self.callable(),
        ensures
            self.escapes_after(start, count as int),
            count <= MAX_ITERATION,
    {
        let mut z = start;
        let mut count: u16 = 0;
        let ghost mut orbit: Seq<T> = seq![start];
        while count < MAX_ITERATION
            invariant
                self.callable(),
                count <= MAX_ITERATION,
                orbit.len() == count + 1,
                orbit[0] == start,
                orbit[count as int] == z,
                forall|k: int|
                    0 <= k < count ==> call_ensures(self.inside, (#[trigger] orbit[k],), true)
                        && call_ensures(self.advance, (orbit[k],), orbit[k + 1]),
            ensures
                count < MAX_ITERATION ==> call_ensures(self.inside, (orbit[count as int],), false),
            decreases MAX_ITERATION - count,
        {
            let still_inside = (self.inside)(z);
            if !still_inside {
                break;
            }
            z = (self.advance)(z);
            proof {
                orbit = orbit.push(z);
            }
            count += 1;
        }
        proof {
            assert(self.runs(orbit, start, count as int));
        }
        count
    }

    /// The sample with index `index` of the pixel `(pixel_x, pixel_y)` may
    /// be given the count `n`: `place` may put the sample at a point from
    /// which the escape-time loop may return `n`.
    pub open spec fn sample_counts(
        &self,
        view: BaseFractal,
        pixel_x: u32,
        pixel_y: u32,
        index: u8,
        n: int,
    ) -> bool {
        exists|start: T|
            call_ensures(self.place, (sample_point_of(view, pixel_x, pixel_y, index),), start)
                && self.escapes_after(start, n)
    }

    /// `counts` holds one possible count for each sample of the pixel, in
    /// the order of the sample indices.
    pub open spec fn samples_count(
        &self,
        view: BaseFractal,
        pixel_x: u32,
        pixel_y: u32,
        counts: Seq<int>,
    ) -> bool {
        &&& counts.len() == SAMPLES_PER_PIXEL
        &&& forall|i: int|
            0 <= i < SAMPLES_PER_PIXEL ==> self.sample_counts(
                view,
                pixel_x,
                pixel_y,
                i as u8,
                #[trigger] counts[i],
            )
    }

    /// The pixel `(pixel_x, pixel_y)` may be given the value `value`: the
    /// mean, rounded towards zero, of one possible count for each of its
    /// samples.
    pub open spec fn pixel_holds(
        &self,
        view: BaseFractal,
        pixel_x: u32,
        pixel_y: u32,
        value: int,
    ) -> bool {
        exists|counts: Seq<int>|
            self.samples_count(view, pixel_x, pixel_y, counts) && value == sum_of(counts)
                / (SAMPLES_PER_PIXEL as int)
    }

    /// `row` holds a possible value for each of the `width` pixels of the
    /// raster row `pixel_y`.
    pub open spec fn row_holds(&self, view: BaseFractal, pixel_y: u32, width: int, row: Seq<u16>) -> bool {
        &&& row.len() == width
        &&& forall|x: int|
            0 <= x < width ==> self.pixel_holds(view, x as u32, pixel_y, #[trigger] row[x] as int)
    }

    /// `cells` holds, row by row, a possible value for each pixel of a raster
    /// of `width` by `height` pixels.
    pub open spec fn frame_holds(
        &self,
        view: BaseFractal,
        width: int,
        height: int,
        cells: Seq<Seq<u16>>,
    ) -> bool {
        &&& cells.len() == height
        &&& forall|y: int|
            0 <= y < height ==> self.row_holds(view, y as u32, width, #[trigger] cells[y])
    }

    /// Evaluates every sample of a pixel and returns the mean of the counts,
    /// rounded towards zero.
    pub fn pixel_value(&self, view: &BaseFractal, pixel_x: u32, pixel_y: u32) -> (value: u16)
        requires
            self.callable(),
        ensures
            self.pixel_holds(*view, pixel_x, pixel_y, value as int),
            value <= MAX_ITERATION,
    {
        let mut total: u32 = 0;
        let mut index: u8 = 0;
        let ghost mut counts: Seq<int> = Seq::empty();
        while index < SAMPLES_PER_PIXEL
            invariant
                self.callable(),
                index <= SAMPLES_PER_PIXEL,
                counts.len() == index,
                total == sum_of(counts),
                total <= index * MAX_ITERATION,
                forall|i: int|
                    0 <= i < index ==> self.sample_counts(
                        *view,
                        pixel_x,
                        pixel_y,
                        i as u8,
                        #[trigger] counts[i],
                    ),
            decreases SAMPLES_PER_PIXEL - index,
        {
            let point = sample_point(view, pixel_x, pixel_y, index);
            let start = (self.place)(point);
            let count = self.escape_count(start);
            proof {
                assert(counts.push(count as int).drop_last() =~= counts);
                counts = counts.push(count as int);
            }
            total = total + count as u32;
            index += 1;
        }
        proof {
            assert(self.samples_count(*view, pixel_x, pixel_y, counts));
            assert(total <= SAMPLES_PER_PIXEL * MAX_ITERATION);
        }
        let mean = total / SAMPLES_PER_PIXEL as u32;
        assert(mean <= MAX_ITERATION) by (nonlinear_arith)
            requires
                mean == total / (SAMPLES_PER_PIXEL as u32),
                total <= SAMPLES_PER_PIXEL * MAX_ITERATION,
                SAMPLES_PER_PIXEL > 0,
        ;
        mean as u16
    }

    /// Evaluates every pixel of the raster row `pixel_y` into `row`, whose
    /// length is the width of the raster.
    pub fn fill_row(&self, view: &BaseFractal, pixel_y: u32, row: &mut Vec<u16>)
        requires
            self.callable(),
            old(row).len() <= u32::MAX,
        ensures
            self.row_holds(*view, pixel_y, old(row).len() as int, final(row)@),
            forall|x: int| 0 <= x < final(row).len() ==> #[trigger] final(row)[x] <= MAX_ITERATION,
    {
        let width = row.len();
        let mut x: usize = 0;
        while x < width
            invariant
                self.callable(),
                width <= u32::MAX,
                row.len() == width,
                x <= width,
                forall|i: int|
                    0 <= i < x ==> self.pixel_holds(*view, i as u32, pixel_y, #[trigger] row[i] as int),
                forall|i: int| 0 <= i < x ==> #[trigger] row[i] <= MAX_ITERATION,
            decreases width - x,
        {
            let value = self.pixel_value(view, x as u32, pixel_y);
            row[x] = value;
            x += 1;
        }
    }
}

} // verus!
