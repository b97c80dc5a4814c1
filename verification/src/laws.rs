//! What holds of every frame, whatever the kernel: the bounds of the counts,
//! and, for a kernel whose closures are functions of their arguments, that a
//! frame is determined by the view alone, however the work was divided.

use vstd::prelude::*;
use vstd::arithmetic::div_mod::lemma_fundamental_div_mod_converse;
use crate::fractals::BaseFractal;
use crate::grid::{has_shape, painted, whole_pixels, within_budget};
use crate::palette::CHANNELS;
use crate::kernel::{sample_point_of, sum_of, Kernel, SamplePoint};
use crate::{MAX_ITERATION, SAMPLES_PER_PIXEL};

verus! {

impl<T: Copy, P: Fn(SamplePoint) -> T, I: Fn(T) -> bool, A: Fn(T) -> T> Kernel<P, I, A> {
    /// Each closure of the kernel has at most one result for each argument.
    pub open spec fn deterministic(&self) -> bool {
        &&& forall|s: SamplePoint, a: T, b: T|
            call_ensures(self.place, (s,), a) && call_ensures(self.place, (s,), b) ==> a == b
        &&& forall|z: T, a: bool, b: bool|
            call_ensures(self.inside, (z,), a) && call_ensures(self.inside, (z,), b) ==> a == b
        &&& forall|z: T, a: T, b: T|
            call_ensures(self.advance, (z,), a) && call_ensures(self.advance, (z,), b) ==> a == b
    }

    /// The closures of the kernel compute the functions `place`, `inside`
    /// and `advance`: whatever a closure returns is the value of its
    /// function.
    pub open spec fn computes(
        &self,
        place: spec_fn(SamplePoint) -> T,
        inside: spec_fn(T) -> bool,
        advance: spec_fn(T) -> T,
    ) -> bool {
        &&& forall|s: SamplePoint, z: T| call_ensures(self.place, (s,), z) ==> z == place(s)
        &&& forall|z: T, b: bool| call_ensures(self.inside, (z,), b) ==> b == inside(z)
        &&& forall|z: T, w: T| call_ensures(self.advance, (z,), w) ==> w == advance(z)
    }

    /// The worker `worker` has given a possible value to every pixel that
    /// `owner` assigns to it.
    pub open spec fn worker_done(
        &self,
        view: BaseFractal,
        width: int,
        height: int,
        owner: spec_fn(int, int) -> int,
        worker: int,
        cells: Seq<Seq<u16>>,
    ) -> bool {
        forall|x: int, y: int|
            0 <= x < width && 0 <= y < height && owner(x, y) == worker ==> self.pixel_holds(
                view,
                x as u32,
                y as u32,
                #[trigger] cells[y][x] as int,
            )
    }
}

/// The escape time of `start` under the functions `inside` and `advance`,
/// with `budget` steps left: the number of steps of `advance` before the
/// first point that is not inside, or `budget` if there is none before.
pub open spec fn escape_steps<T>(
    inside: spec_fn(T) -> bool,
    advance: spec_fn(T) -> T,
    start: T,
    budget: nat,
) -> nat
    decreases budget,
{
    if budget == 0 || !inside(start) {
        0
    } else {
        1 + escape_steps(inside, advance, advance(start), (budget - 1) as nat)
    }
}

/// The escape times of the samples of a pixel, in the order of the sample
/// indices.
pub open spec fn sample_steps<T>(
    place: spec_fn(SamplePoint) -> T,
    inside: spec_fn(T) -> bool,
    advance: spec_fn(T) -> T,
    view: BaseFractal,
    pixel_x: u32,
    pixel_y: u32,
) -> Seq<int> {
    Seq::new(
        SAMPLES_PER_PIXEL as nat,
        |i: int|
            escape_steps(
                inside,
                advance,
                place(sample_point_of(view, pixel_x, pixel_y, i as u8)),
                MAX_ITERATION as nat,
            ) as int,
    )
}

/// The value of a pixel under the functions `place`, `inside` and
/// `advance`: the mean of the escape times of its samples, rounded towards
/// zero.
pub open spec fn pixel_mean<T>(
    place: spec_fn(SamplePoint) -> T,
    inside: spec_fn(T) -> bool,
    advance: spec_fn(T) -> T,
    view: BaseFractal,
    pixel_x: u32,
    pixel_y: u32,
) -> int {
    sum_of(sample_steps(place, inside, advance, view, pixel_x, pixel_y)) / (SAMPLES_PER_PIXEL as int)
}

/// Within a run of the escape-time loop of a kernel that computes
/// `inside` and `advance`, the escape time of the point with index `k`, with
/// the budget that is left there, is the number of points that follow it.
proof fn lemma_run_counts_down<T: Copy, P: Fn(SamplePoint) -> T, I: Fn(T) -> bool, A: Fn(T) -> T>(
    kernel: Kernel<P, I, A>,
    place: spec_fn(SamplePoint) -> T,
    inside: spec_fn(T) -> bool,
    advance: spec_fn(T) -> T,
    orbit: Seq<T>,
    start: T,
    n: int,
    k: int,
)
    requires
        kernel.computes(place, inside, advance),
        kernel.runs(orbit, start, n),
        0 <= k <= n,
    ensures
        escape_steps(inside, advance, orbit[k], (MAX_ITERATION - k) as nat) == n - k,
    decreases n - k,
{
    if k < n {
        lemma_run_counts_down(kernel, place, inside, advance, orbit, start, n, k + 1);
        assert(call_ensures(kernel.inside, (orbit[k],), true));
        assert(call_ensures(kernel.advance, (orbit[k],), orbit[k + 1]));
    } else if n < MAX_ITERATION {
        assert(call_ensures(kernel.inside, (orbit[n],), false));
    }
}

/// For a kernel that computes `inside` and `advance`, the count that the
/// escape-time loop returns is the escape time of the starting point.
pub proof fn lemma_count_is_escape_time<
    T: Copy,
    P: Fn(SamplePoint) -> T,
    I: Fn(T) -> bool,
    A: Fn(T) -> T,
>(
    kernel: Kernel<P, I, A>,
    place: spec_fn(SamplePoint) -> T,
    inside: spec_fn(T) -> bool,
    advance: spec_fn(T) -> T,
    start: T,
    n: int,
)
    requires
        kernel.computes(place, inside, advance),
        kernel.escapes_after(start, n),
    ensures
        n == escape_steps(inside, advance, start, MAX_ITERATION as nat),
{
    let orbit = choose|orbit: Seq<T>| kernel.runs(orbit, start, n);
    lemma_run_counts_down(kernel, place, inside, advance, orbit, start, n, 0);
}

/// For a kernel that computes `place`, `inside` and `advance`, the value of
/// a pixel is the mean of the escape times of its samples.
pub proof fn lemma_pixel_is_mean<T: Copy, P: Fn(SamplePoint) -> T, I: Fn(T) -> bool, A: Fn(T) -> T>(
    kernel: Kernel<P, I, A>,
    place: spec_fn(SamplePoint) -> T,
    inside: spec_fn(T) -> bool,
    advance: spec_fn(T) -> T,
    view: BaseFractal,
    pixel_x: u32,
    pixel_y: u32,
    value: int,
)
    requires
        kernel.computes(place, inside, advance),
        kernel.pixel_holds(view, pixel_x, pixel_y, value),
    ensures
        value == pixel_mean(place, inside, advance, view, pixel_x, pixel_y),
{
    let counts = choose|counts: Seq<int>|
        kernel.samples_count(view, pixel_x, pixel_y, counts) && value == sum_of(counts) / (
        SAMPLES_PER_PIXEL as int);
    let steps = sample_steps(place, inside, advance, view, pixel_x, pixel_y);
    assert forall|i: int| 0 <= i < SAMPLES_PER_PIXEL implies counts[i] == steps[i] by {
        let point = sample_point_of(view, pixel_x, pixel_y, i as u8);
        assert(kernel.sample_counts(view, pixel_x, pixel_y, i as u8, counts[i]));
        let start = choose|start: T|
            call_ensures(kernel.place, (point,), start) && kernel.escapes_after(start, counts[i]);
        lemma_count_is_escape_time(kernel, place, inside, advance, start, counts[i]);
    }
    assert(counts =~= steps);
}

/// For a kernel that computes `place`, `inside` and `advance`, a frame is a
/// function of the view: each of its pixels holds the mean of the escape
/// times of its samples.
pub proof fn lemma_frame_is_function<
    T: Copy,
    P: Fn(SamplePoint) -> T,
    I: Fn(T) -> bool,
    A: Fn(T) -> T,
>(
    kernel: Kernel<P, I, A>,
    place: spec_fn(SamplePoint) -> T,
    inside: spec_fn(T) -> bool,
    advance: spec_fn(T) -> T,
    view: BaseFractal,
    width: int,
    height: int,
    cells: Seq<Seq<u16>>,
)
    requires
        kernel.computes(place, inside, advance),
        kernel.frame_holds(view, width, height, cells),
    ensures
        forall|x: int, y: int|
            0 <= x < width && 0 <= y < height ==> (#[trigger] cells[y][x]) == pixel_mean(
                place,
                inside,
                advance,
                view,
                x as u32,
                y as u32,
            ),
{
    assert forall|x: int, y: int| 0 <= x < width && 0 <= y < height implies (
    #[trigger] cells[y][x]) == pixel_mean(place, inside, advance, view, x as u32, y as u32) by {
        assert(kernel.row_holds(view, y as u32, width, cells[y]));
        lemma_pixel_is_mean(
            kernel,
            place,
            inside,
            advance,
            view,
            x as u32,
            y as u32,
            cells[y][x] as int,
        );
    }
}

/// A sample whose starting point cannot be reported as inside the escape
/// radius gets the count 0.
pub proof fn lemma_immediate_escape<T: Copy, P: Fn(SamplePoint) -> T, I: Fn(T) -> bool, A: Fn(T) -> T>(
    kernel: Kernel<P, I, A>,
    start: T,
    n: int,
)
    requires
        kernel.escapes_after(start, n),
        !call_ensures(kernel.inside, (start,), true),
    ensures
        n == 0,
{
    let orbit = choose|orbit: Seq<T>| kernel.runs(orbit, start, n);
    if n > 0 {
        assert(call_ensures(kernel.inside, (orbit[0],), true));
    }
}

/// The sum of counts that all lie within the iteration budget lies between
/// zero and the budget times their number.
pub proof fn lemma_sum_bounds(counts: Seq<int>)
    requires
        forall|i: int| 0 <= i < counts.len() ==> 0 <= #[trigger] counts[i] <= MAX_ITERATION,
    ensures
        0 <= sum_of(counts) <= counts.len() * MAX_ITERATION,
    decreases counts.len(),
{
    if counts.len() > 0 {
        lemma_sum_bounds(counts.drop_last());
        assert((counts.len() - 1) * MAX_ITERATION + MAX_ITERATION == counts.len() * MAX_ITERATION)
            by (nonlinear_arith);
    }
}

/// Every possible value of a pixel lies within the iteration budget.
pub proof fn lemma_pixel_within_budget<
    T: Copy,
    P: Fn(SamplePoint) -> T,
    I: Fn(T) -> bool,
    A: Fn(T) -> T,
>(kernel: Kernel<P, I, A>, view: BaseFractal, pixel_x: u32, pixel_y: u32, value: int)
    requires
        kernel.pixel_holds(view, pixel_x, pixel_y, value),
    ensures
        0 <= value <= MAX_ITERATION,
{
    let counts = choose|counts: Seq<int>|
        kernel.samples_count(view, pixel_x, pixel_y, counts) && value == sum_of(counts) / (
        SAMPLES_PER_PIXEL as int);
    assert forall|i: int| 0 <= i < counts.len() implies 0 <= #[trigger] counts[i]
        <= MAX_ITERATION by {
        assert(kernel.sample_counts(view, pixel_x, pixel_y, i as u8, counts[i]));
    }
    lemma_sum_bounds(counts);
    let total = sum_of(counts);
    assert(0 <= total / (SAMPLES_PER_PIXEL as int) <= MAX_ITERATION) by (nonlinear_arith)
        requires
            0 <= total <= SAMPLES_PER_PIXEL * MAX_ITERATION,
            SAMPLES_PER_PIXEL > 0,
    ;
}

/// Two runs of the escape-time loop of a deterministic kernel from one
/// starting point pass through the same points.
proof fn lemma_orbits_agree<T: Copy, P: Fn(SamplePoint) -> T, I: Fn(T) -> bool, A: Fn(T) -> T>(
    kernel: Kernel<P, I, A>,
    start: T,
    first: Seq<T>,
    n1: int,
    second: Seq<T>,
    n2: int,
    k: int,
)
    requires
        kernel.deterministic(),
        kernel.runs(first, start, n1),
        kernel.runs(second, start, n2),
        0 <= k <= n1,
        k <= n2,
    ensures
        first[k] == second[k],
    decreases k,
{
    if k > 0 {
        lemma_orbits_agree(kernel, start, first, n1, second, n2, k - 1);
        assert(call_ensures(kernel.advance, (first[k - 1],), first[k - 1 + 1]));
        assert(call_ensures(kernel.advance, (second[k - 1],), second[k - 1 + 1]));
    }
}

/// With a deterministic kernel the escape-time loop has one result for each
/// starting point.
pub proof fn lemma_count_unique<T: Copy, P: Fn(SamplePoint) -> T, I: Fn(T) -> bool, A: Fn(T) -> T>(
    kernel: Kernel<P, I, A>,
    start: T,
    n1: int,
    n2: int,
)
    requires
        kernel.deterministic(),
        kernel.escapes_after(start, n1),
        kernel.escapes_after(start, n2),
    ensures
        n1 == n2,
{
    let first = choose|orbit: Seq<T>| kernel.runs(orbit, start, n1);
    let second = choose|orbit: Seq<T>| kernel.runs(orbit, start, n2);
    if n1 < n2 {
        lemma_orbits_agree(kernel, start, first, n1, second, n2, n1);
        assert(call_ensures(kernel.inside, (second[n1],), true));
        assert(call_ensures(kernel.inside, (first[n1],), false));
    } else if n2 < n1 {
        lemma_orbits_agree(kernel, start, first, n1, second, n2, n2);
        assert(call_ensures(kernel.inside, (first[n2],), true));
        assert(call_ensures(kernel.inside, (second[n2],), false));
    }
}

/// With a deterministic kernel a pixel has one value under a given view.
pub proof fn lemma_pixel_unique<T: Copy, P: Fn(SamplePoint) -> T, I: Fn(T) -> bool, A: Fn(T) -> T>(
    kernel: Kernel<P, I, A>,
    view: BaseFractal,
    pixel_x: u32,
    pixel_y: u32,
    v1: int,
    v2: int,
)
    requires
        kernel.deterministic(),
        kernel.pixel_holds(view, pixel_x, pixel_y, v1),
        kernel.pixel_holds(view, pixel_x, pixel_y, v2),
    ensures
        v1 == v2,
{
    let c1 = choose|counts: Seq<int>|
        kernel.samples_count(view, pixel_x, pixel_y, counts) && v1 == sum_of(counts) / (
        SAMPLES_PER_PIXEL as int);
    let c2 = choose|counts: Seq<int>|
        kernel.samples_count(view, pixel_x, pixel_y, counts) && v2 == sum_of(counts) / (
        SAMPLES_PER_PIXEL as int);
    assert forall|i: int| 0 <= i < SAMPLES_PER_PIXEL implies c1[i] == c2[i] by {
        let point = sample_point_of(view, pixel_x, pixel_y, i as u8);
        assert(kernel.sample_counts(view, pixel_x, pixel_y, i as u8, c1[i]));
        assert(kernel.sample_counts(view, pixel_x, pixel_y, i as u8, c2[i]));
        let s1 = choose|start: T|
            call_ensures(kernel.place, (point,), start) && kernel.escapes_after(start, c1[i]);
        let s2 = choose|start: T|
            call_ensures(kernel.place, (point,), start) && kernel.escapes_after(start, c2[i]);
        lemma_count_unique(kernel, s1, c1[i], c2[i]);
    }
    assert(c1 =~= c2);
}

/// Determinism: with a deterministic kernel, two frames computed for one
/// view of one raster are equal.
pub proof fn lemma_frame_deterministic<
    T: Copy,
    P: Fn(SamplePoint) -> T,
    I: Fn(T) -> bool,
    A: Fn(T) -> T,
>(
    kernel: Kernel<P, I, A>,
    view: BaseFractal,
    width: int,
    height: int,
    first: Seq<Seq<u16>>,
    second: Seq<Seq<u16>>,
)
    requires
        kernel.deterministic(),
        kernel.frame_holds(view, width, height, first),
        kernel.frame_holds(view, width, height, second),
    ensures
        first == second,
{
    assert forall|y: int| 0 <= y < height implies first[y] == second[y] by {
        assert(kernel.row_holds(view, y as u32, width, first[y]));
        assert(kernel.row_holds(view, y as u32, width, second[y]));
        assert forall|x: int| 0 <= x < width implies first[y][x] == second[y][x] by {
            lemma_pixel_unique(
                kernel,
                view,
                x as u32,
                y as u32,
                first[y][x] as int,
                second[y][x] as int,
            );
        }
        assert(first[y] =~= second[y]);
    }
    assert(first =~= second);
}

/// Partition independence: let `owner` assign each pixel of the raster to
/// one of `workers` workers, in any way. If every worker has given a
/// possible value to each of its pixels, the grid is a frame. With a
/// deterministic kernel it is then equal to every frame computed for the
/// same view, so to the one that a single worker computes row after row.
pub proof fn lemma_partition_independent<
    T: Copy,
    P: Fn(SamplePoint) -> T,
    I: Fn(T) -> bool,
    A: Fn(T) -> T,
>(
    kernel: Kernel<P, I, A>,
    view: BaseFractal,
    width: int,
    height: int,
    owner: spec_fn(int, int) -> int,
    workers: int,
    divided: Seq<Seq<u16>>,
    sequential: Seq<Seq<u16>>,
)
    requires
        has_shape(divided, width, height),
        forall|x: int, y: int|
            0 <= x < width && 0 <= y < height ==> 0 <= #[trigger] owner(x, y) < workers,
        forall|w: int|
            0 <= w < workers ==> #[trigger] kernel.worker_done(view, width, height, owner, w, divided),
        kernel.frame_holds(view, width, height, sequential),
    ensures
        kernel.frame_holds(view, width, height, divided),
        kernel.deterministic() ==> divided == sequential,
{
    assert forall|y: int| 0 <= y < height implies kernel.row_holds(
        view,
        y as u32,
        width,
        #[trigger] divided[y],
    ) by {
        assert forall|x: int| 0 <= x < width implies kernel.pixel_holds(
            view,
            x as u32,
            y as u32,
            #[trigger] divided[y][x] as int,
        ) by {
            let w = owner(x, y);
            assert(kernel.worker_done(view, width, height, owner, w, divided));
        }
    }
    if kernel.deterministic() {
        lemma_frame_deterministic(kernel, view, width, height, divided, sequential);
    }
}

/// A frame has the shape of its raster, and no count in it exceeds the
/// iteration budget: rows that the workers computed are never turned down
/// as malformed.
pub proof fn lemma_frame_fits<T: Copy, P: Fn(SamplePoint) -> T, I: Fn(T) -> bool, A: Fn(T) -> T>(
    kernel: Kernel<P, I, A>,
    view: BaseFractal,
    width: int,
    height: int,
    cells: Seq<Seq<u16>>,
)
    requires
        kernel.frame_holds(view, width, height, cells),
    ensures
        has_shape(cells, width, height),
        within_budget(cells),
{
    assert forall|y: int| 0 <= y < height implies (#[trigger] cells[y]).len() == width by {
        assert(kernel.row_holds(view, y as u32, width, cells[y]));
    }
    assert forall|y: int, x: int| 0 <= y < cells.len() && 0 <= x < cells[y].len() implies (
    #[trigger] cells[y][x]) <= MAX_ITERATION by {
        assert(kernel.row_holds(view, y as u32, width, cells[y]));
        lemma_pixel_within_budget(kernel, view, x as u32, y as u32, cells[y][x] as int);
    }
}

/// The layout of a painted frame: the colour of the pixel in column `x` of
/// row `y` stands in the four bytes from `(y * width + x) * 4` on, in the
/// order of its channels.
pub proof fn lemma_painted_pixel(
    cells: Seq<Seq<u16>>,
    width: int,
    colors: Seq<Seq<u8>>,
    before: Seq<u8>,
    after: Seq<u8>,
    x: int,
    y: int,
    channel: int,
)
    requires
        painted(cells, width, colors, before, after),
        0 <= x < width,
        0 <= y,
        0 <= channel < CHANNELS,
        y * width + x < whole_pixels(before.len() as int),
    ensures
        0 <= (y * width + x) * CHANNELS + channel < after.len(),
        after[(y * width + x) * CHANNELS + channel] == colors[cells[y][x] as int][channel],
{
    let pixel = y * width + x;
    let j = pixel * CHANNELS + channel;
    assert(0 <= pixel) by (nonlinear_arith)
        requires
            pixel == y * width + x,
            0 <= x < width,
            0 <= y,
    ;
    lemma_fundamental_div_mod_converse(pixel, width, y, x);
    lemma_fundamental_div_mod_converse(j, CHANNELS as int, pixel, channel);
    assert(whole_pixels(j) == pixel);
    assert(0 <= j < before.len());
}

} // verus!
