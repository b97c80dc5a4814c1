use julia_set::fractals::{BaseFractal, Command, Fractal};
use julia_set::grid::IterationGrid;
use julia_set::kernel::{Kernel, SamplePoint};
use julia_set::rayonfractal::RayonFractal;
use julia_set::threadfractal::{FrameError, ThreadFractal, WorkerFault};

const WIDTH: u32 = 1280;
const HEIGHT: u32 = 720;
const R: f64 = 2.0;

fn zoom_factor(steps: u32) -> f64 {
    let mut zoom = 2.0;
    for _ in 0..steps {
        zoom = zoom * 0.85;
    }
    zoom
}

/// The arithmetic of the Julia set in 64-bit floating point, for the view
/// `view` on a raster that is `width` pixels wide.
fn julia(
    view: &BaseFractal,
    width: u32,
) -> Kernel<
    impl Fn(SamplePoint) -> (f64, f64) + Sync,
    impl Fn((f64, f64)) -> bool + Sync,
    impl Fn((f64, f64)) -> (f64, f64) + Sync,
> {
    let zoom = zoom_factor(view.zoom_steps);
    let cx = view.cx as f64 / 1000.0;
    let cy = view.cy as f64 / 1000.0;
    let scale = width as f64 / (2.0 * zoom);
    Kernel {
        place: move |sample: SamplePoint| {
            (
                (sample.col as f64 + sample.sub_col as f64 / 2.0) / scale - zoom,
                (sample.row as f64 + sample.sub_row as f64 / 2.0) / scale - zoom / 2.0,
            )
        },
        inside: |z: (f64, f64)| z.0 * z.0 + z.1 * z.1 < R * R,
        advance: move |z: (f64, f64)| (z.0 * z.0 - z.1 * z.1 + cx, 2.0 * z.0 * z.1 + cy),
    }
}

fn cells(grid: &IterationGrid) -> Vec<Vec<u16>> {
    (0..grid.height())
        .map(|y| (0..grid.width()).map(|x| grid.get(x, y).unwrap()).collect())
        .collect()
}

#[test]
fn new_engine_is_in_the_start_state() {
    let fractal = RayonFractal::new(8, 6);
    assert_eq!(fractal.base, BaseFractal::new());
    assert_eq!((fractal.frame().width(), fractal.frame().height()), (8, 6));
    assert_eq!(cells(fractal.frame()), vec![vec![0u16; 8]; 6]);
    assert_eq!(fractal.colors().color(0), [0, 0, 0, 255]);

    let fractal = ThreadFractal::new(8, 6);
    assert_eq!(fractal.base, BaseFractal::new());
    assert_eq!((fractal.frame().width(), fractal.frame().height()), (8, 6));
    assert_eq!(cells(fractal.frame()), vec![vec![0u16; 8]; 6]);
    assert_eq!(fractal.colors().color(500), [255, 255, 255, 255]);
}

#[test]
fn centre_of_the_default_view_is_mid_range() {
    let mut fractal = RayonFractal::new(WIDTH, HEIGHT);
    let kernel = julia(&fractal.base, WIDTH);
    fractal.update_fractal(&kernel);
    let centre = fractal.frame().get(WIDTH / 2, HEIGHT / 2).unwrap();
    assert!(0 < centre && centre < 500);
    assert_eq!(centre, 74);
    assert_eq!(fractal.frame().get(0, 0), Some(0));
    assert_eq!(fractal.base, BaseFractal::new());
}

#[test]
fn small_frame_of_the_default_view() {
    let mut fractal = RayonFractal::new(32, 18);
    let kernel = julia(&fractal.base, 32);
    fractal.update_fractal(&kernel);
    let frame = cells(fractal.frame());
    assert_eq!(
        frame[0],
        vec![0, 0, 0, 1, 1, 1, 1, 1, 1, 1, 1, 2, 2, 2, 2, 2, 2, 2, 2, 2, 2, 2, 2, 2, 1, 1, 1, 1, 1, 1, 0, 0]
    );
    assert_eq!(
        frame[1],
        vec![0, 0, 1, 1, 1, 1, 1, 1, 2, 2, 2, 2, 2, 2, 3, 3, 73, 3, 3, 3, 2, 2, 2, 2, 2, 2, 1, 1, 1, 1, 0, 0]
    );
    assert_eq!(
        frame[9],
        vec![
            0, 1, 1, 2, 5, 75, 141, 97, 81, 122, 21, 151, 50, 20, 102, 209, 154, 283, 137, 11, 151, 72, 185,
            197, 34, 4, 4, 3, 2, 1, 1, 1
        ]
    );
    assert_eq!(frame[9][16], 154);
    for row in &frame {
        for &count in row {
            assert!(count <= 500);
        }
    }
}

#[test]
fn two_frames_of_one_view_are_equal() {
    let mut fractal = RayonFractal::new(96, 54);
    fractal.base.change_offset(-7, 3);
    fractal.base.zoom();
    let kernel = julia(&fractal.base, 96);
    fractal.update_fractal(&kernel);
    let first = cells(fractal.frame());
    fractal.update_fractal(&kernel);
    let second = cells(fractal.frame());
    assert_eq!(first, second);

    let mut other = RayonFractal::new(96, 54);
    other.base = fractal.base;
    other.update_fractal(&julia(&other.base, 96));
    assert_eq!(cells(other.frame()), first);
}

#[test]
fn every_division_of_the_work_gives_the_same_frame() {
    let mut view = BaseFractal::new();
    view.move_fractal();
    view.zoom();
    view.change_offset(4, -2);
    let kernel = julia(&view, 64);

    let mut sequential = IterationGrid::new(64, 36);
    sequential.compute_frame(&view, &kernel);

    let mut pooled = IterationGrid::new(64, 36);
    pooled.compute_frame_parallel(&view, &kernel);
    assert_eq!(cells(&pooled), cells(&sequential));

    // One worker for each row, in any order.
    let mut outcomes: Vec<Result<Vec<u16>, ()>> = (0..36).map(|_| Err(())).collect();
    for y in (0..36u32).rev() {
        outcomes[y as usize] = Ok(ThreadFractal::row_task(&view, 64, y, &kernel));
    }
    let mut by_rows = ThreadFractal::new(64, 36);
    assert_eq!(by_rows.finish_update(outcomes), Ok(()));
    assert_eq!(cells(by_rows.frame()), cells(&sequential));

    // One worker for each column.
    let mut by_columns = vec![vec![0u16; 64]; 36];
    for x in 0..64u32 {
        for y in 0..36u32 {
            by_columns[y as usize][x as usize] = kernel.pixel_value(&view, x, y);
        }
    }
    assert_eq!(by_columns, cells(&sequential));
}

#[test]
fn the_frame_follows_the_navigation() {
    let mut fractal = RayonFractal::new(32, 18);
    fractal.update_fractal(&julia(&fractal.base, 32));
    let before = cells(fractal.frame());

    fractal.base.change_offset(1, 0);
    fractal.update_fractal(&julia(&fractal.base, 32));
    let shifted = cells(fractal.frame());
    for y in 0..18 {
        for x in 0..31 {
            assert_eq!(shifted[y][x], before[y][x + 1]);
        }
    }

    fractal.base.change_offset(-1, 0);
    fractal.base.move_fractal();
    fractal.update_fractal(&julia(&fractal.base, 32));
    assert_ne!(cells(fractal.frame()), before);
}

#[test]
fn engine_draws_its_frame() {
    let mut fractal = RayonFractal::new(32, 18);
    fractal.update_fractal(&julia(&fractal.base, 32));
    let mut frame = vec![0u8; 32 * 18 * 4];
    fractal.draw(&mut frame);
    for y in 0..18u32 {
        for x in 0..32u32 {
            let index = ((y * 32 + x) * 4) as usize;
            let count = fractal.frame().get(x, y).unwrap();
            assert_eq!(&frame[index..index + 4], &fractal.colors().color(count)[..]);
        }
    }
    // The pixel (16, 1) holds the count 73.
    let index = (1 * 32 + 16) * 4;
    assert_eq!(&frame[index..index + 4], &fractal.colors().color(73)[..]);
    // The corner pixel holds the count 0, which is black.
    assert_eq!(&frame[0..4], &[0, 0, 0, 255]);
}

#[test]
fn new_engine_draws_a_black_frame() {
    let fractal = ThreadFractal::new(4, 2);
    let mut frame = vec![9u8; 4 * 2 * 4];
    fractal.draw(&mut frame);
    assert_eq!(frame, [0u8, 0, 0, 255].repeat(8));
}

#[test]
fn finished_rows_become_the_frame() {
    let mut fractal = ThreadFractal::new(3, 2);
    fractal.base.change_offset(2, 0);
    let kernel = Kernel {
        place: |sample: SamplePoint| 10 * sample.row + sample.col,
        inside: |z: i64| z > 0,
        advance: |z: i64| z - 1,
    };
    let outcomes =
        (0..2).map(|y| Ok(ThreadFractal::row_task(&fractal.base, 3, y, &kernel))).collect();
    assert_eq!(fractal.finish_update(outcomes), Ok(()));
    assert_eq!(cells(fractal.frame()), vec![vec![2, 3, 4], vec![12, 13, 14]]);
}

#[test]
fn a_worker_fault_gives_the_frame_up() {
    let mut fractal = ThreadFractal::new(3, 3);
    assert_eq!(
        fractal.finish_update(vec![Ok(vec![1, 1, 1]), Ok(vec![2, 2, 2]), Ok(vec![3, 3, 3])]),
        Ok(())
    );
    let outcomes = vec![Ok(vec![9, 9, 9]), Err(()), Err(())];
    assert_eq!(fractal.finish_update(outcomes), Err(FrameError::Fault(WorkerFault { row: 1 })));
    assert_eq!(cells(fractal.frame()), vec![vec![1, 1, 1], vec![2, 2, 2], vec![3, 3, 3]]);
}

#[test]
fn rows_that_do_not_fit_give_the_frame_up() {
    let mut fractal = ThreadFractal::new(3, 2);
    assert_eq!(fractal.finish_update(vec![Ok(vec![1, 1, 1])]), Err(FrameError::Malformed));
    assert_eq!(
        fractal.finish_update(vec![Ok(vec![1, 1, 1]), Ok(vec![1, 1])]),
        Err(FrameError::Malformed)
    );
    assert_eq!(
        fractal.finish_update(vec![Ok(vec![1, 1, 1]), Ok(vec![1, 1, 501])]),
        Err(FrameError::Malformed)
    );
    assert_eq!(cells(fractal.frame()), vec![vec![0, 0, 0], vec![0, 0, 0]]);
}

#[test]
fn engine_takes_navigation_commands() {
    let mut fractal = RayonFractal::new(8, 4);
    fractal.update_fractal(&julia(&fractal.base, 8));
    let before = cells(fractal.frame());
    fractal.navigate(Command::PanStep);
    fractal.navigate(Command::ZoomIn);
    fractal.navigate(Command::OffsetBy(10, -10));
    assert_eq!(
        fractal.view_state(),
        BaseFractal { cx: -790, cy: 136, zoom_steps: 1, offset_x: 10, offset_y: -10 }
    );
    assert_eq!(fractal.base, fractal.view_state());
    assert_eq!(cells(fractal.frame()), before);

    let mut fractal = ThreadFractal::new(8, 4);
    fractal.navigate(Command::OffsetBy(-3, 5));
    fractal.navigate(Command::PanStep);
    assert_eq!(
        fractal.view_state(),
        BaseFractal { cx: -790, cy: 136, zoom_steps: 0, offset_x: -3, offset_y: 5 }
    );
    assert_eq!(cells(fractal.frame()), vec![vec![0u16; 8]; 4]);
}
