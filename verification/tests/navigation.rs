use julia_set::fractals::{BaseFractal, Command};

fn zoom_factor(steps: u32) -> f64 {
    let mut zoom = 2.0;
    for _ in 0..steps {
        zoom = zoom * 0.85;
    }
    zoom
}

#[test]
fn start_state_is_the_canonical_view() {
    let state = BaseFractal::new();
    assert_eq!(state.cx, -800);
    assert_eq!(state.cy, 156);
    assert_eq!(state.zoom_steps, 0);
    assert_eq!(state.offset_x, 0);
    assert_eq!(state.offset_y, 0);
    assert_eq!(state.cx as f64 / 1000.0, -0.8);
    assert_eq!(state.cy as f64 / 1000.0, 0.156);
    assert_eq!(zoom_factor(state.zoom_steps), 2.0);
}

#[test]
fn one_zoom_step_from_two_gives_one_point_seven() {
    let mut state = BaseFractal::new();
    state.zoom();
    assert_eq!(state.zoom_steps, 1);
    assert!((zoom_factor(state.zoom_steps) - 1.7).abs() < 1e-12);
    assert_eq!(state.cx, -800);
    assert_eq!(state.cy, 156);
    assert_eq!(state.offset_x, 0);
    assert_eq!(state.offset_y, 0);
}

#[test]
fn zoom_steps_add_up() {
    let mut state = BaseFractal::new();
    for _ in 0..25 {
        state.zoom();
    }
    assert_eq!(state.zoom_steps, 25);
    assert!(zoom_factor(25) > 0.0);
    assert!(zoom_factor(25) < zoom_factor(24));
}

#[test]
fn zoom_counter_stops_at_its_largest_value() {
    let mut state = BaseFractal::new();
    state.zoom_steps = u32::MAX - 1;
    state.zoom();
    assert_eq!(state.zoom_steps, u32::MAX);
    state.zoom();
    assert_eq!(state.zoom_steps, u32::MAX);
}

#[test]
fn pan_step_moves_the_centre() {
    let mut state = BaseFractal::new();
    state.move_fractal();
    assert_eq!(state.cx, -790);
    assert_eq!(state.cy, 136);
    assert_eq!(state.zoom_steps, 0);
    assert_eq!(state.offset_x, 0);
    assert_eq!(state.offset_y, 0);
}

#[test]
fn pan_step_at_one_wraps_to_just_inside_minus_one() {
    let mut state = BaseFractal::new();
    state.cx = 1000;
    state.move_fractal();
    assert_eq!(state.cx, -999);
    assert_eq!(state.cx as f64 / 1000.0, -0.999);
}

#[test]
fn pan_step_reaches_one_without_wrapping() {
    let mut state = BaseFractal::new();
    state.cx = 990;
    state.cy = -980;
    state.move_fractal();
    assert_eq!(state.cx, 1000);
    assert_eq!(state.cy, -1000);
}

#[test]
fn pan_step_wraps_each_axis_on_its_own() {
    let mut state = BaseFractal::new();
    state.cx = 991;
    state.cy = 0;
    state.move_fractal();
    assert_eq!((state.cx, state.cy), (-999, -20));

    state.cx = 0;
    state.cy = -981;
    state.move_fractal();
    assert_eq!((state.cx, state.cy), (10, 998));

    state.cx = -1011;
    state.cy = 1021;
    state.move_fractal();
    assert_eq!((state.cx, state.cy), (999, -998));
}

#[test]
fn pan_step_brings_any_centre_back_into_range() {
    for start in [i32::MIN, -5000, -1010, -1000, 0, 1000, 1020, 5000, i32::MAX] {
        let mut state = BaseFractal::new();
        state.cx = start;
        state.cy = start;
        state.move_fractal();
        assert!(-1000 <= state.cx && state.cx <= 1000);
        assert!(-1000 <= state.cy && state.cy <= 1000);
    }
}

#[test]
fn pan_cycle_from_the_start_state() {
    let mut state = BaseFractal::new();
    for _ in 0..180 {
        state.move_fractal();
    }
    assert_eq!(state.cx, 1000);
    state.move_fractal();
    assert_eq!(state.cx, -999);
    state.move_fractal();
    assert_eq!(state.cx, -989);
}

#[test]
fn offset_accumulates() {
    let mut state = BaseFractal::new();
    state.change_offset(10, 0);
    state.change_offset(10, -10);
    state.change_offset(-35, 4);
    assert_eq!(state.offset_x, -15);
    assert_eq!(state.offset_y, -6);
    assert_eq!(state.cx, -800);
    assert_eq!(state.cy, 156);
    assert_eq!(state.zoom_steps, 0);
}

#[test]
fn offset_wraps_in_twos_complement() {
    let mut state = BaseFractal::new();
    state.offset_x = i32::MAX;
    state.offset_y = i32::MIN;
    state.change_offset(1, -1);
    assert_eq!(state.offset_x, i32::MIN);
    assert_eq!(state.offset_y, i32::MAX);
    state.change_offset(i32::MIN, i32::MAX);
    assert_eq!(state.offset_x, 0);
    assert_eq!(state.offset_y, -2);
}

#[test]
fn commands_do_what_the_methods_do() {
    let mut by_command = BaseFractal::new();
    let mut by_method = BaseFractal::new();

    by_command.navigate(Command::PanStep);
    by_method.move_fractal();
    assert_eq!(by_command, by_method);

    by_command.navigate(Command::ZoomIn);
    by_method.zoom();
    assert_eq!(by_command, by_method);

    by_command.navigate(Command::OffsetBy(-7, 12));
    by_method.change_offset(-7, 12);
    assert_eq!(by_command, by_method);

    assert_eq!(
        by_command,
        BaseFractal { cx: -790, cy: 136, zoom_steps: 1, offset_x: -7, offset_y: 12 }
    );
}
