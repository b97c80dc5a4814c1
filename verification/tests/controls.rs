use julia_set::controls::{Controls, KeyInput, OFFSET_STEP};
use julia_set::fractals::BaseFractal;

fn no_keys() -> KeyInput {
    KeyInput { up: false, down: false, left: false, right: false, toggle_zoom: false, toggle_move: false }
}

#[test]
fn controls_start_at_rest() {
    let controls = Controls::new();
    assert!(!controls.zooming);
    assert!(!controls.moving);
}

#[test]
fn no_keys_change_nothing_at_rest() {
    let mut controls = Controls::new();
    let mut state = BaseFractal::new();
    controls.handle(&no_keys(), &mut state);
    assert_eq!(controls, Controls::new());
    assert_eq!(state, BaseFractal::new());
}

#[test]
fn arrow_keys_shift_the_offset_by_ten_pixels() {
    assert_eq!(OFFSET_STEP, 10);
    let mut controls = Controls::new();
    let mut state = BaseFractal::new();

    controls.handle(&KeyInput { up: true, ..no_keys() }, &mut state);
    assert_eq!((state.offset_x, state.offset_y), (0, 10));

    controls.handle(&KeyInput { right: true, ..no_keys() }, &mut state);
    assert_eq!((state.offset_x, state.offset_y), (10, 10));

    controls.handle(&KeyInput { down: true, ..no_keys() }, &mut state);
    controls.handle(&KeyInput { down: true, ..no_keys() }, &mut state);
    assert_eq!((state.offset_x, state.offset_y), (10, -10));

    controls.handle(&KeyInput { left: true, ..no_keys() }, &mut state);
    controls.handle(&KeyInput { left: true, ..no_keys() }, &mut state);
    assert_eq!((state.offset_x, state.offset_y), (-10, -10));
}

#[test]
fn opposite_arrow_keys_cancel() {
    let mut controls = Controls::new();
    let mut state = BaseFractal::new();
    let keys = KeyInput { up: true, down: true, left: true, right: true, ..no_keys() };
    controls.handle(&keys, &mut state);
    assert_eq!((state.offset_x, state.offset_y), (0, 0));
}

#[test]
fn zoom_key_switches_zooming_on_and_off() {
    let mut controls = Controls::new();
    let mut state = BaseFractal::new();

    controls.handle(&KeyInput { toggle_zoom: true, ..no_keys() }, &mut state);
    assert!(controls.zooming);
    assert_eq!(state.zoom_steps, 1);

    controls.handle(&no_keys(), &mut state);
    controls.handle(&no_keys(), &mut state);
    assert_eq!(state.zoom_steps, 3);

    controls.handle(&KeyInput { toggle_zoom: true, ..no_keys() }, &mut state);
    assert!(!controls.zooming);
    assert_eq!(state.zoom_steps, 3);
    assert_eq!((state.cx, state.cy), (-800, 156));
}

#[test]
fn move_key_switches_panning_on_and_off() {
    let mut controls = Controls::new();
    let mut state = BaseFractal::new();

    controls.handle(&KeyInput { toggle_move: true, ..no_keys() }, &mut state);
    assert!(controls.moving);
    assert_eq!((state.cx, state.cy), (-790, 136));

    controls.handle(&no_keys(), &mut state);
    assert_eq!((state.cx, state.cy), (-780, 116));

    controls.handle(&KeyInput { toggle_move: true, ..no_keys() }, &mut state);
    assert!(!controls.moving);
    assert_eq!((state.cx, state.cy), (-780, 116));
    assert_eq!(state.zoom_steps, 0);
}

#[test]
fn all_keys_at_once() {
    let mut controls = Controls { zooming: true, moving: false };
    let mut state = BaseFractal::new();
    let keys = KeyInput { up: true, down: false, left: true, right: false, toggle_zoom: true, toggle_move: true };
    controls.handle(&keys, &mut state);
    assert_eq!(controls, Controls { zooming: false, moving: true });
    assert_eq!(
        state,
        BaseFractal { cx: -790, cy: 136, zoom_steps: 0, offset_x: -10, offset_y: 10 }
    );
}
