//! What the keys of the host do to the navigation state.

use vstd::prelude::*;
use crate::fractals::BaseFractal;

verus! {

/// The number of pixels that one press of an arrow key moves the view by.
pub const OFFSET_STEP: i32 = 10;

/// The keys that were pressed since the last frame.
#[derive(Clone, Copy, Debug, PartialEq, Eq, Structural)]
pub struct KeyInput {
    pub up: bool,
    pub down: bool,
    pub left: bool,
    pub right: bool,
    pub toggle_zoom: bool,
    pub toggle_move: bool,
}

/// Whether the view keeps zooming, and whether the centre keeps panning,
/// from frame to frame.
#[derive(Clone, Copy, Debug, PartialEq, Eq, Structural)]
pub struct Controls {
    pub zooming: bool,
    pub moving: bool,
}

impl Controls {
    /// The controls at start-up: the view is at rest.
    pub open spec fn new_spec() -> Controls {
        Controls { zooming: false, moving: false }
    }

    /// The controls at start-up.
    #[verifier::when_used_as_spec(new_spec)]
    pub fn new() -> (controls: Self)
        ensures
            controls == Self::new_spec(),
    {
        Controls { zooming: false, moving: false }
    }

    /// The controls after the keys: each toggle key flips its switch.
    pub open spec fn toggled(self, keys: KeyInput) -> Controls {
        Controls {
            zooming: self.zooming != keys.toggle_zoom,
            moving: self.moving != keys.toggle_move,
        }
    }

    /// The navigation state after the keys, under the controls as they are
    /// once the keys have been taken in. Each arrow key that was pressed
    /// shifts the offset by one step, in the order up, down, left, right.
    /// Then comes a zoom step if the view is zooming, and then a pan step if
    /// the centre is panning.
    pub open spec fn steered(self, keys: KeyInput, state: BaseFractal) -> BaseFractal {
        let s1 = if keys.up {
            state.shifted(0, OFFSET_STEP)
        } else {
            state
        };
        let s2 = if keys.down {
            s1.shifted(0, (-OFFSET_STEP) as i32)
        } else {
            s1
        };
        let s3 = if keys.left {
            s2.shifted((-OFFSET_STEP) as i32, 0)
        } else {
            s2
        };
        let s4 = if keys.right {
            s3.shifted(OFFSET_STEP, 0)
        } else {
            s3
        };
        let s5 = if self.zooming {
            s4.zoomed()
        } else {
            s4
        };
        if self.moving {
            s5.moved()
        } else {
            s5
        }
    }

    /// Takes in the keys of one frame: flips the switches and changes the
    /// navigation state.
    pub fn handle(&mut self, keys: &KeyInput, state: &mut BaseFractal)
        ensures
            *final(self) == old(self).toggled(*keys),
            *final(state) == old(self).toggled(*keys).steered(*keys, *old(state)),
    {
        if keys.up {
            state.change_offset(0, OFFSET_STEP);
        }
        if keys.down {
            state.change_offset(0, -OFFSET_STEP);
        }
        if keys.left {
            state.change_offset(-OFFSET_STEP, 0);
        }
        if keys.right {
            state.change_offset(OFFSET_STEP, 0);
        }
        if keys.toggle_zoom {
            self.zooming = !self.zooming;
        }
        if keys.toggle_move {
            self.moving = !self.moving;
        }
        if self.zooming {
            state.zoom();
        }
        if self.moving {
            state.move_fractal();
        }
    }
}

} // verus!
