//! The colours that stand for the iteration counts.

use vstd::prelude::*;
use crate::MAX_ITERATION;

verus! {

/// The number of bytes of one pixel: red, green, blue and alpha.
pub const CHANNELS: usize = 4;

/// The value of the alpha channel of an opaque pixel.
pub const OPAQUE: u8 = 255;

/// Samples colorgrad's default cubehelix gradient at `n` evenly spaced
/// positions: `colorgrad::cubehelix_default()` builds the gradient,
/// `Gradient::colors` samples it, and `Color::to_rgba8` turns each colour
/// into its four bytes.
///
/// The contract claims that there are `n` colours, and that each is opaque:
/// the gradient gives every colour the alpha 1, which `to_rgba8` turns into
/// 255. Nothing is claimed of the other three channels.
#[verifier::external_body]
fn cubehelix_ramp(n: usize) -> (ramp: Vec<[u8; 4]>)
    ensures
        ramp@.len() == n,
        forall|i: int| 0 <= i < n ==> (#[trigger] ramp@[i])@[3] == OPAQUE,
{
    colorgrad::cubehelix_default().colors(n).iter().map(|color| color.to_rgba8()).collect()
}

/// One opaque colour for each iteration count from 0 to the budget.
pub struct Palette {
    colors: Vec<[u8; 4]>,
}

impl View for Palette {
    type V = Seq<Seq<u8>>;

    /// The colours in the order of the counts, each as its four bytes.
    closed spec fn view(&self) -> Seq<Seq<u8>> {
        Seq::new(self.colors@.len(), |i: int| self.colors@[i]@)
    }
}

impl Palette {
    /// There is a colour of four bytes for each count, and each is opaque.
    /// This holds of every palette.
    #[verifier::type_invariant]
    pub open spec fn wf(&self) -> bool {
        &&& self@.len() == MAX_ITERATION + 1
        &&& forall|i: int|
            0 <= i <= MAX_ITERATION ==> (#[trigger] self@[i]).len() == CHANNELS && self@[i][3]
                == OPAQUE
    }

    /// The cubehelix palette: the count `n` gets the colour of the gradient
    /// at the position `n / MAX_ITERATION`.
    pub fn cubehelix() -> (palette: Self)
        ensures
            palette.wf(),
    {
        let colors = cubehelix_ramp(MAX_ITERATION as usize + 1);
        proof {
            let shown = Seq::new(colors@.len(), |i: int| colors@[i]@);
            assert forall|i: int| 0 <= i <= MAX_ITERATION implies (#[trigger] shown[i]).len()
                == CHANNELS && shown[i][3] == OPAQUE by {
                assert(shown[i] == colors@[i]@);
            }
        }
        Palette { colors }
    }

    /// The colour of the count `count`. A count over the iteration budget
    /// gets the colour of the budget, the last of the palette.
    pub fn color(&self, count: u16) -> (rgba: [u8; 4])
        ensures
            rgba@ == self@[if count <= MAX_ITERATION {
                count as int
            } else {
                MAX_ITERATION as int
            }],
            rgba@[3] == OPAQUE,
    {
        let index = if count <= MAX_ITERATION {
            count
        } else {
            MAX_ITERATION
        };
        proof {
            use_type_invariant(self);
            assert(self@[index as int] == self.colors@[index as int]@);
        }
        self.colors[index as usize]
    }
}

} // verus!
