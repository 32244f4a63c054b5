//! Output size: how many pixels the exported file is delivered in, as the
//! document stores it. Working the size out is single-precision arithmetic
//! and is done by the application; the crop, which works in fractions of
//! the frame, is not here either.

use vstd::prelude::*;

verus! {

/// How big the exported file should be.
#[derive(Clone, Copy, Debug, PartialEq, Eq, Structural)]
pub enum Resize {
    /// Whatever the crop works out to.
    Native,
    /// Fit the long edge to this many pixels, never enlarging.
    LongEdge { pixels: u32 },
}

impl Default for Resize {
    fn default() -> (r: Resize)
        ensures
            r == Resize::Native,
    {
        Resize::Native
    }
}

} // verus!
