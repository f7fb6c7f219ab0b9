//! Sampled stroke points as the mesh builder sees them.
use vstd::prelude::*;

verus! {

/// One sample of a stroke.
///
/// The only property of a sample that shapes the mesh is how finely its
/// round cap is subdivided. `detail` is that level on the quarter-power
/// scale of the sample's radius `r`: the integer part of `12 * r^(1/4)`.
/// Any value is accepted; [`crate::line::get_number`] brings it into the
/// supported range.
#[derive(Clone, Copy, Debug, PartialEq, Eq, Structural)]
pub struct Point {
    pub detail: u32,
}

} // verus!
