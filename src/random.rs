//! Random choice of cells for food.
use rand::Rng;
use vstd::prelude::*;

use crate::grid::{in_bounds, Point, GRID_HEIGHT, GRID_WIDTH};

verus! {

/// Relies on rand's `thread_rng().gen_range(0..n)`: a value below `n`, which
/// must not be zero (an empty range panics).
#[verifier::external_body]
fn random_below(n: u32) -> (r: u32)
    requires
        n > 0,
    ensures
        r < n,
{
    rand::thread_rng().gen_range(0..n)
}

/// A cell of the board, its column and row drawn independently and uniformly.
pub fn random_cell() -> (r: Point)
    ensures
        in_bounds(r),
{
    let x = random_below(GRID_WIDTH as u32);
    let y = random_below(GRID_HEIGHT as u32);
    Point { x: x as i32, y: y as i32 }
}

} // verus!
