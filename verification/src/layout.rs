//! Pure placement arithmetic for the end-of-round text: the rendering
//! shell measures the text and draws it; only the centering rule lives
//! here.

use vstd::prelude::*;
use crate::num::{tdiv, div_trunc};

verus! {

/// Where a box of the given size sits on the surface: horizontally
/// centered, its vertical middle at the given percentage of the
/// surface height.
pub fn centered_box_position(
    surface_width: i64,
    surface_height: i64,
    box_width: i64,
    box_height: i64,
    height_percent: i64,
) -> (p: (i64, i64))
    requires
        0 <= surface_width <= 0x100_0000,
        0 <= surface_height <= 0x100_0000,
        0 <= box_width <= 0x100_0000,
        0 <= box_height <= 0x100_0000,
        0 <= height_percent <= 100,
    ensures
        p.0 == tdiv(surface_width - box_width, 2),
        p.1 == surface_height * height_percent / 100 - box_height / 2,
{
    proof {
        assert(0 <= surface_height * height_percent <= 0x100_0000int * 100) by (nonlinear_arith)
            requires
                0 <= surface_height <= 0x100_0000,
                0 <= height_percent <= 100,
        ;
    }
    let x = div_trunc(surface_width - box_width, 2);
    let y = (surface_height * height_percent) / 100 - box_height / 2;
    (x, y)
}

} // verus!
