//! The circular arena, derived from the play surface, and the guide
//! ring that visualises the chaser's angular reach.

use vstd::prelude::*;
use crate::vector::{Vec2M, Vector2};

verus! {

/// Smallest play-surface dimension the simulation accepts, in sub-pixel
/// units (a machine limit far below any real window).
pub const DIM_MIN: i64 = 16;

/// Largest play-surface dimension the simulation accepts, in sub-pixel
/// units.
pub const DIM_MAX: i64 = 16777216;

/// Whether a width/height pair is within the accepted range.
pub open spec fn surface_in_range(width: int, height: int) -> bool {
    DIM_MIN <= width <= DIM_MAX && DIM_MIN <= height <= DIM_MAX
}

/// The midpoint of a play surface.
pub open spec fn surface_center(width: int, height: int) -> Vec2M {
    Vec2M { x: width / 2, y: height / 2 }
}

/// The arena radius for a surface height: eight tenths of the half
/// height, computed exactly as two fifths.
pub open spec fn arena_radius_for_height(height: int) -> int {
    2 * height / 5
}

/// Mathematical model of the arena.
pub ghost struct ArenaM {
    pub center: Vec2M,
    pub radius: int,
}

/// Whether an arena is the one a surface of these dimensions induces.
pub open spec fn arena_fits_surface(a: ArenaM, width: int, height: int) -> bool {
    a.center == surface_center(width, height) && a.radius == arena_radius_for_height(height)
}

/// The circular play boundary: the runner must cross it to win.
#[derive(Clone, Copy, Debug, PartialEq, Eq, Structural)]
pub struct Arena {
    pub center: Vector2,
    pub radius: i64,
}

impl View for Arena {
    type V = ArenaM;

    open spec fn view(&self) -> ArenaM {
        ArenaM { center: self.center@, radius: self.radius as int }
    }
}

impl Arena {
    /// Builds the arena a play surface of the given dimensions induces:
    /// centered on the surface, its radius driven by the height alone.
    pub fn from_surface(width: i64, height: i64) -> (a: Arena)
        requires
            surface_in_range(width as int, height as int),
        ensures
            arena_fits_surface(a@, width as int, height as int),
            6 <= a@.radius <= 2 * DIM_MAX / 5,
            DIM_MIN / 2 <= a@.center.x <= DIM_MAX / 2,
            DIM_MIN / 2 <= a@.center.y <= DIM_MAX / 2,
    {
        Arena {
            center: Vector2 { x: width / 2, y: height / 2 },
            radius: 2 * height / 5,
        }
    }
}

/// Mathematical model of the guide ring.
pub ghost struct GuideRingM {
    pub position: Vec2M,
    pub radius: int,
}

/// A purely derived visual aid: the circle around the arena center whose
/// radius encodes the chaser's angular reach.
#[derive(Clone, Copy, Debug, PartialEq, Eq, Structural)]
pub struct GuideRing {
    pub position: Vector2,
    pub radius: i64,
}

impl View for GuideRing {
    type V = GuideRingM;

    open spec fn view(&self) -> GuideRingM {
        GuideRingM { position: self.position@, radius: self.radius as int }
    }
}

impl GuideRing {
    /// Recomputes the ring from the arena: same center, the radius
    /// scaled down by the chaser's speed advantage.
    pub fn from_arena(arena: &Arena, speed_ratio: i64) -> (g: GuideRing)
        requires
            speed_ratio >= 1,
            arena@.radius >= 0,
        ensures
            g@.position == arena@.center,
            g@.radius == arena@.radius / (speed_ratio as int),
    {
        GuideRing { position: arena.center, radius: arena.radius / speed_ratio }
    }
}

} // verus!
