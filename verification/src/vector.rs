//! Planar vectors in integer sub-pixel units, with their mathematical model.

use vstd::prelude::*;

verus! {

/// Mathematical model of a planar vector: a pair of unbounded integers.
pub ghost struct Vec2M {
    pub x: int,
    pub y: int,
}

/// The squared Euclidean norm of a vector.
pub open spec fn norm_sq(v: Vec2M) -> int {
    v.x * v.x + v.y * v.y
}

/// The squared Euclidean distance between two points.
pub open spec fn dist_sq(a: Vec2M, b: Vec2M) -> int {
    (a.x - b.x) * (a.x - b.x) + (a.y - b.y) * (a.y - b.y)
}

/// A point or displacement of the play surface, in sub-pixel units.
/// A value type: arithmetic is component-wise and equality is by value.
#[derive(Clone, Copy, Debug, PartialEq, Eq, Structural)]
pub struct Vector2 {
    pub x: i64,
    pub y: i64,
}

impl View for Vector2 {
    type V = Vec2M;

    open spec fn view(&self) -> Vec2M {
        Vec2M { x: self.x as int, y: self.y as int }
    }
}

impl Vector2 {
    /// Builds the vector with the given components.
    pub fn new(x: i64, y: i64) -> (r: Vector2)
        ensures
            r@ == (Vec2M { x: x as int, y: y as int }),
    {
        Vector2 { x, y }
    }

    /// Component-wise sum.
    pub fn add(self, other: Vector2) -> (r: Vector2)
        requires
            i64::MIN <= self@.x + other@.x <= i64::MAX,
            i64::MIN <= self@.y + other@.y <= i64::MAX,
        ensures
            r@.x == self@.x + other@.x,
            r@.y == self@.y + other@.y,
    {
        Vector2 { x: self.x + other.x, y: self.y + other.y }
    }

    /// Component-wise difference.
    pub fn sub(self, other: Vector2) -> (r: Vector2)
        requires
            i64::MIN <= self@.x - other@.x <= i64::MAX,
            i64::MIN <= self@.y - other@.y <= i64::MAX,
        ensures
            r@.x == self@.x - other@.x,
            r@.y == self@.y - other@.y,
    {
        Vector2 { x: self.x - other.x, y: self.y - other.y }
    }

    /// The squared Euclidean norm.
    pub fn magnitude_sq(self) -> (r: i64)
        requires
            -0x4000_0000 <= self@.x <= 0x4000_0000,
            -0x4000_0000 <= self@.y <= 0x4000_0000,
        ensures
            r == norm_sq(self@),
            r >= 0,
    {
        proof {
            assert(0 <= self@.x * self@.x <= 0x4000_0000int * 0x4000_0000int
                && 0 <= self@.y * self@.y <= 0x4000_0000int * 0x4000_0000int)
                by (nonlinear_arith)
                requires
                    -0x4000_0000 <= self@.x <= 0x4000_0000,
                    -0x4000_0000 <= self@.y <= 0x4000_0000,
            ;
        }
        self.x * self.x + self.y * self.y
    }

    /// The squared Euclidean distance to another point.
    pub fn distance_sq(self, other: Vector2) -> (r: i64)
        requires
            -0x2000_0000 <= self@.x <= 0x2000_0000,
            -0x2000_0000 <= self@.y <= 0x2000_0000,
            -0x2000_0000 <= other@.x <= 0x2000_0000,
            -0x2000_0000 <= other@.y <= 0x2000_0000,
        ensures
            r == dist_sq(self@, other@),
            r >= 0,
    {
        let d = self.sub(other);
        d.magnitude_sq()
    }
}

} // verus!
