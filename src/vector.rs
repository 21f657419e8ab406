//! Two-dimensional fixed-point vectors.
use vstd::prelude::*;

verus! {

/// A 2D vector; each component is a fixed-point quantity (see `fixed`).
#[derive(Clone, Copy, PartialEq, Eq, Structural, Debug)]
pub struct Vector2 {
    pub x: i32,
    pub y: i32,
}

impl Vector2 {
    pub fn new(x: i32, y: i32) -> (r: Vector2)
        ensures
            r.x == x,
            r.y == y,
    {
        Vector2 { x, y }
    }

    pub fn zero() -> (r: Vector2)
        ensures
            r.x == 0,
            r.y == 0,
    {
        Vector2 { x: 0, y: 0 }
    }
}

/// Dot product of the raw components.
pub open spec fn dot(a: Vector2, b: Vector2) -> int {
    a.x * b.x + a.y * b.y
}

/// 2D cross product `a.x * b.y - a.y * b.x` of the raw components.
pub open spec fn cross(a: Vector2, b: Vector2) -> int {
    a.x * b.y - a.y * b.x
}

} // verus!
