//! Plain geometry carried by game components.
//!
//! Coordinates are fixed-point numbers held in `i32` raw form with eight
//! fractional bits; [`UNIT`] is the raw value of one.  Contracts bound
//! coordinates to [`COORD_BOUND`] so the arithmetic stays in range.

use vstd::prelude::*;

verus! {

/// The raw fixed-point value of one (eight fractional bits).
pub const UNIT: i32 = 256;

/// Magnitude bound on raw coordinate values accepted by the geometry
/// operations.
pub const COORD_BOUND: i32 = 16777216;

/// A two-dimensional vector of raw fixed-point coordinates.
#[derive(Clone, Copy, PartialEq, Eq, Structural, Debug)]
pub struct Vector2D {
    pub x: i32,
    pub y: i32,
}

/// An axis-aligned rectangle: a corner position and a (nonnegative)
/// size.
#[derive(Clone, Copy, PartialEq, Eq, Structural, Debug)]
pub struct Rect {
    pub position: Vector2D,
    pub size: Vector2D,
}

/// Whether both coordinates stay within the accepted range.
pub open(crate) spec fn vec_in_range(v: Vector2D) -> bool {
    -COORD_BOUND <= v.x <= COORD_BOUND && -COORD_BOUND <= v.y <= COORD_BOUND
}

/// Whether a rectangle's corner and size stay within the accepted
/// range.
pub open(crate) spec fn rect_in_range(r: Rect) -> bool {
    vec_in_range(r.position) && vec_in_range(r.size)
}

/// Vector arithmetic shared by the physics helpers.
pub trait VecMath: Sized {
    /// When the scalar product stays in range.
    spec fn dot_ok(self, other: Self) -> bool;

    /// The scalar product, as a mathematical integer.
    spec fn spec_dot(self, other: Self) -> int;

    /// The scalar product with `other`.
    fn dot(&self, other: Self) -> (r: i64)
        requires
            self.dot_ok(other),
        ensures
            r == self.spec_dot(other),
    ;
}

impl VecMath for Vector2D {
    open(crate) spec fn dot_ok(self, other: Vector2D) -> bool {
        vec_in_range(self) && vec_in_range(other)
    }

    open(crate) spec fn spec_dot(self, other: Vector2D) -> int {
        self.x * other.x + self.y * other.y
    }

    /// Computed in 64 bits; in-range coordinates cannot overflow it.
    fn dot(&self, other: Vector2D) -> (r: i64) {
        proof {
            assert(-0x1000000000000 <= self.x * other.x <= 0x1000000000000) by (nonlinear_arith)
                requires
                    -0x1000000 <= self.x <= 0x1000000,
                    -0x1000000 <= other.x <= 0x1000000,
            ;
            assert(-0x1000000000000 <= self.y * other.y <= 0x1000000000000) by (nonlinear_arith)
                requires
                    -0x1000000 <= self.y <= 0x1000000,
                    -0x1000000 <= other.y <= 0x1000000,
            ;
        }
        self.x as i64 * other.x as i64 + self.y as i64 * other.y as i64
    }
}

/// Rectangle arithmetic shared by the physics helpers.
pub trait RectMath: Sized {
    /// When the operation stays in range.
    spec fn translate_ok(self, offset: Vector2D) -> bool;

    /// The rectangle moved by `offset`.
    spec fn spec_translate(self, offset: Vector2D) -> Self;

    /// When the midpoint stays in range.
    spec fn centroid_ok(self) -> bool;

    /// The midpoint of the rectangle.
    spec fn spec_centroid(self) -> Vector2D;

    /// This rectangle moved by `offset`.
    fn translate(&self, offset: Vector2D) -> (r: Self)
        requires
            self.translate_ok(offset),
        ensures
            r == self.spec_translate(offset),
    ;

    /// The midpoint of the rectangle.
    fn centroid(&self) -> (r: Vector2D)
        requires
            self.centroid_ok(),
        ensures
            r == self.spec_centroid(),
    ;

    /// When the centroid product stays in range.
    spec fn dot_ok(self, other: Self) -> bool;

    /// The scalar product of the two midpoints.
    fn dot(&self, other: Self) -> (r: i64)
        requires
            self.dot_ok(other),
        ensures
            r == self.spec_centroid().spec_dot(other.spec_centroid()),
    ;
}

impl RectMath for Rect {
    open(crate) spec fn translate_ok(self, offset: Vector2D) -> bool {
        rect_in_range(self) && vec_in_range(offset)
    }

    open(crate) spec fn spec_translate(self, offset: Vector2D) -> Rect {
        Rect {
            position: (Vector2D {
                x: (self.position.x + offset.x) as i32,
                y: (self.position.y + offset.y) as i32,
            }),
            size: self.size,
        }
    }

    open(crate) spec fn centroid_ok(self) -> bool {
        rect_in_range(self) && self.size.x >= 0 && self.size.y >= 0
    }

    open(crate) spec fn spec_centroid(self) -> Vector2D {
        Vector2D {
            x: (self.position.x + self.size.x / 2) as i32,
            y: (self.position.y + self.size.y / 2) as i32,
        }
    }

    fn translate(&self, offset: Vector2D) -> (r: Rect) {
        Rect {
            position: Vector2D { x: self.position.x + offset.x, y: self.position.y + offset.y },
            size: self.size,
        }
    }

    fn centroid(&self) -> (r: Vector2D) {
        Vector2D { x: self.position.x + self.size.x / 2, y: self.position.y + self.size.y / 2 }
    }

    open(crate) spec fn dot_ok(self, other: Rect) -> bool {
        self.centroid_ok() && other.centroid_ok() && vec_in_range(self.spec_centroid())
            && vec_in_range(other.spec_centroid())
    }

    fn dot(&self, other: Rect) -> (r: i64) {
        self.centroid().dot(other.centroid())
    }
}

} // verus!
