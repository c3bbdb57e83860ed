//! Axis-aligned collision helpers: rectangle intersection and the
//! separation vector used to resolve a collision.

use vstd::prelude::*;

use crate::types::rect_in_range;
use crate::types::Rect;
use crate::types::Vector2D;
use crate::types::UNIT;

verus! {

/// How to push one rectangle out of another: the separation vector, the
/// collision normal and the penetration distance.
#[derive(Clone, Copy, PartialEq, Eq, Structural, Debug)]
pub struct SeparationResult {
    pub separation: Vector2D,
    pub normal: Vector2D,
    pub distance: i32,
}

/// Whether both sizes are nonnegative.
pub open(crate) spec fn sizes_nonneg(r: Rect) -> bool {
    r.size.x >= 0 && r.size.y >= 0
}

/// Horizontal extent shared by the two rectangles; nonnegative exactly
/// when they overlap or touch horizontally.
pub open(crate) spec fn overlap_x(a: Rect, b: Rect) -> int {
    let lo = if a.position.x >= b.position.x {
        a.position.x as int
    } else {
        b.position.x as int
    };
    let hi = if a.position.x + a.size.x <= b.position.x + b.size.x {
        a.position.x + a.size.x
    } else {
        b.position.x + b.size.x
    };
    hi - lo
}

/// Vertical extent shared by the two rectangles.
pub open(crate) spec fn overlap_y(a: Rect, b: Rect) -> int {
    let lo = if a.position.y >= b.position.y {
        a.position.y as int
    } else {
        b.position.y as int
    };
    let hi = if a.position.y + a.size.y <= b.position.y + b.size.y {
        a.position.y + a.size.y
    } else {
        b.position.y + b.size.y
    };
    hi - lo
}

/// Whether the rectangles overlap or touch on both axes.
pub open(crate) spec fn spec_overlaps(a: Rect, b: Rect) -> bool {
    overlap_x(a, b) >= 0 && overlap_y(a, b) >= 0
}

impl Rect {
    /// The shared region of two rectangles, if they overlap or touch:
    /// its corner is the componentwise larger corner, its size the
    /// shared extent on each axis.
    pub fn intersection(&self, other: &Rect) -> (r: Option<Rect>)
        requires
            rect_in_range(*self),
            rect_in_range(*other),
            sizes_nonneg(*self),
            sizes_nonneg(*other),
        ensures
            r is Some <==> spec_overlaps(*self, *other),
            r is Some ==> {
                let i = r->Some_0;
                &&& i.size.x == overlap_x(*self, *other)
                &&& i.size.y == overlap_y(*self, *other)
                &&& i.position.x == if self.position.x >= other.position.x {
                    self.position.x
                } else {
                    other.position.x
                }
                &&& i.position.y == if self.position.y >= other.position.y {
                    self.position.y
                } else {
                    other.position.y
                }
            },
    {
        let lo_x = if self.position.x >= other.position.x {
            self.position.x
        } else {
            other.position.x
        };
        let hi_x = if self.position.x + self.size.x <= other.position.x + other.size.x {
            self.position.x + self.size.x
        } else {
            other.position.x + other.size.x
        };
        let lo_y = if self.position.y >= other.position.y {
            self.position.y
        } else {
            other.position.y
        };
        let hi_y = if self.position.y + self.size.y <= other.position.y + other.size.y {
            self.position.y + self.size.y
        } else {
            other.position.y + other.size.y
        };
        if hi_x >= lo_x && hi_y >= lo_y {
            Some(
                Rect {
                    position: Vector2D { x: lo_x, y: lo_y },
                    size: Vector2D { x: hi_x - lo_x, y: hi_y - lo_y },
                },
            )
        } else {
            None
        }
    }

    /// The separation resolving a collision, if the rectangles overlap
    /// or touch.  Only the larger axis of the shared region counts: the
    /// separation points along it, away from `other`, the normal is the
    /// fixed-point unit vector of the same direction, and the distance
    /// is the shared extent on that axis.  For rectangles merely
    /// touching on the decisive axis the separation degenerates to zero
    /// with a unit distance.
    pub fn separation(&self, other: &Rect) -> (r: Option<SeparationResult>)
        requires
            rect_in_range(*self),
            rect_in_range(*other),
            sizes_nonneg(*self),
            sizes_nonneg(*other),
        ensures
            r is Some <==> spec_overlaps(*self, *other),
            r is Some ==> {
                let sep = r->Some_0;
                let ox = overlap_x(*self, *other);
                let oy = overlap_y(*self, *other);
                if ox > oy {
                    &&& sep.separation == (Vector2D {
                        x: (if self.position.x > other.position.x {
                            -ox
                        } else {
                            ox
                        }) as i32,
                        y: 0,
                    })
                    &&& sep.normal == (Vector2D {
                        x: if self.position.x > other.position.x {
                            (-UNIT) as i32
                        } else {
                            UNIT
                        },
                        y: 0,
                    })
                    &&& sep.distance == ox
                } else if oy > 0 {
                    &&& sep.separation == (Vector2D {
                        x: 0,
                        y: (if self.position.y > other.position.y {
                            -oy
                        } else {
                            oy
                        }) as i32,
                    })
                    &&& sep.normal == (Vector2D {
                        x: 0,
                        y: if self.position.y > other.position.y {
                            (-UNIT) as i32
                        } else {
                            UNIT
                        },
                    })
                    &&& sep.distance == oy
                } else {
                    &&& sep.separation == (Vector2D { x: 0, y: 0 })
                    &&& sep.normal == (Vector2D { x: self.size.x, y: 0 })
                    &&& sep.distance == UNIT
                }
            },
    {
        if let Some(intersection) = self.intersection(other) {
            // Unless degenerate, only the larger axis of separation
            // counts for axis-aligned rectangles.
            let ox = intersection.size.x;
            let oy = intersection.size.y;
            if ox > oy {
                let flip = self.position.x > other.position.x;
                Some(
                    SeparationResult {
                        separation: Vector2D {
                            x: if flip {
                                -ox
                            } else {
                                ox
                            },
                            y: 0,
                        },
                        normal: Vector2D {
                            x: if flip {
                                -UNIT
                            } else {
                                UNIT
                            },
                            y: 0,
                        },
                        distance: ox,
                    },
                )
            } else if oy > 0 {
                let flip = self.position.y > other.position.y;
                Some(
                    SeparationResult {
                        separation: Vector2D {
                            x: 0,
                            y: if flip {
                                -oy
                            } else {
                                oy
                            },
                        },
                        normal: Vector2D {
                            x: 0,
                            y: if flip {
                                -UNIT
                            } else {
                                UNIT
                            },
                        },
                        distance: oy,
                    },
                )
            } else {
                // The rectangles only touch on the decisive axis.
                Some(
                    SeparationResult {
                        separation: Vector2D { x: 0, y: 0 },
                        normal: Vector2D { x: self.size.x, y: 0 },
                        distance: UNIT,
                    },
                )
            }
        } else {
            None
        }
    }
}

} // verus!
