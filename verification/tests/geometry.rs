use crabioware::intersect::SeparationResult;
use crabioware::types::Rect;
use crabioware::types::RectMath;
use crabioware::types::VecMath;
use crabioware::types::Vector2D;
use crabioware::types::UNIT;

fn rect(px: i32, py: i32, sx: i32, sy: i32) -> Rect {
    Rect { position: Vector2D { x: px, y: py }, size: Vector2D { x: sx, y: sy } }
}

#[test]
fn separated_rects_do_not_intersect() {
    let a = rect(0, 0, 4, 4);
    let b = rect(5, 5, 6, 7);
    assert_eq!(a.intersection(&b), None);
    assert_eq!(a.separation(&b), None);
}

#[test]
fn overlapping_rects_intersect_in_the_shared_region() {
    let a = rect(0, 0, 4, 4);
    let b = rect(2, 1, 5, 6);
    assert_eq!(a.intersection(&b), Some(rect(2, 1, 2, 3)));
    assert_eq!(b.intersection(&a), Some(rect(2, 1, 2, 3)));
}

#[test]
fn separation_points_along_the_larger_shared_axis() {
    let a = rect(0, 0, 4, 4);
    let b = rect(3, 0, 4, 4);
    // The shared region is 1 wide and 4 tall, so the vertical axis
    // decides, and `a` sits no lower than `b`.
    assert_eq!(
        a.separation(&b),
        Some(SeparationResult {
            separation: Vector2D { x: 0, y: 4 },
            normal: Vector2D { x: 0, y: UNIT },
            distance: 4,
        })
    );
}

#[test]
fn separation_flips_away_from_the_other_rect() {
    let a = rect(0, 2, 4, 4);
    let b = rect(1, 0, 6, 3);
    // Shared region: x in [1, 4], y in [2, 3]: the horizontal axis
    // decides, and `a` starts left of `b`, so no flip.
    assert_eq!(
        a.separation(&b),
        Some(SeparationResult {
            separation: Vector2D { x: 3, y: 0 },
            normal: Vector2D { x: UNIT, y: 0 },
            distance: 3,
        })
    );
    // Seen from `b`, the push points the other way.
    assert_eq!(
        b.separation(&a),
        Some(SeparationResult {
            separation: Vector2D { x: -3, y: 0 },
            normal: Vector2D { x: -UNIT, y: 0 },
            distance: 3,
        })
    );
}

#[test]
fn touching_rects_degenerate_to_a_zero_separation() {
    let a = rect(0, 0, 2, 2);
    let b = rect(2, 2, 2, 2);
    let result = a.separation(&b).unwrap();
    assert_eq!(result.separation, Vector2D { x: 0, y: 0 });
    assert_eq!(result.normal, Vector2D { x: 2, y: 0 });
    assert_eq!(result.distance, UNIT);
}

#[test]
fn dot_product_and_rect_arithmetic() {
    let v = Vector2D { x: 3, y: 4 };
    let w = Vector2D { x: -2, y: 5 };
    assert_eq!(v.dot(w), 14);

    let r = rect(10, 20, 4, 6);
    let moved = r.translate(Vector2D { x: -1, y: 2 });
    assert_eq!(moved, rect(9, 22, 4, 6));
    assert_eq!(r.centroid(), Vector2D { x: 12, y: 23 });
}
