use crate::math::vector2::{Vector2, UNIT};
use vstd::prelude::*;

verus! {

/// A circle used for detecting collisions; the radius is in whole pixels.
#[derive(Clone, Copy, Debug, PartialEq, Eq, Structural)]
pub struct BoundingCircle2D {
    /// The centre, in steps of `1 / UNIT`.
    pub center: Vector2,
    /// The radius, in pixels.
    pub radius: i32,
}

/// The squared distance between two points, in squared steps.
pub open spec fn dist_sq(a: Vector2, b: Vector2) -> int {
    (a.x - b.x) * (a.x - b.x) + (a.y - b.y) * (a.y - b.y)
}

/// Whether the distance between two points, rounded down to a step, is
/// below `limit` steps.
pub open spec fn closer_than(a: Vector2, b: Vector2, limit: int) -> bool {
    0 < limit && dist_sq(a, b) < limit * limit
}

/// Squared distance between two points, computed without overflow.
fn dist_sq_exec(a: Vector2, b: Vector2) -> (r: u128)
    ensures
        r == dist_sq(a, b),
{
    let dx: i64 = a.x as i64 - b.x as i64;
    let dy: i64 = a.y as i64 - b.y as i64;
    let adx: u128 = if dx < 0 {
        (-dx) as u128
    } else {
        dx as u128
    };
    let ady: u128 = if dy < 0 {
        (-dy) as u128
    } else {
        dy as u128
    };
    assert(adx * adx <= 0x1_0000_0000_0000_0000 && ady * ady <= 0x1_0000_0000_0000_0000)
        by (nonlinear_arith)
        requires
            adx <= 0x1_0000_0000,
            ady <= 0x1_0000_0000,
    ;
    assert(adx * adx + ady * ady == dist_sq(a, b)) by (nonlinear_arith)
        requires
            adx == dx || adx == -dx,
            ady == dy || ady == -dy,
            dx == a.x - b.x,
            dy == a.y - b.y,
    ;
    adx * adx + ady * ady
}

impl BoundingCircle2D {
    /// Whether `point` lies strictly closer to the centre than the radius.
    pub fn intersects_point(&self, point: Vector2) -> (r: bool)
        ensures
            r == closer_than(point, self.center, self.radius * UNIT),
    {
        let d = dist_sq_exec(point, self.center);
        let limit: i64 = self.radius as i64 * 1000;
        if limit <= 0 {
            false
        } else {
            let l = limit as u128;
            assert(l * l <= 0x1_0000_0000_0000_0000_0000_0000) by (nonlinear_arith)
                requires
                    l <= 0x1_0000_0000_0000,
            ;
            d < l * l
        }
    }

    /// Whether the two circles overlap: their centres lie strictly closer
    /// than the sum of the radii.
    pub fn intersects_circle(&self, circle: BoundingCircle2D) -> (r: bool)
        ensures
            r == closer_than(circle.center, self.center, (circle.radius + self.radius) * UNIT),
    {
        let d = dist_sq_exec(circle.center, self.center);
        let limit: i64 = (circle.radius as i64 + self.radius as i64) * 1000;
        if limit <= 0 {
            false
        } else {
            let l = limit as u128;
            assert(l * l <= 0x1_0000_0000_0000_0000_0000_0000) by (nonlinear_arith)
                requires
                    l <= 0x1_0000_0000_0000,
            ;
            d < l * l
        }
    }
}

} // verus!
