use crate::math::vector2::{fits_i32, Vector2, UNIT};
use vstd::prelude::*;

verus! {

/// A two-dimensional axis-aligned bounding box used for detecting and
/// resolving collisions.
///
/// The box covers the half-open ranges `[left, right)` and `[top, bottom)`,
/// where the size is given in whole pixels and the origin in steps of
/// `1 / UNIT`.
#[derive(Clone, Copy, Debug, PartialEq, Eq, Structural)]
pub struct BoundingBox2D {
    /// Position of the top-left corner.
    pub origin: Vector2,
    /// The width, in pixels.
    pub width: u32,
    /// The height, in pixels.
    pub height: u32,
}

/// The far edge of a span that starts at `start` steps and is `size`
/// pixels long.
pub(crate) fn far_edge(start: i32, size: u32) -> (r: i64)
    ensures
        r == start + size * UNIT,
{
    assert(0 <= size * UNIT <= 4_294_967_295 * 1000) by (nonlinear_arith)
        requires
            size <= 4_294_967_295,
            UNIT == 1000,
    ;
    start as i64 + size as i64 * 1000
}

/// The index of the first obstacle that `b` overlaps, if any.
pub open spec fn first_hit(b: BoundingBox2D, obstacles: Seq<BoundingBox2D>) -> Option<int>
    decreases obstacles.len(),
{
    if obstacles.len() == 0 {
        None
    } else {
        match first_hit(b, obstacles.drop_last()) {
            Some(i) => Some(i),
            None => if b.spec_intersects_box(obstacles.last()) {
                Some(obstacles.len() - 1)
            } else {
                None
            },
        }
    }
}

/// Moves `b` by `dx` steps along x. If it then overlaps an obstacle, it is
/// made flush with the first such obstacle: against its left edge when
/// moving right, against its right edge when moving left.
pub open spec fn step_x(b: BoundingBox2D, obstacles: Seq<BoundingBox2D>, dx: int) -> BoundingBox2D {
    if dx == 0 {
        b
    } else {
        let moved = b.with_x(b.origin.x + dx);
        match first_hit(moved, obstacles) {
            None => moved,
            Some(i) => if dx > 0 {
                moved.with_x(obstacles[i].left() - b.width * UNIT)
            } else {
                moved.with_x(obstacles[i].right())
            },
        }
    }
}

/// The same as `step_x`, along y: flush with the top edge of the first
/// obstacle hit when moving down, with its bottom edge when moving up.
pub open spec fn step_y(b: BoundingBox2D, obstacles: Seq<BoundingBox2D>, dy: int) -> BoundingBox2D {
    if dy == 0 {
        b
    } else {
        let moved = b.with_y(b.origin.y + dy);
        match first_hit(moved, obstacles) {
            None => moved,
            Some(i) => if dy > 0 {
                moved.with_y(obstacles[i].top() - b.height * UNIT)
            } else {
                moved.with_y(obstacles[i].bottom())
            },
        }
    }
}

/// The box after moving by `vel` against `obstacles`: x first, then y.
pub open spec fn resolved(b: BoundingBox2D, obstacles: Seq<BoundingBox2D>, vel: Vector2) -> BoundingBox2D {
    step_y(step_x(b, obstacles, vel.x as int), obstacles, vel.y as int)
}

/// Every position that moving `b` by `vel` against `obstacles` may produce
/// fits an `i32` component. An axis along which `vel` is zero produces none.
pub open spec fn resolvable(b: BoundingBox2D, obstacles: Seq<BoundingBox2D>, vel: Vector2) -> bool {
    &&& vel.x != 0 ==> {
        &&& fits_i32(b.origin.x + vel.x)
        &&& forall|i: int|
            0 <= i < obstacles.len() ==> {
                &&& fits_i32(#[trigger] obstacles[i].left() - b.width * UNIT)
                &&& fits_i32(obstacles[i].right())
            }
    }
    &&& vel.y != 0 ==> {
        &&& fits_i32(b.origin.y + vel.y)
        &&& forall|i: int|
            0 <= i < obstacles.len() ==> {
                &&& fits_i32(#[trigger] obstacles[i].top() - b.height * UNIT)
                &&& fits_i32(obstacles[i].bottom())
            }
    }
}

/// Overlap of boxes is symmetric: `a` overlaps `b` exactly when `b`
/// overlaps `a`. Boxes that share only an edge overlap neither way.
pub proof fn lemma_intersects_box_symmetric(a: BoundingBox2D, b: BoundingBox2D)
    ensures
        a.spec_intersects_box(b) == b.spec_intersects_box(a),
        a.right() == b.left() ==> !a.spec_intersects_box(b) && !b.spec_intersects_box(a),
        a.bottom() == b.top() ==> !a.spec_intersects_box(b) && !b.spec_intersects_box(a),
{
}

/// Resolving is idempotent: once a box has been resolved with the velocity
/// that caused a collision, resolving it again with zero velocity is always
/// allowed and leaves it where it is.
pub proof fn lemma_resolve_zero_velocity_keeps_box(
    b: BoundingBox2D,
    obstacles: Seq<BoundingBox2D>,
    vel: Vector2,
)
    ensures
        resolvable(resolved(b, obstacles, vel), obstacles, Vector2 { x: 0, y: 0 }),
        resolved(resolved(b, obstacles, vel), obstacles, Vector2 { x: 0, y: 0 }) == resolved(
            b,
            obstacles,
            vel,
        ),
{
}

/// A hit found by `first_hit` is a valid index of an obstacle that the box
/// overlaps.
pub proof fn lemma_first_hit_valid(b: BoundingBox2D, obstacles: Seq<BoundingBox2D>)
    ensures
        first_hit(b, obstacles) matches Some(i) ==> 0 <= i < obstacles.len()
            && b.spec_intersects_box(obstacles[i]),
    decreases obstacles.len(),
{
    if obstacles.len() > 0 {
        let rest = obstacles.drop_last();
        lemma_first_hit_valid(b, rest);
        if let Some(i) = first_hit(b, rest) {
            assert(obstacles[i] == rest[i]);
        }
    }
}

/// A snap is flush: when the move along x runs into an obstacle, the box
/// ends with its right edge on the obstacle's left edge (moving right) or
/// its left edge on the obstacle's right edge (moving left), touching it
/// without overlapping it, and its y is unchanged.
pub proof fn lemma_step_x_flush(b: BoundingBox2D, obstacles: Seq<BoundingBox2D>, dx: int)
    requires
        dx != 0,
        resolvable(b, obstacles, Vector2 { x: dx as i32, y: 0 }),
        fits_i32(dx),
    ensures
        first_hit(b.with_x(b.origin.x + dx), obstacles) matches Some(i) ==> {
            let r = step_x(b, obstacles, dx);
            &&& 0 <= i < obstacles.len()
            &&& dx > 0 ==> r.right() == obstacles[i].left()
            &&& dx < 0 ==> r.left() == obstacles[i].right()
            &&& !r.spec_intersects_box(obstacles[i])
            &&& r.origin.y == b.origin.y
        },
{
    lemma_first_hit_valid(b.with_x(b.origin.x + dx), obstacles);
}

/// The same along y: the box ends with its bottom edge on the obstacle's
/// top edge (moving down) or its top edge on the obstacle's bottom edge
/// (moving up), touching it without overlapping it, and its x is unchanged.
pub proof fn lemma_step_y_flush(b: BoundingBox2D, obstacles: Seq<BoundingBox2D>, dy: int)
    requires
        dy != 0,
        resolvable(b, obstacles, Vector2 { x: 0, y: dy as i32 }),
        fits_i32(dy),
    ensures
        first_hit(b.with_y(b.origin.y + dy), obstacles) matches Some(i) ==> {
            let r = step_y(b, obstacles, dy);
            &&& 0 <= i < obstacles.len()
            &&& dy > 0 ==> r.bottom() == obstacles[i].top()
            &&& dy < 0 ==> r.top() == obstacles[i].bottom()
            &&& !r.spec_intersects_box(obstacles[i])
            &&& r.origin.x == b.origin.x
        },
{
    lemma_first_hit_valid(b.with_y(b.origin.y + dy), obstacles);
}

/// The first obstacle among `obstacles` that `b` overlaps.
fn find_first_hit(b: &BoundingBox2D, obstacles: &Vec<BoundingBox2D>) -> (r: Option<usize>)
    ensures
        r matches Some(i) ==> i < obstacles@.len() && first_hit(*b, obstacles@) == Some(i as int),
        r is None ==> first_hit(*b, obstacles@) is None,
{
    let mut i: usize = 0;
    while i < obstacles.len()
        invariant
            i <= obstacles@.len(),
            first_hit(*b, obstacles@.take(i as int)) is None,
        decreases obstacles@.len() - i,
    {
        assert(obstacles@.take(i + 1).drop_last() =~= obstacles@.take(i as int));
        if b.intersects_box(&obstacles[i]) {
            proof {
                lemma_first_hit_prefix(*b, obstacles@, i as int);
            }
            return Some(i);
        }
        i = i + 1;
    }
    assert(obstacles@.take(i as int) =~= obstacles@);
    None
}

/// A hit found in a prefix is the first hit of the whole sequence.
proof fn lemma_first_hit_prefix(b: BoundingBox2D, obstacles: Seq<BoundingBox2D>, i: int)
    requires
        0 <= i < obstacles.len(),
        first_hit(b, obstacles.take(i + 1)) == Some(i),
    ensures
        first_hit(b, obstacles) == Some(i),
    decreases obstacles.len(),
{
    if obstacles.len() == i + 1 {
        assert(obstacles.take(i + 1) =~= obstacles);
    } else {
        let shorter = obstacles.drop_last();
        assert(shorter.take(i + 1) =~= obstacles.take(i + 1));
        lemma_first_hit_prefix(b, shorter, i);
    }
}

impl BoundingBox2D {
    pub open spec fn left(self) -> int {
        self.origin.x as int
    }

    pub open spec fn right(self) -> int {
        self.origin.x + self.width * UNIT
    }

    pub open spec fn top(self) -> int {
        self.origin.y as int
    }

    pub open spec fn bottom(self) -> int {
        self.origin.y + self.height * UNIT
    }

    /// Whether the point lies in `[left, right) x [top, bottom)`.
    pub open spec fn spec_intersects_point(self, p: Vector2) -> bool {
        self.left() <= p.x < self.right() && self.top() <= p.y < self.bottom()
    }

    /// Whether the two boxes overlap on both axes. Boxes that only touch
    /// along an edge do not overlap.
    pub open spec fn spec_intersects_box(self, other: BoundingBox2D) -> bool {
        &&& self.left() < other.right()
        &&& self.right() > other.left()
        &&& self.top() < other.bottom()
        &&& self.bottom() > other.top()
    }

    /// The same box with its origin's x-component set to `x`.
    pub open spec fn with_x(self, x: int) -> BoundingBox2D {
        BoundingBox2D { origin: Vector2 { x: x as i32, y: self.origin.y }, ..self }
    }

    /// The same box with its origin's y-component set to `y`.
    pub open spec fn with_y(self, y: int) -> BoundingBox2D {
        BoundingBox2D { origin: Vector2 { x: self.origin.x, y: y as i32 }, ..self }
    }

    /// Returns a bounding box with the given top-left corner and size.
    pub fn new(origin: Vector2, width: u32, height: u32) -> (r: BoundingBox2D)
        ensures
            r.origin == origin,
            r.width == width,
            r.height == height,
    {
        BoundingBox2D { origin, width, height }
    }

    /// Whether `point` lies in `[left, right) x [top, bottom)`.
    pub fn intersects_point(&self, point: &Vector2) -> (r: bool)
        ensures
            r == self.spec_intersects_point(*point),
    {
        let right = far_edge(self.origin.x, self.width);
        let bottom = far_edge(self.origin.y, self.height);
        self.origin.x <= point.x && (point.x as i64) < right && self.origin.y <= point.y
            && (point.y as i64) < bottom
    }

    /// Whether this box and `bb` overlap on both axes.
    pub fn intersects_box(&self, bb: &BoundingBox2D) -> (r: bool)
        ensures
            r == self.spec_intersects_box(*bb),
    {
        let self_right = far_edge(self.origin.x, self.width);
        let self_bottom = far_edge(self.origin.y, self.height);
        let bb_right = far_edge(bb.origin.x, bb.width);
        let bb_bottom = far_edge(bb.origin.y, bb.height);
        (self.origin.x as i64) < bb_right && self_right > bb.origin.x as i64 && (self.origin.y as i64)
            < bb_bottom && self_bottom > bb.origin.y as i64
    }

    /// Returns the centre: the origin plus half the size, where halves of
    /// odd sizes round down to whole pixels.
    pub fn center(&self) -> (r: Vector2)
        requires
            fits_i32(self.origin.x + (self.width / 2) * UNIT),
            fits_i32(self.origin.y + (self.height / 2) * UNIT),
        ensures
            r.x == self.origin.x + (self.width / 2) * UNIT,
            r.y == self.origin.y + (self.height / 2) * UNIT,
    {
        let x = far_edge(self.origin.x, self.width / 2);
        let y = far_edge(self.origin.y, self.height / 2);
        Vector2 { x: x as i32, y: y as i32 }
    }
    /// Moves this box by `vel` against `obstacles`, one axis at a time: x,
    /// then y. On each axis with a non-zero component the box advances by
    /// it; if it then overlaps an obstacle, it is snapped flush against the
    /// first one in `obstacles` that it overlaps, on the side it came from.
    /// `vel` itself is left as it is.
    pub fn resolve_bb_intersect(&mut self, obstacles: &Vec<BoundingBox2D>, vel: &Vector2)
        requires
            resolvable(*old(self), obstacles@, *vel),
        ensures
            *final(self) == resolved(*old(self), obstacles@, *vel),
    {
        let ghost start = *self;
        if vel.x != 0 {
            self.origin.x = self.origin.x + vel.x;
            match find_first_hit(self, obstacles) {
                None => {},
                Some(i) => {
                    let ob = &obstacles[i];
                    if vel.x > 0 {
                        self.origin.x = (ob.origin.x as i64 - self.width as i64 * 1000) as i32;
                    } else {
                        self.origin.x = far_edge(ob.origin.x, ob.width) as i32;
                    }
                },
            }
        }
        assert(*self == step_x(start, obstacles@, vel.x as int));
        let ghost mid = *self;
        if vel.y != 0 {
            self.origin.y = self.origin.y + vel.y;
            match find_first_hit(self, obstacles) {
                None => {},
                Some(i) => {
                    let ob = &obstacles[i];
                    if vel.y > 0 {
                        self.origin.y = (ob.origin.y as i64 - self.height as i64 * 1000) as i32;
                    } else {
                        self.origin.y = far_edge(ob.origin.y, ob.height) as i32;
                    }
                },
            }
        }
        assert(*self == step_y(mid, obstacles@, vel.y as int));
    }
}

} // verus!
