use vstd::arithmetic::div_mod::{lemma_fundamental_div_mod, lemma_mod_bound};
use vstd::prelude::*;

verus! {

/// Fixed-point scale: one pixel, one unit of speed or a factor of one is
/// `UNIT` steps of a vector component.
pub const UNIT: i32 = 1000;

/// A two-dimensional vector whose components are fixed-point numbers in
/// steps of `1 / UNIT`.
///
/// Equality is exact, component by component.
#[derive(Clone, Copy, Debug, PartialEq, Eq, Structural)]
pub struct Vector2 {
    /// The x-component, in steps of `1 / UNIT`.
    pub x: i32,
    /// The y-component, in steps of `1 / UNIT`.
    pub y: i32,
}

/// Whether an integer fits an `i32` component.
pub open spec fn fits_i32(v: int) -> bool {
    i32::MIN <= v <= i32::MAX
}

/// The absolute value.
pub open spec fn abs(v: int) -> int {
    if v < 0 {
        -v
    } else {
        v
    }
}

/// Division that truncates toward zero, as Rust's integer division does.
pub open spec fn div_trunc(a: int, b: int) -> int {
    let q = abs(a) / abs(b);
    if (a < 0) == (b < 0) {
        q
    } else {
        -q
    }
}

/// `r` is the integer square root of `n`: the largest integer whose square
/// is at most `n`.
pub open spec fn is_isqrt(n: int, r: int) -> bool {
    0 <= r && r * r <= n && n < (r + 1) * (r + 1)
}

/// The integer square root of a non-negative integer.
pub open spec fn isqrt(n: int) -> int {
    choose|r: int| is_isqrt(n, r)
}

/// At most one integer is the integer square root of `n`.
pub proof fn lemma_isqrt_unique(n: int, r: int, s: int)
    requires
        is_isqrt(n, r),
        is_isqrt(n, s),
    ensures
        r == s,
{
    if r < s {
        assert((r + 1) * (r + 1) <= s * s) by (nonlinear_arith)
            requires
                0 <= r < s,
        ;
    } else if s < r {
        assert((s + 1) * (s + 1) <= r * r) by (nonlinear_arith)
            requires
                0 <= s < r,
        ;
    }
}

/// Any integer square root of `n` is `isqrt(n)`.
pub proof fn lemma_isqrt_is(n: int, r: int)
    requires
        is_isqrt(n, r),
    ensures
        isqrt(n) == r,
{
    let s = isqrt(n);
    assert(is_isqrt(n, s));
    lemma_isqrt_unique(n, r, s);
}


/// Every non-negative integer has an integer square root.
pub proof fn lemma_isqrt_exists(n: int)
    requires
        0 <= n,
    ensures
        is_isqrt(n, isqrt(n)),
    decreases n,
{
    if n == 0 {
        assert(is_isqrt(0, 0));
    } else {
        lemma_isqrt_exists(n - 1);
        let r = isqrt(n - 1);
        if (r + 1) * (r + 1) <= n {
            assert(n < (r + 2) * (r + 2)) by (nonlinear_arith)
                requires
                    n - 1 < (r + 1) * (r + 1),
                    0 <= r,
            ;
            assert(is_isqrt(n, r + 1));
        } else {
            assert(is_isqrt(n, r));
        }
    }
}

/// Bounds of the quotient of a non-negative number by a positive one.
proof fn lemma_div_bounds(x: int, d: int)
    requires
        0 <= x,
        0 < d,
    ensures
        0 <= x / d,
        (x / d) * d <= x < (x / d + 1) * d,
{
    lemma_fundamental_div_mod(x, d);
    lemma_mod_bound(x, d);
    assert(0 <= x / d) by (nonlinear_arith)
        requires
            x == d * (x / d) + (x % d),
            0 <= x % d < d,
            0 <= x,
    ;
    assert((x / d) * d <= x < (x / d + 1) * d) by (nonlinear_arith)
        requires
            x == d * (x / d) + (x % d),
            0 <= x % d < d,
    ;
}

/// Normalizing gives unit length: a non-zero vector, normalized, has length
/// `UNIT` up to three steps (three thousandths of a unit), and the zero
/// vector normalizes to itself.
pub proof fn lemma_normalize_unit_length(v: Vector2)
    ensures
        !v.is_zero() ==> UNIT - 3 <= v.spec_normalize().spec_length() <= UNIT,
        v.is_zero() ==> v.spec_normalize() == v,
{
    if !v.is_zero() {
        let a = abs(v.x as int);
        let b = abs(v.y as int);
        let t = v.len_sq() * (UNIT * UNIT);
        assert(t == (a * a + b * b) * 1_000_000 && a * a + b * b >= 1) by (nonlinear_arith)
            requires
                a == abs(v.x as int),
                b == abs(v.y as int),
                t == v.len_sq() * (UNIT * UNIT),
                a != 0 || b != 0,
                0 <= a,
                0 <= b,
        ;
        lemma_isqrt_exists(t);
        let l = isqrt(t);
        assert(l >= 1000) by (nonlinear_arith)
            requires
                t >= 1_000_000,
                t < (l + 1) * (l + 1),
                0 <= l,
        ;
        lemma_div_bounds(a * 1_000_000, l);
        lemma_div_bounds(b * 1_000_000, l);
        let nx = (a * 1_000_000) / l;
        let ny = (b * 1_000_000) / l;
        let n = v.spec_normalize();
        assert(abs(v.x * (UNIT * UNIT)) == a * 1_000_000) by (nonlinear_arith)
            requires
                a == abs(v.x as int),
        ;
        assert(abs(v.y * (UNIT * UNIT)) == b * 1_000_000) by (nonlinear_arith)
            requires
                b == abs(v.y as int),
        ;
        assert(a * 1000 <= l && b * 1000 <= l) by (nonlinear_arith)
            requires
                t == (a * a + b * b) * 1_000_000,
                t < (l + 1) * (l + 1),
                0 <= a,
                0 <= b,
                0 <= l,
        ;
        assert(nx <= 1000 && ny <= 1000) by (nonlinear_arith)
            requires
                nx * l <= a * 1_000_000,
                ny * l <= b * 1_000_000,
                a * 1000 <= l,
                b * 1000 <= l,
                l >= 1,
        ;
        assert(n.x == nx || n.x == -nx);
        assert(n.y == ny || n.y == -ny);
        assert(n.len_sq() == nx * nx + ny * ny) by (nonlinear_arith)
            requires
                n.x == nx || n.x == -nx,
                n.y == ny || n.y == -ny,
        ;
        // Upper bound: the squared length stays below (UNIT + 1)^2.
        assert(nx * nx * (l * l) <= a * a * 1_000_000_000_000) by (nonlinear_arith)
            requires
                0 <= nx * l <= a * 1_000_000,
                0 <= nx,
                0 <= l,
        ;
        assert(ny * ny * (l * l) <= b * b * 1_000_000_000_000) by (nonlinear_arith)
            requires
                0 <= ny * l <= b * 1_000_000,
                0 <= ny,
                0 <= l,
        ;
        assert((l + 1) * (l + 1) * 1_000_000 <= 1001 * 1001 * (l * l)) by (nonlinear_arith)
            requires
                l >= 1000,
        ;
        assert((nx * nx + ny * ny) * (l * l) < 1001 * 1001 * (l * l)) by (nonlinear_arith)
            requires
                nx * nx * (l * l) <= a * a * 1_000_000_000_000,
                ny * ny * (l * l) <= b * b * 1_000_000_000_000,
                (l + 1) * (l + 1) * 1_000_000 <= 1001 * 1001 * (l * l),
                t == (a * a + b * b) * 1_000_000,
                t < (l + 1) * (l + 1),
        ;
        assert(nx * nx + ny * ny < 1001 * 1001) by (nonlinear_arith)
            requires
                (nx * nx + ny * ny) * (l * l) < 1001 * 1001 * (l * l),
                l >= 1000,
        ;
        // Lower bound: rounding down loses less than one step per component.
        assert((nx + 1) * (nx + 1) * (l * l) >= a * a * 1_000_000_000_000) by (nonlinear_arith)
            requires
                a * 1_000_000 < (nx + 1) * l,
                0 <= a,
                0 <= l,
        ;
        assert((ny + 1) * (ny + 1) * (l * l) >= b * b * 1_000_000_000_000) by (nonlinear_arith)
            requires
                b * 1_000_000 < (ny + 1) * l,
                0 <= b,
                0 <= l,
        ;
        assert((nx + 1) * (nx + 1) + (ny + 1) * (ny + 1) >= 1_000_000) by (nonlinear_arith)
            requires
                (nx + 1) * (nx + 1) * (l * l) >= a * a * 1_000_000_000_000,
                (ny + 1) * (ny + 1) * (l * l) >= b * b * 1_000_000_000_000,
                t == (a * a + b * b) * 1_000_000,
                l * l <= t,
                l >= 1000,
        ;
        assert(nx * nx + ny * ny >= 997 * 997) by (nonlinear_arith)
            requires
                (nx + 1) * (nx + 1) + (ny + 1) * (ny + 1) >= 1_000_000,
                nx <= 1000,
                ny <= 1000,
        ;
        let s = n.len_sq();
        lemma_isqrt_exists(s);
        let m = isqrt(s);
        assert(997 <= m <= 1000) by (nonlinear_arith)
            requires
                m * m <= s,
                s < (m + 1) * (m + 1),
                997 * 997 <= s < 1001 * 1001,
                0 <= m,
        ;
    }
}

const TWO_POW_64: u128 = 0x1_0000_0000_0000_0000;

/// Integer square root by bisection.
fn isqrt_u128(n: u128) -> (r: u128)
    ensures
        is_isqrt(n as int, r as int),
        r < TWO_POW_64,
{
    let mut lo: u128 = 0;
    let mut hi: u128 = TWO_POW_64;
    assert(n < hi * hi) by (nonlinear_arith)
        requires
            hi == TWO_POW_64,
    ;
    while hi - lo > 1
        invariant
            lo < hi <= TWO_POW_64,
            lo * lo <= n,
            n < hi * hi,
        decreases hi - lo,
    {
        let mid: u128 = lo + (hi - lo) / 2;
        assert(mid * mid < 0x1_0000_0000_0000_0000_0000_0000_0000_0000) by (nonlinear_arith)
            requires
                mid < 0x1_0000_0000_0000_0000,
        ;
        if mid * mid <= n {
            lo = mid;
        } else {
            hi = mid;
        }
    }
    lo
}

/// The absolute value of a component, widened.
fn abs_u64(v: i32) -> (r: u64)
    ensures
        r == abs(v as int),
        r <= 0x8000_0000,
{
    if v < 0 {
        (-(v as i64)) as u64
    } else {
        v as u64
    }
}

/// `a * b / d`, truncated toward zero, computed without overflow.
fn mul_div_trunc(a: i32, b: i32, d: i32) -> (r: i32)
    requires
        d != 0,
        fits_i32(div_trunc(a * b, d as int)),
    ensures
        r == div_trunc(a * b, d as int),
{
    let aa = abs_u64(a);
    let ab = abs_u64(b);
    let ad = abs_u64(d);
    assert(aa * ab <= 0x4000_0000_0000_0000) by (nonlinear_arith)
        requires
            aa <= 0x8000_0000,
            ab <= 0x8000_0000,
    ;
    assert(abs(a * b) == aa * ab) by (nonlinear_arith)
        requires
            aa == abs(a as int),
            ab == abs(b as int),
    ;
    let q: u64 = (aa * ab) / ad;
    let product_negative = (a < 0) != (b < 0);
    if q == 0 {
        0
    } else {
        assert((a * b < 0) == product_negative) by (nonlinear_arith)
            requires
                aa * ab != 0,
                aa == abs(a as int),
                ab == abs(b as int),
                product_negative == ((a < 0) != (b < 0)),
        ;
        if product_negative == (d < 0) {
            q as i32
        } else {
            (-(q as i64)) as i32
        }
    }
}

impl Vector2 {
    /// Length one vector in the positive x direction.
    pub fn right() -> (r: Vector2)
        ensures
            r.x == UNIT && r.y == 0,
    {
        Vector2 { x: UNIT, y: 0 }
    }

    /// Length one vector in the positive y direction.
    pub fn up() -> (r: Vector2)
        ensures
            r.x == 0 && r.y == UNIT,
    {
        Vector2 { x: 0, y: UNIT }
    }

    /// Vector whose components are both zero.
    pub fn zero() -> (r: Vector2)
        ensures
            r.x == 0 && r.y == 0,
    {
        Vector2 { x: 0, y: 0 }
    }

    /// The squared length, in squared steps.
    pub open spec fn len_sq(self) -> int {
        self.x * self.x + self.y * self.y
    }

    /// The length, in steps, rounded down.
    pub open spec fn spec_length(self) -> int {
        isqrt(self.len_sq())
    }

    /// Whether both components are zero.
    pub open spec fn is_zero(self) -> bool {
        self.x == 0 && self.y == 0
    }

    /// The same direction at length `UNIT`: each component times
    /// `UNIT * UNIT`, divided by the length scaled by `UNIT` (rounded down),
    /// truncated toward zero. The zero vector stays zero.
    pub open spec fn spec_normalize(self) -> Vector2 {
        if self.is_zero() {
            self
        } else {
            let l = isqrt(self.len_sq() * (UNIT * UNIT));
            Vector2 {
                x: div_trunc(self.x * (UNIT * UNIT), l) as i32,
                y: div_trunc(self.y * (UNIT * UNIT), l) as i32,
            }
        }
    }

    /// Returns a vector with the given components.
    pub fn new(x: i32, y: i32) -> (r: Vector2)
        ensures
            r.x == x,
            r.y == y,
    {
        Vector2 { x, y }
    }

    /// Component-wise sum.
    pub fn add(self, rhs: Vector2) -> (r: Vector2)
        requires
            fits_i32(self.x + rhs.x),
            fits_i32(self.y + rhs.y),
        ensures
            r.x == self.x + rhs.x,
            r.y == self.y + rhs.y,
    {
        Vector2 { x: self.x + rhs.x, y: self.y + rhs.y }
    }

    /// Adds `rhs` in place.
    pub fn add_assign(&mut self, rhs: Vector2)
        requires
            fits_i32(old(self).x + rhs.x),
            fits_i32(old(self).y + rhs.y),
        ensures
            final(self).x == old(self).x + rhs.x,
            final(self).y == old(self).y + rhs.y,
    {
        *self = self.add(rhs);
    }

    /// Component-wise difference.
    pub fn sub(self, rhs: Vector2) -> (r: Vector2)
        requires
            fits_i32(self.x - rhs.x),
            fits_i32(self.y - rhs.y),
        ensures
            r.x == self.x - rhs.x,
            r.y == self.y - rhs.y,
    {
        Vector2 { x: self.x - rhs.x, y: self.y - rhs.y }
    }

    /// Subtracts `rhs` in place.
    pub fn sub_assign(&mut self, rhs: Vector2)
        requires
            fits_i32(old(self).x - rhs.x),
            fits_i32(old(self).y - rhs.y),
        ensures
            final(self).x == old(self).x - rhs.x,
            final(self).y == old(self).y - rhs.y,
    {
        *self = self.sub(rhs);
    }

    /// Scales by the fixed-point factor `k / UNIT`, truncating each
    /// component toward zero.
    pub fn mul(self, k: i32) -> (r: Vector2)
        requires
            fits_i32(div_trunc(self.x * k, UNIT as int)),
            fits_i32(div_trunc(self.y * k, UNIT as int)),
        ensures
            r.x == div_trunc(self.x * k, UNIT as int),
            r.y == div_trunc(self.y * k, UNIT as int),
    {
        Vector2 { x: mul_div_trunc(self.x, k, UNIT), y: mul_div_trunc(self.y, k, UNIT) }
    }

    /// Scales in place by the fixed-point factor `k / UNIT`.
    pub fn mul_assign(&mut self, k: i32)
        requires
            fits_i32(div_trunc(old(self).x * k, UNIT as int)),
            fits_i32(div_trunc(old(self).y * k, UNIT as int)),
        ensures
            final(self).x == div_trunc(old(self).x * k, UNIT as int),
            final(self).y == div_trunc(old(self).y * k, UNIT as int),
    {
        *self = self.mul(k);
    }

    /// Divides by the fixed-point factor `k / UNIT`, truncating each
    /// component toward zero.
    pub fn div(self, k: i32) -> (r: Vector2)
        requires
            k != 0,
            fits_i32(div_trunc(self.x * UNIT, k as int)),
            fits_i32(div_trunc(self.y * UNIT, k as int)),
        ensures
            r.x == div_trunc(self.x * UNIT, k as int),
            r.y == div_trunc(self.y * UNIT, k as int),
    {
        Vector2 { x: mul_div_trunc(self.x, UNIT, k), y: mul_div_trunc(self.y, UNIT, k) }
    }

    /// Divides in place by the fixed-point factor `k / UNIT`.
    pub fn div_assign(&mut self, k: i32)
        requires
            k != 0,
            fits_i32(div_trunc(old(self).x * UNIT, k as int)),
            fits_i32(div_trunc(old(self).y * UNIT, k as int)),
        ensures
            final(self).x == div_trunc(old(self).x * UNIT, k as int),
            final(self).y == div_trunc(old(self).y * UNIT, k as int),
    {
        *self = self.div(k);
    }

    /// Returns a vector of the same direction and length `UNIT` (up to
    /// rounding); the zero vector is returned unchanged.
    pub fn normalize(self) -> (r: Vector2)
        ensures
            r == self.spec_normalize(),
    {
        if self.x == 0 && self.y == 0 {
            return self;
        }
        let ax = abs_u64(self.x);
        let ay = abs_u64(self.y);
        assert(ax * ax <= 0x4000_0000_0000_0000 && ay * ay <= 0x4000_0000_0000_0000)
            by (nonlinear_arith)
            requires
                ax <= 0x8000_0000,
                ay <= 0x8000_0000,
        ;
        let t: u128 = ((ax * ax + ay * ay) as u128) * 1_000_000;
        let l = isqrt_u128(t);
        proof {
            assert(self.len_sq() * (UNIT * UNIT) == t) by (nonlinear_arith)
                requires
                    ax == abs(self.x as int),
                    ay == abs(self.y as int),
                    t == (ax * ax + ay * ay) * 1_000_000,
            ;
            lemma_isqrt_is(t as int, l as int);
            assert(ax * 1000 <= l && ay * 1000 <= l && l >= 1) by (nonlinear_arith)
                requires
                    t == (ax * ax + ay * ay) * 1_000_000,
                    t < (l + 1) * (l + 1),
                    ax != 0 || ay != 0,
                    0 <= l,
            ;
        }
        let nx: u128 = (ax as u128 * 1_000_000) / l;
        let ny: u128 = (ay as u128 * 1_000_000) / l;
        proof {
            lemma_div_bounds(ax * 1_000_000, l as int);
            lemma_div_bounds(ay * 1_000_000, l as int);
            assert(nx <= 1000 && ny <= 1000) by (nonlinear_arith)
                requires
                    nx * l <= ax * 1_000_000,
                    ny * l <= ay * 1_000_000,
                    ax * 1000 <= l,
                    ay * 1000 <= l,
                    l >= 1,
            ;
            assert(abs(self.x * (UNIT * UNIT)) == ax * 1_000_000 && (self.x * (UNIT * UNIT) < 0)
                == (self.x < 0)) by (nonlinear_arith)
                requires
                    ax == abs(self.x as int),
            ;
            assert(abs(self.y * (UNIT * UNIT)) == ay * 1_000_000 && (self.y * (UNIT * UNIT) < 0)
                == (self.y < 0)) by (nonlinear_arith)
                requires
                    ay == abs(self.y as int),
            ;
        }
        let rx: i32 = if self.x < 0 {
            -(nx as i32)
        } else {
            nx as i32
        };
        let ry: i32 = if self.y < 0 {
            -(ny as i32)
        } else {
            ny as i32
        };
        Vector2 { x: rx, y: ry }
    }

    /// Returns the length, in steps, rounded down.
    pub fn length(self) -> (r: u32)
        ensures
            r == self.spec_length(),
            is_isqrt(self.len_sq(), r as int),
    {
        let ax = abs_u64(self.x);
        let ay = abs_u64(self.y);
        assert(ax * ax <= 0x4000_0000_0000_0000 && ay * ay <= 0x4000_0000_0000_0000)
            by (nonlinear_arith)
            requires
                ax <= 0x8000_0000,
                ay <= 0x8000_0000,
        ;
        assert(self.len_sq() == ax * ax + ay * ay) by (nonlinear_arith)
            requires
                ax == abs(self.x as int),
                ay == abs(self.y as int),
        ;
        let n: u128 = (ax * ax + ay * ay) as u128;
        let r = isqrt_u128(n);
        assert(r < 0x1_0000_0000) by (nonlinear_arith)
            requires
                r * r <= n,
                n <= 0x8000_0000_0000_0000,
        ;
        proof {
            lemma_isqrt_is(self.len_sq(), r as int);
        }
        r as u32
    }
}

} // verus!
