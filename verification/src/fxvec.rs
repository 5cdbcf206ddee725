//! Fixed-point 3D vectors and the integer arithmetic the simulation runs on.
//!
//! One world unit is `SCALE` (1000) ticks of an `i64`, so a coordinate of
//! `1500` means one and a half units. Squared lengths and intermediate
//! products are computed in `i128`, divisions truncate toward zero (`tdiv`),
//! and square roots round down (`spec_isqrt`). All bounds below are machine
//! limits that keep every intermediate product inside `i128`.

use vstd::prelude::*;

verus! {

use vstd::arithmetic::div_mod::{
    lemma_fundamental_div_mod,
    lemma_div_pos_is_pos,
    lemma_div_nonincreasing,
    lemma_mod_bound,
};

/// Fixed-point ticks per world unit.
pub const SCALE: i64 = 1000;

/// Largest coordinate magnitude the simulation box admits.
pub const MAX_POS: i64 = 4_000_000;

/// Largest velocity component magnitude (ticks per second).
pub const MAX_VEL: i64 = 1_000_000;

/// Largest body radius.
pub const MAX_RADIUS: i64 = 512_000;

/// Largest body mass: `MAX_RADIUS` cubed.
pub const MAX_MASS: i64 = 134_217_728_000_000_000;

/// Division truncated toward zero, the rounding used by every fixed-point
/// division in the simulation (spec `/` on `int` rounds toward minus
/// infinity instead).
pub open spec fn tdiv(n: int, d: int) -> int {
    if n >= 0 {
        n / d
    } else {
        -((-n) / d)
    }
}

/// `tdiv` leaves a remainder smaller than the divisor and on the same side
/// of zero as the dividend.
pub proof fn lemma_tdiv(n: int, d: int)
    requires
        d > 0,
    ensures
        n >= 0 ==> tdiv(n, d) >= 0 && 0 <= n - tdiv(n, d) * d < d,
        n < 0 ==> tdiv(n, d) <= 0 && -d < n - tdiv(n, d) * d <= 0,
{
    if n >= 0 {
        lemma_fundamental_div_mod(n, d);
        lemma_mod_bound(n, d);
        lemma_div_pos_is_pos(n, d);
    } else {
        let m = -n;
        lemma_fundamental_div_mod(m, d);
        lemma_mod_bound(m, d);
        lemma_div_pos_is_pos(m, d);
        assert(tdiv(n, d) <= 0 && -d < n - tdiv(n, d) * d <= 0) by (nonlinear_arith)
            requires
                d > 0,
                n == -m,
                tdiv(n, d) == -(m / d),
                m / d >= 0,
                m == d * (m / d) + m % d,
                0 <= m % d < d,
        ;
    }
}

/// A quotient is never larger in magnitude than its dividend.
pub proof fn lemma_tdiv_abs_le(n: int, d: int)
    requires
        d > 0,
    ensures
        -abs_i(n) <= tdiv(n, d) <= abs_i(n),
{
    if n >= 0 {
        lemma_div_nonincreasing(n, d);
        lemma_div_pos_is_pos(n, d);
    } else {
        lemma_div_nonincreasing(-n, d);
        lemma_div_pos_is_pos(-n, d);
    }
}

/// If the dividend is at most `k` divisors, the quotient is at most `k`.
pub proof fn lemma_tdiv_le(n: int, d: int, k: int)
    requires
        d > 0,
        k >= 0,
        -k * d <= n <= k * d,
    ensures
        -k <= tdiv(n, d) <= k,
{
    lemma_tdiv(n, d);
    let q = tdiv(n, d);
    let r = n - q * d;
    assert(-k <= q <= k) by (nonlinear_arith)
        requires
            d > 0,
            k >= 0,
            -k * d <= n <= k * d,
            n == q * d + r,
            -d < r < d,
    ;
}

/// Magnitude of an integer.
pub open spec fn abs_i(n: int) -> int {
    if n >= 0 {
        n
    } else {
        -n
    }
}

/// A product of two factors bounded by `k` is bounded by `k * k`.
pub proof fn lemma_mul_abs_bound(a: int, b: int, k: int)
    by (nonlinear_arith)
    requires
        -k <= a <= k,
        -k <= b <= k,
        0 <= k,
    ensures
        -(k * k) <= a * b <= k * k,
{
}

/// A product of factors bounded by `ka` and `kb` is bounded by `ka * kb`.
pub proof fn lemma_mul_abs_bound2(a: int, b: int, ka: int, kb: int)
    by (nonlinear_arith)
    requires
        -ka <= a <= ka,
        -kb <= b <= kb,
        0 <= ka,
        0 <= kb,
    ensures
        -(ka * kb) <= a * b <= ka * kb,
{
}

/// One factor bounded by `k` bounds the product by `k` magnitudes of the
/// other.
pub proof fn lemma_mul_abs_factor(u: int, v: int, k: int)
    by (nonlinear_arith)
    requires
        -k <= u <= k,
        0 <= k,
    ensures
        -(k * abs_i(v)) <= u * v <= k * abs_i(v),
{
}

/// The coordinate sum of magnitudes of a vector is below twice its length
/// plus one: `(|x| + |y| + |z|)^2 <= 3 * (x^2 + y^2 + z^2)`.
pub proof fn lemma_sum_abs_le(x: int, y: int, z: int, d: int)
    requires
        0 <= d,
        x * x + y * y + z * z < (d + 1) * (d + 1),
    ensures
        abs_i(x) + abs_i(y) + abs_i(z) <= 2 * d + 1,
        abs_i(x) <= d,
        abs_i(y) <= d,
        abs_i(z) <= d,
{
    let s = abs_i(x) + abs_i(y) + abs_i(z);
    assert(s * s <= 3 * (x * x + y * y + z * z)) by (nonlinear_arith)
        requires
            s == abs_i(x) + abs_i(y) + abs_i(z),
    ;
    assert(s <= 2 * d + 1) by (nonlinear_arith)
        requires
            0 <= d,
            0 <= s,
            s * s <= 3 * (x * x + y * y + z * z),
            x * x + y * y + z * z < (d + 1) * (d + 1),
    ;
    assert(x * x <= x * x + y * y + z * z && y * y <= x * x + y * y + z * z && z * z <= x * x + y
        * y + z * z) by (nonlinear_arith);
    assert(abs_i(x) <= d && abs_i(y) <= d && abs_i(z) <= d) by (nonlinear_arith)
        requires
            0 <= d,
            x * x < (d + 1) * (d + 1),
            y * y < (d + 1) * (d + 1),
            z * z < (d + 1) * (d + 1),
    ;
}

/// Truncated-toward-zero division on machine integers.
pub fn div_trunc(n: i128, d: i128) -> (q: i128)
    requires
        d > 0,
        n > i128::MIN,
    ensures
        q == tdiv(n as int, d as int),
{
    let neg = n < 0;
    let mag: u128 = if neg {
        (-n) as u128
    } else {
        n as u128
    };
    let qu: u128 = mag / (d as u128);
    proof {
        lemma_div_nonincreasing(mag as int, d as int);
        lemma_div_pos_is_pos(mag as int, d as int);
    }
    if neg {
        -(qu as i128)
    } else {
        qu as i128
    }
}

/// The floor of the square root: the unique `r >= 0` with
/// `r * r <= n < (r + 1) * (r + 1)`.
pub open spec fn spec_isqrt(n: int) -> int {
    choose|r: int| 0 <= r && #[trigger] (r * r) <= n && n < (r + 1) * (r + 1)
}

/// Two integers that both floor the square root of `n` are equal.
proof fn lemma_isqrt_unique(n: int, r1: int, r2: int)
    by (nonlinear_arith)
    requires
        0 <= r1 && r1 * r1 <= n && n < (r1 + 1) * (r1 + 1),
        0 <= r2 && r2 * r2 <= n && n < (r2 + 1) * (r2 + 1),
    ensures
        r1 == r2,
{
}

/// Every non-negative integer has a square-root floor, so `spec_isqrt` is
/// well defined.
pub proof fn lemma_isqrt_props(n: int)
    requires
        n >= 0,
    ensures
        0 <= spec_isqrt(n),
        spec_isqrt(n) * spec_isqrt(n) <= n,
        n < (spec_isqrt(n) + 1) * (spec_isqrt(n) + 1),
    decreases n,
{
    if n == 0 {
        assert(0 <= 0 && #[trigger] (0int * 0int) <= n && n < (0int + 1) * (0int + 1))
            by (nonlinear_arith)
            requires
                n == 0,
        ;
    } else {
        lemma_isqrt_props(n - 1);
        let r = spec_isqrt(n - 1);
        if n == (r + 1) * (r + 1) {
            let w = r + 1;
            assert(0 <= w && #[trigger] (w * w) <= n && n < (w + 1) * (w + 1)) by (nonlinear_arith)
                requires
                    w == r + 1,
                    0 <= r,
                    n == (r + 1) * (r + 1),
            ;
        } else {
            assert(0 <= r && #[trigger] (r * r) <= n && n < (r + 1) * (r + 1));
        }
        assert(exists|rr: int| 0 <= rr && #[trigger] (rr * rr) <= n && n < (rr + 1) * (rr + 1));
    }
}

/// Integer square root by bisection.
pub fn isqrt(n: i128) -> (r: i64)
    requires
        0 <= n <= 4_000_000_000_000_000_000_000_000_000_000,
    ensures
        0 <= r,
        r * r <= n < (r + 1) * (r + 1),
        r == spec_isqrt(n as int),
{
    let mut lo: i128 = 0;
    let mut hi: i128 = 2_000_000_000_000_000;
    proof {
        assert((hi + 1) * (hi + 1) > n) by (nonlinear_arith)
            requires
                hi == 2_000_000_000_000_000,
                n <= 4_000_000_000_000_000_000_000_000_000_000,
        ;
    }
    while lo < hi
        invariant
            0 <= lo <= hi <= 2_000_000_000_000_000,
            lo * lo <= n,
            n < (hi + 1) * (hi + 1),
        decreases hi - lo,
    {
        let mid = lo + (hi - lo + 1) / 2;
        proof {
            lemma_mul_abs_bound(mid as int, mid as int, 2_000_000_000_000_000);
        }
        if mid * mid <= n {
            lo = mid;
        } else {
            hi = mid - 1;
        }
    }
    let r = lo as i64;
    proof {
        let w = lo as int;
        assert(0 <= w && w * w <= n && n < (w + 1) * (w + 1));
        assert(exists|rr: int| 0 <= rr && #[trigger] (rr * rr) <= n && n < (rr + 1) * (rr + 1));
        lemma_isqrt_unique(n as int, r as int, spec_isqrt(n as int));
    }
    r
}

/// A square grows by at most `2 * |v| * t + t^2` when its base moves by
/// less than `t`.
pub proof fn lemma_sq_upper(u: int, v: int, sv: int, t: int)
    by (nonlinear_arith)
    requires
        -t < u - v < t,
        -sv <= v <= sv,
        0 <= sv,
        0 <= t,
    ensures
        u * u <= v * v + 2 * sv * t + t * t,
{
}

/// A square shrinks by at most `2 * |v| * t` when its base moves by less
/// than `t`.
pub proof fn lemma_sq_lower_by(u: int, v: int, sv: int, t: int)
    by (nonlinear_arith)
    requires
        -t < u - v < t,
        -sv <= v <= sv,
        0 <= sv,
        0 <= t,
    ensures
        u * u >= v * v - 2 * sv * t,
{
}

/// A fixed-point vector: three `i64` coordinates in `SCALE` ticks per unit.
#[derive(Clone, Copy, Debug, PartialEq, Eq, Structural)]
pub struct Vec3x {
    pub x: i64,
    pub y: i64,
    pub z: i64,
}

/// Every coordinate of `v` has magnitude at most `m`.
pub open spec fn in_box(v: Vec3x, m: int) -> bool {
    &&& -m <= v.x <= m
    &&& -m <= v.y <= m
    &&& -m <= v.z <= m
}

/// Dot product, exact over `int`.
pub open spec fn spec_dot(a: Vec3x, b: Vec3x) -> int {
    a.x * b.x + a.y * b.y + a.z * b.z
}

/// Squared Euclidean length, exact over `int`.
pub open spec fn spec_norm_sq(a: Vec3x) -> int {
    spec_dot(a, a)
}

/// A squared length is never negative.
pub proof fn lemma_norm_sq_nonneg(a: Vec3x)
    by (nonlinear_arith)
    ensures
        spec_norm_sq(a) >= 0,
{
}

/// The cross product of two vectors is perpendicular to both, written out
/// on raw components.
proof fn lemma_cross_perp(ax: int, ay: int, az: int, bx: int, by: int, bz: int)
    by (nonlinear_arith)
    ensures
        (ay * bz - az * by) * ax + (az * bx - ax * bz) * ay + (ax * by - ay * bx) * az == 0,
        (ay * bz - az * by) * bx + (az * bx - ax * bz) * by + (ax * by - ay * bx) * bz == 0,
{
}

impl Vec3x {
    /// The zero vector.
    pub fn zero() -> (r: Vec3x)
        ensures
            r == (Vec3x { x: 0, y: 0, z: 0 }),
    {
        Vec3x { x: 0, y: 0, z: 0 }
    }

    /// Componentwise sum.
    pub fn plus(self, o: Vec3x) -> (r: Vec3x)
        requires
            i64::MIN <= self.x + o.x <= i64::MAX,
            i64::MIN <= self.y + o.y <= i64::MAX,
            i64::MIN <= self.z + o.z <= i64::MAX,
        ensures
            r.x == self.x + o.x,
            r.y == self.y + o.y,
            r.z == self.z + o.z,
    {
        Vec3x { x: self.x + o.x, y: self.y + o.y, z: self.z + o.z }
    }

    /// Componentwise difference.
    pub fn minus(self, o: Vec3x) -> (r: Vec3x)
        requires
            i64::MIN <= self.x - o.x <= i64::MAX,
            i64::MIN <= self.y - o.y <= i64::MAX,
            i64::MIN <= self.z - o.z <= i64::MAX,
        ensures
            r.x == self.x - o.x,
            r.y == self.y - o.y,
            r.z == self.z - o.z,
    {
        Vec3x { x: self.x - o.x, y: self.y - o.y, z: self.z - o.z }
    }

    /// Componentwise negation.
    pub fn neg(self) -> (r: Vec3x)
        requires
            self.x > i64::MIN,
            self.y > i64::MIN,
            self.z > i64::MIN,
        ensures
            r.x == -self.x,
            r.y == -self.y,
            r.z == -self.z,
    {
        Vec3x { x: -self.x, y: -self.y, z: -self.z }
    }

    /// Dot product in `i128`.
    pub fn dot128(self, o: Vec3x) -> (r: i128)
        requires
            in_box(self, 1_000_000_000_000_000_000),
            in_box(o, 1_000_000_000_000_000_000),
        ensures
            r == spec_dot(self, o),
    {
        proof {
            lemma_mul_abs_bound(self.x as int, o.x as int, 1_000_000_000_000_000_000);
            lemma_mul_abs_bound(self.y as int, o.y as int, 1_000_000_000_000_000_000);
            lemma_mul_abs_bound(self.z as int, o.z as int, 1_000_000_000_000_000_000);
        }
        (self.x as i128) * (o.x as i128) + (self.y as i128) * (o.y as i128) + (self.z as i128)
            * (o.z as i128)
    }

    /// Squared length in `i128`.
    pub fn norm_sq128(self) -> (r: i128)
        requires
            in_box(self, 1_000_000_000_000_000_000),
        ensures
            r == spec_norm_sq(self),
            r >= 0,
    {
        proof {
            lemma_norm_sq_nonneg(self);
        }
        self.dot128(self)
    }

    /// Cross product; exactly perpendicular to both factors.
    pub fn cross(self, o: Vec3x) -> (r: Vec3x)
        requires
            in_box(self, 1_000_000_000),
            in_box(o, 1_000_000_000),
        ensures
            r.x == self.y * o.z - self.z * o.y,
            r.y == self.z * o.x - self.x * o.z,
            r.z == self.x * o.y - self.y * o.x,
            spec_dot(r, self) == 0,
            spec_dot(r, o) == 0,
    {
        proof {
            lemma_mul_abs_bound(self.x as int, o.y as int, 1_000_000_000);
            lemma_mul_abs_bound(self.x as int, o.z as int, 1_000_000_000);
            lemma_mul_abs_bound(self.y as int, o.x as int, 1_000_000_000);
            lemma_mul_abs_bound(self.y as int, o.z as int, 1_000_000_000);
            lemma_mul_abs_bound(self.z as int, o.x as int, 1_000_000_000);
            lemma_mul_abs_bound(self.z as int, o.y as int, 1_000_000_000);
        }
        let r = Vec3x {
            x: self.y * o.z - self.z * o.y,
            y: self.z * o.x - self.x * o.z,
            z: self.x * o.y - self.y * o.x,
        };
        proof {
            lemma_cross_perp(
                self.x as int,
                self.y as int,
                self.z as int,
                o.x as int,
                o.y as int,
                o.z as int,
            );
        }
        r
    }

    /// Each component scaled by `num / den`, truncated toward zero.
    pub fn scale_ratio(self, num: i64, den: i64) -> (r: Vec3x)
        requires
            0 < den,
            in_box(self, 2_000_000_000),
            -2_000_000_000 <= num <= 2_000_000_000,
        ensures
            r.x == tdiv(self.x * num, den as int),
            r.y == tdiv(self.y * num, den as int),
            r.z == tdiv(self.z * num, den as int),
    {
        proof {
            lemma_mul_abs_bound(self.x as int, num as int, 2_000_000_000);
            lemma_mul_abs_bound(self.y as int, num as int, 2_000_000_000);
            lemma_mul_abs_bound(self.z as int, num as int, 2_000_000_000);
            lemma_tdiv_abs_le(self.x * num, den as int);
            lemma_tdiv_abs_le(self.y * num, den as int);
            lemma_tdiv_abs_le(self.z * num, den as int);
        }
        let qx = div_trunc((self.x as i128) * (num as i128), den as i128);
        let qy = div_trunc((self.y as i128) * (num as i128), den as i128);
        let qz = div_trunc((self.z as i128) * (num as i128), den as i128);
        Vec3x { x: qx as i64, y: qy as i64, z: qz as i64 }
    }
}

/// Lagrange's identity: the squared length of a cross product is the
/// product of the squared lengths minus the squared dot product.
pub proof fn lemma_lagrange_cross(ax: int, ay: int, az: int, bx: int, by: int, bz: int)
    ensures
        (ay * bz - az * by) * (ay * bz - az * by) + (az * bx - ax * bz) * (az * bx - ax * bz) + (ax
            * by - ay * bx) * (ax * by - ay * bx) == (ax * ax + ay * ay + az * az) * (bx * bx + by
            * by + bz * bz) - (ax * bx + ay * by + az * bz) * (ax * bx + ay * by + az * bz),
{
    // squared coordinates and mixed pair products, the shared vocabulary
    // of both sides
    let sax = ax * ax;
    let say = ay * ay;
    let saz = az * az;
    let sbx = bx * bx;
    let sby = by * by;
    let sbz = bz * bz;
    let qxy = (ax * ay) * (bx * by);
    let qxz = (ax * az) * (bx * bz);
    let qyz = (ay * az) * (by * bz);
    // each cross component squared
    let ux = ay * bz;
    let vx = az * by;
    assert((ux - vx) * (ux - vx) == ux * ux - 2 * (ux * vx) + vx * vx) by (nonlinear_arith);
    assert(ux * ux == say * sbz) by (nonlinear_arith)
        requires
            ux == ay * bz,
            say == ay * ay,
            sbz == bz * bz,
    ;
    assert(vx * vx == saz * sby) by (nonlinear_arith)
        requires
            vx == az * by,
            saz == az * az,
            sby == by * by,
    ;
    assert(ux * vx == qyz) by (nonlinear_arith)
        requires
            ux == ay * bz,
            vx == az * by,
            qyz == (ay * az) * (by * bz),
    ;
    let uy = az * bx;
    let vy = ax * bz;
    assert((uy - vy) * (uy - vy) == uy * uy - 2 * (uy * vy) + vy * vy) by (nonlinear_arith);
    assert(uy * uy == saz * sbx) by (nonlinear_arith)
        requires
            uy == az * bx,
            saz == az * az,
            sbx == bx * bx,
    ;
    assert(vy * vy == sax * sbz) by (nonlinear_arith)
        requires
            vy == ax * bz,
            sax == ax * ax,
            sbz == bz * bz,
    ;
    assert(uy * vy == qxz) by (nonlinear_arith)
        requires
            uy == az * bx,
            vy == ax * bz,
            qxz == (ax * az) * (bx * bz),
    ;
    let uz = ax * by;
    let vz = ay * bx;
    assert((uz - vz) * (uz - vz) == uz * uz - 2 * (uz * vz) + vz * vz) by (nonlinear_arith);
    assert(uz * uz == sax * sby) by (nonlinear_arith)
        requires
            uz == ax * by,
            sax == ax * ax,
            sby == by * by,
    ;
    assert(vz * vz == say * sbx) by (nonlinear_arith)
        requires
            vz == ay * bx,
            say == ay * ay,
            sbx == bx * bx,
    ;
    assert(uz * vz == qxy) by (nonlinear_arith)
        requires
            uz == ax * by,
            vz == ay * bx,
            qxy == (ax * ay) * (bx * by),
    ;
    // the product of the squared lengths, distributed over the vocabulary
    assert((sax + say + saz) * (sbx + sby + sbz) == sax * sbx + sax * sby + sax * sbz + say * sbx
        + say * sby + say * sbz + saz * sbx + saz * sby + saz * sbz) by (nonlinear_arith);
    // the squared dot product, distributed over the same vocabulary
    let px = ax * bx;
    let py = ay * by;
    let pz = az * bz;
    assert((px + py + pz) * (px + py + pz) == px * px + py * py + pz * pz + 2 * (px * py) + 2 * (px
        * pz) + 2 * (py * pz)) by (nonlinear_arith);
    assert(px * px == sax * sbx) by (nonlinear_arith)
        requires
            px == ax * bx,
            sax == ax * ax,
            sbx == bx * bx,
    ;
    assert(py * py == say * sby) by (nonlinear_arith)
        requires
            py == ay * by,
            say == ay * ay,
            sby == by * by,
    ;
    assert(pz * pz == saz * sbz) by (nonlinear_arith)
        requires
            pz == az * bz,
            saz == az * az,
            sbz == bz * bz,
    ;
    assert(px * py == qxy) by (nonlinear_arith)
        requires
            px == ax * bx,
            py == ay * by,
            qxy == (ax * ay) * (bx * by),
    ;
    assert(px * pz == qxz) by (nonlinear_arith)
        requires
            px == ax * bx,
            pz == az * bz,
            qxz == (ax * az) * (bx * bz),
    ;
    assert(py * pz == qyz) by (nonlinear_arith)
        requires
            py == ay * by,
            pz == az * bz,
            qyz == (ay * az) * (by * bz),
    ;
}

/// Rounding a vector to unit length moves its dot product with any other
/// vector by less than the coordinate sum of that vector's magnitudes:
/// here, for a vector `v0` exactly perpendicular to `w`, the normalized
/// `r` stays almost perpendicular.
pub proof fn lemma_normalized_dot(v0: Vec3x, r: Vec3x, w: Vec3x, d: int)
    requires
        d >= 1,
        r.x == tdiv(v0.x * 1000, d),
        r.y == tdiv(v0.y * 1000, d),
        r.z == tdiv(v0.z * 1000, d),
        spec_dot(v0, w) == 0,
    ensures
        -(abs_i(w.x as int) + abs_i(w.y as int) + abs_i(w.z as int)) <= spec_dot(r, w) <= abs_i(
            w.x as int,
        ) + abs_i(w.y as int) + abs_i(w.z as int),
{
    lemma_tdiv(v0.x * 1000, d);
    lemma_tdiv(v0.y * 1000, d);
    lemma_tdiv(v0.z * 1000, d);
    let ex = v0.x * 1000 - r.x * d;
    let ey = v0.y * 1000 - r.y * d;
    let ez = v0.z * 1000 - r.z * d;
    assert(-d < ex < d && -d < ey < d && -d < ez < d);
    assert(d * (r.x * w.x) == 1000 * (v0.x * w.x) - ex * w.x) by (nonlinear_arith)
        requires
            ex == v0.x * 1000 - r.x * d,
    ;
    assert(d * (r.y * w.y) == 1000 * (v0.y * w.y) - ey * w.y) by (nonlinear_arith)
        requires
            ey == v0.y * 1000 - r.y * d,
    ;
    assert(d * (r.z * w.z) == 1000 * (v0.z * w.z) - ez * w.z) by (nonlinear_arith)
        requires
            ez == v0.z * 1000 - r.z * d,
    ;
    assert(d * (r.x * w.x + r.y * w.y + r.z * w.z) == d * (r.x * w.x) + d * (r.y * w.y) + d * (r.z
        * w.z)) by (nonlinear_arith);
    lemma_mul_abs_factor(ex, w.x as int, d);
    lemma_mul_abs_factor(ey, w.y as int, d);
    lemma_mul_abs_factor(ez, w.z as int, d);
    let s = abs_i(w.x as int) + abs_i(w.y as int) + abs_i(w.z as int);
    assert(-(d * s) <= ex * w.x + ey * w.y + ez * w.z <= d * s) by (nonlinear_arith)
        requires
            s == abs_i(w.x as int) + abs_i(w.y as int) + abs_i(w.z as int),
            -(d * abs_i(w.x as int)) <= ex * w.x <= d * abs_i(w.x as int),
            -(d * abs_i(w.y as int)) <= ey * w.y <= d * abs_i(w.y as int),
            -(d * abs_i(w.z as int)) <= ez * w.z <= d * abs_i(w.z as int),
    ;
    assert(-s <= spec_dot(r, w) <= s) by (nonlinear_arith)
        requires
            d >= 1,
            s >= 0,
            d * spec_dot(r, w) == 0 - (ex * w.x + ey * w.y + ez * w.z),
            -(d * s) <= ex * w.x + ey * w.y + ez * w.z <= d * s,
    ;
}

/// A vector almost perpendicular to a rounded unit direction is almost
/// perpendicular to the direction's source: here `fw` is the rounded unit
/// vector of `travel` (length `dt`), and `u` keeps a dot product with
/// `travel` below seven times that length.
pub proof fn lemma_dot_chain(travel: Vec3x, fw: Vec3x, u: Vec3x, dt: int)
    requires
        dt >= 1,
        fw.x == tdiv(travel.x * 1000, dt),
        fw.y == tdiv(travel.y * 1000, dt),
        fw.z == tdiv(travel.z * 1000, dt),
        in_box(u, 1_006),
        -3018 <= spec_dot(u, fw) <= 3018,
    ensures
        -(7 * dt) <= spec_dot(u, travel) <= 7 * dt,
{
    lemma_tdiv(travel.x * 1000, dt);
    lemma_tdiv(travel.y * 1000, dt);
    lemma_tdiv(travel.z * 1000, dt);
    let ex = travel.x * 1000 - fw.x * dt;
    let ey = travel.y * 1000 - fw.y * dt;
    let ez = travel.z * 1000 - fw.z * dt;
    assert(-dt < ex < dt && -dt < ey < dt && -dt < ez < dt);
    assert(1000 * (u.x * travel.x) == dt * (u.x * fw.x) + u.x * ex) by (nonlinear_arith)
        requires
            ex == travel.x * 1000 - fw.x * dt,
    ;
    assert(1000 * (u.y * travel.y) == dt * (u.y * fw.y) + u.y * ey) by (nonlinear_arith)
        requires
            ey == travel.y * 1000 - fw.y * dt,
    ;
    assert(1000 * (u.z * travel.z) == dt * (u.z * fw.z) + u.z * ez) by (nonlinear_arith)
        requires
            ez == travel.z * 1000 - fw.z * dt,
    ;
    assert(dt * (u.x * fw.x + u.y * fw.y + u.z * fw.z) == dt * (u.x * fw.x) + dt * (u.y * fw.y)
        + dt * (u.z * fw.z)) by (nonlinear_arith);
    lemma_mul_abs_bound2(u.x as int, ex, 1_006, dt);
    lemma_mul_abs_bound2(u.y as int, ey, 1_006, dt);
    lemma_mul_abs_bound2(u.z as int, ez, 1_006, dt);
    assert(-(7 * dt) <= spec_dot(u, travel) <= 7 * dt) by (nonlinear_arith)
        requires
            dt >= 1,
            1000 * spec_dot(u, travel) == dt * spec_dot(u, fw) + (u.x * ex + u.y * ey + u.z * ez),
            -3018 <= spec_dot(u, fw) <= 3018,
            -(1_006 * dt) <= u.x * ex <= 1_006 * dt,
            -(1_006 * dt) <= u.y * ey <= 1_006 * dt,
            -(1_006 * dt) <= u.z * ez <= 1_006 * dt,
    ;
}

/// Clamps a coordinate into `[-m, m]`.
pub fn clamp_coord(x: i64, m: i64) -> (r: i64)
    requires
        0 <= m,
    ensures
        r == spec_clamp(x as int, m as int),
        -m <= r <= m,
{
    if x < -m {
        -m
    } else if x > m {
        m
    } else {
        x
    }
}

/// The clamp of `x` into `[-m, m]`.
pub open spec fn spec_clamp(x: int, m: int) -> int {
    if x < -m {
        -m
    } else if x > m {
        m
    } else {
        x
    }
}

impl Vec3x {
    /// Clamps every coordinate into `[-m, m]`.
    pub fn clamp_box(self, m: i64) -> (r: Vec3x)
        requires
            0 <= m,
        ensures
            r.x == spec_clamp(self.x as int, m as int),
            r.y == spec_clamp(self.y as int, m as int),
            r.z == spec_clamp(self.z as int, m as int),
            in_box(r, m as int),
    {
        Vec3x {
            x: clamp_coord(self.x, m),
            y: clamp_coord(self.y, m),
            z: clamp_coord(self.z, m),
        }
    }
}

/// Scales a vector of at least half a unit's length to (almost) unit
/// length, `SCALE` ticks: each component becomes `v_i * 1000 / |v|` with
/// `|v|` rounded down, so the squared length lands within about one percent
/// of `SCALE^2`.
pub fn normalize_milli(v: Vec3x) -> (r: Vec3x)
    requires
        in_box(v, 1_000_000_000),
        250_000 <= spec_norm_sq(v),
    ensures
        r.x == tdiv(v.x * 1000, spec_isqrt(spec_norm_sq(v))),
        r.y == tdiv(v.y * 1000, spec_isqrt(spec_norm_sq(v))),
        r.z == tdiv(v.z * 1000, spec_isqrt(spec_norm_sq(v))),
        990_000 <= spec_norm_sq(r) <= 1_011_000,
        in_box(r, 1_006),
{
    let n2 = v.norm_sq128();
    proof {
        lemma_mul_abs_bound(v.x as int, v.x as int, 1_000_000_000);
        lemma_mul_abs_bound(v.y as int, v.y as int, 1_000_000_000);
        lemma_mul_abs_bound(v.z as int, v.z as int, 1_000_000_000);
    }
    let d = isqrt(n2);
    proof {
        assert(d >= 500) by (nonlinear_arith)
            requires
                n2 >= 250_000,
                n2 < ((d as int) + 1) * ((d as int) + 1),
                d >= 0,
        ;
        lemma_sum_abs_le(v.x as int, v.y as int, v.z as int, d as int);
    }
    let r = v.scale_ratio(1000, d);
    proof {
        let dd = d as int;
        let rem_x = v.x * 1000 - dd * r.x;
        let rem_y = v.y * 1000 - dd * r.y;
        let rem_z = v.z * 1000 - dd * r.z;
        lemma_tdiv(v.x * 1000, dd);
        lemma_tdiv(v.y * 1000, dd);
        lemma_tdiv(v.z * 1000, dd);
        assert(dd * r.x == r.x * dd && dd * r.y == r.y * dd && dd * r.z == r.z * dd)
            by (nonlinear_arith)
        ;
        assert(-dd < rem_x < dd && -dd < rem_y < dd && -dd < rem_z < dd);
        lemma_mul_abs_factor(1000, v.x as int, 1000);
        lemma_mul_abs_factor(1000, v.y as int, 1000);
        lemma_mul_abs_factor(1000, v.z as int, 1000);
        assert(v.x * 1000 == 1000 * (v.x as int) && v.y * 1000 == 1000 * (v.y as int) && v.z * 1000
            == 1000 * (v.z as int)) by (nonlinear_arith);
        assert(0 <= 1000 * abs_i(v.x as int) && 0 <= 1000 * abs_i(v.y as int) && 0 <= 1000 * abs_i(
        v.z as int)) by (nonlinear_arith)
            requires
                0 <= abs_i(v.x as int) && 0 <= abs_i(v.y as int) && 0 <= abs_i(v.z as int),
        ;
        lemma_sq_lower_by(dd * r.x, v.x * 1000, 1000 * abs_i(v.x as int), dd);
        lemma_sq_lower_by(dd * r.y, v.y * 1000, 1000 * abs_i(v.y as int), dd);
        lemma_sq_lower_by(dd * r.z, v.z * 1000, 1000 * abs_i(v.z as int), dd);
        lemma_sq_upper(dd * r.x, v.x * 1000, 1000 * abs_i(v.x as int), dd);
        lemma_sq_upper(dd * r.y, v.y * 1000, 1000 * abs_i(v.y as int), dd);
        lemma_sq_upper(dd * r.z, v.z * 1000, 1000 * abs_i(v.z as int), dd);
        // sum the three components
        let n2i = spec_norm_sq(v);
        let s_abs = abs_i(v.x as int) + abs_i(v.y as int) + abs_i(v.z as int);
        assert((v.x * 1000) * (v.x * 1000) + (v.y * 1000) * (v.y * 1000) + (v.z * 1000) * (v.z
            * 1000) == 1_000_000 * n2i) by (nonlinear_arith)
            requires
                n2i == v.x * v.x + v.y * v.y + v.z * v.z,
        ;
        assert(2 * (1000 * abs_i(v.x as int)) * dd + 2 * (1000 * abs_i(v.y as int)) * dd + 2 * (
        1000 * abs_i(v.z as int)) * dd == 2000 * dd * s_abs) by (nonlinear_arith)
            requires
                s_abs == abs_i(v.x as int) + abs_i(v.y as int) + abs_i(v.z as int),
        ;
        let rsum = r.x * r.x + r.y * r.y + r.z * r.z;
        assert((dd * r.x) * (dd * r.x) == (dd * dd) * (r.x * r.x) && (dd * r.y) * (dd * r.y) == (dd
            * dd) * (r.y * r.y) && (dd * r.z) * (dd * r.z) == (dd * dd) * (r.z * r.z))
            by (nonlinear_arith)
        ;
        assert((dd * dd) * (r.x * r.x) + (dd * dd) * (r.y * r.y) + (dd * dd) * (r.z * r.z) == (dd
            * dd) * rsum) by (nonlinear_arith)
            requires
                rsum == r.x * r.x + r.y * r.y + r.z * r.z,
        ;
        assert((dd * r.x) * (dd * r.x) + (dd * r.y) * (dd * r.y) + (dd * r.z) * (dd * r.z) == (dd
            * dd) * rsum);
        // lower bound: 10^6 * n2 - 2000 * d * s_abs >= 994_000 * d^2
        assert(1_000_000 * n2i - 2000 * dd * s_abs >= 990_000 * (dd * dd)) by (nonlinear_arith)
            requires
                dd >= 500,
                (dd * dd) <= n2i,
                0 <= s_abs <= 2 * dd + 1,
        ;
        // upper bound: 10^6 * n2 + 2000 * d * s_abs + 3 * d^2 <= 1_011_000 * d^2
        assert(1_000_000 * n2i + 2000 * dd * s_abs + 3 * (dd * dd) <= 1_011_000 * (dd * dd))
            by (nonlinear_arith)
            requires
                dd >= 500,
                n2i < (dd + 1) * (dd + 1),
                0 <= s_abs <= 2 * dd + 1,
        ;
        assert((dd * dd) * rsum >= 990_000 * (dd * dd) && (dd * dd) * rsum <= 1_011_000 * (dd
            * dd));
        assert(990_000 <= rsum <= 1_011_000) by (nonlinear_arith)
            requires
                dd >= 500,
                (dd * dd) * rsum >= 990_000 * (dd * dd),
                (dd * dd) * rsum <= 1_011_000 * (dd * dd),
        ;
        assert(r.x * r.x >= 0 && r.y * r.y >= 0 && r.z * r.z >= 0) by (nonlinear_arith);
        assert(-1_006 <= r.x <= 1_006 && -1_006 <= r.y <= 1_006 && -1_006 <= r.z <= 1_006)
            by (nonlinear_arith)
            requires
                r.x * r.x <= 1_011_000,
                r.y * r.y <= 1_011_000,
                r.z * r.z <= 1_011_000,
        ;
    }
    r
}

} // verus!
