//! Points and directions in three dimensions, and planar rotations.

use vstd::prelude::*;
use crate::fixed::{
    fits, fixed_mul, is_sqrt, isqrt, lemma_mul_bounds, lemma_sqrt_between, lemma_sqrt_exists,
    lemma_trunc_div_bounds, lemma_trunc_div_remainder, magnitude, mul_spec, quotient, sat,
    saturate, sqrt_floor, trunc_div, wide_mul, SCALE,
};

verus! {

/// A rotation in a plane, given by the cosine and the sine of its angle as
/// scalars. An angle need not have unit length: it then also scales.
#[derive(Copy, Clone, Debug, PartialEq, Eq, Structural)]
pub struct Angle {
    pub cos: i32,
    pub sin: i32,
}

/// A point in 3D space.
#[derive(Copy, Clone, Debug, PartialEq, Eq, Structural)]
pub struct Vec3d {
    pub x: i32,
    pub y: i32,
    pub z: i32,
}

/// The vector `(x, y, z)` divided by its length, which is rounded down to a
/// whole number of the units that the vector is given in. Meaningful unless
/// all three are zero.
pub open spec fn over_length(x: int, y: int, z: int) -> Vec3d {
    let len = sqrt_floor(x * x + y * y + z * z);
    Vec3d {
        x: sat(trunc_div(x * SCALE, len)),
        y: sat(trunc_div(y * SCALE, len)),
        z: sat(trunc_div(z * SCALE, len)),
    }
}

/// Whether none of the three exceeds 31 bits in magnitude.
pub open spec fn is_short(x: int, y: int, z: int) -> bool {
    &&& -0x8000_0000 <= x <= 0x8000_0000
    &&& -0x8000_0000 <= y <= 0x8000_0000
    &&& -0x8000_0000 <= z <= 0x8000_0000
}

/// The vector of length one in the direction `(x, y, z)`, which is given in
/// any scale. Meaningful unless all three are zero.
///
/// A short vector is magnified by 32 bits before it is divided by its
/// length, so that the rounding of the length does not tell.
pub open spec fn direction(x: int, y: int, z: int) -> Vec3d {
    if is_short(x, y, z) {
        over_length(x * 0x1_0000_0000, y * 0x1_0000_0000, z * 0x1_0000_0000)
    } else {
        over_length(x, y, z)
    }
}

/// One coordinate of a vector divided by its length `len`: `a` is the
/// coordinate, `u` what the division gives. Its square, taken `len * len`
/// times, lies between the bounds that the rounding of `u` allows.
proof fn lemma_coordinate_over_length(a: int, len: int, u: int)
    requires
        len > 0,
        -len <= a <= len,
        u == trunc_div(a * SCALE, len),
    ensures
        -SCALE <= u <= SCALE,
        len * len * (u * u) <= SCALE * SCALE * (a * a),
        len * len * (u * u) >= SCALE * SCALE * (a * a) - 2 * SCALE * len * len,
{
    let k: int = SCALE as int;
    let ma: int = magnitude(a);
    let mu: int = magnitude(u);
    let p: int = ma * k;
    lemma_trunc_div_remainder(a * k, len);
    lemma_trunc_div_bounds(a * k, len);
    assert(magnitude(a * k) == p) by (nonlinear_arith)
        requires
            p == magnitude(a) * k,
            k > 0,
    ;
    // the rounded quotient, in magnitude, is the quotient of the magnitudes
    assert(mu == p / len);
    let rest: int = p - len * mu;
    assert(0 <= rest < len) by (nonlinear_arith)
        requires
            mu == p / len,
            rest == p - len * mu,
            len > 0,
    ;
    assert(mu <= k) by (nonlinear_arith)
        requires
            len * mu <= p,
            p == ma * k,
            0 <= ma <= len,
            len > 0,
            k > 0,
            mu >= 0,
    ;
    let lu: int = len * mu;
    assert(u * u == mu * mu) by (nonlinear_arith)
        requires
            mu == u || mu == -u,
    ;
    assert(a * a == ma * ma) by (nonlinear_arith)
        requires
            ma == a || ma == -a,
    ;
    assert(len * len * (mu * mu) == lu * lu) by (nonlinear_arith)
        requires
            lu == len * mu,
    ;
    assert(k * k * (ma * ma) == p * p) by (nonlinear_arith)
        requires
            p == ma * k,
    ;
    assert(lu * lu <= p * p) by (nonlinear_arith)
        requires
            0 <= lu <= p,
    ;
    // lu = p - rest with rest < len, so lu * lu >= p * p - 2 * p * len
    assert(lu * lu >= p * p - 2 * p * len) by (nonlinear_arith)
        requires
            lu == p - rest,
            0 <= rest < len,
            0 <= lu,
            0 <= p,
    ;
    assert(2 * p * len <= 2 * k * len * len) by (nonlinear_arith)
        requires
            p == ma * k,
            0 <= ma <= len,
            k > 0,
    ;
}

/// First coordinate of the point `(a, b)` turned by `r` about the origin,
/// before it is narrowed to a scalar.
pub open spec fn turned_first(a: int, b: int, r: Angle) -> int {
    trunc_div(a * r.cos - b * r.sin, SCALE as int)
}

/// Second coordinate of the point `(a, b)` turned by `r` about the origin,
/// before it is narrowed to a scalar.
pub open spec fn turned_second(a: int, b: int, r: Angle) -> int {
    trunc_div(a * r.sin + b * r.cos, SCALE as int)
}

/// Turns the point `(a, b)` by `r` about the origin.
fn turn(a: i64, b: i64, r: Angle) -> (t: (i128, i128))
    requires
        -0x1_0000_0000 <= a <= 0x1_0000_0000,
        -0x1_0000_0000 <= b <= 0x1_0000_0000,
    ensures
        t.0 as int == turned_first(a as int, b as int, r),
        t.1 as int == turned_second(a as int, b as int, r),
        -0x1_0000_0000_0000_0000 <= t.0 <= 0x1_0000_0000_0000_0000,
        -0x1_0000_0000_0000_0000 <= t.1 <= 0x1_0000_0000_0000_0000,
{
    let ac: i128 = wide_mul(a, r.cos as i64);
    let bs: i128 = wide_mul(b, r.sin as i64);
    let a_s: i128 = wide_mul(a, r.sin as i64);
    let bc: i128 = wide_mul(b, r.cos as i64);
    proof {
        lemma_mul_bounds(a as int, r.cos as int, 0x1_0000_0000, 0x8000_0000);
        lemma_mul_bounds(b as int, r.sin as int, 0x1_0000_0000, 0x8000_0000);
        lemma_mul_bounds(a as int, r.sin as int, 0x1_0000_0000, 0x8000_0000);
        lemma_mul_bounds(b as int, r.cos as int, 0x1_0000_0000, 0x8000_0000);
        lemma_trunc_div_bounds(ac - bs, SCALE as int);
        lemma_trunc_div_bounds(a_s + bc, SCALE as int);
    }
    (quotient(ac - bs, SCALE as i128), quotient(a_s + bc, SCALE as i128))
}

/// The algebra of solving a turn back: with `e1`, `e2`, `e3` what the three
/// roundings left out, the doubly scaled result differs from the scaled input
/// by a combination of them.
proof fn lemma_solve_back(
    a: int,
    b: int,
    c: int,
    s: int,
    k: int,
    a1: int,
    b1: int,
    a2: int,
    e1: int,
    e2: int,
    e3: int,
)
    requires
        e1 == a * c - b * s - k * a1,
        e2 == a * s + b * c - k * b1,
        e3 == a1 * c + b1 * s - k * a2,
    ensures
        k * k * a2 - (c * c + s * s) * a == -(e1 * c) - e2 * s - e3 * k,
{
    let ka1: int = k * a1;
    let kb1: int = k * b1;
    let ka2: int = k * a2;
    assert(k * k * a2 == k * ka2) by (nonlinear_arith)
        requires
            ka2 == k * a2,
    ;
    let back_p: int = a1 * c + b1 * s;
    assert(ka2 == back_p - e3);
    assert(k * (back_p - e3) == k * back_p - e3 * k) by (nonlinear_arith);
    assert(k * back_p == ka1 * c + kb1 * s) by (nonlinear_arith)
        requires
            back_p == a1 * c + b1 * s,
            ka1 == k * a1,
            kb1 == k * b1,
    ;
    let p: int = a * c - b * s;
    let q: int = a * s + b * c;
    assert(ka1 == p - e1);
    assert(kb1 == q - e2);
    assert((p - e1) * c == p * c - e1 * c) by (nonlinear_arith);
    assert((q - e2) * s == q * s - e2 * s) by (nonlinear_arith);
    assert(p * c + q * s == (c * c + s * s) * a) by (nonlinear_arith)
        requires
            p == a * c - b * s,
            q == a * s + b * c,
    ;
}

/// Turning a point about the origin by an angle and then by the reversed angle
/// multiplies it by the squared length of the angle, up to the rounding of
/// the two steps: for an angle of unit length the point comes back to within
/// three raw units.
pub proof fn lemma_turn_round_trip(a: int, b: int, r: Angle)
    requires
        r.sin > i32::MIN,
    ensures
        ({
            let a1 = turned_first(a, b, r);
            let b1 = turned_second(a, b, r);
            let a2 = turned_first(a1, b1, r.reversed());
            let b2 = turned_second(a1, b1, r.reversed());
            let n = r.cos * r.cos + r.sin * r.sin;
            let tolerance = SCALE * (magnitude(r.cos as int) + magnitude(r.sin as int)) + SCALE
                * SCALE;
            &&& magnitude(SCALE * SCALE * a2 - n * a) < tolerance
            &&& magnitude(SCALE * SCALE * b2 - n * b) < tolerance
        }),
{
    let c: int = r.cos as int;
    let s: int = r.sin as int;
    let k: int = SCALE as int;
    let a1 = turned_first(a, b, r);
    let b1 = turned_second(a, b, r);
    let a2 = turned_first(a1, b1, r.reversed());
    let b2 = turned_second(a1, b1, r.reversed());
    assert(r.reversed().cos == c && r.reversed().sin == -s);
    let p: int = a * c - b * s;
    let q: int = a * s + b * c;
    let back_p: int = a1 * c - b1 * (-s);
    let back_q: int = a1 * (-s) + b1 * c;
    lemma_trunc_div_remainder(p, k);
    lemma_trunc_div_remainder(q, k);
    lemma_trunc_div_remainder(back_p, k);
    lemma_trunc_div_remainder(back_q, k);
    let e1: int = p - k * a1;
    let e2: int = q - k * b1;
    let e3: int = back_p - k * a2;
    let e4: int = back_q - k * b2;
    let n: int = c * c + s * s;
    assert(a1 * (-s) == -(a1 * s) && b1 * (-s) == -(b1 * s)) by (nonlinear_arith);
    assert((-a) * s == -(a * s) && (-a) * c == -(a * c)) by (nonlinear_arith);
    assert((-a1) * s == -(a1 * s) && k * (-a1) == -(k * a1)) by (nonlinear_arith);
    assert((-e1) * s == -(e1 * s)) by (nonlinear_arith);
    assert(c * e1 == e1 * c && s * e2 == e2 * s && c * e2 == e2 * c && s * e1 == e1 * s)
        by (nonlinear_arith);
    assert(k * e3 == e3 * k && k * e4 == e4 * k) by (nonlinear_arith);
    lemma_solve_back(a, b, c, s, k, a1, b1, a2, e1, e2, e3);
    // the second coordinate is the first of the point (b, -a) turned the same way
    lemma_solve_back(b, -a, c, s, k, b1, -a1, b2, e2, -e1, e4);
    lemma_mul_bounds(c, e1, magnitude(c), k - 1);
    lemma_mul_bounds(s, e2, magnitude(s), k - 1);
    lemma_mul_bounds(s, e1, magnitude(s), k - 1);
    lemma_mul_bounds(c, e2, magnitude(c), k - 1);
    lemma_mul_bounds(k, e3, k, k - 1);
    lemma_mul_bounds(k, e4, k, k - 1);
    assert(magnitude(c) * (k - 1) <= k * magnitude(c)) by (nonlinear_arith)
        requires
            magnitude(c) >= 0,
            k > 0,
    ;
    assert(magnitude(s) * (k - 1) <= k * magnitude(s)) by (nonlinear_arith)
        requires
            magnitude(s) >= 0,
            k > 0,
    ;
    assert(k * (magnitude(c) + magnitude(s)) == k * magnitude(c) + k * magnitude(s))
        by (nonlinear_arith);
    assert(k * (k - 1) < k * k) by (nonlinear_arith)
        requires
            k > 0,
    ;
}

/// The square of a value of up to 64 bits.
fn wide_square(v: i128) -> (sq: u128)
    requires
        -0x8000_0000_0000_0000 <= v <= 0x8000_0000_0000_0000,
    ensures
        sq as int == v as int * v as int,
        sq <= 0x4000_0000_0000_0000_0000_0000_0000_0000,
{
    let m: u128 = if v < 0 {
        (-v) as u128
    } else {
        v as u128
    };
    proof {
        lemma_mul_bounds(m as int, m as int, 0x8000_0000_0000_0000, 0x8000_0000_0000_0000);
        assert(m as int * m as int == v as int * v as int) by (nonlinear_arith)
            requires
                m as int == v as int || m as int == -(v as int),
        ;
    }
    m * m
}

/// The vector of length one in the direction `(x, y, z)`, or `None` if all
/// three are zero.
pub fn direction_of(x: i128, y: i128, z: i128) -> (d: Option<Vec3d>)
    requires
        -0x8000_0000_0000_0000 <= x <= 0x8000_0000_0000_0000,
        -0x8000_0000_0000_0000 <= y <= 0x8000_0000_0000_0000,
        -0x8000_0000_0000_0000 <= z <= 0x8000_0000_0000_0000,
    ensures
        d.is_none() <==> x == 0 && y == 0 && z == 0,
        d.is_some() ==> d.unwrap() == direction(x as int, y as int, z as int),
{
    if -0x8000_0000 <= x && x <= 0x8000_0000 && -0x8000_0000 <= y && y <= 0x8000_0000
        && -0x8000_0000 <= z && z <= 0x8000_0000 {
        divide_by_length(x * 0x1_0000_0000, y * 0x1_0000_0000, z * 0x1_0000_0000)
    } else {
        divide_by_length(x, y, z)
    }
}

/// The vector `(x, y, z)` divided by its length, or `None` if all three are
/// zero.
fn divide_by_length(x: i128, y: i128, z: i128) -> (d: Option<Vec3d>)
    requires
        -0x8000_0000_0000_0000 <= x <= 0x8000_0000_0000_0000,
        -0x8000_0000_0000_0000 <= y <= 0x8000_0000_0000_0000,
        -0x8000_0000_0000_0000 <= z <= 0x8000_0000_0000_0000,
    ensures
        d.is_none() <==> x == 0 && y == 0 && z == 0,
        d.is_some() ==> d.unwrap() == over_length(x as int, y as int, z as int),
{
    let n: u128 = wide_square(x) + wide_square(y) + wide_square(z);
    let len: u64 = isqrt(n);
    proof {
        assert(x != 0 ==> x * x >= 1) by (nonlinear_arith);
        assert(y != 0 ==> y * y >= 1) by (nonlinear_arith);
        assert(z != 0 ==> z * z >= 1) by (nonlinear_arith);
        if len == 0 {
            assert((len + 1) * (len + 1) == 1) by (nonlinear_arith)
                requires
                    len == 0,
            ;
        } else {
            assert(len * len >= 1) by (nonlinear_arith)
                requires
                    len >= 1,
            ;
        }
    }
    if len == 0 {
        None
    } else {
        proof {
            lemma_mul_bounds(x as int, SCALE as int, 0x8000_0000_0000_0000, 0x1_0000);
            lemma_mul_bounds(y as int, SCALE as int, 0x8000_0000_0000_0000, 0x1_0000);
            lemma_mul_bounds(z as int, SCALE as int, 0x8000_0000_0000_0000, 0x1_0000);
        }
        Some(
            Vec3d {
                x: saturate(quotient(x * (SCALE as i128), len as i128)),
                y: saturate(quotient(y * (SCALE as i128), len as i128)),
                z: saturate(quotient(z * (SCALE as i128), len as i128)),
            },
        )
    }
}

/// For an angle of nearly unit length, turning a point about the origin by
/// the angle and then by the reversed angle brings each coordinate back to
/// within three raw units, and three more for each whole unit of its
/// magnitude.
pub proof fn lemma_turn_round_trip_near_unit(a: int, b: int, r: Angle)
    requires
        r.sin > i32::MIN,
        r.is_near_unit(),
    ensures
        ({
            let a1 = turned_first(a, b, r);
            let b1 = turned_second(a, b, r);
            let a2 = turned_first(a1, b1, r.reversed());
            let b2 = turned_second(a1, b1, r.reversed());
            &&& SCALE * magnitude(a2 - a) < 3 * SCALE + 3 * magnitude(a)
            &&& SCALE * magnitude(b2 - b) < 3 * SCALE + 3 * magnitude(b)
        }),
{
    lemma_turn_round_trip(a, b, r);
    let a1 = turned_first(a, b, r);
    let b1 = turned_second(a, b, r);
    let a2 = turned_first(a1, b1, r.reversed());
    let b2 = turned_second(a1, b1, r.reversed());
    let n: int = r.cos * r.cos + r.sin * r.sin;
    let k: int = SCALE as int;
    let slack: int = n - k * k;
    let tolerance: int = k * (magnitude(r.cos as int) + magnitude(r.sin as int)) + k * k;
    assert(tolerance <= 3 * (k * k)) by (nonlinear_arith)
        requires
            tolerance == k * (magnitude(r.cos as int) + magnitude(r.sin as int)) + k * k,
            0 <= magnitude(r.cos as int) <= k,
            0 <= magnitude(r.sin as int) <= k,
            k > 0,
    ;
    lemma_near_unit_coordinate(a, a2, n, k, slack);
    lemma_near_unit_coordinate(b, b2, n, k, slack);
}

/// One coordinate of `lemma_turn_round_trip_near_unit`.
proof fn lemma_near_unit_coordinate(a: int, a2: int, n: int, k: int, slack: int)
    requires
        k > 0,
        slack == n - k * k,
        -(3 * k) <= slack <= 3 * k,
        magnitude(k * k * a2 - n * a) < 3 * (k * k),
    ensures
        k * magnitude(a2 - a) < 3 * k + 3 * magnitude(a),
{
    let d: int = a2 - a;
    assert(k * k * a2 - n * a == k * k * d - slack * a) by (nonlinear_arith)
        requires
            d == a2 - a,
            slack == n - k * k,
    ;
    lemma_mul_bounds(slack, a, 3 * k, magnitude(a));
    assert(3 * k * magnitude(a) == k * (3 * magnitude(a))) by (nonlinear_arith);
    assert(magnitude(k * k * d) == k * (k * magnitude(d))) by (nonlinear_arith)
        requires
            k > 0,
    ;
    assert(3 * (k * k) == k * (3 * k)) by (nonlinear_arith);
    let lhs: int = k * magnitude(d);
    let rhs: int = 3 * k + 3 * magnitude(a);
    assert(k * rhs == k * (3 * k) + k * (3 * magnitude(a))) by (nonlinear_arith)
        requires
            rhs == 3 * k + 3 * magnitude(a),
    ;
    assert(lhs < rhs) by (nonlinear_arith)
        requires
            k * lhs < k * rhs,
            k > 0,
    ;
}

impl Angle {
    /// Whether the angle has unit length as nearly as cosine and sine can be
    /// held: neither exceeds one, and the sum of their squares differs from
    /// one by no more than three raw units, as numbers.
    pub open spec fn is_near_unit(self) -> bool {
        &&& -SCALE <= self.cos <= SCALE
        &&& -SCALE <= self.sin <= SCALE
        &&& -(3 * SCALE) <= self.cos * self.cos + self.sin * self.sin - SCALE * SCALE <= 3
            * SCALE
    }

    /// The angle with the given cosine and sine.
    pub fn new(cos: i32, sin: i32) -> (r: Angle)
        ensures
            r == (Angle { cos, sin }),
    {
        Angle { cos, sin }
    }

    /// The angle of the opposite rotation. Meaningful unless the sine is the
    /// least `i32`, which has no negation.
    pub open spec fn reversed(self) -> Angle {
        Angle { cos: self.cos, sin: sat(-(self.sin as int)) }
    }

    /// The angle of the opposite rotation.
    pub fn reverse(self) -> (r: Angle)
        ensures
            r == self.reversed(),
    {
        Angle { cos: self.cos, sin: saturate(-(self.sin as i128)) }
    }
}

impl Vec3d {
    /// The component-wise sum.
    pub open spec fn sum(self, other: Vec3d) -> Vec3d {
        Vec3d {
            x: sat(self.x + other.x),
            y: sat(self.y + other.y),
            z: sat(self.z + other.z),
        }
    }

    /// The component-wise difference.
    pub open spec fn difference(self, other: Vec3d) -> Vec3d {
        Vec3d {
            x: sat(self.x - other.x),
            y: sat(self.y - other.y),
            z: sat(self.z - other.z),
        }
    }

    /// The component-wise product.
    pub open spec fn product(self, other: Vec3d) -> Vec3d {
        Vec3d {
            x: mul_spec(self.x as int, other.x as int),
            y: mul_spec(self.y as int, other.y as int),
            z: mul_spec(self.z as int, other.z as int),
        }
    }

    /// The vector with every component multiplied by the scalar `k`.
    pub open spec fn scaled(self, k: i32) -> Vec3d {
        Vec3d {
            x: mul_spec(self.x as int, k as int),
            y: mul_spec(self.y as int, k as int),
            z: mul_spec(self.z as int, k as int),
        }
    }

    /// The dot product of the raw components, of twice the scale.
    pub open spec fn dot_wide(self, other: Vec3d) -> int {
        self.x * other.x + self.y * other.y + self.z * other.z
    }

    /// The dot product as a scalar.
    pub open spec fn dotted(self, other: Vec3d) -> i32 {
        sat(trunc_div(self.dot_wide(other), SCALE as int))
    }

    /// The length in raw units, before it is narrowed to a scalar.
    pub open spec fn length_wide(self) -> int {
        sqrt_floor(self.dot_wide(self))
    }

    /// Whether all components are zero.
    pub open spec fn is_zero(self) -> bool {
        self.x == 0 && self.y == 0 && self.z == 0
    }

    /// The vector of length one in the same direction. Meaningful unless the
    /// vector is zero.
    pub open spec fn unit(self) -> Vec3d {
        direction(self.x as int, self.y as int, self.z as int)
    }

    /// The vector turned by `r` about the line parallel to the x axis through
    /// `(origin_y, origin_z)`.
    pub open spec fn rotated_x(self, r: Angle, origin_y: i32, origin_z: i32) -> Vec3d {
        let a = self.y - origin_y;
        let b = self.z - origin_z;
        Vec3d {
            x: self.x,
            y: sat(turned_first(a, b, r) + origin_y),
            z: sat(turned_second(a, b, r) + origin_z),
        }
    }

    /// The vector turned by `r` about the line parallel to the y axis through
    /// `(origin_x, origin_z)`.
    pub open spec fn rotated_y(self, r: Angle, origin_x: i32, origin_z: i32) -> Vec3d {
        let a = self.x - origin_x;
        let b = self.z - origin_z;
        Vec3d {
            x: sat(turned_first(a, b, r) + origin_x),
            y: self.y,
            z: sat(turned_second(a, b, r) + origin_z),
        }
    }

    /// The vector turned by `r` about the line parallel to the z axis through
    /// `(origin_x, origin_y)`.
    pub open spec fn rotated_z(self, r: Angle, origin_x: i32, origin_y: i32) -> Vec3d {
        let a = self.x - origin_x;
        let b = self.y - origin_y;
        Vec3d {
            x: sat(turned_first(a, b, r) + origin_x),
            y: sat(turned_second(a, b, r) + origin_y),
            z: self.z,
        }
    }

    /// A vector made to unit length has a length within four raw units of
    /// one, and never more than one.
    pub proof fn lemma_unit_length(self)
        requires
            !self.is_zero(),
        ensures
            SCALE - 4 <= self.unit().length_wide() <= SCALE,
    {
        let k: int = SCALE as int;
        let m: int = 0x1_0000_0000;
        let a: int = self.x * m;
        let b: int = self.y * m;
        let c: int = self.z * m;
        let n: int = a * a + b * b + c * c;
        assert(a * a >= 0 && b * b >= 0 && c * c >= 0) by (nonlinear_arith);
        lemma_sqrt_exists(n);
        let len: int = sqrt_floor(n);
        // the length is at least the magnification, and no coordinate exceeds it
        assert(n >= m * m) by {
            assert(self.x != 0 ==> a * a >= m * m) by (nonlinear_arith)
                requires
                    a == self.x * m,
                    m > 0,
            ;
            assert(self.y != 0 ==> b * b >= m * m) by (nonlinear_arith)
                requires
                    b == self.y * m,
                    m > 0,
            ;
            assert(self.z != 0 ==> c * c >= m * m) by (nonlinear_arith)
                requires
                    c == self.z * m,
                    m > 0,
            ;
        }
        lemma_sqrt_between(n, m);
        assert(-len <= a <= len && -len <= b <= len && -len <= c <= len) by (nonlinear_arith)
            requires
                n == a * a + b * b + c * c,
                n < (len + 1) * (len + 1),
                len >= 0,
        ;
        let ux: int = trunc_div(a * k, len);
        let uy: int = trunc_div(b * k, len);
        let uz: int = trunc_div(c * k, len);
        lemma_coordinate_over_length(a, len, ux);
        lemma_coordinate_over_length(b, len, uy);
        lemma_coordinate_over_length(c, len, uz);
        let unit = self.unit();
        assert(unit.x == ux && unit.y == uy && unit.z == uz);
        let sum: int = ux * ux + uy * uy + uz * uz;
        assert(unit.dot_wide(unit) == sum);
        let ll: int = len * len;
        assert(ll * sum == ll * (ux * ux) + ll * (uy * uy) + ll * (uz * uz)) by (nonlinear_arith)
            requires
                sum == ux * ux + uy * uy + uz * uz,
        ;
        assert(k * k * n == k * k * (a * a) + k * k * (b * b) + k * k * (c * c))
            by (nonlinear_arith)
            requires
                n == a * a + b * b + c * c,
        ;
        // above: len * len * sum <= k * k * n < k * k * (len + 1) * (len + 1)
        assert(sum < k * k + 3) by (nonlinear_arith)
            requires
                ll * sum <= k * k * n,
                n < (len + 1) * (len + 1),
                ll == len * len,
                len >= k * k,
                k > 0,
        ;
        // below: len * len * sum >= k * k * n - 6 * k * len * len
        let kll: int = k * ll;
        assert(2 * SCALE * len * len == 2 * kll && 6 * k * ll == 6 * kll) by (nonlinear_arith)
            requires
                ll == len * len,
                kll == k * ll,
                k == SCALE,
        ;
        assert(len * len * (ux * ux) == ll * (ux * ux) && len * len * (uy * uy) == ll * (uy
            * uy) && len * len * (uz * uz) == ll * (uz * uz));
        assert(SCALE * SCALE * (a * a) == k * k * (a * a) && SCALE * SCALE * (b * b) == k * k
            * (b * b) && SCALE * SCALE * (c * c) == k * k * (c * c));
        assert(ll * sum >= k * k * n - 6 * k * ll);
        assert(sum >= k * k - 6 * k) by (nonlinear_arith)
            requires
                ll * sum >= k * k * n - 6 * k * ll,
                n >= ll,
                ll == len * len,
                len > 0,
                k > 0,
        ;
        assert(ux * ux >= 0 && uy * uy >= 0 && uz * uz >= 0) by (nonlinear_arith);
        lemma_sqrt_between(sum, k);
        lemma_sqrt_between(sum, k - 4);
    }

    /// Rotating about an axis by an angle and then by the reversed angle, about
    /// the same origin, brings the coordinates back to within the tolerance
    /// that `lemma_turn_round_trip` gives, unless a step saturates: for an
    /// angle of nearly unit length to within three raw units, and three more
    /// for each whole unit of the distance from the origin. Stated for the x
    /// axis.
    pub proof fn lemma_round_trip_x(self, r: Angle, origin_y: i32, origin_z: i32)
        requires
            r.sin > i32::MIN,
            fits(turned_first(self.y - origin_y, self.z - origin_z, r) + origin_y),
            fits(turned_second(self.y - origin_y, self.z - origin_z, r) + origin_z),
            ({
                let once = self.rotated_x(r, origin_y, origin_z);
                &&& fits(
                    turned_first(once.y - origin_y, once.z - origin_z, r.reversed()) + origin_y,
                )
                &&& fits(
                    turned_second(once.y - origin_y, once.z - origin_z, r.reversed())
                        + origin_z,
                )
            }),
        ensures
            ({
                let back = self.rotated_x(r, origin_y, origin_z).rotated_x(
                    r.reversed(),
                    origin_y,
                    origin_z,
                );
                let n = r.cos * r.cos + r.sin * r.sin;
                let tolerance = SCALE * (magnitude(r.cos as int) + magnitude(r.sin as int))
                    + SCALE * SCALE;
                &&& back.x == self.x
                &&& magnitude(SCALE * SCALE * (back.y - origin_y) - n * (self.y - origin_y))
                    < tolerance
                &&& magnitude(SCALE * SCALE * (back.z - origin_z) - n * (self.z - origin_z))
                    < tolerance
                &&& r.is_near_unit() ==> {
                    &&& SCALE * magnitude(back.y - self.y) < 3 * SCALE + 3 * magnitude(
                        self.y - origin_y,
                    )
                    &&& SCALE * magnitude(back.z - self.z) < 3 * SCALE + 3 * magnitude(
                        self.z - origin_z,
                    )
                }
            }),
    {
        lemma_turn_round_trip(self.y - origin_y, self.z - origin_z, r);
        if r.is_near_unit() {
            lemma_turn_round_trip_near_unit(self.y - origin_y, self.z - origin_z, r);
        }
    }

    /// The same law for the y axis.
    pub proof fn lemma_round_trip_y(self, r: Angle, origin_x: i32, origin_z: i32)
        requires
            r.sin > i32::MIN,
            fits(turned_first(self.x - origin_x, self.z - origin_z, r) + origin_x),
            fits(turned_second(self.x - origin_x, self.z - origin_z, r) + origin_z),
            ({
                let once = self.rotated_y(r, origin_x, origin_z);
                &&& fits(
                    turned_first(once.x - origin_x, once.z - origin_z, r.reversed()) + origin_x,
                )
                &&& fits(
                    turned_second(once.x - origin_x, once.z - origin_z, r.reversed())
                        + origin_z,
                )
            }),
        ensures
            ({
                let back = self.rotated_y(r, origin_x, origin_z).rotated_y(
                    r.reversed(),
                    origin_x,
                    origin_z,
                );
                let n = r.cos * r.cos + r.sin * r.sin;
                let tolerance = SCALE * (magnitude(r.cos as int) + magnitude(r.sin as int))
                    + SCALE * SCALE;
                &&& back.y == self.y
                &&& magnitude(SCALE * SCALE * (back.x - origin_x) - n * (self.x - origin_x))
                    < tolerance
                &&& magnitude(SCALE * SCALE * (back.z - origin_z) - n * (self.z - origin_z))
                    < tolerance
                &&& r.is_near_unit() ==> {
                    &&& SCALE * magnitude(back.x - self.x) < 3 * SCALE + 3 * magnitude(
                        self.x - origin_x,
                    )
                    &&& SCALE * magnitude(back.z - self.z) < 3 * SCALE + 3 * magnitude(
                        self.z - origin_z,
                    )
                }
            }),
    {
        lemma_turn_round_trip(self.x - origin_x, self.z - origin_z, r);
        if r.is_near_unit() {
            lemma_turn_round_trip_near_unit(self.x - origin_x, self.z - origin_z, r);
        }
    }

    /// The same law for the z axis.
    pub proof fn lemma_round_trip_z(self, r: Angle, origin_x: i32, origin_y: i32)
        requires
            r.sin > i32::MIN,
            fits(turned_first(self.x - origin_x, self.y - origin_y, r) + origin_x),
            fits(turned_second(self.x - origin_x, self.y - origin_y, r) + origin_y),
            ({
                let once = self.rotated_z(r, origin_x, origin_y);
                &&& fits(
                    turned_first(once.x - origin_x, once.y - origin_y, r.reversed()) + origin_x,
                )
                &&& fits(
                    turned_second(once.x - origin_x, once.y - origin_y, r.reversed())
                        + origin_y,
                )
            }),
        ensures
            ({
                let back = self.rotated_z(r, origin_x, origin_y).rotated_z(
                    r.reversed(),
                    origin_x,
                    origin_y,
                );
                let n = r.cos * r.cos + r.sin * r.sin;
                let tolerance = SCALE * (magnitude(r.cos as int) + magnitude(r.sin as int))
                    + SCALE * SCALE;
                &&& back.z == self.z
                &&& magnitude(SCALE * SCALE * (back.x - origin_x) - n * (self.x - origin_x))
                    < tolerance
                &&& magnitude(SCALE * SCALE * (back.y - origin_y) - n * (self.y - origin_y))
                    < tolerance
                &&& r.is_near_unit() ==> {
                    &&& SCALE * magnitude(back.x - self.x) < 3 * SCALE + 3 * magnitude(
                        self.x - origin_x,
                    )
                    &&& SCALE * magnitude(back.y - self.y) < 3 * SCALE + 3 * magnitude(
                        self.y - origin_y,
                    )
                }
            }),
    {
        lemma_turn_round_trip(self.x - origin_x, self.y - origin_y, r);
        if r.is_near_unit() {
            lemma_turn_round_trip_near_unit(self.x - origin_x, self.y - origin_y, r);
        }
    }

    /// Creates a Vec3d from an x, a y, and a z.
    pub fn new(x: i32, y: i32, z: i32) -> (v: Vec3d)
        ensures
            v == (Vec3d { x, y, z }),
    {
        Vec3d { x, y, z }
    }

    /// Vec3d + Vec3d = Vec3d
    pub fn add(self, other: Vec3d) -> (v: Vec3d)
        ensures
            v == self.sum(other),
    {
        Vec3d {
            x: saturate(self.x as i128 + other.x as i128),
            y: saturate(self.y as i128 + other.y as i128),
            z: saturate(self.z as i128 + other.z as i128),
        }
    }

    /// Vec3d - Vec3d = Vec3d
    pub fn sub(self, other: Vec3d) -> (v: Vec3d)
        ensures
            v == self.difference(other),
    {
        Vec3d {
            x: saturate(self.x as i128 - other.x as i128),
            y: saturate(self.y as i128 - other.y as i128),
            z: saturate(self.z as i128 - other.z as i128),
        }
    }

    /// Vec3d * Vec3d = Vec3d, component by component.
    pub fn mul(self, other: Vec3d) -> (v: Vec3d)
        ensures
            v == self.product(other),
    {
        Vec3d {
            x: fixed_mul(self.x, other.x),
            y: fixed_mul(self.y, other.y),
            z: fixed_mul(self.z, other.z),
        }
    }

    /// Vec3d * scalar = Vec3d
    pub fn scale(self, k: i32) -> (v: Vec3d)
        ensures
            v == self.scaled(k),
    {
        Vec3d { x: fixed_mul(self.x, k), y: fixed_mul(self.y, k), z: fixed_mul(self.z, k) }
    }

    /// Rotates the Vec3d around the x-axis at the origin point.
    pub fn x_axis_rotation(&mut self, r: Angle, origin_y: i32, origin_z: i32)
        ensures
            *final(self) == old(self).rotated_x(r, origin_y, origin_z),
    {
        let t: (i128, i128) = turn(
            self.y as i64 - origin_y as i64,
            self.z as i64 - origin_z as i64,
            r,
        );
        self.y = saturate(t.0 + origin_y as i128);
        self.z = saturate(t.1 + origin_z as i128);
    }

    /// Rotates the Vec3d around the y-axis at the origin point.
    pub fn y_axis_rotation(&mut self, r: Angle, origin_x: i32, origin_z: i32)
        ensures
            *final(self) == old(self).rotated_y(r, origin_x, origin_z),
    {
        let t: (i128, i128) = turn(
            self.x as i64 - origin_x as i64,
            self.z as i64 - origin_z as i64,
            r,
        );
        self.x = saturate(t.0 + origin_x as i128);
        self.z = saturate(t.1 + origin_z as i128);
    }

    /// Rotates the Vec3d around the z-axis at the origin point.
    pub fn z_axis_rotation(&mut self, r: Angle, origin_x: i32, origin_y: i32)
        ensures
            *final(self) == old(self).rotated_z(r, origin_x, origin_y),
    {
        let t: (i128, i128) = turn(
            self.x as i64 - origin_x as i64,
            self.y as i64 - origin_y as i64,
            r,
        );
        self.x = saturate(t.0 + origin_x as i128);
        self.y = saturate(t.1 + origin_y as i128);
    }

    /// Normalize the Vec3d: keep its direction and make its length one.
    pub fn normalize(&mut self) -> (v: Vec3d)
        requires
            !old(self).is_zero(),
        ensures
            *final(self) == old(self).unit(),
            v == *final(self),
            SCALE - 4 <= final(self).length_wide() <= SCALE,
    {
        proof {
            self.lemma_unit_length();
        }
        let d: Option<Vec3d> = direction_of(self.x as i128, self.y as i128, self.z as i128);
        match d {
            Some(v) => {
                *self = v;
            },
            None => {},
        }
        *self
    }

    /// Set the length of the vector to a number: normalize, then scale.
    pub fn set_length(&mut self, len: i32) -> (v: Vec3d)
        requires
            !old(self).is_zero(),
        ensures
            *final(self) == old(self).unit().scaled(len),
            v == *final(self),
    {
        self.normalize();
        self.x = fixed_mul(self.x, len);
        self.y = fixed_mul(self.y, len);
        self.z = fixed_mul(self.z, len);
        *self
    }

    /// The dot product of the raw components.
    pub fn dot_raw(self, other: Vec3d) -> (d: i128)
        ensures
            d as int == self.dot_wide(other),
            -0x1_0000_0000_0000_0000 <= d <= 0x1_0000_0000_0000_0000,
    {
        let a: i128 = wide_mul(self.x as i64, other.x as i64);
        let b: i128 = wide_mul(self.y as i64, other.y as i64);
        let c: i128 = wide_mul(self.z as i64, other.z as i64);
        proof {
            lemma_mul_bounds(self.x as int, other.x as int, 0x8000_0000, 0x8000_0000);
            lemma_mul_bounds(self.y as int, other.y as int, 0x8000_0000, 0x8000_0000);
            lemma_mul_bounds(self.z as int, other.z as int, 0x8000_0000, 0x8000_0000);
        }
        a + b + c
    }

    /// The dot product as a scalar.
    pub fn dot(self, other: Vec3d) -> (d: i32)
        ensures
            d == self.dotted(other),
    {
        saturate(quotient(self.dot_raw(other), SCALE as i128))
    }

    /// The length in raw units.
    pub fn length_raw(self) -> (len: u64)
        ensures
            len as int == self.length_wide(),
            len <= 0x1_0000_0000,
            len == 0 <==> self.is_zero(),
    {
        let n: i128 = self.dot_raw(self);
        proof {
            assert(self.x * self.x >= 0) by (nonlinear_arith);
            assert(self.y * self.y >= 0) by (nonlinear_arith);
            assert(self.z * self.z >= 0) by (nonlinear_arith);
            assert(self.x != 0 ==> self.x * self.x >= 1) by (nonlinear_arith);
            assert(self.y != 0 ==> self.y * self.y >= 1) by (nonlinear_arith);
            assert(self.z != 0 ==> self.z * self.z >= 1) by (nonlinear_arith);
        }
        let len: u64 = isqrt(n as u128);
        proof {
            if len > 0x1_0000_0000 {
                assert(len * len >= 0x1_0000_0001 * 0x1_0000_0001) by (nonlinear_arith)
                    requires
                        len >= 0x1_0000_0001,
                ;
            }
            if len == 0 {
                assert((len + 1) * (len + 1) == 1) by (nonlinear_arith)
                    requires
                        len == 0,
                ;
            } else {
                assert(len * len >= 1) by (nonlinear_arith)
                    requires
                        len >= 1,
                ;
            }
        }
        len
    }

    /// The length as a scalar.
    pub fn length(self) -> (len: i32)
        ensures
            len == sat(self.length_wide()),
    {
        saturate(self.length_raw() as i128)
    }
}

} // verus!
