//! 3x3 matrices of scalars: products, the determinant, and the inverse by
//! cofactors.

use vstd::prelude::*;
use crate::fixed::{
    fits, lemma_mul_bounds, lemma_trunc_div_bounds, lemma_trunc_div_remainder, magnitude,
    mul_spec, fixed_mul, quotient, sat, saturate, trunc_div, wide_mul, SCALE,
};
use crate::vec3d::Vec3d;

verus! {

/// A 3 x 3 Matrix, held row by row: `m[i][j]` is the entry in row `i` and
/// column `j`.
#[derive(Copy, Clone, Debug, PartialEq, Eq)]
pub struct Matrix3x3 {
    pub m: [[i32; 3]; 3],
}

/// The raw value of the number one, of twice the scale: what a product of two
/// scalars is divided by twice.
pub open spec fn scale_squared() -> int {
    SCALE as int * SCALE as int
}

/// A factor distributes over a difference.
proof fn lemma_distribute(x: int, p: int, q: int)
    by (nonlinear_arith)
    ensures
        x * (p - q) == x * p - x * q,
{
}

/// A product of three may be taken from any of its factors.
proof fn lemma_cycle(x: int, y: int, z: int)
    by (nonlinear_arith)
    ensures
        x * (y * z) == z * (x * y),
        x * (y * z) == y * (z * x),
{
}

/// One term of a row times a column of the inverse, multiplied by the
/// determinant `d`: `q` is the entry of the inverse, `c` the cofactor it was
/// computed from, `r` what its rounding left out.
proof fn lemma_inverse_term(d: int, m: int, q: int, c: int, r: int, s2: int)
    requires
        r == c * s2 - d * q,
    ensures
        d * (m * q) == s2 * (m * c) - m * r,
{
    assert(d * (m * q) == m * (d * q)) by (nonlinear_arith);
    assert(d * q == c * s2 - r);
    assert(m * (c * s2 - r) == m * (c * s2) - m * r) by (nonlinear_arith);
    assert(m * (c * s2) == s2 * (m * c)) by (nonlinear_arith);
}

/// If `d * e` is a combination of three values smaller in magnitude than `d`,
/// then `e` is no larger in magnitude than the weights of the combination
/// taken together.
proof fn lemma_error_bound(d: int, e: int, m0: int, m1: int, m2: int, r0: int, r1: int, r2: int)
    requires
        d != 0,
        d * e == -(m0 * r0 + m1 * r1 + m2 * r2),
        magnitude(r0) < magnitude(d),
        magnitude(r1) < magnitude(d),
        magnitude(r2) < magnitude(d),
    ensures
        magnitude(e) <= magnitude(m0) + magnitude(m1) + magnitude(m2),
{
    let ad = magnitude(d);
    let ae = magnitude(e);
    let w = magnitude(m0) + magnitude(m1) + magnitude(m2);
    lemma_mul_bounds(m0, r0, magnitude(m0), ad - 1);
    lemma_mul_bounds(m1, r1, magnitude(m1), ad - 1);
    lemma_mul_bounds(m2, r2, magnitude(m2), ad - 1);
    assert(magnitude(m0) * (ad - 1) + magnitude(m1) * (ad - 1) + magnitude(m2) * (ad - 1) == w
        * (ad - 1)) by (nonlinear_arith)
        requires
            w == magnitude(m0) + magnitude(m1) + magnitude(m2),
    ;
    assert(magnitude(d * e) == ad * ae) by (nonlinear_arith)
        requires
            ad == magnitude(d),
            ae == magnitude(e),
    ;
    assert(ae <= w) by (nonlinear_arith)
        requires
            ad * ae <= w * (ad - 1),
            ad >= 1,
            w >= 0,
            ae >= 0,
    ;
}

impl Matrix3x3 {
    /// The entry in row `i` and column `j`.
    pub open spec fn at(self, i: int, j: int) -> int {
        self.m[i][j] as int
    }

    /// Row `i` as a vector.
    pub open spec fn row(self, i: int) -> Vec3d {
        Vec3d { x: self.m[i][0], y: self.m[i][1], z: self.m[i][2] }
    }

    /// Column `j` as a vector.
    pub open spec fn column(self, j: int) -> Vec3d {
        Vec3d { x: self.m[0][j], y: self.m[1][j], z: self.m[2][j] }
    }

    /// The matrix with the given columns.
    pub open spec fn with_columns(col1: Vec3d, col2: Vec3d, col3: Vec3d) -> Matrix3x3 {
        Matrix3x3 {
            m: [[col1.x, col2.x, col3.x], [col1.y, col2.y, col3.y], [col1.z, col2.z, col3.z]],
        }
    }

    /// The signed cofactor of the entry in row `i` and column `j`, of twice the
    /// scale: the determinant of the other two rows and columns, taken in
    /// cyclic order.
    pub open spec fn cofactor(self, i: int, j: int) -> int {
        let i1 = (i + 1) % 3;
        let i2 = (i + 2) % 3;
        let j1 = (j + 1) % 3;
        let j2 = (j + 2) % 3;
        self.at(i1, j1) * self.at(i2, j2) - self.at(i1, j2) * self.at(i2, j1)
    }

    /// The determinant of the raw entries, of three times the scale,
    /// expanded along the first row.
    pub open spec fn det_wide(self) -> int {
        self.at(0, 0) * self.cofactor(0, 0) + self.at(0, 1) * self.cofactor(0, 1) + self.at(0, 2)
            * self.cofactor(0, 2)
    }

    /// The determinant as a scalar.
    pub open spec fn det(self) -> i32 {
        sat(trunc_div(self.det_wide(), scale_squared()))
    }

    /// The entry in row `i` and column `j` of the inverse, before it is
    /// narrowed to a scalar: the cofactor of the mirrored entry over the
    /// determinant. Meaningful unless the determinant is zero.
    pub open spec fn inverse_entry(self, i: int, j: int) -> int {
        trunc_div(self.cofactor(j, i) * scale_squared(), self.det_wide())
    }

    /// The inverse. Meaningful unless the determinant is zero.
    pub open spec fn inverted(self) -> Matrix3x3 {
        Matrix3x3 {
            m: [
                [
                    sat(self.inverse_entry(0, 0)),
                    sat(self.inverse_entry(0, 1)),
                    sat(self.inverse_entry(0, 2)),
                ],
                [
                    sat(self.inverse_entry(1, 0)),
                    sat(self.inverse_entry(1, 1)),
                    sat(self.inverse_entry(1, 2)),
                ],
                [
                    sat(self.inverse_entry(2, 0)),
                    sat(self.inverse_entry(2, 1)),
                    sat(self.inverse_entry(2, 2)),
                ],
            ],
        }
    }

    /// The matrix product with `rhs` on the right.
    pub open spec fn times(self, rhs: Matrix3x3) -> Matrix3x3 {
        Matrix3x3 {
            m: [
                [
                    self.row(0).dotted(rhs.column(0)),
                    self.row(0).dotted(rhs.column(1)),
                    self.row(0).dotted(rhs.column(2)),
                ],
                [
                    self.row(1).dotted(rhs.column(0)),
                    self.row(1).dotted(rhs.column(1)),
                    self.row(1).dotted(rhs.column(2)),
                ],
                [
                    self.row(2).dotted(rhs.column(0)),
                    self.row(2).dotted(rhs.column(1)),
                    self.row(2).dotted(rhs.column(2)),
                ],
            ],
        }
    }

    /// The matrix applied to the column vector `v`.
    pub open spec fn applied(self, v: Vec3d) -> Vec3d {
        Vec3d { x: self.row(0).dotted(v), y: self.row(1).dotted(v), z: self.row(2).dotted(v) }
    }

    /// The matrix with every entry multiplied by the scalar `k`.
    pub open spec fn scaled(self, k: i32) -> Matrix3x3 {
        Matrix3x3 {
            m: [
                [
                    mul_spec(self.at(0, 0), k as int),
                    mul_spec(self.at(0, 1), k as int),
                    mul_spec(self.at(0, 2), k as int),
                ],
                [
                    mul_spec(self.at(1, 0), k as int),
                    mul_spec(self.at(1, 1), k as int),
                    mul_spec(self.at(1, 2), k as int),
                ],
                [
                    mul_spec(self.at(2, 0), k as int),
                    mul_spec(self.at(2, 1), k as int),
                    mul_spec(self.at(2, 2), k as int),
                ],
            ],
        }
    }

    /// The entries of row `i`, each multiplied by the cofactor of the entry
    /// below or above it in row `j`, and added up.
    pub open spec fn row_by_cofactors(self, i: int, j: int) -> int {
        self.at(i, 0) * self.cofactor(j, 0) + self.at(i, 1) * self.cofactor(j, 1) + self.at(i, 2)
            * self.cofactor(j, 2)
    }

    /// A row multiplied by its own cofactors gives the determinant, and by
    /// the cofactors of another row zero: the matrix times its adjugate is the
    /// determinant times the identity.
    pub proof fn lemma_cofactor_expansion(self, i: int, j: int)
        requires
            0 <= i < 3,
            0 <= j < 3,
        ensures
            self.row_by_cofactors(i, j) == if i == j {
                self.det_wide()
            } else {
                0
            },
    {
        let a = self.at(0, 0);
        let b = self.at(0, 1);
        let c = self.at(0, 2);
        let d = self.at(1, 0);
        let e = self.at(1, 1);
        let f = self.at(1, 2);
        let g = self.at(2, 0);
        let h = self.at(2, 1);
        let k = self.at(2, 2);
        let det = a * (e * k - f * h) + b * (f * g - d * k) + c * (d * h - e * g);
        assert(self.det_wide() == det);
        if j == 0 {
            if i == 1 {
                assert(d * (e * k - f * h) + e * (f * g - d * k) + f * (d * h - e * g) == 0)
                    by (nonlinear_arith);
            } else if i == 2 {
                assert(g * (e * k - f * h) + h * (f * g - d * k) + k * (d * h - e * g) == 0)
                    by (nonlinear_arith);
            }
        } else if j == 1 {
            if i == 0 {
                assert(a * (h * c - k * b) + b * (k * a - g * c) + c * (g * b - h * a) == 0)
                    by (nonlinear_arith);
            } else if i == 1 {
                lemma_distribute(d, h * c, k * b);
                lemma_distribute(e, k * a, g * c);
                lemma_distribute(f, g * b, h * a);
                lemma_distribute(a, e * k, f * h);
                lemma_distribute(b, f * g, d * k);
                lemma_distribute(c, d * h, e * g);
                lemma_cycle(d, h, c);
                lemma_cycle(d, k, b);
                lemma_cycle(e, k, a);
                lemma_cycle(e, g, c);
                lemma_cycle(f, g, b);
                lemma_cycle(f, h, a);
            } else {
                assert(g * (h * c - k * b) + h * (k * a - g * c) + k * (g * b - h * a) == 0)
                    by (nonlinear_arith);
            }
        } else {
            if i == 0 {
                assert(a * (b * f - c * e) + b * (c * d - a * f) + c * (a * e - b * d) == 0)
                    by (nonlinear_arith);
            } else if i == 1 {
                assert(d * (b * f - c * e) + e * (c * d - a * f) + f * (a * e - b * d) == 0)
                    by (nonlinear_arith);
            } else {
                lemma_distribute(g, b * f, c * e);
                lemma_distribute(h, c * d, a * f);
                lemma_distribute(k, a * e, b * d);
                lemma_distribute(a, e * k, f * h);
                lemma_distribute(b, f * g, d * k);
                lemma_distribute(c, d * h, e * g);
                lemma_cycle(b, f, g);
                lemma_cycle(c, e, g);
                lemma_cycle(c, d, h);
                lemma_cycle(a, f, h);
                lemma_cycle(a, e, k);
                lemma_cycle(b, d, k);
            }
        }
    }

    /// Whether no entry of the inverse saturates.
    pub open spec fn inverse_is_exact(self) -> bool {
        forall|i: int, j: int|
            0 <= i < 3 && 0 <= j < 3 ==> fits(#[trigger] self.inverse_entry(i, j))
    }

    /// The magnitudes of the entries of row `i`, added up.
    pub open spec fn row_weight(self, i: int) -> int {
        magnitude(self.at(i, 0)) + magnitude(self.at(i, 1)) + magnitude(self.at(i, 2))
    }

    /// A matrix times its inverse is the identity matrix within a tolerance:
    /// an entry of the product differs from that of the identity by less than
    /// `(w + 1) / SCALE`, where `w` is the sum of the magnitudes of the
    /// entries of its row, as numbers. Stated for a matrix with an inverse, no
    /// entry of which saturates.
    pub proof fn lemma_inverse_identity(self, i: int, j: int)
        requires
            0 <= i < 3,
            0 <= j < 3,
            self.det_wide() != 0,
            self.inverse_is_exact(),
        ensures
            ({
                let product = self.times(self.inverted());
                let identity = if i == j {
                    scale_squared()
                } else {
                    0
                };
                magnitude(SCALE * product.at(i, j) - identity) < self.row_weight(i) + SCALE
            }),
    {
        let d = self.det_wide();
        let s2 = scale_squared();
        let inverse = self.inverted();
        let m0 = self.at(i, 0);
        let m1 = self.at(i, 1);
        let m2 = self.at(i, 2);
        let c0 = self.cofactor(j, 0);
        let c1 = self.cofactor(j, 1);
        let c2 = self.cofactor(j, 2);
        let q0 = self.inverse_entry(0, j);
        let q1 = self.inverse_entry(1, j);
        let q2 = self.inverse_entry(2, j);
        assert(fits(q0) && fits(q1) && fits(q2));
        assert(inverse.at(0, j) == q0 && inverse.at(1, j) == q1 && inverse.at(2, j) == q2);
        let r0 = c0 * s2 - d * q0;
        let r1 = c1 * s2 - d * q1;
        let r2 = c2 * s2 - d * q2;
        lemma_trunc_div_remainder(c0 * s2, d);
        lemma_trunc_div_remainder(c1 * s2, d);
        lemma_trunc_div_remainder(c2 * s2, d);
        let w = m0 * q0 + m1 * q1 + m2 * q2;
        assert(w == self.row(i).dot_wide(inverse.column(j)));
        lemma_inverse_term(d, m0, q0, c0, r0, s2);
        lemma_inverse_term(d, m1, q1, c1, r1, s2);
        lemma_inverse_term(d, m2, q2, c2, r2, s2);
        assert(d * w == d * (m0 * q0) + d * (m1 * q1) + d * (m2 * q2)) by (nonlinear_arith)
            requires
                w == m0 * q0 + m1 * q1 + m2 * q2,
        ;
        let expansion = m0 * c0 + m1 * c1 + m2 * c2;
        assert(s2 * expansion == s2 * (m0 * c0) + s2 * (m1 * c1) + s2 * (m2 * c2))
            by (nonlinear_arith)
            requires
                expansion == m0 * c0 + m1 * c1 + m2 * c2,
        ;
        self.lemma_cofactor_expansion(i, j);
        assert(expansion == self.row_by_cofactors(i, j));
        let identity = if i == j {
            s2
        } else {
            0
        };
        let e = w - identity;
        assert(d * e == -(m0 * r0 + m1 * r1 + m2 * r2)) by {
            assert(d * e == d * w - d * identity) by (nonlinear_arith)
                requires
                    e == w - identity,
            ;
            if i == j {
                assert(s2 * expansion == d * identity) by (nonlinear_arith)
                    requires
                        expansion == d,
                        identity == s2,
                ;
            } else {
                assert(s2 * expansion == 0 && d * identity == 0) by (nonlinear_arith)
                    requires
                        expansion == 0,
                        identity == 0,
                ;
            }
        }
        lemma_error_bound(d, e, m0, m1, m2, r0, r1, r2);
        // the entry of the product is the sum w divided by the scale
        lemma_trunc_div_remainder(w, SCALE as int);
        lemma_trunc_div_bounds(w, SCALE as int);
        let entry = trunc_div(w, SCALE as int);
        assert(magnitude(w) <= 0x1_0000_0000 + 3 * 0x8000_0000) by {
            assert(s2 == 0x1_0000_0000) by (nonlinear_arith)
                requires
                    s2 == 0x1_0000 * 0x1_0000,
            ;
        }
        assert(fits(entry));
        let product = self.times(inverse);
        assert(product.at(i, j) == entry);
    }

    /// Creates a matrix from its rows.
    pub fn new(matrix: [[i32; 3]; 3]) -> (r: Matrix3x3)
        ensures
            r.m == matrix,
    {
        Matrix3x3 { m: matrix }
    }

    /// Form a Matrix 3x3 from 3 Vec3d's, its columns.
    pub fn from_vec3ds(col1: Vec3d, col2: Vec3d, col3: Vec3d) -> (r: Matrix3x3)
        ensures
            r == Matrix3x3::with_columns(col1, col2, col3),
            r.column(0) == col1,
            r.column(1) == col2,
            r.column(2) == col3,
    {
        Matrix3x3 {
            m: [[col1.x, col2.x, col3.x], [col1.y, col2.y, col3.y], [col1.z, col2.z, col3.z]],
        }
    }

    /// Row `i` as a vector.
    pub fn row_of(&self, i: usize) -> (v: Vec3d)
        requires
            i < 3,
        ensures
            v == self.row(i as int),
    {
        Vec3d { x: self.m[i][0], y: self.m[i][1], z: self.m[i][2] }
    }

    /// Column `j` as a vector.
    pub fn column_of(&self, j: usize) -> (v: Vec3d)
        requires
            j < 3,
        ensures
            v == self.column(j as int),
    {
        Vec3d { x: self.m[0][j], y: self.m[1][j], z: self.m[2][j] }
    }

    /// The signed cofactor of the entry in row `i` and column `j`.
    fn cofactor_raw(&self, i: usize, j: usize) -> (c: i128)
        requires
            i < 3,
            j < 3,
        ensures
            c as int == self.cofactor(i as int, j as int),
            -0x8000_0000_0000_0000 <= c <= 0x8000_0000_0000_0000,
    {
        let i1: usize = (i + 1) % 3;
        let i2: usize = (i + 2) % 3;
        let j1: usize = (j + 1) % 3;
        let j2: usize = (j + 2) % 3;
        proof {
            lemma_mul_bounds(
                self.at(i1 as int, j1 as int),
                self.at(i2 as int, j2 as int),
                0x8000_0000,
                0x8000_0000,
            );
            lemma_mul_bounds(
                self.at(i1 as int, j2 as int),
                self.at(i2 as int, j1 as int),
                0x8000_0000,
                0x8000_0000,
            );
        }
        wide_mul(self.m[i1][j1] as i64, self.m[i2][j2] as i64) - wide_mul(
            self.m[i1][j2] as i64,
            self.m[i2][j1] as i64,
        )
    }

    /// The determinant of the raw entries.
    pub fn det_raw(&self) -> (d: i128)
        ensures
            d as int == self.det_wide(),
            -0x1_8000_0000_0000_0000_0000_0000 <= d <= 0x1_8000_0000_0000_0000_0000_0000,
    {
        let c0: i128 = self.cofactor_raw(0, 0);
        let c1: i128 = self.cofactor_raw(0, 1);
        let c2: i128 = self.cofactor_raw(0, 2);
        proof {
            lemma_mul_bounds(self.at(0, 0), c0 as int, 0x8000_0000, 0x8000_0000_0000_0000);
            lemma_mul_bounds(self.at(0, 1), c1 as int, 0x8000_0000, 0x8000_0000_0000_0000);
            lemma_mul_bounds(self.at(0, 2), c2 as int, 0x8000_0000, 0x8000_0000_0000_0000);
        }
        (self.m[0][0] as i128) * c0 + (self.m[0][1] as i128) * c1 + (self.m[0][2] as i128) * c2
    }

    /// The determinant.
    pub fn determinant(&mut self) -> (d: i32)
        ensures
            *final(self) == *old(self),
            d == old(self).det(),
    {
        saturate(quotient(self.det_raw(), 0x1_0000_0000))
    }

    /// One entry of the inverse.
    fn inverse_at(&self, det: i128, i: usize, j: usize) -> (e: i32)
        requires
            i < 3,
            j < 3,
            det as int == self.det_wide(),
            det != 0,
        ensures
            e == sat(self.inverse_entry(i as int, j as int)),
    {
        let c: i128 = self.cofactor_raw(j, i);
        proof {
            lemma_mul_bounds(c as int, scale_squared(), 0x8000_0000_0000_0000, 0x1_0000_0000);
        }
        saturate(quotient(c * 0x1_0000_0000, det))
    }

    /// Get the inverse of a 3x3 matrix, or `None` for a matrix without one:
    /// one whose determinant is zero.
    pub fn try_inverse(&self) -> (inverse: Option<Matrix3x3>)
        ensures
            inverse.is_none() <==> self.det_wide() == 0,
            inverse.is_some() ==> inverse.unwrap() == self.inverted(),
    {
        let det: i128 = self.det_raw();
        if det == 0 {
            None
        } else {
            Some(
                Matrix3x3 {
                    m: [
                        [
                            self.inverse_at(det, 0, 0),
                            self.inverse_at(det, 0, 1),
                            self.inverse_at(det, 0, 2),
                        ],
                        [
                            self.inverse_at(det, 1, 0),
                            self.inverse_at(det, 1, 1),
                            self.inverse_at(det, 1, 2),
                        ],
                        [
                            self.inverse_at(det, 2, 0),
                            self.inverse_at(det, 2, 1),
                            self.inverse_at(det, 2, 2),
                        ],
                    ],
                },
            )
        }
    }

    /// Get the inverse of a 3x3 matrix.
    pub fn calculate_inverse(&mut self) -> (inverse: Matrix3x3)
        requires
            old(self).det_wide() != 0,
        ensures
            *final(self) == *old(self),
            inverse == old(self).inverted(),
    {
        match self.try_inverse() {
            Some(inverse) => inverse,
            None => *self,
        }
    }

    /// Matrix3x3 * Matrix3x3 = Matrix3x3
    pub fn mul(self, rhs: Matrix3x3) -> (r: Matrix3x3)
        ensures
            r == self.times(rhs),
    {
        let r0: Vec3d = self.row_of(0);
        let r1: Vec3d = self.row_of(1);
        let r2: Vec3d = self.row_of(2);
        let c0: Vec3d = rhs.column_of(0);
        let c1: Vec3d = rhs.column_of(1);
        let c2: Vec3d = rhs.column_of(2);
        Matrix3x3 {
            m: [
                [r0.dot(c0), r0.dot(c1), r0.dot(c2)],
                [r1.dot(c0), r1.dot(c1), r1.dot(c2)],
                [r2.dot(c0), r2.dot(c1), r2.dot(c2)],
            ],
        }
    }

    /// Matrix3x3 * Vec3d = Vec3d
    pub fn mul_vec3d(self, rhs: Vec3d) -> (v: Vec3d)
        ensures
            v == self.applied(rhs),
    {
        Vec3d {
            x: self.row_of(0).dot(rhs),
            y: self.row_of(1).dot(rhs),
            z: self.row_of(2).dot(rhs),
        }
    }

    /// Matrix3x3 * scalar = Matrix3x3
    pub fn mul_scalar(self, rhs: i32) -> (r: Matrix3x3)
        ensures
            r == self.scaled(rhs),
    {
        Matrix3x3 {
            m: [
                [
                    fixed_mul(self.m[0][0], rhs),
                    fixed_mul(self.m[0][1], rhs),
                    fixed_mul(self.m[0][2], rhs),
                ],
                [
                    fixed_mul(self.m[1][0], rhs),
                    fixed_mul(self.m[1][1], rhs),
                    fixed_mul(self.m[1][2], rhs),
                ],
                [
                    fixed_mul(self.m[2][0], rhs),
                    fixed_mul(self.m[2][1], rhs),
                    fixed_mul(self.m[2][2], rhs),
                ],
            ],
        }
    }
}

} // verus!
