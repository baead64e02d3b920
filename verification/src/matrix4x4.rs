//! 4x4 matrices of scalars, applied to points in homogeneous coordinates.

use vstd::prelude::*;
use crate::fixed::{lemma_mul_bounds, quotient, sat, saturate, trunc_div, wide_mul, SCALE};
use crate::vec3d::Vec3d;

verus! {

/// A 4 x 4 Matrix, held row by row.
#[derive(Copy, Clone, Debug, PartialEq, Eq)]
pub struct Matrix4x4 {
    pub m: [[i32; 4]; 4],
}

impl Matrix4x4 {
    /// The entry in row `i` and column `j`.
    pub open spec fn at(self, i: int, j: int) -> int {
        self.m[i][j] as int
    }

    /// Coordinate `j` of the row vector `(v.x, v.y, v.z, 1)` times the
    /// matrix, of twice the scale.
    pub open spec fn combined(self, v: Vec3d, j: int) -> int {
        v.x * self.at(0, j) + v.y * self.at(1, j) + v.z * self.at(2, j) + SCALE * self.at(3, j)
    }

    /// One coordinate of the point that `v` is taken to: coordinate `j` of
    /// the product, divided by the fourth unless that is zero.
    pub open spec fn projected(self, v: Vec3d, j: int) -> i32 {
        let w = self.combined(v, 3);
        if w != 0 {
            sat(trunc_div(self.combined(v, j) * SCALE, w))
        } else {
            sat(trunc_div(self.combined(v, j), SCALE as int))
        }
    }

    /// Coordinate `j` of the row vector `(v.x, v.y, v.z, 1)` times the
    /// matrix.
    fn combine(&self, v: &Vec3d, j: usize) -> (c: i128)
        requires
            j < 4,
        ensures
            c as int == self.combined(*v, j as int),
            -0x1_0000_0000_0000_0000 <= c <= 0x1_0000_0000_0000_0000,
    {
        proof {
            lemma_mul_bounds(v.x as int, self.at(0, j as int), 0x8000_0000, 0x8000_0000);
            lemma_mul_bounds(v.y as int, self.at(1, j as int), 0x8000_0000, 0x8000_0000);
            lemma_mul_bounds(v.z as int, self.at(2, j as int), 0x8000_0000, 0x8000_0000);
            lemma_mul_bounds(SCALE as int, self.at(3, j as int), 0x1_0000, 0x8000_0000);
        }
        wide_mul(v.x as i64, self.m[0][j] as i64) + wide_mul(v.y as i64, self.m[1][j] as i64)
            + wide_mul(v.z as i64, self.m[2][j] as i64) + wide_mul(
            SCALE as i64,
            self.m[3][j] as i64,
        )
    }

    /// Takes the point `i` through the matrix: the row vector
    /// `(i.x, i.y, i.z, 1)` times the matrix, its first three coordinates
    /// divided by the fourth unless that is zero.
    pub fn multiply_vector(&mut self, i: &Vec3d) -> (o: Vec3d)
        ensures
            *final(self) == *old(self),
            o.x == old(self).projected(*i, 0),
            o.y == old(self).projected(*i, 1),
            o.z == old(self).projected(*i, 2),
    {
        let x: i128 = self.combine(i, 0);
        let y: i128 = self.combine(i, 1);
        let z: i128 = self.combine(i, 2);
        let w: i128 = self.combine(i, 3);
        if w != 0 {
            proof {
                lemma_mul_bounds(x as int, SCALE as int, 0x1_0000_0000_0000_0000, 0x1_0000);
                lemma_mul_bounds(y as int, SCALE as int, 0x1_0000_0000_0000_0000, 0x1_0000);
                lemma_mul_bounds(z as int, SCALE as int, 0x1_0000_0000_0000_0000, 0x1_0000);
            }
            Vec3d {
                x: saturate(quotient(x * (SCALE as i128), w)),
                y: saturate(quotient(y * (SCALE as i128), w)),
                z: saturate(quotient(z * (SCALE as i128), w)),
            }
        } else {
            Vec3d {
                x: saturate(quotient(x, SCALE as i128)),
                y: saturate(quotient(y, SCALE as i128)),
                z: saturate(quotient(z, SCALE as i128)),
            }
        }
    }
}

} // verus!
