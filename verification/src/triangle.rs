//! Triangles: three vertices with the normal and the centre derived from
//! them, a colour, and the depth that a projection attaches.

use rand::Rng;
use vstd::prelude::*;
use crate::fixed::{lemma_mul_bounds, quotient, sat, saturate, trunc_div, wide_mul, SCALE};
use crate::vec3d::{direction, direction_of, Angle, Vec3d};

verus! {

/// A Triangle is a triangle with a normal, 3 vertecies, a
/// color, a center point and its distance to the camera.
#[derive(Copy, Clone, Debug, PartialEq, Eq)]
pub struct Triangle {
    pub normal: Vec3d,
    pub verticies: (Vec3d, Vec3d, Vec3d),
    pub color: (i32, i32, i32),
    pub center: Vec3d,
    pub dist: i32,
}

/// The cross product of the raw components of `u` and `v`, of twice the
/// scale.
pub open spec fn cross_wide(u: Vec3d, v: Vec3d) -> (int, int, int) {
    (u.y * v.z - u.z * v.y, u.z * v.x - u.x * v.z, u.x * v.y - u.y * v.x)
}

/// The surface normal of the triangle with the given vertices: the unit
/// vector along the cross product of its first two edges, and the zero
/// vector where that product vanishes.
pub open spec fn normal_of(verticies: (Vec3d, Vec3d, Vec3d)) -> Vec3d {
    let u = verticies.1.difference(verticies.0);
    let v = verticies.2.difference(verticies.0);
    let n = cross_wide(u, v);
    if n.0 == 0 && n.1 == 0 && n.2 == 0 {
        Vec3d { x: 0, y: 0, z: 0 }
    } else {
        direction(n.0, n.1, n.2)
    }
}

/// The centre of the triangle with the given vertices: the mean of each
/// coordinate.
pub open spec fn centroid(verticies: (Vec3d, Vec3d, Vec3d)) -> Vec3d {
    Vec3d {
        x: sat(trunc_div(verticies.0.x + verticies.1.x + verticies.2.x, 3)),
        y: sat(trunc_div(verticies.0.y + verticies.1.y + verticies.2.y, 3)),
        z: sat(trunc_div(verticies.0.z + verticies.1.z + verticies.2.z, 3)),
    }
}

/// Whether each channel of the colour is a fraction: at least zero and less
/// than one.
pub open spec fn is_color(color: (i32, i32, i32)) -> bool {
    &&& 0 <= color.0 < SCALE
    &&& 0 <= color.1 < SCALE
    &&& 0 <= color.2 < SCALE
}

/// Draws 32 bits from the random number generator of the current thread, by
/// `rand::thread_rng` and `rand::Rng::gen`. Nothing is claimed of the bits.
/// The generator takes its seed from the system, and panics where the system
/// gives none.
#[verifier::external_body]
fn random_bits() -> (bits: u32) {
    rand::thread_rng().gen::<u32>()
}

/// The colour channel that the upper half of `bits` stands for.
pub fn channel(bits: u32) -> (c: i32)
    ensures
        c == bits / 65536,
        0 <= c < SCALE,
{
    (bits / 65536) as i32
}

/// A colour picked at random.
fn random_color() -> (color: (i32, i32, i32))
    ensures
        is_color(color),
{
    let r: i32 = channel(random_bits());
    let g: i32 = channel(random_bits());
    let b: i32 = channel(random_bits());
    (r, g, b)
}

impl Triangle {
    /// The triangle with the given normal, vertices and colour, its centre
    /// derived and its depth not yet set.
    pub open spec fn assembled(
        normal: Vec3d,
        verticies: (Vec3d, Vec3d, Vec3d),
        color: (i32, i32, i32),
    ) -> Triangle {
        Triangle { normal, verticies, color, center: centroid(verticies), dist: 0 }
    }

    /// This triangle moved to other vertices: normal and centre are derived
    /// anew, colour and depth are kept.
    pub open spec fn reshaped(self, a: Vec3d, b: Vec3d, c: Vec3d) -> Triangle {
        Triangle {
            normal: normal_of((a, b, c)),
            verticies: (a, b, c),
            color: self.color,
            center: centroid((a, b, c)),
            dist: self.dist,
        }
    }

    /// This triangle with each vertex moved by `delta`: the centre is derived
    /// anew, the normal is kept.
    pub open spec fn moved(self, delta: Vec3d) -> Triangle {
        let verticies = (
            self.verticies.0.sum(delta),
            self.verticies.1.sum(delta),
            self.verticies.2.sum(delta),
        );
        Triangle {
            normal: self.normal,
            verticies,
            color: self.color,
            center: centroid(verticies),
            dist: self.dist,
        }
    }

    /// This triangle turned by `r` about the line parallel to the x axis
    /// through `(origin_y, origin_z)`.
    pub open spec fn turned_x(self, r: Angle, origin_y: i32, origin_z: i32) -> Triangle {
        self.reshaped(
            self.verticies.0.rotated_x(r, origin_y, origin_z),
            self.verticies.1.rotated_x(r, origin_y, origin_z),
            self.verticies.2.rotated_x(r, origin_y, origin_z),
        )
    }

    /// This triangle turned by `r` about the line parallel to the y axis
    /// through `(origin_x, origin_z)`.
    pub open spec fn turned_y(self, r: Angle, origin_x: i32, origin_z: i32) -> Triangle {
        self.reshaped(
            self.verticies.0.rotated_y(r, origin_x, origin_z),
            self.verticies.1.rotated_y(r, origin_x, origin_z),
            self.verticies.2.rotated_y(r, origin_x, origin_z),
        )
    }

    /// This triangle turned by `r` about the line parallel to the z axis
    /// through `(origin_x, origin_y)`.
    pub open spec fn turned_z(self, r: Angle, origin_x: i32, origin_y: i32) -> Triangle {
        self.reshaped(
            self.verticies.0.rotated_z(r, origin_x, origin_y),
            self.verticies.1.rotated_z(r, origin_x, origin_y),
            self.verticies.2.rotated_z(r, origin_x, origin_y),
        )
    }

    /// Create a new Triangle from 3 vertecies. The normal and the centre are
    /// derived from them, the colour is picked at random.
    pub fn new(vertex1: Vec3d, vertex2: Vec3d, vertex3: Vec3d) -> (t: Triangle)
        ensures
            t == Triangle::assembled(
                normal_of((vertex1, vertex2, vertex3)),
                (vertex1, vertex2, vertex3),
                t.color,
            ),
            is_color(t.color),
    {
        let normal: Vec3d = Triangle::calculate_normal((vertex1, vertex2, vertex3));
        Triangle::from_parts(normal, (vertex1, vertex2, vertex3), random_color())
    }

    /// Create a new Triangle from 3 vertecies and a predefined normal. The
    /// centre is derived from the vertices, the colour is picked at random.
    pub fn new_with_normal(normal: Vec3d, vertex1: Vec3d, vertex2: Vec3d, vertex3: Vec3d) -> (t:
        Triangle)
        ensures
            t == Triangle::assembled(normal, (vertex1, vertex2, vertex3), t.color),
            is_color(t.color),
    {
        Triangle::from_parts(normal, (vertex1, vertex2, vertex3), random_color())
    }

    /// Calculates the surface normal.
    pub fn calculate_normal(verticies: (Vec3d, Vec3d, Vec3d)) -> (n: Vec3d)
        ensures
            n == normal_of(verticies),
    {
        let u: Vec3d = verticies.1.sub(verticies.0);
        let v: Vec3d = verticies.2.sub(verticies.0);
        proof {
            lemma_mul_bounds(u.y as int, v.z as int, 0x8000_0000, 0x8000_0000);
            lemma_mul_bounds(u.z as int, v.y as int, 0x8000_0000, 0x8000_0000);
            lemma_mul_bounds(u.z as int, v.x as int, 0x8000_0000, 0x8000_0000);
            lemma_mul_bounds(u.x as int, v.z as int, 0x8000_0000, 0x8000_0000);
            lemma_mul_bounds(u.x as int, v.y as int, 0x8000_0000, 0x8000_0000);
            lemma_mul_bounds(u.y as int, v.x as int, 0x8000_0000, 0x8000_0000);
        }
        let n_x: i128 = wide_mul(u.y as i64, v.z as i64) - wide_mul(u.z as i64, v.y as i64);
        let n_y: i128 = wide_mul(u.z as i64, v.x as i64) - wide_mul(u.x as i64, v.z as i64);
        let n_z: i128 = wide_mul(u.x as i64, v.y as i64) - wide_mul(u.y as i64, v.x as i64);
        match direction_of(n_x, n_y, n_z) {
            Some(n) => n,
            None => Vec3d::new(0, 0, 0),
        }
    }

    /// Calculates the center of the Triangle.
    pub fn calculate_center(verticies: (Vec3d, Vec3d, Vec3d)) -> (c: Vec3d)
        ensures
            c == centroid(verticies),
    {
        Vec3d {
            x: saturate(
                quotient(
                    verticies.0.x as i128 + verticies.1.x as i128 + verticies.2.x as i128,
                    3,
                ),
            ),
            y: saturate(
                quotient(
                    verticies.0.y as i128 + verticies.1.y as i128 + verticies.2.y as i128,
                    3,
                ),
            ),
            z: saturate(
                quotient(
                    verticies.0.z as i128 + verticies.1.z as i128 + verticies.2.z as i128,
                    3,
                ),
            ),
        }
    }

    /// Create a Triangle from a normal, 3 vertecies and a color.
    pub fn from_parts(
        normal: Vec3d,
        verticies: (Vec3d, Vec3d, Vec3d),
        color: (i32, i32, i32),
    ) -> (t: Triangle)
        ensures
            t == Triangle::assembled(normal, verticies, color),
    {
        Triangle {
            normal,
            verticies,
            color,
            center: Triangle::calculate_center(verticies),
            dist: 0,
        }
    }

    /// Rotates the Triangle around the x-axis at the origin point.
    pub fn x_axis_rotation(&mut self, r: Angle, origin_y: i32, origin_z: i32)
        ensures
            *final(self) == old(self).turned_x(r, origin_y, origin_z),
    {
        let mut a: Vec3d = self.verticies.0;
        let mut b: Vec3d = self.verticies.1;
        let mut c: Vec3d = self.verticies.2;
        a.x_axis_rotation(r, origin_y, origin_z);
        b.x_axis_rotation(r, origin_y, origin_z);
        c.x_axis_rotation(r, origin_y, origin_z);
        *self = self.reshape(a, b, c);
    }

    /// Rotates the Triangle around the y-axis at the origin point.
    pub fn y_axis_rotation(&mut self, r: Angle, origin_x: i32, origin_z: i32)
        ensures
            *final(self) == old(self).turned_y(r, origin_x, origin_z),
    {
        let mut a: Vec3d = self.verticies.0;
        let mut b: Vec3d = self.verticies.1;
        let mut c: Vec3d = self.verticies.2;
        a.y_axis_rotation(r, origin_x, origin_z);
        b.y_axis_rotation(r, origin_x, origin_z);
        c.y_axis_rotation(r, origin_x, origin_z);
        *self = self.reshape(a, b, c);
    }

    /// Rotates the Triangle around the z-axis at the origin point.
    pub fn z_axis_rotation(&mut self, r: Angle, origin_x: i32, origin_y: i32)
        ensures
            *final(self) == old(self).turned_z(r, origin_x, origin_y),
    {
        let mut a: Vec3d = self.verticies.0;
        let mut b: Vec3d = self.verticies.1;
        let mut c: Vec3d = self.verticies.2;
        a.z_axis_rotation(r, origin_x, origin_y);
        b.z_axis_rotation(r, origin_x, origin_y);
        c.z_axis_rotation(r, origin_x, origin_y);
        *self = self.reshape(a, b, c);
    }

    /// Triangle + Vec3d = Triangle: every vertex moved by `other`.
    pub fn add(self, other: Vec3d) -> (t: Triangle)
        ensures
            t == self.moved(other),
    {
        let verticies: (Vec3d, Vec3d, Vec3d) = (
            self.verticies.0.add(other),
            self.verticies.1.add(other),
            self.verticies.2.add(other),
        );
        Triangle {
            normal: self.normal,
            verticies,
            color: self.color,
            center: Triangle::calculate_center(verticies),
            dist: self.dist,
        }
    }

    /// Increment a Triangle's x position by a number.
    pub fn increment_x(&mut self, inc_x: i32)
        ensures
            *final(self) == old(self).moved(Vec3d { x: inc_x, y: 0, z: 0 }),
    {
        *self = self.add(Vec3d::new(inc_x, 0, 0));
    }

    /// Increment a Triangle's y position by a number.
    pub fn increment_y(&mut self, inc_y: i32)
        ensures
            *final(self) == old(self).moved(Vec3d { x: 0, y: inc_y, z: 0 }),
    {
        *self = self.add(Vec3d::new(0, inc_y, 0));
    }

    /// Increment a Triangle's z position by a number.
    pub fn increment_z(&mut self, inc_z: i32)
        ensures
            *final(self) == old(self).moved(Vec3d { x: 0, y: 0, z: inc_z }),
    {
        *self = self.add(Vec3d::new(0, 0, inc_z));
    }

    /// This triangle moved to other vertices.
    pub fn reshape(&self, a: Vec3d, b: Vec3d, c: Vec3d) -> (t: Triangle)
        ensures
            t == self.reshaped(a, b, c),
    {
        Triangle {
            normal: Triangle::calculate_normal((a, b, c)),
            verticies: (a, b, c),
            color: self.color,
            center: Triangle::calculate_center((a, b, c)),
            dist: self.dist,
        }
    }
}

} // verus!
