//! Meshes: the triangles of one object in world space.

use vstd::prelude::*;
use crate::fixed::{HALF, MINUS_HALF};
use crate::triangle::{is_color, normal_of, Triangle};
use crate::vec3d::{Angle, Vec3d};

verus! {

/// A Mesh is a 3D object made up of triangles.
#[derive(Clone, Debug, PartialEq, Eq)]
pub struct Mesh {
    pub tris: Vec<Triangle>,
    pub is_over: bool,
    pub is_held: bool,
    pub pos: Vec3d,
}

/// The vertices of triangle `i` of the unit cube about the origin: two
/// triangles for each of the faces front, right, back, left, top and bottom,
/// in this order, wound so that the normals point outward.
pub open spec fn cube_face(i: int) -> (Vec3d, Vec3d, Vec3d) {
    let n = MINUS_HALF;
    let p = HALF;
    if i == 0 {
        (Vec3d { x: n, y: n, z: n }, Vec3d { x: n, y: p, z: n }, Vec3d { x: p, y: p, z: n })
    } else if i == 1 {
        (Vec3d { x: n, y: n, z: n }, Vec3d { x: p, y: p, z: n }, Vec3d { x: p, y: n, z: n })
    } else if i == 2 {
        (Vec3d { x: p, y: n, z: n }, Vec3d { x: p, y: p, z: n }, Vec3d { x: p, y: p, z: p })
    } else if i == 3 {
        (Vec3d { x: p, y: n, z: n }, Vec3d { x: p, y: p, z: p }, Vec3d { x: p, y: n, z: p })
    } else if i == 4 {
        (Vec3d { x: p, y: n, z: p }, Vec3d { x: p, y: p, z: p }, Vec3d { x: n, y: p, z: p })
    } else if i == 5 {
        (Vec3d { x: p, y: n, z: p }, Vec3d { x: n, y: p, z: p }, Vec3d { x: n, y: n, z: p })
    } else if i == 6 {
        (Vec3d { x: n, y: n, z: p }, Vec3d { x: n, y: p, z: p }, Vec3d { x: n, y: p, z: n })
    } else if i == 7 {
        (Vec3d { x: n, y: n, z: p }, Vec3d { x: n, y: p, z: n }, Vec3d { x: n, y: n, z: n })
    } else if i == 8 {
        (Vec3d { x: n, y: p, z: n }, Vec3d { x: n, y: p, z: p }, Vec3d { x: p, y: p, z: p })
    } else if i == 9 {
        (Vec3d { x: n, y: p, z: n }, Vec3d { x: p, y: p, z: p }, Vec3d { x: p, y: p, z: n })
    } else if i == 10 {
        (Vec3d { x: p, y: n, z: p }, Vec3d { x: n, y: n, z: p }, Vec3d { x: n, y: n, z: n })
    } else {
        (Vec3d { x: p, y: n, z: p }, Vec3d { x: n, y: n, z: n }, Vec3d { x: p, y: n, z: n })
    }
}

/// The vertices of triangle `i` of the unit cube.
fn cube_face_of(i: usize) -> (v: (Vec3d, Vec3d, Vec3d))
    requires
        i < 12,
    ensures
        v == cube_face(i as int),
{
    let n: i32 = MINUS_HALF;
    let p: i32 = HALF;
    if i == 0 {
        (Vec3d::new(n, n, n), Vec3d::new(n, p, n), Vec3d::new(p, p, n))
    } else if i == 1 {
        (Vec3d::new(n, n, n), Vec3d::new(p, p, n), Vec3d::new(p, n, n))
    } else if i == 2 {
        (Vec3d::new(p, n, n), Vec3d::new(p, p, n), Vec3d::new(p, p, p))
    } else if i == 3 {
        (Vec3d::new(p, n, n), Vec3d::new(p, p, p), Vec3d::new(p, n, p))
    } else if i == 4 {
        (Vec3d::new(p, n, p), Vec3d::new(p, p, p), Vec3d::new(n, p, p))
    } else if i == 5 {
        (Vec3d::new(p, n, p), Vec3d::new(n, p, p), Vec3d::new(n, n, p))
    } else if i == 6 {
        (Vec3d::new(n, n, p), Vec3d::new(n, p, p), Vec3d::new(n, p, n))
    } else if i == 7 {
        (Vec3d::new(n, n, p), Vec3d::new(n, p, n), Vec3d::new(n, n, n))
    } else if i == 8 {
        (Vec3d::new(n, p, n), Vec3d::new(n, p, p), Vec3d::new(p, p, p))
    } else if i == 9 {
        (Vec3d::new(n, p, n), Vec3d::new(p, p, p), Vec3d::new(p, p, n))
    } else if i == 10 {
        (Vec3d::new(p, n, p), Vec3d::new(n, n, p), Vec3d::new(n, n, n))
    } else {
        (Vec3d::new(p, n, p), Vec3d::new(n, n, n), Vec3d::new(p, n, n))
    }
}

impl Mesh {
    /// Whether `other` differs from this mesh in its triangles at most.
    pub open spec fn same_frame(self, other: Mesh) -> bool {
        &&& self.is_over == other.is_over
        &&& self.is_held == other.is_held
        &&& self.pos == other.pos
    }

    /// Creates a new Mesh without triangles at a position.
    pub fn new(pos: Vec3d) -> (mesh: Mesh)
        ensures
            mesh.tris@.len() == 0,
            !mesh.is_over,
            !mesh.is_held,
            mesh.pos == pos,
    {
        Mesh { tris: Vec::new(), is_over: false, is_held: false, pos }
    }

    /// Form a cube and set it to the Mesh: the unit cube about the position
    /// of the mesh, in colours picked at random.
    pub fn form_cube(&mut self)
        ensures
            old(self).same_frame(*final(self)),
            final(self).tris@.len() == 12,
            forall|i: int|
                0 <= i < 12 ==> {
                    let t = #[trigger] final(self).tris@[i];
                    &&& t == Triangle::assembled(normal_of(cube_face(i)), cube_face(i), t.color).moved(
                        old(self).pos,
                    )
                    &&& is_color(t.color)
                },
    {
        let mut tris: Vec<Triangle> = Vec::new();
        let mut i: usize = 0;
        while i < 12
            invariant
                i <= 12,
                tris@.len() == i,
                *self == *old(self),
                forall|k: int|
                    0 <= k < i ==> {
                        let t = #[trigger] tris@[k];
                        &&& t == Triangle::assembled(
                            normal_of(cube_face(k)),
                            cube_face(k),
                            t.color,
                        ).moved(self.pos)
                        &&& is_color(t.color)
                    },
            decreases 12 - i,
        {
            let v: (Vec3d, Vec3d, Vec3d) = cube_face_of(i);
            tris.push(Triangle::new(v.0, v.1, v.2).add(self.pos));
            i = i + 1;
        }
        self.tris = tris;
    }

    /// Rotates the Mesh arround the x-axis at the origin point.
    pub fn x_axis_rotation(&mut self, r: Angle, origin_y: i32, origin_z: i32)
        ensures
            old(self).same_frame(*final(self)),
            final(self).tris@.len() == old(self).tris@.len(),
            forall|i: int|
                0 <= i < old(self).tris@.len() ==> #[trigger] final(self).tris@[i] == old(
                    self,
                ).tris@[i].turned_x(r, origin_y, origin_z),
    {
        let mut i: usize = 0;
        while i < self.tris.len()
            invariant
                i <= self.tris@.len(),
                old(self).same_frame(*self),
                self.tris@.len() == old(self).tris@.len(),
                forall|k: int|
                    0 <= k < i ==> #[trigger] self.tris@[k] == old(self).tris@[k].turned_x(
                        r,
                        origin_y,
                        origin_z,
                    ),
                forall|k: int| i <= k < self.tris@.len() ==> self.tris@[k] == old(self).tris@[k],
            decreases self.tris@.len() - i,
        {
            let mut t: Triangle = self.tris[i];
            t.x_axis_rotation(r, origin_y, origin_z);
            self.tris.set(i, t);
            i = i + 1;
        }
    }

    /// Rotates the Mesh arround the y-axis at the origin point.
    pub fn y_axis_rotation(&mut self, r: Angle, origin_x: i32, origin_z: i32)
        ensures
            old(self).same_frame(*final(self)),
            final(self).tris@.len() == old(self).tris@.len(),
            forall|i: int|
                0 <= i < old(self).tris@.len() ==> #[trigger] final(self).tris@[i] == old(
                    self,
                ).tris@[i].turned_y(r, origin_x, origin_z),
    {
        let mut i: usize = 0;
        while i < self.tris.len()
            invariant
                i <= self.tris@.len(),
                old(self).same_frame(*self),
                self.tris@.len() == old(self).tris@.len(),
                forall|k: int|
                    0 <= k < i ==> #[trigger] self.tris@[k] == old(self).tris@[k].turned_y(
                        r,
                        origin_x,
                        origin_z,
                    ),
                forall|k: int| i <= k < self.tris@.len() ==> self.tris@[k] == old(self).tris@[k],
            decreases self.tris@.len() - i,
        {
            let mut t: Triangle = self.tris[i];
            t.y_axis_rotation(r, origin_x, origin_z);
            self.tris.set(i, t);
            i = i + 1;
        }
    }

    /// Rotates the Mesh arround the z-axis at the origin point.
    pub fn z_axis_rotation(&mut self, r: Angle, origin_x: i32, origin_y: i32)
        ensures
            old(self).same_frame(*final(self)),
            final(self).tris@.len() == old(self).tris@.len(),
            forall|i: int|
                0 <= i < old(self).tris@.len() ==> #[trigger] final(self).tris@[i] == old(
                    self,
                ).tris@[i].turned_z(r, origin_x, origin_y),
    {
        let mut i: usize = 0;
        while i < self.tris.len()
            invariant
                i <= self.tris@.len(),
                old(self).same_frame(*self),
                self.tris@.len() == old(self).tris@.len(),
                forall|k: int|
                    0 <= k < i ==> #[trigger] self.tris@[k] == old(self).tris@[k].turned_z(
                        r,
                        origin_x,
                        origin_y,
                    ),
                forall|k: int| i <= k < self.tris@.len() ==> self.tris@[k] == old(self).tris@[k],
            decreases self.tris@.len() - i,
        {
            let mut t: Triangle = self.tris[i];
            t.z_axis_rotation(r, origin_x, origin_y);
            self.tris.set(i, t);
            i = i + 1;
        }
    }

    /// Moves the position of the mesh and every triangle by `delta`.
    fn shift(&mut self, delta: Vec3d)
        ensures
            final(self).is_over == old(self).is_over,
            final(self).is_held == old(self).is_held,
            final(self).pos == old(self).pos.sum(delta),
            final(self).tris@.len() == old(self).tris@.len(),
            forall|i: int|
                0 <= i < old(self).tris@.len() ==> #[trigger] final(self).tris@[i] == old(
                    self,
                ).tris@[i].moved(delta),
    {
        self.pos = self.pos.add(delta);
        let mut i: usize = 0;
        while i < self.tris.len()
            invariant
                i <= self.tris@.len(),
                self.is_over == old(self).is_over,
                self.is_held == old(self).is_held,
                self.pos == old(self).pos.sum(delta),
                self.tris@.len() == old(self).tris@.len(),
                forall|k: int| 0 <= k < i ==> #[trigger] self.tris@[k] == old(self).tris@[k].moved(delta),
                forall|k: int| i <= k < self.tris@.len() ==> self.tris@[k] == old(self).tris@[k],
            decreases self.tris@.len() - i,
        {
            let t: Triangle = self.tris[i].add(delta);
            self.tris.set(i, t);
            i = i + 1;
        }
    }

    /// Increment the Mesh x position by a number.
    pub fn increment_x(&mut self, inc_x: i32)
        ensures
            final(self).is_over == old(self).is_over,
            final(self).is_held == old(self).is_held,
            final(self).pos == old(self).pos.sum(Vec3d { x: inc_x, y: 0, z: 0 }),
            final(self).tris@.len() == old(self).tris@.len(),
            forall|i: int|
                0 <= i < old(self).tris@.len() ==> #[trigger] final(self).tris@[i] == old(
                    self,
                ).tris@[i].moved(Vec3d { x: inc_x, y: 0, z: 0 }),
    {
        self.shift(Vec3d::new(inc_x, 0, 0));
    }

    /// Increment the Mesh y position by a number.
    pub fn increment_y(&mut self, inc_y: i32)
        ensures
            final(self).is_over == old(self).is_over,
            final(self).is_held == old(self).is_held,
            final(self).pos == old(self).pos.sum(Vec3d { x: 0, y: inc_y, z: 0 }),
            final(self).tris@.len() == old(self).tris@.len(),
            forall|i: int|
                0 <= i < old(self).tris@.len() ==> #[trigger] final(self).tris@[i] == old(
                    self,
                ).tris@[i].moved(Vec3d { x: 0, y: inc_y, z: 0 }),
    {
        self.shift(Vec3d::new(0, inc_y, 0));
    }

    /// Increment the Mesh z position by a number.
    pub fn increment_z(&mut self, inc_z: i32)
        ensures
            final(self).is_over == old(self).is_over,
            final(self).is_held == old(self).is_held,
            final(self).pos == old(self).pos.sum(Vec3d { x: 0, y: 0, z: inc_z }),
            final(self).tris@.len() == old(self).tris@.len(),
            forall|i: int|
                0 <= i < old(self).tris@.len() ==> #[trigger] final(self).tris@[i] == old(
                    self,
                ).tris@[i].moved(Vec3d { x: 0, y: 0, z: inc_z }),
    {
        self.shift(Vec3d::new(0, 0, inc_z));
    }
}

} // verus!
