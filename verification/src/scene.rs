//! The scene: one camera and the meshes it looks at, and what a frame does
//! to them.

use vstd::prelude::*;
use crate::camera::{view_rotation, Camera};
use crate::fixed::{fixed_mul, mul_spec, MINUS_ONE, SCALE};
use crate::mesh::Mesh;
use crate::painter::{farthest_first, painted};
use crate::triangle::Triangle;
use crate::vec3d::{Angle, Vec3d};

verus! {

/// Degrees that the camera turns in one unit of time: 4.5.
pub const TURN_RATE: i32 = 294912;

/// The keys that are held down during a frame.
#[derive(Copy, Clone, Debug, PartialEq, Eq, Structural)]
pub struct Keys {
    /// Look up.
    pub up: bool,
    /// Look down.
    pub down: bool,
    /// Look right.
    pub right: bool,
    /// Look left.
    pub left: bool,
    /// Move forward.
    pub w: bool,
    /// Move backward.
    pub s: bool,
    /// Move right.
    pub d: bool,
    /// Move left.
    pub a: bool,
    /// Move up.
    pub space: bool,
    /// Move down.
    pub shift: bool,
}

/// The Scene to be rendered.
#[derive(Clone, Debug, PartialEq, Eq)]
pub struct Scene {
    pub camera: Camera,
    pub mesh_vec: Vec<Mesh>,
}

/// A direction of the camera as the movement uses it: mirrored in x and y.
pub open spec fn mirrored(direction: Vec3d) -> Vec3d {
    direction.product(Vec3d { x: MINUS_ONE, y: MINUS_ONE, z: SCALE })
}

/// The camera after a frame of `time_factor` units of time with the keys
/// `keys` held down: turned by the arrow keys, then moved by the others, one
/// key after the other.
pub open spec fn driven(camera: Camera, keys: Keys, time_factor: i32) -> Camera {
    let turn = mul_spec(time_factor as int, TURN_RATE as int);
    let c1 = if keys.up {
        camera.pitched(-(turn as int))
    } else {
        camera
    };
    let c2 = if keys.down {
        c1.pitched(turn as int)
    } else {
        c1
    };
    let c3 = if keys.right {
        c2.yawed(turn as int)
    } else {
        c2
    };
    let c4 = if keys.left {
        c3.yawed(-(turn as int))
    } else {
        c3
    };
    let c5 = if keys.w {
        c4.advanced(mirrored(c4.m_forward), time_factor)
    } else {
        c4
    };
    let c6 = if keys.s {
        c5.retreated(mirrored(c5.m_forward), time_factor)
    } else {
        c5
    };
    let c7 = if keys.d {
        c6.retreated(mirrored(c6.m_right), time_factor)
    } else {
        c6
    };
    let c8 = if keys.a {
        c7.advanced(mirrored(c7.m_right), time_factor)
    } else {
        c7
    };
    let c9 = if keys.space {
        c8.advanced(Vec3d { x: 0, y: SCALE, z: 0 }, time_factor)
    } else {
        c8
    };
    if keys.shift {
        c9.retreated(Vec3d { x: 0, y: SCALE, z: 0 }, time_factor)
    } else {
        c9
    }
}

impl Scene {
    /// Creates a new Scene with a camera and the meshes to render.
    pub fn new(camera: Camera, mesh_vec: Vec<Mesh>) -> (scene: Scene)
        ensures
            scene.camera == camera,
            scene.mesh_vec == mesh_vec,
    {
        Scene { camera: camera, mesh_vec: mesh_vec }
    }

    /// Turns and moves the camera as the keys that are held down ask.
    ///
    /// `time_factor` is the time that the frame took, in units of a tenth of
    /// a second.
    pub fn update(&mut self, keys: Keys, time_factor: i32)
        ensures
            final(self).camera == driven(old(self).camera, keys, time_factor),
            final(self).mesh_vec == old(self).mesh_vec,
    {
        let turn: i32 = fixed_mul(time_factor, TURN_RATE);
        let flip: Vec3d = Vec3d::new(MINUS_ONE, MINUS_ONE, SCALE);
        if keys.up {
            self.camera.rotate_up(turn);
        }
        if keys.down {
            self.camera.rotate_down(turn);
        }
        if keys.right {
            self.camera.rotate_right(turn);
        }
        if keys.left {
            self.camera.rotate_left(turn);
        }
        if keys.w {
            let direction: Vec3d = self.camera.m_forward.mul(flip);
            self.camera.advance(direction, time_factor);
        }
        if keys.s {
            let direction: Vec3d = self.camera.m_forward.mul(flip);
            self.camera.retreat(direction, time_factor);
        }
        if keys.d {
            let direction: Vec3d = self.camera.m_right.mul(flip);
            self.camera.retreat(direction, time_factor);
        }
        if keys.a {
            let direction: Vec3d = self.camera.m_right.mul(flip);
            self.camera.advance(direction, time_factor);
        }
        if keys.space {
            self.camera.advance(Vec3d::new(0, SCALE, 0), time_factor);
        }
        if keys.shift {
            self.camera.retreat(Vec3d::new(0, SCALE, 0), time_factor);
        }
    }

    /// Projects every mesh of the scene: for each mesh, in order, the
    /// triangles to draw, the farthest first.
    ///
    /// Where the directions of the camera cannot be derived from `pitch` and
    /// `yaw`, nothing is drawn and the camera stays as it is.
    pub fn draw(&mut self, size: (i32, i32), pitch: Angle, yaw: Angle) -> (out: Vec<Vec<Triangle>>)
        requires
            size.0 > 0,
            size.1 > 0,
        ensures
            final(self).mesh_vec@.len() == old(self).mesh_vec@.len(),
            forall|i: int|
                0 <= i < old(self).mesh_vec@.len() ==> {
                    let now = #[trigger] final(self).mesh_vec@[i];
                    let then = old(self).mesh_vec@[i];
                    &&& now.tris == then.tris
                    &&& !now.is_over
                    &&& now.is_held == then.is_held
                    &&& now.pos == then.pos
                },
            out@.len() == old(self).mesh_vec@.len(),
            match old(self).camera.oriented(pitch, yaw) {
                None => {
                    &&& final(self).camera == old(self).camera
                    &&& forall|i: int| 0 <= i < out@.len() ==> (#[trigger] out@[i])@.len() == 0
                },
                Some(camera) => {
                    &&& final(self).camera == camera
                    &&& forall|i: int|
                        0 <= i < out@.len() ==> painted(
                            camera.projected_all(
                                old(self).mesh_vec@[i].tris@,
                                size,
                                view_rotation(pitch, yaw),
                            ),
                            (#[trigger] out@[i])@,
                        )
                },
            },
            forall|i: int| 0 <= i < out@.len() ==> farthest_first((#[trigger] out@[i])@),
            forall|i: int, j: int|
                0 <= i < out@.len() && 0 <= j < out@[i]@.len() ==> (#[trigger] out@[i]@[j]).within(
                    size.0,
                    size.1,
                ),
    {
        let mut out: Vec<Vec<Triangle>> = Vec::new();
        let mut i: usize = 0;
        self.camera.orient(pitch, yaw);
        while i < self.mesh_vec.len()
            invariant
                i <= self.mesh_vec@.len(),
                size.0 > 0,
                size.1 > 0,
                self.mesh_vec@.len() == old(self).mesh_vec@.len(),
                forall|k: int|
                    0 <= k < i ==> {
                        let now = #[trigger] self.mesh_vec@[k];
                        let then = old(self).mesh_vec@[k];
                        &&& now.tris == then.tris
                        &&& !now.is_over
                        &&& now.is_held == then.is_held
                        &&& now.pos == then.pos
                    },
                forall|k: int|
                    i <= k < self.mesh_vec@.len() ==> self.mesh_vec@[k] == old(self).mesh_vec@[k],
                out@.len() == i,
                match old(self).camera.oriented(pitch, yaw) {
                    None => {
                        &&& self.camera == old(self).camera
                        &&& forall|k: int| 0 <= k < i ==> (#[trigger] out@[k])@.len() == 0
                    },
                    Some(camera) => {
                        &&& self.camera == camera
                        &&& forall|k: int|
                            0 <= k < i ==> painted(
                                camera.projected_all(
                                    old(self).mesh_vec@[k].tris@,
                                    size,
                                    view_rotation(pitch, yaw),
                                ),
                                (#[trigger] out@[k])@,
                            )
                    },
                },
                forall|k: int| 0 <= k < i ==> farthest_first((#[trigger] out@[k])@),
                forall|k: int, j: int|
                    0 <= k < i && 0 <= j < out@[k]@.len() ==> (#[trigger] out@[k]@[j]).within(
                        size.0,
                        size.1,
                    ),
            decreases self.mesh_vec@.len() - i,
        {
            self.mesh_vec[i].is_over = false;
            let tris: Vec<Triangle> = self.camera.project_all(
                &self.mesh_vec[i].tris,
                size,
                pitch,
                yaw,
            );
            out.push(tris);
            i = i + 1;
        }
        out
    }
}

} // verus!
