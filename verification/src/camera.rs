//! The camera: its pose, the rotation it looks through, and the projection
//! of world-space triangles onto the screen.
//!
//! A point is projected by intersecting the ray from the eye through the
//! point with the view plane: the plane is spanned by two screen vectors, and
//! the three unknowns are found by inverting a 3x3 matrix.

use vstd::prelude::*;
use crate::fixed::{
    div_spec, fixed_div, fixed_mul, mul_spec, quotient, sat, saturate, trunc_div, wide_mul, HALF,
    MINUS_HALF, MINUS_ONE, SCALE,
};
use crate::matrix3x3::Matrix3x3;
use crate::mesh::Mesh;
use crate::painter::{farthest_first, painted};
use crate::triangle::Triangle;
use crate::vec3d::{Angle, Vec3d};

verus! {

/// Half a turn in degrees, as a scalar.
pub const HALF_TURN: i32 = 11796480;

/// A full turn in degrees, as a scalar.
pub const FULL_TURN: i32 = 23592960;

/// The least cosine, exclusive, between the forward direction and the
/// direction to a triangle that is still in view: about 0.4.
pub const VIEW_THRESHOLD: i32 = 26214;

/// The budget that the projection gives the clipper.
pub const CLIP_DEPTH: i32 = 4;

/// A Camera has a position and a rotation
/// as well as forward up and right vectors
/// used for moving the camera quickly.
#[derive(Copy, Clone, Debug, PartialEq, Eq)]
pub struct Camera {
    pub position: Vec3d,
    /// Euler angles in degrees: `x` is the pitch, `y` the yaw.
    pub rotation: Vec3d,
    /// The direction the camera looks in. Derived by every projection pass.
    pub r_forward: Vec3d,
    /// The direction of a step forward. Derived by every projection pass.
    pub m_forward: Vec3d,
    /// The direction of a step to the right. Derived by every projection pass.
    pub m_right: Vec3d,
    /// The threshold of the view test, see `VIEW_THRESHOLD`.
    pub view_threshold: i32,
}

/// An angle in degrees brought back by whole turns into the range from minus
/// half a turn, exclusive, to half a turn, inclusive. An angle in the range
/// stays as it is.
pub open spec fn wrapped(v: int) -> int {
    HALF_TURN - ((HALF_TURN - v) % (FULL_TURN as int))
}

/// The rotation about the x axis by `a`.
pub open spec fn pitch_matrix(a: Angle) -> Matrix3x3 {
    Matrix3x3 { m: [[SCALE, 0, 0], [0, a.cos, a.sin], [0, sat(-(a.sin as int)), a.cos]] }
}

/// The rotation about the y axis by `a`.
pub open spec fn yaw_matrix(a: Angle) -> Matrix3x3 {
    Matrix3x3 { m: [[a.cos, 0, sat(-(a.sin as int))], [0, SCALE, 0], [a.sin, 0, a.cos]] }
}

/// The rotation that a camera with the given pitch and yaw looks through.
pub open spec fn view_rotation(pitch: Angle, yaw: Angle) -> Matrix3x3 {
    pitch_matrix(pitch).times(yaw_matrix(yaw))
}

/// The point `p` of the view plane, whose visible part runs from -1 to 1 in
/// both directions, in pixels of a viewport of the given size.
pub open spec fn on_viewport(p: Vec3d, size: (i32, i32)) -> Vec3d {
    Vec3d {
        x: sat(trunc_div((p.x + SCALE) * size.0, 2 * SCALE)),
        y: sat(trunc_div((p.y + SCALE) * size.1, 2 * SCALE)),
        z: p.z,
    }
}

/// A wrapped angle lies in the range and differs from the angle by whole
/// turns.
pub proof fn lemma_wrapped(v: int)
    ensures
        -HALF_TURN < wrapped(v) <= HALF_TURN,
        (wrapped(v) - v) % (FULL_TURN as int) == 0,
        -HALF_TURN < v <= HALF_TURN ==> wrapped(v) == v,
{
}

/// Brings an angle in degrees back into the range: takes whole turns off it,
/// or adds them, until it lies in the range.
fn wrap(v: i64) -> (r: i32)
    requires
        -0x1_0000_0000 <= v <= 0x1_0000_0000,
    ensures
        r as int == wrapped(v as int),
        -HALF_TURN < r <= HALF_TURN,
{
    let mut new_rt: i64 = v;
    while new_rt > HALF_TURN as i64 || new_rt <= -(HALF_TURN as i64)
        invariant
            -0x1_0000_0000 <= new_rt <= 0x1_0000_0000,
            wrapped(new_rt as int) == wrapped(v as int),
        decreases
                (if new_rt > HALF_TURN {
                    new_rt - HALF_TURN
                } else if new_rt <= -HALF_TURN {
                    1 - HALF_TURN - new_rt
                } else {
                    0
                }),
    {
        if new_rt > HALF_TURN as i64 {
            new_rt = -(FULL_TURN as i64) + new_rt;
        }
        if new_rt <= -(HALF_TURN as i64) {
            new_rt = FULL_TURN as i64 + new_rt;
        }
    }
    new_rt as i32
}

/// The rotation about the x axis by `a`.
pub fn pitch_rotation(a: Angle) -> (r: Matrix3x3)
    ensures
        r == pitch_matrix(a),
{
    Matrix3x3 { m: [[SCALE, 0, 0], [0, a.cos, a.sin], [0, saturate(-(a.sin as i128)), a.cos]] }
}

/// The rotation about the y axis by `a`.
pub fn yaw_rotation(a: Angle) -> (r: Matrix3x3)
    ensures
        r == yaw_matrix(a),
{
    Matrix3x3 { m: [[a.cos, 0, saturate(-(a.sin as i128))], [0, SCALE, 0], [a.sin, 0, a.cos]] }
}

/// Maps a point of the view plane to pixels.
fn to_viewport(p: Vec3d, size: (i32, i32)) -> (v: Vec3d)
    ensures
        v == on_viewport(p, size),
{
    Vec3d {
        x: saturate(
            quotient(wide_mul(p.x as i64 + SCALE as i64, size.0 as i64), 2 * (SCALE as i128)),
        ),
        y: saturate(
            quotient(wide_mul(p.y as i64 + SCALE as i64, size.1 as i64), 2 * (SCALE as i128)),
        ),
        z: p.z,
    }
}

impl Camera {
    /// The camera with its three directions derived from pitch and yaw, or
    /// `None` where one of them has no direction: where an angle is zero in
    /// both cosine and sine, or so small that a product rounds to zero.
    pub open spec fn oriented(self, pitch: Angle, yaw: Angle) -> Option<Camera> {
        let ahead = Vec3d { x: 0, y: 0, z: SCALE };
        let aside = Vec3d { x: SCALE, y: 0, z: 0 };
        let r_forward = view_rotation(pitch, yaw).applied(ahead);
        let m_forward = yaw_matrix(yaw).applied(ahead);
        let m_right = yaw_matrix(yaw).applied(aside);
        if r_forward.is_zero() || m_forward.is_zero() || m_right.is_zero() {
            None
        } else {
            Some(
                Camera {
                    position: self.position,
                    rotation: self.rotation,
                    r_forward: r_forward.unit(),
                    m_forward: m_forward.unit(),
                    m_right: m_right.unit(),
                    view_threshold: self.view_threshold,
                },
            )
        }
    }

    /// The camera with its pitch changed by `n` degrees and wrapped.
    pub open spec fn pitched(self, n: int) -> Camera {
        Camera {
            position: self.position,
            rotation: Vec3d {
                x: wrapped(self.rotation.x + n) as i32,
                y: self.rotation.y,
                z: self.rotation.z,
            },
            r_forward: self.r_forward,
            m_forward: self.m_forward,
            m_right: self.m_right,
            view_threshold: self.view_threshold,
        }
    }

    /// The camera with its yaw changed by `n` degrees and wrapped.
    pub open spec fn yawed(self, n: int) -> Camera {
        Camera {
            position: self.position,
            rotation: Vec3d {
                x: self.rotation.x,
                y: wrapped(self.rotation.y + n) as i32,
                z: self.rotation.z,
            },
            r_forward: self.r_forward,
            m_forward: self.m_forward,
            m_right: self.m_right,
            view_threshold: self.view_threshold,
        }
    }

    /// The camera moved by `amount` along `direction`, or left where it is if
    /// `direction` is zero.
    pub open spec fn advanced(self, direction: Vec3d, amount: i32) -> Camera {
        if direction.is_zero() {
            self
        } else {
            Camera {
                position: self.position.sum(direction.unit().scaled(amount)),
                rotation: self.rotation,
                r_forward: self.r_forward,
                m_forward: self.m_forward,
                m_right: self.m_right,
                view_threshold: self.view_threshold,
            }
        }
    }

    /// The camera moved by `amount` against `direction`, or left where it is
    /// if `direction` is zero.
    pub open spec fn retreated(self, direction: Vec3d, amount: i32) -> Camera {
        if direction.is_zero() {
            self
        } else {
            Camera {
                position: self.position.difference(direction.unit().scaled(amount)),
                rotation: self.rotation,
                r_forward: self.r_forward,
                m_forward: self.m_forward,
                m_right: self.m_right,
                view_threshold: self.view_threshold,
            }
        }
    }

    /// The vector from the camera to the centre of `tri`.
    pub open spec fn look_at(self, tri: Triangle) -> Vec3d {
        tri.center.difference(self.position)
    }

    /// Whether `tri` faces the camera: its normal points against the
    /// direction from the camera to its centre, strictly.
    pub open spec fn faces(self, tri: Triangle) -> bool {
        tri.normal.dot_wide(self.look_at(tri)) < 0
    }

    /// Whether the centre of `tri` lies in view: the cosine between the
    /// forward direction and the direction to the centre exceeds the
    /// threshold. The x term of the dot product is negated and the y term
    /// taken by its magnitude.
    pub open spec fn in_view(self, tri: Triangle) -> bool {
        let look = self.look_at(tri);
        let f = self.r_forward;
        let vertical = f.y * look.y;
        -(f.x * look.x) + (if vertical < 0 {
            -vertical
        } else {
            vertical
        }) + f.z * look.z > self.view_threshold * look.length_wide()
    }

    /// Whether the camera sees `tri`: it lies apart from the camera, faces it
    /// and is in view.
    pub open spec fn sees(self, tri: Triangle) -> bool {
        &&& !self.look_at(tri).is_zero()
        &&& self.faces(tri)
        &&& self.in_view(tri)
    }

    /// The depth of `tri`: the distance from the camera to its centre.
    pub open spec fn depth_of(self, tri: Triangle) -> i32 {
        sat(self.look_at(tri).length_wide())
    }

    /// The point of the view plane that the world point `point` is seen at,
    /// and as its third coordinate the parameter of the ray. `None` where the
    /// screen vectors and the ray do not span the space.
    #[verifier::opaque]
    pub open spec fn point_projected(self, point: Vec3d, size: (i32, i32), r: Matrix3x3) -> Option<
        Vec3d,
    > {
        let e1 = r.applied(Vec3d { x: SCALE, y: 0, z: 0 });
        let e2 = r.applied(Vec3d { x: 0, y: SCALE, z: 0 });
        let forward = r.applied(Vec3d { x: 0, y: 0, z: SCALE });
        let ray = r.times(r).applied(self.position.difference(point));
        if e1.is_zero() || e2.is_zero() {
            None
        } else {
            let across = e1.unit().scaled(
                mul_spec(HALF as int, div_spec(size.0 as int, size.1 as int) as int),
            );
            let down = e2.unit().scaled(MINUS_HALF);
            let system = Matrix3x3::with_columns(across, down, ray);
            if system.det_wide() == 0 {
                None
            } else {
                Some(system.inverted().applied(forward.scaled(MINUS_ONE)))
            }
        }
    }

    /// The triangle `tri` on the screen, before it is clipped: its vertices
    /// projected and mapped to pixels, its depth attached. `None` where a
    /// vertex has no projection.
    pub open spec fn screen_triangle(self, tri: Triangle, size: (i32, i32), r: Matrix3x3) -> Option<
        Triangle,
    > {
        let a = self.point_projected(tri.verticies.0, size, r);
        let b = self.point_projected(tri.verticies.1, size, r);
        let c = self.point_projected(tri.verticies.2, size, r);
        if a.is_none() || b.is_none() || c.is_none() {
            None
        } else {
            let flat = tri.reshaped(
                on_viewport(a.unwrap(), size),
                on_viewport(b.unwrap(), size),
                on_viewport(c.unwrap(), size),
            );
            Some(
                Triangle {
                    normal: flat.normal,
                    verticies: flat.verticies,
                    color: flat.color,
                    center: flat.center,
                    dist: self.depth_of(tri),
                },
            )
        }
    }

    /// What the camera draws of `tri`: nothing if it does not see it or
    /// cannot project it, else its screen triangle clipped to the viewport.
    pub open spec fn projected(self, tri: Triangle, size: (i32, i32), r: Matrix3x3) -> Seq<
        Triangle,
    > {
        if !self.sees(tri) {
            Seq::empty()
        } else {
            match self.screen_triangle(tri, size, r) {
                None => Seq::empty(),
                Some(flat) => flat.clipped(size.0, size.1, CLIP_DEPTH as int),
            }
        }
    }

    /// What the camera draws of each of `tris`, one after the other.
    pub open spec fn projected_all(self, tris: Seq<Triangle>, size: (i32, i32), r: Matrix3x3) -> Seq<
        Triangle,
    >
        decreases tris.len(),
    {
        if tris.len() == 0 {
            Seq::empty()
        } else {
            self.projected_all(tris.drop_last(), size, r) + self.projected(tris.last(), size, r)
        }
    }

    /// Everything that the camera draws lies within the viewport.
    pub proof fn lemma_projected_all_within(
        self,
        tris: Seq<Triangle>,
        size: (i32, i32),
        r: Matrix3x3,
    )
        ensures
            forall|i: int|
                0 <= i < self.projected_all(tris, size, r).len() ==> (
                #[trigger] self.projected_all(tris, size, r)[i]).within(size.0, size.1),
        decreases tris.len(),
    {
        if tris.len() > 0 {
            let before = self.projected_all(tris.drop_last(), size, r);
            let last = self.projected(tris.last(), size, r);
            self.lemma_projected_all_within(tris.drop_last(), size, r);
            self.lemma_projected_within(tris.last(), size, r);
            assert forall|i: int| 0 <= i < (before + last).len() implies (#[trigger] (before
                + last)[i]).within(size.0, size.1) by {
                if i < before.len() {
                    assert((before + last)[i] == before[i]);
                } else {
                    assert((before + last)[i] == last[i - before.len()]);
                }
            }
        }
    }

    /// Everything that the camera draws of a triangle lies within the
    /// viewport, and has the depth and the colour of the triangle.
    pub proof fn lemma_projected_within(self, tri: Triangle, size: (i32, i32), r: Matrix3x3)
        ensures
            forall|i: int|
                0 <= i < self.projected(tri, size, r).len() ==> {
                    let t = #[trigger] self.projected(tri, size, r)[i];
                    &&& t.within(size.0, size.1)
                    &&& t.dist == self.depth_of(tri)
                    &&& t.color == tri.color
                },
    {
        if self.sees(tri) && self.screen_triangle(tri, size, r).is_some() {
            self.screen_triangle(tri, size, r).unwrap().lemma_clipped_contained(
                size.0,
                size.1,
                CLIP_DEPTH as int,
            );
        }
    }

    /// Creates a new camera object with a position and a roation.
    pub fn new(pos: Vec3d, rotation: Vec3d) -> (camera: Camera)
        ensures
            camera == (Camera {
                position: pos,
                rotation: rotation,
                r_forward: Vec3d { x: 0, y: 0, z: SCALE },
                m_forward: Vec3d { x: 0, y: 0, z: SCALE },
                m_right: Vec3d { x: SCALE, y: 0, z: 0 },
                view_threshold: VIEW_THRESHOLD,
            }),
    {
        Camera {
            position: pos,
            rotation: rotation,
            r_forward: Vec3d::new(0, 0, SCALE),
            m_forward: Vec3d::new(0, 0, SCALE),
            m_right: Vec3d::new(SCALE, 0, 0),
            view_threshold: VIEW_THRESHOLD,
        }
    }

    /// Turns the camera up by `n` degrees.
    pub fn rotate_up(&mut self, n: i32)
        ensures
            *final(self) == old(self).pitched(-(n as int)),
            -HALF_TURN < final(self).rotation.x <= HALF_TURN,
    {
        self.rotation.x = wrap(self.rotation.x as i64 - n as i64);
    }

    /// Turns the camera down by `n` degrees.
    pub fn rotate_down(&mut self, n: i32)
        ensures
            *final(self) == old(self).pitched(n as int),
            -HALF_TURN < final(self).rotation.x <= HALF_TURN,
    {
        self.rotation.x = wrap(self.rotation.x as i64 + n as i64);
    }

    /// Turns the camera left by `n` degrees.
    pub fn rotate_left(&mut self, n: i32)
        ensures
            *final(self) == old(self).yawed(-(n as int)),
            -HALF_TURN < final(self).rotation.y <= HALF_TURN,
    {
        self.rotation.y = wrap(self.rotation.y as i64 - n as i64);
    }

    /// Turns the camera right by `n` degrees.
    pub fn rotate_right(&mut self, n: i32)
        ensures
            *final(self) == old(self).yawed(n as int),
            -HALF_TURN < final(self).rotation.y <= HALF_TURN,
    {
        self.rotation.y = wrap(self.rotation.y as i64 + n as i64);
    }

    /// Whether the camera sees `tri`.
    pub fn can_see(&self, tri: &Triangle) -> (b: bool)
        ensures
            b == self.sees(*tri),
    {
        let look: Vec3d = tri.center.sub(self.position);
        let len: u64 = look.length_raw();
        if len == 0 {
            return false;
        }
        let facing: bool = tri.normal.dot_raw(look) < 0;
        let f: Vec3d = self.r_forward;
        let across: i128 = wide_mul(f.x as i64, look.x as i64);
        let vertical: i128 = wide_mul(f.y as i64, look.y as i64);
        let along: i128 = wide_mul(f.z as i64, look.z as i64);
        let lifted: i128 = if vertical < 0 {
            -vertical
        } else {
            vertical
        };
        let gate: i128 = wide_mul(self.view_threshold as i64, len as i64);
        facing && -across + lifted + along > gate
    }

    /// The depth of `tri`.
    pub fn depth(&self, tri: &Triangle) -> (d: i32)
        ensures
            d == self.depth_of(*tri),
    {
        saturate(tri.center.sub(self.position).length_raw() as i128)
    }

    /// Projects a world point onto the view plane.
    ///
    /// The result holds the coordinates of the point on the plane, each from
    /// -1 to 1 where it is visible, and the parameter of the ray.
    pub fn get_point_projection(self, point: Vec3d, size: (i32, i32), r: Matrix3x3) -> (p: Option<
        Vec3d,
    >)
        requires
            size.0 > 0,
            size.1 > 0,
        ensures
            p == self.point_projected(point, size, r),
    {
        proof {
            reveal(Camera::point_projected);
        }
        let mut v_e1: Vec3d = r.mul_vec3d(Vec3d::new(SCALE, 0, 0));
        let mut v_e2: Vec3d = r.mul_vec3d(Vec3d::new(0, SCALE, 0));
        let v_f: Vec3d = r.mul_vec3d(Vec3d::new(0, 0, SCALE));
        let v_v: Vec3d = r.mul(r).mul_vec3d(self.position.sub(point));
        if (v_e1.x == 0 && v_e1.y == 0 && v_e1.z == 0) || (v_e2.x == 0 && v_e2.y == 0 && v_e2.z
            == 0) {
            return None;
        }
        // size the screen cord plane aspect ratio and screen limits
        v_e1.set_length(fixed_mul(HALF, fixed_div(size.0, size.1)));
        v_e2.set_length(MINUS_HALF);  // compensate for flipped y on the x,y plane of the screen
        let mat: Matrix3x3 = Matrix3x3::from_vec3ds(v_e1, v_e2, v_v);
        match mat.try_inverse() {
            None => None,
            Some(inverse_mat) => Some(inverse_mat.mul_vec3d(v_f.scale(MINUS_ONE))),
        }
    }

    /// Projects one triangle: tests whether the camera sees it, projects its
    /// vertices, maps them to the viewport, clips, and attaches the depth.
    pub fn project_triangle(&self, tri: &Triangle, size: (i32, i32), r: Matrix3x3) -> (out: Vec<
        Triangle,
    >)
        requires
            size.0 > 0,
            size.1 > 0,
        ensures
            out@ == self.projected(*tri, size, r),
            !self.faces(*tri) ==> out@.len() == 0,
            forall|i: int|
                0 <= i < out@.len() ==> {
                    let t = #[trigger] out@[i];
                    &&& t.within(size.0, size.1)
                    &&& t.dist == self.depth_of(*tri)
                    &&& t.color == tri.color
                },
    {
        if !self.can_see(tri) {
            return Vec::new();
        }
        let a: Option<Vec3d> = self.get_point_projection(tri.verticies.0, size, r);
        let b: Option<Vec3d> = self.get_point_projection(tri.verticies.1, size, r);
        let c: Option<Vec3d> = self.get_point_projection(tri.verticies.2, size, r);
        match (a, b, c) {
            (Some(a), Some(b), Some(c)) => {
                let mut tri_projected: Triangle = tri.reshape(
                    to_viewport(a, size),
                    to_viewport(b, size),
                    to_viewport(c, size),
                );
                tri_projected.dist = self.depth(tri);
                proof {
                    tri_projected.lemma_clipped_contained(size.0, size.1, CLIP_DEPTH as int);
                }
                tri_projected.clip(size.0, size.1, CLIP_DEPTH)
            },
            _ => Vec::new(),
        }
    }

    /// Moves the camera by `amount` along `direction`.
    pub fn advance(&mut self, direction: Vec3d, amount: i32)
        ensures
            *final(self) == old(self).advanced(direction, amount),
    {
        if !(direction.x == 0 && direction.y == 0 && direction.z == 0) {
            let mut step: Vec3d = direction;
            self.position = self.position.add(step.set_length(amount));
        }
    }

    /// Moves the camera by `amount` against `direction`.
    pub fn retreat(&mut self, direction: Vec3d, amount: i32)
        ensures
            *final(self) == old(self).retreated(direction, amount),
    {
        if !(direction.x == 0 && direction.y == 0 && direction.z == 0) {
            let mut step: Vec3d = direction;
            self.position = self.position.sub(step.set_length(amount));
        }
    }

    /// Derives the three directions of the camera from `pitch` and `yaw`,
    /// the cosine and sine of the two angles of its rotation. Returns whether
    /// they could be derived; if not, the camera stays as it is.
    pub fn orient(&mut self, pitch: Angle, yaw: Angle) -> (done: bool)
        ensures
            match old(self).oriented(pitch, yaw) {
                None => !done && *final(self) == *old(self),
                Some(camera) => done && *final(self) == camera,
            },
    {
        let r_y: Matrix3x3 = yaw_rotation(yaw);
        let r: Matrix3x3 = pitch_rotation(pitch).mul(r_y);
        let mut r_forward: Vec3d = r.mul_vec3d(Vec3d::new(0, 0, SCALE));
        let mut m_forward: Vec3d = r_y.mul_vec3d(Vec3d::new(0, 0, SCALE));
        let mut m_right: Vec3d = r_y.mul_vec3d(Vec3d::new(SCALE, 0, 0));
        if (r_forward.x == 0 && r_forward.y == 0 && r_forward.z == 0) || (m_forward.x == 0
            && m_forward.y == 0 && m_forward.z == 0) || (m_right.x == 0 && m_right.y == 0
            && m_right.z == 0) {
            return false;
        }
        self.r_forward = r_forward.normalize();
        self.m_forward = m_forward.normalize();
        self.m_right = m_right.normalize();
        true
    }

    /// Projects the triangles `tris` and orders what is drawn of them, the
    /// farthest first.
    ///
    /// The three directions of the camera are derived from `pitch` and
    /// `yaw`, the cosine and sine of the two angles of its rotation. Where
    /// they cannot be derived, nothing is drawn and the camera stays as it is.
    pub fn project_all(
        &mut self,
        tris: &Vec<Triangle>,
        size: (i32, i32),
        pitch: Angle,
        yaw: Angle,
    ) -> (out: Vec<Triangle>)
        requires
            size.0 > 0,
            size.1 > 0,
        ensures
            match old(self).oriented(pitch, yaw) {
                None => *final(self) == *old(self) && out@.len() == 0,
                Some(camera) => {
                    &&& *final(self) == camera
                    &&& painted(
                        camera.projected_all(tris@, size, view_rotation(pitch, yaw)),
                        out@,
                    )
                    &&& out@.to_multiset() == camera.projected_all(
                        tris@,
                        size,
                        view_rotation(pitch, yaw),
                    ).to_multiset()
                },
            },
            farthest_first(out@),
            forall|i: int| 0 <= i < out@.len() ==> (#[trigger] out@[i]).within(size.0, size.1),
    {
        if !self.orient(pitch, yaw) {
            return Vec::new();
        }
        let r: Matrix3x3 = pitch_rotation(pitch).mul(yaw_rotation(yaw));
        let mut found: Vec<Triangle> = Vec::new();
        let s: usize = tris.len();
        let mut i: usize = 0;
        while i < s
            invariant
                i <= s,
                s == tris@.len(),
                size.0 > 0,
                size.1 > 0,
                *self == old(self).oriented(pitch, yaw).unwrap(),
                found@ == self.projected_all(tris@.subrange(0, i as int), size, r),
            decreases s - i,
        {
            let mut projected_tris: Vec<Triangle> = self.project_triangle(&tris[i], size, r);
            proof {
                let upto = tris@.subrange(0, i as int + 1);
                assert(upto.drop_last() =~= tris@.subrange(0, i as int));
                assert(upto.last() == tris@[i as int]);
            }
            found.append(&mut projected_tris);
            i = i + 1;
        }
        proof {
            assert(tris@.subrange(0, s as int) =~= tris@);
            self.lemma_projected_all_within(tris@, size, r);
        }
        let out: Vec<Triangle> = Triangle::painters_algorithm(&found);
        proof {
            assert forall|i: int| 0 <= i < out@.len() implies (#[trigger] out@[i]).within(
                size.0,
                size.1,
            ) by {
                out@.to_multiset_ensures();
                found@.to_multiset_ensures();
                assert(out@.to_multiset().count(out@[i]) > 0);
                assert(found@.contains(out@[i]));
            }
        }
        out
    }

    /// Creates a vec and populates it with all the projected triangles of
    /// the mesh, the farthest first. See `project_all`.
    pub fn get_projected_triangles(
        &mut self,
        real_mesh: Mesh,
        size: (i32, i32),
        pitch: Angle,
        yaw: Angle,
    ) -> (out: Vec<Triangle>)
        requires
            size.0 > 0,
            size.1 > 0,
        ensures
            match old(self).oriented(pitch, yaw) {
                None => *final(self) == *old(self) && out@.len() == 0,
                Some(camera) => {
                    &&& *final(self) == camera
                    &&& painted(
                        camera.projected_all(real_mesh.tris@, size, view_rotation(pitch, yaw)),
                        out@,
                    )
                    &&& out@.to_multiset() == camera.projected_all(
                        real_mesh.tris@,
                        size,
                        view_rotation(pitch, yaw),
                    ).to_multiset()
                },
            },
            farthest_first(out@),
            forall|i: int| 0 <= i < out@.len() ==> (#[trigger] out@[i]).within(size.0, size.1),
    {
        self.project_all(&real_mesh.tris, size, pitch, yaw)
    }
}

} // verus!
