use engine3d::camera::Camera;
use engine3d::fixed::SCALE;
use engine3d::matrix4x4::Matrix4x4;
use engine3d::mesh::Mesh;
use engine3d::scene::{Keys, Scene, TURN_RATE};
use engine3d::vec3d::{Angle, Vec3d};

fn no_keys() -> Keys {
    Keys {
        up: false,
        down: false,
        right: false,
        left: false,
        w: false,
        s: false,
        d: false,
        a: false,
        space: false,
        shift: false,
    }
}

fn scene() -> Scene {
    let camera = Camera::new(Vec3d::new(0, 0, -4 * SCALE), Vec3d::new(0, 0, 0));
    let mut cube = Mesh::new(Vec3d::new(0, 0, 0));
    cube.form_cube();
    let mut behind = Mesh::new(Vec3d::new(0, 0, 5 * SCALE));
    behind.form_cube();
    behind.is_over = true;
    Scene::new(camera, vec![cube, behind, Mesh::new(Vec3d::new(0, 0, 0))])
}

#[test]
fn new_scene_holds_camera_and_meshes() {
    let s = scene();
    assert_eq!(s.camera.position, Vec3d::new(0, 0, -4 * SCALE));
    assert_eq!(s.mesh_vec.len(), 3);
    assert_eq!(s.mesh_vec[0].tris.len(), 12);
    assert_eq!(s.mesh_vec[1].pos, Vec3d::new(0, 0, 5 * SCALE));
}

#[test]
fn no_keys_no_change() {
    let mut s = scene();
    let before = s.camera;
    s.update(no_keys(), SCALE);
    assert_eq!(s.camera, before);
    assert_eq!(s.mesh_vec.len(), 3);
}

#[test]
fn arrow_keys_turn_the_camera() {
    assert_eq!(TURN_RATE, 9 * SCALE / 2);
    let mut s = scene();
    s.update(Keys { up: true, ..no_keys() }, 2 * SCALE);
    assert_eq!(s.camera.rotation, Vec3d::new(-9 * SCALE, 0, 0));
    s.update(Keys { down: true, ..no_keys() }, 4 * SCALE);
    assert_eq!(s.camera.rotation, Vec3d::new(9 * SCALE, 0, 0));
    s.update(Keys { right: true, ..no_keys() }, 40 * SCALE);
    assert_eq!(s.camera.rotation, Vec3d::new(9 * SCALE, 180 * SCALE, 0));
    s.update(Keys { right: true, ..no_keys() }, 2 * SCALE);
    assert_eq!(s.camera.rotation, Vec3d::new(9 * SCALE, -171 * SCALE, 0));
    s.update(Keys { left: true, ..no_keys() }, 2 * SCALE);
    assert_eq!(s.camera.rotation, Vec3d::new(9 * SCALE, 180 * SCALE, 0));
    // both at once cancel
    s.update(Keys { left: true, right: true, up: true, down: true, ..no_keys() }, SCALE);
    assert_eq!(s.camera.rotation, Vec3d::new(9 * SCALE, 180 * SCALE, 0));
    assert_eq!(s.camera.position, Vec3d::new(0, 0, -4 * SCALE));
}

#[test]
fn letter_keys_move_the_camera() {
    let mut s = scene();
    s.update(Keys { w: true, ..no_keys() }, SCALE / 2);
    assert_eq!(s.camera.position, Vec3d::new(0, 0, -4 * SCALE + SCALE / 2));
    s.update(Keys { s: true, ..no_keys() }, SCALE);
    assert_eq!(s.camera.position, Vec3d::new(0, 0, -4 * SCALE - SCALE / 2));
    // the right of the camera is mirrored: d takes it along x
    s.update(Keys { d: true, ..no_keys() }, SCALE);
    assert_eq!(s.camera.position, Vec3d::new(SCALE, 0, -4 * SCALE - SCALE / 2));
    s.update(Keys { a: true, ..no_keys() }, 3 * SCALE);
    assert_eq!(s.camera.position, Vec3d::new(-2 * SCALE, 0, -4 * SCALE - SCALE / 2));
    s.update(Keys { space: true, ..no_keys() }, SCALE);
    assert_eq!(s.camera.position, Vec3d::new(-2 * SCALE, SCALE, -4 * SCALE - SCALE / 2));
    s.update(Keys { shift: true, ..no_keys() }, 2 * SCALE);
    assert_eq!(s.camera.position, Vec3d::new(-2 * SCALE, -SCALE, -4 * SCALE - SCALE / 2));
    assert_eq!(s.camera.rotation, Vec3d::new(0, 0, 0));
}

#[test]
fn camera_without_direction_stays_where_it_is() {
    let mut s = scene();
    s.camera.m_forward = Vec3d::new(0, 0, 0);
    s.camera.m_right = Vec3d::new(0, 0, 0);
    let before = s.camera;
    s.update(Keys { w: true, s: true, a: true, d: true, ..no_keys() }, SCALE);
    assert_eq!(s.camera, before);
    let mut c = before;
    c.advance(Vec3d::new(0, 0, 0), SCALE);
    c.retreat(Vec3d::new(0, 0, 0), SCALE);
    assert_eq!(c, before);
    c.advance(Vec3d::new(0, 0, 5), 3 * SCALE);
    assert_eq!(c.position, Vec3d::new(0, 0, -SCALE));
    c.retreat(Vec3d::new(7, 0, 0), SCALE);
    assert_eq!(c.position, Vec3d::new(-SCALE, 0, -SCALE));
}

#[test]
fn draw_projects_every_mesh() {
    let mut s = scene();
    let level = Angle::new(SCALE, 0);
    let out = s.draw((800 * SCALE, 600 * SCALE), level, level);
    assert_eq!(out.len(), 3);
    assert_eq!(out[0].len(), 2);
    assert_eq!(out[1].len(), 2);
    assert_eq!(out[2].len(), 0);
    assert!(out[1][0].dist > out[0][0].dist);
    for m in &s.mesh_vec {
        assert!(!m.is_over);
    }
    assert_eq!(s.mesh_vec[0].tris.len(), 12);
    for tris in &out {
        for pair in tris.windows(2) {
            assert!(pair[0].dist >= pair[1].dist);
        }
        for t in tris {
            for v in [t.verticies.0, t.verticies.1, t.verticies.2] {
                assert!(0 <= v.x && v.x <= 800 * SCALE);
                assert!(0 <= v.y && v.y <= 600 * SCALE);
            }
        }
    }
}

#[test]
fn draw_with_angles_without_direction() {
    let mut s = scene();
    let before = s.camera;
    let out = s.draw((800 * SCALE, 600 * SCALE), Angle::new(0, 0), Angle::new(SCALE, 0));
    assert_eq!(out, vec![vec![], vec![], vec![]]);
    assert_eq!(s.camera, before);
    assert!(!s.mesh_vec[1].is_over);
    let mut none = Scene::new(before, vec![]);
    assert_eq!(none.draw((SCALE, SCALE), Angle::new(0, SCALE), Angle::new(0, SCALE)), Vec::<Vec<_>>::new());
    assert_eq!(none.camera.m_forward, Vec3d::new(-SCALE, 0, 0));
}

fn whole4(rows: [[i32; 4]; 4]) -> Matrix4x4 {
    let mut m = rows;
    for row in m.iter_mut() {
        for entry in row.iter_mut() {
            *entry *= SCALE;
        }
    }
    Matrix4x4 { m }
}

#[test]
fn matrix4x4_moves_and_scales_points() {
    let v = Vec3d::new(SCALE, 2 * SCALE, 3 * SCALE);
    let mut identity = whole4([[1, 0, 0, 0], [0, 1, 0, 0], [0, 0, 1, 0], [0, 0, 0, 1]]);
    assert_eq!(identity.multiply_vector(&v), v);
    let mut shift = whole4([[1, 0, 0, 0], [0, 1, 0, 0], [0, 0, 1, 0], [10, 20, 30, 1]]);
    assert_eq!(shift.multiply_vector(&v), Vec3d::new(11 * SCALE, 22 * SCALE, 33 * SCALE));
    let mut halve = whole4([[1, 0, 0, 0], [0, 1, 0, 0], [0, 0, 1, 0], [0, 0, 0, 2]]);
    assert_eq!(halve.multiply_vector(&v), Vec3d::new(SCALE / 2, SCALE, 3 * SCALE / 2));
    let before = halve;
    halve.multiply_vector(&v);
    assert_eq!(halve, before);
}

#[test]
fn matrix4x4_divides_by_the_fourth_coordinate_unless_zero() {
    let v = Vec3d::new(SCALE, 2 * SCALE, 3 * SCALE);
    // the fourth coordinate is z
    let mut perspective = whole4([[1, 0, 0, 0], [0, 1, 0, 0], [0, 0, 1, 1], [0, 0, 0, 0]]);
    assert_eq!(perspective.multiply_vector(&v), Vec3d::new(21845, 43690, SCALE));
    // the fourth coordinate is zero: no division
    let mut flat = whole4([[2, 0, 0, 0], [0, 2, 0, 0], [0, 0, 2, 0], [1, 1, 1, 0]]);
    assert_eq!(flat.multiply_vector(&v), Vec3d::new(3 * SCALE, 5 * SCALE, 7 * SCALE));
    let mut tiny = Matrix4x4 { m: [[0; 4], [0; 4], [0; 4], [i32::MAX, 0, 0, 1]] };
    assert_eq!(tiny.multiply_vector(&v), Vec3d::new(i32::MAX, 0, 0));
}
