use engine3d::fixed::SCALE;
use engine3d::mesh::Mesh;
use engine3d::triangle::{channel, Triangle};
use engine3d::vec3d::{Angle, Vec3d};

fn corner(x: i32, y: i32, z: i32) -> Vec3d {
    Vec3d::new(x * SCALE, y * SCALE, z * SCALE)
}

fn is_color(c: (i32, i32, i32)) -> bool {
    [c.0, c.1, c.2].iter().all(|v| 0 <= *v && *v < SCALE)
}

#[test]
fn new_derives_normal_and_centre() {
    let t = Triangle::new(corner(0, 0, 0), corner(0, 3, 0), corner(3, 0, 0));
    assert_eq!(t.verticies, (corner(0, 0, 0), corner(0, 3, 0), corner(3, 0, 0)));
    assert_eq!(t.normal, Vec3d::new(0, 0, -SCALE));
    assert_eq!(t.center, corner(1, 1, 0));
    assert_eq!(t.dist, 0);
    assert!(is_color(t.color));
}

#[test]
fn new_with_normal_keeps_the_normal() {
    let n = Vec3d::new(1, 2, 3);
    let t = Triangle::new_with_normal(n, corner(0, 0, 0), corner(0, 3, 0), corner(3, 0, 6));
    assert_eq!(t.normal, n);
    assert_eq!(t.center, corner(1, 1, 2));
    assert_eq!(t.dist, 0);
    assert!(is_color(t.color));
}

#[test]
fn colours_are_picked_at_random() {
    let mut seen = Vec::new();
    for _ in 0..64 {
        let t = Triangle::new(corner(0, 0, 0), corner(0, 1, 0), corner(1, 0, 0));
        assert!(is_color(t.color));
        seen.push(t.color);
    }
    seen.sort();
    seen.dedup();
    assert!(seen.len() > 1);
}

#[test]
fn channel_takes_the_upper_half() {
    assert_eq!(channel(0), 0);
    assert_eq!(channel(65535), 0);
    assert_eq!(channel(65536), 1);
    assert_eq!(channel(0x8000_0000), 32768);
    assert_eq!(channel(u32::MAX), 65535);
}

#[test]
fn from_parts_takes_what_it_is_given() {
    let v = (corner(1, 1, 1), corner(2, 2, 2), corner(4, 4, 4));
    let t = Triangle::from_parts(Vec3d::new(9, 8, 7), v, (1, 2, 3));
    assert_eq!(t.normal, Vec3d::new(9, 8, 7));
    assert_eq!(t.verticies, v);
    assert_eq!(t.color, (1, 2, 3));
    assert_eq!(t.center, Vec3d::new(152917, 152917, 152917));
    assert_eq!(t.dist, 0);
}

#[test]
fn normal_follows_the_winding() {
    let a = corner(0, 0, 0);
    let b = corner(1, 0, 0);
    let c = corner(0, 1, 0);
    assert_eq!(Triangle::calculate_normal((a, b, c)), Vec3d::new(0, 0, SCALE));
    assert_eq!(Triangle::calculate_normal((a, c, b)), Vec3d::new(0, 0, -SCALE));
    let n = Triangle::calculate_normal((corner(1, 0, 0), corner(0, 1, 0), corner(0, 0, 1)));
    assert_eq!(n, Vec3d::new(37837, 37837, 37837));
}

#[test]
fn normal_of_a_triangle_without_area_is_zero() {
    let a = corner(1, 2, 3);
    assert_eq!(Triangle::calculate_normal((a, a, a)), Vec3d::new(0, 0, 0));
    assert_eq!(
        Triangle::calculate_normal((corner(0, 0, 0), corner(1, 1, 1), corner(3, 3, 3))),
        Vec3d::new(0, 0, 0)
    );
}

#[test]
fn normal_of_extreme_triangles_has_unit_length() {
    let n = Triangle::calculate_normal((
        Vec3d::new(i32::MIN, i32::MIN, i32::MIN),
        Vec3d::new(i32::MAX, i32::MIN, i32::MAX),
        Vec3d::new(i32::MIN, i32::MAX, i32::MAX),
    ));
    assert!((n.length() - SCALE).abs() <= 3, "{:?}", n);
    let tiny = Triangle::calculate_normal((
        Vec3d::new(0, 0, 0),
        Vec3d::new(1, 0, 0),
        Vec3d::new(0, 1, 0),
    ));
    assert_eq!(tiny, Vec3d::new(0, 0, SCALE));
}

#[test]
fn centre_is_the_mean_rounded_toward_zero() {
    let c = Triangle::calculate_center((
        Vec3d::new(1, -1, 0),
        Vec3d::new(1, -1, 0),
        Vec3d::new(0, 0, 1),
    ));
    assert_eq!(c, Vec3d::new(0, 0, 0));
    let d = Triangle::calculate_center((
        Vec3d::new(i32::MAX, i32::MIN, 3),
        Vec3d::new(i32::MAX, i32::MIN, 3),
        Vec3d::new(i32::MAX, i32::MIN, 4),
    ));
    assert_eq!(d, Vec3d::new(i32::MAX, i32::MIN, 3));
}

#[test]
fn rotation_turns_vertices_and_derives_the_rest() {
    let quarter = Angle::new(0, SCALE);
    let start = Triangle::from_parts(
        Vec3d::new(0, 0, SCALE),
        (corner(0, 0, 0), corner(3, 0, 0), corner(0, 3, 0)),
        (5, 6, 7),
    );
    let mut t = start;
    t.dist = 9;
    t.z_axis_rotation(quarter, 0, 0);
    assert_eq!(t.verticies, (corner(0, 0, 0), corner(0, 3, 0), corner(-3, 0, 0)));
    assert_eq!(t.normal, Vec3d::new(0, 0, SCALE));
    assert_eq!(t.center, corner(-1, 1, 0));
    assert_eq!(t.color, (5, 6, 7));
    assert_eq!(t.dist, 9);

    let mut u = start;
    u.x_axis_rotation(quarter, 0, 0);
    assert_eq!(u.verticies, (corner(0, 0, 0), corner(3, 0, 0), corner(0, 0, 3)));
    assert_eq!(u.normal, Vec3d::new(0, -SCALE, 0));
    assert_eq!(u.center, corner(1, 0, 1));

    let mut w = start;
    w.y_axis_rotation(quarter, 0, 0);
    assert_eq!(w.verticies, (corner(0, 0, 0), corner(0, 0, 3), corner(0, 3, 0)));
    assert_eq!(w.normal, Vec3d::new(-SCALE, 0, 0));
    assert_eq!(w.center, corner(0, 1, 1));
}

#[test]
fn increments_move_vertices_and_centre() {
    let start = Triangle::from_parts(
        Vec3d::new(1, 2, 3),
        (corner(0, 0, 0), corner(3, 0, 0), corner(0, 3, 0)),
        (5, 6, 7),
    );
    let mut t = start;
    t.increment_x(2 * SCALE);
    assert_eq!(t.verticies, (corner(2, 0, 0), corner(5, 0, 0), corner(2, 3, 0)));
    assert_eq!(t.center, corner(3, 1, 0));
    assert_eq!(t.normal, Vec3d::new(1, 2, 3));
    t.increment_y(-SCALE);
    assert_eq!(t.verticies, (corner(2, -1, 0), corner(5, -1, 0), corner(2, 2, 0)));
    assert_eq!(t.center, corner(3, 0, 0));
    t.increment_z(7);
    assert_eq!(t.center, Vec3d::new(3 * SCALE, 0, 7));
    assert_eq!(t.color, (5, 6, 7));
    assert_eq!(start.add(Vec3d::new(2 * SCALE, -SCALE, 7)), t);
}

#[test]
fn increments_saturate() {
    let mut t = Triangle::from_parts(
        Vec3d::new(0, 0, 0),
        (Vec3d::new(i32::MAX - 1, 0, 0), Vec3d::new(0, 0, 0), Vec3d::new(-5, 0, 0)),
        (0, 0, 0),
    );
    t.increment_x(10);
    assert_eq!(t.verticies.0.x, i32::MAX);
    assert_eq!(t.verticies.1.x, 10);
    assert_eq!(t.verticies.2.x, 5);
}

#[test]
fn new_mesh_is_empty() {
    let mesh = Mesh::new(corner(1, 2, 3));
    assert!(mesh.tris.is_empty());
    assert!(!mesh.is_over);
    assert!(!mesh.is_held);
    assert_eq!(mesh.pos, corner(1, 2, 3));
}

#[test]
fn cube_has_twelve_triangles_with_outward_normals() {
    let mut mesh = Mesh::new(Vec3d::new(0, 0, 0));
    mesh.is_held = true;
    mesh.form_cube();
    assert_eq!(mesh.tris.len(), 12);
    assert!(mesh.is_held);
    let normals = [
        (0, 0, -1),
        (1, 0, 0),
        (0, 0, 1),
        (-1, 0, 0),
        (0, 1, 0),
        (0, -1, 0),
    ];
    for (i, t) in mesh.tris.iter().enumerate() {
        let n = normals[i / 2];
        assert_eq!(t.normal, corner(n.0, n.1, n.2), "triangle {}", i);
        assert!(is_color(t.color));
        assert_eq!(t.dist, 0);
        assert_eq!(t.center, Triangle::calculate_center(t.verticies));
        for v in [t.verticies.0, t.verticies.1, t.verticies.2] {
            assert_eq!(v.x.abs(), SCALE / 2);
            assert_eq!(v.y.abs(), SCALE / 2);
            assert_eq!(v.z.abs(), SCALE / 2);
        }
    }
    assert_eq!(
        mesh.tris[0].verticies,
        (
            Vec3d::new(-32768, -32768, -32768),
            Vec3d::new(-32768, 32768, -32768),
            Vec3d::new(32768, 32768, -32768)
        )
    );
    assert_eq!(
        mesh.tris[11].verticies,
        (
            Vec3d::new(32768, -32768, 32768),
            Vec3d::new(-32768, -32768, -32768),
            Vec3d::new(32768, -32768, -32768)
        )
    );
}

#[test]
fn cube_stands_at_the_position_of_the_mesh() {
    let mut mesh = Mesh::new(corner(0, 2, 0));
    mesh.form_cube();
    assert_eq!(mesh.pos, corner(0, 2, 0));
    for t in &mesh.tris {
        for v in [t.verticies.0, t.verticies.1, t.verticies.2] {
            assert_eq!((v.y - 2 * SCALE).abs(), SCALE / 2);
        }
    }
    // forming it again replaces the triangles
    mesh.form_cube();
    assert_eq!(mesh.tris.len(), 12);
}

#[test]
fn mesh_rotations_turn_every_triangle() {
    let quarter = Angle::new(0, SCALE);
    let mut mesh = Mesh::new(Vec3d::new(0, 0, 0));
    mesh.form_cube();
    let before = mesh.clone();
    mesh.z_axis_rotation(quarter, 0, 0);
    for (t, b) in mesh.tris.iter().zip(&before.tris) {
        let mut expected = *b;
        expected.z_axis_rotation(quarter, 0, 0);
        assert_eq!(*t, expected);
    }
    mesh.x_axis_rotation(quarter, SCALE, 0);
    mesh.y_axis_rotation(quarter, 0, SCALE);
    for (t, b) in mesh.tris.iter().zip(&before.tris) {
        let mut expected = *b;
        expected.z_axis_rotation(quarter, 0, 0);
        expected.x_axis_rotation(quarter, SCALE, 0);
        expected.y_axis_rotation(quarter, 0, SCALE);
        assert_eq!(*t, expected);
    }
    assert_eq!(mesh.pos, before.pos);
    assert_eq!(mesh.tris.len(), 12);
}

#[test]
fn mesh_increments_move_position_and_triangles() {
    let mut mesh = Mesh::new(corner(1, 1, 1));
    mesh.form_cube();
    let before = mesh.clone();
    mesh.increment_x(SCALE);
    mesh.increment_y(-2 * SCALE);
    mesh.increment_z(3);
    assert_eq!(mesh.pos, Vec3d::new(2 * SCALE, -SCALE, SCALE + 3));
    for (t, b) in mesh.tris.iter().zip(&before.tris) {
        assert_eq!(*t, b.add(Vec3d::new(SCALE, -2 * SCALE, 3)));
    }
    let mut empty = Mesh::new(corner(0, 0, 0));
    empty.increment_x(5);
    assert_eq!(empty.pos, Vec3d::new(5, 0, 0));
    assert!(empty.tris.is_empty());
}
