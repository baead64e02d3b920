use engine3d::clipper::Edge;
use engine3d::triangle::Triangle;
use engine3d::vec3d::Vec3d;

const GREY: (i32, i32, i32) = (100, 200, 300);

fn flat(a: (i32, i32), b: (i32, i32), c: (i32, i32)) -> Triangle {
    let verticies = (
        Vec3d::new(a.0, a.1, 0),
        Vec3d::new(b.0, b.1, 0),
        Vec3d::new(c.0, c.1, 0),
    );
    let mut t = Triangle::from_parts(Triangle::calculate_normal(verticies), verticies, GREY);
    t.dist = 77;
    t
}

fn doubled_area(t: &Triangle) -> i64 {
    let (a, b, c) = t.verticies;
    let signed = (b.x as i64 - a.x as i64) * (c.y as i64 - a.y as i64)
        - (c.x as i64 - a.x as i64) * (b.y as i64 - a.y as i64);
    signed.abs()
}

fn total_doubled_area(ts: &[Triangle]) -> i64 {
    ts.iter().map(doubled_area).sum()
}

fn corners(t: &Triangle) -> [(i32, i32); 3] {
    [
        (t.verticies.0.x, t.verticies.0.y),
        (t.verticies.1.x, t.verticies.1.y),
        (t.verticies.2.x, t.verticies.2.y),
    ]
}

fn assert_within(ts: &[Triangle], width: i32, height: i32) {
    for t in ts {
        for (x, y) in corners(t) {
            assert!(0 <= x && x <= width, "x = {}", x);
            assert!(0 <= y && y <= height, "y = {}", y);
        }
    }
}

#[test]
fn triangle_inside_is_returned_as_it_is() {
    let mut t = flat((10, 10), (90, 20), (50, 80));
    let before = t;
    let out = t.clip(100, 100, 4);
    assert_eq!(out, vec![before]);
    assert_eq!(t, before);
    assert_eq!(total_doubled_area(&out), doubled_area(&before));
    // also with no budget at all, and when it touches the edges
    assert_eq!(t.clip(100, 100, 0), vec![before]);
    let mut touching = flat((0, 0), (100, 0), (100, 100));
    assert_eq!(touching.clip(100, 100, 4), vec![touching]);
}

#[test]
fn triangle_outside_clips_to_nothing() {
    for mut t in [
        flat((-10, 10), (-90, 20), (-50, 80)),
        flat((110, 10), (190, 20), (150, 80)),
        flat((10, -10), (90, -20), (50, -80)),
        flat((10, 110), (90, 120), (50, 180)),
        // beyond the bottom edge, and across the left one
        flat((-50, 110), (90, 120), (50, 180)),
    ] {
        assert_eq!(t.clip(100, 100, 4), vec![]);
        assert_eq!(t.clip(100, 100, 0), vec![]);
    }
}

#[test]
fn one_vertex_outside_leaves_a_quadrilateral() {
    let mut t = flat((20, 20), (20, 60), (180, 40));
    let out = t.clip(100, 100, 4);
    assert_eq!(out.len(), 2);
    assert_eq!(corners(&out[0]), [(20, 20), (20, 60), (100, 30)]);
    assert_eq!(corners(&out[1]), [(100, 30), (20, 60), (100, 50)]);
    assert_within(&out, 100, 100);
    // the part inside the edge: the whole less the tip beyond x = 100
    assert_eq!(doubled_area(&t), 2 * 3200);
    assert_eq!(total_doubled_area(&out), 2 * 2400);
}

#[test]
fn two_vertices_outside_leave_a_triangle() {
    let mut t = flat((20, 40), (180, 20), (180, 60));
    let out = t.clip(100, 100, 4);
    assert_eq!(out.len(), 1);
    assert_eq!(corners(&out[0]), [(20, 40), (100, 30), (100, 50)]);
    assert_within(&out, 100, 100);
    assert_eq!(doubled_area(&t), 2 * 3200);
    assert_eq!(total_doubled_area(&out), 2 * 800);
}

#[test]
fn pieces_keep_colour_and_depth_and_derive_the_rest() {
    let mut t = flat((20, 20), (20, 60), (180, 40));
    for piece in t.clip(100, 100, 4) {
        assert_eq!(piece.color, GREY);
        assert_eq!(piece.dist, 77);
        assert_eq!(piece.center, Triangle::calculate_center(piece.verticies));
        assert_eq!(piece.normal, Triangle::calculate_normal(piece.verticies));
    }
}

#[test]
fn each_edge_cuts_at_its_limit() {
    // left
    let mut l = flat((-40, 50), (40, 10), (40, 90));
    assert_eq!(
        l.clip(100, 100, 4).iter().map(corners).collect::<Vec<_>>(),
        vec![[(0, 30), (40, 10), (40, 90)], [(0, 30), (40, 90), (0, 70)]]
    );
    // right
    let mut r = flat((140, 50), (60, 10), (60, 90));
    assert_eq!(
        r.clip(100, 100, 4).iter().map(corners).collect::<Vec<_>>(),
        vec![[(100, 30), (60, 10), (60, 90)], [(100, 30), (60, 90), (100, 70)]]
    );
    // top
    let mut t = flat((50, -40), (10, 40), (90, 40));
    assert_eq!(
        t.clip(100, 100, 4).iter().map(corners).collect::<Vec<_>>(),
        vec![[(30, 0), (10, 40), (90, 40)], [(30, 0), (90, 40), (70, 0)]]
    );
    // bottom
    let mut b = flat((50, 140), (10, 60), (90, 60));
    assert_eq!(
        b.clip(100, 100, 4).iter().map(corners).collect::<Vec<_>>(),
        vec![[(30, 100), (10, 60), (90, 60)], [(30, 100), (90, 60), (70, 100)]]
    );
}

#[test]
fn split_follows_the_six_cases() {
    let w = 100;
    let a = (20, 40);
    // which vertices lie beyond the right edge, and what is left
    let t = flat((180, 20), (180, 60), a);
    assert_eq!(
        t.split(Edge::Right, w, w).iter().map(corners).collect::<Vec<_>>(),
        vec![[(100, 30), (100, 50), (20, 40)]]
    );
    let t = flat((180, 20), a, (180, 60));
    assert_eq!(
        t.split(Edge::Right, w, w).iter().map(corners).collect::<Vec<_>>(),
        vec![[(100, 30), (20, 40), (100, 50)]]
    );
    let t = flat(a, (180, 20), (180, 60));
    assert_eq!(
        t.split(Edge::Right, w, w).iter().map(corners).collect::<Vec<_>>(),
        vec![[(20, 40), (100, 30), (100, 50)]]
    );
    let t = flat((180, 40), (20, 20), (20, 60));
    assert_eq!(
        t.split(Edge::Right, w, w).iter().map(corners).collect::<Vec<_>>(),
        vec![[(100, 30), (20, 20), (20, 60)], [(100, 30), (20, 60), (100, 50)]]
    );
    let t = flat((20, 20), (180, 40), (20, 60));
    assert_eq!(
        t.split(Edge::Right, w, w).iter().map(corners).collect::<Vec<_>>(),
        vec![[(20, 20), (100, 30), (20, 60)], [(100, 30), (100, 50), (20, 60)]]
    );
    let t = flat((20, 20), (20, 60), (180, 40));
    assert_eq!(
        t.split(Edge::Right, w, w).iter().map(corners).collect::<Vec<_>>(),
        vec![[(20, 20), (20, 60), (100, 30)], [(100, 30), (20, 60), (100, 50)]]
    );
    // none and all
    let t = flat((20, 20), (20, 60), (80, 40));
    assert_eq!(t.split(Edge::Right, w, w), vec![t]);
    let t = flat((120, 20), (120, 60), (180, 40));
    assert_eq!(t.split(Edge::Right, w, w), vec![]);
}

#[test]
fn first_violated_edge_goes_by_the_order() {
    let t = flat((-1, -1), (101, 50), (50, 101));
    assert_eq!(t.first_violated_edge(100, 100), Some(Edge::Left));
    let t = flat((0, -1), (101, 50), (50, 101));
    assert_eq!(t.first_violated_edge(100, 100), Some(Edge::Right));
    let t = flat((0, -1), (100, 50), (50, 101));
    assert_eq!(t.first_violated_edge(100, 100), Some(Edge::Top));
    let t = flat((0, 0), (100, 50), (50, 101));
    assert_eq!(t.first_violated_edge(100, 100), Some(Edge::Bottom));
    let t = flat((0, 0), (100, 50), (50, 100));
    assert_eq!(t.first_violated_edge(100, 100), None);
}

#[test]
fn crossing_rounds_toward_the_inside_vertex() {
    // a third of the way: 20 + 20 / 3 is rounded down, 60 - 20 / 3 up
    assert_eq!(
        Edge::Right.cross(Vec3d::new(70, 20, 9), Vec3d::new(160, 40, 0), 100, 100),
        Vec3d::new(100, 26, 6)
    );
    assert_eq!(
        Edge::Right.cross(Vec3d::new(70, 60, -9), Vec3d::new(160, 40, 0), 100, 100),
        Vec3d::new(100, 54, -6)
    );
    assert_eq!(
        Edge::Top.cross(Vec3d::new(5, 0, 0), Vec3d::new(15, -10, 100), 100, 100),
        Vec3d::new(5, 0, 0)
    );
    assert!(Edge::Left.is_beyond(Vec3d::new(-1, 0, 0), 100, 100));
    assert!(!Edge::Left.is_beyond(Vec3d::new(0, 0, 0), 100, 100));
    assert!(Edge::Bottom.is_beyond(Vec3d::new(0, 101, 0), 100, 100));
    assert!(!Edge::Bottom.is_beyond(Vec3d::new(0, 100, 0), 100, 100));
}

#[test]
fn triangle_over_a_corner_is_cut_twice() {
    let mut t = flat((60, 60), (140, 60), (60, 140));
    let out = t.clip(100, 100, 4);
    assert_within(&out, 100, 100);
    // the part inside is the square of side 40 in the corner
    assert_eq!(total_doubled_area(&out), 2 * 40 * 40);
    // two pieces at the right edge, each cut in two at the bottom edge; the last
    // one has no area, since the long side runs through the corner itself
    assert_eq!(out.len(), 4);
    assert_eq!(doubled_area(&out[3]), 0);
}

#[test]
fn triangle_larger_than_the_viewport() {
    let mut t = flat((-1000, -1000), (3000, -1000), (-1000, 3000));
    let out = t.clip(100, 100, 4);
    assert_within(&out, 100, 100);
    assert_eq!(total_doubled_area(&out), 2 * 100 * 100);
}

#[test]
fn extreme_coordinates_stay_contained() {
    let mut t = flat((i32::MIN, i32::MIN), (i32::MAX, i32::MIN), (0, i32::MAX));
    let out = t.clip(800, 600, 4);
    assert!(!out.is_empty());
    assert_within(&out, 800, 600);
    let mut u = flat((i32::MIN, 5), (i32::MAX, 7), (3, i32::MAX));
    assert_within(&u.clip(1, 1, 4), 1, 1);
}

#[test]
fn budget_bounds_the_cuts_in_a_row() {
    // reaches beyond the right and the bottom edge: two cuts in a row
    let mut t = flat((60, 60), (140, 60), (60, 140));
    assert_eq!(t.clip(100, 100, 0), vec![]);
    assert_eq!(t.clip(100, 100, -5), vec![]);
    let one = t.clip(100, 100, 1);
    let two = t.clip(100, 100, 2);
    let four = t.clip(100, 100, 4);
    assert!(one.len() < two.len());
    assert_eq!(two, four);
    assert_eq!(t.clip(100, 100, 100), four);
    assert_eq!(t.clip(100, 100, i32::MAX), four);
    assert_within(&one, 100, 100);
}

#[test]
fn degenerate_viewport_keeps_what_lies_on_it() {
    let mut t = flat((0, 0), (0, 0), (0, 0));
    assert_eq!(t.clip(0, 0, 4), vec![t]);
    let mut u = flat((-5, -5), (5, -5), (0, 5));
    assert_within(&u.clip(0, 0, 4), 0, 0);
    let mut v = flat((1, 1), (5, 1), (1, 5));
    assert_eq!(v.clip(-1, -1, 4), vec![]);
}
