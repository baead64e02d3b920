use engine3d::triangle::Triangle;
use engine3d::vec3d::Vec3d;

fn at_depth(dist: i32, tag: i32) -> Triangle {
    let verticies = (Vec3d::new(tag, 0, 0), Vec3d::new(0, tag, 0), Vec3d::new(0, 0, tag));
    let mut t = Triangle::from_parts(Vec3d::new(0, 0, 0), verticies, (tag, tag, tag));
    t.dist = dist;
    t
}

fn depths(ts: &[Triangle]) -> Vec<i32> {
    ts.iter().map(|t| t.dist).collect()
}

#[test]
fn sorts_by_descending_depth() {
    let input = vec![at_depth(3, 1), at_depth(9, 2), at_depth(-4, 3), at_depth(7, 4), at_depth(0, 5)];
    let out = Triangle::painters_algorithm(&input);
    assert_eq!(depths(&out), vec![9, 7, 3, 0, -4]);
    assert_eq!(out[0], input[1]);
    assert_eq!(out[4], input[2]);
}

#[test]
fn adjacent_pairs_are_ordered() {
    let mut input = Vec::new();
    let mut seed: u32 = 12345;
    for tag in 0..500 {
        seed = seed.wrapping_mul(1664525).wrapping_add(1013904223);
        input.push(at_depth((seed >> 8) as i32 % 1000 - 500, tag));
    }
    let out = Triangle::painters_algorithm(&input);
    assert_eq!(out.len(), input.len());
    for pair in out.windows(2) {
        assert!(pair[0].dist >= pair[1].dist);
    }
    // the same triangles, each as often
    let key = |t: &Triangle| (t.dist, t.color.0);
    let mut a: Vec<(i32, i32)> = input.iter().map(key).collect();
    let mut b: Vec<(i32, i32)> = out.iter().map(key).collect();
    a.sort();
    b.sort();
    assert_eq!(a, b);
}

#[test]
fn empty_and_single_lists() {
    assert_eq!(Triangle::painters_algorithm(&vec![]), vec![]);
    let one = vec![at_depth(5, 1)];
    assert_eq!(Triangle::painters_algorithm(&one), one);
}

#[test]
fn equal_depths_keep_their_order() {
    let input = vec![at_depth(5, 1), at_depth(5, 2), at_depth(5, 3), at_depth(6, 4)];
    let out = Triangle::painters_algorithm(&input);
    assert_eq!(depths(&out), vec![6, 5, 5, 5]);
    let tags: Vec<i32> = out.iter().map(|t| t.color.0).collect();
    assert_eq!(tags, vec![4, 1, 2, 3]);
    // in a longer list too
    let mut long = Vec::new();
    for tag in 0..300 {
        long.push(at_depth(tag % 7, tag));
    }
    let out = Triangle::painters_algorithm(&long);
    for pair in out.windows(2) {
        assert!(pair[0].dist >= pair[1].dist);
        if pair[0].dist == pair[1].dist {
            assert!(pair[0].color.0 < pair[1].color.0);
        }
    }
}

#[test]
fn input_is_left_as_it_is() {
    let input = vec![at_depth(1, 1), at_depth(2, 2)];
    let copy = input.clone();
    let out = Triangle::painters_algorithm(&input);
    assert_eq!(input, copy);
    assert_eq!(depths(&out), vec![2, 1]);
}

#[test]
fn extreme_depths() {
    let input = vec![at_depth(i32::MIN, 1), at_depth(i32::MAX, 2), at_depth(0, 3)];
    let out = Triangle::painters_algorithm(&input);
    assert_eq!(depths(&out), vec![i32::MAX, 0, i32::MIN]);
}
