use engine3d::fixed::{fixed_div, fixed_mul, isqrt, saturate, quotient, SCALE};
use engine3d::vec3d::{direction_of, Angle, Vec3d};

fn scalar(x: f64) -> i32 {
    (x * 65536.0).round() as i32
}

fn angle(degrees: f64) -> Angle {
    let radians = degrees.to_radians();
    Angle::new(scalar(radians.cos()), scalar(radians.sin()))
}

#[test]
fn multiplies_scalars() {
    assert_eq!(fixed_mul(3 * SCALE, 2 * SCALE), 6 * SCALE);
    assert_eq!(fixed_mul(SCALE / 2, SCALE / 2), SCALE / 4);
    assert_eq!(fixed_mul(-3 * SCALE, SCALE / 2), -3 * SCALE / 2);
    assert_eq!(fixed_mul(1, 1), 0);
    assert_eq!(fixed_mul(-1, 1), 0);
}

#[test]
fn products_saturate() {
    assert_eq!(fixed_mul(i32::MAX, i32::MAX), i32::MAX);
    assert_eq!(fixed_mul(i32::MIN, i32::MAX), i32::MIN);
    assert_eq!(fixed_mul(i32::MIN, i32::MIN), i32::MAX);
}

#[test]
fn divides_scalars() {
    assert_eq!(fixed_div(6 * SCALE, 2 * SCALE), 3 * SCALE);
    assert_eq!(fixed_div(SCALE, 3 * SCALE), 21845);
    assert_eq!(fixed_div(-SCALE, 3 * SCALE), -21845);
    assert_eq!(fixed_div(SCALE, -3 * SCALE), -21845);
    assert_eq!(fixed_div(i32::MAX, 1), i32::MAX);
    assert_eq!(fixed_div(i32::MIN, 1), i32::MIN);
}

#[test]
fn quotients_round_toward_zero() {
    assert_eq!(quotient(7, 2), 3);
    assert_eq!(quotient(-7, 2), -3);
    assert_eq!(quotient(7, -2), -3);
    assert_eq!(quotient(-7, -2), 3);
    assert_eq!(quotient(0, 5), 0);
}

#[test]
fn narrowing_saturates() {
    assert_eq!(saturate(5), 5);
    assert_eq!(saturate(-5), -5);
    assert_eq!(saturate(1 << 40), i32::MAX);
    assert_eq!(saturate(-(1 << 40)), i32::MIN);
    assert_eq!(saturate(i32::MAX as i128 + 1), i32::MAX);
    assert_eq!(saturate(i32::MIN as i128 - 1), i32::MIN);
}

#[test]
fn takes_integer_square_roots() {
    assert_eq!(isqrt(0), 0);
    assert_eq!(isqrt(1), 1);
    assert_eq!(isqrt(2), 1);
    assert_eq!(isqrt(3), 1);
    assert_eq!(isqrt(4), 2);
    assert_eq!(isqrt(15), 3);
    assert_eq!(isqrt(16), 4);
    assert_eq!(isqrt(17), 4);
    assert_eq!(isqrt(1 << 64), 1 << 32);
    assert_eq!(isqrt((1 << 64) - 1), (1 << 32) - 1);
    assert_eq!(isqrt(u128::MAX), u64::MAX);
}

#[test]
fn adds_subtracts_and_multiplies_vectors() {
    let a = Vec3d::new(SCALE, 2 * SCALE, 3 * SCALE);
    let b = Vec3d::new(4 * SCALE, -5 * SCALE, SCALE / 2);
    assert_eq!(a.add(b), Vec3d::new(5 * SCALE, -3 * SCALE, 7 * SCALE / 2));
    assert_eq!(a.sub(b), Vec3d::new(-3 * SCALE, 7 * SCALE, 5 * SCALE / 2));
    assert_eq!(a.mul(b), Vec3d::new(4 * SCALE, -10 * SCALE, 3 * SCALE / 2));
    assert_eq!(a.scale(SCALE / 2), Vec3d::new(SCALE / 2, SCALE, 3 * SCALE / 2));
    assert_eq!(a.scale(-SCALE), Vec3d::new(-SCALE, -2 * SCALE, -3 * SCALE));
}

#[test]
fn vector_sums_saturate() {
    let a = Vec3d::new(i32::MAX, i32::MIN, 0);
    let b = Vec3d::new(1, -1, 0);
    assert_eq!(a.add(b), Vec3d::new(i32::MAX, i32::MIN, 0));
    assert_eq!(b.sub(a), Vec3d::new(i32::MIN + 2, i32::MAX, 0));
    assert_eq!(a.sub(Vec3d::new(-1, 1, 0)), Vec3d::new(i32::MAX, i32::MIN, 0));
}

#[test]
fn dot_products_and_lengths() {
    let a = Vec3d::new(SCALE, 2 * SCALE, 3 * SCALE);
    let b = Vec3d::new(4 * SCALE, -5 * SCALE, 6 * SCALE);
    assert_eq!(a.dot(b), 12 * SCALE);
    assert_eq!(a.dot_raw(b), 12 * (SCALE as i128) * (SCALE as i128));
    let c = Vec3d::new(3 * SCALE, 4 * SCALE, 0);
    assert_eq!(c.length(), 5 * SCALE);
    assert_eq!(c.length_raw(), 5 * 65536);
    assert_eq!(Vec3d::new(0, 0, 0).length(), 0);
    assert_eq!(Vec3d::new(1, 1, 1).length_raw(), 1);
}

#[test]
fn normalize_gives_unit_length() {
    let mut v = Vec3d::new(3 * SCALE, 4 * SCALE, 0);
    let r = v.normalize();
    assert_eq!(r, v);
    assert_eq!(v, Vec3d::new(39321, 52428, 0));
    let mut w = Vec3d::new(0, -7, 0);
    w.normalize();
    assert_eq!(w, Vec3d::new(0, -SCALE, 0));
    let mut big = Vec3d::new(i32::MAX, i32::MIN, i32::MAX);
    big.normalize();
    let len = big.length();
    assert!((len - SCALE).abs() <= 3, "length {}", len);
    // a vector of a few raw units is divided by its length as exactly
    let mut tiny = Vec3d::new(1, 1, 1);
    tiny.normalize();
    assert_eq!(tiny, Vec3d::new(37837, 37837, 37837));
    let mut seed: u32 = 7;
    for _ in 0..500 {
        let mut next = || {
            seed = seed.wrapping_mul(1664525).wrapping_add(1013904223);
            (seed as i32) >> (seed % 31)
        };
        let mut v = Vec3d::new(next(), next(), next());
        if v != Vec3d::new(0, 0, 0) {
            v.normalize();
            let len = v.length_raw() as i32;
            assert!(SCALE - 4 <= len && len <= SCALE, "{:?} {}", v, len);
        }
    }
}

#[test]
fn set_length_normalizes_then_scales() {
    let mut v = Vec3d::new(0, 0, 9 * SCALE);
    let r = v.set_length(SCALE / 2);
    assert_eq!(r, Vec3d::new(0, 0, SCALE / 2));
    assert_eq!(v, r);
    let mut w = Vec3d::new(3 * SCALE, 4 * SCALE, 0);
    w.set_length(-10 * SCALE);
    assert_eq!(w, Vec3d::new(-393210, -524280, 0));
}

#[test]
fn direction_of_zero_is_none() {
    assert_eq!(direction_of(0, 0, 0), None);
    assert_eq!(direction_of(0, 0, -5), Some(Vec3d::new(0, 0, -SCALE)));
    let far: i128 = 1 << 63;
    assert_eq!(direction_of(far, 0, 0), Some(Vec3d::new(SCALE, 0, 0)));
    assert_eq!(direction_of(-far, -far, -far), Some(Vec3d::new(-37837, -37837, -37837)));
}

#[test]
fn quarter_turns() {
    let quarter = Angle::new(0, SCALE);
    let mut v = Vec3d::new(2 * SCALE, 0, 7);
    v.z_axis_rotation(quarter, 0, 0);
    assert_eq!(v, Vec3d::new(0, 2 * SCALE, 7));
    let mut w = Vec3d::new(5, 2 * SCALE, 0);
    w.x_axis_rotation(quarter, 0, 0);
    assert_eq!(w, Vec3d::new(5, 0, 2 * SCALE));
    let mut u = Vec3d::new(2 * SCALE, 9, 0);
    u.y_axis_rotation(quarter, 0, 0);
    assert_eq!(u, Vec3d::new(0, 9, 2 * SCALE));
}

#[test]
fn turns_about_an_origin() {
    let quarter = Angle::new(0, SCALE);
    let mut v = Vec3d::new(3 * SCALE, SCALE, 0);
    v.z_axis_rotation(quarter, SCALE, SCALE);
    assert_eq!(v, Vec3d::new(SCALE, 3 * SCALE, 0));
    let half = Angle::new(-SCALE, 0);
    let mut w = Vec3d::new(0, 3 * SCALE, SCALE);
    w.x_axis_rotation(half, SCALE, SCALE);
    assert_eq!(w, Vec3d::new(0, -SCALE, SCALE));
}

#[test]
fn reversed_angle_negates_the_sine() {
    assert_eq!(Angle::new(5, 7).reverse(), Angle::new(5, -7));
    assert_eq!(Angle::new(5, -7).reverse(), Angle::new(5, 7));
    assert_eq!(Angle::new(5, i32::MIN).reverse(), Angle::new(5, i32::MAX));
}

#[test]
fn rotation_round_trip_stays_within_tolerance() {
    let points = [
        Vec3d::new(3 * SCALE, -2 * SCALE, 5 * SCALE),
        Vec3d::new(-100 * SCALE, 250 * SCALE, 17),
        Vec3d::new(1, 2, 3),
    ];
    for degrees in [0.0, 1.0, 30.0, 45.0, 90.0, 123.4, 180.0, -77.7, 359.0] {
        let r = angle(degrees);
        let n = (r.cos as i128) * (r.cos as i128) + (r.sin as i128) * (r.sin as i128);
        let s2 = (SCALE as i128) * (SCALE as i128);
        let tolerance =
            (SCALE as i128) * ((r.cos as i128).abs() + (r.sin as i128).abs()) + s2;
        for p in points {
            let (oy, oz) = (SCALE, -2 * SCALE);
            let mut v = p;
            v.x_axis_rotation(r, oy, oz);
            v.x_axis_rotation(r.reverse(), oy, oz);
            assert_eq!(v.x, p.x);
            assert!((s2 * ((v.y - oy) as i128) - n * ((p.y - oy) as i128)).abs() < tolerance);
            assert!((s2 * ((v.z - oz) as i128) - n * ((p.z - oz) as i128)).abs() < tolerance);
            // as numbers: back to within a few raw units per unit of distance
            let reach = ((p.y - oy).abs().max((p.z - oz).abs()) / SCALE + 1) * 4;
            assert!((v.y - p.y).abs() <= reach, "{} {} {}", degrees, v.y, p.y);
            assert!((v.z - p.z).abs() <= reach, "{} {} {}", degrees, v.z, p.z);

            let mut w = p;
            w.y_axis_rotation(r, oy, oz);
            w.y_axis_rotation(r.reverse(), oy, oz);
            assert_eq!(w.y, p.y);
            assert!((s2 * ((w.x - oy) as i128) - n * ((p.x - oy) as i128)).abs() < tolerance);
            assert!((s2 * ((w.z - oz) as i128) - n * ((p.z - oz) as i128)).abs() < tolerance);

            let mut u = p;
            u.z_axis_rotation(r, oy, oz);
            u.z_axis_rotation(r.reverse(), oy, oz);
            assert_eq!(u.z, p.z);
            assert!((s2 * ((u.x - oy) as i128) - n * ((p.x - oy) as i128)).abs() < tolerance);
            assert!((s2 * ((u.y - oz) as i128) - n * ((p.y - oz) as i128)).abs() < tolerance);
        }
    }
}
