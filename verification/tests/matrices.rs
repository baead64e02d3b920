use engine3d::fixed::SCALE;
use engine3d::matrix3x3::Matrix3x3;
use engine3d::vec3d::Vec3d;

fn whole(rows: [[i32; 3]; 3]) -> Matrix3x3 {
    let mut m = rows;
    for row in m.iter_mut() {
        for entry in row.iter_mut() {
            *entry *= SCALE;
        }
    }
    Matrix3x3::new(m)
}

fn identity() -> Matrix3x3 {
    whole([[1, 0, 0], [0, 1, 0], [0, 0, 1]])
}

#[test]
fn new_keeps_the_rows() {
    let m = Matrix3x3::new([[1, 2, 3], [4, 5, 6], [7, 8, 9]]);
    assert_eq!(m.m, [[1, 2, 3], [4, 5, 6], [7, 8, 9]]);
    assert_eq!(m.row_of(1), Vec3d::new(4, 5, 6));
    assert_eq!(m.column_of(2), Vec3d::new(3, 6, 9));
}

#[test]
fn from_vec3ds_fills_columns() {
    let m = Matrix3x3::from_vec3ds(
        Vec3d::new(1, 2, 3),
        Vec3d::new(4, 5, 6),
        Vec3d::new(7, 8, 9),
    );
    assert_eq!(m.m, [[1, 4, 7], [2, 5, 8], [3, 6, 9]]);
    assert_eq!(m.column_of(0), Vec3d::new(1, 2, 3));
    assert_eq!(m.column_of(1), Vec3d::new(4, 5, 6));
    assert_eq!(m.column_of(2), Vec3d::new(7, 8, 9));
}

#[test]
fn determinants() {
    assert_eq!(identity().determinant(), SCALE);
    let mut m = whole([[2, 0, 0], [0, 3, 0], [0, 0, 4]]);
    assert_eq!(m.determinant(), 24 * SCALE);
    assert_eq!(m.det_raw(), 24 * (1i128 << 48));
    let mut n = whole([[1, 2, 3], [4, 5, 6], [7, 8, 10]]);
    assert_eq!(n.determinant(), -3 * SCALE);
    let mut singular = whole([[1, 2, 3], [4, 5, 6], [7, 8, 9]]);
    assert_eq!(singular.determinant(), 0);
    assert_eq!(singular.det_raw(), 0);
    let mut swapped = whole([[0, 1, 0], [1, 0, 0], [0, 0, 1]]);
    assert_eq!(swapped.determinant(), -SCALE);
}

#[test]
fn determinant_leaves_the_matrix() {
    let mut m = whole([[1, 2, 3], [4, 5, 6], [7, 8, 10]]);
    let before = m;
    m.determinant();
    assert_eq!(m, before);
    m.calculate_inverse();
    assert_eq!(m, before);
}

#[test]
fn inverse_of_a_diagonal_matrix() {
    let mut m = whole([[2, 0, 0], [0, 4, 0], [0, 0, -8]]);
    let inverse = m.calculate_inverse();
    assert_eq!(
        inverse.m,
        [[SCALE / 2, 0, 0], [0, SCALE / 4, 0], [0, 0, -SCALE / 8]]
    );
}

#[test]
fn inverse_is_not_the_inverse_of_the_transpose() {
    // [[1, 1, 0], [0, 1, 0], [0, 0, 1]] has the inverse [[1, -1, 0], [0, 1, 0], [0, 0, 1]]
    let mut m = whole([[1, 1, 0], [0, 1, 0], [0, 0, 1]]);
    let inverse = m.calculate_inverse();
    assert_eq!(inverse, whole([[1, -1, 0], [0, 1, 0], [0, 0, 1]]));
    assert_eq!(m.mul(inverse), identity());
    assert_eq!(inverse.mul(m), identity());
}

#[test]
fn try_inverse_refuses_a_singular_matrix() {
    let singular = whole([[1, 2, 3], [4, 5, 6], [7, 8, 9]]);
    assert_eq!(singular.try_inverse(), None);
    assert_eq!(Matrix3x3::new([[0; 3]; 3]).try_inverse(), None);
    let tiny = Matrix3x3::new([[1, 0, 0], [0, 1, 0], [0, 0, 1]]);
    // the determinant of the raw entries is one: not zero, so there is an inverse,
    // whose entries saturate
    let inverse = tiny.try_inverse().unwrap();
    assert_eq!(inverse.m, [[i32::MAX, 0, 0], [0, i32::MAX, 0], [0, 0, i32::MAX]]);
}

#[test]
fn matrix_times_inverse_is_identity_within_tolerance() {
    let samples = [
        whole([[1, 2, 3], [4, 5, 6], [7, 8, 10]]),
        whole([[2, -1, 0], [-1, 2, -1], [0, -1, 2]]),
        Matrix3x3::new([[43690, 0, 32768], [0, -32768, 32768], [0, 0, -229376]]),
        Matrix3x3::new([[65536, 12345, -777], [-4242, 70000, 31000], [100, -200, 50000]]),
        whole([[300, 7, -12], [5, -250, 40], [-9, 14, 1000]]),
    ];
    for mut m in samples {
        let inverse = m.calculate_inverse();
        let product = m.mul(inverse);
        for i in 0..3 {
            let weight: i64 = m.m[i].iter().map(|e| (*e as i64).abs()).sum();
            for j in 0..3 {
                let identity: i64 = if i == j { (SCALE as i64) * (SCALE as i64) } else { 0 };
                let off = ((SCALE as i64) * (product.m[i][j] as i64) - identity).abs();
                assert!(off < weight + SCALE as i64, "{:?} {} {}: {}", m, i, j, off);
            }
        }
    }
}

#[test]
fn products_of_matrices() {
    let a = whole([[1, 2, 3], [4, 5, 6], [7, 8, 9]]);
    let b = whole([[1, 0, 2], [0, 1, 0], [-1, 0, 1]]);
    assert_eq!(a.mul(b), whole([[-2, 2, 5], [-2, 5, 14], [-2, 8, 23]]));
    assert_eq!(b.mul(a), whole([[15, 18, 21], [4, 5, 6], [6, 6, 6]]));
    assert_eq!(a.mul(identity()), a);
    assert_eq!(identity().mul(a), a);
}

#[test]
fn matrix_times_vector_uses_columns() {
    let a = whole([[1, 2, 3], [4, 5, 6], [7, 8, 9]]);
    let v = Vec3d::new(SCALE, 0, -SCALE);
    assert_eq!(a.mul_vec3d(v), Vec3d::new(-2 * SCALE, -2 * SCALE, -2 * SCALE));
    assert_eq!(a.mul_vec3d(Vec3d::new(SCALE, 0, 0)), Vec3d::new(SCALE, 4 * SCALE, 7 * SCALE));
    assert_eq!(a.mul_vec3d(Vec3d::new(0, 0, SCALE)), Vec3d::new(3 * SCALE, 6 * SCALE, 9 * SCALE));
}

#[test]
fn matrix_times_scalar() {
    let a = whole([[1, 2, 3], [4, 5, 6], [7, 8, 9]]);
    assert_eq!(a.mul_scalar(2 * SCALE), whole([[2, 4, 6], [8, 10, 12], [14, 16, 18]]));
    assert_eq!(
        a.mul_scalar(-SCALE / 2).m[0],
        [-SCALE / 2, -SCALE, -3 * SCALE / 2]
    );
    let big = Matrix3x3::new([[i32::MAX; 3]; 3]);
    assert_eq!(big.mul_scalar(2 * SCALE), big);
}
