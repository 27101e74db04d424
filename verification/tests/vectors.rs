use bezier::linalg::{
    BMatrix, BVec, Det, Linear, Matrix2, Matrix23, Matrix3, Matrix32, Matrix4, Null, Vec2, Vec3,
    Vec4,
};
use bezier::scalar::Scalar;

fn n(x: f64) -> Scalar {
    Scalar::from_raw((x * 4294967296.0) as i64)
}

fn vec_of<const N: usize>(xs: [f64; N]) -> BVec<N> {
    BVec { v: xs.map(n) }
}

fn mat_of<const M: usize, const N: usize>(rows: [[f64; N]; M]) -> BMatrix<M, N> {
    BMatrix { v: rows.map(|r| r.map(n)) }
}

#[test]
fn components_and_swizzles() {
    let v = Vec4::new(n(1.0), n(2.0), n(3.0), n(4.0));
    assert_eq!((v.x(), v.y(), v.z(), v.w()), (n(1.0), n(2.0), n(3.0), n(4.0)));
    assert_eq!(v.xy(), vec_of([1.0, 2.0]));
    assert_eq!(v.xz(), vec_of([1.0, 3.0]));
    assert_eq!(v.xw(), vec_of([1.0, 4.0]));
    assert_eq!(v.yz(), vec_of([2.0, 3.0]));
    assert_eq!(v.yw(), vec_of([2.0, 4.0]));
    assert_eq!(v.zw(), vec_of([3.0, 4.0]));
    assert_eq!(v.xyz(), vec_of([1.0, 2.0, 3.0]));
    assert_eq!(v.xyw(), vec_of([1.0, 2.0, 4.0]));
    assert_eq!(v.xzw(), vec_of([1.0, 3.0, 4.0]));
    assert_eq!(v.yzw(), vec_of([2.0, 3.0, 4.0]));
    assert_eq!(v.xyzw(), v);
    assert_eq!(Vec2::new(n(1.0), n(2.0)), vec_of([1.0, 2.0]));
    assert_eq!(Vec3::new(n(1.0), n(2.0), n(3.0)), vec_of([1.0, 2.0, 3.0]));
}

#[test]
fn vector_arithmetic() {
    let a = vec_of([1.0, -2.0, 0.5]);
    let b = vec_of([0.25, 4.0, -8.0]);
    assert_eq!(a + b, vec_of([1.25, 2.0, -7.5]));
    assert_eq!(a - b, vec_of([0.75, -6.0, 8.5]));
    assert_eq!(a * n(2.0), vec_of([2.0, -4.0, 1.0]));
    assert_eq!(n(2.0) * a, vec_of([2.0, -4.0, 1.0]));
    assert_eq!(a.star(&b), vec_of([0.25, -8.0, -4.0]));
    assert_eq!(a * b, n(0.25 - 8.0 - 4.0));
    assert_eq!(a.dot(&b), n(-11.75));
    assert_eq!(vec_of([1.0, 2.0]) * vec_of([3.0, 4.0]), n(11.0));
    assert_eq!(BVec::<3>::zero(), vec_of([0.0, 0.0, 0.0]));
    assert!(BVec::<3>::zero().is_zero());
    assert!(!vec_of([0.0, 0.0, 0.5]).is_zero());
}

#[test]
fn cross_product() {
    let x = vec_of([1.0, 0.0, 0.0]);
    let y = vec_of([0.0, 1.0, 0.0]);
    let z = vec_of([0.0, 0.0, 1.0]);
    assert_eq!(x.cross(y), z);
    assert_eq!(y.cross(x), vec_of([0.0, 0.0, -1.0]));
    assert_eq!(y.cross(z), x);
    assert_eq!(vec_of([1.0, 2.0, 3.0]).cross(vec_of([4.0, 5.0, 6.0])), vec_of([-3.0, 6.0, -3.0]));
}

#[test]
fn length_and_direction() {
    assert_eq!(vec_of([3.0, 4.0]).norm(), n(5.0));
    assert_eq!(vec_of([0.0, 0.0, 0.0]).norm(), n(0.0));
    assert_eq!(vec_of([2.0, 0.0]).normalize(), vec_of([1.0, 0.0]));
    let fifth = Scalar::one() / n(5.0);
    assert_eq!(vec_of([3.0, 4.0]).normalize(), Vec2::new(n(3.0) * fifth, n(4.0) * fifth));
}

#[test]
fn matrices_add_scale_and_transpose() {
    let a = mat_of([[1.0, 2.0, 3.0], [4.0, 5.0, 6.0]]);
    let b = mat_of([[0.5, 0.5, 0.5], [-1.0, -2.0, -3.0]]);
    assert_eq!(a + b, mat_of([[1.5, 2.5, 3.5], [3.0, 3.0, 3.0]]));
    assert_eq!(a - b, mat_of([[0.5, 1.5, 2.5], [5.0, 7.0, 9.0]]));
    assert_eq!(a * n(0.5), mat_of([[0.5, 1.0, 1.5], [2.0, 2.5, 3.0]]));
    assert_eq!(n(0.5) * a, mat_of([[0.5, 1.0, 1.5], [2.0, 2.5, 3.0]]));
    let t: Matrix32 = a.transpose();
    assert_eq!(t, mat_of([[1.0, 4.0], [2.0, 5.0], [3.0, 6.0]]));
    assert_eq!(t.transpose(), a);
    assert!(Matrix23::zero().is_zero());
    assert!(!a.is_zero());
    assert_eq!(Matrix23::zero(), mat_of([[0.0, 0.0, 0.0], [0.0, 0.0, 0.0]]));
}

#[test]
fn matrix_products() {
    let a = mat_of([[1.0, 2.0, 3.0], [4.0, 5.0, 6.0]]);
    let x = vec_of([1.0, 0.5, -1.0]);
    assert_eq!(a * x, vec_of([-1.0, 0.5]));
    let y = vec_of([2.0, -1.0]);
    assert_eq!(y * a, vec_of([-2.0, -1.0, 0.0]));
    let b = mat_of([[1.0, 0.0], [0.0, 1.0], [2.0, -1.0]]);
    assert_eq!(a * b, mat_of([[7.0, -1.0], [16.0, -1.0]]));
    assert_eq!(b * a, mat_of([[1.0, 2.0, 3.0], [4.0, 5.0, 6.0], [-2.0, -1.0, 0.0]]));
}

#[test]
fn identity_leaves_vectors_and_matrices() {
    assert_eq!(Matrix2::one(), mat_of([[1.0, 0.0], [0.0, 1.0]]));
    let x = vec_of([0.1, -7.25, 1234.5]);
    assert_eq!(Matrix3::one() * x, x);
    assert_eq!(x * Matrix3::one(), x);
    let w = BVec { v: [Scalar::from_raw(1), Scalar::from_raw(-1), Scalar::from_raw(i64::MAX), Scalar::from_raw(i64::MIN)] };
    assert_eq!(Matrix4::one() * w, w);
    assert_eq!(w * Matrix4::one(), w);
    let m = mat_of([[1.5, 2.0, 0.0], [0.25, -1.0, 9.0], [3.0, 3.0, 3.0]]);
    assert_eq!(Matrix3::one() * m, m);
    assert_eq!(m * Matrix3::one(), m);
}

#[test]
fn determinants() {
    assert_eq!(mat_of([[7.5]]).det(), n(7.5));
    assert_eq!(BMatrix::<1, 1>::one().det(), n(1.0));
    assert_eq!(Matrix2::one().det(), n(1.0));
    assert_eq!(Matrix3::one().det(), n(1.0));
    assert_eq!(mat_of([[1.0, 2.0], [3.0, 4.0]]).det(), n(-2.0));
    assert_eq!(mat_of([[2.0, 0.0, 0.0], [0.0, 3.0, 0.0], [0.0, 0.0, 4.0]]).det(), n(24.0));
    assert_eq!(mat_of([[1.0, 2.0, 3.0], [4.0, 5.0, 6.0], [7.0, 8.0, 10.0]]).det(), n(-3.0));
    assert_eq!(mat_of([[1.0, 2.0, 3.0], [4.0, 5.0, 6.0], [7.0, 8.0, 9.0]]).det(), n(0.0));
}

#[test]
fn scaling_a_matrix_scales_its_determinant_by_the_square() {
    let m = mat_of([[1.0, 2.0], [3.0, 4.0]]);
    for k in [0.0, 1.0, -1.0, 0.5, 3.0, -2.5] {
        assert_eq!((m * n(k)).det(), n(k) * n(k) * m.det());
    }
}

#[test]
fn scaling_law_fails_where_products_round() {
    let e = Scalar::from_raw(3 << 15);
    let m = BMatrix { v: [[e, Scalar::zero()], [Scalar::zero(), e]] };
    let k = n(2.0);
    assert_eq!(m.det(), Scalar::from_raw(2));
    assert_eq!((m * k).det(), Scalar::from_raw(9));
    assert_eq!(k * k * m.det(), Scalar::from_raw(8));
}

#[test]
fn linear_values_interpolate() {
    assert_eq!(Null {}.scale(n(3.0)).sum(Null {}), Null {});
    assert_eq!(n(2.0).scale(n(0.25)).sum(n(1.0)), n(1.5));
    assert_eq!(
        vec_of([2.0, 4.0]).scale(n(0.5)).sum(vec_of([1.0, 1.0])),
        vec_of([2.0, 3.0])
    );
}
