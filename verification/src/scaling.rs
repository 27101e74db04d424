//! How the determinant of a two by two matrix scales with the matrix.
use crate::linalg::{lemma_from_rows_view, mat_scale, Det, Matrix2};
use crate::scalar::Scalar;
use vstd::prelude::*;
use vstd::std_specs::ops::{MulSpec, SubSpec};

verus! {

broadcast use vstd::array::group_array_axioms;

/// Whether the product of `a` and `b` is exact: it needs no rounding and
/// lies in the range of the numbers.
pub open spec fn exact_product(a: Scalar, b: Scalar) -> bool {
    &&& (a.raw * b.raw) % 0x1_0000_0000 == 0
    &&& i64::MIN <= (a.raw * b.raw) / 0x1_0000_0000 <= i64::MAX
}

/// Whether the difference of `a` and `b` lies in the range of the numbers.
pub open spec fn exact_difference(a: Scalar, b: Scalar) -> bool {
    i64::MIN <= a.raw - b.raw <= i64::MAX
}

/// Whether every step of the two sides of the scaling law, for the matrix
/// with the rows `(a, b)` and `(c, d)` and the factor `k`, is exact.
pub open spec fn exact_det_scaling(a: Scalar, b: Scalar, c: Scalar, d: Scalar, k: Scalar) -> bool {
    &&& exact_product(a, k)
    &&& exact_product(b, k)
    &&& exact_product(c, k)
    &&& exact_product(d, k)
    &&& exact_product(a.mul_spec(k), d.mul_spec(k))
    &&& exact_product(b.mul_spec(k), c.mul_spec(k))
    &&& exact_difference(a.mul_spec(k).mul_spec(d.mul_spec(k)), b.mul_spec(k).mul_spec(c.mul_spec(k)))
    &&& exact_product(a, d)
    &&& exact_product(b, c)
    &&& exact_difference(a.mul_spec(d), b.mul_spec(c))
    &&& exact_product(k, k)
    &&& exact_product(k.mul_spec(k), a.mul_spec(d).sub_spec(b.mul_spec(c)))
}

/// An exact product, times `2^32`, is the product of the raw values.
pub proof fn lemma_exact_product(a: Scalar, b: Scalar)
    requires
        exact_product(a, b),
    ensures
        a.mul_spec(b).raw * 0x1_0000_0000 == a.raw * b.raw,
{
    vstd::arithmetic::div_mod::lemma_fundamental_div_mod(a.raw * b.raw, 0x1_0000_0000);
}

/// The scaling law on raw values: `s` stands for `2^32`, and each product
/// named on the left is exact.
proof fn lemma_det_scaling_raw(
    a: int,
    b: int,
    c: int,
    d: int,
    k: int,
    ak: int,
    bk: int,
    ck: int,
    dk: int,
    main: int,
    cross: int,
    ad: int,
    bc: int,
    kk: int,
    rhs: int,
)
    requires
        ak * 0x1_0000_0000 == a * k,
        bk * 0x1_0000_0000 == b * k,
        ck * 0x1_0000_0000 == c * k,
        dk * 0x1_0000_0000 == d * k,
        main * 0x1_0000_0000 == ak * dk,
        cross * 0x1_0000_0000 == bk * ck,
        ad * 0x1_0000_0000 == a * d,
        bc * 0x1_0000_0000 == b * c,
        kk * 0x1_0000_0000 == k * k,
        rhs * 0x1_0000_0000 == kk * (ad - bc),
    ensures
        main - cross == rhs,
{
    let s: int = 0x1_0000_0000;
    let t1 = ak * dk;
    let t2 = bk * ck;
    let u1 = (a * k) * (d * k);
    let u2 = (b * k) * (c * k);
    assert((ak * s) * (dk * s) == t1 * (s * s)) by (nonlinear_arith)
        requires
            t1 == ak * dk,
    ;
    assert((bk * s) * (ck * s) == t2 * (s * s)) by (nonlinear_arith)
        requires
            t2 == bk * ck,
    ;
    assert(u1 == t1 * (s * s));
    assert(u2 == t2 * (s * s));
    let t3 = kk * (ad - bc);
    let u3 = (k * k) * (a * d - b * c);
    assert((kk * s) * ((ad - bc) * s) == t3 * (s * s)) by (nonlinear_arith)
        requires
            t3 == kk * (ad - bc),
    ;
    assert((ad - bc) * s == a * d - b * c);
    assert(u3 == t3 * (s * s));
    assert(u1 - u2 == u3) by (nonlinear_arith)
        requires
            u1 == (a * k) * (d * k),
            u2 == (b * k) * (c * k),
            u3 == (k * k) * (a * d - b * c),
    ;
    assert(t1 == main * s && t2 == cross * s && t3 == rhs * s);
    assert((main * s) * (s * s) - (cross * s) * (s * s) == (rhs * s) * (s * s));
}

/// Scaling a two by two matrix by `k` scales its determinant by `k * k`,
/// where every step of both sides is exact.
pub proof fn lemma_det_scaling(m: Matrix2, k: Scalar)
    requires
        exact_det_scaling(m@[0][0], m@[0][1], m@[1][0], m@[1][1], k),
    ensures
        m.mul_spec(k).det_spec() == k.mul_spec(k).mul_spec(m.det_spec()),
{
    let a = m@[0][0];
    let b = m@[0][1];
    let c = m@[1][0];
    let d = m@[1][1];
    let scaled = mat_scale(m@, k);
    assert forall|i: int| 0 <= i < 2 implies (#[trigger] scaled[i]).len() == 2 by {}
    lemma_from_rows_view::<2, 2>(scaled);
    let km = m.mul_spec(k);
    assert(km@ == scaled);
    let ak = a.mul_spec(k);
    let bk = b.mul_spec(k);
    let ck = c.mul_spec(k);
    let dk = d.mul_spec(k);
    assert(km@[0][0] == ak && km@[0][1] == bk && km@[1][0] == ck && km@[1][1] == dk);
    let main = ak.mul_spec(dk);
    let cross = bk.mul_spec(ck);
    let lhs = main.sub_spec(cross);
    assert(km.det_spec() == lhs);
    let ad = a.mul_spec(d);
    let bc = b.mul_spec(c);
    let det = ad.sub_spec(bc);
    assert(m.det_spec() == det);
    let kk = k.mul_spec(k);
    let rhs = kk.mul_spec(det);
    lemma_exact_product(a, k);
    lemma_exact_product(b, k);
    lemma_exact_product(c, k);
    lemma_exact_product(d, k);
    lemma_exact_product(ak, dk);
    lemma_exact_product(bk, ck);
    lemma_exact_product(a, d);
    lemma_exact_product(b, c);
    lemma_exact_product(k, k);
    lemma_exact_product(kk, det);
    lemma_det_scaling_raw(
        a.raw as int,
        b.raw as int,
        c.raw as int,
        d.raw as int,
        k.raw as int,
        ak.raw as int,
        bk.raw as int,
        ck.raw as int,
        dk.raw as int,
        main.raw as int,
        cross.raw as int,
        ad.raw as int,
        bc.raw as int,
        kk.raw as int,
        rhs.raw as int,
    );
}

} // verus!
