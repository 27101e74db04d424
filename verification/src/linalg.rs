//! Fixed-size vectors and matrices over [`Scalar`].
use crate::scalar::Scalar;
use vstd::prelude::*;
use vstd::std_specs::ops::{AddSpec, DivSpec, MulSpec, SubSpec};

verus! {

broadcast use vstd::array::group_array_axioms;

/// A value that can be scaled and summed, and so interpolated.
pub trait Linear: Copy {
    spec fn scale_spec(self, k: Scalar) -> Self;

    spec fn sum_spec(self, rhs: Self) -> Self;

    fn scale(self, k: Scalar) -> (r: Self)
        ensures
            r == self.scale_spec(k),
    ;

    fn sum(self, rhs: Self) -> (r: Self)
        ensures
            r == self.sum_spec(rhs),
    ;
}

/// The value that carries nothing.
#[derive(Debug, Copy, Clone, PartialEq, Eq, Structural)]
pub struct Null {}

impl Linear for Null {
    open spec fn scale_spec(self, k: Scalar) -> Null {
        Null {  }
    }

    open spec fn sum_spec(self, rhs: Null) -> Null {
        Null {  }
    }

    fn scale(self, k: Scalar) -> (r: Null) {
        Null {  }
    }

    fn sum(self, rhs: Null) -> (r: Null) {
        Null {  }
    }
}

impl Linear for Scalar {
    open spec fn scale_spec(self, k: Scalar) -> Scalar {
        self.mul_spec(k)
    }

    open spec fn sum_spec(self, rhs: Scalar) -> Scalar {
        self.add_spec(rhs)
    }

    fn scale(self, k: Scalar) -> (r: Scalar) {
        self * k
    }

    fn sum(self, rhs: Scalar) -> (r: Scalar) {
        self + rhs
    }
}

/// A vector of `N` components.
#[derive(Debug, Copy, Clone, PartialEq, Eq)]
pub struct BVec<const N: usize> {
    pub v: [Scalar; N],
}

pub type Vec2 = BVec<2>;

pub type Vec3 = BVec<3>;

pub type Vec4 = BVec<4>;

impl<const N: usize> View for BVec<N> {
    type V = Seq<Scalar>;

    open spec fn view(&self) -> Seq<Scalar> {
        self.v@
    }
}

/// The vector `(x, y)`.
pub open spec fn vec2(x: Scalar, y: Scalar) -> Vec2 {
    BVec { v: [x, y] }
}

/// The vector `(x, y, z)`.
pub open spec fn vec3(x: Scalar, y: Scalar, z: Scalar) -> Vec3 {
    BVec { v: [x, y, z] }
}

/// The vector `(x, y, z, w)`.
pub open spec fn vec4(x: Scalar, y: Scalar, z: Scalar, w: Scalar) -> Vec4 {
    BVec { v: [x, y, z, w] }
}

impl BVec<2> {
    pub fn new(x: Scalar, y: Scalar) -> (r: Vec2)
        ensures
            r == vec2(x, y),
            r@ == seq![x, y],
    {
        let r = BVec { v: [x, y] };
        assert(r@ =~= seq![x, y]);
        r
    }
}

impl BVec<3> {
    pub fn new(x: Scalar, y: Scalar, z: Scalar) -> (r: Vec3)
        ensures
            r == vec3(x, y, z),
            r@ == seq![x, y, z],
    {
        let r = BVec { v: [x, y, z] };
        assert(r@ =~= seq![x, y, z]);
        r
    }
}

impl BVec<4> {
    pub fn new(x: Scalar, y: Scalar, z: Scalar, w: Scalar) -> (r: Vec4)
        ensures
            r == vec4(x, y, z, w),
            r@ == seq![x, y, z, w],
    {
        let r = BVec { v: [x, y, z, w] };
        assert(r@ =~= seq![x, y, z, w]);
        r
    }
}

/// The sums of the components of `a` and `b`, place by place.
pub open spec fn seq_add(a: Seq<Scalar>, b: Seq<Scalar>) -> Seq<Scalar> {
    Seq::new(a.len(), |i: int| a[i].add_spec(b[i]))
}

/// The differences of the components of `a` and `b`, place by place.
pub open spec fn seq_sub(a: Seq<Scalar>, b: Seq<Scalar>) -> Seq<Scalar> {
    Seq::new(a.len(), |i: int| a[i].sub_spec(b[i]))
}

/// The products of the components of `a` and `b`, place by place.
pub open spec fn seq_star(a: Seq<Scalar>, b: Seq<Scalar>) -> Seq<Scalar> {
    Seq::new(a.len(), |i: int| a[i].mul_spec(b[i]))
}

/// The components of `a`, each times `k`.
pub open spec fn seq_scale(a: Seq<Scalar>, k: Scalar) -> Seq<Scalar> {
    Seq::new(a.len(), |i: int| a[i].mul_spec(k))
}

/// The sum of the products of the first `n` components of `a` and `b`,
/// summed from the first on.
pub open spec fn seq_dot(a: Seq<Scalar>, b: Seq<Scalar>, n: nat) -> Scalar
    decreases n,
{
    if n == 0 {
        Scalar::zero_spec()
    } else {
        seq_dot(a, b, (n - 1) as nat).add_spec(a[n - 1].mul_spec(b[n - 1]))
    }
}

/// A sum of squares is not negative.
pub proof fn lemma_dot_self_nonnegative(a: Seq<Scalar>, n: nat)
    ensures
        seq_dot(a, a, n).raw >= 0,
    decreases n,
{
    if n > 0 {
        lemma_dot_self_nonnegative(a, (n - 1) as nat);
        let x = a[n - 1].raw as int;
        assert(x * x >= 0) by (nonlinear_arith);
        vstd::arithmetic::div_mod::lemma_div_pos_is_pos(x * x, 0x1_0000_0000);
    }
}

/// The array that holds the first `k` components of `s` and zero after them.
pub open spec fn array_of<const N: usize>(s: Seq<Scalar>, k: nat) -> [Scalar; N]
    decreases k,
{
    if k == 0 {
        vstd::array::spec_array_fill_for_copy_type(Scalar::zero_spec())
    } else {
        vstd::array::spec_array_update(array_of::<N>(s, (k - 1) as nat), k - 1, s[k - 1])
    }
}

/// `array_of(s, k)` holds the first `k` components of `s`.
pub proof fn lemma_array_of<const N: usize>(s: Seq<Scalar>, k: nat)
    requires
        k <= N,
    ensures
        forall|i: int| 0 <= i < k ==> array_of::<N>(s, k)@[i] == s[i],
    decreases k,
{
    if k > 0 {
        lemma_array_of::<N>(s, (k - 1) as nat);
    }
}

impl<const N: usize> BVec<N> {
    /// The vector whose components are those of `s`, for `s` of length `N`.
    pub open spec fn from_seq(s: Seq<Scalar>) -> BVec<N> {
        choose|r: BVec<N>| r@ == s
    }

    /// A vector is the one that its components name.
    pub proof fn lemma_from_seq(self)
        ensures
            BVec::<N>::from_seq(self@) == self,
    {
        let r = BVec::<N>::from_seq(self@);
        assert(r@ == self@);
        assert(r.v =~= self.v);
    }

    /// Every sequence of `N` components names a vector.
    pub proof fn lemma_from_seq_view(s: Seq<Scalar>)
        requires
            s.len() == N,
        ensures
            BVec::<N>::from_seq(s)@ == s,
    {
        lemma_array_of::<N>(s, N as nat);
        let witness = BVec::<N> { v: array_of::<N>(s, N as nat) };
        assert(witness@ =~= s);
    }

    pub open spec fn zero_spec() -> BVec<N> {
        BVec::<N>::from_seq(Seq::new(N as nat, |i: int| Scalar::zero_spec()))
    }

    /// The vector of zeros.
    pub fn zero() -> (r: BVec<N>)
        ensures
            r == BVec::<N>::zero_spec(),
            forall|i: int| 0 <= i < N ==> r@[i] == Scalar::zero_spec(),
    {
        let r = BVec { v: [Scalar::zero();N] };
        proof {
            assert(r@ =~= Seq::new(N as nat, |i: int| Scalar::zero_spec()));
            r.lemma_from_seq();
        }
        r
    }

    /// Whether every component is zero.
    pub fn is_zero(&self) -> (b: bool)
        ensures
            b == (forall|i: int| 0 <= i < N ==> self@[i].raw == 0),
    {
        let mut i: usize = 0;
        while i < N
            invariant
                i <= N,
                forall|j: int| 0 <= j < i ==> self@[j].raw == 0,
            decreases N - i,
        {
            if !self.v[i].is_zero() {
                assert(self@[i as int].raw != 0);
                return false;
            }
            i += 1;
        }
        true
    }

    pub fn x(&self) -> (r: Scalar)
        requires
            N > 0,
        ensures
            r == self@[0],
    {
        self.v[0]
    }

    pub fn y(&self) -> (r: Scalar)
        requires
            N > 1,
        ensures
            r == self@[1],
    {
        self.v[1]
    }

    pub fn z(&self) -> (r: Scalar)
        requires
            N > 2,
        ensures
            r == self@[2],
    {
        self.v[2]
    }

    pub fn w(&self) -> (r: Scalar)
        requires
            N > 3,
        ensures
            r == self@[3],
    {
        self.v[3]
    }

    pub fn xy(&self) -> (r: BVec<2>)
        requires
            N > 1,
        ensures
            r == vec2(self@[0], self@[1]),
    {
        BVec { v: [self.v[0], self.v[1]] }
    }

    pub fn xz(&self) -> (r: BVec<2>)
        requires
            N > 2,
        ensures
            r == vec2(self@[0], self@[2]),
    {
        BVec { v: [self.v[0], self.v[2]] }
    }

    pub fn xw(&self) -> (r: BVec<2>)
        requires
            N > 3,
        ensures
            r == vec2(self@[0], self@[3]),
    {
        BVec { v: [self.v[0], self.v[3]] }
    }

    pub fn yz(&self) -> (r: BVec<2>)
        requires
            N > 2,
        ensures
            r == vec2(self@[1], self@[2]),
    {
        BVec { v: [self.v[1], self.v[2]] }
    }

    pub fn yw(&self) -> (r: BVec<2>)
        requires
            N > 3,
        ensures
            r == vec2(self@[1], self@[3]),
    {
        BVec { v: [self.v[1], self.v[3]] }
    }

    pub fn zw(&self) -> (r: BVec<2>)
        requires
            N > 3,
        ensures
            r == vec2(self@[2], self@[3]),
    {
        BVec { v: [self.v[2], self.v[3]] }
    }

    pub fn xyz(&self) -> (r: BVec<3>)
        requires
            N > 2,
        ensures
            r == vec3(self@[0], self@[1], self@[2]),
    {
        BVec { v: [self.v[0], self.v[1], self.v[2]] }
    }

    pub fn xyw(&self) -> (r: BVec<3>)
        requires
            N > 3,
        ensures
            r == vec3(self@[0], self@[1], self@[3]),
    {
        BVec { v: [self.v[0], self.v[1], self.v[3]] }
    }

    pub fn xzw(&self) -> (r: BVec<3>)
        requires
            N > 3,
        ensures
            r == vec3(self@[0], self@[2], self@[3]),
    {
        BVec { v: [self.v[0], self.v[2], self.v[3]] }
    }

    pub fn yzw(&self) -> (r: BVec<3>)
        requires
            N > 3,
        ensures
            r == vec3(self@[1], self@[2], self@[3]),
    {
        BVec { v: [self.v[1], self.v[2], self.v[3]] }
    }

    pub fn xyzw(&self) -> (r: BVec<4>)
        requires
            N > 3,
        ensures
            r == vec4(self@[0], self@[1], self@[2], self@[3]),
    {
        BVec { v: [self.v[0], self.v[1], self.v[2], self.v[3]] }
    }

    pub open spec fn star_spec(self, rhs: BVec<N>) -> BVec<N> {
        BVec::<N>::from_seq(seq_star(self@, rhs@))
    }

    /// The product, component by component.
    pub fn star(&self, rhs: &Self) -> (r: BVec<N>)
        ensures
            r == self.star_spec(*rhs),
            r@ == seq_star(self@, rhs@),
    {
        let mut v = self.v;
        let mut i: usize = 0;
        while i < N
            invariant
                i <= N,
                forall|j: int| 0 <= j < i ==> v@[j] == self@[j].mul_spec(rhs@[j]),
            decreases N - i,
        {
            v[i] = self.v[i] * rhs.v[i];
            i += 1;
        }
        let r = BVec { v };
        proof {
            assert(r@ =~= seq_star(self@, rhs@));
            r.lemma_from_seq();
        }
        r
    }

    pub open spec fn dot_spec(self, rhs: BVec<N>) -> Scalar {
        seq_dot(self@, rhs@, N as nat)
    }

    /// The dot product.
    pub fn dot(&self, rhs: &Self) -> (r: Scalar)
        ensures
            r == self.dot_spec(*rhs),
    {
        let mut ans = Scalar::zero();
        let mut i: usize = 0;
        while i < N
            invariant
                i <= N,
                ans == seq_dot(self@, rhs@, i as nat),
            decreases N - i,
        {
            ans = ans + self.v[i] * rhs.v[i];
            i += 1;
        }
        ans
    }
}

impl<const N: usize> vstd::std_specs::ops::AddSpecImpl for BVec<N> {
    open spec fn obeys_add_spec() -> bool {
        true
    }

    open spec fn add_req(self, rhs: BVec<N>) -> bool {
        true
    }

    open spec fn add_spec(self, rhs: BVec<N>) -> BVec<N> {
        BVec::<N>::from_seq(seq_add(self@, rhs@))
    }
}

impl<const N: usize> core::ops::Add for BVec<N> {
    type Output = BVec<N>;

    fn add(self, rhs: BVec<N>) -> (r: BVec<N>) {
        let mut v = self.v;
        let mut i: usize = 0;
        while i < N
            invariant
                i <= N,
                forall|j: int| 0 <= j < i ==> v@[j] == self@[j].add_spec(rhs@[j]),
            decreases N - i,
        {
            v[i] = self.v[i] + rhs.v[i];
            i += 1;
        }
        let r = BVec { v };
        proof {
            assert(r@ =~= seq_add(self@, rhs@));
            r.lemma_from_seq();
        }
        r
    }
}

impl<const N: usize> vstd::std_specs::ops::SubSpecImpl for BVec<N> {
    open spec fn obeys_sub_spec() -> bool {
        true
    }

    open spec fn sub_req(self, rhs: BVec<N>) -> bool {
        true
    }

    open spec fn sub_spec(self, rhs: BVec<N>) -> BVec<N> {
        BVec::<N>::from_seq(seq_sub(self@, rhs@))
    }
}

impl<const N: usize> core::ops::Sub for BVec<N> {
    type Output = BVec<N>;

    fn sub(self, rhs: BVec<N>) -> (r: BVec<N>) {
        let mut v = self.v;
        let mut i: usize = 0;
        while i < N
            invariant
                i <= N,
                forall|j: int| 0 <= j < i ==> v@[j] == self@[j].sub_spec(rhs@[j]),
            decreases N - i,
        {
            v[i] = self.v[i] - rhs.v[i];
            i += 1;
        }
        let r = BVec { v };
        proof {
            assert(r@ =~= seq_sub(self@, rhs@));
            r.lemma_from_seq();
        }
        r
    }
}

impl<const N: usize> vstd::std_specs::ops::MulSpecImpl<Scalar> for BVec<N> {
    open spec fn obeys_mul_spec() -> bool {
        true
    }

    open spec fn mul_req(self, rhs: Scalar) -> bool {
        true
    }

    open spec fn mul_spec(self, rhs: Scalar) -> BVec<N> {
        BVec::<N>::from_seq(seq_scale(self@, rhs))
    }
}

impl<const N: usize> core::ops::Mul<Scalar> for BVec<N> {
    type Output = BVec<N>;

    fn mul(self, rhs: Scalar) -> (r: BVec<N>) {
        let mut v = self.v;
        let mut i: usize = 0;
        while i < N
            invariant
                i <= N,
                forall|j: int| 0 <= j < i ==> v@[j] == self@[j].mul_spec(rhs),
            decreases N - i,
        {
            v[i] = self.v[i] * rhs;
            i += 1;
        }
        let r = BVec { v };
        proof {
            assert(r@ =~= seq_scale(self@, rhs));
            r.lemma_from_seq();
        }
        r
    }
}

impl<const N: usize> vstd::std_specs::ops::MulSpecImpl<BVec<N>> for Scalar {
    open spec fn obeys_mul_spec() -> bool {
        true
    }

    open spec fn mul_req(self, rhs: BVec<N>) -> bool {
        true
    }

    /// The vector times the number.
    open spec fn mul_spec(self, rhs: BVec<N>) -> BVec<N> {
        BVec::<N>::from_seq(seq_scale(rhs@, self))
    }
}

impl<const N: usize> core::ops::Mul<BVec<N>> for Scalar {
    type Output = BVec<N>;

    fn mul(self, rhs: BVec<N>) -> (r: BVec<N>) {
        rhs * self
    }
}

impl<const N: usize> vstd::std_specs::ops::MulSpecImpl<BVec<N>> for BVec<N> {
    open spec fn obeys_mul_spec() -> bool {
        true
    }

    open spec fn mul_req(self, rhs: BVec<N>) -> bool {
        true
    }

    /// The dot product.
    open spec fn mul_spec(self, rhs: BVec<N>) -> Scalar {
        self.dot_spec(rhs)
    }
}

impl<const N: usize> core::ops::Mul<BVec<N>> for BVec<N> {
    type Output = Scalar;

    fn mul(self, rhs: BVec<N>) -> (r: Scalar) {
        self.dot(&rhs)
    }
}

impl<const N: usize> BVec<N> {
    /// The square of the length.
    pub open spec fn norm_squared_spec(self) -> Scalar {
        seq_dot(self@, self@, N as nat)
    }

    /// The length: the square root, rounded down, of the sum of the squares.
    pub open spec fn norm_spec(self) -> Scalar {
        self.norm_squared_spec().sqrt_spec()
    }

    pub fn norm(&self) -> (r: Scalar)
        ensures
            r == self.norm_spec(),
    {
        let sum = self.dot(self);
        proof {
            lemma_dot_self_nonnegative(self@, N as nat);
        }
        sum.sqrt()
    }

    pub open spec fn normalize_spec(self) -> BVec<N> {
        self.mul_spec(Scalar::one_spec().div_spec(self.norm_spec()))
    }

    /// The vector scaled by the reciprocal of its length.
    pub fn normalize(&self) -> (r: BVec<N>)
        requires
            self.norm_spec().raw != 0,
        ensures
            r == self.normalize_spec(),
    {
        *self * (Scalar::one() / self.norm())
    }
}

/// Zero and one behave on vectors as on numbers: scaling by one keeps a
/// vector, scaling by zero gives the zero vector, and adding the zero vector
/// keeps a vector.
pub proof fn lemma_vector_zero_one<const N: usize>(v: BVec<N>)
    ensures
        v.mul_spec(Scalar::one_spec()) == v,
        v.mul_spec(Scalar::zero_spec()) == BVec::<N>::zero_spec(),
        BVec::<N>::zero_spec().add_spec(v) == v,
        v.add_spec(BVec::<N>::zero_spec()) == v,
{
    let zeros = Seq::new(N as nat, |i: int| Scalar::zero_spec());
    BVec::<N>::lemma_from_seq_view(zeros);
    assert forall|i: int| 0 <= i < N implies seq_scale(v@, Scalar::one_spec())[i] == v@[i]
        && seq_scale(v@, Scalar::zero_spec())[i] == zeros[i] && seq_add(zeros, v@)[i] == v@[i]
        && seq_add(v@, zeros)[i] == v@[i] by {
        crate::scalar::lemma_zero_one(v@[i]);
    }
    assert(seq_scale(v@, Scalar::one_spec()) =~= v@);
    assert(seq_scale(v@, Scalar::zero_spec()) =~= zeros);
    assert(seq_add(zeros, v@) =~= v@);
    assert(seq_add(v@, zeros) =~= v@);
    v.lemma_from_seq();
}

impl BVec<3> {
    /// The cross product:
    /// `(a.y b.z - a.z b.y, a.z b.x - a.x b.z, a.x b.y - a.y b.x)`.
    pub open spec fn cross_spec(self, other: BVec<3>) -> BVec<3> {
        vec3(
            self@[1].mul_spec(other@[2]).sub_spec(self@[2].mul_spec(other@[1])),
            self@[2].mul_spec(other@[0]).sub_spec(self@[0].mul_spec(other@[2])),
            self@[0].mul_spec(other@[1]).sub_spec(self@[1].mul_spec(other@[0])),
        )
    }

    pub fn cross(&self, other: BVec<3>) -> (r: BVec<3>)
        ensures
            r == self.cross_spec(other),
    {
        BVec::<3> {
            v: [
                self.v[1] * other.v[2] - self.v[2] * other.v[1],
                self.v[2] * other.v[0] - self.v[0] * other.v[2],
                self.v[0] * other.v[1] - self.v[1] * other.v[0],
            ],
        }
    }
}

impl<const N: usize> Linear for BVec<N> {
    open spec fn scale_spec(self, k: Scalar) -> BVec<N> {
        self.mul_spec(k)
    }

    open spec fn sum_spec(self, rhs: BVec<N>) -> BVec<N> {
        self.add_spec(rhs)
    }

    fn scale(self, k: Scalar) -> (r: BVec<N>) {
        self * k
    }

    fn sum(self, rhs: BVec<N>) -> (r: BVec<N>) {
        self + rhs
    }
}

/// A matrix of `M` rows and `N` columns.
#[derive(Debug, Copy, Clone, PartialEq, Eq)]
pub struct BMatrix<const M: usize, const N: usize> {
    pub v: [[Scalar; N]; M],
}

pub type Matrix2 = BMatrix<2, 2>;

pub type Matrix22 = BMatrix<2, 2>;

pub type Matrix23 = BMatrix<2, 3>;

pub type Matrix24 = BMatrix<2, 4>;

pub type Matrix32 = BMatrix<3, 2>;

pub type Matrix3 = BMatrix<3, 3>;

pub type Matrix33 = BMatrix<3, 3>;

pub type Matrix34 = BMatrix<3, 4>;

pub type Matrix42 = BMatrix<4, 2>;

pub type Matrix43 = BMatrix<4, 3>;

pub type Matrix4 = BMatrix<4, 4>;

pub type Matrix44 = BMatrix<4, 4>;

impl<const M: usize, const N: usize> View for BMatrix<M, N> {
    type V = Seq<Seq<Scalar>>;

    /// The rows.
    open spec fn view(&self) -> Seq<Seq<Scalar>> {
        Seq::new(M as nat, |i: int| self.v@[i]@)
    }
}

/// Column `j` of the rows `a`.
pub open spec fn mat_col(a: Seq<Seq<Scalar>>, j: int) -> Seq<Scalar> {
    Seq::new(a.len(), |i: int| a[i][j])
}

/// The sums of the entries of `a` and `b`, place by place.
pub open spec fn mat_add(a: Seq<Seq<Scalar>>, b: Seq<Seq<Scalar>>) -> Seq<Seq<Scalar>> {
    Seq::new(a.len(), |i: int| seq_add(a[i], b[i]))
}

/// The differences of the entries of `a` and `b`, place by place.
pub open spec fn mat_sub(a: Seq<Seq<Scalar>>, b: Seq<Seq<Scalar>>) -> Seq<Seq<Scalar>> {
    Seq::new(a.len(), |i: int| seq_sub(a[i], b[i]))
}

/// The entries of `a`, each times `k`.
pub open spec fn mat_scale(a: Seq<Seq<Scalar>>, k: Scalar) -> Seq<Seq<Scalar>> {
    Seq::new(a.len(), |i: int| seq_scale(a[i], k))
}

/// The `n` columns of `a` as rows.
pub open spec fn mat_transpose(a: Seq<Seq<Scalar>>, n: nat) -> Seq<Seq<Scalar>> {
    Seq::new(n, |j: int| mat_col(a, j))
}

/// The dot products of the rows of `a` with `x`.
pub open spec fn mat_vec(a: Seq<Seq<Scalar>>, x: Seq<Scalar>) -> Seq<Scalar> {
    Seq::new(a.len(), |i: int| seq_dot(a[i], x, x.len()))
}

/// The dot products of `x` with the `n` columns of `a`.
pub open spec fn vec_mat(x: Seq<Scalar>, a: Seq<Seq<Scalar>>, n: nat) -> Seq<Scalar> {
    Seq::new(n, |j: int| seq_dot(x, mat_col(a, j), x.len()))
}

/// The dot products of the rows of `a` with the `p` columns of `b`.
pub open spec fn mat_mul(a: Seq<Seq<Scalar>>, b: Seq<Seq<Scalar>>, p: nat) -> Seq<Seq<Scalar>> {
    Seq::new(a.len(), |i: int| vec_mat(a[i], b, p))
}

/// The rows of the square matrix with ones on the diagonal and zeros off it.
pub open spec fn mat_one(n: nat) -> Seq<Seq<Scalar>> {
    Seq::new(
        n,
        |i: int|
            Seq::new(
                n,
                |j: int|
                    if i == j {
                        Scalar::one_spec()
                    } else {
                        Scalar::zero_spec()
                    },
            ),
    )
}

/// The rows of the matrix of zeros.
pub open spec fn mat_zero(m: nat, n: nat) -> Seq<Seq<Scalar>> {
    Seq::new(m, |i: int| Seq::new(n, |j: int| Scalar::zero_spec()))
}

impl<const M: usize, const N: usize> BMatrix<M, N> {
    /// The matrix whose rows are those of `s`, for `M` rows of length `N`.
    pub open spec fn from_rows(s: Seq<Seq<Scalar>>) -> BMatrix<M, N> {
        choose|r: BMatrix<M, N>| r@ == s
    }

    /// A matrix is the one that its rows name.
    pub proof fn lemma_from_rows(self)
        ensures
            BMatrix::<M, N>::from_rows(self@) == self,
    {
        let r = BMatrix::<M, N>::from_rows(self@);
        assert(r@ == self@);
        assert forall|i: int| 0 <= i < M implies r.v@[i] == self.v@[i] by {
            assert(r@[i] == self@[i]);
            assert(r.v@[i]@ == self.v@[i]@);
            assert(r.v@[i] =~= self.v@[i]);
        }
        assert(r.v =~= self.v);
    }

    /// A matrix with the rows `s` is the one that `s` names.
    pub proof fn lemma_is_from_rows(self, s: Seq<Seq<Scalar>>)
        requires
            s.len() == M,
            forall|i: int| 0 <= i < M ==> self.v@[i]@ == #[trigger] s[i],
        ensures
            self == BMatrix::<M, N>::from_rows(s),
            self@ == s,
    {
        assert(self@ =~= s);
        self.lemma_from_rows();
    }

    pub open spec fn zero_spec() -> BMatrix<M, N> {
        BMatrix::<M, N>::from_rows(mat_zero(M as nat, N as nat))
    }

    /// The matrix of zeros.
    pub fn zero() -> (r: BMatrix<M, N>)
        ensures
            r == BMatrix::<M, N>::zero_spec(),
            r@ == mat_zero(M as nat, N as nat),
    {
        let r = BMatrix { v: [[Scalar::zero();N];M] };
        proof {
            assert forall|i: int| 0 <= i < M implies r.v@[i]@ == #[trigger] mat_zero(
                M as nat,
                N as nat,
            )[i] by {
                assert(r.v@[i]@ =~= mat_zero(M as nat, N as nat)[i]);
            }
            r.lemma_is_from_rows(mat_zero(M as nat, N as nat));
        }
        r
    }

    /// Whether every entry is zero.
    pub fn is_zero(&self) -> (b: bool)
        ensures
            b == (forall|i: int, j: int| 0 <= i < M && 0 <= j < N ==> self@[i][j].raw == 0),
    {
        let mut i: usize = 0;
        while i < M
            invariant
                i <= M,
                forall|k: int, j: int| 0 <= k < i && 0 <= j < N ==> self@[k][j].raw == 0,
            decreases M - i,
        {
            let mut j: usize = 0;
            while j < N
                invariant
                    i < M,
                    j <= N,
                    forall|k: int, l: int| 0 <= k < i && 0 <= l < N ==> self@[k][l].raw == 0,
                    forall|l: int| 0 <= l < j ==> self@[i as int][l].raw == 0,
                decreases N - j,
            {
                if !self.v[i][j].is_zero() {
                    assert(self@[i as int][j as int].raw != 0);
                    return false;
                }
                j += 1;
            }
            i += 1;
        }
        true
    }

    pub open spec fn transpose_spec(self) -> BMatrix<N, M> {
        BMatrix::<N, M>::from_rows(mat_transpose(self@, N as nat))
    }

    /// The matrix with rows and columns exchanged.
    pub fn transpose(&self) -> (r: BMatrix<N, M>)
        ensures
            r == self.transpose_spec(),
            r@ == mat_transpose(self@, N as nat),
    {
        let mut v = [[Scalar::zero();M];N];
        let mut j: usize = 0;
        while j < N
            invariant
                j <= N,
                forall|k: int| 0 <= k < j ==> v@[k]@ == mat_col(self@, k),
            decreases N - j,
        {
            let mut row = [Scalar::zero();M];
            let mut i: usize = 0;
            while i < M
                invariant
                    i <= M,
                    j < N,
                    forall|k: int| 0 <= k < i ==> row@[k] == self@[k][j as int],
                decreases M - i,
            {
                row[i] = self.v[i][j];
                i += 1;
            }
            assert(row@ =~= mat_col(self@, j as int));
            v[j] = row;
            j += 1;
        }
        let r = BMatrix { v };
        proof {
            r.lemma_is_from_rows(mat_transpose(self@, N as nat));
        }
        r
    }
}

impl<const N: usize> BMatrix<N, N> {
    pub open spec fn one_spec() -> BMatrix<N, N> {
        BMatrix::<N, N>::from_rows(mat_one(N as nat))
    }

    /// The identity matrix.
    pub fn one() -> (r: BMatrix<N, N>)
        ensures
            r == BMatrix::<N, N>::one_spec(),
            r@ == mat_one(N as nat),
    {
        let mut v = [[Scalar::zero();N];N];
        let mut i: usize = 0;
        while i < N
            invariant
                i <= N,
                forall|k: int| 0 <= k < i ==> v@[k]@ == mat_one(N as nat)[k],
            decreases N - i,
        {
            let mut row = [Scalar::zero();N];
            row[i] = Scalar::one();
            assert(row@ =~= mat_one(N as nat)[i as int]);
            v[i] = row;
            i += 1;
        }
        let r = BMatrix { v };
        proof {
            r.lemma_is_from_rows(mat_one(N as nat));
        }
        r
    }
}

impl<const M: usize, const N: usize> vstd::std_specs::ops::AddSpecImpl for BMatrix<M, N> {
    open spec fn obeys_add_spec() -> bool {
        true
    }

    open spec fn add_req(self, rhs: BMatrix<M, N>) -> bool {
        true
    }

    open spec fn add_spec(self, rhs: BMatrix<M, N>) -> BMatrix<M, N> {
        BMatrix::<M, N>::from_rows(mat_add(self@, rhs@))
    }
}

impl<const M: usize, const N: usize> core::ops::Add for BMatrix<M, N> {
    type Output = BMatrix<M, N>;

    fn add(self, rhs: BMatrix<M, N>) -> (r: BMatrix<M, N>) {
        let mut v = self.v;
        let mut i: usize = 0;
        while i < M
            invariant
                i <= M,
                forall|k: int| 0 <= k < i ==> v@[k]@ == seq_add(self@[k], rhs@[k]),
            decreases M - i,
        {
            let row = (BVec { v: self.v[i] } + BVec { v: rhs.v[i] }).v;
            proof {
                BVec::<N>::lemma_from_seq_view(seq_add(self@[i as int], rhs@[i as int]));
            }
            v[i] = row;
            i += 1;
        }
        let r = BMatrix { v };
        proof {
            r.lemma_is_from_rows(mat_add(self@, rhs@));
        }
        r
    }
}

impl<const M: usize, const N: usize> vstd::std_specs::ops::SubSpecImpl for BMatrix<M, N> {
    open spec fn obeys_sub_spec() -> bool {
        true
    }

    open spec fn sub_req(self, rhs: BMatrix<M, N>) -> bool {
        true
    }

    open spec fn sub_spec(self, rhs: BMatrix<M, N>) -> BMatrix<M, N> {
        BMatrix::<M, N>::from_rows(mat_sub(self@, rhs@))
    }
}

impl<const M: usize, const N: usize> core::ops::Sub for BMatrix<M, N> {
    type Output = BMatrix<M, N>;

    fn sub(self, rhs: BMatrix<M, N>) -> (r: BMatrix<M, N>) {
        let mut v = self.v;
        let mut i: usize = 0;
        while i < M
            invariant
                i <= M,
                forall|k: int| 0 <= k < i ==> v@[k]@ == seq_sub(self@[k], rhs@[k]),
            decreases M - i,
        {
            let row = (BVec { v: self.v[i] } - BVec { v: rhs.v[i] }).v;
            proof {
                BVec::<N>::lemma_from_seq_view(seq_sub(self@[i as int], rhs@[i as int]));
            }
            v[i] = row;
            i += 1;
        }
        let r = BMatrix { v };
        proof {
            r.lemma_is_from_rows(mat_sub(self@, rhs@));
        }
        r
    }
}

impl<const M: usize, const N: usize> vstd::std_specs::ops::MulSpecImpl<Scalar> for BMatrix<M, N> {
    open spec fn obeys_mul_spec() -> bool {
        true
    }

    open spec fn mul_req(self, rhs: Scalar) -> bool {
        true
    }

    open spec fn mul_spec(self, rhs: Scalar) -> BMatrix<M, N> {
        BMatrix::<M, N>::from_rows(mat_scale(self@, rhs))
    }
}

impl<const M: usize, const N: usize> core::ops::Mul<Scalar> for BMatrix<M, N> {
    type Output = BMatrix<M, N>;

    fn mul(self, rhs: Scalar) -> (r: BMatrix<M, N>) {
        let mut v = self.v;
        let mut i: usize = 0;
        while i < M
            invariant
                i <= M,
                forall|k: int| 0 <= k < i ==> v@[k]@ == seq_scale(self@[k], rhs),
            decreases M - i,
        {
            let row = (BVec { v: self.v[i] } * rhs).v;
            proof {
                BVec::<N>::lemma_from_seq_view(seq_scale(self@[i as int], rhs));
            }
            v[i] = row;
            i += 1;
        }
        let r = BMatrix { v };
        proof {
            r.lemma_is_from_rows(mat_scale(self@, rhs));
        }
        r
    }
}

impl<const M: usize, const N: usize> vstd::std_specs::ops::MulSpecImpl<BVec<N>> for BMatrix<M, N> {
    open spec fn obeys_mul_spec() -> bool {
        true
    }

    open spec fn mul_req(self, rhs: BVec<N>) -> bool {
        true
    }

    /// The matrix applied to the column `rhs`.
    open spec fn mul_spec(self, rhs: BVec<N>) -> BVec<M> {
        BVec::<M>::from_seq(mat_vec(self@, rhs@))
    }
}

impl<const M: usize, const N: usize> core::ops::Mul<BVec<N>> for BMatrix<M, N> {
    type Output = BVec<M>;

    fn mul(self, rhs: BVec<N>) -> (r: BVec<M>) {
        let mut v = [Scalar::zero();M];
        let mut i: usize = 0;
        while i < M
            invariant
                i <= M,
                forall|k: int| 0 <= k < i ==> v@[k] == seq_dot(self@[k], rhs@, N as nat),
            decreases M - i,
        {
            v[i] = BVec { v: self.v[i] }.dot(&rhs);
            i += 1;
        }
        let r = BVec { v };
        proof {
            assert(r@ =~= mat_vec(self@, rhs@));
            r.lemma_from_seq();
        }
        r
    }
}

impl<const M: usize, const N: usize> vstd::std_specs::ops::MulSpecImpl<BMatrix<M, N>> for BVec<M> {
    open spec fn obeys_mul_spec() -> bool {
        true
    }

    open spec fn mul_req(self, rhs: BMatrix<M, N>) -> bool {
        true
    }

    /// The row `self` applied to the matrix.
    open spec fn mul_spec(self, rhs: BMatrix<M, N>) -> BVec<N> {
        BVec::<N>::from_seq(vec_mat(self@, rhs@, N as nat))
    }
}

impl<const M: usize, const N: usize> core::ops::Mul<BMatrix<M, N>> for BVec<M> {
    type Output = BVec<N>;

    fn mul(self, rhs: BMatrix<M, N>) -> (r: BVec<N>) {
        let mut v = [Scalar::zero();N];
        let mut j: usize = 0;
        while j < N
            invariant
                j <= N,
                forall|k: int| 0 <= k < j ==> v@[k] == seq_dot(self@, mat_col(rhs@, k), M as nat),
            decreases N - j,
        {
            let mut ans = Scalar::zero();
            let mut i: usize = 0;
            while i < M
                invariant
                    i <= M,
                    j < N,
                    ans == seq_dot(self@, mat_col(rhs@, j as int), i as nat),
                decreases M - i,
            {
                ans = ans + self.v[i] * rhs.v[i][j];
                i += 1;
            }
            v[j] = ans;
            j += 1;
        }
        let r = BVec { v };
        proof {
            assert(r@ =~= vec_mat(self@, rhs@, N as nat));
            r.lemma_from_seq();
        }
        r
    }
}

impl<const M: usize, const N: usize, const P: usize> vstd::std_specs::ops::MulSpecImpl<BMatrix<N, P>>
    for BMatrix<M, N> {
    open spec fn obeys_mul_spec() -> bool {
        true
    }

    open spec fn mul_req(self, rhs: BMatrix<N, P>) -> bool {
        true
    }

    /// The matrix product.
    open spec fn mul_spec(self, rhs: BMatrix<N, P>) -> BMatrix<M, P> {
        BMatrix::<M, P>::from_rows(mat_mul(self@, rhs@, P as nat))
    }
}

impl<const M: usize, const N: usize, const P: usize> core::ops::Mul<BMatrix<N, P>>
    for BMatrix<M, N> {
    type Output = BMatrix<M, P>;

    fn mul(self, rhs: BMatrix<N, P>) -> (r: BMatrix<M, P>) {
        let mut v = [[Scalar::zero();P];M];
        let mut i: usize = 0;
        while i < M
            invariant
                i <= M,
                forall|k: int| 0 <= k < i ==> v@[k]@ == vec_mat(self@[k], rhs@, P as nat),
            decreases M - i,
        {
            let row = (BVec { v: self.v[i] } * rhs).v;
            proof {
                BVec::<P>::lemma_from_seq_view(vec_mat(self@[i as int], rhs@, P as nat));
            }
            v[i] = row;
            i += 1;
        }
        let r = BMatrix { v };
        proof {
            r.lemma_is_from_rows(mat_mul(self@, rhs@, P as nat));
        }
        r
    }
}

impl<const M: usize, const N: usize> vstd::std_specs::ops::MulSpecImpl<BMatrix<M, N>> for Scalar {
    open spec fn obeys_mul_spec() -> bool {
        true
    }

    open spec fn mul_req(self, rhs: BMatrix<M, N>) -> bool {
        true
    }

    /// The matrix times the number.
    open spec fn mul_spec(self, rhs: BMatrix<M, N>) -> BMatrix<M, N> {
        BMatrix::<M, N>::from_rows(mat_scale(rhs@, self))
    }
}

impl<const M: usize, const N: usize> core::ops::Mul<BMatrix<M, N>> for Scalar {
    type Output = BMatrix<M, N>;

    fn mul(self, rhs: BMatrix<M, N>) -> (r: BMatrix<M, N>) {
        rhs * self
    }
}

/// A square matrix with a determinant.
pub trait Det {
    spec fn det_spec(&self) -> Scalar;

    fn det(&self) -> (d: Scalar)
        ensures
            d == self.det_spec(),
    ;
}

impl Det for BMatrix<1, 1> {
    open spec fn det_spec(&self) -> Scalar {
        self@[0][0]
    }

    fn det(&self) -> (d: Scalar) {
        self.v[0][0]
    }
}

impl Det for BMatrix<2, 2> {
    /// `a * d - b * c`.
    open spec fn det_spec(&self) -> Scalar {
        self@[0][0].mul_spec(self@[1][1]).sub_spec(self@[0][1].mul_spec(self@[1][0]))
    }

    fn det(&self) -> (d: Scalar) {
        self.v[0][0] * self.v[1][1] - self.v[0][1] * self.v[1][0]
    }
}

impl Det for BMatrix<3, 3> {
    /// The six products of the expansion, summed in the order
    /// `+ 012 - 021 + 120 - 102 + 201 - 210` of their columns.
    open spec fn det_spec(&self) -> Scalar {
        let m = self@;
        m[0][0].mul_spec(m[1][1]).mul_spec(m[2][2]).sub_spec(
            m[0][0].mul_spec(m[1][2]).mul_spec(m[2][1]),
        ).add_spec(m[0][1].mul_spec(m[1][2]).mul_spec(m[2][0])).sub_spec(
            m[0][1].mul_spec(m[1][0]).mul_spec(m[2][2]),
        ).add_spec(m[0][2].mul_spec(m[1][0]).mul_spec(m[2][1])).sub_spec(
            m[0][2].mul_spec(m[1][1]).mul_spec(m[2][0]),
        )
    }

    fn det(&self) -> (d: Scalar) {
        self.v[0][0] * self.v[1][1] * self.v[2][2] - self.v[0][0] * self.v[1][2] * self.v[2][1]
            + self.v[0][1] * self.v[1][2] * self.v[2][0] - self.v[0][1] * self.v[1][0]
            * self.v[2][2] + self.v[0][2] * self.v[1][0] * self.v[2][1] - self.v[0][2]
            * self.v[1][1] * self.v[2][0]
    }
}

/// The rows of the first `k` entries of `s`, as arrays, and rows of zeros
/// after them.
pub open spec fn rows_of<const M: usize, const N: usize>(s: Seq<Seq<Scalar>>, k: nat) -> [[Scalar;
    N]; M]
    decreases k,
{
    if k == 0 {
        vstd::array::spec_array_fill_for_copy_type(array_of::<N>(Seq::empty(), 0))
    } else {
        vstd::array::spec_array_update(
            rows_of::<M, N>(s, (k - 1) as nat),
            k - 1,
            array_of::<N>(s[k - 1], N as nat),
        )
    }
}

/// `rows_of(s, k)` holds the first `k` rows of `s`.
pub proof fn lemma_rows_of<const M: usize, const N: usize>(s: Seq<Seq<Scalar>>, k: nat)
    requires
        k <= M,
        k <= s.len(),
        forall|i: int| 0 <= i < k ==> (#[trigger] s[i]).len() == N,
    ensures
        forall|i: int| 0 <= i < k ==> (#[trigger] rows_of::<M, N>(s, k)@[i])@ == s[i],
    decreases k,
{
    if k > 0 {
        lemma_rows_of::<M, N>(s, (k - 1) as nat);
        lemma_array_of::<N>(s[k - 1], N as nat);
        let last = array_of::<N>(s[k - 1], N as nat);
        assert(last@ =~= s[k - 1]);
        let before = rows_of::<M, N>(s, (k - 1) as nat);
        let now = rows_of::<M, N>(s, k);
        assert(now@ == before@.update(k - 1, last));
        assert forall|i: int| 0 <= i < k implies (#[trigger] now@[i])@ == s[i] by {
            if i < k - 1 {
                assert(now@[i] == before@[i]);
            }
        }
    }
}

/// Every sequence of `M` rows of length `N` names a matrix.
pub proof fn lemma_from_rows_view<const M: usize, const N: usize>(s: Seq<Seq<Scalar>>)
    requires
        s.len() == M,
        forall|i: int| 0 <= i < M ==> (#[trigger] s[i]).len() == N,
    ensures
        BMatrix::<M, N>::from_rows(s)@ == s,
{
    lemma_rows_of::<M, N>(s, M as nat);
    let witness = BMatrix::<M, N> { v: rows_of::<M, N>(s, M as nat) };
    assert(witness@ =~= s);
}

/// The dot product of a unit vector with `x` picks a component of `x`.
pub proof fn lemma_dot_unit_left(e: Seq<Scalar>, x: Seq<Scalar>, i: int, n: nat)
    requires
        0 <= i,
        forall|j: int|
            0 <= j < n ==> #[trigger] e[j] == if j == i {
                Scalar::one_spec()
            } else {
                Scalar::zero_spec()
            },
    ensures
        seq_dot(e, x, n) == if i < n {
            x[i]
        } else {
            Scalar::zero_spec()
        },
    decreases n,
{
    if n > 0 {
        lemma_dot_unit_left(e, x, i, (n - 1) as nat);
        crate::scalar::lemma_zero_one(x[n - 1]);
        crate::scalar::lemma_zero_one(x[i]);
        assert(e[n - 1] == if n - 1 == i {
            Scalar::one_spec()
        } else {
            Scalar::zero_spec()
        });
    }
}

/// The dot product of `x` with a unit vector picks a component of `x`.
pub proof fn lemma_dot_unit_right(x: Seq<Scalar>, e: Seq<Scalar>, i: int, n: nat)
    requires
        0 <= i,
        forall|j: int|
            0 <= j < n ==> #[trigger] e[j] == if j == i {
                Scalar::one_spec()
            } else {
                Scalar::zero_spec()
            },
    ensures
        seq_dot(x, e, n) == if i < n {
            x[i]
        } else {
            Scalar::zero_spec()
        },
    decreases n,
{
    if n > 0 {
        lemma_dot_unit_right(x, e, i, (n - 1) as nat);
        crate::scalar::lemma_zero_one(x[n - 1]);
        crate::scalar::lemma_zero_one(x[i]);
        assert(e[n - 1] == if n - 1 == i {
            Scalar::one_spec()
        } else {
            Scalar::zero_spec()
        });
    }
}

/// The rows of the identity matrix are what `mat_one` says.
pub proof fn lemma_one_view<const N: usize>()
    ensures
        BMatrix::<N, N>::one_spec()@ == mat_one(N as nat),
{
    lemma_from_rows_view::<N, N>(mat_one(N as nat));
}

/// The identity matrix applied to a vector gives the vector.
pub proof fn lemma_identity_times_vector<const N: usize>(x: BVec<N>)
    ensures
        BMatrix::<N, N>::one_spec().mul_spec(x) == x,
{
    lemma_one_view::<N>();
    let one = BMatrix::<N, N>::one_spec();
    let product = mat_vec(one@, x@);
    assert forall|i: int| 0 <= i < N implies product[i] == x@[i] by {
        lemma_dot_unit_left(one@[i], x@, i, N as nat);
    }
    assert(product =~= x@);
    x.lemma_from_seq();
}

/// A vector applied to the identity matrix gives the vector.
pub proof fn lemma_vector_times_identity<const N: usize>(x: BVec<N>)
    ensures
        x.mul_spec(BMatrix::<N, N>::one_spec()) == x,
{
    lemma_one_view::<N>();
    let one = BMatrix::<N, N>::one_spec();
    let product = vec_mat(x@, one@, N as nat);
    assert forall|j: int| 0 <= j < N implies product[j] == x@[j] by {
        lemma_dot_unit_right(x@, mat_col(one@, j), j, N as nat);
    }
    assert(product =~= x@);
    x.lemma_from_seq();
}

/// The determinant of the identity matrix is one.
pub proof fn lemma_det_identity()
    ensures
        BMatrix::<1, 1>::one_spec().det_spec() == Scalar::one_spec(),
        BMatrix::<2, 2>::one_spec().det_spec() == Scalar::one_spec(),
        BMatrix::<3, 3>::one_spec().det_spec() == Scalar::one_spec(),
{
    lemma_one_view::<1>();
    lemma_one_view::<2>();
    lemma_one_view::<3>();
    crate::scalar::lemma_zero_one(Scalar::one_spec());
    crate::scalar::lemma_zero_one(Scalar::zero_spec());
    let m1 = BMatrix::<1, 1>::one_spec()@;
    assert(m1[0][0] == Scalar::one_spec());
    let m2 = BMatrix::<2, 2>::one_spec()@;
    assert(m2[0][0] == Scalar::one_spec() && m2[1][1] == Scalar::one_spec());
    assert(m2[0][1] == Scalar::zero_spec() && m2[1][0] == Scalar::zero_spec());
    let m3 = BMatrix::<3, 3>::one_spec()@;
    assert(m3[0][0] == Scalar::one_spec() && m3[1][1] == Scalar::one_spec() && m3[2][2]
        == Scalar::one_spec());
    assert(m3[0][1] == Scalar::zero_spec() && m3[0][2] == Scalar::zero_spec());
    assert(m3[1][0] == Scalar::zero_spec() && m3[1][2] == Scalar::zero_spec());
    assert(m3[2][0] == Scalar::zero_spec() && m3[2][1] == Scalar::zero_spec());
}

} // verus!
