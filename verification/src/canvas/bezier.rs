//! Bézier strokes: points of the curve in Bernstein form, joined by lines.
use crate::canvas::BezierCanvas;
use crate::linalg::Vec2;
use crate::scalar::Scalar;
use crate::types::blend::{Blend, BlendMode};
use crate::types::InternalColorType;
use vstd::prelude::*;
use vstd::std_specs::ops::{AddSpec, MulSpec, SubSpec};

verus! {

broadcast use vstd::array::group_array_axioms;

/// The number of rows of the table of binomial coefficients: a curve has
/// fewer control points than this.
pub const MAX_PASCAL: usize = 10;

/// Pascal's triangle: row `n` holds the coefficients of degree `n`.
pub const C: [[usize; 10]; 10] = [
    [1, 0, 0, 0, 0, 0, 0, 0, 0, 0],
    [1, 1, 0, 0, 0, 0, 0, 0, 0, 0],
    [1, 2, 1, 0, 0, 0, 0, 0, 0, 0],
    [1, 3, 3, 1, 0, 0, 0, 0, 0, 0],
    [1, 4, 6, 4, 1, 0, 0, 0, 0, 0],
    [1, 5, 10, 10, 5, 1, 0, 0, 0, 0],
    [1, 6, 15, 20, 15, 6, 1, 0, 0, 0],
    [1, 7, 21, 35, 35, 21, 7, 1, 0, 0],
    [1, 8, 28, 56, 70, 56, 28, 8, 1, 0],
    [1, 9, 36, 84, 126, 126, 84, 36, 9, 1],
];

/// The number of ways to choose `k` of `n`.
pub open spec fn binomial(n: nat, k: nat) -> nat
    decreases n,
{
    if k == 0 {
        1
    } else if n == 0 {
        0
    } else {
        binomial((n - 1) as nat, (k - 1) as nat) + binomial((n - 1) as nat, k)
    }
}

/// Row `n` of the table holds the binomial coefficients of `n`: its first
/// entry is one, and each other is the sum of the two above it.
proof fn lemma_pascal_row(n: int)
    requires
        0 <= n < 10,
    ensures
        forall|k: int| 0 <= k < 10 ==> C[n]@[k] == binomial(n as nat, k as nat),
    decreases n,
{
    if n > 0 {
        lemma_pascal_row(n - 1);
        assert forall|k: int| 0 <= k < 10 implies C[n]@[k] == binomial(n as nat, k as nat) by {
            if k > 0 {
                assert(C[n - 1]@[k - 1] == binomial((n - 1) as nat, (k - 1) as nat));
                assert(C[n - 1]@[k] == binomial((n - 1) as nat, k as nat));
                assert(C[n]@[k] == C[n - 1]@[k - 1] + C[n - 1]@[k]);
            }
        }
    }
}

/// The table holds the binomial coefficients.
pub proof fn lemma_pascal_table()
    ensures
        forall|n: int, k: int| 0 <= n < 10 && 0 <= k < 10 ==> C[n]@[k] == binomial(n as nat, k as nat),
{
    assert forall|n: int, k: int| 0 <= n < 10 && 0 <= k < 10 implies C[n]@[k] == binomial(
        n as nat,
        k as nat,
    ) by {
        lemma_pascal_row(n);
    }
}

/// `t` to the power `n`, multiplied up from one.
pub open spec fn scalar_pow(t: Scalar, n: nat) -> Scalar
    decreases n,
{
    if n == 0 {
        Scalar::one_spec()
    } else {
        scalar_pow(t, (n - 1) as nat).mul_spec(t)
    }
}

/// The weight of control point `j` of `n` at `t`:
/// `C(n - 1, j) * t^j * (1 - t)^(n - 1 - j)`.
pub open spec fn bernstein_weight(n: nat, j: nat, t: Scalar) -> Scalar {
    Scalar::from_index_spec(binomial((n - 1) as nat, j) as usize).mul_spec(
        scalar_pow(t, j),
    ).mul_spec(scalar_pow(Scalar::one_spec().sub_spec(t), (n - 1 - j) as nat))
}

/// The sum of the first `k` of `n` control points, each times its weight.
pub open spec fn bezier_sum(poses: Seq<Vec2>, n: nat, t: Scalar, k: nat) -> Vec2
    decreases k,
{
    if k == 0 {
        Vec2::zero_spec()
    } else {
        bezier_sum(poses, n, t, (k - 1) as nat).add_spec(
            poses[k - 1].mul_spec(bernstein_weight(n, (k - 1) as nat, t)),
        )
    }
}

/// The point at `t` of the curve with the first `n` of `poses` as control
/// points.
pub open spec fn bezier_point(poses: Seq<Vec2>, n: nat, t: Scalar) -> Vec2 {
    bezier_sum(poses, n, t, n)
}

/// The `i`-th of `stops` evenly spaced points of the curve, from `t = 0` to
/// `t = 1`.
pub open spec fn bezier_stop(poses: Seq<Vec2>, n: nat, stops: usize, i: usize) -> Vec2 {
    bezier_point(poses, n, Scalar::from_ratio_spec(i, (stops - 1) as usize))
}

/// The point at `t` of the curve with the first `N` of `poses` as control
/// points.
pub fn bezier_eval<const N: usize>(poses: &[Vec2], t: Scalar) -> (ans: Vec2)
    requires
        1 <= N < MAX_PASCAL,
        poses@.len() >= N,
    ensures
        ans == bezier_point(poses@, N as nat, t),
{
    let neg_t = Scalar::one() - t;
    let mut coefficients_t = [Scalar::one();N];
    let mut coefficients_neg_t = [Scalar::one();N];
    let mut j: usize = 1;
    while j < N
        invariant
            1 <= j <= N,
            neg_t == Scalar::one_spec().sub_spec(t),
            forall|m: int| 0 <= m < j ==> coefficients_t@[m] == scalar_pow(t, m as nat),
            forall|m: int|
                N - j <= m < N ==> coefficients_neg_t@[m] == scalar_pow(neg_t, (N - 1 - m) as nat),
        decreases N - j,
    {
        coefficients_t[j] = coefficients_t[j - 1] * t;
        coefficients_neg_t[N - j - 1] = coefficients_neg_t[N - j] * neg_t;
        j += 1;
    }
    proof {
        lemma_pascal_table();
    }
    let mut ans = Vec2::zero();
    let mut j: usize = 0;
    while j < N
        invariant
            j <= N,
            1 <= N < MAX_PASCAL,
            poses@.len() >= N,
            neg_t == Scalar::one_spec().sub_spec(t),
            forall|m: int| 0 <= m < N ==> coefficients_t@[m] == scalar_pow(t, m as nat),
            forall|m: int|
                0 <= m < N ==> coefficients_neg_t@[m] == scalar_pow(neg_t, (N - 1 - m) as nat),
            forall|n: int, k: int|
                0 <= n < 10 && 0 <= k < 10 ==> C[n]@[k] == binomial(n as nat, k as nat),
            ans == bezier_sum(poses@, N as nat, t, j as nat),
        decreases N - j,
    {
        let weight = Scalar::from_index(C[N - 1][j]) * coefficients_t[j] * coefficients_neg_t[j];
        assert(weight == bernstein_weight(N as nat, j as nat, t));
        ans = ans + poses[j] * weight;
        j += 1;
    }
    ans
}

/// A curve of two control points starts at the first and ends at the second.
pub proof fn lemma_bezier_ends_of_two(poses: Seq<Vec2>)
    requires
        poses.len() >= 2,
    ensures
        bezier_point(poses, 2, Scalar::zero_spec()) == poses[0],
        bezier_point(poses, 2, Scalar::one_spec()) == poses[1],
        bezier_stop(poses, 2, 2, 0) == poses[0],
        bezier_stop(poses, 2, 2, 1) == poses[1],
{
    let zero = Scalar::zero_spec();
    let one = Scalar::one_spec();
    crate::scalar::lemma_zero_one(zero);
    crate::scalar::lemma_zero_one(one);
    crate::linalg::lemma_vector_zero_one(poses[0]);
    crate::linalg::lemma_vector_zero_one(poses[1]);
    crate::linalg::lemma_vector_zero_one(Vec2::zero_spec());
    reveal_with_fuel(binomial, 3);
    reveal_with_fuel(scalar_pow, 3);
    reveal_with_fuel(bezier_sum, 3);
    assert(Scalar::from_index_spec(1) == one);
    assert(one.sub_spec(zero) == one);
    assert(one.sub_spec(one) == zero);
    assert(bernstein_weight(2, 0, zero) == one);
    assert(bernstein_weight(2, 1, zero) == zero);
    assert(bernstein_weight(2, 0, one) == zero);
    assert(bernstein_weight(2, 1, one) == one);
    assert(Scalar::from_ratio_spec(0, 1) == zero);
    assert(Scalar::from_ratio_spec(1, 1) == one);
}

/// A curve of two control points is the line between them: its point at `t`
/// is the first point times `1 - t` plus the second times `t`.
pub proof fn lemma_bezier_of_two_on_line(poses: Seq<Vec2>, t: Scalar)
    requires
        poses.len() >= 2,
    ensures
        bezier_point(poses, 2, t) == poses[0].mul_spec(Scalar::one_spec().sub_spec(t)).add_spec(
            poses[1].mul_spec(t),
        ),
{
    let one = Scalar::one_spec();
    let rest = one.sub_spec(t);
    crate::scalar::lemma_zero_one(one);
    crate::scalar::lemma_zero_one(t);
    crate::scalar::lemma_zero_one(rest);
    crate::linalg::lemma_vector_zero_one(poses[0].mul_spec(rest));
    reveal_with_fuel(binomial, 3);
    reveal_with_fuel(scalar_pow, 3);
    reveal_with_fuel(bezier_sum, 3);
    assert(Scalar::from_index_spec(1) == one);
    assert(bernstein_weight(2, 0, t) == rest);
    assert(bernstein_weight(2, 1, t) == t);
}

/// The points of a curve of two control points lie on the line between the
/// two, to within `2^-31`: along each axis the point at `t` is at most the
/// exact `p0 (1 - t) + p1 t`, and less than two units of `2^-32` below it.
/// This is stated of `t` in `[0, 1]` and of coordinates below `2^30` in size,
/// where no sum leaves the range of the numbers.
pub proof fn lemma_bezier_of_two_near_line(poses: Seq<Vec2>, t: Scalar, axis: int)
    requires
        poses.len() >= 2,
        0 <= t.raw <= 0x1_0000_0000,
        0 <= axis < 2,
        -0x3fff_ffff_ffff_ffff <= poses[0]@[axis].raw <= 0x3fff_ffff_ffff_ffff,
        -0x3fff_ffff_ffff_ffff <= poses[1]@[axis].raw <= 0x3fff_ffff_ffff_ffff,
    ensures
        ({
            let v = bezier_point(poses, 2, t)@[axis].raw;
            let exact = poses[0]@[axis].raw * (0x1_0000_0000 - t.raw) + poses[1]@[axis].raw * t.raw;
            v * 0x1_0000_0000 <= exact < (v + 2) * 0x1_0000_0000
        }),
{
    lemma_bezier_of_two_on_line(poses, t);
    let rest = Scalar::one_spec().sub_spec(t);
    let first = poses[0].mul_spec(rest);
    let second = poses[1].mul_spec(t);
    Vec2::lemma_from_seq_view(crate::linalg::seq_scale(poses[0]@, rest));
    Vec2::lemma_from_seq_view(crate::linalg::seq_scale(poses[1]@, t));
    Vec2::lemma_from_seq_view(crate::linalg::seq_add(first@, second@));
    let p: int = poses[0]@[axis].raw as int;
    let q: int = poses[1]@[axis].raw as int;
    let r: int = rest.raw as int;
    let u: int = t.raw as int;
    assert(r == 0x1_0000_0000 - u);
    let a = (p * r) / 0x1_0000_0000;
    let b = (q * u) / 0x1_0000_0000;
    vstd::arithmetic::div_mod::lemma_fundamental_div_mod(p * r, 0x1_0000_0000);
    vstd::arithmetic::div_mod::lemma_mod_bound(p * r, 0x1_0000_0000);
    vstd::arithmetic::div_mod::lemma_fundamental_div_mod(q * u, 0x1_0000_0000);
    vstd::arithmetic::div_mod::lemma_mod_bound(q * u, 0x1_0000_0000);
    assert(-0x3fff_ffff_ffff_ffff * 0x1_0000_0000 <= p * r <= 0x3fff_ffff_ffff_ffff
        * 0x1_0000_0000) by (nonlinear_arith)
        requires
            -0x3fff_ffff_ffff_ffff <= p <= 0x3fff_ffff_ffff_ffff,
            0 <= r <= 0x1_0000_0000,
    ;
    assert(-0x3fff_ffff_ffff_ffff * 0x1_0000_0000 <= q * u <= 0x3fff_ffff_ffff_ffff
        * 0x1_0000_0000) by (nonlinear_arith)
        requires
            -0x3fff_ffff_ffff_ffff <= q <= 0x3fff_ffff_ffff_ffff,
            0 <= u <= 0x1_0000_0000,
    ;
    assert(-0x3fff_ffff_ffff_ffff <= a <= 0x3fff_ffff_ffff_ffff);
    assert(-0x3fff_ffff_ffff_ffff <= b <= 0x3fff_ffff_ffff_ffff);
    assert(poses[0]@[axis].mul_spec(rest).raw == a);
    assert(poses[1]@[axis].mul_spec(t).raw == b);
    assert(first@[axis].raw == a);
    assert(second@[axis].raw == b);
    let sum = first.add_spec(second);
    assert(bezier_point(poses, 2, t) == sum);
    assert(sum@ == crate::linalg::seq_add(first@, second@));
    assert(sum@[axis] == first@[axis].add_spec(second@[axis]));
    assert(sum@[axis].raw == a + b);
}

/// However many stops a curve of two control points has, the first is the
/// first point and the last is the second.
pub proof fn lemma_bezier_of_two_ends(poses: Seq<Vec2>, stops: usize)
    requires
        poses.len() >= 2,
        stops >= 2,
    ensures
        bezier_stop(poses, 2, stops, 0) == poses[0],
        bezier_stop(poses, 2, stops, (stops - 1) as usize) == poses[1],
{
    lemma_bezier_ends_of_two(poses);
    let den = (stops - 1) as int;
    assert((0int * 0x1_0000_0000) / den == 0);
    assert((den * 0x1_0000_0000) / den == 0x1_0000_0000) by {
        vstd::arithmetic::div_mod::lemma_fundamental_div_mod_converse(
            den * 0x1_0000_0000,
            den,
            0x1_0000_0000,
            0,
        );
    }
    assert(Scalar::from_ratio_spec(0, (stops - 1) as usize) == Scalar::zero_spec());
    assert(Scalar::from_ratio_spec((stops - 1) as usize, (stops - 1) as usize)
        == Scalar::one_spec());
}

impl<InternalType: InternalColorType, ExternalType: Blend<InternalType>> BezierCanvas<
    InternalType,
    ExternalType,
> {
    /// The buffer after the first `k` segments of a Bézier stroke: segment
    /// `i` is the line from stop `i` to stop `i + 1`.
    pub open spec fn bezier_frame(
        pixels: Seq<InternalType>,
        w: usize,
        h: usize,
        poses: Seq<Vec2>,
        n: nat,
        stops: usize,
        color: ExternalType,
        blend_mode: BlendMode,
        k: nat,
    ) -> Seq<InternalType>
        decreases k,
    {
        if k == 0 {
            pixels
        } else {
            Self::paint(
                Self::bezier_frame(pixels, w, h, poses, n, stops, color, blend_mode, (k - 1) as nat),
                w,
                Self::line_mask(
                    w,
                    h,
                    bezier_stop(poses, n, stops, (k - 1) as usize),
                    bezier_stop(poses, n, stops, k as usize),
                ),
                color,
                blend_mode,
            )
        }
    }

    /// The stroke of a curve of two control points with two stops is the
    /// stroke of the line between the two points.
    pub proof fn lemma_bezier_of_two_is_line(
        pixels: Seq<InternalType>,
        w: usize,
        h: usize,
        poses: Seq<Vec2>,
        color: ExternalType,
        blend_mode: BlendMode,
    )
        requires
            poses.len() >= 2,
        ensures
            Self::bezier_frame(pixels, w, h, poses, 2, 2, color, blend_mode, 1) == Self::paint(
                pixels,
                w,
                Self::line_mask(w, h, poses[0], poses[1]),
                color,
                blend_mode,
            ),
    {
        lemma_bezier_ends_of_two(poses);
        reveal_with_fuel(BezierCanvas::bezier_frame, 2);
    }

    /// Composites `color` over the stroke of the Bézier curve of degree
    /// `N - 1` with the first `N` of `poses` as control points: `stops` points
    /// of the curve, each joined to the next by a line. Fewer than two stops
    /// leave the canvas as it is.
    pub fn stroke_bezier<const N: usize>(
        &mut self,
        poses: &[Vec2],
        color: &ExternalType,
        stops: usize,
        blend_mode: BlendMode,
    )
        requires
            old(self).wf(),
            ExternalType::supports_spec(blend_mode),
            1 <= N < MAX_PASCAL,
            poses@.len() >= N,
        ensures
            final(self).wf(),
            final(self).same_size(old(self)),
            final(self)@ == Self::bezier_frame(
                old(self)@,
                old(self).width(),
                old(self).height(),
                poses@,
                N as nat,
                stops,
                *color,
                blend_mode,
                if stops >= 2 {
                    (stops - 1) as nat
                } else {
                    0
                },
            ),
    {
        if stops < 2 {
            return ;
        }
        let ghost before = *self;
        let mut prev = bezier_eval::<N>(poses, Scalar::from_ratio(0, stops - 1));
        let mut i: usize = 1;
        while i < stops
            invariant
                1 <= i <= stops,
                self.wf(),
                self.same_size(&before),
                ExternalType::supports_spec(blend_mode),
                1 <= N < MAX_PASCAL,
                poses@.len() >= N,
                prev == bezier_stop(poses@, N as nat, stops, (i - 1) as usize),
                self@ == Self::bezier_frame(
                    before@,
                    before.width(),
                    before.height(),
                    poses@,
                    N as nat,
                    stops,
                    *color,
                    blend_mode,
                    (i - 1) as nat,
                ),
            decreases stops - i,
        {
            let ans = bezier_eval::<N>(poses, Scalar::from_ratio(i, stops - 1));
            self.stroke_line(&prev, &ans, color, blend_mode);
            prev = ans;
            i += 1;
        }
    }
}

} // verus!
