//! Fixed-point numbers.
//!
//! A [`Scalar`] is a signed number with 32 fractional bits: the integer `raw`
//! stands for the rational `raw / 2^32`. Every operation is total or states
//! the one input it leaves out, saturates at the ends of the range, and rounds
//! towards negative infinity where the exact result has more fractional bits.
//! The contracts are stated over `int`, in units of `2^-32`; they write the
//! raw value of one, `2^32`, as `0x1_0000_0000`.
use vstd::prelude::*;
use vstd::std_specs::ops::{AddSpec, DivSpec, MulSpec, NegSpec, SubSpec};

verus! {

/// The raw value of the number one.
pub const ONE_RAW: i64 = 0x1_0000_0000;

/// The raw value of the threshold below which a length counts as zero
/// (`2^-23`).
pub const EPSILON_RAW: i64 = 512;

/// A fixed-point number: `raw / 2^32`.
#[derive(Clone, Copy, Debug, PartialEq, Eq, PartialOrd, Ord, Hash, Structural)]
pub struct Scalar {
    pub raw: i64,
}

/// `v`, brought into the range of `i64`.
pub open spec fn sat(v: int) -> int {
    if v < i64::MIN {
        i64::MIN as int
    } else if v > i64::MAX {
        i64::MAX as int
    } else {
        v
    }
}

/// `v`, brought into the range of `usize`.
pub open spec fn sat_index(v: int) -> int {
    if v < 0 {
        0
    } else if v > usize::MAX {
        usize::MAX as int
    } else {
        v
    }
}

/// The largest integer that is at most `n / d`, for `d != 0`.
pub open spec fn floor_div(n: int, d: int) -> int {
    if d > 0 {
        n / d
    } else {
        (-n) / (-d)
    }
}

/// The largest `r >= 0` with `r * r <= v`, for `v >= 0`.
pub open spec fn is_floor_sqrt(v: int, r: int) -> bool {
    0 <= r && r * r <= v && v < (r + 1) * (r + 1)
}

/// There is exactly one floor square root.
pub proof fn lemma_floor_sqrt_unique(v: int, r1: int, r2: int)
    requires
        is_floor_sqrt(v, r1),
        is_floor_sqrt(v, r2),
    ensures
        r1 == r2,
{
    if r1 < r2 {
        assert((r1 + 1) * (r1 + 1) <= r2 * r2) by (nonlinear_arith)
            requires
                0 <= r1,
                r1 + 1 <= r2,
        ;
    } else if r2 < r1 {
        assert((r2 + 1) * (r2 + 1) <= r1 * r1) by (nonlinear_arith)
            requires
                0 <= r2,
                r2 + 1 <= r1,
        ;
    }
}

fn narrow(v: i128) -> (r: i64)
    ensures
        r == sat(v as int),
{
    if v < i64::MIN as i128 {
        i64::MIN
    } else if v > i64::MAX as i128 {
        i64::MAX
    } else {
        v as i64
    }
}

fn narrow_index(v: u128) -> (r: usize)
    ensures
        r == sat_index(v as int),
{
    if v > usize::MAX as u128 {
        usize::MAX
    } else {
        v as usize
    }
}

/// Floor division of a 128-bit numerator by a positive denominator.
fn floor_div_wide(n: i128, d: i128) -> (q: i128)
    requires
        d > 0,
        n > i128::MIN,
    ensures
        q == n / d,
{
    if n >= 0 {
        n / d
    } else {
        let m: i128 = -n;
        let q: i128 = m / d;
        let r: i128 = m % d;
        proof {
            vstd::arithmetic::div_mod::lemma_fundamental_div_mod(m as int, d as int);
        }
        if r == 0 {
            proof {
                assert(n == (-q) * d + 0) by (nonlinear_arith)
                    requires
                        m == d * q,
                        n == -m,
                ;
                vstd::arithmetic::div_mod::lemma_fundamental_div_mod_converse(
                    n as int,
                    d as int,
                    -q as int,
                    0,
                );
            }
            -q
        } else {
            proof {
                assert(n == (-q - 1) * d + (d - r)) by (nonlinear_arith)
                    requires
                        m == d * q + r,
                        n == -m,
                ;
                vstd::arithmetic::div_mod::lemma_fundamental_div_mod_converse(
                    n as int,
                    d as int,
                    -q - 1,
                    d - r,
                );
            }
            -q - 1
        }
    }
}

impl Scalar {
    /// The number `raw / 2^32`.
    pub fn from_raw(raw: i64) -> (r: Scalar)
        ensures
            r.raw == raw,
    {
        Scalar { raw }
    }

    pub open spec fn zero_spec() -> Scalar {
        Scalar { raw: 0 }
    }

    pub open spec fn one_spec() -> Scalar {
        Scalar { raw: ONE_RAW }
    }

    pub open spec fn epsilon_spec() -> Scalar {
        Scalar { raw: EPSILON_RAW }
    }

    /// The least number: it stands for "nothing yet" in a depth buffer.
    pub open spec fn lowest_spec() -> Scalar {
        Scalar { raw: i64::MIN }
    }

    pub fn zero() -> (r: Scalar)
        ensures
            r == Scalar::zero_spec(),
    {
        Scalar { raw: 0 }
    }

    pub fn one() -> (r: Scalar)
        ensures
            r == Scalar::one_spec(),
    {
        Scalar { raw: ONE_RAW }
    }

    pub fn epsilon() -> (r: Scalar)
        ensures
            r == Scalar::epsilon_spec(),
    {
        Scalar { raw: EPSILON_RAW }
    }

    pub fn lowest() -> (r: Scalar)
        ensures
            r == Scalar::lowest_spec(),
    {
        Scalar { raw: i64::MIN }
    }

    pub fn is_zero(&self) -> (b: bool)
        ensures
            b == (self.raw == 0),
    {
        self.raw == 0
    }

    /// The whole number `n`, or the largest number if `n` is beyond it.
    pub open spec fn from_index_spec(n: usize) -> Scalar {
        Scalar { raw: sat(n * 0x1_0000_0000) as i64 }
    }

    pub fn from_index(n: usize) -> (r: Scalar)
        ensures
            r == Scalar::from_index_spec(n),
    {
        let wide: i128 = (n as i128) * 0x1_0000_0000i128;
        Scalar { raw: narrow(wide) }
    }

    /// `num / den`, rounded down to a multiple of `2^-32`.
    pub open spec fn from_ratio_spec(num: usize, den: usize) -> Scalar {
        Scalar { raw: sat((num * 0x1_0000_0000) / (den as int)) as i64 }
    }

    pub fn from_ratio(num: usize, den: usize) -> (r: Scalar)
        requires
            den > 0,
        ensures
            r == Scalar::from_ratio_spec(num, den),
    {
        let wide: i128 = (num as i128) * 0x1_0000_0000i128;
        let q: i128 = wide / (den as i128);
        Scalar { raw: narrow(q) }
    }

    /// The absolute value; that of the least number is the largest number.
    pub open spec fn abs_spec(self) -> Scalar {
        Scalar { raw: sat(if self.raw < 0 { -self.raw } else { self.raw as int }) as i64 }
    }

    pub fn abs(self) -> (r: Scalar)
        ensures
            r == self.abs_spec(),
    {
        if self.raw < 0 {
            Scalar { raw: narrow(-(self.raw as i128)) }
        } else {
            self
        }
    }

    /// The largest whole number that is at most `self`.
    pub open spec fn floor_spec(self) -> Scalar {
        Scalar { raw: (self.raw - self.raw % 0x1_0000_0000) as i64 }
    }

    pub fn floor(self) -> (r: Scalar)
        ensures
            r == self.floor_spec(),
    {
        let raw: i64 = self.raw;
        let whole: i64 = raw >> 32;
        assert(raw >> 32 == raw / 0x1_0000_0000) by (bit_vector);
        assert(raw - raw % 0x1_0000_0000 == (raw / 0x1_0000_0000) * 0x1_0000_0000);
        Scalar { raw: whole * 0x1_0000_0000 }
    }

    /// `floor(self)` as an index: negative numbers give 0.
    pub open spec fn floor_index_spec(self) -> usize {
        sat_index(self.raw / 0x1_0000_0000) as usize
    }

    pub fn floor_index(self) -> (r: usize)
        ensures
            r == self.floor_index_spec(),
    {
        let raw: i64 = self.raw;
        let whole: i64 = raw >> 32;
        assert(raw >> 32 == raw / 0x1_0000_0000) by (bit_vector);
        if whole < 0 {
            0
        } else {
            narrow_index(whole as u128)
        }
    }

    /// `ceil(self)` as an index: negative numbers give 0.
    pub open spec fn ceil_index_spec(self) -> usize {
        sat_index((self.raw + 0xffff_ffff) / 0x1_0000_0000) as usize
    }

    pub fn ceil_index(self) -> (r: usize)
        ensures
            r == self.ceil_index_spec(),
    {
        let shifted: i128 = self.raw as i128 + 0xffff_ffffi128;
        let whole: i128 = shifted >> 32;
        assert(shifted >> 32 == shifted / 0x1_0000_0000) by (bit_vector);
        if whole < 0 {
            0
        } else {
            narrow_index(whole as u128)
        }
    }

    /// The nearest whole number as an index, halves away from zero; negative
    /// numbers give 0.
    pub open spec fn round_index_spec(self) -> usize {
        sat_index((self.raw + 0x8000_0000) / 0x1_0000_0000) as usize
    }

    pub fn round_index(self) -> (r: usize)
        ensures
            r == self.round_index_spec(),
    {
        let shifted: i128 = self.raw as i128 + 0x8000_0000i128;
        let whole: i128 = shifted >> 32;
        assert(shifted >> 32 == shifted / 0x1_0000_0000) by (bit_vector);
        if whole < 0 {
            0
        } else {
            narrow_index(whole as u128)
        }
    }

    /// `floor(self * n)` as an index, computed without rounding in between.
    pub open spec fn scale_floor_spec(self, n: usize) -> usize {
        sat_index((self.raw * n) / 0x1_0000_0000) as usize
    }

    pub fn scale_floor(self, n: usize) -> (r: usize)
        ensures
            r == self.scale_floor_spec(n),
    {
        if self.raw <= 0 {
            proof {
                assert(self.raw * n <= 0) by (nonlinear_arith)
                    requires
                        self.raw <= 0,
                        n >= 0,
                ;
            }
            0
        } else {
            proof {
                assert(0 <= self.raw * n <= 0x7fff_ffff_ffff_ffff * 0xffff_ffff_ffff_ffff)
                    by (nonlinear_arith)
                    requires
                        0 <= self.raw <= 0x7fff_ffff_ffff_ffff,
                        0 <= n <= 0xffff_ffff_ffff_ffff,
                ;
            }
            let wide: u128 = (self.raw as u128) * (n as u128);
            let whole: u128 = wide >> 32;
            assert(wide >> 32 == wide / 0x1_0000_0000) by (bit_vector);
            narrow_index(whole)
        }
    }

    /// A number in `[0, 1)` scales to an index below `n`.
    pub proof fn lemma_scale_floor_bound(self, n: usize)
        requires
            0 <= self.raw < ONE_RAW,
            n > 0,
        ensures
            self.scale_floor_spec(n) < n,
            self.scale_floor_spec(n) == (self.raw * n) / 0x1_0000_0000,
    {
        let wide: int = self.raw * n;
        assert(0 <= wide < n * 0x1_0000_0000) by (nonlinear_arith)
            requires
                0 <= self.raw < 0x1_0000_0000,
                n > 0,
                wide == self.raw * n,
        ;
        vstd::arithmetic::div_mod::lemma_div_by_multiple_is_strongly_ordered(
            wide,
            n * 0x1_0000_0000,
            n as int,
            0x1_0000_0000,
        );
        vstd::arithmetic::div_mod::lemma_div_by_multiple(n as int, 0x1_0000_0000);
        vstd::arithmetic::div_mod::lemma_div_pos_is_pos(wide, 0x1_0000_0000);
    }

    /// A greater number scales to an index that is not less.
    pub proof fn lemma_scale_floor_monotone(self, other: Scalar, n: usize)
        requires
            self.raw <= other.raw,
        ensures
            self.scale_floor_spec(n) <= other.scale_floor_spec(n),
    {
        assert(self.raw * n <= other.raw * n) by (nonlinear_arith)
            requires
                self.raw <= other.raw,
                n >= 0,
        ;
        vstd::arithmetic::div_mod::lemma_div_is_ordered(
            self.raw * n,
            other.raw * n,
            0x1_0000_0000,
        );
    }

    pub open spec fn min_spec(self, other: Scalar) -> Scalar {
        if self.raw <= other.raw {
            self
        } else {
            other
        }
    }

    pub fn min(self, other: Scalar) -> (r: Scalar)
        ensures
            r == self.min_spec(other),
    {
        if self.raw <= other.raw {
            self
        } else {
            other
        }
    }

    pub open spec fn max_spec(self, other: Scalar) -> Scalar {
        if self.raw >= other.raw {
            self
        } else {
            other
        }
    }

    pub fn max(self, other: Scalar) -> (r: Scalar)
        ensures
            r == self.max_spec(other),
    {
        if self.raw >= other.raw {
            self
        } else {
            other
        }
    }

    /// `self`, brought into `[lo, hi]`.
    pub open spec fn clamp_spec(self, lo: Scalar, hi: Scalar) -> Scalar {
        if self.raw < lo.raw {
            lo
        } else if self.raw > hi.raw {
            hi
        } else {
            self
        }
    }

    pub fn clamp(self, lo: Scalar, hi: Scalar) -> (r: Scalar)
        requires
            lo.raw <= hi.raw,
        ensures
            r == self.clamp_spec(lo, hi),
    {
        if self.raw < lo.raw {
            lo
        } else if self.raw > hi.raw {
            hi
        } else {
            self
        }
    }

    /// `self`, brought into `[0, 1]`.
    pub open spec fn clamp_unit_spec(self) -> Scalar {
        self.clamp_spec(Scalar::zero_spec(), Scalar::one_spec())
    }

    pub fn clamp_unit(self) -> (r: Scalar)
        ensures
            r == self.clamp_unit_spec(),
            0 <= r.raw <= ONE_RAW,
    {
        self.clamp(Scalar::zero(), Scalar::one())
    }

    /// The square root, rounded down to a multiple of `2^-32`, of a number
    /// that is not negative.
    pub open spec fn sqrt_spec(self) -> Scalar {
        Scalar {
            raw: (choose|r: int| #[trigger] is_floor_sqrt(self.raw * 0x1_0000_0000, r)) as i64,
        }
    }

    pub fn sqrt(self) -> (r: Scalar)
        requires
            self.raw >= 0,
        ensures
            r == self.sqrt_spec(),
            is_floor_sqrt(self.raw * 0x1_0000_0000, r.raw as int),
    {
        let v: u128 = (self.raw as u128) * 0x1_0000_0000u128;
        let mut lo: u128 = 0;
        let mut hi: u128 = 0x1_0000_0000_0000;
        assert(v < 0x1_0000_0000_0000 * 0x1_0000_0000_0000);
        while hi - lo > 1
            invariant
                0 <= lo < hi <= 0x1_0000_0000_0000,
                lo * lo <= v,
                v < hi * hi,
            decreases hi - lo,
        {
            let mid: u128 = lo + (hi - lo) / 2;
            assert(mid * mid <= 0x1_0000_0000_0000 * 0x1_0000_0000_0000) by (nonlinear_arith)
                requires
                    0 <= mid <= 0x1_0000_0000_0000,
            ;
            if mid * mid <= v {
                lo = mid;
            } else {
                hi = mid;
            }
        }
        proof {
            let found = choose|r: int| #[trigger] is_floor_sqrt(self.raw * 0x1_0000_0000, r);
            assert(is_floor_sqrt(self.raw * 0x1_0000_0000, lo as int));
            lemma_floor_sqrt_unique(self.raw * 0x1_0000_0000, lo as int, found);
        }
        Scalar { raw: lo as i64 }
    }
}

impl vstd::std_specs::ops::AddSpecImpl for Scalar {
    open spec fn obeys_add_spec() -> bool {
        true
    }

    open spec fn add_req(self, rhs: Scalar) -> bool {
        true
    }

    /// The sum, saturating.
    open spec fn add_spec(self, rhs: Scalar) -> Scalar {
        Scalar { raw: sat(self.raw + rhs.raw) as i64 }
    }
}

impl core::ops::Add for Scalar {
    type Output = Scalar;

    fn add(self, rhs: Scalar) -> (r: Scalar) {
        Scalar { raw: narrow(self.raw as i128 + rhs.raw as i128) }
    }
}

impl vstd::std_specs::ops::SubSpecImpl for Scalar {
    open spec fn obeys_sub_spec() -> bool {
        true
    }

    open spec fn sub_req(self, rhs: Scalar) -> bool {
        true
    }

    /// The difference, saturating.
    open spec fn sub_spec(self, rhs: Scalar) -> Scalar {
        Scalar { raw: sat(self.raw - rhs.raw) as i64 }
    }
}

impl core::ops::Sub for Scalar {
    type Output = Scalar;

    fn sub(self, rhs: Scalar) -> (r: Scalar) {
        Scalar { raw: narrow(self.raw as i128 - rhs.raw as i128) }
    }
}

impl vstd::std_specs::ops::NegSpecImpl for Scalar {
    open spec fn obeys_neg_spec() -> bool {
        true
    }

    open spec fn neg_req(self) -> bool {
        true
    }

    /// The negation, saturating.
    open spec fn neg_spec(self) -> Scalar {
        Scalar { raw: sat(-self.raw) as i64 }
    }
}

impl core::ops::Neg for Scalar {
    type Output = Scalar;

    fn neg(self) -> (r: Scalar) {
        Scalar { raw: narrow(-(self.raw as i128)) }
    }
}

impl vstd::std_specs::ops::MulSpecImpl for Scalar {
    open spec fn obeys_mul_spec() -> bool {
        true
    }

    open spec fn mul_req(self, rhs: Scalar) -> bool {
        true
    }

    /// The product, rounded down and saturating.
    open spec fn mul_spec(self, rhs: Scalar) -> Scalar {
        Scalar { raw: sat((self.raw * rhs.raw) / 0x1_0000_0000) as i64 }
    }
}

impl core::ops::Mul for Scalar {
    type Output = Scalar;

    fn mul(self, rhs: Scalar) -> (r: Scalar) {
        proof {
            assert(-0x8000_0000_0000_0000 * 0x8000_0000_0000_0000 <= self.raw * rhs.raw
                <= 0x8000_0000_0000_0000 * 0x8000_0000_0000_0000) by (nonlinear_arith)
                requires
                    -0x8000_0000_0000_0000 <= self.raw <= 0x8000_0000_0000_0000,
                    -0x8000_0000_0000_0000 <= rhs.raw <= 0x8000_0000_0000_0000,
            ;
        }
        let wide: i128 = (self.raw as i128) * (rhs.raw as i128);
        let whole: i128 = wide >> 32;
        assert(wide >> 32 == wide / 0x1_0000_0000) by (bit_vector);
        Scalar { raw: narrow(whole) }
    }
}

impl vstd::std_specs::ops::DivSpecImpl for Scalar {
    open spec fn obeys_div_spec() -> bool {
        true
    }

    /// Division by zero is left out.
    open spec fn div_req(self, rhs: Scalar) -> bool {
        rhs.raw != 0
    }

    /// The quotient, rounded down and saturating.
    open spec fn div_spec(self, rhs: Scalar) -> Scalar {
        Scalar { raw: sat(floor_div(self.raw * 0x1_0000_0000, rhs.raw as int)) as i64 }
    }
}

impl core::ops::Div for Scalar {
    type Output = Scalar;

    fn div(self, rhs: Scalar) -> (r: Scalar) {
        let wide: i128 = (self.raw as i128) * 0x1_0000_0000i128;
        let q: i128 = if rhs.raw > 0 {
            floor_div_wide(wide, rhs.raw as i128)
        } else {
            floor_div_wide(-wide, -(rhs.raw as i128))
        };
        Scalar { raw: narrow(q) }
    }
}

/// Zero and one behave as they should: one is neutral for the product, zero
/// is neutral for the sum and annihilates the product.
pub proof fn lemma_zero_one(x: Scalar)
    ensures
        Scalar::one_spec().mul_spec(x) == x,
        x.mul_spec(Scalar::one_spec()) == x,
        Scalar::zero_spec().mul_spec(x) == Scalar::zero_spec(),
        x.mul_spec(Scalar::zero_spec()) == Scalar::zero_spec(),
        Scalar::zero_spec().add_spec(x) == x,
        x.add_spec(Scalar::zero_spec()) == x,
        x.sub_spec(Scalar::zero_spec()) == x,
{
    let r = x.raw as int;
    assert(0x1_0000_0000 * r == r * 0x1_0000_0000);
    assert((r * 0x1_0000_0000) / 0x1_0000_0000 == r) by {
        vstd::arithmetic::div_mod::lemma_fundamental_div_mod_converse(
            r * 0x1_0000_0000,
            0x1_0000_0000,
            r,
            0,
        );
    }
    assert(0 * r == 0 && r * 0 == 0);
}

/// One scales to the whole count.
pub proof fn lemma_scale_floor_one(n: usize)
    ensures
        Scalar::one_spec().scale_floor_spec(n) == n,
        Scalar::zero_spec().scale_floor_spec(n) == 0,
{
    assert((0x1_0000_0000 * n) / 0x1_0000_0000 == n) by {
        vstd::arithmetic::div_mod::lemma_fundamental_div_mod_converse(
            0x1_0000_0000 * n,
            0x1_0000_0000,
            n as int,
            0,
        );
    }
    assert(0 * n == 0);
}

/// Whether `a` is at most `b`.
pub open spec fn scalar_le(a: Scalar, b: Scalar) -> bool {
    a.raw <= b.raw
}

/// The order of the numbers, as a relation.
pub open spec fn ascending() -> spec_fn(Scalar, Scalar) -> bool {
    |a: Scalar, b: Scalar| scalar_le(a, b)
}

/// The order of the numbers is total.
pub proof fn lemma_ascending_total()
    ensures
        vstd::relations::total_ordering(ascending()),
{
    let leq = ascending();
    assert(vstd::relations::reflexive(leq));
    assert(vstd::relations::antisymmetric(leq)) by {
        assert forall|x: Scalar, y: Scalar| #[trigger] leq(x, y) && #[trigger] leq(y, x) implies x
            == y by {
            assert(x.raw == y.raw);
        }
    }
    assert(vstd::relations::transitive(leq));
    assert(vstd::relations::strongly_connected(leq));
}

/// The numbers of `v` in ascending order.
pub fn sorted_ascending(v: &Vec<Scalar>) -> (out: Vec<Scalar>)
    ensures
        out@ == v@.sort_by(ascending()),
        out@.len() == v@.len(),
{
    let mut out: Vec<Scalar> = Vec::new();
    let mut k: usize = 0;
    assert(v@.take(0) =~= Seq::<Scalar>::empty());
    assert(out@ =~= v@.take(0));
    while k < v.len()
        invariant
            k <= v.len(),
            out@.len() == k,
            out@.to_multiset() == v@.take(k as int).to_multiset(),
            vstd::relations::sorted_by(out@, ascending()),
        decreases v.len() - k,
    {
        let x = v[k];
        let mut p: usize = 0;
        while p < out.len() && out[p].raw <= x.raw
            invariant
                p <= out.len(),
                forall|i: int| 0 <= i < p ==> out@[i].raw <= x.raw,
            decreases out.len() - p,
        {
            p += 1;
        }
        let ghost prev = out@;
        out.insert(p, x);
        proof {
            assert(v@.take(k + 1) =~= v@.take(k as int).push(x));
            vstd::seq_lib::to_multiset_build(v@.take(k as int), x);
            vstd::seq_lib::to_multiset_insert(prev, p as int, x);
            assert(out@.to_multiset() =~= v@.take(k + 1).to_multiset());
            let leq = ascending();
            assert forall|i: int, j: int| 0 <= i < j < out@.len() implies #[trigger] leq(
                out@[i],
                out@[j],
            ) by {
                let a = if i < p { i } else { i - 1 };
                let b = if j < p { j } else { j - 1 };
                if i != p && j != p {
                    assert(leq(prev[a], prev[b]));
                } else if i == p {
                    assert(prev[b].raw > x.raw) by {
                        if p < b {
                            assert(leq(prev[p as int], prev[b]));
                        }
                    }
                }
            }
        }
        k += 1;
    }
    proof {
        assert(v@.take(v@.len() as int) =~= v@);
        lemma_ascending_total();
        v@.lemma_sort_by_ensures(ascending());
        vstd::seq_lib::lemma_sorted_unique(out@, v@.sort_by(ascending()), ascending());
        vstd::seq_lib::to_multiset_len(out@);
        vstd::seq_lib::to_multiset_len(v@);
    }
    out
}

} // verus!
