//! Squares as shapes: which pixels a filled square holds, and what is left of
//! it when a smaller square inside it is filled with it.
use crate::canvas::shape::{
    box_first, box_last, contour_hi, contour_lo, contour_parity, crossings, edge_crossing,
    row_even, rows_even, scanline, shape_closed, shape_covers, shape_hi, shape_lo, shape_mask,
    shape_parity, spans_parity,
};
use crate::canvas::{lemma_center_in_pixel, lemma_pixel_index, pixel_center, BezierCanvas};
use crate::linalg::Vec2;
use crate::scalar::{ascending, floor_div, lemma_ascending_total, sat, Scalar, EPSILON_RAW};
use crate::types::blend::{Blend, BlendMode};
use crate::types::InternalColorType;
use vstd::prelude::*;
use vstd::std_specs::ops::{AddSpec, DivSpec, MulSpec, SubSpec};

verus! {

broadcast use vstd::array::group_array_axioms;

/// Whether `contour` goes round the square between the corners `(lo, lo)`
/// and `(hi, hi)`, from the first through `(hi, lo)`.
pub open spec fn square_forth(contour: Seq<Vec2>, lo: Scalar, hi: Scalar) -> bool {
    &&& contour.len() == 4
    &&& contour[0]@[0] == lo && contour[0]@[1] == lo
    &&& contour[1]@[0] == hi && contour[1]@[1] == lo
    &&& contour[2]@[0] == hi && contour[2]@[1] == hi
    &&& contour[3]@[0] == lo && contour[3]@[1] == hi
}

/// Whether `contour` goes round the same square the other way, from
/// `(lo, lo)` through `(lo, hi)`.
pub open spec fn square_back(contour: Seq<Vec2>, lo: Scalar, hi: Scalar) -> bool {
    &&& contour.len() == 4
    &&& contour[0]@[0] == lo && contour[0]@[1] == lo
    &&& contour[1]@[0] == lo && contour[1]@[1] == hi
    &&& contour[2]@[0] == hi && contour[2]@[1] == hi
    &&& contour[3]@[0] == hi && contour[3]@[1] == lo
}

/// Whether `contour` goes round the square between the corners `(lo, lo)`
/// and `(hi, hi)`, either way.
pub open spec fn is_square(contour: Seq<Vec2>, lo: Scalar, hi: Scalar) -> bool {
    square_forth(contour, lo, hi) || square_back(contour, lo, hi)
}

/// Whether the square between `(lo, lo)` and `(hi, hi)` holds pixel
/// `(px, py)`: the center of the row lies between its sides, and the column
/// between the pixels of its sides.
pub open spec fn square_holds(lo: Scalar, hi: Scalar, w: usize, h: usize, px: int, py: int) -> bool {
    &&& lo.raw <= pixel_center(py, h).raw <= hi.raw
    &&& lo.scale_floor_spec(w) <= px <= hi.scale_floor_spec(w)
}

/// The quotient of `n` by a positive `d`, in units of `2^-32`, is negative
/// where `n` is, and reaches one where `n` reaches `d`.
proof fn lemma_quotient_up(n: int, d: int)
    requires
        d > 0,
    ensures
        (floor_div(n * 0x1_0000_0000, d) < 0) == (n < 0),
        (floor_div(n * 0x1_0000_0000, d) >= 0x1_0000_0000) == (n >= d),
{
    let num = n * 0x1_0000_0000;
    let q = num / d;
    vstd::arithmetic::div_mod::lemma_fundamental_div_mod(num, d);
    vstd::arithmetic::div_mod::lemma_mod_bound(num, d);
    assert(num == d * q + num % d);
    if n < 0 {
        assert(d * q < 0);
        assert(q < 0) by (nonlinear_arith)
            requires
                d * q < 0,
                d > 0,
        ;
    } else {
        assert(q >= 0) by (nonlinear_arith)
            requires
                d * q > -d,
                d > 0,
        ;
    }
    if n >= d {
        assert(d * q > (d - 1) * 0x1_0000_0000 + (0x1_0000_0000 - d) - 1 || q >= 0x1_0000_0000)
            by (nonlinear_arith)
            requires
                d * q + num % d == n * 0x1_0000_0000,
                num % d < d,
                n >= d,
                d > 0,
        ;
        assert(q >= 0x1_0000_0000) by (nonlinear_arith)
            requires
                d * q > d * 0x1_0000_0000 - d,
                d > 0,
        ;
    } else {
        assert(q < 0x1_0000_0000) by (nonlinear_arith)
            requires
                d * q <= n * 0x1_0000_0000,
                n < d,
                d > 0,
        ;
    }
}

/// The quotient of `n` by a negative `d`, in units of `2^-32`, is negative
/// where `n` is positive, and reaches one where `n` falls to `d`.
proof fn lemma_quotient_down(n: int, d: int)
    requires
        d < 0,
    ensures
        (floor_div(n * 0x1_0000_0000, d) < 0) == (n > 0),
        (floor_div(n * 0x1_0000_0000, d) >= 0x1_0000_0000) == (n <= d),
{
    lemma_quotient_up(-n, -d);
    assert(-(n * 0x1_0000_0000) == (-n) * 0x1_0000_0000);
}

/// A level edge crosses the scanline on which it lies, at its start.
proof fn lemma_level_edge(start: Vec2, end: Vec2, yf: Scalar)
    requires
        start@[1] == end@[1],
    ensures
        edge_crossing(start, end, yf) == if start@[1].raw == yf.raw {
            Some(start@[0])
        } else {
            None
        },
{
}

/// An upright edge that is not short crosses the scanlines from its start
/// up to, and without, its end, at its own place.
proof fn lemma_upright_edge(start: Vec2, end: Vec2, yf: Scalar)
    requires
        start@[0] == end@[0],
        EPSILON_RAW <= end@[1].raw - start@[1].raw <= i64::MAX || EPSILON_RAW <= start@[1].raw
            - end@[1].raw <= i64::MAX,
        0 <= yf.raw < 0x1_0000_0000,
    ensures
        edge_crossing(start, end, yf) == if start@[1].raw <= yf.raw < end@[1].raw || end@[1].raw
            < yf.raw <= start@[1].raw {
            Some(start@[0])
        } else {
            None
        },
{
    let d = end@[1].raw - start@[1].raw;
    let n = sat(yf.raw - start@[1].raw);
    let delta_x = end@[0].sub_spec(start@[0]);
    let delta_y = end@[1].sub_spec(start@[1]);
    let t = yf.sub_spec(start@[1]).div_spec(delta_y);
    assert(delta_x.raw == 0);
    assert(delta_y.raw == d);
    assert(t.raw == sat(floor_div(n * 0x1_0000_0000, d)));
    if d > 0 {
        lemma_quotient_up(n, d);
    } else {
        lemma_quotient_down(n, d);
    }
    assert(t.raw * 0 == 0);
    assert(0int / 0x1_0000_0000 == 0);
    assert(t.mul_spec(delta_x).raw == 0);
    assert(start@[0].add_spec(t.mul_spec(delta_x)) == start@[0]);
}

/// Two numbers in ascending order are the smaller and then the greater.
proof fn lemma_sort_two(x: Scalar, y: Scalar)
    ensures
        seq![x, y].sort_by(ascending()) == if x.raw <= y.raw {
            seq![x, y]
        } else {
            seq![y, x]
        },
{
    let given = seq![x, y];
    let wanted = if x.raw <= y.raw {
        seq![x, y]
    } else {
        seq![y, x]
    };
    let leq = ascending();
    lemma_ascending_total();
    given.lemma_sort_by_ensures(leq);
    assert(vstd::relations::sorted_by(wanted, leq)) by {
        assert forall|i: int, j: int| 0 <= i < j < wanted.len() implies #[trigger] leq(
            wanted[i],
            wanted[j],
        ) by {
            assert(i == 0 && j == 1);
        }
    }
    assert(seq![x, y].to_multiset() =~= seq![y, x].to_multiset()) by {
        assert(seq![x, y] =~= Seq::<Scalar>::empty().push(x).push(y));
        assert(seq![y, x] =~= Seq::<Scalar>::empty().push(y).push(x));
        vstd::seq_lib::to_multiset_build(Seq::<Scalar>::empty(), x);
        vstd::seq_lib::to_multiset_build(Seq::<Scalar>::empty().push(x), y);
        vstd::seq_lib::to_multiset_build(Seq::<Scalar>::empty(), y);
        vstd::seq_lib::to_multiset_build(Seq::<Scalar>::empty().push(y), x);
    }
    vstd::seq_lib::lemma_sorted_unique(wanted, given.sort_by(leq), leq);
}

/// No numbers stay none when they are put in order.
proof fn lemma_sort_none()
    ensures
        Seq::<Scalar>::empty().sort_by(ascending()) == Seq::<Scalar>::empty(),
{
    let none = Seq::<Scalar>::empty();
    lemma_ascending_total();
    none.lemma_sort_by_ensures(ascending());
    vstd::seq_lib::to_multiset_len(none);
    vstd::seq_lib::to_multiset_len(none.sort_by(ascending()));
    assert(none.sort_by(ascending()) =~= none);
}

/// A square that is not small crosses the scanlines between its lower and
/// its upper side, the sides included, at its left and at its right side,
/// and no other.
pub proof fn lemma_square_scanline(contour: Seq<Vec2>, lo: Scalar, hi: Scalar, yf: Scalar)
    requires
        is_square(contour, lo, hi),
        EPSILON_RAW <= hi.raw - lo.raw <= i64::MAX,
        0 <= yf.raw < 0x1_0000_0000,
    ensures
        scanline(contour, yf) == if lo.raw <= yf.raw <= hi.raw {
            seq![lo, hi]
        } else {
            Seq::empty()
        },
        crossings(contour, yf, contour.len()).len() % 2 == 0,
{
    reveal_with_fuel(crossings, 5);
    let found = crossings(contour, yf, 4);
    if square_forth(contour, lo, hi) {
        lemma_level_edge(contour[0], contour[1], yf);
        lemma_upright_edge(contour[1], contour[2], yf);
        lemma_level_edge(contour[2], contour[3], yf);
        lemma_upright_edge(contour[3], contour[0], yf);
        if yf.raw == lo.raw {
            assert(found =~= seq![lo, hi]);
        } else if lo.raw < yf.raw <= hi.raw {
            assert(found =~= seq![hi, lo]);
        } else {
            assert(found =~= Seq::<Scalar>::empty());
        }
    } else {
        lemma_upright_edge(contour[0], contour[1], yf);
        lemma_level_edge(contour[1], contour[2], yf);
        lemma_upright_edge(contour[2], contour[3], yf);
        lemma_level_edge(contour[3], contour[0], yf);
        if lo.raw <= yf.raw <= hi.raw {
            assert(found =~= seq![lo, hi]);
        } else {
            assert(found =~= Seq::<Scalar>::empty());
        }
    }
    lemma_sort_two(lo, hi);
    lemma_sort_two(hi, lo);
    lemma_sort_none();
}

/// A square that is not small, as a contour, holds the pixels that
/// `square_holds` says, and crosses the scanline of every row an even number
/// of times.
pub proof fn lemma_square_parity(
    contour: Seq<Vec2>,
    lo: Scalar,
    hi: Scalar,
    w: usize,
    h: usize,
    px: int,
    py: int,
)
    requires
        is_square(contour, lo, hi),
        EPSILON_RAW <= hi.raw - lo.raw <= i64::MAX,
        0 <= py < h <= 0x8000_0000,
    ensures
        contour_parity(contour, w, h, px, py) == square_holds(lo, hi, w, h, px, py),
        row_even(contour, h, py),
{
    let yf = pixel_center(py, h);
    lemma_center_in_pixel(py, h);
    lemma_square_scanline(contour, lo, hi, yf);
    let sorted = scanline(contour, yf);
    if lo.raw <= yf.raw <= hi.raw {
        assert(sorted.len() == 2);
        assert(sorted[0] == lo && sorted[1] == hi);
        reveal_with_fuel(spans_parity, 2);
        assert(spans_parity(sorted, w, px, 1) == (lo.scale_floor_spec(w) <= px
            <= hi.scale_floor_spec(w)));
    } else {
        assert(sorted.len() == 0);
    }
}

/// The box around two squares of which the second lies in the first is the
/// box around the first, cut to the unit square's far corners.
proof fn lemma_nested_box(contours: Seq<Vec<Vec2>>, a: Scalar, b: Scalar, c: Scalar, d: Scalar, axis: int)
    requires
        contours.len() == 2,
        is_square(contours[0]@, a, b),
        is_square(contours[1]@, c, d),
        a.raw <= c.raw <= d.raw <= b.raw,
        axis == 0 || axis == 1,
    ensures
        shape_lo(contours, axis, 2) == Scalar::one_spec().min_spec(a),
        shape_hi(contours, axis, 2) == Scalar::zero_spec().max_spec(b),
{
    reveal_with_fuel(shape_lo, 3);
    reveal_with_fuel(shape_hi, 3);
    reveal_with_fuel(contour_lo, 5);
    reveal_with_fuel(contour_hi, 5);
}

/// Filling a square together with a smaller square inside it, whichever way
/// each goes round, leaves the inner square out: the shape can be filled, and
/// it holds the pixels of the outer square that the inner one does not hold.
/// This is stated of squares whose sides are not shorter than the least rise
/// that counts as one, and of canvases of at most `2^31` rows.
pub proof fn lemma_nested_squares_leave_a_hole(
    contours: Seq<Vec<Vec2>>,
    a: Scalar,
    b: Scalar,
    c: Scalar,
    d: Scalar,
    w: usize,
    h: usize,
)
    requires
        contours.len() == 2,
        is_square(contours[0]@, a, b),
        is_square(contours[1]@, c, d),
        a.raw <= c.raw,
        d.raw <= b.raw,
        EPSILON_RAW <= d.raw - c.raw,
        b.raw - a.raw <= i64::MAX,
        h <= 0x8000_0000,
    ensures
        shape_closed(contours, h),
        forall|px: int, py: int|
            0 <= px < w && 0 <= py < h ==> #[trigger] shape_covers(contours, w, h, px, py) == (
            square_holds(a, b, w, h, px, py) && !square_holds(c, d, w, h, px, py)),
        forall|px: int, py: int|
            0 <= px < w && 0 <= py < h && square_holds(c, d, w, h, px, py) ==> !#[trigger] shape_covers(
                contours,
                w,
                h,
                px,
                py,
            ),
{
    lemma_nested_box(contours, a, b, c, d, 0);
    lemma_nested_box(contours, a, b, c, d, 1);
    let lo = Scalar::one_spec().min_spec(a);
    let hi = Scalar::zero_spec().max_spec(b);
    assert forall|py: int| box_first(contours, 1, h) <= py <= box_last(contours, 1, h) implies #[trigger] rows_even(
        contours,
        h,
        py,
        contours.len(),
    ) by {
        lemma_square_parity(contours[0]@, a, b, w, h, 0, py);
        lemma_square_parity(contours[1]@, c, d, w, h, 0, py);
    }
    assert forall|px: int, py: int| 0 <= px < w && 0 <= py < h implies #[trigger] shape_covers(
        contours,
        w,
        h,
        px,
        py,
    ) == (square_holds(a, b, w, h, px, py) && !square_holds(c, d, w, h, px, py)) by {
        lemma_square_parity(contours[0]@, a, b, w, h, px, py);
        lemma_square_parity(contours[1]@, c, d, w, h, px, py);
        reveal_with_fuel(shape_parity, 3);
        let yf = pixel_center(py, h);
        lemma_center_in_pixel(py, h);
        a.lemma_scale_floor_monotone(c, w);
        d.lemma_scale_floor_monotone(b, w);
        lo.lemma_scale_floor_monotone(a, w);
        b.lemma_scale_floor_monotone(hi, w);
        lo.lemma_scale_floor_monotone(a, h);
        b.lemma_scale_floor_monotone(hi, h);
        if a.raw <= yf.raw {
            a.lemma_scale_floor_monotone(yf, h);
        }
        if yf.raw <= b.raw {
            yf.lemma_scale_floor_monotone(b, h);
        }
    }
}

impl<InternalType: InternalColorType, ExternalType: Blend<InternalType>> BezierCanvas<
    InternalType,
    ExternalType,
> {
    /// On the canvas, filling a square together with a smaller square inside
    /// it composites the color over the pixels of the outer square that the
    /// inner one does not hold, and leaves every other pixel as it was, those
    /// of the inner square among them.
    pub proof fn lemma_nested_squares_paint_a_ring(
        &self,
        contours: Seq<Vec<Vec2>>,
        a: Scalar,
        b: Scalar,
        c: Scalar,
        d: Scalar,
        color: ExternalType,
        blend_mode: BlendMode,
    )
        requires
            self.wf(),
            contours.len() == 2,
            is_square(contours[0]@, a, b),
            is_square(contours[1]@, c, d),
            a.raw <= c.raw,
            d.raw <= b.raw,
            EPSILON_RAW <= d.raw - c.raw,
            b.raw - a.raw <= i64::MAX,
            self.height() <= 0x8000_0000,
        ensures
            shape_closed(contours, self.height()),
            forall|px: int, py: int|
                0 <= px < self.width() && 0 <= py < self.height() ==> self.painted(
                    shape_mask(contours, self.width(), self.height()),
                    color,
                    blend_mode,
                )[py * self.width() + px] == if #[trigger] square_holds(
                    a,
                    b,
                    self.width(),
                    self.height(),
                    px,
                    py,
                ) && !square_holds(c, d, self.width(), self.height(), px, py) {
                    color.blend_spec(self.raw_at(px, py), blend_mode)
                } else {
                    self.raw_at(px, py)
                },
    {
        let w = self.width();
        let h = self.height();
        lemma_nested_squares_leave_a_hole(contours, a, b, c, d, w, h);
        let after = self.painted(shape_mask(contours, w, h), color, blend_mode);
        assert forall|px: int, py: int| 0 <= px < w && 0 <= py < h implies after[py * w + px]
            == if #[trigger] square_holds(a, b, w, h, px, py) && !square_holds(c, d, w, h, px, py) {
            color.blend_spec(self.raw_at(px, py), blend_mode)
        } else {
            self.raw_at(px, py)
        } by {
            lemma_pixel_index(px, py, w as int, h as int);
            assert(shape_mask(contours, w, h)(px, py) == shape_covers(contours, w, h, px, py));
        }
    }
}

} // verus!
