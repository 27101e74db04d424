//! Filling shapes: scanlines through closed contours, combined by parity.
//!
//! A contour is a list of points, closed by the edge from its last point to
//! its first. On the scanline through the centers of a row of pixels, each
//! contour is cut into spans between its crossings, taken in ascending order
//! two by two. A pixel belongs to the shape if the spans of all contours hold
//! it an odd number of times.
use crate::canvas::{pixel_center, BezierCanvas};
use crate::linalg::Vec2;
use crate::scalar::{ascending, sorted_ascending, Scalar, EPSILON_RAW, ONE_RAW};
use crate::types::blend::{Blend, BlendMode};
use crate::types::InternalColorType;
use vstd::prelude::*;
use vstd::std_specs::ops::{AddSpec, DivSpec, MulSpec, SubSpec};

verus! {

broadcast use vstd::array::group_array_axioms;

/// The least of `init` and coordinate `a` of the first `k` points.
pub open spec fn contour_lo(contour: Seq<Vec2>, a: int, k: nat, init: Scalar) -> Scalar
    decreases k,
{
    if k == 0 {
        init
    } else {
        contour_lo(contour, a, (k - 1) as nat, init).min_spec(contour[k - 1]@[a])
    }
}

/// The greatest of `init` and coordinate `a` of the first `k` points.
pub open spec fn contour_hi(contour: Seq<Vec2>, a: int, k: nat, init: Scalar) -> Scalar
    decreases k,
{
    if k == 0 {
        init
    } else {
        contour_hi(contour, a, (k - 1) as nat, init).max_spec(contour[k - 1]@[a])
    }
}

/// The least of one and coordinate `a` of the points of the first `c`
/// contours.
pub open spec fn shape_lo(contours: Seq<Vec<Vec2>>, a: int, c: nat) -> Scalar
    decreases c,
{
    if c == 0 {
        Scalar::one_spec()
    } else {
        contour_lo(contours[c - 1]@, a, contours[c - 1]@.len(), shape_lo(contours, a, (c - 1) as nat))
    }
}

/// The greatest of zero and coordinate `a` of the points of the first `c`
/// contours.
pub open spec fn shape_hi(contours: Seq<Vec<Vec2>>, a: int, c: nat) -> Scalar
    decreases c,
{
    if c == 0 {
        Scalar::zero_spec()
    } else {
        contour_hi(contours[c - 1]@, a, contours[c - 1]@.len(), shape_hi(contours, a, (c - 1) as nat))
    }
}

/// The first pixel, of `n` along axis `a`, of the box around the shape.
pub open spec fn box_first(contours: Seq<Vec<Vec2>>, a: int, n: usize) -> int {
    shape_lo(contours, a, contours.len()).scale_floor_spec(n) as int
}

/// The last pixel, of `n` along axis `a`, of the box around the shape.
pub open spec fn box_last(contours: Seq<Vec<Vec2>>, a: int, n: usize) -> int {
    let k = shape_hi(contours, a, contours.len()).scale_floor_spec(n);
    if k >= n {
        n - 1
    } else {
        k as int
    }
}

/// Where the edge from `start` to `end` crosses the scanline at height `yf`, if
/// it does. A level edge crosses at its start if it lies on the scanline. Any
/// other crosses at `start + t * (end - start)` if `t = (yf - start.y) / (end.y - start.y)`
/// is within `[0, 1)`: its end point belongs to the next edge.
pub open spec fn edge_crossing(start: Vec2, end: Vec2, yf: Scalar) -> Option<Scalar> {
    let delta_x = end@[0].sub_spec(start@[0]);
    let delta_y = end@[1].sub_spec(start@[1]);
    let t = yf.sub_spec(start@[1]).div_spec(delta_y);
    if delta_y.abs_spec().raw < EPSILON_RAW {
        if start@[1] == yf {
            Some(start@[0])
        } else {
            None
        }
    } else if t.raw < 0 || t.raw >= ONE_RAW {
        None
    } else {
        Some(start@[0].add_spec(t.mul_spec(delta_x)))
    }
}

/// The crossings of the first `k` edges with the scanline at height `yf`, in
/// the order of the edges.
pub open spec fn crossings(contour: Seq<Vec2>, yf: Scalar, k: nat) -> Seq<Scalar>
    decreases k,
{
    if k == 0 {
        Seq::empty()
    } else {
        let rest = crossings(contour, yf, (k - 1) as nat);
        match edge_crossing(contour[k - 1], contour[(k as int) % (contour.len() as int)], yf) {
            Some(x) => rest.push(x),
            None => rest,
        }
    }
}

/// The crossings of a contour with the scanline at height `yf`, ascending.
pub open spec fn scanline(contour: Seq<Vec2>, yf: Scalar) -> Seq<Scalar> {
    crossings(contour, yf, contour.len()).sort_by(ascending())
}

/// Whether the first `m` spans hold pixel `px`, of `w` in a row, an odd
/// number of times. Span `i` reaches from the pixel that holds crossing `2 i`
/// to the one that holds crossing `2 i + 1`.
pub open spec fn spans_parity(sorted: Seq<Scalar>, w: usize, px: int, m: nat) -> bool
    decreases m,
{
    if m == 0 {
        false
    } else {
        spans_parity(sorted, w, px, (m - 1) as nat) != (sorted[2 * m - 2].scale_floor_spec(w) <= px
            <= sorted[2 * m - 1].scale_floor_spec(w))
    }
}

/// Whether the spans of a contour hold pixel `(px, py)` an odd number of
/// times.
pub open spec fn contour_parity(contour: Seq<Vec2>, w: usize, h: usize, px: int, py: int) -> bool {
    let sorted = scanline(contour, pixel_center(py, h));
    spans_parity(sorted, w, px, (sorted.len() / 2) as nat)
}

/// Whether the spans of the first `c` contours hold pixel `(px, py)` an odd
/// number of times.
pub open spec fn shape_parity(
    contours: Seq<Vec<Vec2>>,
    w: usize,
    h: usize,
    px: int,
    py: int,
    c: nat,
) -> bool
    decreases c,
{
    if c == 0 {
        false
    } else {
        shape_parity(contours, w, h, px, py, (c - 1) as nat) != contour_parity(
            contours[c - 1]@,
            w,
            h,
            px,
            py,
        )
    }
}

/// Whether the shape holds pixel `(x, y)`: the pixel lies in the box around
/// the shape, and the spans hold it an odd number of times.
pub open spec fn shape_covers(contours: Seq<Vec<Vec2>>, w: usize, h: usize, x: int, y: int) -> bool {
    &&& box_first(contours, 0, w) <= x <= box_last(contours, 0, w)
    &&& box_first(contours, 1, h) <= y <= box_last(contours, 1, h)
    &&& shape_parity(contours, w, h, x, y, contours.len())
}

/// The pixels that the shape holds.
pub open spec fn shape_mask(contours: Seq<Vec<Vec2>>, w: usize, h: usize) -> spec_fn(
    int,
    int,
) -> bool {
    |x: int, y: int| shape_covers(contours, w, h, x, y)
}

/// Whether a contour crosses the scanline of row `py` an even number of
/// times.
pub open spec fn row_even(contour: Seq<Vec2>, h: usize, py: int) -> bool {
    crossings(contour, pixel_center(py, h), contour.len()).len() % 2 == 0
}

/// Whether the first `c` contours cross the scanline of row `py` an even
/// number of times each.
pub open spec fn rows_even(contours: Seq<Vec<Vec2>>, h: usize, py: int, c: nat) -> bool {
    forall|i: int| 0 <= i < c ==> row_even(#[trigger] contours[i]@, h, py)
}

/// Whether the shape can be filled: every contour crosses the scanline of
/// every row of the shape's box an even number of times, whether or not the
/// box holds a pixel of that row.
pub open spec fn shape_closed(contours: Seq<Vec<Vec2>>, h: usize) -> bool {
    forall|py: int|
        box_first(contours, 1, h) <= py <= box_last(contours, 1, h) ==> #[trigger] rows_even(
            contours,
            h,
            py,
            contours.len(),
        )
}

/// The least and the greatest of each coordinate of the points of a shape,
/// within the unit square's far corners: `(lo_x, hi_x, lo_y, hi_y)`.
fn shape_bounds(contours: &Vec<Vec<Vec2>>) -> (b: (Scalar, Scalar, Scalar, Scalar))
    ensures
        b.0 == shape_lo(contours@, 0, contours@.len()),
        b.1 == shape_hi(contours@, 0, contours@.len()),
        b.2 == shape_lo(contours@, 1, contours@.len()),
        b.3 == shape_hi(contours@, 1, contours@.len()),
{
    let mut min_x = Scalar::one();
    let mut max_x = Scalar::zero();
    let mut min_y = Scalar::one();
    let mut max_y = Scalar::zero();
    let mut c: usize = 0;
    while c < contours.len()
        invariant
            c <= contours.len(),
            min_x == shape_lo(contours@, 0, c as nat),
            max_x == shape_hi(contours@, 0, c as nat),
            min_y == shape_lo(contours@, 1, c as nat),
            max_y == shape_hi(contours@, 1, c as nat),
        decreases contours.len() - c,
    {
        let contour = &contours[c];
        let ghost start = (min_x, max_x, min_y, max_y);
        let mut k: usize = 0;
        while k < contour.len()
            invariant
                k <= contour.len(),
                min_x == contour_lo(contour@, 0, k as nat, start.0),
                max_x == contour_hi(contour@, 0, k as nat, start.1),
                min_y == contour_lo(contour@, 1, k as nat, start.2),
                max_y == contour_hi(contour@, 1, k as nat, start.3),
            decreases contour.len() - k,
        {
            let pnt = &contour[k];
            min_x = min_x.min(pnt.x());
            max_x = max_x.max(pnt.x());
            min_y = min_y.min(pnt.y());
            max_y = max_y.max(pnt.y());
            k += 1;
        }
        c += 1;
    }
    (min_x, max_x, min_y, max_y)
}

/// Where the edge from `start` to `end` crosses the scanline at height `yf`.
fn edge_cross(start: &Vec2, end: &Vec2, yf: Scalar) -> (r: Option<Scalar>)
    ensures
        r == edge_crossing(*start, *end, yf),
{
    let delta_x = end.x() - start.x();
    let delta_y = end.y() - start.y();
    if delta_y.abs().raw < EPSILON_RAW {
        if start.y().raw == yf.raw {
            return Some(start.x());
        }
        return None;
    }
    let t = (yf - start.y()) / delta_y;
    if t.raw < 0 || t.raw >= ONE_RAW {
        return None;
    }
    Some(start.x() + t * delta_x)
}

/// The crossings of a contour with the scanline at height `yf`, ascending,
/// and whether their number is even.
fn scan_contour(contour: &Vec<Vec2>, yf: Scalar) -> (out: (Vec<Scalar>, bool))
    ensures
        out.0@ == scanline(contour@, yf),
        out.0@.len() == crossings(contour@, yf, contour@.len()).len(),
        out.1 == (out.0@.len() % 2 == 0),
{
    let contour_len = contour.len();
    let mut intersections: Vec<Scalar> = Vec::new();
    let mut k: usize = 0;
    while k < contour_len
        invariant
            k <= contour_len,
            contour_len == contour@.len(),
            intersections@ == crossings(contour@, yf, k as nat),
        decreases contour_len - k,
    {
        let next: usize = if k + 1 == contour_len { 0 } else { k + 1 };
        assert(next == (k + 1) % (contour_len as int)) by {
            if k + 1 == contour_len {
                vstd::arithmetic::div_mod::lemma_mod_self_0(contour_len as int);
            } else {
                vstd::arithmetic::div_mod::lemma_small_mod((k + 1) as nat, contour_len as nat);
            }
        }
        match edge_cross(&contour[k], &contour[next], yf) {
            Some(x) => {
                intersections.push(x);
            },
            None => {},
        }
        k += 1;
    }
    let sorted = sorted_ascending(&intersections);
    let even = sorted.len() % 2 == 0;
    (sorted, even)
}

/// Flips the entries of `row` from `lo` up to `hi`.
fn flip_range(row: &mut Vec<bool>, lo: usize, hi: usize)
    requires
        hi <= old(row)@.len(),
    ensures
        final(row)@.len() == old(row)@.len(),
        forall|i: int|
            0 <= i < old(row)@.len() ==> final(row)@[i] == (old(row)@[i] != (lo <= i < hi)),
{
    let ghost base = row@;
    let mut j: usize = lo;
    while j < hi
        invariant
            lo <= j,
            j <= hi || j == lo,
            hi <= row@.len(),
            row@.len() == base.len(),
            forall|i: int| 0 <= i < base.len() ==> row@[i] == (base[i] != (lo <= i < j)),
        decreases hi - j,
    {
        let flipped = !row[j];
        row[j] = flipped;
        j += 1;
    }
}

/// Flips each entry of `row`, which stands for the pixels from `x_0` on, once
/// for each span that holds its pixel.
fn toggle_spans(row: &mut Vec<bool>, sorted: &Vec<Scalar>, x_0: usize, w: usize)
    requires
        sorted@.len() % 2 == 0,
        x_0 + old(row)@.len() <= usize::MAX,
    ensures
        final(row)@.len() == old(row)@.len(),
        forall|i: int|
            0 <= i < old(row)@.len() ==> final(row)@[i] == (old(row)@[i] != spans_parity(
                sorted@,
                w,
                x_0 + i,
                (sorted@.len() / 2) as nat,
            )),
{
    let ghost base = row@;
    let pairs: usize = sorted.len() / 2;
    let bw: usize = row.len();
    let mut m: usize = 0;
    while m < pairs
        invariant
            m <= pairs,
            pairs == sorted@.len() / 2,
            sorted@.len() % 2 == 0,
            sorted@.len() <= usize::MAX,
            bw == base.len(),
            row@.len() == base.len(),
            x_0 + bw <= usize::MAX,
            forall|i: int|
                0 <= i < base.len() ==> row@[i] == (base[i] != spans_parity(
                    sorted@,
                    w,
                    x_0 + i,
                    m as nat,
                )),
        decreases pairs - m,
    {
        assert(2 * m + 1 < sorted@.len());
        let x_start = sorted[2 * m].scale_floor(w);
        let x_end = sorted[2 * m + 1].scale_floor(w);
        let lo: usize = if x_start > x_0 { x_start - x_0 } else { 0 };
        let hi: usize = if x_end < x_0 {
            0
        } else if x_end - x_0 >= bw {
            bw
        } else {
            x_end - x_0 + 1
        };
        let ghost prev = row@;
        flip_range(row, lo, hi);
        proof {
            assert forall|i: int| 0 <= i < base.len() implies row@[i] == (base[i] != spans_parity(
                sorted@,
                w,
                x_0 + i,
                (m + 1) as nat,
            )) by {
                assert((lo <= i < hi) == (x_start <= x_0 + i <= x_end));
            }
        }
        m += 1;
    }
}

/// The parity of the pixels `x_0` to `x_0 + bw - 1` of row `y`, or nothing
/// if a contour crosses the scanline of the row an odd number of times.
fn row_parity(contours: &Vec<Vec<Vec2>>, y: usize, x_0: usize, bw: usize, w: usize, h: usize) -> (out:
    Option<Vec<bool>>)
    requires
        y < h,
        x_0 + bw <= usize::MAX,
    ensures
        out is Some <==> rows_even(contours@, h, y as int, contours@.len()),
        out is Some ==> out->0@.len() == bw && forall|j: int|
            0 <= j < bw ==> out->0@[j] == shape_parity(
                contours@,
                w,
                h,
                x_0 + j,
                y as int,
                contours@.len(),
            ),
{
    let yf = BezierCanvas::<u8, crate::types::A>::pixel_to_xy(y, h);
    let mut row: Vec<bool> = Vec::new();
    let mut j: usize = 0;
    while j < bw
        invariant
            j <= bw,
            row@.len() == j,
            forall|i: int| 0 <= i < j ==> !row@[i],
        decreases bw - j,
    {
        row.push(false);
        j += 1;
    }
    let mut c: usize = 0;
    while c < contours.len()
        invariant
            c <= contours.len(),
            y < h,
            x_0 + bw <= usize::MAX,
            yf == pixel_center(y as int, h),
            row@.len() == bw,
            rows_even(contours@, h, y as int, c as nat),
            forall|i: int|
                0 <= i < bw ==> row@[i] == shape_parity(contours@, w, h, x_0 + i, y as int, c as nat),
        decreases contours.len() - c,
    {
        let (sorted, even) = scan_contour(&contours[c], yf);
        if !even {
            assert(!row_even(contours@[c as int]@, h, y as int));
            return None;
        }
        toggle_spans(&mut row, &sorted, x_0, w);
        c += 1;
    }
    Some(row)
}

impl<InternalType: InternalColorType, ExternalType: Blend<InternalType>> BezierCanvas<
    InternalType,
    ExternalType,
> {
    /// The parity of the `bw` pixels from `x_0` on of each row of the box
    /// around the shape, row by row, or nothing if the shape cannot be filled.
    fn shape_rows(&self, contours: &Vec<Vec<Vec2>>, x_0: usize, bw: usize, y_0: usize, y_1: usize) -> (out:
        Option<Vec<Vec<bool>>>)
        requires
            self.wf(),
            y_0 == box_first(contours@, 1, self.height()),
            y_1 == box_last(contours@, 1, self.height()),
            y_0 <= y_1 < self.height(),
            x_0 + bw <= usize::MAX,
        ensures
            out is Some <==> shape_closed(contours@, self.height()),
            out is Some ==> out->0@.len() == y_1 - y_0 + 1,
            out is Some ==> forall|i: int|
                0 <= i <= y_1 - y_0 ==> (#[trigger] out->0@[i])@.len() == bw,
            out is Some ==> forall|i: int, j: int|
                0 <= i <= y_1 - y_0 && 0 <= j < bw ==> (#[trigger] out->0@[i]@[j])
                    == shape_parity(
                    contours@,
                    self.width(),
                    self.height(),
                    x_0 + j,
                    y_0 + i,
                    contours@.len(),
                ),
    {
        let w = self.width;
        let h = self.height;
        let mut rows: Vec<Vec<bool>> = Vec::new();
        let mut y: usize = y_0;
        while y <= y_1
            invariant
                y_0 <= y <= y_1 + 1,
                y_1 < h,
                y_0 == box_first(contours@, 1, h),
                y_1 == box_last(contours@, 1, h),
                x_0 + bw <= usize::MAX,
                w == self.width(),
                h == self.height(),
                rows@.len() == y - y_0,
                forall|py: int| y_0 <= py < y ==> #[trigger] rows_even(contours@, h, py, contours@.len()),
                forall|i: int| 0 <= i < y - y_0 ==> (#[trigger] rows@[i])@.len() == bw,
                forall|i: int, j: int|
                    0 <= i < y - y_0 && 0 <= j < bw ==> (#[trigger] rows@[i]@[j]) == shape_parity(
                        contours@,
                        w,
                        h,
                        x_0 + j,
                        y_0 + i,
                        contours@.len(),
                    ),
            decreases y_1 + 1 - y,
        {
            match row_parity(contours, y, x_0, bw, w, h) {
                Some(row) => {
                    rows.push(row);
                },
                None => {
                    assert(!rows_even(contours@, h, y as int, contours@.len()));
                    assert(box_first(contours@, 1, h) <= y <= box_last(contours@, 1, h));
                    assert(!shape_closed(contours@, h));
                    return None;
                },
            }
            y += 1;
        }
        Some(rows)
    }

    /// Composites `color` over the pixels of the shape that the contours
    /// bound, if the shape can be filled, and says whether it could. A shape
    /// that cannot be filled leaves the canvas as it is.
    pub fn try_fill_shape(
        &mut self,
        contours: &Vec<Vec<Vec2>>,
        color: &ExternalType,
        blend_mode: BlendMode,
    ) -> (filled: bool)
        requires
            old(self).wf(),
            ExternalType::supports_spec(blend_mode),
        ensures
            final(self).wf(),
            final(self).same_size(old(self)),
            filled == shape_closed(contours@, old(self).height()),
            filled ==> final(self)@ == old(self).painted(
                shape_mask(contours@, old(self).width(), old(self).height()),
                *color,
                blend_mode,
            ),
            !filled ==> final(self)@ == old(self)@,
    {
        let ghost before = *self;
        let w = self.width;
        let h = self.height;
        let mut done: Ghost<spec_fn(int, int) -> bool> = Ghost(|px: int, py: int| false);
        proof {
            before.lemma_painted_none(done@, *color, blend_mode);
        }
        let (lo_x, hi_x, lo_y, hi_y) = shape_bounds(contours);
        let x_0 = lo_x.scale_floor(w);
        let mut x_1 = hi_x.scale_floor(w);
        let y_0 = lo_y.scale_floor(h);
        let mut y_1 = hi_y.scale_floor(h);
        if h == 0 || y_0 >= h {
            proof {
                before.lemma_painted_ext(done@, shape_mask(contours@, w, h), *color, blend_mode);
            }
            return true;
        }
        if y_1 >= h {
            y_1 = h - 1;
        }
        if y_0 > y_1 {
            proof {
                before.lemma_painted_ext(done@, shape_mask(contours@, w, h), *color, blend_mode);
            }
            return true;
        }
        if x_1 >= w && w > 0 {
            x_1 = w - 1;
        }
        let bw: usize = if w == 0 || x_0 > x_1 {
            0
        } else {
            x_1 - x_0 + 1
        };
        let rows = match self.shape_rows(contours, x_0, bw, y_0, y_1) {
            Some(rows) => rows,
            None => {
                return false;
            },
        };
        if bw == 0 {
            proof {
                before.lemma_painted_ext(done@, shape_mask(contours@, w, h), *color, blend_mode);
            }
            return true;
        }
        let mut y: usize = y_0;
        while y <= y_1
            invariant
                self.wf(),
                before.wf(),
                self.same_size(&before),
                ExternalType::supports_spec(blend_mode),
                w == self.width,
                h == self.height,
                x_0 == box_first(contours@, 0, w),
                x_1 == box_last(contours@, 0, w),
                y_0 == box_first(contours@, 1, h),
                y_1 == box_last(contours@, 1, h),
                x_0 <= x_1 < w,
                y_0 <= y <= y_1 + 1,
                y_1 < h,
                rows@.len() == y_1 - y_0 + 1,
                forall|i: int| 0 <= i <= y_1 - y_0 ==> (#[trigger] rows@[i])@.len() == x_1 - x_0 + 1,
                forall|i: int, j: int|
                    0 <= i <= y_1 - y_0 && 0 <= j <= x_1 - x_0 ==> (#[trigger] rows@[i]@[j])
                        == shape_parity(contours@, w, h, x_0 + j, y_0 + i, contours@.len()),
                self@ == before.painted(done@, *color, blend_mode),
                forall|px: int, py: int|
                    #[trigger] done@(px, py) == (shape_covers(contours@, w, h, px, py) && py < y),
            decreases y_1 + 1 - y,
        {
            let row = &rows[y - y_0];
            let mut x: usize = x_0;
            while x <= x_1
                invariant
                    self.wf(),
                    before.wf(),
                    self.same_size(&before),
                    ExternalType::supports_spec(blend_mode),
                    w == self.width,
                    h == self.height,
                    x_0 == box_first(contours@, 0, w),
                    x_1 == box_last(contours@, 0, w),
                    y_0 == box_first(contours@, 1, h),
                    y_1 == box_last(contours@, 1, h),
                    x_0 <= x <= x_1 + 1,
                    x_1 < w,
                    y_0 <= y <= y_1,
                    y_1 < h,
                    row@.len() == x_1 - x_0 + 1,
                    forall|j: int|
                        0 <= j <= x_1 - x_0 ==> row@[j] == shape_parity(
                            contours@,
                            w,
                            h,
                            x_0 + j,
                            y as int,
                            contours@.len(),
                        ),
                    self@ == before.painted(done@, *color, blend_mode),
                    forall|px: int, py: int|
                        #[trigger] done@(px, py) == (shape_covers(contours@, w, h, px, py) && (py
                            < y || (py == y && px < x))),
                decreases x_1 + 1 - x,
            {
                let inside = row[x - x_0];
                assert(inside == shape_covers(contours@, w, h, x as int, y as int));
                if inside {
                    done = self.paint_pixel(Ghost(before), done, x, y, color, blend_mode);
                }
                x += 1;
            }
            y += 1;
        }
        proof {
            before.lemma_painted_ext(done@, shape_mask(contours@, w, h), *color, blend_mode);
        }
        true
    }

    /// Composites `color` over the pixels of the shape that the contours
    /// bound.
    pub fn fill_shape(
        &mut self,
        contours: &Vec<Vec<Vec2>>,
        color: &ExternalType,
        blend_mode: BlendMode,
    )
        requires
            old(self).wf(),
            ExternalType::supports_spec(blend_mode),
            shape_closed(contours@, old(self).height()),
        ensures
            final(self).wf(),
            final(self).same_size(old(self)),
            final(self)@ == old(self).painted(
                shape_mask(contours@, old(self).width(), old(self).height()),
                *color,
                blend_mode,
            ),
    {
        let filled = self.try_fill_shape(contours, color, blend_mode);
    }
}

} // verus!
