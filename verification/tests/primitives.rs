use bezier::canvas::bezier::bezier_eval;
use bezier::canvas::BezierCanvas;
use bezier::linalg::Vec2;
use bezier::scalar::Scalar;
use bezier::types::blend::BlendMode;
use bezier::types::{ColorType, RGB, RGBA, R};

fn s(x: f32) -> Scalar {
    Scalar::from_raw((x as f64 * 4294967296.0) as i64)
}

fn v2(x: f32, y: f32) -> Vec2 {
    Vec2::new(s(x), s(y))
}

const WHITE: RGB = RGB { r: 255, g: 255, b: 255 };
const BLACK: RGB = RGB { r: 0, g: 0, b: 0 };

/// The pixels that are not black, row by row.
fn lit(canvas: &BezierCanvas<u32, RGB>) -> Vec<(usize, usize)> {
    let mut out = Vec::new();
    for y in 0..canvas.height() {
        for x in 0..canvas.width() {
            if canvas.get_pixel(x, y) != BLACK {
                out.push((x, y));
            }
        }
    }
    out
}

fn block(x0: usize, x1: usize, y0: usize, y1: usize) -> Vec<(usize, usize)> {
    let mut out = Vec::new();
    for y in y0..=y1 {
        for x in x0..=x1 {
            out.push((x, y));
        }
    }
    out
}

#[test]
fn new_canvas_is_zero_everywhere() {
    let canvas = BezierCanvas::<u32, RGBA>::new(7, 5);
    assert_eq!(canvas.width(), 7);
    assert_eq!(canvas.height(), 5);
    for y in 0..5 {
        for x in 0..7 {
            assert_eq!(canvas.get_pixel(x, y), RGBA { r: 0, g: 0, b: 0, a: 0 });
        }
    }
    let gray = BezierCanvas::<u8, R>::new(3, 3);
    assert_eq!(gray.get_pixel(2, 2), R { r: 0 });
    let empty = BezierCanvas::<u32, RGB>::new(0, 9);
    assert_eq!((empty.width(), empty.height()), (0, 9));
}

#[test]
fn conversions_between_coordinates_and_pixels() {
    type Canvas = BezierCanvas<u32, RGB>;
    assert_eq!(Canvas::xy_to_pixel(s(0.0), 10), 0);
    assert_eq!(Canvas::xy_to_pixel(s(0.25), 10), 2);
    assert_eq!(Canvas::xy_to_pixel(s(0.3), 10), 3);
    assert_eq!(Canvas::xy_to_pixel(s(0.5), 10), 5);
    assert_eq!(Canvas::xy_to_pixel(s(1.0), 10), 10);
    assert_eq!(Canvas::xy_to_pixel(s(-3.0), 10), 0);
    assert_eq!(Canvas::xy_to_pixel(s(0.1667), 1200), 200);
    assert_eq!(Canvas::xy_to_pixel(s(0.125), 800), 100);
    assert_eq!(Canvas::pixel_to_xy(0, 10), Scalar::from_raw(214748364));
    assert_eq!(Canvas::pixel_to_xy(2, 4), s(0.625));
    assert_eq!(Canvas::pixel_to_xy(0, 1), s(0.5));
    assert_eq!(Canvas::pixel_to_xy(0, 3), Scalar::from_raw(715827882));
    for n in [1usize, 3, 10, 400, 1200] {
        for k in 0..n {
            assert_eq!(Canvas::xy_to_pixel(Canvas::pixel_to_xy(k, n), n), k);
        }
    }
}

#[test]
fn full_rectangle_sets_every_pixel() {
    let mut canvas = BezierCanvas::<u32, RGBA>::new(13, 7);
    let color = RGBA { r: 1, g: 2, b: 3, a: 4 };
    canvas.fill_rect(&v2(0.0, 0.0), &v2(1.0, 1.0), &color, BlendMode::Override);
    for y in 0..7 {
        for x in 0..13 {
            assert_eq!(canvas.get_pixel(x, y), color);
        }
    }
}

#[test]
fn rectangle_covers_the_pixels_of_its_corners_and_between() {
    let mut canvas = BezierCanvas::<u32, RGB>::new(10, 10);
    canvas.fill_rect(&v2(0.25, 0.35), &v2(0.25, 0.5), &WHITE, BlendMode::Override);
    assert_eq!(lit(&canvas), block(2, 5, 3, 8));
}

#[test]
fn rectangle_is_clipped_to_the_canvas() {
    let mut canvas = BezierCanvas::<u32, RGB>::new(10, 10);
    canvas.fill_rect(&v2(-0.5, 0.75), &v2(0.75, 5.0), &WHITE, BlendMode::Override);
    assert_eq!(lit(&canvas), block(0, 2, 7, 9));
}

#[test]
fn degenerate_rectangles_touch_nothing() {
    let mut canvas = BezierCanvas::<u32, RGB>::new(10, 10);
    canvas.fill_rect(&v2(0.5, 0.5), &v2(0.0, 0.5), &WHITE, BlendMode::Override);
    canvas.fill_rect(&v2(0.5, 0.5), &v2(0.5, 0.0), &WHITE, BlendMode::Override);
    canvas.fill_rect(&v2(0.5, 0.5), &v2(-0.25, 0.25), &WHITE, BlendMode::Override);
    canvas.fill_rect(&v2(1.5, 0.5), &v2(0.25, 0.25), &WHITE, BlendMode::Override);
    canvas.fill_rect(&v2(-1.0, -1.0), &v2(0.5, 0.5), &WHITE, BlendMode::Override);
    canvas.fill_rect(&v2(-1.0, 0.0), &v2(1.0, 1.0), &WHITE, BlendMode::Override);
    assert_eq!(lit(&canvas), vec![]);
    let mut empty = BezierCanvas::<u32, RGB>::new(0, 0);
    empty.fill_rect(&v2(0.0, 0.0), &v2(1.0, 1.0), &WHITE, BlendMode::Override);
    assert_eq!(lit(&empty), vec![]);
}

#[test]
fn rectangle_blends_through_the_mode() {
    let mut canvas = BezierCanvas::<u32, RGBA>::new(4, 4);
    canvas.fill_rect(&v2(0.0, 0.0), &v2(1.0, 1.0), &RGBA { r: 100, g: 200, b: 0, a: 128 }, BlendMode::Override);
    canvas.fill_rect(&v2(0.0, 0.0), &v2(0.5, 1.0), &RGBA { r: 200, g: 100, b: 255, a: 128 }, BlendMode::Alpha);
    assert_eq!(canvas.get_pixel(0, 0), RGBA { r: 150, g: 150, b: 128, a: 192 });
    assert_eq!(canvas.get_pixel(2, 3), RGBA { r: 150, g: 150, b: 128, a: 192 });
    assert_eq!(canvas.get_pixel(3, 3), RGBA { r: 100, g: 200, b: 0, a: 128 });
}

#[test]
fn oval_holds_the_pixels_whose_centers_lie_inside() {
    let mut canvas = BezierCanvas::<u32, RGB>::new(8, 8);
    canvas.fill_oval(&v2(0.5, 0.5), &v2(0.25, 0.25), &WHITE, BlendMode::Override);
    assert_eq!(
        lit(&canvas),
        vec![
            (3, 2), (4, 2),
            (2, 3), (3, 3), (4, 3), (5, 3),
            (2, 4), (3, 4), (4, 4), (5, 4),
            (3, 5), (4, 5),
        ]
    );
}

#[test]
fn oval_with_unequal_axes() {
    let mut canvas = BezierCanvas::<u32, RGB>::new(100, 100);
    canvas.fill_oval(&v2(0.5, 0.5), &v2(0.25, 0.375), &WHITE, BlendMode::Override);
    assert_eq!(canvas.get_pixel(50, 50), WHITE);
    assert_eq!(canvas.get_pixel(50, 14), WHITE);
    assert_eq!(canvas.get_pixel(50, 85), WHITE);
    assert_eq!(canvas.get_pixel(26, 50), WHITE);
    assert_eq!(canvas.get_pixel(73, 50), WHITE);
    assert_eq!(canvas.get_pixel(50, 11), BLACK);
    assert_eq!(canvas.get_pixel(23, 50), BLACK);
    assert_eq!(canvas.get_pixel(30, 20), BLACK);
    assert_eq!(canvas.get_pixel(0, 0), BLACK);
}

#[test]
fn circle_is_the_oval_of_equal_axes() {
    let mut one = BezierCanvas::<u32, RGB>::new(50, 30);
    let mut other = BezierCanvas::<u32, RGB>::new(50, 30);
    one.fill_circle(&v2(0.4, 0.6), s(0.3), &WHITE, BlendMode::Override);
    other.fill_oval(&v2(0.4, 0.6), &v2(0.3, 0.3), &WHITE, BlendMode::Override);
    assert_eq!(lit(&one), lit(&other));
    assert!(!lit(&one).is_empty());
}

#[test]
fn oval_without_extent_holds_nothing() {
    let mut canvas = BezierCanvas::<u32, RGB>::new(10, 10);
    canvas.fill_oval(&v2(0.55, 0.55), &v2(0.0, 0.25), &WHITE, BlendMode::Override);
    canvas.fill_oval(&v2(0.55, 0.55), &v2(0.25, 0.0), &WHITE, BlendMode::Override);
    canvas.fill_oval(&v2(0.55, 0.55), &v2(-0.25, 0.25), &WHITE, BlendMode::Override);
    canvas.fill_oval(&v2(3.0, 3.0), &v2(0.25, 0.25), &WHITE, BlendMode::Override);
    assert_eq!(lit(&canvas), vec![]);
}

#[test]
fn level_line_takes_one_pixel_in_each_column() {
    let mut canvas = BezierCanvas::<u32, RGB>::new(10, 10);
    canvas.stroke_line(&v2(0.0, 0.55), &v2(1.0, 0.55), &WHITE, BlendMode::Override);
    assert_eq!(lit(&canvas), block(0, 9, 5, 5));
}

#[test]
fn upright_line_takes_one_pixel_in_each_row() {
    let mut canvas = BezierCanvas::<u32, RGB>::new(10, 10);
    canvas.stroke_line(&v2(0.25, 1.0), &v2(0.25, 0.0), &WHITE, BlendMode::Override);
    assert_eq!(lit(&canvas), block(2, 2, 0, 9));
}

#[test]
fn diagonal_line() {
    let mut canvas = BezierCanvas::<u32, RGB>::new(10, 10);
    canvas.stroke_line(&v2(0.0, 0.0), &v2(1.0, 1.0), &WHITE, BlendMode::Override);
    assert_eq!(lit(&canvas), (0..10).map(|k| (k, k)).collect::<Vec<_>>());
}

#[test]
fn gentle_line_between_its_ends() {
    let mut canvas = BezierCanvas::<u32, RGB>::new(8, 8);
    canvas.stroke_line(&v2(0.125, 0.125), &v2(0.875, 0.5), &WHITE, BlendMode::Override);
    assert_eq!(lit(&canvas), vec![(1, 1), (2, 1), (3, 2), (4, 2), (5, 3), (6, 3), (7, 4)]);
}

#[test]
fn line_in_either_direction_is_the_same() {
    let mut one = BezierCanvas::<u32, RGB>::new(40, 30);
    let mut other = BezierCanvas::<u32, RGB>::new(40, 30);
    one.stroke_line(&v2(0.25, 0.75), &v2(0.5, 0.25), &WHITE, BlendMode::Override);
    other.stroke_line(&v2(0.5, 0.25), &v2(0.25, 0.75), &WHITE, BlendMode::Override);
    assert_eq!(lit(&one), lit(&other));
    assert_eq!(lit(&one).len(), 16);
}

#[test]
fn line_that_leaves_the_canvas_is_skipped_there() {
    let mut canvas = BezierCanvas::<u32, RGB>::new(10, 10);
    canvas.stroke_line(&v2(0.0, 0.78), &v2(1.0, 1.78), &WHITE, BlendMode::Override);
    assert_eq!(lit(&canvas), vec![(0, 8), (1, 9)]);
    let mut canvas = BezierCanvas::<u32, RGB>::new(10, 10);
    canvas.stroke_line(&v2(1.0, 0.5), &v2(-0.0625, 0.375), &WHITE, BlendMode::Override);
    assert_eq!(lit(&canvas).len(), 10);
    for (x, y) in lit(&canvas) {
        assert!(y == 3 || y == 4, "({x}, {y})");
    }
}

#[test]
fn line_of_no_length_draws_nothing() {
    let mut canvas = BezierCanvas::<u32, RGB>::new(10, 10);
    canvas.stroke_line(&v2(0.5, 0.5), &v2(0.5, 0.5), &WHITE, BlendMode::Override);
    assert_eq!(lit(&canvas), vec![]);
}

#[test]
fn bezier_of_two_points_and_two_stops_is_the_line() {
    let p = [v2(0.1, 0.2), v2(0.9, 0.6)];
    let mut curve = BezierCanvas::<u32, RGB>::new(50, 50);
    let mut line = BezierCanvas::<u32, RGB>::new(50, 50);
    curve.stroke_bezier::<2>(&p, &WHITE, 2, BlendMode::Override);
    line.stroke_line(&p[0], &p[1], &WHITE, BlendMode::Override);
    assert_eq!(lit(&curve), lit(&line));
    assert_eq!(lit(&line).len(), 40);
}

#[test]
fn bezier_of_two_points_follows_the_line() {
    let p = [v2(0.1, 0.2), v2(0.9, 0.6)];
    let mut curve = BezierCanvas::<u32, RGB>::new(50, 50);
    let mut line = BezierCanvas::<u32, RGB>::new(50, 50);
    curve.stroke_bezier::<2>(&p, &WHITE, 9, BlendMode::Override);
    line.stroke_line(&p[0], &p[1], &WHITE, BlendMode::Override);
    let on_line = lit(&line);
    let on_curve = lit(&curve);
    assert!(on_curve.len() >= on_line.len());
    for (x, y) in on_curve {
        assert!(on_line.iter().any(|&(a, b)| a.abs_diff(x) <= 1 && b.abs_diff(y) <= 1), "({x}, {y})");
    }
}

#[test]
fn bezier_with_fewer_than_two_stops_draws_nothing() {
    let p = [v2(0.1, 0.2), v2(0.9, 0.6), v2(0.5, 0.5)];
    let mut canvas = BezierCanvas::<u32, RGB>::new(20, 20);
    canvas.stroke_bezier::<3>(&p, &WHITE, 0, BlendMode::Override);
    canvas.stroke_bezier::<3>(&p, &WHITE, 1, BlendMode::Override);
    assert_eq!(lit(&canvas), vec![]);
}

#[test]
fn bezier_starts_and_ends_at_its_end_points() {
    let p = [v2(0.125, 0.125), v2(0.875, 0.125), v2(0.875, 0.875)];
    let mut canvas = BezierCanvas::<u32, RGB>::new(16, 16);
    canvas.stroke_bezier::<3>(&p, &WHITE, 20, BlendMode::Override);
    assert_eq!(canvas.get_pixel(2, 2), WHITE);
    assert_eq!(canvas.get_pixel(13, 13), WHITE);
    assert_eq!(canvas.get_pixel(14, 2), BLACK);
    assert_eq!(canvas.get_pixel(2, 13), BLACK);
}

#[test]
fn bezier_of_the_highest_degree() {
    let p = [
        v2(0.1, 0.5), v2(0.2, 0.1), v2(0.3, 0.9), v2(0.4, 0.1), v2(0.5, 0.9),
        v2(0.6, 0.1), v2(0.7, 0.9), v2(0.8, 0.1), v2(0.9, 0.5),
    ];
    let mut canvas = BezierCanvas::<u32, RGB>::new(100, 100);
    canvas.stroke_bezier::<9>(&p, &WHITE, 31, BlendMode::Override);
    assert_eq!(canvas.get_pixel(50, 49), WHITE);
    assert_eq!(canvas.get_pixel(50, 60), BLACK);
    let middle = bezier_eval::<9>(&p, s(0.5));
    let expected = v2(0.5, 127.2 / 256.0);
    assert!((middle.x().raw - expected.x().raw).abs() < 1 << 12);
    assert!((middle.y().raw - expected.y().raw).abs() < 1 << 12);
}

#[test]
fn bezier_points_in_bernstein_form() {
    let p = [v2(0.0, 0.0), v2(1.0, 0.0), v2(1.0, 1.0)];
    assert_eq!(bezier_eval::<3>(&p, s(0.0)), v2(0.0, 0.0));
    assert_eq!(bezier_eval::<3>(&p, s(1.0)), v2(1.0, 1.0));
    assert_eq!(bezier_eval::<3>(&p, s(0.5)), v2(0.75, 0.25));
    assert_eq!(bezier_eval::<3>(&p, s(0.25)), v2(0.4375, 0.0625));
    assert_eq!(bezier_eval::<1>(&p, s(0.3)), v2(0.0, 0.0));
    assert_eq!(bezier_eval::<2>(&p[1..], s(0.75)), v2(1.0, 0.75));
}

fn square(lo: f32, hi: f32) -> Vec<Vec2> {
    vec![v2(lo, lo), v2(hi, lo), v2(hi, hi), v2(lo, hi)]
}

#[test]
fn filled_square() {
    let mut canvas = BezierCanvas::<u32, RGB>::new(10, 10);
    canvas.fill_shape(&vec![square(0.2, 0.8)], &WHITE, BlendMode::Override);
    assert_eq!(lit(&canvas), block(2, 8, 2, 7));
}

#[test]
fn nested_squares_leave_a_hole() {
    let mut canvas = BezierCanvas::<u32, RGB>::new(100, 100);
    canvas.fill_shape(&vec![square(0.1, 0.9), square(0.3, 0.7)], &WHITE, BlendMode::Override);
    assert_eq!(canvas.get_pixel(50, 50), BLACK);
    assert_eq!(canvas.get_pixel(35, 35), BLACK);
    assert_eq!(canvas.get_pixel(65, 65), BLACK);
    assert_eq!(canvas.get_pixel(20, 50), WHITE);
    assert_eq!(canvas.get_pixel(80, 50), WHITE);
    assert_eq!(canvas.get_pixel(50, 20), WHITE);
    assert_eq!(canvas.get_pixel(50, 80), WHITE);
    assert_eq!(canvas.get_pixel(15, 15), WHITE);
    assert_eq!(canvas.get_pixel(5, 50), BLACK);
    assert_eq!(canvas.get_pixel(50, 95), BLACK);
    assert_eq!(lit(&canvas).len(), 80 * 80 - 40 * 40);
}

#[test]
fn orientation_of_the_hole_does_not_matter() {
    let mut one = BezierCanvas::<u32, RGB>::new(60, 60);
    let mut other = BezierCanvas::<u32, RGB>::new(60, 60);
    let mut inner = square(0.3, 0.7);
    one.fill_shape(&vec![square(0.1, 0.9), inner.clone()], &WHITE, BlendMode::Override);
    inner.reverse();
    other.fill_shape(&vec![square(0.1, 0.9), inner], &WHITE, BlendMode::Override);
    assert_eq!(lit(&one), lit(&other));
}

#[test]
fn filled_triangle() {
    let mut canvas = BezierCanvas::<u32, RGB>::new(8, 8);
    let contour = vec![v2(0.0, 0.0), v2(1.0, 0.0), v2(0.0, 1.0)];
    assert!(canvas.try_fill_shape(&vec![contour], &WHITE, BlendMode::Override));
    let on = lit(&canvas);
    assert!(on.contains(&(0, 0)) && on.contains(&(6, 0)) && on.contains(&(0, 6)) && on.contains(&(3, 3)));
    assert!(!on.contains(&(7, 7)) && !on.contains(&(5, 5)) && !on.contains(&(7, 1)));
}

#[test]
fn shape_without_points_fills_nothing() {
    let mut canvas = BezierCanvas::<u32, RGB>::new(8, 8);
    assert!(canvas.try_fill_shape(&vec![], &WHITE, BlendMode::Override));
    assert!(canvas.try_fill_shape(&vec![vec![]], &WHITE, BlendMode::Override));
    assert_eq!(lit(&canvas), vec![]);
}

#[test]
fn scanline_through_a_peak_cannot_be_filled() {
    let mut canvas = BezierCanvas::<u32, RGB>::new(10, 10);
    canvas.fill_rect(&v2(0.0, 0.0), &v2(0.25, 0.25), &WHITE, BlendMode::Override);
    let before = lit(&canvas);
    let peak = vec![v2(0.5, 0.25), v2(0.2, 0.8), v2(0.8, 0.8)];
    assert!(!canvas.try_fill_shape(&vec![peak], &RGB { r: 9, g: 9, b: 9 }, BlendMode::Override));
    assert_eq!(lit(&canvas), before);
    assert_eq!(canvas.get_pixel(5, 5), BLACK);
}

#[test]
fn drawing_on_a_gray_canvas() {
    let mut canvas = BezierCanvas::<u8, R>::new(4, 4);
    canvas.fill_rect(&v2(0.0, 0.0), &v2(1.0, 1.0), &R { r: 200 }, BlendMode::Override);
    canvas.fill_rect(&v2(0.0, 0.0), &v2(0.5, 0.5), &R { r: 200 }, BlendMode::Multiply);
    assert_eq!(canvas.get_pixel(0, 0), R { r: 157 });
    assert_eq!(canvas.get_pixel(3, 3), R { r: 200 });
    assert_eq!(canvas.get_pixel(3, 3).to_value(), 200);
}

#[test]
fn oval_smaller_than_a_pixel_holds_the_pixel_of_its_center() {
    let mut canvas = BezierCanvas::<u32, RGB>::new(2, 2);
    let tiny = Scalar::from_raw(1 << 15);
    canvas.fill_oval(&v2(0.25, 0.25), &Vec2::new(tiny, tiny), &WHITE, BlendMode::Override);
    assert_eq!(lit(&canvas), vec![(0, 0)]);
    for raw in [1i64, 2, 255, 1 << 15, 1 << 16, (1 << 16) + 1, 1 << 24] {
        let mut canvas = BezierCanvas::<u32, RGB>::new(5, 3);
        let size = Vec2::new(Scalar::from_raw(raw), Scalar::from_raw(raw));
        let center = Vec2::new(
            BezierCanvas::<u32, RGB>::pixel_to_xy(3, 5),
            BezierCanvas::<u32, RGB>::pixel_to_xy(1, 3),
        );
        canvas.fill_oval(&center, &size, &WHITE, BlendMode::Override);
        assert_eq!(lit(&canvas), vec![(3, 1)]);
    }
}

#[test]
fn oval_thinner_than_a_pixel_holds_one_column() {
    let mut canvas = BezierCanvas::<u32, RGB>::new(4, 4);
    let size = Vec2::new(Scalar::from_raw(1), s(0.25));
    canvas.fill_oval(&v2(0.375, 0.375), &size, &WHITE, BlendMode::Override);
    assert_eq!(lit(&canvas), vec![(1, 0), (1, 1), (1, 2)]);
    let mut canvas = BezierCanvas::<u32, RGB>::new(4, 4);
    let size = Vec2::new(s(0.25), Scalar::from_raw(3));
    canvas.fill_oval(&v2(0.375, 0.375), &size, &WHITE, BlendMode::Override);
    assert_eq!(lit(&canvas), vec![(0, 1), (1, 1), (2, 1)]);
}

#[test]
fn open_shape_beside_the_canvas_cannot_be_filled() {
    let mut canvas = BezierCanvas::<u32, RGB>::new(4, 4);
    canvas.fill_rect(&v2(0.0, 0.0), &v2(0.25, 0.25), &WHITE, BlendMode::Override);
    let before = lit(&canvas);
    let beside = vec![v2(1.25, 0.375), v2(1.5, 0.75), v2(1.75, 0.75)];
    assert!(!canvas.try_fill_shape(&vec![beside], &RGB { r: 9, g: 9, b: 9 }, BlendMode::Override));
    assert_eq!(lit(&canvas), before);
    for y in 0..4 {
        for x in 0..4 {
            assert_ne!(canvas.get_pixel(x, y), RGB { r: 9, g: 9, b: 9 });
        }
    }
}

#[test]
fn closed_shape_beside_the_canvas_fills_nothing() {
    let mut canvas = BezierCanvas::<u32, RGB>::new(4, 4);
    let beside = vec![v2(1.25, 0.2), v2(1.75, 0.2), v2(1.75, 0.8), v2(1.25, 0.8)];
    assert!(canvas.try_fill_shape(&vec![beside], &WHITE, BlendMode::Override));
    assert_eq!(lit(&canvas), vec![]);
    let below = vec![v2(0.25, 1.2), v2(0.75, 1.2), v2(0.75, 1.8), v2(0.25, 1.8)];
    assert!(canvas.try_fill_shape(&vec![below], &WHITE, BlendMode::Override));
    assert_eq!(lit(&canvas), vec![]);
}

#[test]
fn points_of_a_curve_of_two_points_lie_on_the_line() {
    let ends = [v2(0.25, 0.5), v2(0.75, 0.125)];
    assert_eq!(bezier_eval::<2>(&ends, s(0.5)), v2(0.5, 0.3125));
    assert_eq!(bezier_eval::<2>(&ends, s(0.25)), v2(0.375, 0.40625));
    let (p, q) = (Scalar::from_raw(1_000_000_007), Scalar::from_raw(-3_000_000_019));
    let ends = [Vec2::new(p, q), Vec2::new(q, p)];
    for raw in [0i64, 1, 12345, 1 << 31, (1 << 32) - 1, 1 << 32] {
        let got = bezier_eval::<2>(&ends, Scalar::from_raw(raw));
        let one = 1i128 << 32;
        let exact_x = p.raw as i128 * (one - raw as i128) + q.raw as i128 * raw as i128;
        let exact_y = q.raw as i128 * (one - raw as i128) + p.raw as i128 * raw as i128;
        assert!(got.x().raw as i128 * one <= exact_x && exact_x < (got.x().raw as i128 + 2) * one);
        assert!(got.y().raw as i128 * one <= exact_y && exact_y < (got.y().raw as i128 + 2) * one);
    }
    for stops in [2usize, 3, 10, 1000] {
        let first = bezier_eval::<2>(&ends, Scalar::from_ratio(0, stops - 1));
        let last = bezier_eval::<2>(&ends, Scalar::from_ratio(stops - 1, stops - 1));
        assert_eq!((first, last), (ends[0], ends[1]));
    }
}
