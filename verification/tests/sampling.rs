use bezier::canvas::texture::{mix4, smooth_step, uv_to_point};
use bezier::canvas::BezierCanvas;
use bezier::linalg::{Vec2, Vec4};
use bezier::scalar::Scalar;
use bezier::texture::{
    ClampToEdge, CubicFilter, LinearFilter, NearestFilter, Repeat, WrapClampToEdge, WrapRepeat,
    Wrapping,
};
use bezier::types::blend::BlendMode;
use bezier::types::{RGB, RGBA};

fn s(x: f64) -> Scalar {
    Scalar::from_raw((x * 4294967296.0) as i64)
}

fn v2(x: f64, y: f64) -> Vec2 {
    Vec2::new(s(x), s(y))
}

fn v4(x: f64, y: f64, z: f64, w: f64) -> Vec4 {
    Vec4::new(s(x), s(y), s(z), s(w))
}

const WHITE: RGB = RGB { r: 255, g: 255, b: 255 };

/// Two by two pixels: black and white above, white and black below.
fn checker() -> BezierCanvas<u32, RGB> {
    let mut canvas = BezierCanvas::<u32, RGB>::new(2, 2);
    canvas.fill_rect(&v2(0.5, 0.0), &v2(0.5, 0.5), &WHITE, BlendMode::Override);
    canvas.fill_rect(&v2(0.0, 0.5), &v2(0.5, 0.5), &WHITE, BlendMode::Override);
    canvas.fill_rect(&v2(0.5, 0.5), &v2(0.5, 0.5), &RGB { r: 0, g: 0, b: 0 }, BlendMode::Override);
    canvas
}

/// Five pixels in a row, of the gray levels 0, 51, 102, 153 and 204.
fn ramp() -> BezierCanvas<u32, RGB> {
    let mut canvas = BezierCanvas::<u32, RGB>::new(5, 1);
    for k in 0..5u8 {
        let level = 51 * k;
        canvas.fill_rect(
            &v2(k as f64 / 5.0 + 0.01, 0.0),
            &v2(0.1, 1.0),
            &RGB { r: level, g: level, b: level },
            BlendMode::Override,
        );
    }
    canvas
}

#[test]
fn wrapping_modes() {
    assert_eq!(WrapRepeat::wrap(s(0.25)), s(0.25));
    assert_eq!(WrapRepeat::wrap(s(1.25)), s(0.25));
    assert_eq!(WrapRepeat::wrap(s(7.0)), s(0.0));
    assert_eq!(WrapRepeat::wrap(s(1.0)), s(0.0));
    assert_eq!(WrapRepeat::wrap(s(-0.25)), s(0.75));
    assert_eq!(WrapRepeat::wrap(s(-3.5)), s(0.5));
    assert_eq!(WrapRepeat::wrap(Scalar::from_raw(i64::MIN)), s(0.0));
    assert_eq!(WrapClampToEdge::wrap(s(0.25)), s(0.25));
    assert_eq!(WrapClampToEdge::wrap(s(1.25)), s(1.0));
    assert_eq!(WrapClampToEdge::wrap(s(-0.25)), s(0.0));
    assert_eq!(Repeat::wrap(s(2.5)), s(0.5));
    assert_eq!(ClampToEdge::wrap(s(2.5)), s(1.0));
}

#[test]
fn texture_coordinates_count_from_the_first_center() {
    assert_eq!(uv_to_point(s(0.0), 5), s(0.0));
    assert_eq!(uv_to_point(s(1.0), 5), s(4.0));
    assert_eq!(uv_to_point(s(0.5), 5), s(2.0));
    assert_eq!(uv_to_point(s(0.5), 2), s(0.5));
    assert_eq!(uv_to_point(s(0.75), 1), s(0.0));
}

#[test]
fn smooth_step_values() {
    assert_eq!(smooth_step(s(0.0)), s(0.0));
    assert_eq!(smooth_step(s(1.0)), s(1.0));
    assert_eq!(smooth_step(s(0.5)), s(0.5));
    assert_eq!(smooth_step(s(0.25)), s(0.15625));
    assert_eq!(smooth_step(s(0.75)), s(0.84375));
}

#[test]
fn mixing_four_colors() {
    let a = v4(1.0, 0.0, 0.0, 1.0);
    let b = v4(0.0, 1.0, 0.0, 1.0);
    let c = v4(0.0, 0.0, 1.0, 1.0);
    let d = v4(0.0, 0.0, 0.0, 0.0);
    assert_eq!(mix4(a, b, c, d, s(0.0), s(0.0)), a);
    assert_eq!(mix4(a, b, c, d, s(1.0), s(0.0)), b);
    assert_eq!(mix4(a, b, c, d, s(0.0), s(1.0)), c);
    assert_eq!(mix4(a, b, c, d, s(1.0), s(1.0)), d);
    assert_eq!(mix4(a, b, c, d, s(0.5), s(0.5)), v4(0.25, 0.25, 0.25, 0.75));
    assert_eq!(mix4(a, b, c, d, s(0.25), s(0.5)), v4(0.375, 0.125, 0.375, 0.875));
}

#[test]
fn nearest_filter_takes_the_closest_pixel() {
    let t = checker();
    let black = v4(0.0, 0.0, 0.0, 1.0);
    let white = v4(1.0, 1.0, 1.0, 1.0);
    assert_eq!(t.sample::<NearestFilter, ClampToEdge, ClampToEdge>(&v2(0.0, 0.0)), black);
    assert_eq!(t.sample::<NearestFilter, ClampToEdge, ClampToEdge>(&v2(1.0, 0.0)), white);
    assert_eq!(t.sample::<NearestFilter, ClampToEdge, ClampToEdge>(&v2(0.0, 1.0)), white);
    assert_eq!(t.sample::<NearestFilter, ClampToEdge, ClampToEdge>(&v2(1.0, 1.0)), black);
    assert_eq!(t.sample::<NearestFilter, ClampToEdge, ClampToEdge>(&v2(0.4, 0.0)), black);
    assert_eq!(t.sample::<NearestFilter, ClampToEdge, ClampToEdge>(&v2(0.5, 0.0)), white);
    assert_eq!(t.sample::<NearestFilter, ClampToEdge, ClampToEdge>(&v2(0.6, 0.0)), white);
    assert_eq!(t.sample::<NearestFilter, ClampToEdge, ClampToEdge>(&v2(7.0, -7.0)), white);
    assert_eq!(t.sample::<NearestFilter, Repeat, Repeat>(&v2(7.0, -7.0)), black);
    assert_eq!(t.sample::<NearestFilter, Repeat, ClampToEdge>(&v2(1.75, 0.0)), white);
}

#[test]
fn linear_filter_weighs_by_distance() {
    let t = checker();
    assert_eq!(
        t.sample::<LinearFilter, ClampToEdge, ClampToEdge>(&v2(0.5, 0.0)),
        v4(0.5, 0.5, 0.5, 1.0)
    );
    assert_eq!(
        t.sample::<LinearFilter, ClampToEdge, ClampToEdge>(&v2(0.25, 0.0)),
        v4(0.25, 0.25, 0.25, 1.0)
    );
    assert_eq!(
        t.sample::<LinearFilter, ClampToEdge, ClampToEdge>(&v2(0.5, 0.5)),
        v4(0.5, 0.5, 0.5, 1.0)
    );
    assert_eq!(
        t.sample::<LinearFilter, ClampToEdge, ClampToEdge>(&v2(0.25, 0.25)),
        v4(0.375, 0.375, 0.375, 1.0)
    );
    assert_eq!(
        t.sample::<LinearFilter, ClampToEdge, ClampToEdge>(&v2(1.0, 1.0)),
        v4(0.0, 0.0, 0.0, 1.0)
    );
}

#[test]
fn cubic_filter_weighs_by_the_smooth_step() {
    let t = checker();
    assert_eq!(
        t.sample::<CubicFilter, ClampToEdge, ClampToEdge>(&v2(0.5, 0.0)),
        v4(0.5, 0.5, 0.5, 1.0)
    );
    assert_eq!(
        t.sample::<CubicFilter, ClampToEdge, ClampToEdge>(&v2(0.25, 0.0)),
        v4(0.15625, 0.15625, 0.15625, 1.0)
    );
    assert_eq!(
        t.sample::<CubicFilter, ClampToEdge, ClampToEdge>(&v2(0.0, 0.75)),
        v4(0.84375, 0.84375, 0.84375, 1.0)
    );
    assert_eq!(
        t.sample::<CubicFilter, ClampToEdge, ClampToEdge>(&v2(1.0, 0.0)),
        v4(1.0, 1.0, 1.0, 1.0)
    );
}

#[test]
fn filters_on_a_ramp() {
    let t = ramp();
    let level = |k: usize| Scalar::from_ratio(51 * k, 255);
    for k in 0..5 {
        let uv = v2(k as f64 / 4.0, 0.0);
        let expected = Vec4::new(level(k), level(k), level(k), Scalar::one());
        assert_eq!(t.sample::<NearestFilter, ClampToEdge, ClampToEdge>(&uv), expected);
        assert_eq!(t.sample::<LinearFilter, ClampToEdge, ClampToEdge>(&uv), expected);
        assert_eq!(t.sample::<CubicFilter, ClampToEdge, ClampToEdge>(&uv), expected);
    }
    let between = t.sample::<LinearFilter, ClampToEdge, ClampToEdge>(&v2(0.375, 0.0));
    let half = s(0.5);
    assert_eq!(between.x(), level(1) * half + level(2) * half);
    assert_eq!(between.w(), Scalar::one());
    let far = t.sample::<LinearFilter, Repeat, ClampToEdge>(&v2(1.375, 5.0));
    assert_eq!(far, between);
}

#[test]
fn sampling_a_single_pixel() {
    let mut t = BezierCanvas::<u32, RGBA>::new(1, 1);
    t.fill_rect(&v2(0.0, 0.0), &v2(1.0, 1.0), &RGBA { r: 255, g: 0, b: 255, a: 0 }, BlendMode::Override);
    let expected = v4(1.0, 0.0, 1.0, 0.0);
    for uv in [v2(0.0, 0.0), v2(0.5, 0.5), v2(1.0, 1.0), v2(-4.0, 9.0)] {
        assert_eq!(t.sample::<NearestFilter, ClampToEdge, Repeat>(&uv), expected);
        assert_eq!(t.sample::<LinearFilter, ClampToEdge, Repeat>(&uv), expected);
        assert_eq!(t.sample::<CubicFilter, ClampToEdge, Repeat>(&uv), expected);
    }
}
