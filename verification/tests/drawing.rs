use bezier::canvas::BezierCanvas;
use bezier::convert::PNGCompatible;
use bezier::linalg::{Det, Matrix2, Vec2, Vec4};
use bezier::scalar::Scalar;
use bezier::texture::{LinearFilter, WrapClampToEdge};
use bezier::types::blend::BlendMode;
use bezier::types::{RGB, RGBA};

/// The fixed-point number that holds exactly what the float holds.
fn s(x: f32) -> Scalar {
    Scalar::from_raw((x as f64 * 4294967296.0) as i64)
}

fn v2(x: f32, y: f32) -> Vec2 {
    Vec2::new(s(x), s(y))
}

fn v4(x: f32, y: f32, z: f32, w: f32) -> Vec4 {
    Vec4::new(s(x), s(y), s(z), s(w))
}

const PNG_SIGNATURE: [u8; 8] = [137, 80, 78, 71, 13, 10, 26, 10];

#[test]
fn init_canvas() {
    let canvas = BezierCanvas::<u32, RGB>::new(1200, 800);
    let file = canvas.export_png().unwrap();
    assert_eq!(file[..8], PNG_SIGNATURE);
    assert_eq!(
        canvas.sample::<LinearFilter, WrapClampToEdge, WrapClampToEdge>(&v2(0.0, 0.0)),
        v4(0.0, 0.0, 0.0, 1.0)
    );
    assert_eq!(
        canvas.sample::<LinearFilter, WrapClampToEdge, WrapClampToEdge>(&v2(1.0, 1.0)),
        v4(0.0, 0.0, 0.0, 1.0)
    );
}

#[test]
fn rectangle_and_lines() {
    let mut canvas = BezierCanvas::<u32, RGB>::new(1200, 800);

    canvas.fill_rect(
        &Vec2 { v: [s(0.1667f32), s(0.125f32)] },
        &Vec2 { v: [s(0.25f32), s(0.25f32)] },
        &RGB { r: 255, g: 0, b: 0 },
        BlendMode::Override,
    );
    let file = canvas.export_png().unwrap();
    assert_eq!(file[..8], PNG_SIGNATURE);
    assert_eq!(canvas.get_pixel(0, 0), RGB { r: 0, g: 0, b: 0 });
    assert_eq!(canvas.get_pixel(200, 200), RGB { r: 255, g: 0, b: 0 });
}

#[test]
fn linear_algebra() {
    let identity = Matrix2::one();
    let x = Vec2 { v: [s(0.75), s(0.25)] };
    assert_eq!(x + x, Vec2 { v: [s(1.5), s(0.5)] });
    assert_eq!(identity * x, x);
    assert_eq!(x * identity, x);
    assert_eq!(x * identity * x, x * x);
    assert_eq!(identity.det(), s(1.0f32));
    assert_eq!((identity * s(5.0f32)).det(), s(25.0f32));
}

#[test]
fn bezier_curve() {
    let mut canvas = BezierCanvas::<u32, RGBA>::new(400, 400);

    canvas.fill_oval(
        &v2(0.5, 0.5),
        &v2(0.25, 0.375),
        &RGBA { r: 255, g: 0, b: 0, a: 200 },
        BlendMode::Alpha,
    );
    let poses = [
        v2(0.25, 0.25),
        v2(0.325, 0.325),
        v2(0.75, 0.25),
        v2(0.875, 0.375),
        v2(1.0, 0.5),
        v2(-0.0625, 0.375),
        v2(0.375, 0.95),
    ];
    for pnt in poses {
        canvas.fill_circle(&pnt, s(0.01), &RGBA { r: 255, g: 100, b: 100, a: 235 }, BlendMode::Alpha);
    }
    for i in (1..poses.len()).step_by(3) {
        canvas.stroke_line(
            &poses[i - 1],
            &poses[i],
            &RGBA { r: 100, g: 100, b: 100, a: 255 },
            BlendMode::Alpha,
        );
        canvas.stroke_line(
            &poses[i + 1],
            &poses[i + 2],
            &RGBA { r: 100, g: 100, b: 100, a: 255 },
            BlendMode::Alpha,
        );
    }
    for i in (1..poses.len()).step_by(3) {
        canvas.stroke_bezier::<4>(
            &poses[i - 1..i + 3],
            &RGBA { r: 255, g: 255, b: 255, a: 255 },
            50,
            BlendMode::Alpha,
        );
    }
    let file = canvas.export_png().unwrap();
    assert_eq!(file[..8], PNG_SIGNATURE);
}

#[test]
fn blend_modes() {
    let mut canvas = BezierCanvas::<u32, RGB>::new(400, 400);

    canvas.fill_rect(&v2(0.0, 0.0), &v2(1.0, 1.0), &RGB { r: 0, g: 255, b: 0 }, BlendMode::Override);
    canvas.fill_rect(
        &v2(0.25, 0.25),
        &v2(0.375, 0.375),
        &RGB { r: 255, g: 255, b: 0 },
        BlendMode::Screen,
    );
    canvas.fill_rect(
        &v2(0.375, 0.375),
        &v2(0.375, 0.375),
        &RGB { r: 255, g: 0, b: 255 },
        BlendMode::Multiply,
    );

    assert_eq!(canvas.get_pixel(50, 50), RGB { r: 0, g: 255, b: 0 });
    assert_eq!(canvas.get_pixel(125, 125), RGB { r: 255, g: 255, b: 0 });
    assert_eq!(canvas.get_pixel(200, 200), RGB { r: 255, g: 0, b: 0 });
    assert_eq!(canvas.get_pixel(275, 275), RGB { r: 0, g: 0, b: 0 });

    let file = canvas.export_png().unwrap();
    assert_eq!(file[..8], PNG_SIGNATURE);
}

#[test]
fn fill_shape() {
    let mut canvas = BezierCanvas::<u32, RGB>::new(400, 400);
    let contour1 = vec![
        v2(0.375, 0.125),
        v2(0.875, 0.125),
        v2(0.125, 0.5),
        v2(0.875, 0.625),
        v2(0.375, 0.875),
        v2(0.125, 0.5),
    ];
    let contour2 = vec![v2(0.5, 0.375), v2(0.375, 0.625), v2(0.625, 0.625)];
    canvas.fill_shape(&vec![contour1, contour2], &RGB { r: 255, g: 255, b: 255 }, BlendMode::Override);

    let file = canvas.export_png().unwrap();
    assert_eq!(file[..8], PNG_SIGNATURE);
}
