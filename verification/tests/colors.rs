use bezier::linalg::Vec4;
use bezier::scalar::Scalar;
use bezier::types::blend::{blend_multiply, blend_over, blend_screen, Blend, BlendMode};
use bezier::types::{channel_to_unit, unit_to_channel, units_to_gray, ColorType, A, R, RA, RGB, RGBA};

fn unit(x: f32) -> Scalar {
    Scalar::from_raw((x as f64 * 4294967296.0) as i64)
}

const MODES: [BlendMode; 4] =
    [BlendMode::Override, BlendMode::Alpha, BlendMode::Multiply, BlendMode::Screen];

/// The nearest integer to `n / 255`, worked out on fractions.
fn nearest(n: u32) -> u8 {
    let down = n / 255;
    if 2 * (n - down * 255) > 255 {
        (down + 1) as u8
    } else {
        down as u8
    }
}

#[test]
fn raw_layouts() {
    assert_eq!(A { a: 0x12 }.to_value(), 0x12u8);
    assert_eq!(R { r: 0x34 }.to_value(), 0x34u8);
    assert_eq!(RA { r: 0x12, a: 0x34 }.to_value(), 0x1234u16);
    assert_eq!(RGB { r: 0x01, g: 0x02, b: 0x03 }.to_value(), 0x0302_0100u32);
    assert_eq!(RGBA { r: 0x01, g: 0x02, b: 0x03, a: 0x04 }.to_value(), 0x0302_0104u32);
    assert_eq!(RGB::from_value(0x0302_01ff), RGB { r: 1, g: 2, b: 3 });
    assert_eq!(RGBA::from_value(0xffee_ddcc), RGBA { r: 0xdd, g: 0xee, b: 0xff, a: 0xcc });
    assert_eq!(RA::from_value(0xabcd), RA { r: 0xab, a: 0xcd });
}

#[test]
fn raw_round_trip_of_every_channel_value() {
    for v in 0..=255u8 {
        let w = v.wrapping_mul(7).wrapping_add(3);
        assert_eq!(A::from_value(A { a: v }.to_value()), A { a: v });
        assert_eq!(R::from_value(R { r: v }.to_value()), R { r: v });
        assert_eq!(RA::from_value(RA { r: v, a: w }.to_value()), RA { r: v, a: w });
        assert_eq!(RGB::from_value(RGB { r: v, g: w, b: !v }.to_value()), RGB { r: v, g: w, b: !v });
        let c = RGBA { r: v, g: w, b: !v, a: !w };
        assert_eq!(RGBA::from_value(c.to_value()), c);
    }
}

#[test]
fn normalized_round_trip_of_every_channel_value() {
    for v in 0..=255u8 {
        let w = v.wrapping_mul(5).wrapping_add(1);
        assert_eq!(unit_to_channel(channel_to_unit(v)), v);
        assert_eq!(A::from_vec4(A { a: v }.to_vec4()), A { a: v });
        assert_eq!(R::from_vec4(R { r: v }.to_vec4()), R { r: v });
        assert_eq!(RA::from_vec4(RA { r: v, a: w }.to_vec4()), RA { r: v, a: w });
        assert_eq!(RGB::from_vec4(RGB { r: v, g: w, b: !v }.to_vec4()), RGB { r: v, g: w, b: !v });
        let c = RGBA { r: v, g: w, b: !v, a: !w };
        assert_eq!(RGBA::from_vec4(c.to_vec4()), c);
    }
}

#[test]
fn missing_channels_normalize_to_their_defaults() {
    let zero = Scalar::zero();
    let one = Scalar::one();
    assert_eq!(A { a: 255 }.to_vec4(), Vec4::new(zero, zero, zero, one));
    assert_eq!(A { a: 0 }.to_vec4(), Vec4::new(zero, zero, zero, zero));
    assert_eq!(R { r: 255 }.to_vec4(), Vec4::new(one, one, one, one));
    assert_eq!(RA { r: 0, a: 255 }.to_vec4(), Vec4::new(zero, zero, zero, one));
    assert_eq!(RGB { r: 255, g: 0, b: 255 }.to_vec4(), Vec4::new(one, zero, one, one));
    assert_eq!(RGBA { r: 0, g: 255, b: 0, a: 0 }.to_vec4(), Vec4::new(zero, one, zero, zero));
    assert_eq!(channel_to_unit(51), Scalar::from_ratio(51, 255));
    assert_eq!(channel_to_unit(51), Scalar::from_raw(858993459));
}

#[test]
fn quantizing_rounds_to_nearest_and_saturates() {
    assert_eq!(unit_to_channel(unit(0.5)), 128);
    assert_eq!(unit_to_channel(unit(0.25)), 64);
    assert_eq!(unit_to_channel(unit(0.2)), 51);
    assert_eq!(unit_to_channel(unit(0.0)), 0);
    assert_eq!(unit_to_channel(unit(1.0)), 255);
    assert_eq!(unit_to_channel(unit(1.5)), 255);
    assert_eq!(unit_to_channel(unit(1000.0)), 255);
    assert_eq!(unit_to_channel(unit(-0.25)), 0);
    assert_eq!(unit_to_channel(Scalar::from_raw(i64::MAX)), 255);
    assert_eq!(unit_to_channel(Scalar::from_raw(i64::MIN)), 0);
    assert_eq!(units_to_gray(unit(1.0), unit(0.0), unit(0.0)), 85);
    assert_eq!(units_to_gray(unit(1.0), unit(1.0), unit(1.0)), 255);
    assert_eq!(units_to_gray(unit(0.5), unit(0.25), unit(0.0)), 64);
    assert_eq!(
        RGBA::from_vec4(Vec4::new(unit(0.5), unit(2.0), unit(-1.0), unit(0.2))),
        RGBA { r: 128, g: 255, b: 0, a: 51 }
    );
}

#[test]
fn channel_formulas_on_chosen_values() {
    assert_eq!(blend_multiply(200, 200), 157);
    assert_eq!(blend_multiply(255, 77), 77);
    assert_eq!(blend_multiply(0, 77), 0);
    assert_eq!(blend_multiply(128, 128), 64);
    assert_eq!(blend_screen(100, 100), 161);
    assert_eq!(blend_screen(0, 77), 77);
    assert_eq!(blend_screen(255, 77), 255);
    assert_eq!(blend_over(100, 200, 128), 150);
    assert_eq!(blend_over(100, 200, 0), 100);
    assert_eq!(blend_over(100, 200, 255), 200);
    assert_eq!(blend_over(0, 255, 200), 200);
}

#[test]
fn channel_formulas_are_the_nearest_integers() {
    for bg in (0..=255u32).step_by(3) {
        for fg in (0..=255u32).step_by(5) {
            assert_eq!(blend_multiply(bg as u8, fg as u8), nearest(bg * fg));
            assert_eq!(
                blend_screen(bg as u8, fg as u8),
                255 - nearest((255 - bg) * (255 - fg))
            );
            for alpha in (0..=255u32).step_by(51) {
                assert_eq!(
                    blend_over(bg as u8, fg as u8, alpha as u8),
                    nearest(bg * (255 - alpha) + fg * alpha)
                );
            }
        }
    }
}

#[test]
fn override_gives_the_raw_color_whatever_the_background() {
    for bg in [0u32, 1, 0x1234_5678, 0xffff_ffff] {
        let c = RGBA { r: 9, g: 8, b: 7, a: 6 };
        assert_eq!(c.blend(bg, BlendMode::Override), c.to_value());
        let c = RGB { r: 9, g: 8, b: 7 };
        assert_eq!(c.blend(bg, BlendMode::Override), c.to_value());
        let c = RA { r: 9, a: 6 };
        assert_eq!(c.blend(bg as u16, BlendMode::Override), c.to_value());
        assert_eq!(R { r: 9 }.blend(bg as u8, BlendMode::Override), 9);
        assert_eq!(A { a: 6 }.blend(bg as u8, BlendMode::Override), 6);
    }
}

#[test]
fn opaque_alpha_replaces_and_clear_alpha_keeps() {
    for bg in [0u32, 0x0102_0304, 0x8040_20ff, 0xffff_ffff, 0x7f7f_7f7f] {
        for v in [0u8, 1, 100, 255] {
            let opaque = RGBA { r: v, g: !v, b: 33, a: 255 };
            assert_eq!(opaque.blend(bg, BlendMode::Alpha), opaque.blend(bg, BlendMode::Override));
            let clear = RGBA { r: v, g: !v, b: 33, a: 0 };
            assert_eq!(clear.blend(bg, BlendMode::Alpha), bg);
            let opaque = RA { r: v, a: 255 };
            assert_eq!(
                opaque.blend(bg as u16, BlendMode::Alpha),
                opaque.blend(bg as u16, BlendMode::Override)
            );
            assert_eq!(RA { r: v, a: 0 }.blend(bg as u16, BlendMode::Alpha), bg as u16);
            assert_eq!(A { a: 255 }.blend(bg as u8, BlendMode::Alpha), 255);
            assert_eq!(A { a: 0 }.blend(bg as u8, BlendMode::Alpha), bg as u8);
        }
    }
}

#[test]
fn rgba_modes_on_chosen_colors() {
    let bg = RGBA { r: 100, g: 200, b: 0, a: 128 }.to_value();
    let fg = RGBA { r: 200, g: 100, b: 255, a: 128 };
    assert_eq!(
        RGBA::from_value(fg.blend(bg, BlendMode::Alpha)),
        RGBA { r: 150, g: 150, b: 128, a: 192 }
    );
    assert_eq!(
        RGBA::from_value(fg.blend(bg, BlendMode::Multiply)),
        RGBA { r: 78, g: 78, b: 0, a: 64 }
    );
    assert_eq!(
        RGBA::from_value(fg.blend(bg, BlendMode::Screen)),
        RGBA { r: 222, g: 222, b: 255, a: 192 }
    );
}

#[test]
fn formats_without_alpha_multiply_and_screen() {
    let bg = RGB { r: 255, g: 255, b: 0 }.to_value();
    let fg = RGB { r: 255, g: 0, b: 255 };
    assert_eq!(RGB::from_value(fg.blend(bg, BlendMode::Multiply)), RGB { r: 255, g: 0, b: 0 });
    assert_eq!(RGB::from_value(fg.blend(bg, BlendMode::Screen)), RGB { r: 255, g: 255, b: 255 });
    assert_eq!(R { r: 200 }.blend(200, BlendMode::Multiply), 157);
    assert_eq!(R { r: 100 }.blend(100, BlendMode::Screen), 161);
    assert_eq!(A { a: 100 }.blend(100, BlendMode::Alpha), 161);
    assert_eq!(A { a: 200 }.blend(200, BlendMode::Multiply), 157);
    let ra = RA { r: 200, a: 128 };
    assert_eq!(RA::from_value(ra.blend(RA { r: 100, a: 128 }.to_value(), BlendMode::Alpha)), RA {
        r: 150,
        a: 192
    });
}

#[test]
fn every_mode_of_a_format_with_alpha_leaves_a_value_of_the_format() {
    for mode in MODES {
        let out = RGBA { r: 1, g: 2, b: 3, a: 4 }.blend(0x0a0b_0c0d, mode);
        assert_eq!(RGBA::from_value(out).to_value(), out);
    }
}

#[test]
fn normalized_values_survive_to_within_half_a_step() {
    let half_step = (1i64 << 31) / 255 + 1;
    for k in 0..=1000i64 {
        let s = Scalar::from_raw(k * ((1i64 << 32) / 1000));
        let back = channel_to_unit(unit_to_channel(s));
        assert!((back.raw - s.raw).abs() <= half_step, "{k}");
    }
}
