use bezier::scalar::{sorted_ascending, Scalar, EPSILON_RAW, ONE_RAW};

const ONE: i64 = 1 << 32;

fn raw(r: i64) -> Scalar {
    Scalar::from_raw(r)
}

fn num(x: f64) -> Scalar {
    Scalar::from_raw((x * 4294967296.0) as i64)
}

#[test]
fn constants() {
    assert_eq!(ONE_RAW, ONE);
    assert_eq!(EPSILON_RAW, 512);
    assert_eq!(Scalar::one().raw, ONE);
    assert_eq!(Scalar::zero().raw, 0);
    assert_eq!(Scalar::epsilon().raw, 512);
    assert_eq!(Scalar::lowest().raw, i64::MIN);
    assert!(Scalar::zero().is_zero());
    assert!(!Scalar::epsilon().is_zero());
}

#[test]
fn sums_and_differences_saturate() {
    assert_eq!(num(1.5) + num(2.25), num(3.75));
    assert_eq!(num(1.5) - num(2.25), num(-0.75));
    assert_eq!(raw(i64::MAX) + Scalar::one(), raw(i64::MAX));
    assert_eq!(raw(i64::MIN) - Scalar::one(), raw(i64::MIN));
    assert_eq!(raw(i64::MIN) + raw(i64::MAX), raw(-1));
    assert_eq!(-num(2.5), num(-2.5));
    assert_eq!(-raw(i64::MIN), raw(i64::MAX));
    assert_eq!(raw(i64::MIN).abs(), raw(i64::MAX));
    assert_eq!(num(-2.5).abs(), num(2.5));
    assert_eq!(num(2.5).abs(), num(2.5));
}

#[test]
fn products_round_down() {
    assert_eq!(num(1.5) * num(2.5), num(3.75));
    assert_eq!(num(-1.5) * num(2.5), num(-3.75));
    assert_eq!(raw(3) * num(0.5), raw(1));
    assert_eq!(raw(-3) * num(0.5), raw(-2));
    assert_eq!(raw(1) * raw(1), raw(0));
    assert_eq!(raw(-1) * raw(1), raw(-1));
    assert_eq!(num(65536.0) * num(65536.0), raw(i64::MAX));
    assert_eq!(num(-65536.0) * num(65536.0), raw(i64::MIN));
    assert_eq!(Scalar::one() * raw(12345), raw(12345));
    assert_eq!(Scalar::zero() * raw(12345), raw(0));
}

#[test]
fn quotients_round_down() {
    assert_eq!(num(3.75) / num(2.5), num(1.5));
    assert_eq!(Scalar::one() / num(3.0), raw(1431655765));
    assert_eq!(num(-1.0) / num(3.0), raw(-1431655766));
    assert_eq!(Scalar::one() / num(-3.0), raw(-1431655766));
    assert_eq!(num(-1.0) / num(-3.0), raw(1431655765));
    assert_eq!(Scalar::one() / raw(1), raw(i64::MAX));
    assert_eq!(Scalar::one() / raw(-1), raw(i64::MIN));
    assert_eq!(Scalar::zero() / num(7.0), raw(0));
}

#[test]
fn ratios_and_whole_numbers() {
    assert_eq!(Scalar::from_index(0), raw(0));
    assert_eq!(Scalar::from_index(7), num(7.0));
    assert_eq!(Scalar::from_index(usize::MAX), raw(i64::MAX));
    assert_eq!(Scalar::from_ratio(1, 2), num(0.5));
    assert_eq!(Scalar::from_ratio(1, 3), raw(1431655765));
    assert_eq!(Scalar::from_ratio(0, 49), raw(0));
    assert_eq!(Scalar::from_ratio(49, 49), Scalar::one());
    assert_eq!(Scalar::from_ratio(usize::MAX, 1), raw(i64::MAX));
}

#[test]
fn rounding_to_indices() {
    assert_eq!(num(2.75).floor_index(), 2);
    assert_eq!(num(2.75).ceil_index(), 3);
    assert_eq!(num(2.75).round_index(), 3);
    assert_eq!(num(2.5).round_index(), 3);
    assert_eq!(num(2.25).round_index(), 2);
    assert_eq!(num(2.0).floor_index(), 2);
    assert_eq!(num(2.0).ceil_index(), 2);
    assert_eq!(num(-0.25).floor_index(), 0);
    assert_eq!(num(-0.25).ceil_index(), 0);
    assert_eq!(num(-3.5).round_index(), 0);
    assert_eq!(raw(1).ceil_index(), 1);
    assert_eq!(num(2.75).floor(), num(2.0));
    assert_eq!(num(-2.75).floor(), num(-3.0));
    assert_eq!(num(5.0).floor(), num(5.0));
}

#[test]
fn scaling_to_pixels() {
    assert_eq!(num(0.5).scale_floor(10), 5);
    assert_eq!(num(0.55).scale_floor(10), 5);
    assert_eq!(num(0.6).scale_floor(10), 5);
    assert_eq!(Scalar::one().scale_floor(10), 10);
    assert_eq!(Scalar::zero().scale_floor(10), 0);
    assert_eq!(num(-0.5).scale_floor(10), 0);
    assert_eq!(raw(ONE - 1).scale_floor(10), 9);
    assert_eq!(raw(i64::MAX).scale_floor(usize::MAX), usize::MAX);
    assert_eq!(Scalar::one().scale_floor(usize::MAX), usize::MAX);
    assert_eq!(num(0.5).scale_floor(0), 0);
}

#[test]
fn least_greatest_and_clamping() {
    assert_eq!(num(1.0).min(num(2.0)), num(1.0));
    assert_eq!(num(1.0).max(num(2.0)), num(2.0));
    assert_eq!(num(-5.0).clamp(num(-1.0), num(1.0)), num(-1.0));
    assert_eq!(num(5.0).clamp(num(-1.0), num(1.0)), num(1.0));
    assert_eq!(num(0.5).clamp(num(-1.0), num(1.0)), num(0.5));
    assert_eq!(num(-5.0).clamp_unit(), num(0.0));
    assert_eq!(num(5.0).clamp_unit(), num(1.0));
    assert_eq!(num(0.25).clamp_unit(), num(0.25));
}

#[test]
fn square_roots_round_down() {
    assert_eq!(num(4.0).sqrt(), num(2.0));
    assert_eq!(num(0.25).sqrt(), num(0.5));
    assert_eq!(num(0.0).sqrt(), num(0.0));
    assert_eq!(num(2.0).sqrt(), raw(6074000999));
    for r in [1i64, 2, 3, 1000, ONE - 1, ONE + 1, 123456789012, i64::MAX] {
        let root = raw(r).sqrt().raw as u128;
        let v = (r as u128) << 32;
        assert!(root * root <= v && v < (root + 1) * (root + 1));
    }
}

#[test]
fn sorting_orders_and_keeps_every_number() {
    let v = vec![num(0.5), num(-1.0), num(0.5), raw(i64::MAX), num(0.25), raw(i64::MIN)];
    assert_eq!(
        sorted_ascending(&v),
        vec![raw(i64::MIN), num(-1.0), num(0.25), num(0.5), num(0.5), raw(i64::MAX)]
    );
    assert_eq!(sorted_ascending(&Vec::new()), Vec::<Scalar>::new());
    assert_eq!(sorted_ascending(&vec![num(3.0)]), vec![num(3.0)]);
}
