use threed_test::fixed::{Fx, FX_ONE};

#[test]
fn from_int_scales_by_the_unit() {
    assert_eq!(Fx::from_int(3).raw, 3 * FX_ONE);
    assert_eq!(Fx::from_int(-2).raw, -2 * FX_ONE);
    assert_eq!(Fx::from_int(0).raw, 0);
}

#[test]
fn from_int_saturates_out_of_range() {
    assert_eq!(Fx::from_int(10_000_000_000).raw, i64::MAX);
    assert_eq!(Fx::from_int(-10_000_000_000).raw, i64::MIN);
}

#[test]
fn add_and_sub_are_exact_in_range() {
    let a = Fx::from_int(5);
    let b = Fx::from_int(3);
    assert_eq!(a.add(b).raw, 8 * FX_ONE);
    assert_eq!(a.sub(b).raw, 2 * FX_ONE);
    assert_eq!(b.sub(a).raw, -2 * FX_ONE);
}

#[test]
fn add_saturates_at_the_bounds() {
    assert_eq!(Fx::from_raw(i64::MAX).add(Fx::from_raw(1)).raw, i64::MAX);
    assert_eq!(Fx::from_raw(i64::MIN).add(Fx::from_raw(-1)).raw, i64::MIN);
    assert_eq!(Fx::from_raw(i64::MIN).sub(Fx::from_raw(1)).raw, i64::MIN);
}

#[test]
fn neg_of_the_minimum_saturates() {
    assert_eq!(Fx::from_raw(i64::MIN).neg().raw, i64::MAX);
    assert_eq!(Fx::from_int(4).neg().raw, -4 * FX_ONE);
}

#[test]
fn mul_is_exact_on_small_integers() {
    assert_eq!(Fx::from_int(3).mul(Fx::from_int(4)).raw, 12 * FX_ONE);
    assert_eq!(Fx::from_int(-3).mul(Fx::from_int(4)).raw, -12 * FX_ONE);
}

#[test]
fn mul_saturates_on_large_products() {
    assert_eq!(Fx::from_int(3_000_000).mul(Fx::from_int(3_000_000)).raw, i64::MAX);
    assert_eq!(Fx::from_int(-3_000_000).mul(Fx::from_int(3_000_000)).raw, i64::MIN);
}

#[test]
fn mul_truncates_toward_zero() {
    // -3 * 2^-40 times one half is -1.5 * 2^-40, truncated to -1 * 2^-40.
    assert_eq!(Fx::from_raw(-3).mul(Fx::from_raw(FX_ONE / 2)).raw, -1);
    assert_eq!(Fx::from_raw(3).mul(Fx::from_raw(FX_ONE / 2)).raw, 1);
}

#[test]
fn div_is_exact_on_powers_of_two() {
    assert_eq!(Fx::from_int(1).div(Fx::from_int(4)).raw, FX_ONE / 4);
    assert_eq!(Fx::from_int(-1).div(Fx::from_int(4)).raw, -(FX_ONE / 4));
}

#[test]
fn div_truncates_thirds() {
    assert_eq!(Fx::from_int(1).div(Fx::from_int(3)).raw, 366_503_875_925);
    assert_eq!(Fx::from_int(-1).div(Fx::from_int(3)).raw, -366_503_875_925);
    assert_eq!(Fx::from_int(1).div(Fx::from_int(-3)).raw, -366_503_875_925);
}

#[test]
fn sqrt_of_perfect_squares_is_exact() {
    assert_eq!(Fx::from_int(49).sqrt().raw, 7 * FX_ONE);
    assert_eq!(Fx::from_int(0).sqrt().raw, 0);
    assert_eq!(Fx::from_int(1).sqrt().raw, FX_ONE);
}

#[test]
fn sqrt_of_two_is_the_floored_root() {
    assert_eq!(Fx::from_int(2).sqrt().raw, 1_554_944_255_987);
    let r = Fx::from_int(2).sqrt().raw as f64 / FX_ONE as f64;
    assert!((r - std::f64::consts::SQRT_2).abs() < 1e-9);
}

#[test]
fn is_positive_looks_at_the_sign() {
    assert!(Fx::from_raw(1).is_positive());
    assert!(!Fx::from_raw(0).is_positive());
    assert!(!Fx::from_raw(-1).is_positive());
}
