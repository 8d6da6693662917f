//! Exactness of the fixed-point arithmetic.

use raytracer::fx::{Fx, MAX_BITS, SCALE};

#[test]
fn add_and_sub_are_exact() {
    assert_eq!(Fx::from_int(3).add(Fx::from_int(4)).bits, 7 * SCALE);
    assert_eq!(Fx::from_int(3).sub(Fx::from_int(4)).bits, -SCALE);
    assert_eq!(Fx::from_int(-2).neg().bits, 2 * SCALE);
}

#[test]
fn add_saturates_at_the_magnitude_bound() {
    let big = Fx::from_bits(i64::MAX);
    assert_eq!(big.add(big).bits, MAX_BITS);
    assert_eq!(big.neg().add(big.neg()).bits, -MAX_BITS);
}

#[test]
fn mul_scales_and_floors() {
    let one_and_half = Fx::from_bits(3 * SCALE / 2);
    assert_eq!(one_and_half.mul(Fx::from_int(2)).bits, 3 * SCALE);
    // One ulp squared floors to zero; floor rounding goes toward minus
    // infinity on negatives.
    assert_eq!(Fx::from_bits(1).mul(Fx::from_bits(1)).bits, 0);
    assert_eq!(Fx::from_bits(-1).mul(Fx::from_bits(1)).bits, -1);
}

#[test]
fn div_floors_and_division_by_zero_is_zero() {
    assert_eq!(Fx::one().div(Fx::from_int(3)).bits, 21845);
    assert_eq!(Fx::from_int(-1).div(Fx::from_int(3)).bits, -21846);
    assert_eq!(Fx::from_int(5).div(Fx::zero()).bits, 0);
}

#[test]
fn sqrt_is_the_floored_root() {
    assert_eq!(Fx::from_int(4).sqrt().bits, 2 * SCALE);
    assert_eq!(Fx::from_int(2).sqrt().bits, 92681);
    assert_eq!(Fx::zero().sqrt().bits, 0);
    assert_eq!(Fx::from_int(-3).sqrt().bits, 0);
}

#[test]
fn pow_handles_whole_and_fractional_exponents() {
    assert_eq!(Fx::from_int(2).pow(Fx::from_int(10)).bits, 1024 * SCALE);
    assert_eq!(Fx::from_int(5).pow(Fx::zero()).bits, SCALE);
    // 4^(1/2) is exact.
    assert_eq!(Fx::from_int(4).pow(Fx::from_bits(SCALE / 2)).bits, 2 * SCALE);
    // 0^t is zero for positive t and one at t = 0.
    assert_eq!(Fx::zero().pow(Fx::from_int(3)).bits, 0);
    assert_eq!(Fx::zero().pow(Fx::from_bits(SCALE / 2)).bits, 0);
    assert_eq!(Fx::zero().pow(Fx::zero()).bits, SCALE);
}

#[test]
fn min_max_abs() {
    let a = Fx::from_int(-3);
    let b = Fx::from_int(2);
    assert_eq!(a.min(b).bits, -3 * SCALE);
    assert_eq!(a.max(b).bits, 2 * SCALE);
    assert_eq!(a.abs().bits, 3 * SCALE);
    assert_eq!(b.abs().bits, 2 * SCALE);
}
