use satslinker::qty::{E8s, Quantity, TCycles, pow10_u128};

#[test]
fn raw_units_round_trip() {
    let q: E8s = Quantity::new(123);
    assert_eq!(q.units, 123);
    let z: E8s = Quantity::zero();
    assert!(z.is_zero());
    let f: E8s = Quantity::from_u64(42);
    assert_eq!(f.units, 42);
}

#[test]
fn addition_is_exact() {
    let a: E8s = Quantity::new(100_000_000);
    let b: E8s = Quantity::new(23);
    assert_eq!(a.plus(b).units, 100_000_023);
}

#[test]
fn subtraction_saturates_at_zero() {
    let a: E8s = Quantity::new(5);
    let b: E8s = Quantity::new(8);
    assert_eq!(b.saturating_minus(a).units, 3);
    assert_eq!(a.saturating_minus(b).units, 0);
}

#[test]
fn scalar_multiply_divide() {
    let a: E8s = Quantity::new(1000);
    assert_eq!(a.times(3).units, 3000);
    assert_eq!(a.divided_by(7).units, 142);
}

#[test]
fn fixed_point_multiplication() {
    // 2.0 * 3.5 == 7.0 at 8 fractional digits
    let a: E8s = Quantity::new(200_000_000);
    let b: E8s = Quantity::new(350_000_000);
    assert_eq!(a.fixed_mul(b).units, 700_000_000);
}

#[test]
fn fixed_point_division_truncates() {
    // 1.0 / 3.0 == 0.33333333 at 8 fractional digits
    let a: E8s = Quantity::new(100_000_000);
    let b: E8s = Quantity::new(300_000_000);
    assert_eq!(a.fixed_div(b).units, 33_333_333);
}

#[test]
fn prorate_keeps_full_precision_before_dividing() {
    let pool: E8s = Quantity::new(1_000);
    let share: E8s = Quantity::new(1);
    let total: E8s = Quantity::new(3);
    assert_eq!(pool.prorate(share, total).units, 333);
}

#[test]
fn rescale_up_is_exact_down_truncates() {
    let a: E8s = Quantity::new(25_000_000_000);
    let up: TCycles = a.rescale::<12>();
    assert_eq!(up.units, 250_000_000_000_000);
    let t: TCycles = Quantity::new(25_000_000_999);
    let down: E8s = t.rescale::<8>();
    assert_eq!(down.units, 2_500_000);
}

#[test]
fn powers_of_ten() {
    assert_eq!(pow10_u128(0), 1);
    assert_eq!(pow10_u128(8), 100_000_000);
    assert_eq!(pow10_u128(12), 1_000_000_000_000);
}
