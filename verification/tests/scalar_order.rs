use voxel_blocks::scalar::{Scalar, INFINITY_BITS, SIGN_BIT};

fn scalar(value: f32) -> Scalar {
    Scalar::from_bits(value.to_bits())
}

fn number(s: Scalar) -> f32 {
    f32::from_bits(s.to_bits())
}

fn samples() -> Vec<f32> {
    vec![
        0.0,
        -0.0,
        1.0,
        -1.0,
        0.5,
        2.5,
        3.5,
        5.0,
        9.5,
        -9.5,
        0.02,
        f32::MIN_POSITIVE,
        -f32::MIN_POSITIVE,
        f32::from_bits(1),
        f32::from_bits(0x8000_0001),
        f32::from_bits(0x007F_FFFF),
        f32::MAX,
        f32::MIN,
        f32::INFINITY,
        f32::NEG_INFINITY,
        f32::NAN,
        -f32::NAN,
        f32::from_bits(0x7F80_0001),
        f32::from_bits(0xFF80_0001),
        f32::from_bits(0x7FFF_FFFF),
        f32::from_bits(0xFFFF_FFFF),
    ]
}

fn same(a: f32, b: f32) -> bool {
    if a.is_nan() {
        b.is_nan()
    } else {
        a == b
    }
}

fn check_pair(a: f32, b: f32) {
    let (sa, sb) = (scalar(a), scalar(b));
    assert_eq!(sa.lt(sb), a < b, "{a:?} < {b:?}");
    assert_eq!(sa.le(sb), a <= b, "{a:?} <= {b:?}");
    assert_eq!(sa.gt(sb), a > b, "{a:?} > {b:?}");
    assert_eq!(sa.ge(sb), a >= b, "{a:?} >= {b:?}");
    assert!(same(number(sa.min(sb)), a.min(b)), "min({a:?}, {b:?})");
    assert!(same(number(sa.max(sb)), a.max(b)), "max({a:?}, {b:?})");
}

#[test]
fn comparisons_agree_with_the_hardware_on_samples() {
    let values = samples();
    for &a in &values {
        for &b in &values {
            check_pair(a, b);
        }
    }
}

#[test]
fn comparisons_agree_with_the_hardware_on_a_sweep() {
    let mut state: u64 = 0x2545_F491_4F6C_DD1D;
    let mut next = move || {
        state ^= state << 13;
        state ^= state >> 7;
        state ^= state << 17;
        (state >> 16) as u32
    };
    for _ in 0..200_000 {
        let a = f32::from_bits(next());
        let b = f32::from_bits(next());
        check_pair(a, b);
        check_pair(a, -a);
        check_pair(a, a);
    }
}

#[test]
fn nan_is_told_by_the_magnitude() {
    for &value in &samples() {
        assert_eq!(scalar(value).is_nan(), value.is_nan(), "{value:?}");
    }
    assert!(!Scalar::from_bits(INFINITY_BITS).is_nan());
    assert!(Scalar::from_bits(INFINITY_BITS + 1).is_nan());
    assert!(!Scalar::from_bits(SIGN_BIT | INFINITY_BITS).is_nan());
    assert!(Scalar::from_bits((SIGN_BIT | INFINITY_BITS) + 1).is_nan());
    assert_eq!(f32::from_bits(INFINITY_BITS), f32::INFINITY);
    assert_eq!(f32::from_bits(SIGN_BIT), -0.0);
}

#[test]
fn ordinal_is_the_signed_magnitude() {
    assert_eq!(scalar(0.0).ordinal(), 0);
    assert_eq!(scalar(-0.0).ordinal(), 0);
    assert_eq!(scalar(1.0).ordinal(), 0x3F80_0000);
    assert_eq!(scalar(-1.0).ordinal(), -0x3F80_0000);
    assert_eq!(scalar(f32::INFINITY).ordinal(), 0x7F80_0000);
    assert_eq!(scalar(f32::NEG_INFINITY).ordinal(), -0x7F80_0000);
    assert_eq!(Scalar::from_bits(1).ordinal(), 1);
    assert_eq!(Scalar::from_bits(0x8000_0001).ordinal(), -1);
    assert_eq!(Scalar::from_bits(u32::MAX).ordinal(), -0x7FFF_FFFF);
}

#[test]
fn zero_is_positive_zero() {
    assert_eq!(Scalar::zero().to_bits(), 0);
    assert_eq!(number(Scalar::zero()), 0.0);
    assert!(number(Scalar::zero()).is_sign_positive());
}

#[test]
fn the_two_zeros_are_equal() {
    let (plus, minus) = (scalar(0.0), scalar(-0.0));
    assert!(!plus.lt(minus));
    assert!(!minus.lt(plus));
    assert!(plus.le(minus));
    assert!(minus.le(plus));
    assert!(plus.ge(minus));
    assert!(minus.ge(plus));
}

#[test]
fn min_and_max_pass_over_a_nan() {
    let nan = scalar(f32::NAN);
    let one = scalar(1.0);
    assert_eq!(nan.min(one).to_bits(), one.to_bits());
    assert_eq!(one.min(nan).to_bits(), one.to_bits());
    assert_eq!(nan.max(one).to_bits(), one.to_bits());
    assert_eq!(one.max(nan).to_bits(), one.to_bits());
    assert!(nan.min(nan).is_nan());
    assert!(nan.max(nan).is_nan());
}

#[test]
fn min_and_max_take_the_first_of_equals() {
    let (plus, minus) = (scalar(0.0), scalar(-0.0));
    assert_eq!(plus.min(minus).to_bits(), plus.to_bits());
    assert_eq!(minus.min(plus).to_bits(), minus.to_bits());
    assert_eq!(plus.max(minus).to_bits(), plus.to_bits());
    assert_eq!(minus.max(plus).to_bits(), minus.to_bits());
}
