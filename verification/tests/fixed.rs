use router::types::fixed::{Fixed, Fixed6D32};

/// The value with six decimal places that `Fixed6D32::from_f32` gives.
fn from_f32(value: f32) -> Fixed6D32 {
    Fixed((value * 1_000_000f32) as i32)
}

#[test]
fn test_display() {
    assert_eq!("-1230.000000", from_f32(-1230.).to_string());
    assert_eq!("-123.000000", from_f32(-123.).to_string());
    assert_eq!("-12.300000", from_f32(-12.3).to_string());
    assert_eq!("-1.230000", from_f32(-1.23).to_string());
    assert_eq!("-0.123000", from_f32(-0.123).to_string());
    assert_eq!("-0.012300", from_f32(-0.0123).to_string());
    assert_eq!("-0.001230", from_f32(-0.00123).to_string());
    assert_eq!("-0.000123", from_f32(-0.000123).to_string());
    assert_eq!("-0.000012", from_f32(-0.0000123).to_string());
    assert_eq!("-0.000001", from_f32(-0.00000123).to_string());
    assert_eq!("0.000000", from_f32(-0.000000123).to_string());
    assert_eq!("1230.000000", from_f32(1230.).to_string());
    assert_eq!("123.000000", from_f32(123.).to_string());
    assert_eq!("12.300000", from_f32(12.3).to_string());
    assert_eq!("1.230000", from_f32(1.23).to_string());
    assert_eq!("0.123000", from_f32(0.123).to_string());
    assert_eq!("0.012300", from_f32(0.0123).to_string());
    assert_eq!("0.001230", from_f32(0.00123).to_string());
    assert_eq!("0.000123", from_f32(0.000123).to_string());
    assert_eq!("0.000012", from_f32(0.0000123).to_string());
    assert_eq!("0.000001", from_f32(0.00000123).to_string());
    assert_eq!("0.000000", from_f32(0.000000123).to_string());
}

#[test]
fn display_without_fraction_digits() {
    assert_eq!("123.", Fixed::<0>(123).to_string());
    assert_eq!("-7.", Fixed::<0>(-7).to_string());
    assert_eq!("0.00000000000000000000000042", Fixed::<26>(42).to_string());
    assert_eq!("-2147483.648", Fixed::<3>(i32::MIN).to_string());
}

#[test]
fn convert_moves_the_point() {
    assert_eq!(Fixed::<6>(12_000_000).convert::<3>(), Fixed::<3>(12_000));
    assert_eq!(Fixed::<3>(12_000).convert::<6>(), Fixed::<6>(12_000_000));
    assert_eq!(Fixed::<0>(5).convert::<2>(), Fixed::<2>(500));
    assert_eq!(Fixed::<6>(0).convert::<2>(), Fixed::<2>::zero());
}

#[test]
fn convert_keeps_fraction_units() {
    // The fractional units are added to the rescaled integer part as they stand.
    assert_eq!(Fixed::<6>(1_500_000).convert::<3>(), Fixed::<3>(501_000));
    assert_eq!(Fixed::<6>(-1_500_000).convert::<3>(), Fixed::<3>(-499_000));
    assert_eq!(Fixed::<2>(-5).convert::<4>(), Fixed::<4>(-5));
}
