use quake_inverse_sqrt::{Binary32, Binary64, QSqrt, QSqrtError};

fn single(x: f32) -> Binary32 {
    Binary32 { bits: x.to_bits() }
}

fn double(x: f64) -> Binary64 {
    Binary64 { bits: x.to_bits() }
}

fn value(b: Binary32) -> f32 {
    f32::from_bits(b.bits)
}

#[test]
fn f32_input() {
    let x: f32 = 4.;
    let res = value(single(x).fast_inverse_sqrt_unchecked());
    assert!(res > 0.49 && res < 0.51);
}

#[test]
fn f64_input() {
    let x: f64 = 4.;
    let res = value(double(x).fast_inverse_sqrt_unchecked());
    assert!(res > 0.49 && res < 0.51);
}

#[test]
fn u64_input() {
    let x: u64 = 4;
    let res = value(x.fast_inverse_sqrt_unchecked());
    assert!(res > 0.49 && res < 0.51);
}

#[test]
fn u32_input() {
    let x: u32 = 4;
    let res = value(x.fast_inverse_sqrt_unchecked());
    assert!(res > 0.49 && res < 0.51);
}

#[test]
fn u16_input() {
    let x: u16 = 4;
    let res = value(x.fast_inverse_sqrt_unchecked());
    assert!(res > 0.49 && res < 0.51);
}

#[test]
fn u8_input() {
    let x: i8 = 4;
    let res = value(x.fast_inverse_sqrt_unchecked());
    assert!(res > 0.49 && res < 0.51);
}

#[test]
fn i64_input() {
    let x: i64 = 4;
    let res = value(x.fast_inverse_sqrt_unchecked());
    assert!(res > 0.49 && res < 0.51);
}

#[test]
fn i32_input() {
    let x: i32 = 4;
    let res = value(x.fast_inverse_sqrt_unchecked());
    assert!(res > 0.49 && res < 0.51);
}

#[test]
fn i16_input() {
    let x: i16 = 4;
    let res = value(x.fast_inverse_sqrt_unchecked());
    assert!(res > 0.49 && res < 0.51);
}

#[test]
fn i8_input() {
    let x: i8 = 4;
    let res = value(x.fast_inverse_sqrt_unchecked());
    assert!(res > 0.49 && res < 0.51);
}

#[test]
fn unsigned_byte_and_pointer_sized_inputs() {
    let a: u8 = 4;
    let b: usize = 4;
    let c: isize = 4;
    for res in [
        value(a.fast_inverse_sqrt_unchecked()),
        value(b.fast_inverse_sqrt_unchecked()),
        value(c.fast_inverse_sqrt_unchecked()),
    ] {
        assert!(res > 0.49 && res < 0.51);
    }
}

#[test]
fn four_gives_the_known_pattern() {
    assert_eq!(single(4.0).fast_inverse_sqrt().unwrap().bits, 0x3eff910f);
    assert_eq!(value(single(4.0).fast_inverse_sqrt().unwrap()), 0.49915358);
}

#[test]
fn one_is_close_to_one() {
    let res = value(single(1.0).fast_inverse_sqrt_unchecked());
    assert!(res > 0.95 && res < 1.05);
    assert_eq!(single(1.0).fast_inverse_sqrt_unchecked().bits, 0x3f7f910f);
}

#[test]
fn binary32_max_as_double_succeeds() {
    let x = double(f32::MAX as f64);
    assert_eq!(x.bits, quake_inverse_sqrt::binary64::BINARY32_MAX_AS_BINARY64);
    assert!(x.in_binary32_range());
    let res = x.fast_inverse_sqrt();
    assert!(res.is_ok());
    assert_eq!(res.unwrap(), single(f32::MAX).fast_inverse_sqrt().unwrap());
}

#[test]
fn binary32_min_as_double_succeeds() {
    let x = double(f32::MIN as f64);
    assert!(x.in_binary32_range());
    assert!(x.fast_inverse_sqrt().is_ok());
}

#[test]
fn beyond_binary32_max_overflows() {
    let x = double(f32::MAX as f64 * 2.0);
    assert!(!x.in_binary32_range());
    assert!(matches!(x.fast_inverse_sqrt(), Err(QSqrtError::Overflow)));
    let y = double(-(f32::MAX as f64) * 2.0);
    assert!(matches!(y.fast_inverse_sqrt(), Err(QSqrtError::Overflow)));
}

#[test]
fn next_double_after_binary32_max_overflows() {
    let x = Binary64 { bits: (f32::MAX as f64).to_bits() + 1 };
    assert!(matches!(x.fast_inverse_sqrt(), Err(QSqrtError::Overflow)));
}

#[test]
fn double_infinity_and_nan_overflow() {
    assert!(matches!(double(f64::INFINITY).fast_inverse_sqrt(), Err(QSqrtError::Overflow)));
    assert!(matches!(double(f64::NEG_INFINITY).fast_inverse_sqrt(), Err(QSqrtError::Overflow)));
    assert!(matches!(double(f64::NAN).fast_inverse_sqrt(), Err(QSqrtError::Overflow)));
}

#[test]
fn integers_follow_the_binary32_path() {
    let four = single(4.0).fast_inverse_sqrt().unwrap();
    let one = single(1.0).fast_inverse_sqrt().unwrap();
    assert_eq!(4u8.fast_inverse_sqrt().unwrap(), four);
    assert_eq!(4u16.fast_inverse_sqrt().unwrap(), four);
    assert_eq!(4u32.fast_inverse_sqrt().unwrap(), four);
    assert_eq!(4u64.fast_inverse_sqrt().unwrap(), four);
    assert_eq!(4usize.fast_inverse_sqrt().unwrap(), four);
    assert_eq!(4i8.fast_inverse_sqrt().unwrap(), four);
    assert_eq!(4i16.fast_inverse_sqrt().unwrap(), four);
    assert_eq!(4i32.fast_inverse_sqrt().unwrap(), four);
    assert_eq!(4i64.fast_inverse_sqrt().unwrap(), four);
    assert_eq!(4isize.fast_inverse_sqrt().unwrap(), four);
    assert_eq!(1u8.fast_inverse_sqrt().unwrap(), one);
    assert_eq!(1u16.fast_inverse_sqrt().unwrap(), one);
    assert_eq!(1u32.fast_inverse_sqrt().unwrap(), one);
    assert_eq!(1u64.fast_inverse_sqrt().unwrap(), one);
    assert_eq!(1usize.fast_inverse_sqrt().unwrap(), one);
    assert_eq!(1i8.fast_inverse_sqrt().unwrap(), one);
    assert_eq!(1i16.fast_inverse_sqrt().unwrap(), one);
    assert_eq!(1i32.fast_inverse_sqrt().unwrap(), one);
    assert_eq!(1i64.fast_inverse_sqrt().unwrap(), one);
    assert_eq!(1isize.fast_inverse_sqrt().unwrap(), one);
}

#[test]
fn double_follows_the_binary32_path() {
    for x in [0.5f64, 1.0, 2.0, 4.0, 10.0, 100.0, 1e6, 0.1, 3.3333333333, 1e-40, 1e38] {
        assert_eq!(
            double(x).fast_inverse_sqrt().unwrap(),
            single(x as f32).fast_inverse_sqrt().unwrap()
        );
    }
}

#[test]
fn relative_error_is_below_two_percent() {
    for x in [0.5f32, 1.0, 2.0, 4.0, 10.0, 100.0, 1e6] {
        let exact = 1.0 / (x as f64).sqrt();
        let approx = value(single(x).fast_inverse_sqrt().unwrap()) as f64;
        assert!(((approx - exact) / exact).abs() < 0.02);
    }
}

#[test]
fn applying_twice_does_not_give_the_input_back() {
    let once = single(4.0).fast_inverse_sqrt().unwrap();
    let twice = once.fast_inverse_sqrt().unwrap();
    assert_ne!(twice, single(4.0));
    assert!((value(twice) - 1.4142135).abs() < 0.02 * 1.4142135);
}

#[test]
fn checked_and_unchecked_agree() {
    for bits in [0x0000_0001u32, 0x3f80_0000, 0x4080_0000, 0x7f7f_ffff, 0x0080_0000] {
        let x = Binary32 { bits };
        assert_eq!(x.fast_inverse_sqrt_unchecked(), x.fast_inverse_sqrt().unwrap());
    }
    let d = double(123.456);
    assert_eq!(d.fast_inverse_sqrt_unchecked(), d.fast_inverse_sqrt().unwrap());
}

#[test]
fn zero_gives_a_finite_result() {
    let res = value(single(0.0).fast_inverse_sqrt().unwrap());
    assert!(res.is_finite());
    assert_eq!(res, f32::from_bits(0x5f37_59df) * 1.5);
}

#[test]
fn relative_error_is_below_two_percent_on_a_normal_sweep() {
    let mut bits = 0x0080_0000u32;
    let mut worst = 0.0f64;
    while bits <= 0x7f7f_ffff {
        let x = f32::from_bits(bits);
        let exact = 1.0 / (x as f64).sqrt();
        let approx = value(Binary32 { bits }.fast_inverse_sqrt().unwrap()) as f64;
        let error = ((approx - exact) / exact).abs();
        assert!(error < 0.02, "{:#x}", bits);
        if error > worst {
            worst = error;
        }
        bits += 0x1_0001;
    }
    assert!(worst < 0.002);
}

#[test]
fn results_stay_between_the_proved_patterns() {
    assert_eq!(single(0.0).fast_inverse_sqrt().unwrap().bits, 0x5f89_8367);
    let mut bits = 0u32;
    while bits <= 0x7f7f_ffff {
        let r = Binary32 { bits }.fast_inverse_sqrt().unwrap().bits;
        assert!(0x1ef7_59e0 <= r && r <= 0x5f89_8367, "{:#x}", bits);
        bits += 0x7_0003;
    }
    let last = Binary32 { bits: 0x7f7f_ffff }.fast_inverse_sqrt().unwrap().bits;
    assert!(0x1ef7_59e0 <= last && last <= 0x5f89_8367);
}

#[test]
fn smallest_subnormal_is_far_from_its_inverse_square_root() {
    let x = f32::from_bits(1);
    let approx = value(single(x).fast_inverse_sqrt().unwrap()) as f64;
    let exact = 1.0 / (x as f64).sqrt();
    assert!(approx.is_finite() && approx > 0.0);
    assert!(((approx - exact) / exact).abs() > 0.9);
}

#[test]
fn negative_inputs_do_not_fail() {
    for x in [-0.0f32, -0.1, -1.0, -4.0, f32::MIN, f32::NEG_INFINITY] {
        assert!(single(x).fast_inverse_sqrt().is_ok());
    }
    for n in [-1i8, -4, i8::MIN] {
        assert!(n.fast_inverse_sqrt().is_ok());
    }
    assert!(i64::MIN.fast_inverse_sqrt().is_ok());
    assert!(single(f32::NAN).fast_inverse_sqrt().is_ok());
    assert!(value(single(f32::NAN).fast_inverse_sqrt().unwrap()).is_nan());
}
