use llua::intconv::{from_unsigned, wrap_i16, wrap_i32, wrap_i8, wrap_isize, wrap_u16, wrap_u32, wrap_u64, wrap_u8, wrap_usize};
use llua::number::{from_integer, high_bit, is_nan, is_zero, pow2_u64, saturate, saturate_unsigned, to_integer, truncate, Truncated};

const SAMPLES: [f64; 40] = [
    0.0, -0.0, 1.0, -1.0, 0.5, -0.5, 0.999999, 1.000001, 2.5, -2.5, 3.0, 1e15, 1e16, 1e17, 1e18, 1e19,
    -1e19, 9223372036854775807.0, -9223372036854775808.0, 9223372036854774784.0, 18446744073709551615.0,
    18446744073709549568.0, 4503599627370496.0, 4503599627370497.0, 9007199254740992.0,
    9007199254740994.0, 1e-300, 5e-324, 2.2250738585072014e-308, 1.7976931348623157e308, f64::INFINITY,
    f64::NEG_INFINITY, f64::NAN, 123456789.125, -123456789.875, 65535.5, 65536.0, 4294967295.9,
    2147483647.5, -2147483648.5,
];

#[test]
fn truncation_agrees_with_the_machine() {
    for x in SAMPLES {
        let b = x.to_bits();
        assert_eq!(is_nan(b), x.is_nan(), "{x}");
        assert_eq!(is_zero(b), x == 0.0, "{x}");
        assert_eq!(saturate(b, i64::MIN, i64::MAX), x as i64, "{x}");
        assert_eq!(saturate(b, i32::MIN as i64, i32::MAX as i64), x as i32 as i64, "{x}");
        assert_eq!(saturate(b, i8::MIN as i64, i8::MAX as i64), x as i8 as i64, "{x}");
        assert_eq!(saturate_unsigned(b, u64::MAX), x as u64, "{x}");
        assert_eq!(saturate_unsigned(b, u16::MAX as u64), x as u16 as u64, "{x}");
        match truncate(b) {
            Truncated::NotANumber => assert!(x.is_nan()),
            Truncated::Huge { negative } => {
                assert!(x.abs() >= 18446744073709551616.0);
                assert_eq!(negative, x < 0.0);
            },
            Truncated::Finite { negative, magnitude, exact } => {
                assert_eq!(negative, x.is_sign_negative());
                assert_eq!(magnitude, x.abs() as u64);
                assert_eq!(exact, x.fract() == 0.0);
            },
        }
    }
}

#[test]
fn exact_integers() {
    for x in SAMPLES {
        let expected = if x.is_finite() && x.fract() == 0.0 && x >= -9223372036854775808.0 && x < 9223372036854775808.0 {
            Some(x as i64)
        } else {
            None
        };
        assert_eq!(to_integer(x.to_bits()), expected, "{x}");
    }
    assert_eq!(to_integer(3.0f64.to_bits()), Some(3));
    assert_eq!(to_integer((-0.0f64).to_bits()), Some(0));
    assert_eq!(to_integer(3.25f64.to_bits()), None);
    assert_eq!(to_integer((-9223372036854775808.0f64).to_bits()), Some(i64::MIN));
    assert_eq!(to_integer(9223372036854775808.0f64.to_bits()), None);
}

#[test]
fn integers_become_the_nearest_float() {
    let mut samples: Vec<i64> = vec![
        0, 1, -1, 2, 3, 255, 256, 1 << 52, (1 << 52) + 1, (1 << 53) - 1, 1 << 53, (1 << 53) + 1,
        (1 << 53) + 2, (1 << 53) + 3, (1 << 54) + 1, (1 << 54) + 2, (1 << 54) + 3, (1 << 54) + 5,
        (1 << 54) + 6, (1 << 54) + 7, i64::MAX, i64::MAX - 1, i64::MAX - 511, i64::MAX - 512,
        i64::MAX - 513, i64::MIN, i64::MIN + 1, i64::MIN + 1023, 0x7fff_ffff_ffff_fbff,
        0x7fff_ffff_ffff_fc00, 0x7fff_ffff_ffff_fdff, 0x7fff_ffff_ffff_fe00, 1234567890123456789,
        -1234567890123456789, 0x001f_ffff_ffff_ffff, 0x003f_ffff_ffff_ffff, 0x0040_0000_0000_0001,
    ];
    for shift in 0..63 {
        samples.push(1i64 << shift);
        samples.push((1i64 << shift) + 1);
        samples.push((1i64 << shift) - 1);
        samples.push(-(1i64 << shift));
        samples.push(3i64 << shift.min(61));
    }
    for n in samples {
        assert_eq!(from_integer(n), (n as f64).to_bits(), "{n}");
    }
}

#[test]
fn powers_and_high_bits() {
    assert_eq!(pow2_u64(0), 1);
    assert_eq!(pow2_u64(10), 1024);
    assert_eq!(pow2_u64(63), 1 << 63);
    assert_eq!(high_bit(1), 0);
    assert_eq!(high_bit(2), 1);
    assert_eq!(high_bit(3), 1);
    assert_eq!(high_bit(1 << 40), 40);
    assert_eq!(high_bit(u64::MAX), 63);
}

#[test]
fn wrapping_agrees_with_the_machine() {
    for n in [0i64, 1, -1, 127, 128, -128, -129, 255, 256, 32767, 32768, -32769, 65535, 65536, i32::MAX as i64, i32::MAX as i64 + 1, i32::MIN as i64 - 1, u32::MAX as i64, u32::MAX as i64 + 1, i64::MAX, i64::MIN, 0x1234_5678_9abc_def0] {
        assert_eq!(wrap_i8(n), n as i8, "{n}");
        assert_eq!(wrap_i16(n), n as i16, "{n}");
        assert_eq!(wrap_i32(n), n as i32, "{n}");
        assert_eq!(wrap_isize(n), n as isize, "{n}");
        assert_eq!(wrap_u8(n), n as u8, "{n}");
        assert_eq!(wrap_u16(n), n as u16, "{n}");
        assert_eq!(wrap_u32(n), n as u32, "{n}");
        assert_eq!(wrap_u64(n), n as u64, "{n}");
        assert_eq!(wrap_usize(n), n as usize, "{n}");
        assert_eq!(from_unsigned(n as u64), n, "{n}");
    }
}
