use perry_passes::hir::Num;
use perry_passes::num::{channel_of, channel_of_integer, fmt_integer, fmt_num, truncate, whole_number};

fn num(x: f64) -> Num {
    Num { bits: x.to_bits(), text: format!("{}", x) }
}

/// How a double is shown: without a decimal point where it is whole and below 1e15.
fn shown(x: f64) -> String {
    if x == x.trunc() && x.abs() < 1e15 {
        format!("{}", x as i64)
    } else {
        format!("{}", x)
    }
}

const SAMPLES: [f64; 34] = [
    0.0,
    -0.0,
    1.0,
    -1.0,
    0.5,
    -0.5,
    0.1,
    2.5,
    255.0,
    256.5,
    12.999999999999998,
    4503599627370495.5,
    4503599627370496.0,
    9007199254740992.0,
    999999999999999.0,
    1e15,
    -1e15,
    999999999999999.9,
    123456789.125,
    1e300,
    -1e300,
    1e-300,
    5e-324,
    9223372036854774784.0,
    9223372036854775808.0,
    -9223372036854775808.0,
    -9223372036854777856.0,
    18446744073709551616.0,
    f64::MAX,
    f64::MIN_POSITIVE,
    f64::INFINITY,
    f64::NEG_INFINITY,
    f64::NAN,
    0.9999999999999999,
];

#[test]
fn numbers_are_shown_like_source() {
    for x in SAMPLES {
        assert_eq!(fmt_num(&num(x)), shown(x), "{}", x);
    }
    assert_eq!(fmt_num(&num(8.0)), "8");
    assert_eq!(fmt_num(&num(0.95)), "0.95");
    assert_eq!(fmt_num(&num(-3.0)), "-3");
    assert_eq!(fmt_num(&num(1e15)), "1000000000000000");
}

#[test]
fn numbers_are_cut_like_casts() {
    for x in SAMPLES {
        assert_eq!(truncate(x.to_bits()), x as i64, "{}", x);
    }
    let mut bits: u64 = 0;
    let mut k = 0;
    while k < 2000 {
        let x = f64::from_bits(bits);
        assert_eq!(truncate(bits), x as i64, "{}", x);
        bits = bits.wrapping_mul(6364136223846793005).wrapping_add(1442695040888963407);
        k += 1;
    }
}

#[test]
fn channels_are_scaled_and_rounded() {
    for x in SAMPLES {
        assert_eq!(channel_of(x.to_bits()), (x * 255.0).round() as i64, "{}", x);
    }
    let mut k = 0;
    while k <= 510 {
        let x = k as f64 / 510.0;
        assert_eq!(channel_of(x.to_bits()), (x * 255.0).round() as i64, "{}", x);
        k += 1;
    }
    let mut bits: u64 = 1;
    let mut k = 0;
    while k < 20000 {
        // A sign, an exponent around that of 1, and any mantissa.
        let near = (bits & 0x800f_ffff_ffff_ffff) | ((1000 + (bits >> 52) % 90) << 52);
        let x = f64::from_bits(near);
        assert_eq!(channel_of(near), (x * 255.0).round() as i64, "{}", x);
        bits = bits.wrapping_mul(6364136223846793005).wrapping_add(1442695040888963407);
        k += 1;
    }
}

#[test]
fn whole_numbers_below_the_bound_are_recognized() {
    assert_eq!(whole_number((3.0f64).to_bits()), Some(3));
    assert_eq!(whole_number((-3.0f64).to_bits()), Some(-3));
    assert_eq!(whole_number((-0.0f64).to_bits()), Some(0));
    assert_eq!(whole_number((0.5f64).to_bits()), None);
    assert_eq!(whole_number((1e15f64).to_bits()), None);
    assert_eq!(whole_number(f64::NAN.to_bits()), None);
    assert_eq!(whole_number(f64::INFINITY.to_bits()), None);
}

#[test]
fn integers_are_shown_as_doubles() {
    let fixed: [i64; 16] = [
        0,
        1,
        -1,
        42,
        999_999_999_999_999,
        1_000_000_000_000_000,
        -1_000_000_000_000_000,
        9_007_199_254_740_992,
        9_007_199_254_740_993,
        9_007_199_254_740_995,
        -9_007_199_254_740_993,
        1_234_567_890_123_456_789,
        i64::MAX,
        i64::MAX - 511,
        i64::MAX - 512,
        i64::MIN,
    ];
    for n in fixed {
        assert_eq!(fmt_integer(n), shown(n as f64), "{}", n);
        assert_eq!(channel_of_integer(n), (n as f64 * 255.0).round() as i64, "{}", n);
    }
    let mut bits: u64 = 7;
    let mut k = 0;
    while k < 3000 {
        let n = (bits as i64) >> (k % 40);
        assert_eq!(fmt_integer(n), shown(n as f64), "{}", n);
        assert_eq!(channel_of_integer(n), (n as f64 * 255.0).round() as i64, "{}", n);
        bits = bits.wrapping_mul(6364136223846793005).wrapping_add(1442695040888963407);
        k += 1;
    }
}
