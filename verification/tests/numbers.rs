use rey::number::Number;

fn num(x: f64) -> Number {
    Number::from_bits(x.to_bits())
}

fn same(got: Number, expected: f64) -> bool {
    if expected.is_nan() {
        f64::from_bits(got.to_bits()).is_nan()
    } else {
        got.to_bits() == expected.to_bits()
    }
}

fn samples() -> Vec<f64> {
    let mut list = vec![
        0.0,
        -0.0,
        1.0,
        -1.0,
        2.0,
        3.0,
        0.5,
        0.1,
        0.2,
        0.3,
        1.0 / 3.0,
        10.0,
        1e10,
        1e-10,
        1e100,
        1e-100,
        1e300,
        1e-300,
        1e308,
        1.7976931348623157e308,
        2.2250738585072014e-308,
        2.225073858507201e-308,
        5e-324,
        1e-323,
        4.9406564584124654e-324,
        9007199254740992.0,
        9007199254740993.0,
        9007199254740991.0,
        4503599627370496.0,
        4503599627370497.0,
        9223372036854775807.0,
        -9223372036854775808.0,
        18446744073709551616.0,
        3.141592653589793,
        2.718281828459045,
        1.0000000000000002,
        0.9999999999999999,
        123456789.125,
        f64::INFINITY,
        f64::NEG_INFINITY,
        f64::NAN,
        f64::MAX,
        f64::MIN_POSITIVE,
        f64::EPSILON,
    ];
    let negated: Vec<f64> = list.iter().map(|x| -x).collect();
    list.extend(negated);
    // a fixed stream of bit patterns of every kind
    let mut state: u64 = 0x9e3779b97f4a7c15;
    for _ in 0..60 {
        state = state.wrapping_mul(6364136223846793005).wrapping_add(1442695040888963407);
        list.push(f64::from_bits(state));
        state = state.wrapping_mul(6364136223846793005).wrapping_add(1442695040888963407);
        // numbers of ordinary size
        list.push(f64::from_bits((state >> 12) | 0x3ff0_0000_0000_0000) * 1000.0 - 1500.0);
    }
    list
}

#[test]
fn addition_agrees_with_the_machine() {
    let list = samples();
    for &a in &list {
        for &b in &list {
            assert!(same(num(a).plus(num(b)), a + b), "{:e} + {:e}", a, b);
        }
    }
}

#[test]
fn subtraction_agrees_with_the_machine() {
    let list = samples();
    for &a in &list {
        for &b in &list {
            assert!(same(num(a).minus(num(b)), a - b), "{:e} - {:e}", a, b);
        }
    }
}

#[test]
fn multiplication_agrees_with_the_machine() {
    let list = samples();
    for &a in &list {
        for &b in &list {
            assert!(same(num(a).times(num(b)), a * b), "{:e} * {:e}", a, b);
        }
    }
}

#[test]
fn division_agrees_with_the_machine() {
    let list = samples();
    for &a in &list {
        for &b in &list {
            assert!(same(num(a).divided_by(num(b)), a / b), "{:e} / {:e}", a, b);
        }
    }
}

#[test]
fn order_agrees_with_the_machine() {
    let list = samples();
    for &a in &list {
        for &b in &list {
            assert_eq!(num(a).is_equal(num(b)), a == b, "{:e} == {:e}", a, b);
            assert_eq!(num(a).is_below(num(b)), a < b, "{:e} < {:e}", a, b);
            assert_eq!(num(a).is_at_most(num(b)), a <= b, "{:e} <= {:e}", a, b);
            assert_eq!(num(a) == num(b), a == b);
        }
    }
}

#[test]
fn truncation_agrees_with_the_machine() {
    for &a in &samples() {
        assert_eq!(num(a).to_integer(), a as i64, "{:e}", a);
    }
    assert_eq!(num(2.9).to_integer(), 2);
    assert_eq!(num(-2.9).to_integer(), -2);
    assert_eq!(num(f64::NAN).to_integer(), 0);
    assert_eq!(num(1e30).to_integer(), i64::MAX);
    assert_eq!(num(-1e30).to_integer(), i64::MIN);
}

#[test]
fn integers_become_the_nearest_numbers() {
    let mut list: Vec<i64> = vec![
        0,
        1,
        -1,
        2,
        3,
        10,
        -10,
        1 << 52,
        (1 << 53) - 1,
        1 << 53,
        (1 << 53) + 1,
        (1 << 53) + 2,
        (1 << 53) + 3,
        (1 << 54) + 2,
        (1 << 54) + 6,
        i64::MAX,
        i64::MAX - 1,
        i64::MIN,
        i64::MIN + 1,
        123456789012345678,
    ];
    let mut state: u64 = 42;
    for _ in 0..200 {
        state = state.wrapping_mul(6364136223846793005).wrapping_add(1442695040888963407);
        list.push(state as i64);
    }
    for &i in &list {
        assert_eq!(Number::from_integer(i).to_bits(), (i as f64).to_bits(), "{}", i);
    }
}

#[test]
fn negation_flips_the_sign_only() {
    for &a in &samples() {
        assert_eq!(num(a).negate().to_bits(), (-a).to_bits());
    }
}

#[test]
fn one_third_is_rounded_to_nearest() {
    let third = num(1.0).divided_by(num(3.0));
    assert_eq!(third.to_bits(), 0x3fd5_5555_5555_5555);
    let sum = num(0.1).plus(num(0.2));
    assert_eq!(sum.to_bits(), 0x3fd3_3333_3333_3334);
}

#[test]
fn operations_agree_with_the_machine_on_many_encodings() {
    let mut state: u64 = 0x0123_4567_89ab_cdef;
    let mut next = || {
        state ^= state << 13;
        state ^= state >> 7;
        state ^= state << 17;
        state
    };
    for round in 0..40_000 {
        let mut a = next();
        let mut b = next();
        if round % 4 == 1 {
            // exponents close to each other
            b = (b & 0x800f_ffff_ffff_ffff) | (a & 0x7ff0_0000_0000_0000);
        } else if round % 4 == 2 {
            // small exponents, where products and quotients run out of the range
            a &= 0x803f_ffff_ffff_ffff;
        } else if round % 4 == 3 {
            // few significant bits, where results are exact or ties
            a &= 0xffff_f000_0000_0000;
            b &= 0xffff_f000_0000_0000;
        }
        let (x, y) = (f64::from_bits(a), f64::from_bits(b));
        assert!(same(num(x).plus(num(y)), x + y), "{:e} + {:e}", x, y);
        assert!(same(num(x).minus(num(y)), x - y), "{:e} - {:e}", x, y);
        assert!(same(num(x).times(num(y)), x * y), "{:e} * {:e}", x, y);
        assert!(same(num(x).divided_by(num(y)), x / y), "{:e} / {:e}", x, y);
        assert_eq!(num(x).to_integer(), x as i64, "{:e}", x);
        assert_eq!(num(x).is_below(num(y)), x < y);
    }
}
