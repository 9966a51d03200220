use qutie::number::num_add;
use qutie::number::num_div;
use qutie::number::num_mod;
use qutie::number::num_mul;
use qutie::number::num_pow;
use qutie::number::num_sub;
use qutie::number::parse_number;
use qutie::number::render_int;
use qutie::number::ArithFault;

#[test]
fn sums_and_differences() {
    assert_eq!(num_add(2, 3), Ok(5));
    assert_eq!(num_add(i64::MAX, 0), Ok(i64::MAX));
    assert_eq!(num_add(i64::MAX, 1), Err(ArithFault::Overflow));
    assert_eq!(num_add(i64::MIN, -1), Err(ArithFault::Overflow));
    assert_eq!(num_sub(2, 3), Ok(-1));
    assert_eq!(num_sub(i64::MIN, 1), Err(ArithFault::Overflow));
    assert_eq!(num_sub(0, i64::MIN), Err(ArithFault::Overflow));
    assert_eq!(num_sub(-1, i64::MIN), Ok(i64::MAX));
}

#[test]
fn products() {
    assert_eq!(num_mul(6, -7), Ok(-42));
    assert_eq!(num_mul(i64::MIN, 1), Ok(i64::MIN));
    assert_eq!(num_mul(i64::MIN, -1), Err(ArithFault::Overflow));
    assert_eq!(num_mul(1 << 32, 1 << 31), Err(ArithFault::Overflow));
    assert_eq!(num_mul(1 << 32, -(1 << 31)), Ok(i64::MIN));
}

#[test]
fn quotients_round_towards_zero() {
    assert_eq!(num_div(7, 2), Ok(3));
    assert_eq!(num_div(-7, 2), Ok(-3));
    assert_eq!(num_div(7, -2), Ok(-3));
    assert_eq!(num_div(-7, -2), Ok(3));
    assert_eq!(num_div(0, 5), Ok(0));
    assert_eq!(num_div(1, 0), Err(ArithFault::DivisionByZero));
    assert_eq!(num_div(i64::MIN, -1), Err(ArithFault::Overflow));
    assert_eq!(num_div(i64::MIN, 1), Ok(i64::MIN));
    assert_eq!(num_div(i64::MAX, i64::MIN), Ok(0));
}

#[test]
fn remainders_take_the_sign_of_the_dividend() {
    assert_eq!(num_mod(7, 2), Ok(1));
    assert_eq!(num_mod(-7, 2), Ok(-1));
    assert_eq!(num_mod(7, -2), Ok(1));
    assert_eq!(num_mod(-7, -2), Ok(-1));
    assert_eq!(num_mod(6, 3), Ok(0));
    assert_eq!(num_mod(1, 0), Err(ArithFault::DivisionByZero));
    assert_eq!(num_mod(i64::MIN, -1), Ok(0));
    assert_eq!(num_mod(i64::MIN, i64::MAX), Ok(-1));
}

#[test]
fn quotient_and_remainder_agree_with_the_machine() {
    for a in [-9i64, -8, -1, 0, 1, 8, 9, i64::MAX, i64::MIN + 1] {
        for b in [-4i64, -3, -1, 1, 3, 4, i64::MAX] {
            assert_eq!(num_div(a, b), Ok(a / b), "{} / {}", a, b);
            assert_eq!(num_mod(a, b), Ok(a % b), "{} % {}", a, b);
        }
    }
}

#[test]
fn powers() {
    assert_eq!(num_pow(2, 10), Ok(1024));
    assert_eq!(num_pow(3, 2), Ok(9));
    assert_eq!(num_pow(2, 9), Ok(512));
    assert_eq!(num_pow(-3, 3), Ok(-27));
    assert_eq!(num_pow(5, 0), Ok(1));
    assert_eq!(num_pow(0, 0), Ok(1));
    assert_eq!(num_pow(0, 5), Ok(0));
    assert_eq!(num_pow(1, i64::MAX), Ok(1));
    assert_eq!(num_pow(-1, i64::MAX), Ok(-1));
    assert_eq!(num_pow(-1, i64::MAX - 1), Ok(1));
    assert_eq!(num_pow(2, 62), Ok(1 << 62));
    assert_eq!(num_pow(2, 63), Err(ArithFault::Overflow));
    assert_eq!(num_pow(-2, 63), Ok(i64::MIN));
    assert_eq!(num_pow(-2, 64), Err(ArithFault::Overflow));
    assert_eq!(num_pow(10, i64::MAX), Err(ArithFault::Overflow));
    assert_eq!(num_pow(2, -1), Err(ArithFault::NegativeExponent));
    assert_eq!(num_pow(0, -1), Err(ArithFault::NegativeExponent));
}

#[test]
fn decimal_writing() {
    assert_eq!(render_int(0), "0");
    assert_eq!(render_int(7), "7");
    assert_eq!(render_int(10), "10");
    assert_eq!(render_int(-1), "-1");
    assert_eq!(render_int(1234567890), "1234567890");
    assert_eq!(render_int(i64::MAX), "9223372036854775807");
    assert_eq!(render_int(i64::MIN), "-9223372036854775808");
}

#[test]
fn decimal_writing_agrees_with_the_standard_library() {
    for n in [0i64, 9, 10, 99, 100, -100, 4096, -4097, i64::MAX, i64::MIN] {
        assert_eq!(render_int(n), n.to_string());
    }
}

#[test]
fn literals() {
    assert_eq!(parse_number("0"), Some(0));
    assert_eq!(parse_number("5"), Some(5));
    assert_eq!(parse_number("007"), Some(7));
    assert_eq!(parse_number("1_000"), Some(1000));
    assert_eq!(parse_number("1__2_"), Some(12));
    assert_eq!(parse_number("9223372036854775807"), Some(i64::MAX));
    assert_eq!(parse_number("9223372036854775808"), None);
    assert_eq!(parse_number("99999999999999999999999"), None);
    assert_eq!(parse_number(""), None);
    assert_eq!(parse_number("_"), None);
    assert_eq!(parse_number("12a"), None);
    assert_eq!(parse_number("-1"), None);
    assert_eq!(parse_number("\u{663}"), None);
    assert_eq!(parse_number("1\u{663}"), None);
}
