//! Integer arithmetic of the `Number` variant, its decimal rendering and the
//! value of a number literal.

use vstd::prelude::*;
use vstd::arithmetic::power::pow;
use vstd::arithmetic::power::lemma_pow0;
use vstd::arithmetic::power::lemma0_pow;
use vstd::arithmetic::power::lemma1_pow;

verus! {

/// Why an arithmetic operation on two numbers has no result.
#[derive(Clone, Copy, PartialEq, Eq, Debug, Structural)]
pub enum ArithFault {
    /// The mathematical result is not a 64-bit signed integer.
    Overflow,
    /// The divisor is zero.
    DivisionByZero,
    /// The exponent is negative.
    NegativeExponent,
}

/// `n` is a 64-bit signed integer.
pub open spec fn fits(n: int) -> bool {
    i64::MIN <= n <= i64::MAX
}

/// `n` where it fits, an overflow where it does not.
pub open spec fn fitted(n: int) -> Result<i64, ArithFault> {
    if fits(n) {
        Ok(n as i64)
    } else {
        Err(ArithFault::Overflow)
    }
}

/// The absolute value of `n`.
pub open spec fn magnitude(n: int) -> int {
    if n < 0 {
        -n
    } else {
        n
    }
}

/// The quotient of `a` by `b`, rounded towards zero.
pub open spec fn quotient(a: int, b: int) -> int
    recommends
        b != 0,
{
    if (a < 0) == (b < 0) {
        magnitude(a) / magnitude(b)
    } else {
        -(magnitude(a) / magnitude(b))
    }
}

/// What is left of `a` after taking out `b` as often as `quotient` says;
/// it has the sign of `a`.
pub open spec fn remainder(a: int, b: int) -> int
    recommends
        b != 0,
{
    a - b * quotient(a, b)
}

pub open spec fn spec_num_add(a: int, b: int) -> Result<i64, ArithFault> {
    fitted(a + b)
}

pub open spec fn spec_num_sub(a: int, b: int) -> Result<i64, ArithFault> {
    fitted(a - b)
}

pub open spec fn spec_num_mul(a: int, b: int) -> Result<i64, ArithFault> {
    fitted(a * b)
}

pub open spec fn spec_num_div(a: int, b: int) -> Result<i64, ArithFault> {
    if b == 0 {
        Err(ArithFault::DivisionByZero)
    } else {
        fitted(quotient(a, b))
    }
}

pub open spec fn spec_num_mod(a: int, b: int) -> Result<i64, ArithFault> {
    if b == 0 {
        Err(ArithFault::DivisionByZero)
    } else {
        fitted(remainder(a, b))
    }
}

pub open spec fn spec_num_pow(a: int, b: int) -> Result<i64, ArithFault> {
    if b < 0 {
        Err(ArithFault::NegativeExponent)
    } else {
        fitted(pow(a, b as nat))
    }
}

/// The sum of two numbers.
pub fn num_add(a: i64, b: i64) -> (r: Result<i64, ArithFault>)
    ensures
        r == spec_num_add(a as int, b as int),
{
    let wide: i128 = a as i128 + b as i128;
    narrow(wide)
}

/// The difference of two numbers.
pub fn num_sub(a: i64, b: i64) -> (r: Result<i64, ArithFault>)
    ensures
        r == spec_num_sub(a as int, b as int),
{
    let wide: i128 = a as i128 - b as i128;
    narrow(wide)
}

/// The product of two numbers.
pub fn num_mul(a: i64, b: i64) -> (r: Result<i64, ArithFault>)
    ensures
        r == spec_num_mul(a as int, b as int),
{
    let wide: i128 = wide_product(a, b);
    narrow(wide)
}

/// The quotient of two numbers, rounded towards zero.
pub fn num_div(a: i64, b: i64) -> (r: Result<i64, ArithFault>)
    ensures
        r == spec_num_div(a as int, b as int),
{
    if b == 0 {
        Err(ArithFault::DivisionByZero)
    } else {
        narrow(wide_quotient(a, b))
    }
}

/// The remainder of the division that `num_div` makes.
pub fn num_mod(a: i64, b: i64) -> (r: Result<i64, ArithFault>)
    ensures
        r == spec_num_mod(a as int, b as int),
{
    if b == 0 {
        Err(ArithFault::DivisionByZero)
    } else {
        let q: i128 = wide_quotient(a, b);
        assert(-0x8000_0000_0000_0000 * 0x8000_0000_0000_0000 <= b as int * q as int
            <= 0x8000_0000_0000_0000 * 0x8000_0000_0000_0000) by (nonlinear_arith)
            requires
                -0x8000_0000_0000_0000 <= b as int <= 0x8000_0000_0000_0000,
                -0x8000_0000_0000_0000 <= q as int <= 0x8000_0000_0000_0000,
        ;
        narrow(a as i128 - b as i128 * q)
    }
}

/// `base` raised to the power `exp`.
pub fn num_pow(base: i64, exp: i64) -> (r: Result<i64, ArithFault>)
    ensures
        r == spec_num_pow(base as int, exp as int),
{
    if exp < 0 {
        return Err(ArithFault::NegativeExponent);
    }
    if base == 0 {
        proof {
            lemma_pow0(0);
            if exp > 0 {
                lemma0_pow(exp as nat);
            }
        }
        return Ok(if exp == 0 { 1 } else { 0 });
    }
    if base == 1 {
        proof {
            lemma1_pow(exp as nat);
        }
        return Ok(1);
    }
    if base == -1 {
        proof {
            lemma_pow_minus_one(exp as nat);
        }
        return Ok(if exp % 2 == 0 { 1 } else { -1 });
    }
    let mut acc: i64 = 1;
    let mut k: i64 = 0;
    proof {
        lemma_pow0(base as int);
    }
    while k < exp
        invariant
            0 <= k <= exp,
            base < -1 || base > 1,
            acc as int == pow(base as int, k as nat),
        decreases exp - k,
    {
        let wide: i128 = wide_product(acc, base);
        proof {
            reveal(pow);
            assert(pow(base as int, (k + 1) as nat) == base as int * pow(base as int, k as nat));
            assert(base as int * acc as int == acc as int * base as int) by (nonlinear_arith);
        }
        if wide < i64::MIN as i128 || wide > i64::MAX as i128 {
            proof {
                lemma_pow_stays_out(base as int, (k + 1) as nat, exp as nat);
            }
            return Err(ArithFault::Overflow);
        }
        acc = wide as i64;
        k += 1;
    }
    Ok(acc)
}

/// `wide` as a number, or an overflow.
fn narrow(wide: i128) -> (r: Result<i64, ArithFault>)
    ensures
        r == fitted(wide as int),
{
    if wide < i64::MIN as i128 || wide > i64::MAX as i128 {
        Err(ArithFault::Overflow)
    } else {
        Ok(wide as i64)
    }
}

/// The exact product of two numbers.
fn wide_product(a: i64, b: i64) -> (r: i128)
    ensures
        r as int == a as int * b as int,
{
    assert(-0x8000_0000_0000_0000 * 0x8000_0000_0000_0000 <= a as int * b as int
        <= 0x8000_0000_0000_0000 * 0x8000_0000_0000_0000) by (nonlinear_arith)
        requires
            -0x8000_0000_0000_0000 <= a as int <= 0x8000_0000_0000_0000,
            -0x8000_0000_0000_0000 <= b as int <= 0x8000_0000_0000_0000,
    ;
    a as i128 * b as i128
}

/// The absolute value of a number.
fn abs_of(a: i64) -> (r: u64)
    ensures
        r as int == magnitude(a as int),
{
    if a < 0 {
        (-(a as i128)) as u64
    } else {
        a as u64
    }
}

/// The exact quotient of two numbers, rounded towards zero.
fn wide_quotient(a: i64, b: i64) -> (r: i128)
    requires
        b != 0,
    ensures
        r as int == quotient(a as int, b as int),
        -0x8000_0000_0000_0000 <= r <= 0x8000_0000_0000_0000,
{
    let ma: u64 = abs_of(a);
    let mb: u64 = abs_of(b);
    let q: u64 = ma / mb;
    assert(0 <= ma as int / mb as int <= ma as int) by (nonlinear_arith)
        requires
            ma as int >= 0,
            mb as int > 0,
    ;
    if (a < 0) == (b < 0) {
        q as i128
    } else {
        -(q as i128)
    }
}

/// The powers of minus one alternate between one and minus one.
pub proof fn lemma_pow_minus_one(e: nat)
    ensures
        pow(-1, e) == (if e % 2 == 0 {
            1int
        } else {
            -1int
        }),
    decreases e,
{
    reveal(pow);
    if e > 0 {
        lemma_pow_minus_one((e - 1) as nat);
    }
}

/// Once a power of a base other than -1, 0 and 1 has left the 64-bit range,
/// every higher power is outside it too.
pub proof fn lemma_pow_stays_out(b: int, m: nat, n: nat)
    requires
        b < -1 || b > 1,
        m <= n,
        !fits(pow(b, m)),
    ensures
        !fits(pow(b, n)),
    decreases n - m,
{
    if m < n {
        reveal(pow);
        let x = pow(b, m);
        assert(pow(b, m + 1) == b * x);
        assert(!fits(b * x)) by (nonlinear_arith)
            requires
                b < -1 || b > 1,
                x < -0x8000_0000_0000_0000 || x > 0x7fff_ffff_ffff_ffff,
        ;
        lemma_pow_stays_out(b, m + 1, n);
    }
}

/// The character that writes the digit `d`.
pub open spec fn digit_char(d: int) -> char
    recommends
        0 <= d <= 9,
{
    if d == 0 {
        '0'
    } else if d == 1 {
        '1'
    } else if d == 2 {
        '2'
    } else if d == 3 {
        '3'
    } else if d == 4 {
        '4'
    } else if d == 5 {
        '5'
    } else if d == 6 {
        '6'
    } else if d == 7 {
        '7'
    } else if d == 8 {
        '8'
    } else {
        '9'
    }
}

/// The decimal digits of `n`, most significant first, without leading zeros.
pub open spec fn decimal_nat(n: nat) -> Seq<char>
    decreases n,
{
    if n < 10 {
        seq![digit_char(n as int)]
    } else {
        decimal_nat(n / 10).push(digit_char((n % 10) as int))
    }
}

/// The decimal writing of `n`: a minus sign where it is negative, then the
/// digits of its magnitude.
pub open spec fn decimal(n: int) -> Seq<char> {
    if n < 0 {
        seq!['-'] + decimal_nat((-n) as nat)
    } else {
        decimal_nat(n as nat)
    }
}

/// `c` is one of `0` to `9`.
pub open spec fn decimal_digit(c: char) -> bool {
    '0' <= c && c <= '9'
}

/// The digit that `c` writes.
pub open spec fn digit_value(c: char) -> int
    recommends
        decimal_digit(c),
{
    c as int - '0' as int
}

/// Every character of a literal is a decimal digit or an underscore.
pub open spec fn literal_chars(s: Seq<char>) -> bool {
    forall|i: int| 0 <= i < s.len() ==> decimal_digit(#[trigger] s[i]) || s[i] == '_'
}

/// A literal holds at least one digit.
pub open spec fn has_digit(s: Seq<char>) -> bool {
    exists|i: int| 0 <= i < s.len() && decimal_digit(#[trigger] s[i])
}

/// The number that the digits of `s` write in base ten; underscores only
/// group the digits and add nothing.
pub open spec fn literal_value(s: Seq<char>) -> int
    decreases s.len(),
{
    if s.len() == 0 {
        0
    } else if s.last() == '_' {
        literal_value(s.drop_last())
    } else {
        literal_value(s.drop_last()) * 10 + digit_value(s.last())
    }
}

/// The number a literal stands for: it is made of decimal digits and
/// underscores, holds a digit, and its value is a 64-bit signed integer.
pub open spec fn spec_parse_number(s: Seq<char>) -> Option<i64> {
    if literal_chars(s) && has_digit(s) && literal_value(s) <= i64::MAX {
        Some(literal_value(s) as i64)
    } else {
        None
    }
}

/// The character that writes the digit `d`.
fn digit_to_char(d: u64) -> (c: char)
    requires
        d <= 9,
    ensures
        c == digit_char(d as int),
{
    if d == 0 {
        '0'
    } else if d == 1 {
        '1'
    } else if d == 2 {
        '2'
    } else if d == 3 {
        '3'
    } else if d == 4 {
        '4'
    } else if d == 5 {
        '5'
    } else if d == 6 {
        '6'
    } else if d == 7 {
        '7'
    } else if d == 8 {
        '8'
    } else {
        '9'
    }
}

/// Appends the decimal digits of `n` to `s`.
fn push_decimal(s: &mut String, n: u64)
    ensures
        final(s)@ == old(s)@ + decimal_nat(n as nat),
    decreases n,
{
    if n >= 10 {
        push_decimal(s, n / 10);
    }
    s.push(digit_to_char(n % 10));
    assert(s@ =~= old(s)@ + decimal_nat(n as nat));
}

/// The decimal writing of a number.
pub fn render_int(n: i64) -> (s: String)
    ensures
        s@ == decimal(n as int),
{
    let mut s = String::new();
    if n < 0 {
        s.push('-');
    }
    push_decimal(&mut s, abs_of(n));
    assert(s@ =~= decimal(n as int));
    s
}

/// The number that a literal stands for, if it stands for one.
pub fn parse_number(text: &str) -> (r: Option<i64>)
    ensures
        r == spec_parse_number(text@),
{
    let mut acc: i64 = 0;
    let mut seen: bool = false;
    for c in it: text.chars()
        invariant
            it.seq() == text@,
            literal_chars(text@.take(it.index() as int)),
            seen == has_digit(text@.take(it.index() as int)),
            acc as int == literal_value(text@.take(it.index() as int)),
            acc >= 0,
    {
        let ghost k = it.index() as int;
        let ghost before = text@.take(k);
        let ghost after = text@.take(k + 1);
        assert(after.drop_last() =~= before);
        assert(after.last() == c);
        let is_dec = '0' <= c && c <= '9';
        if c == '_' {
            assert(literal_chars(after));
            proof {
                if has_digit(before) {
                    let j = choose|j: int| 0 <= j < before.len() && decimal_digit(#[trigger] before[j]);
                    assert(decimal_digit(after[j]));
                }
                if has_digit(after) {
                    let j = choose|j: int| 0 <= j < after.len() && decimal_digit(#[trigger] after[j]);
                    assert(decimal_digit(before[j]));
                }
            }
        } else if is_dec {
            let d: i64 = (c as u32 - '0' as u32) as i64;
            assert(decimal_digit(after[k]));
            if acc > (i64::MAX - d) / 10 {
                proof {
                    lemma_literal_value_grows(text@, k + 1);
                }
                return None;
            }
            acc = acc * 10 + d;
            seen = true;
        } else {
            assert(!literal_chars(text@)) by {
                if literal_chars(text@) {
                    assert(decimal_digit(text@[k]) || text@[k] == '_');
                }
            }
            return None;
        }
    }
    assert(text@.take(text@.len() as int) =~= text@);
    if seen {
        Some(acc)
    } else {
        None
    }
}

/// Reading more characters of a well-formed literal never lowers its value.
pub proof fn lemma_literal_value_grows(s: Seq<char>, k: int)
    requires
        0 <= k <= s.len(),
        literal_chars(s.take(k)),
    ensures
        literal_chars(s) ==> 0 <= literal_value(s.take(k)) <= literal_value(s),
    decreases s.len() - k,
{
    lemma_literal_value_nonnegative(s.take(k));
    if k < s.len() {
        if literal_chars(s) {
            let next = s.take(k + 1);
            assert(next.drop_last() =~= s.take(k));
            assert(next.last() == s[k]);
            assert(literal_chars(next)) by {
                assert forall|i: int| 0 <= i < next.len() implies decimal_digit(
                    #[trigger] next[i],
                ) || next[i] == '_' by {
                    assert(next[i] == s[i]);
                }
            }
            lemma_literal_value_grows(s, k + 1);
        }
    } else {
        assert(s.take(k) =~= s);
    }
}

/// The value of a well-formed literal is not negative.
pub proof fn lemma_literal_value_nonnegative(s: Seq<char>)
    requires
        literal_chars(s),
    ensures
        literal_value(s) >= 0,
    decreases s.len(),
{
    if s.len() > 0 {
        let init = s.drop_last();
        assert forall|i: int| 0 <= i < init.len() implies decimal_digit(#[trigger] init[i])
            || init[i] == '_' by {
            assert(init[i] == s[i]);
        }
        lemma_literal_value_nonnegative(init);
        assert(decimal_digit(s[s.len() - 1]) || s[s.len() - 1] == '_');
    }
}

} // verus!
