//! Arithmetic on the calculator's integers. Every operation either yields the
//! mathematical result or reports why there is none.
use vstd::prelude::*;
use crate::{Error, ErrorView, Integer};

verus! {

/// The message of the error for a result outside the integer type.
pub open spec fn overflow() -> ErrorView {
    ErrorView::Custom("Integer overflow"@)
}

/// The message of the error for a zero divisor.
pub open spec fn division_by_zero() -> ErrorView {
    ErrorView::Custom("Division by zero"@)
}

/// The message of the error for a shift by a negative amount or by the
/// integer type's width or more.
pub open spec fn shift_out_of_range() -> ErrorView {
    ErrorView::Custom("Shift amount out of range"@)
}

/// The message of the error for an exponent that is no unsigned 32-bit value.
pub open spec fn exponent_out_of_range() -> ErrorView {
    ErrorView::Custom("Exp operation for integers only allows u32 as parameter"@)
}

/// Whether a number is in the range of the calculator's integers.
pub open spec fn fits(v: int) -> bool {
    i128::MIN <= v <= i128::MAX
}

/// The value as an integer of the calculator, if it is in range.
pub open spec fn checked(v: int) -> Result<i128, ErrorView> {
    if fits(v) {
        Ok(v as i128)
    } else {
        Err(overflow())
    }
}

/// The number without its sign.
pub open spec fn magnitude(v: int) -> int {
    if v < 0 {
        -v
    } else {
        v
    }
}

/// The quotient rounded toward zero.
pub open spec fn trunc_div(a: int, b: int) -> int
    recommends
        b != 0,
{
    let q = magnitude(a) / magnitude(b);
    if (a < 0) != (b < 0) {
        -q
    } else {
        q
    }
}

/// The remainder of the division rounded toward zero: it has the sign of the
/// dividend.
pub open spec fn trunc_rem(a: int, b: int) -> int
    recommends
        b != 0,
{
    let r = magnitude(a) % magnitude(b);
    if a < 0 {
        -r
    } else {
        r
    }
}

/// The base multiplied by itself `exp` times.
pub open spec fn power(base: int, exp: nat) -> int
    decreases exp,
{
    if exp == 0 {
        1
    } else {
        base * power(base, (exp - 1) as nat)
    }
}

/// The sum, if it is in range.
pub open spec fn sum(a: i128, b: i128) -> Result<i128, ErrorView> {
    checked(a + b)
}

/// The difference, if it is in range.
pub open spec fn difference(a: i128, b: i128) -> Result<i128, ErrorView> {
    checked(a - b)
}

/// The product, if it is in range.
pub open spec fn product(a: i128, b: i128) -> Result<i128, ErrorView> {
    checked(a * b)
}

/// The quotient rounded toward zero, if the divisor is not zero and the
/// quotient is in range.
pub open spec fn quotient(a: i128, b: i128) -> Result<i128, ErrorView> {
    if b == 0 {
        Err(division_by_zero())
    } else {
        checked(trunc_div(a as int, b as int))
    }
}

/// The remainder; as on the machine, the one division whose quotient is out
/// of range has no remainder either.
pub open spec fn remainder(a: i128, b: i128) -> Result<i128, ErrorView> {
    if b == 0 {
        Err(division_by_zero())
    } else if a == i128::MIN && b == -1 {
        Err(overflow())
    } else {
        Ok(trunc_rem(a as int, b as int) as i128)
    }
}

/// The power, if the exponent is an unsigned 32-bit value and the power is in
/// range.
pub open spec fn exponent(a: i128, b: i128) -> Result<i128, ErrorView> {
    if b < 0 || b > u32::MAX {
        Err(exponent_out_of_range())
    } else {
        checked(power(a as int, b as nat))
    }
}

/// The negated number, if it is in range.
pub open spec fn negation(a: i128) -> Result<i128, ErrorView> {
    checked(-a)
}

/// Builds an error that holds a message.
pub fn custom(message: &str) -> (e: Error)
    ensures
        e@ == ErrorView::Custom(message@),
{
    Error::Custom(message.to_owned())
}

/// Builds the error for a result outside the integer type.
pub fn overflow_error() -> (e: Error)
    ensures
        e@ == overflow(),
{
    custom("Integer overflow")
}

/// Wraps the result of a checked machine operation.
pub fn in_range(v: Option<Integer>) -> (r: Result<Integer, Error>)
    ensures
        v is Some ==> r == Ok::<Integer, Error>(v->0),
        v is None ==> r is Err && r->Err_0@ == overflow(),
{
    match v {
        Some(v) => Ok(v),
        None => Err(overflow_error()),
    }
}

/// The mathematical value of the result of an integer operation.
pub open spec fn settled(r: Result<Integer, Error>) -> Result<i128, ErrorView> {
    match r {
        Ok(v) => Ok(v),
        Err(e) => Err(e@),
    }
}

/// Adds two integers.
pub fn int_add(a: Integer, b: Integer) -> (r: Result<Integer, Error>)
    ensures
        settled(r) == sum(a, b),
{
    in_range(a.checked_add(b))
}

/// Subtracts the second integer from the first.
pub fn int_sub(a: Integer, b: Integer) -> (r: Result<Integer, Error>)
    ensures
        settled(r) == difference(a, b),
{
    in_range(a.checked_sub(b))
}

/// Multiplies two integers.
pub fn int_mul(a: Integer, b: Integer) -> (r: Result<Integer, Error>)
    ensures
        settled(r) == product(a, b),
{
    in_range(a.checked_mul(b))
}

/// Negates an integer.
pub fn int_neg(a: Integer) -> (r: Result<Integer, Error>)
    ensures
        settled(r) == negation(a),
{
    in_range(0i128.checked_sub(a))
}

/// Divides the first integer by the second and rounds toward zero.
pub fn int_div(a: Integer, b: Integer) -> (r: Result<Integer, Error>)
    ensures
        settled(r) == quotient(a, b),
{
    if b == 0 {
        return Err(custom("Division by zero"));
    }
    proof {
        vstd::arithmetic::div_mod::lemma_div_basics(magnitude(b as int));
    }
    in_range(a.checked_div(b))
}

/// The remainder of the division of the first integer by the second.
pub fn int_rem(a: Integer, b: Integer) -> (r: Result<Integer, Error>)
    ensures
        settled(r) == remainder(a, b),
{
    if b == 0 {
        return Err(custom("Division by zero"));
    }
    proof {
        let m = magnitude(b as int);
        vstd::arithmetic::div_mod::lemma_small_mod(0, m as nat);
        vstd::arithmetic::div_mod::lemma_mod_bound(magnitude(a as int), m);
    }
    in_range(a.checked_rem(b))
}

/// Over a base of magnitude two or more, a power that is out of range stays
/// out of range when it is multiplied by the base once more.
proof fn lemma_out_of_range_stays(base: int, p: int)
    requires
        magnitude(base) >= 2,
        !fits(p),
    ensures
        !fits(base * p),
{
    assert(magnitude(base * p) >= 2 * magnitude(p)) by (nonlinear_arith)
        requires
            magnitude(base) >= 2,
    ;
}

proof fn lemma_power_out_of_range(base: int, low: nat, high: nat)
    requires
        magnitude(base) >= 2,
        low <= high,
        !fits(power(base, low)),
    ensures
        !fits(power(base, high)),
    decreases high - low,
{
    if low < high {
        lemma_power_out_of_range(base, low, (high - 1) as nat);
        lemma_out_of_range_stays(base, power(base, (high - 1) as nat));
    }
}

proof fn lemma_power_of_unit(exp: nat)
    ensures
        power(0, exp) == (if exp == 0 {
            1int
        } else {
            0int
        }),
        power(1, exp) == 1,
        power(-1, exp) == (if exp % 2 == 0 {
            1int
        } else {
            -1int
        }),
    decreases exp,
{
    if exp > 0 {
        lemma_power_of_unit((exp - 1) as nat);
    }
}

/// Raises `base` to `exp` by repeated multiplication. A base of magnitude two
/// or more leaves the integer type after at most 127 factors, so the loop is
/// short whatever `exp` is.
pub fn int_pow(base: Integer, exp: u32) -> (r: Result<Integer, Error>)
    ensures
        settled(r) == checked(power(base as int, exp as nat)),
{
    proof {
        lemma_power_of_unit(exp as nat);
    }
    if exp == 0 || base == 1 {
        return Ok(1);
    }
    if base == 0 {
        return Ok(0);
    }
    if base == -1 {
        return Ok(
            if exp % 2 == 0 {
                1
            } else {
                -1
            },
        );
    }
    let mut acc: Integer = 1;
    let mut done: u32 = 0;
    while done < exp
        invariant
            done <= exp,
            magnitude(base as int) >= 2,
            acc == power(base as int, done as nat),
        decreases exp - done,
    {
        match acc.checked_mul(base) {
            Some(next) => {
                acc = next;
            },
            None => {
                proof {
                    assert(power(base as int, (done + 1) as nat) == base * acc);
                    lemma_power_out_of_range(base as int, (done + 1) as nat, exp as nat);
                }
                return Err(overflow_error());
            },
        }
        done = done + 1;
    }
    Ok(acc)
}

/// Raises the first integer to the power of the second.
pub fn int_exp(a: Integer, b: Integer) -> (r: Result<Integer, Error>)
    ensures
        settled(r) == exponent(a, b),
{
    if b < 0 || b > 0xFFFF_FFFF {
        return Err(custom("Exp operation for integers only allows u32 as parameter"));
    }
    int_pow(a, b as u32)
}

/// `a` shifted left by `b` bits within the integer type's width.
pub open spec fn shift_left(a: i128, b: i128) -> Result<i128, ErrorView> {
    if 0 <= b < 128 {
        Ok(a << b)
    } else {
        Err(shift_out_of_range())
    }
}

/// `a` shifted right by `b` bits; the sign is kept.
pub open spec fn shift_right(a: i128, b: i128) -> Result<i128, ErrorView> {
    if 0 <= b < 128 {
        Ok(a >> b)
    } else {
        Err(shift_out_of_range())
    }
}

/// Shifts the first integer left by as many bits as the second says.
pub fn int_shl(a: Integer, b: Integer) -> (r: Result<Integer, Error>)
    ensures
        settled(r) == shift_left(a, b),
{
    if b < 0 || b >= 128 {
        return Err(custom("Shift amount out of range"));
    }
    Ok(a << b)
}

/// Shifts the first integer right by as many bits as the second says.
pub fn int_shr(a: Integer, b: Integer) -> (r: Result<Integer, Error>)
    ensures
        settled(r) == shift_right(a, b),
{
    if b < 0 || b >= 128 {
        return Err(custom("Shift amount out of range"));
    }
    Ok(a >> b)
}

/// The bitwise or of two integers.
pub fn int_or(a: Integer, b: Integer) -> (r: Result<Integer, Error>)
    ensures
        r == Ok::<Integer, Error>(a | b),
{
    Ok(a | b)
}

/// The bitwise and of two integers.
pub fn int_and(a: Integer, b: Integer) -> (r: Result<Integer, Error>)
    ensures
        r == Ok::<Integer, Error>(a & b),
{
    Ok(a & b)
}

/// The complement of the low 8 bits of `a`, as a non-negative integer.
pub open spec fn complement8(a: i128) -> i128 {
    (!(a as u8)) as i128
}

/// Complements the low 8 bits of an integer.
pub fn not8(a: Integer) -> (r: Integer)
    ensures
        r == complement8(a),
{
    (!(#[verifier::truncate] (a as u8))) as i128
}

/// The complement of the low 16 bits of `a`, as a non-negative integer.
pub open spec fn complement16(a: i128) -> i128 {
    (!(a as u16)) as i128
}

/// Complements the low 16 bits of an integer.
pub fn not16(a: Integer) -> (r: Integer)
    ensures
        r == complement16(a),
{
    (!(#[verifier::truncate] (a as u16))) as i128
}

/// The complement of the low 32 bits of `a`, as a non-negative integer.
pub open spec fn complement32(a: i128) -> i128 {
    (!(a as u32)) as i128
}

/// Complements the low 32 bits of an integer.
pub fn not32(a: Integer) -> (r: Integer)
    ensures
        r == complement32(a),
{
    (!(#[verifier::truncate] (a as u32))) as i128
}

/// The complement of the low 64 bits of `a`, as a non-negative integer.
pub open spec fn complement64(a: i128) -> i128 {
    (!(a as u64)) as i128
}

/// Complements the low 64 bits of an integer.
pub fn not64(a: Integer) -> (r: Integer)
    ensures
        r == complement64(a),
{
    (!(#[verifier::truncate] (a as u64))) as i128
}

/// The exclusive or of the low 8 bits of `a` and of `b`, as a non-negative integer.
pub open spec fn exclusive8(a: i128, b: i128) -> i128 {
    ((a as u8) ^ (b as u8)) as i128
}

/// The exclusive or of the low 8 bits of two integers.
pub fn xor8(a: Integer, b: Integer) -> (r: Integer)
    ensures
        r == exclusive8(a, b),
{
    (((#[verifier::truncate] (a as u8)) ^ (#[verifier::truncate] (b as u8))) as i128)
}

/// The exclusive or of the low 16 bits of `a` and of `b`, as a non-negative integer.
pub open spec fn exclusive16(a: i128, b: i128) -> i128 {
    ((a as u16) ^ (b as u16)) as i128
}

/// The exclusive or of the low 16 bits of two integers.
pub fn xor16(a: Integer, b: Integer) -> (r: Integer)
    ensures
        r == exclusive16(a, b),
{
    (((#[verifier::truncate] (a as u16)) ^ (#[verifier::truncate] (b as u16))) as i128)
}

/// The exclusive or of the low 32 bits of `a` and of `b`, as a non-negative integer.
pub open spec fn exclusive32(a: i128, b: i128) -> i128 {
    ((a as u32) ^ (b as u32)) as i128
}

/// The exclusive or of the low 32 bits of two integers.
pub fn xor32(a: Integer, b: Integer) -> (r: Integer)
    ensures
        r == exclusive32(a, b),
{
    (((#[verifier::truncate] (a as u32)) ^ (#[verifier::truncate] (b as u32))) as i128)
}

/// The exclusive or of the low 64 bits of `a` and of `b`, as a non-negative integer.
pub open spec fn exclusive64(a: i128, b: i128) -> i128 {
    ((a as u64) ^ (b as u64)) as i128
}

/// The exclusive or of the low 64 bits of two integers.
pub fn xor64(a: Integer, b: Integer) -> (r: Integer)
    ensures
        r == exclusive64(a, b),
{
    (((#[verifier::truncate] (a as u64)) ^ (#[verifier::truncate] (b as u64))) as i128)
}

/// The exclusive or of the low 128 bits of `a` and of `b`, read as a signed integer.
pub open spec fn exclusive128(a: i128, b: i128) -> i128 {
    ((a as u128) ^ (b as u128)) as i128
}

/// The exclusive or of the low 128 bits of two integers.
pub fn xor128(a: Integer, b: Integer) -> (r: Integer)
    ensures
        r == exclusive128(a, b),
{
    #[verifier::truncate] (((#[verifier::truncate] (a as u128)) ^ (#[verifier::truncate] (b as u128))) as i128)
}

} // verus!
