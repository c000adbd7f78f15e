//! Functions on bytes and bits for the host expression language: bitwise
//! operations at a fixed width, the positions of the one bits of a number, and
//! conversions between numbers, strings and tuples of bytes.
use vstd::prelude::*;
use crate::display::{convert_to_string, radix_text};
use crate::expr::arith::custom as message;
use crate::expr::bytes::{
    bytes_of, lemma_pack_fits, lemma_reversal_fits, pack, pack_bytes, unpack_bytes,
};
use crate::expr::handler::{as_chars, chars_of_bytes_reversed, reversed_chars};
use crate::float::FloatUnit;
use crate::text::{chars_of, same_text, string_of};
use crate::value::{lemma_tuple_view, views, Value, ValueView};
use crate::{Float, Integer};

verus! {

/// Why a function has no result.
#[derive(Debug, PartialEq)]
pub enum FnError {
    CustomMessage(String),
    ExpectedInt { actual: Value },
    ExpectedTuple { actual: Value },
    WrongFunctionArgumentAmount { expected: usize, actual: usize },
}

/// The mathematical value of a [`FnError`].
pub ghost enum FnErrorView {
    CustomMessage(Seq<char>),
    ExpectedInt { actual: ValueView },
    ExpectedTuple { actual: ValueView },
    WrongFunctionArgumentAmount { expected: usize, actual: usize },
}

impl View for FnError {
    type V = FnErrorView;

    open spec fn view(&self) -> FnErrorView {
        match self {
            FnError::CustomMessage(s) => FnErrorView::CustomMessage(s@),
            FnError::ExpectedInt { actual } => FnErrorView::ExpectedInt { actual: actual@ },
            FnError::ExpectedTuple { actual } => FnErrorView::ExpectedTuple { actual: actual@ },
            FnError::WrongFunctionArgumentAmount { expected, actual } =>
                FnErrorView::WrongFunctionArgumentAmount { expected: *expected, actual: *actual },
        }
    }
}

/// The mathematical value of what a function returns.
pub open spec fn returned(r: Result<Value, FnError>) -> Result<ValueView, FnErrorView> {
    match r {
        Ok(v) => Ok(v@),
        Err(e) => Err(e@),
    }
}

/// The error of a number that does not fit the type it is converted to.
pub open spec fn out_of_range() -> FnErrorView {
    FnErrorView::CustomMessage("out of range integral type conversion attempted"@)
}

fn out_of_range_error() -> (e: FnError)
    ensures
        e@ == out_of_range(),
{
    FnError::CustomMessage("out of range integral type conversion attempted".to_owned())
}

/// The error of a value that is no integer.
fn expected_int(val: &Value) -> (e: FnError)
    ensures
        e@ == (FnErrorView::ExpectedInt { actual: val@ }),
{
    FnError::ExpectedInt { actual: val.duplicate() }
}

/// The integer of a value, read as unsigned; a negative one is out of range.
pub open spec fn unsigned_of(v: ValueView) -> Result<u128, FnErrorView> {
    match v {
        ValueView::Int(i) => if i < 0 {
            Err(out_of_range())
        } else {
            Ok(i as u128)
        },
        _ => Err(FnErrorView::ExpectedInt { actual: v }),
    }
}

fn to_unsigned(val: &Value) -> (r: Result<u128, FnError>)
    ensures
        match unsigned_of(val@) {
            Ok(n) => r == Ok::<u128, FnError>(n),
            Err(e) => r is Err && r->Err_0@ == e,
        },
{
    match val {
        Value::Int(i) => {
            if *i < 0 {
                Err(out_of_range_error())
            } else {
                Ok(*i as u128)
            }
        },
        _ => Err(expected_int(val)),
    }
}

/// An unsigned number as an integer of the host language, if it fits.
pub open spec fn signed_of(n: nat) -> Result<ValueView, FnErrorView> {
    if n <= i128::MAX {
        Ok(ValueView::Int(n as i128))
    } else {
        Err(out_of_range())
    }
}

fn to_signed(n: u128) -> (r: Result<Value, FnError>)
    ensures
        returned(r) == signed_of(n as nat),
{
    if n <= 0x7FFF_FFFF_FFFF_FFFF_FFFF_FFFF_FFFF_FFFF {
        Ok(Value::Int(n as i128))
    } else {
        Err(out_of_range_error())
    }
}

/// The two arguments of a function that takes two: they come as a tuple.
pub open spec fn pair_of(v: ValueView) -> Result<(ValueView, ValueView), FnErrorView> {
    match v {
        ValueView::Tuple(args) => if args.len() == 2 {
            Ok((args[0], args[1]))
        } else {
            Err(
                FnErrorView::WrongFunctionArgumentAmount {
                    expected: 2,
                    actual: args.len() as usize,
                },
            )
        },
        _ => Err(FnErrorView::WrongFunctionArgumentAmount { expected: 2, actual: 1 }),
    }
}

/// Builds an error that holds a message.
fn message_error(text: &str) -> (e: FnError)
    ensures
        e@ == FnErrorView::CustomMessage(text@),
{
    FnError::CustomMessage(text.to_owned())
}

/// The integer of a value as an unsigned 8-bit number.
pub open spec fn as_u8(v: ValueView) -> Result<u8, FnErrorView> {
    match v {
        ValueView::Int(i) => if i < 0 || i > 0xFF {
            Err(FnErrorView::CustomMessage("Value exceed 8 bit width"@))
        } else {
            Ok(i as u8)
        },
        _ => Err(FnErrorView::ExpectedInt { actual: v }),
    }
}

/// The integer of a value as an unsigned 8-bit number; a number outside
/// the width and a value that is no integer are refused.
pub fn to_u8(val: &Value) -> (r: Result<u8, FnError>)
    ensures
        match as_u8(val@) {
            Ok(n) => r == Ok::<u8, FnError>(n),
            Err(e) => r is Err && r->Err_0@ == e,
        },
{
    if let Value::Int(i) = val {
        if *i < 0 || *i > 0xFF {
            return Err(message_error("Value exceed 8 bit width"));
        }
        return Ok(*i as u8);
    } else {
        return Err(expected_int(val));
    }
}

/// The complement of a number within 8 bits.
pub open spec fn complement_u8(v: ValueView) -> Result<ValueView, FnErrorView> {
    match as_u8(v) {
        Ok(a) => Ok(ValueView::Int((!a) as i128)),
        Err(e) => Err(e),
    }
}

/// The complement of a number within 8 bits.
pub fn not8(val: &Value) -> (r: Result<Value, FnError>)
    ensures
        returned(r) == complement_u8(val@),
{
    let a = to_u8(val)?;
    Ok(Value::Int((!a) as i128))
}

/// What a function of two 8-bit numbers returns, given what it makes of
/// the two.
pub open spec fn both_u8(v: ValueView, f: spec_fn(u8, u8) -> u8) -> Result<
    ValueView,
    FnErrorView,
> {
    match pair_of(v) {
        Err(e) => Err(e),
        Ok((first, second)) => match as_u8(first) {
            Err(e) => Err(e),
            Ok(a) => match as_u8(second) {
                Err(e) => Err(e),
                Ok(b) => Ok(ValueView::Int(f(a, b) as i128)),
            },
        },
    }
}

/// The two 8-bit numbers that a function of two takes.
fn pair8(val: &Value) -> (r: Result<(u8, u8), FnError>)
    ensures
        match pair_of(val@) {
            Err(e) => r is Err && r->Err_0@ == e,
            Ok((first, second)) => match as_u8(first) {
                Err(e) => r is Err && r->Err_0@ == e,
                Ok(a) => match as_u8(second) {
                    Err(e) => r is Err && r->Err_0@ == e,
                    Ok(b) => r == Ok::<(u8, u8), FnError>((a, b)),
                },
            },
        },
{
    if let Value::Tuple(args) = val {
        proof {
            lemma_tuple_view(*val);
        }
        if args.len() != 2 {
            return Err(
                FnError::WrongFunctionArgumentAmount { expected: 2, actual: args.len() },
            );
        }
        let a = to_u8(&args[0])?;
        let b = to_u8(&args[1])?;
        return Ok((a, b));
    } else {
        return Err(FnError::WrongFunctionArgumentAmount { expected: 2, actual: 1 });
    }
}

/// The bitwise or of two 8-bit numbers.
pub fn or8(val: &Value) -> (r: Result<Value, FnError>)
    ensures
        returned(r) == both_u8(val@, |a: u8, b: u8| a | b),
{
    let (a, b) = pair8(val)?;
    return Ok(Value::Int((a | b) as i128));
}

/// The bitwise and of two 8-bit numbers.
pub fn and8(val: &Value) -> (r: Result<Value, FnError>)
    ensures
        returned(r) == both_u8(val@, |a: u8, b: u8| a & b),
{
    let (a, b) = pair8(val)?;
    return Ok(Value::Int((a & b) as i128));
}

/// The bitwise exclusive or of two 8-bit numbers.
pub fn xor8(val: &Value) -> (r: Result<Value, FnError>)
    ensures
        returned(r) == both_u8(val@, |a: u8, b: u8| a ^ b),
{
    let (a, b) = pair8(val)?;
    return Ok(Value::Int((a ^ b) as i128));
}

/// The integer of a value as an unsigned 16-bit number.
pub open spec fn as_u16(v: ValueView) -> Result<u16, FnErrorView> {
    match v {
        ValueView::Int(i) => if i < 0 || i > 0xFFFF {
            Err(FnErrorView::CustomMessage("Value exceed 16 bit width"@))
        } else {
            Ok(i as u16)
        },
        _ => Err(FnErrorView::ExpectedInt { actual: v }),
    }
}

/// The integer of a value as an unsigned 16-bit number; a number outside
/// the width and a value that is no integer are refused.
pub fn to_u16(val: &Value) -> (r: Result<u16, FnError>)
    ensures
        match as_u16(val@) {
            Ok(n) => r == Ok::<u16, FnError>(n),
            Err(e) => r is Err && r->Err_0@ == e,
        },
{
    if let Value::Int(i) = val {
        if *i < 0 || *i > 0xFFFF {
            return Err(message_error("Value exceed 16 bit width"));
        }
        return Ok(*i as u16);
    } else {
        return Err(expected_int(val));
    }
}

/// The complement of a number within 16 bits.
pub open spec fn complement_u16(v: ValueView) -> Result<ValueView, FnErrorView> {
    match as_u16(v) {
        Ok(a) => Ok(ValueView::Int((!a) as i128)),
        Err(e) => Err(e),
    }
}

/// The complement of a number within 16 bits.
pub fn not16(val: &Value) -> (r: Result<Value, FnError>)
    ensures
        returned(r) == complement_u16(val@),
{
    let a = to_u16(val)?;
    Ok(Value::Int((!a) as i128))
}

/// What a function of two 16-bit numbers returns, given what it makes of
/// the two.
pub open spec fn both_u16(v: ValueView, f: spec_fn(u16, u16) -> u16) -> Result<
    ValueView,
    FnErrorView,
> {
    match pair_of(v) {
        Err(e) => Err(e),
        Ok((first, second)) => match as_u16(first) {
            Err(e) => Err(e),
            Ok(a) => match as_u16(second) {
                Err(e) => Err(e),
                Ok(b) => Ok(ValueView::Int(f(a, b) as i128)),
            },
        },
    }
}

/// The two 16-bit numbers that a function of two takes.
fn pair16(val: &Value) -> (r: Result<(u16, u16), FnError>)
    ensures
        match pair_of(val@) {
            Err(e) => r is Err && r->Err_0@ == e,
            Ok((first, second)) => match as_u16(first) {
                Err(e) => r is Err && r->Err_0@ == e,
                Ok(a) => match as_u16(second) {
                    Err(e) => r is Err && r->Err_0@ == e,
                    Ok(b) => r == Ok::<(u16, u16), FnError>((a, b)),
                },
            },
        },
{
    if let Value::Tuple(args) = val {
        proof {
            lemma_tuple_view(*val);
        }
        if args.len() != 2 {
            return Err(
                FnError::WrongFunctionArgumentAmount { expected: 2, actual: args.len() },
            );
        }
        let a = to_u16(&args[0])?;
        let b = to_u16(&args[1])?;
        return Ok((a, b));
    } else {
        return Err(FnError::WrongFunctionArgumentAmount { expected: 2, actual: 1 });
    }
}

/// The bitwise or of two 16-bit numbers.
pub fn or16(val: &Value) -> (r: Result<Value, FnError>)
    ensures
        returned(r) == both_u16(val@, |a: u16, b: u16| a | b),
{
    let (a, b) = pair16(val)?;
    return Ok(Value::Int((a | b) as i128));
}

/// The bitwise and of two 16-bit numbers.
pub fn and16(val: &Value) -> (r: Result<Value, FnError>)
    ensures
        returned(r) == both_u16(val@, |a: u16, b: u16| a & b),
{
    let (a, b) = pair16(val)?;
    return Ok(Value::Int((a & b) as i128));
}

/// The bitwise exclusive or of two 16-bit numbers.
pub fn xor16(val: &Value) -> (r: Result<Value, FnError>)
    ensures
        returned(r) == both_u16(val@, |a: u16, b: u16| a ^ b),
{
    let (a, b) = pair16(val)?;
    return Ok(Value::Int((a ^ b) as i128));
}

/// The integer of a value as an unsigned 32-bit number.
pub open spec fn as_u32(v: ValueView) -> Result<u32, FnErrorView> {
    match v {
        ValueView::Int(i) => if i < 0 || i > 0xFFFF_FFFF {
            Err(FnErrorView::CustomMessage("Value exceed 32 bit width"@))
        } else {
            Ok(i as u32)
        },
        _ => Err(FnErrorView::ExpectedInt { actual: v }),
    }
}

/// The integer of a value as an unsigned 32-bit number; a number outside
/// the width and a value that is no integer are refused.
pub fn to_u32(val: &Value) -> (r: Result<u32, FnError>)
    ensures
        match as_u32(val@) {
            Ok(n) => r == Ok::<u32, FnError>(n),
            Err(e) => r is Err && r->Err_0@ == e,
        },
{
    if let Value::Int(i) = val {
        if *i < 0 || *i > 0xFFFF_FFFF {
            return Err(message_error("Value exceed 32 bit width"));
        }
        return Ok(*i as u32);
    } else {
        return Err(expected_int(val));
    }
}

/// The complement of a number within 32 bits.
pub open spec fn complement_u32(v: ValueView) -> Result<ValueView, FnErrorView> {
    match as_u32(v) {
        Ok(a) => Ok(ValueView::Int((!a) as i128)),
        Err(e) => Err(e),
    }
}

/// The complement of a number within 32 bits.
pub fn not32(val: &Value) -> (r: Result<Value, FnError>)
    ensures
        returned(r) == complement_u32(val@),
{
    let a = to_u32(val)?;
    Ok(Value::Int((!a) as i128))
}

/// What a function of two 32-bit numbers returns, given what it makes of
/// the two.
pub open spec fn both_u32(v: ValueView, f: spec_fn(u32, u32) -> u32) -> Result<
    ValueView,
    FnErrorView,
> {
    match pair_of(v) {
        Err(e) => Err(e),
        Ok((first, second)) => match as_u32(first) {
            Err(e) => Err(e),
            Ok(a) => match as_u32(second) {
                Err(e) => Err(e),
                Ok(b) => Ok(ValueView::Int(f(a, b) as i128)),
            },
        },
    }
}

/// The two 32-bit numbers that a function of two takes.
fn pair32(val: &Value) -> (r: Result<(u32, u32), FnError>)
    ensures
        match pair_of(val@) {
            Err(e) => r is Err && r->Err_0@ == e,
            Ok((first, second)) => match as_u32(first) {
                Err(e) => r is Err && r->Err_0@ == e,
                Ok(a) => match as_u32(second) {
                    Err(e) => r is Err && r->Err_0@ == e,
                    Ok(b) => r == Ok::<(u32, u32), FnError>((a, b)),
                },
            },
        },
{
    if let Value::Tuple(args) = val {
        proof {
            lemma_tuple_view(*val);
        }
        if args.len() != 2 {
            return Err(
                FnError::WrongFunctionArgumentAmount { expected: 2, actual: args.len() },
            );
        }
        let a = to_u32(&args[0])?;
        let b = to_u32(&args[1])?;
        return Ok((a, b));
    } else {
        return Err(FnError::WrongFunctionArgumentAmount { expected: 2, actual: 1 });
    }
}

/// The bitwise or of two 32-bit numbers.
pub fn or32(val: &Value) -> (r: Result<Value, FnError>)
    ensures
        returned(r) == both_u32(val@, |a: u32, b: u32| a | b),
{
    let (a, b) = pair32(val)?;
    return Ok(Value::Int((a | b) as i128));
}

/// The bitwise and of two 32-bit numbers.
pub fn and32(val: &Value) -> (r: Result<Value, FnError>)
    ensures
        returned(r) == both_u32(val@, |a: u32, b: u32| a & b),
{
    let (a, b) = pair32(val)?;
    return Ok(Value::Int((a & b) as i128));
}

/// The bitwise exclusive or of two 32-bit numbers.
pub fn xor32(val: &Value) -> (r: Result<Value, FnError>)
    ensures
        returned(r) == both_u32(val@, |a: u32, b: u32| a ^ b),
{
    let (a, b) = pair32(val)?;
    return Ok(Value::Int((a ^ b) as i128));
}

/// The integer of a value as an unsigned 64-bit number.
pub open spec fn as_u64(v: ValueView) -> Result<u64, FnErrorView> {
    match v {
        ValueView::Int(i) => if i < 0 || i > 0xFFFF_FFFF_FFFF_FFFF {
            Err(FnErrorView::CustomMessage("Value exceed 36 bit width"@))
        } else {
            Ok(i as u64)
        },
        _ => Err(FnErrorView::ExpectedInt { actual: v }),
    }
}

/// The integer of a value as an unsigned 64-bit number; a number outside
/// the width and a value that is no integer are refused.
pub fn to_u64(val: &Value) -> (r: Result<u64, FnError>)
    ensures
        match as_u64(val@) {
            Ok(n) => r == Ok::<u64, FnError>(n),
            Err(e) => r is Err && r->Err_0@ == e,
        },
{
    if let Value::Int(i) = val {
        if *i < 0 || *i > 0xFFFF_FFFF_FFFF_FFFF {
            return Err(message_error("Value exceed 36 bit width"));
        }
        return Ok(*i as u64);
    } else {
        return Err(expected_int(val));
    }
}

/// The complement of a number within 64 bits.
pub open spec fn complement_u64(v: ValueView) -> Result<ValueView, FnErrorView> {
    match as_u64(v) {
        Ok(a) => Ok(ValueView::Int((!a) as i128)),
        Err(e) => Err(e),
    }
}

/// The complement of a number within 64 bits.
pub fn not64(val: &Value) -> (r: Result<Value, FnError>)
    ensures
        returned(r) == complement_u64(val@),
{
    let a = to_u64(val)?;
    Ok(Value::Int((!a) as i128))
}

/// What a function of two 64-bit numbers returns, given what it makes of
/// the two.
pub open spec fn both_u64(v: ValueView, f: spec_fn(u64, u64) -> u64) -> Result<
    ValueView,
    FnErrorView,
> {
    match pair_of(v) {
        Err(e) => Err(e),
        Ok((first, second)) => match as_u64(first) {
            Err(e) => Err(e),
            Ok(a) => match as_u64(second) {
                Err(e) => Err(e),
                Ok(b) => Ok(ValueView::Int(f(a, b) as i128)),
            },
        },
    }
}

/// The two 64-bit numbers that a function of two takes.
fn pair64(val: &Value) -> (r: Result<(u64, u64), FnError>)
    ensures
        match pair_of(val@) {
            Err(e) => r is Err && r->Err_0@ == e,
            Ok((first, second)) => match as_u64(first) {
                Err(e) => r is Err && r->Err_0@ == e,
                Ok(a) => match as_u64(second) {
                    Err(e) => r is Err && r->Err_0@ == e,
                    Ok(b) => r == Ok::<(u64, u64), FnError>((a, b)),
                },
            },
        },
{
    if let Value::Tuple(args) = val {
        proof {
            lemma_tuple_view(*val);
        }
        if args.len() != 2 {
            return Err(
                FnError::WrongFunctionArgumentAmount { expected: 2, actual: args.len() },
            );
        }
        let a = to_u64(&args[0])?;
        let b = to_u64(&args[1])?;
        return Ok((a, b));
    } else {
        return Err(FnError::WrongFunctionArgumentAmount { expected: 2, actual: 1 });
    }
}

/// The bitwise or of two 64-bit numbers.
pub fn or64(val: &Value) -> (r: Result<Value, FnError>)
    ensures
        returned(r) == both_u64(val@, |a: u64, b: u64| a | b),
{
    let (a, b) = pair64(val)?;
    return Ok(Value::Int((a | b) as i128));
}

/// The bitwise and of two 64-bit numbers.
pub fn and64(val: &Value) -> (r: Result<Value, FnError>)
    ensures
        returned(r) == both_u64(val@, |a: u64, b: u64| a & b),
{
    let (a, b) = pair64(val)?;
    return Ok(Value::Int((a & b) as i128));
}

/// The bitwise exclusive or of two 64-bit numbers.
pub fn xor64(val: &Value) -> (r: Result<Value, FnError>)
    ensures
        returned(r) == both_u64(val@, |a: u64, b: u64| a ^ b),
{
    let (a, b) = pair64(val)?;
    return Ok(Value::Int((a ^ b) as i128));
}

/// A number as a floating-point number. A floating-point number is returned
/// as it is; an integer has to fit 32 bits, so that nothing of it is lost.
pub fn float<F: FloatUnit>(val: &Value, unit: &F) -> (r: Result<Value, FnError>)
    ensures
        match val@ {
            ValueView::Float(_) => returned(r) == Ok::<ValueView, FnErrorView>(val@),
            ValueView::Int(i) => if i32::MIN <= i <= i32::MAX {
                r is Ok && r->Ok_0@ is Float
            } else {
                returned(r) == Err::<ValueView, FnErrorView>(out_of_range())
            },
            _ => returned(r) == Err::<ValueView, FnErrorView>(
                FnErrorView::ExpectedInt { actual: val@ },
            ),
        },
{
    match val {
        Value::Float(f) => Ok(Value::Float(*f)),
        Value::Int(i) => {
            if *i < -0x8000_0000 || *i > 0x7FFF_FFFF {
                return Err(out_of_range_error());
            }
            Ok(Value::Float(unit.from_int(*i)))
        },
        _ => Err(expected_int(val)),
    }
}

/// Whether bit `i` of `n` is one.
pub open spec fn bit_set(n: u128, i: u32) -> bool {
    n & (1u128 << i) != 0
}

/// The positions below `limit` of the one bits of `n`, in rising order.
pub open spec fn one_bits(n: u128, limit: nat) -> Seq<i128>
    decreases limit,
{
    if limit == 0 {
        Seq::empty()
    } else {
        let below = one_bits(n, (limit - 1) as nat);
        if bit_set(n, (limit - 1) as u32) {
            below.push((limit - 1) as i128)
        } else {
            below
        }
    }
}

/// The positions below `limit` of the one bits of a number, in rising order.
pub fn count_bits_below(val: u128, limit: u32) -> (r: Vec<Integer>)
    requires
        limit <= 128,
    ensures
        r@ == one_bits(val, limit as nat),
{
    let mut result: Vec<Integer> = Vec::new();
    let mut i: u32 = 0;
    while i < limit
        invariant
            i <= limit <= 128,
            result@ == one_bits(val, i as nat),
        decreases limit - i,
    {
        if val & (1u128 << i) != 0 {
            result.push(i as i128);
        }
        i = i + 1;
    }
    result
}

/// The positions of the one bits of a number, in rising order.
pub fn count_bits(val: u128) -> (r: Vec<Integer>)
    ensures
        r@ == one_bits(val, 128),
{
    count_bits_below(val, 128)
}

/// The numbers in decimal, with a comma and a blank between two of them.
pub open spec fn listed(numbers: Seq<i128>) -> Seq<char>
    decreases numbers.len(),
{
    if numbers.len() == 0 {
        Seq::empty()
    } else if numbers.len() == 1 {
        radix_text(numbers[0] as int, 10)
    } else {
        listed(numbers.drop_last()) + seq![',', ' '] + radix_text(numbers.last() as int, 10)
    }
}

/// The positions of the one bits of a number, as a text.
pub open spec fn bits_of(v: ValueView) -> Result<ValueView, FnErrorView> {
    match unsigned_of(v) {
        Ok(n) => Ok(ValueView::String(listed(one_bits(n, 128)))),
        Err(e) => Err(e),
    }
}

/// Writes the numbers in decimal, with a comma and a blank between two of
/// them.
pub fn list_text(numbers: &Vec<Integer>) -> (r: String)
    ensures
        r@ == listed(numbers@),
{
    let mut text: Vec<char> = Vec::new();
    let mut i: usize = 0;
    while i < numbers.len()
        invariant
            i <= numbers@.len(),
            text@ == listed(numbers@.take(i as int)),
        decreases numbers@.len() - i,
    {
        let ghost upto = numbers@.take(i + 1);
        assert(upto.drop_last() =~= numbers@.take(i as int));
        if i > 0 {
            text.push(',');
            text.push(' ');
        }
        let mut number = match convert_to_string(numbers[i], 10) {
            Ok(s) => chars_of(s.as_str()),
            Err(_) => Vec::new(),
        };
        text.append(&mut number);
        i = i + 1;
    }
    assert(numbers@.take(i as int) =~= numbers@);
    string_of(&text)
}

/// The positions of the one bits of a number, as a text.
pub fn bits(val: &Value) -> (r: Result<Value, FnError>)
    ensures
        returned(r) == bits_of(val@),
{
    let positions = count_bits(to_unsigned(val)?);
    Ok(Value::String(list_text(&positions)))
}

/// The integers as values.
pub open spec fn integers(numbers: Seq<i128>) -> Seq<ValueView> {
    numbers.map_values(|i: i128| ValueView::Int(i))
}

/// The positions of the one bits of a number, as a tuple.
pub open spec fn bits_tuple_of(v: ValueView) -> Result<ValueView, FnErrorView> {
    match unsigned_of(v) {
        Ok(n) => Ok(ValueView::Tuple(integers(one_bits(n, 128)))),
        Err(e) => Err(e),
    }
}

/// A tuple of the given integers.
fn tuple_of(numbers: &Vec<Integer>) -> (r: Value)
    ensures
        r@ == ValueView::Tuple(integers(numbers@)),
{
    let mut items: Vec<Value> = Vec::new();
    let mut i: usize = 0;
    while i < numbers.len()
        invariant
            i <= numbers@.len(),
            items@.len() == i,
            forall|k: int| 0 <= k < i ==> (#[trigger] items@[k])@ == ValueView::Int(numbers@[k]),
        decreases numbers@.len() - i,
    {
        items.push(Value::Int(numbers[i]));
        i = i + 1;
    }
    let r = Value::Tuple(items);
    proof {
        lemma_tuple_view(r);
        assert(views(items@) =~= integers(numbers@));
    }
    r
}

/// The positions of the one bits of a number, as a tuple.
pub fn bits_t(val: &Value) -> (r: Result<Value, FnError>)
    ensures
        returned(r) == bits_tuple_of(val@),
{
    let positions = count_bits(to_unsigned(val)?);
    Ok(tuple_of(&positions))
}

/// The bytes that the items of a tuple stand for; the first item that is no
/// byte decides the error.
pub open spec fn bytes_from(items: Seq<ValueView>) -> Result<Seq<u8>, FnErrorView>
    decreases items.len(),
{
    if items.len() == 0 {
        Ok(Seq::empty())
    } else {
        match bytes_from(items.drop_last()) {
            Err(e) => Err(e),
            Ok(front) => match as_u8(items.last()) {
                Err(e) => Err(e),
                Ok(b) => Ok(front.push(b)),
            },
        }
    }
}

fn collect_bytes(items: &Vec<Value>) -> (r: Result<Vec<u8>, FnError>)
    ensures
        match bytes_from(views(items@)) {
            Ok(bytes) => r is Ok && r->Ok_0@ == bytes,
            Err(e) => r is Err && r->Err_0@ == e,
        },
{
    let mut bytes: Vec<u8> = Vec::new();
    let mut i: usize = 0;
    while i < items.len()
        invariant
            i <= items@.len(),
            bytes_from(views(items@).take(i as int)) == Ok::<Seq<u8>, FnErrorView>(bytes@),
        decreases items@.len() - i,
    {
        let ghost upto = views(items@).take(i + 1);
        assert(upto.drop_last() =~= views(items@).take(i as int));
        match to_u8(&items[i]) {
            Ok(b) => {
                bytes.push(b);
            },
            Err(e) => {
                proof {
                    lemma_bytes_from_fails(views(items@), i as nat + 1);
                }
                return Err(e);
            },
        }
        i = i + 1;
    }
    assert(views(items@).take(i as int) =~= views(items@));
    Ok(bytes)
}

/// Once an item is no byte, the items behind it change nothing.
proof fn lemma_bytes_from_fails(items: Seq<ValueView>, k: nat)
    requires
        k <= items.len(),
        bytes_from(items.take(k as int)) is Err,
    ensures
        bytes_from(items) == bytes_from(items.take(k as int)),
    decreases items.len() - k,
{
    if k < items.len() {
        assert(items.take(k as int + 1).drop_last() =~= items.take(k as int));
        lemma_bytes_from_fails(items, k + 1);
    } else {
        assert(items.take(k as int) =~= items);
    }
}

/// Whether every character is one of the 128 of ASCII.
pub open spec fn all_ascii(s: Seq<char>) -> bool {
    forall|i: int| 0 <= i < s.len() ==> (#[trigger] s[i]) as u32 <= 0x7F
}

/// The codes of the characters as values.
pub open spec fn codes(s: Seq<char>) -> Seq<ValueView> {
    s.map_values(|c: char| ValueView::Int(c as u32 as i128))
}

/// An integer becomes the string of the bytes it occupies, the most
/// significant first; a tuple of bytes the string of these; and a string of
/// ASCII characters the tuple of their codes.
pub open spec fn ascii_of(v: ValueView) -> Result<ValueView, FnErrorView> {
    match v {
        ValueView::Int(_) => match unsigned_of(v) {
            Ok(n) => Ok(ValueView::String(as_chars(bytes_of(n as nat).reverse()))),
            Err(e) => Err(e),
        },
        ValueView::Tuple(items) => match bytes_from(items) {
            Ok(bytes) => Ok(ValueView::String(as_chars(bytes))),
            Err(e) => Err(e),
        },
        ValueView::String(s) => if all_ascii(s) {
            Ok(ValueView::Tuple(codes(s)))
        } else {
            Err(FnErrorView::CustomMessage("Only ascii characters are allowed"@))
        },
        _ => Err(FnErrorView::ExpectedInt { actual: v }),
    }
}

/// The characters whose codes are the given bytes.
fn chars_of_bytes(bytes: &Vec<u8>) -> (r: Vec<char>)
    ensures
        r@ == as_chars(bytes@),
{
    let mut r: Vec<char> = Vec::new();
    let mut i: usize = 0;
    while i < bytes.len()
        invariant
            i <= bytes@.len(),
            r@.len() == i,
            forall|k: int| 0 <= k < i ==> r@[k] == bytes@[k] as char,
        decreases bytes@.len() - i,
    {
        r.push(bytes[i] as char);
        i = i + 1;
    }
    r
}

/// Converts between a number, the string of its bytes and the tuple of a
/// string's character codes.
pub fn ascii(val: &Value) -> (r: Result<Value, FnError>)
    ensures
        returned(r) == ascii_of(val@),
{
    match val {
        Value::Int(_) => {
            let bytes = unpack_bytes(to_unsigned(val)?);
            let chars = chars_of_bytes_reversed(&bytes);
            return Ok(Value::String(string_of(&chars)));
        },
        Value::Tuple(items) => {
            proof {
                lemma_tuple_view(*val);
            }
            let bytes = collect_bytes(items)?;
            let chars = chars_of_bytes(&bytes);
            return Ok(Value::String(string_of(&chars)));
        },
        Value::String(s) => {
            let chars = chars_of(s.as_str());
            let mut result: Vec<Value> = Vec::new();
            let mut i: usize = 0;
            while i < chars.len()
                invariant
                    i <= chars@.len(),
                    chars@ == s@,
                    val@ == ValueView::String(s@),
                    result@.len() == i,
                    forall|k: int| 0 <= k < i ==> (#[trigger] chars@[k]) as u32 <= 0x7F,
                    forall|k: int|
                        0 <= k < i ==> (#[trigger] result@[k])@ == ValueView::Int(
                            chars@[k] as u32 as i128,
                        ),
                decreases chars@.len() - i,
            {
                let c = chars[i];
                if c as u32 > 0x7F {
                    assert(!all_ascii(s@));
                    return Err(message_error("Only ascii characters are allowed"));
                }
                result.push(Value::Int(c as u32 as i128));
                i = i + 1;
            }
            let r = Value::Tuple(result);
            proof {
                lemma_tuple_view(r);
                assert(views(result@) =~= codes(s@));
            }
            return Ok(r);
        },
        _ => {
            return Err(expected_int(val));
        },
    }
}

/// A string is reversed character by character, a tuple item by item, and an
/// integer byte by byte, within the bytes that it occupies.
pub open spec fn reversed(v: ValueView) -> Result<ValueView, FnErrorView> {
    match v {
        ValueView::String(s) => Ok(ValueView::String(s.reverse())),
        ValueView::Int(_) => match unsigned_of(v) {
            Ok(n) => signed_of(pack(bytes_of(n as nat))),
            Err(e) => Err(e),
        },
        ValueView::Tuple(items) => Ok(ValueView::Tuple(items.reverse())),
        _ => Err(FnErrorView::ExpectedInt { actual: v }),
    }
}

/// Reverses a string, a tuple, or the bytes of a number.
pub fn rev(val: &Value) -> (r: Result<Value, FnError>)
    ensures
        returned(r) == reversed(val@),
{
    match val {
        Value::String(s) => {
            let chars = chars_of(s.as_str());
            let turned = reversed_chars(&chars);
            Ok(Value::String(string_of(&turned)))
        },
        Value::Int(_) => {
            let n = to_unsigned(val)?;
            let bytes = unpack_bytes(n);
            let packed = pack_bytes(&bytes);
            proof {
                lemma_reversal_fits(n);
            }
            to_signed(packed)
        },
        Value::Tuple(items) => {
            let mut turned: Vec<Value> = Vec::new();
            let mut i: usize = items.len();
            while i > 0
                invariant
                    i <= items@.len(),
                    turned@.len() == items@.len() - i,
                    forall|k: int|
                        0 <= k < turned@.len() ==> (#[trigger] turned@[k])@ == items@[items@.len()
                            - 1 - k]@,
                decreases i,
            {
                i = i - 1;
                turned.push(items[i].duplicate());
            }
            let r = Value::Tuple(turned);
            proof {
                lemma_tuple_view(r);
                lemma_tuple_view(*val);
                assert(views(turned@) =~= views(items@).reverse());
            }
            Ok(r)
        },
        _ => Err(expected_int(val)),
    }
}

/// The error of a tuple that holds more bytes than an integer has.
pub open spec fn too_long() -> FnErrorView {
    FnErrorView::CustomMessage("Array length exceed current data width (16)."@)
}

/// A tuple of at most sixteen bytes becomes the integer packed from them, the
/// first byte most significant.
pub open spec fn merged(v: ValueView) -> Result<ValueView, FnErrorView> {
    match v {
        ValueView::Tuple(items) => if items.len() > 16 {
            Err(too_long())
        } else {
            match bytes_from(items) {
                Ok(bytes) => signed_of(pack(bytes)),
                Err(e) => Err(e),
            }
        },
        _ => Err(FnErrorView::ExpectedTuple { actual: v }),
    }
}

proof fn lemma_bytes_from_len(items: Seq<ValueView>)
    ensures
        bytes_from(items) is Ok ==> bytes_from(items)->Ok_0.len() == items.len(),
    decreases items.len(),
{
    if items.len() > 0 {
        lemma_bytes_from_len(items.drop_last());
    }
}

/// Packs a tuple of bytes into a number, the first byte most significant.
pub fn merge(val: &Value) -> (r: Result<Value, FnError>)
    ensures
        returned(r) == merged(val@),
{
    match val {
        Value::Tuple(items) => {
            proof {
                lemma_tuple_view(*val);
            }
            if items.len() > 16 {
                return Err(message_error("Array length exceed current data width (16)."));
            }
            let bytes = collect_bytes(items)?;
            proof {
                lemma_bytes_from_len(views(items@));
                lemma_pack_fits(bytes@);
            }
            to_signed(pack_bytes(&bytes))
        },
        _ => Err(FnError::ExpectedTuple { actual: val.duplicate() }),
    }
}

/// The bytes as values.
pub open spec fn byte_values(bytes: Seq<u8>) -> Seq<ValueView> {
    bytes.map_values(|b: u8| ValueView::Int(b as i128))
}

/// An integer becomes the tuple of the bytes it occupies, the most
/// significant first.
pub open spec fn bytes_tuple_of(v: ValueView) -> Result<ValueView, FnErrorView> {
    match v {
        ValueView::Int(_) => match unsigned_of(v) {
            Ok(n) => Ok(ValueView::Tuple(byte_values(bytes_of(n as nat).reverse()))),
            Err(e) => Err(e),
        },
        _ => Err(FnErrorView::ExpectedInt { actual: v }),
    }
}

/// Takes a number apart into the tuple of its bytes, the most significant
/// first.
pub fn bytes(val: &Value) -> (r: Result<Value, FnError>)
    ensures
        returned(r) == bytes_tuple_of(val@),
{
    match val {
        Value::Int(_) => {
            let low_first = unpack_bytes(to_unsigned(val)?);
            let mut result: Vec<Value> = Vec::new();
            let mut i: usize = low_first.len();
            while i > 0
                invariant
                    i <= low_first@.len(),
                    result@.len() == low_first@.len() - i,
                    forall|k: int|
                        0 <= k < result@.len() ==> (#[trigger] result@[k])@ == ValueView::Int(
                            low_first@[low_first@.len() - 1 - k] as i128,
                        ),
                decreases i,
            {
                i = i - 1;
                result.push(Value::Int(low_first[i] as i128));
            }
            let r = Value::Tuple(result);
            proof {
                lemma_tuple_view(r);
                assert(views(result@) =~= byte_values(low_first@.reverse()));
            }
            Ok(r)
        },
        _ => Err(expected_int(val)),
    }
}

/// A function for the host expression language.
#[derive(Debug, Clone, Copy, PartialEq, Eq, Structural)]
pub enum CustomFn {
    Or8,
    And8,
    Xor8,
    Not8,
    Or16,
    And16,
    Xor16,
    Not16,
    Or32,
    And32,
    Xor32,
    Not32,
    Or64,
    And64,
    Xor64,
    Not64,
    Bits,
    BitsT,
    Float,
    Ascii,
    Rev,
    Merge,
    Bytes,
}

impl CustomFn {
    /// What the function returns for an argument. `None` stands for the one
    /// case that is computed outside: the conversion of an integer to a
    /// floating-point number.
    pub open spec fn result(self, v: ValueView) -> Option<Result<ValueView, FnErrorView>> {
        match self {
            CustomFn::Or8 => Some(both_u8(v, |a: u8, b: u8| a | b)),
            CustomFn::And8 => Some(both_u8(v, |a: u8, b: u8| a & b)),
            CustomFn::Xor8 => Some(both_u8(v, |a: u8, b: u8| a ^ b)),
            CustomFn::Not8 => Some(complement_u8(v)),
            CustomFn::Or16 => Some(both_u16(v, |a: u16, b: u16| a | b)),
            CustomFn::And16 => Some(both_u16(v, |a: u16, b: u16| a & b)),
            CustomFn::Xor16 => Some(both_u16(v, |a: u16, b: u16| a ^ b)),
            CustomFn::Not16 => Some(complement_u16(v)),
            CustomFn::Or32 => Some(both_u32(v, |a: u32, b: u32| a | b)),
            CustomFn::And32 => Some(both_u32(v, |a: u32, b: u32| a & b)),
            CustomFn::Xor32 => Some(both_u32(v, |a: u32, b: u32| a ^ b)),
            CustomFn::Not32 => Some(complement_u32(v)),
            CustomFn::Or64 => Some(both_u64(v, |a: u64, b: u64| a | b)),
            CustomFn::And64 => Some(both_u64(v, |a: u64, b: u64| a & b)),
            CustomFn::Xor64 => Some(both_u64(v, |a: u64, b: u64| a ^ b)),
            CustomFn::Not64 => Some(complement_u64(v)),
            CustomFn::Bits => Some(bits_of(v)),
            CustomFn::BitsT => Some(bits_tuple_of(v)),
            CustomFn::Ascii => Some(ascii_of(v)),
            CustomFn::Rev => Some(reversed(v)),
            CustomFn::Merge => Some(merged(v)),
            CustomFn::Bytes => Some(bytes_tuple_of(v)),
            CustomFn::Float => match v {
                ValueView::Float(_) => Some(Ok(v)),
                ValueView::Int(i) => if i32::MIN <= i <= i32::MAX {
                    None
                } else {
                    Some(Err(out_of_range()))
                },
                _ => Some(Err(FnErrorView::ExpectedInt { actual: v })),
            },
        }
    }

    /// Calls the function.
    pub fn call<F: FloatUnit>(&self, val: &Value, unit: &F) -> (r: Result<Value, FnError>)
        ensures
            match self.result(val@) {
                Some(expected) => returned(r) == expected,
                None => r is Ok && r->Ok_0@ is Float,
            },
    {
        match self {
            CustomFn::Or8 => or8(val),
            CustomFn::And8 => and8(val),
            CustomFn::Xor8 => xor8(val),
            CustomFn::Not8 => not8(val),
            CustomFn::Or16 => or16(val),
            CustomFn::And16 => and16(val),
            CustomFn::Xor16 => xor16(val),
            CustomFn::Not16 => not16(val),
            CustomFn::Or32 => or32(val),
            CustomFn::And32 => and32(val),
            CustomFn::Xor32 => xor32(val),
            CustomFn::Not32 => not32(val),
            CustomFn::Or64 => or64(val),
            CustomFn::And64 => and64(val),
            CustomFn::Xor64 => xor64(val),
            CustomFn::Not64 => not64(val),
            CustomFn::Bits => bits(val),
            CustomFn::BitsT => bits_t(val),
            CustomFn::Float => float(val, unit),
            CustomFn::Ascii => ascii(val),
            CustomFn::Rev => rev(val),
            CustomFn::Merge => merge(val),
            CustomFn::Bytes => bytes(val),
        }
    }
}

/// A function under its name.
pub type Named = (Seq<char>, CustomFn);

/// A list of functions by name as a sequence of names with their functions.
pub open spec fn named(table: Seq<(&'static str, CustomFn)>) -> Seq<Named> {
    table.map_values(|entry: (&'static str, CustomFn)| (entry.0@, entry.1))
}

/// The functions that the calculator offers to the host expression language,
/// each under its name; the function that packs bytes has four names.
pub open spec fn custom_functions() -> Seq<Named> {
    seq![
        ("or8"@, CustomFn::Or8),
        ("and8"@, CustomFn::And8),
        ("xor8"@, CustomFn::Xor8),
        ("not8"@, CustomFn::Not8),
        ("or16"@, CustomFn::Or16),
        ("and16"@, CustomFn::And16),
        ("xor16"@, CustomFn::Xor16),
        ("not16"@, CustomFn::Not16),
        ("or32"@, CustomFn::Or32),
        ("and32"@, CustomFn::And32),
        ("xor32"@, CustomFn::Xor32),
        ("not32"@, CustomFn::Not32),
        ("or64"@, CustomFn::Or64),
        ("and64"@, CustomFn::And64),
        ("xor64"@, CustomFn::Xor64),
        ("not64"@, CustomFn::Not64),
        ("bits"@, CustomFn::Bits),
        ("bits_t"@, CustomFn::BitsT),
        ("float"@, CustomFn::Float),
        ("ascii"@, CustomFn::Ascii),
        ("rev"@, CustomFn::Rev),
        ("com"@, CustomFn::Merge),
        ("combine"@, CustomFn::Merge),
        ("mer"@, CustomFn::Merge),
        ("merge"@, CustomFn::Merge),
        ("bytes"@, CustomFn::Bytes),
    ]
}

/// Adds a function behind the others.
fn offer(table: &mut Vec<(&'static str, CustomFn)>, name: &'static str, f: CustomFn)
    ensures
        named(final(table)@) == named(old(table)@).push((name@, f)),
{
    table.push((name, f));
}

/// The functions that the calculator offers to the host expression language,
/// each under its name.
pub fn get_custom_fn() -> (table: Vec<(&'static str, CustomFn)>)
    ensures
        named(table@) == custom_functions(),
{
    let mut table: Vec<(&'static str, CustomFn)> = Vec::new();
    offer(&mut table, "or8", CustomFn::Or8);
    offer(&mut table, "and8", CustomFn::And8);
    offer(&mut table, "xor8", CustomFn::Xor8);
    offer(&mut table, "not8", CustomFn::Not8);
    offer(&mut table, "or16", CustomFn::Or16);
    offer(&mut table, "and16", CustomFn::And16);
    offer(&mut table, "xor16", CustomFn::Xor16);
    offer(&mut table, "not16", CustomFn::Not16);
    offer(&mut table, "or32", CustomFn::Or32);
    offer(&mut table, "and32", CustomFn::And32);
    offer(&mut table, "xor32", CustomFn::Xor32);
    offer(&mut table, "not32", CustomFn::Not32);
    offer(&mut table, "or64", CustomFn::Or64);
    offer(&mut table, "and64", CustomFn::And64);
    offer(&mut table, "xor64", CustomFn::Xor64);
    offer(&mut table, "not64", CustomFn::Not64);
    offer(&mut table, "bits", CustomFn::Bits);
    offer(&mut table, "bits_t", CustomFn::BitsT);
    offer(&mut table, "float", CustomFn::Float);
    offer(&mut table, "ascii", CustomFn::Ascii);
    offer(&mut table, "rev", CustomFn::Rev);
    offer(&mut table, "com", CustomFn::Merge);
    offer(&mut table, "combine", CustomFn::Merge);
    offer(&mut table, "mer", CustomFn::Merge);
    offer(&mut table, "merge", CustomFn::Merge);
    offer(&mut table, "bytes", CustomFn::Bytes);
    table
}

/// The function that a list holds under a name: that of the last entry with
/// this name.
pub open spec fn found(table: Seq<Named>, name: Seq<char>) -> Option<CustomFn>
    decreases table.len(),
{
    if table.len() == 0 {
        None
    } else if table.last().0 == name {
        Some(table.last().1)
    } else {
        found(table.drop_last(), name)
    }
}

/// The functions that a host context knows, by name.
pub struct FunctionTable {
    entries: Vec<(String, CustomFn)>,
}

impl FunctionTable {
    /// The entries, in the order in which they were set.
    pub closed spec fn entries(&self) -> Seq<Named> {
        self.entries@.map_values(|entry: (String, CustomFn)| (entry.0@, entry.1))
    }

    /// The function that the context knows under a name.
    pub open spec fn function(&self, name: Seq<char>) -> Option<CustomFn> {
        found(self.entries(), name)
    }

    /// A context that knows no function.
    pub fn new() -> (r: FunctionTable)
        ensures
            r.entries() == Seq::<Named>::empty(),
    {
        let r = FunctionTable { entries: Vec::new() };
        r
    }

    /// Makes a function known under a name, in place of the one that was
    /// known under it.
    pub fn set_function(&mut self, name: String, f: CustomFn)
        ensures
            final(self).entries() == old(self).entries().push((name@, f)),
    {
        self.entries.push((name, f));
    }

    /// The function that is known under a name.
    pub fn get_function(&self, name: &str) -> (r: Option<CustomFn>)
        ensures
            r == self.function(name@),
    {
        let mut i: usize = self.entries.len();
        assert(self.entries().take(i as int) =~= self.entries());
        while i > 0
            invariant
                i <= self.entries@.len(),
                found(self.entries(), name@) == found(self.entries().take(i as int), name@),
            decreases i,
        {
            let ghost upto = self.entries().take(i as int);
            assert(upto.drop_last() =~= self.entries().take(i - 1));
            i = i - 1;
            if same_text(self.entries[i].0.as_str(), name) {
                return Some(self.entries[i].1);
            }
        }
        None
    }
}

/// Makes the calculator's functions known to a host context, each under its
/// name.
pub fn add_custom_function(context: &mut FunctionTable)
    ensures
        final(context).entries() == old(context).entries() + custom_functions(),
{
    let table = get_custom_fn();
    let mut i: usize = 0;
    while i < table.len()
        invariant
            i <= table@.len(),
            named(table@) == custom_functions(),
            context.entries() == old(context).entries() + named(table@).take(i as int),
        decreases table@.len() - i,
    {
        let (name, f) = table[i];
        context.set_function(name.to_owned(), f);
        i = i + 1;
    }
}

} // verus!
