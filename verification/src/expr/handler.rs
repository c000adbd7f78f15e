//! The handlers that the calculator registers by default, each as a function
//! on the operand stack, and the description of what each does to the stack.
use vstd::prelude::*;
use crate::expr::arith::{
    complement16, complement32, complement64, complement8, difference, exclusive128, exclusive16,
    exclusive32, exclusive64, exclusive8, exponent, int_add, int_and, int_div, int_exp, int_mul,
    int_neg, int_or, int_rem, int_shl, int_shr, int_sub, negation, not16, not32, not64, not8,
    product, quotient, remainder, shift_left, shift_right, sum, xor128, xor16, xor32, xor64, xor8,
    custom,
};
use crate::expr::bytes::{bytes_of, lemma_reversal_fits, modulus, pack, pack_bytes, unpack_bytes};
use crate::expr::operand::{type_error, wrong_type, Operand, OperandType, OperandView};
use crate::expr::operator::{Operator, OperatorView};
use crate::float::{negate, negated, FloatUnit};
use crate::text::{chars_of, string_of};
use crate::{Error, ErrorView, Integer};

verus! {

/// The operand stack as a sequence of values, the top last.
pub open spec fn values(stack: Seq<Operand>) -> Seq<OperandView> {
    stack.map_values(|o: Operand| o@)
}

/// What a handler leaves behind: the stack, and whether it succeeded.
pub ghost struct Effect {
    pub stack: Seq<OperandView>,
    pub result: Result<(), ErrorView>,
}

/// The effect of a handler that succeeded and left the given stack.
pub open spec fn done(stack: Seq<OperandView>) -> Effect {
    Effect { stack, result: Ok(()) }
}

/// The effect of a handler that failed and left the given stack.
pub open spec fn failed(stack: Seq<OperandView>, e: ErrorView) -> Effect {
    Effect { stack, result: Err(e) }
}

/// The mathematical value of what a handler returns.
pub open spec fn status(r: Result<(), Error>) -> Result<(), ErrorView> {
    match r {
        Ok(_) => Ok(()),
        Err(e) => Err(e@),
    }
}

/// A handler that the calculator brings along.
#[derive(Debug, Clone, Copy, PartialEq, Eq, Structural)]
pub enum Builtin {
    Add,
    Minus,
    Mul,
    Div,
    Expo,
    BitOr,
    BitAnd,
    Mod,
    LeftShift,
    RightShift,
    BitNot8,
    BitNot16,
    BitNot32,
    BitNot64,
    BitXor8,
    BitXor16,
    BitXor32,
    BitXor64,
    BitXor128,
    Ascii,
    Rev,
    Negate,
    Noop,
}

/// The message of the error for a character above 255.
pub open spec fn not_a_byte() -> ErrorView {
    ErrorView::Custom("Character does not fit a byte"@)
}

/// A handler that pops one operand and pushes what `f` makes of it.
pub open spec fn unary_effect(
    stack: Seq<OperandView>,
    f: spec_fn(OperandView) -> Result<OperandView, ErrorView>,
) -> Effect {
    if stack.len() == 0 {
        failed(stack, ErrorView::NotEnoughOperand)
    } else {
        match f(stack.last()) {
            Ok(v) => done(stack.drop_last().push(v)),
            Err(e) => failed(stack.drop_last(), e),
        }
    }
}

/// A handler that pops the right operand, then the left one, asks an integer
/// of each as soon as it is popped, and pushes what `f` makes of the two.
pub open spec fn integer_pair_effect(
    stack: Seq<OperandView>,
    f: spec_fn(i128, i128) -> Result<i128, ErrorView>,
) -> Effect {
    if stack.len() == 0 {
        failed(stack, ErrorView::NotEnoughOperand)
    } else {
        let below = stack.drop_last();
        match stack.last().as_int() {
            Err(e) => failed(below, e),
            Ok(b) => if below.len() == 0 {
                failed(below, ErrorView::NotEnoughOperand)
            } else {
                let rest = below.drop_last();
                match below.last().as_int() {
                    Err(e) => failed(rest, e),
                    Ok(a) => match f(a, b) {
                        Ok(v) => done(rest.push(OperandView::Integer(v))),
                        Err(e) => failed(rest, e),
                    },
                }
            },
        }
    }
}

/// A handler of the four basic operations or of the power: it pops both
/// operands first. Where either is a floating-point number both are promoted
/// and the result is computed outside: then this is `None`.
pub open spec fn arithmetic_effect(
    stack: Seq<OperandView>,
    f: spec_fn(i128, i128) -> Result<i128, ErrorView>,
) -> Option<Effect> {
    if stack.len() == 0 {
        Some(failed(stack, ErrorView::NotEnoughOperand))
    } else if stack.len() == 1 {
        Some(failed(stack.drop_last(), ErrorView::NotEnoughOperand))
    } else {
        let b = stack.last();
        let a = stack.drop_last().last();
        let rest = stack.drop_last().drop_last();
        if a.promotes_with(b) {
            if a is String || b is String {
                Some(
                    failed(
                        rest,
                        wrong_type(
                            seq![OperandType::Float, OperandType::Integer],
                            OperandType::String,
                        ),
                    ),
                )
            } else {
                None
            }
        } else {
            match a {
                OperandView::Integer(x) => match b.as_int() {
                    Err(e) => Some(failed(rest, e)),
                    Ok(y) => match f(x, y) {
                        Ok(v) => Some(done(rest.push(OperandView::Integer(v)))),
                        Err(e) => Some(failed(rest, e)),
                    },
                },
                _ => Some(
                    failed(
                        rest,
                        wrong_type(seq![OperandType::Integer, OperandType::Float], a.data_type()),
                    ),
                ),
            }
        }
    }
}

/// The complement of an integer within a width.
pub open spec fn complemented(o: OperandView, f: spec_fn(i128) -> i128) -> Result<
    OperandView,
    ErrorView,
> {
    match o.as_int() {
        Ok(a) => Ok(OperandView::Integer(f(a))),
        Err(e) => Err(e),
    }
}

/// The negated number.
pub open spec fn negated_operand(o: OperandView) -> Result<OperandView, ErrorView> {
    match o {
        OperandView::Integer(i) => match negation(i) {
            Ok(v) => Ok(OperandView::Integer(v)),
            Err(e) => Err(e),
        },
        OperandView::Float(bits) => Ok(OperandView::Float(negated(bits))),
        OperandView::String(_) => Err(
            wrong_type(seq![OperandType::Integer, OperandType::Float], OperandType::String),
        ),
    }
}

/// Whether every character is at most 255.
pub open spec fn all_bytes(s: Seq<char>) -> bool {
    forall|i: int| 0 <= i < s.len() ==> (#[trigger] s[i]) as u32 <= 0xFF
}

/// The bytes of a string of characters that are at most 255.
pub open spec fn as_bytes(s: Seq<char>) -> Seq<u8> {
    s.map_values(|c: char| c as u8)
}

/// The characters whose codes are the given bytes.
pub open spec fn as_chars(bytes: Seq<u8>) -> Seq<char> {
    bytes.map_values(|b: u8| b as char)
}

/// A string becomes the integer packed from its characters' codes, the first
/// character most significant, of which the low 128 bits are kept. An integer,
/// read as unsigned, becomes the string of the bytes it occupies, the most
/// significant first.
pub open spec fn ascii_of(o: OperandView) -> Result<OperandView, ErrorView> {
    match o {
        OperandView::String(s) => if all_bytes(s) {
            Ok(OperandView::Integer((pack(as_bytes(s)) % modulus()) as u128 as i128))
        } else {
            Err(not_a_byte())
        },
        OperandView::Integer(i) => Ok(
            OperandView::String(as_chars(bytes_of(i as u128 as nat).reverse())),
        ),
        OperandView::Float(_) => Err(
            wrong_type(seq![OperandType::String, OperandType::Integer], OperandType::Float),
        ),
    }
}

/// A string is reversed character by character. An integer, read as unsigned,
/// has the bytes that it occupies put in the reverse order.
pub open spec fn reversed(o: OperandView) -> Result<OperandView, ErrorView> {
    match o {
        OperandView::String(s) => Ok(OperandView::String(s.reverse())),
        OperandView::Integer(i) => Ok(
            OperandView::Integer(pack(bytes_of(i as u128 as nat)) as u128 as i128),
        ),
        OperandView::Float(_) => Err(
            wrong_type(seq![OperandType::String, OperandType::Integer], OperandType::Float),
        ),
    }
}

impl Builtin {
    /// Whether the handler is one of the five that promote their operands.
    pub open spec fn is_arithmetic(self) -> bool {
        self == Builtin::Add || self == Builtin::Minus || self == Builtin::Mul || self
            == Builtin::Div || self == Builtin::Expo
    }

    /// What the handler computes from two integers.
    pub open spec fn on_integers(self, a: i128, b: i128) -> Result<i128, ErrorView> {
        match self {
            Builtin::Add => sum(a, b),
            Builtin::Minus => difference(a, b),
            Builtin::Mul => product(a, b),
            Builtin::Div => quotient(a, b),
            Builtin::Expo => exponent(a, b),
            Builtin::BitOr => Ok(a | b),
            Builtin::BitAnd => Ok(a & b),
            Builtin::Mod => remainder(a, b),
            Builtin::LeftShift => shift_left(a, b),
            Builtin::RightShift => shift_right(a, b),
            Builtin::BitXor8 => Ok(exclusive8(a, b)),
            Builtin::BitXor16 => Ok(exclusive16(a, b)),
            Builtin::BitXor32 => Ok(exclusive32(a, b)),
            Builtin::BitXor64 => Ok(exclusive64(a, b)),
            Builtin::BitXor128 => Ok(exclusive128(a, b)),
            _ => Ok(0i128),
        }
    }

    /// What the handler makes of one operand.
    pub open spec fn on_operand(self, o: OperandView) -> Result<OperandView, ErrorView> {
        match self {
            Builtin::BitNot8 => complemented(o, |a: i128| complement8(a)),
            Builtin::BitNot16 => complemented(o, |a: i128| complement16(a)),
            Builtin::BitNot32 => complemented(o, |a: i128| complement32(a)),
            Builtin::BitNot64 => complemented(o, |a: i128| complement64(a)),
            Builtin::Ascii => ascii_of(o),
            Builtin::Rev => reversed(o),
            Builtin::Negate => negated_operand(o),
            _ => Ok(o),
        }
    }

    /// What the handler does to a stack. `None` stands for the one case that
    /// is computed outside: arithmetic on floating-point numbers.
    pub open spec fn effect(self, stack: Seq<OperandView>) -> Option<Effect> {
        match self {
            Builtin::Add | Builtin::Minus | Builtin::Mul | Builtin::Div | Builtin::Expo =>
                arithmetic_effect(stack, |a: i128, b: i128| self.on_integers(a, b)),
            Builtin::BitOr | Builtin::BitAnd | Builtin::Mod | Builtin::LeftShift
            | Builtin::RightShift | Builtin::BitXor8 | Builtin::BitXor16 | Builtin::BitXor32
            | Builtin::BitXor64 | Builtin::BitXor128 => Some(
                integer_pair_effect(stack, |a: i128, b: i128| self.on_integers(a, b)),
            ),
            Builtin::BitNot8 | Builtin::BitNot16 | Builtin::BitNot32 | Builtin::BitNot64
            | Builtin::Ascii | Builtin::Rev | Builtin::Negate => Some(
                unary_effect(stack, |o: OperandView| self.on_operand(o)),
            ),
            Builtin::Noop => if stack.len() == 0 {
                Some(failed(stack, ErrorView::NotEnoughOperand))
            } else {
                Some(done(stack))
            },
        }
    }

    /// What the handler does to a stack where the floating-point number that
    /// arithmetic comes to, if it takes place, is `x`.
    pub open spec fn effect_given(self, stack: Seq<OperandView>, x: u64) -> Effect {
        match self.effect(stack) {
            Some(effect) => effect,
            None => done(stack.drop_last().drop_last().push(OperandView::Float(x))),
        }
    }

    /// The contract of the handler: where its effect is determined, the stack
    /// and the result are exactly that; in the remaining case both operands are
    /// replaced by one floating-point number.
    pub open spec fn settles(
        self,
        before: Seq<Operand>,
        after: Seq<Operand>,
        r: Result<(), Error>,
    ) -> bool {
        match self.effect(values(before)) {
            Some(e) => values(after) == e.stack && status(r) == e.result,
            None => {
                &&& r is Ok
                &&& after.len() == before.len() - 1
                &&& values(after).drop_last() == values(before).drop_last().drop_last()
                &&& values(after).last() is Float
            },
        }
    }
}

/// Takes the top operand off the stack.
pub fn pop_operand(operands: &mut Vec<Operand>) -> (r: Result<Operand, Error>)
    ensures
        old(operands)@.len() == 0 ==> r is Err && r->Err_0@ == ErrorView::NotEnoughOperand
            && final(operands)@ == old(operands)@,
        old(operands)@.len() > 0 ==> r == Ok::<Operand, Error>(old(operands)@.last())
            && final(operands)@ == old(operands)@.drop_last() && values(final(operands)@)
            == values(old(operands)@).drop_last(),
{
    match operands.pop() {
        Some(o) => {
            Ok(o)
        },
        None => Err(Error::NotEnoughOperand),
    }
}

/// Puts an operand on top of the stack.
pub fn push_operand(operands: &mut Vec<Operand>, o: Operand)
    ensures
        final(operands)@ == old(operands)@.push(o),
        values(final(operands)@) == values(old(operands)@).push(o@),
{
    operands.push(o);
}

/// Takes the top operand off the stack and asks an integer of it.
pub fn pop_integer(operands: &mut Vec<Operand>) -> (r: Result<Integer, Error>)
    ensures
        old(operands)@.len() == 0 ==> r is Err && r->Err_0@ == ErrorView::NotEnoughOperand
            && final(operands)@ == old(operands)@,
        old(operands)@.len() > 0 ==> final(operands)@ == old(operands)@.drop_last() && values(
            final(operands)@,
        ) == values(old(operands)@).drop_last() && crate::expr::arith::settled(r) == values(
            old(operands)@,
        ).last().as_int(),
{
    let o = pop_operand(operands)?;
    o.as_int()
}

/// The tags of the two kinds of number, the integer first.
pub fn integer_or_float() -> (v: Vec<OperandType>)
    ensures
        v@ == seq![OperandType::Integer, OperandType::Float],
{
    let mut v = Vec::new();
    v.push(OperandType::Integer);
    v.push(OperandType::Float);
    v
}

/// The tags of what has bytes: a string or an integer.
pub fn string_or_integer() -> (v: Vec<OperandType>)
    ensures
        v@ == seq![OperandType::String, OperandType::Integer],
{
    let mut v = Vec::new();
    v.push(OperandType::String);
    v.push(OperandType::Integer);
    v
}

/// Computes on two integers what an arithmetic or bitwise handler computes.
fn integer_result(kind: Builtin, a: Integer, b: Integer) -> (r: Result<Integer, Error>)
    ensures
        crate::expr::arith::settled(r) == kind.on_integers(a, b),
{
    match kind {
        Builtin::Add => int_add(a, b),
        Builtin::Minus => int_sub(a, b),
        Builtin::Mul => int_mul(a, b),
        Builtin::Div => int_div(a, b),
        Builtin::Expo => int_exp(a, b),
        Builtin::BitOr => int_or(a, b),
        Builtin::BitAnd => int_and(a, b),
        Builtin::Mod => int_rem(a, b),
        Builtin::LeftShift => int_shl(a, b),
        Builtin::RightShift => int_shr(a, b),
        Builtin::BitXor8 => Ok(xor8(a, b)),
        Builtin::BitXor16 => Ok(xor16(a, b)),
        Builtin::BitXor32 => Ok(xor32(a, b)),
        Builtin::BitXor64 => Ok(xor64(a, b)),
        Builtin::BitXor128 => Ok(xor128(a, b)),
        _ => Ok(0),
    }
}

/// Has `unit` compute on two floating-point numbers what an arithmetic
/// handler computes.
fn float_result<F: FloatUnit>(kind: Builtin, a: u64, b: u64, unit: &F) -> u64 {
    match kind {
        Builtin::Add => unit.sum(a, b),
        Builtin::Minus => unit.difference(a, b),
        Builtin::Mul => unit.product(a, b),
        Builtin::Div => unit.quotient(a, b),
        _ => unit.power(a, b),
    }
}

/// The common course of the five handlers that promote their operands.
fn arithmetic<F: FloatUnit>(kind: Builtin, operands: &mut Vec<Operand>, unit: &F) -> (r: Result<
    (),
    Error,
>)
    requires
        kind.is_arithmetic(),
    ensures
        kind.settles(old(operands)@, final(operands)@, r),
{
    let b = pop_operand(operands)?;
    let a = pop_operand(operands)?;
    let (a, b) = Operand::upgrade_if_need(a, b, unit)?;
    let result = match a {
        Operand::Integer(a) => {
            let b = b.as_int()?;
            Operand::Integer(integer_result(kind, a, b)?)
        },
        Operand::Float(a) => {
            let b = b.as_float()?;
            Operand::Float(float_result(kind, a, b, unit))
        },
        _ => {
            return Err(type_error(integer_or_float(), a.data_type()));
        },
    };
    push_operand(operands, result);
    assert(values(operands@).drop_last() =~= values(old(operands)@).drop_last().drop_last());
    Ok(())
}

/// The common course of the handlers that work on two integers.
fn integer_pair(kind: Builtin, operands: &mut Vec<Operand>) -> (r: Result<(), Error>)
    requires
        kind.effect(values(old(operands)@)) == Some(
            integer_pair_effect(
                values(old(operands)@),
                |a: i128, b: i128| kind.on_integers(a, b),
            ),
        ),
    ensures
        kind.settles(old(operands)@, final(operands)@, r),
{
    let b = pop_integer(operands)?;
    let a = pop_integer(operands)?;
    let v = integer_result(kind, a, b)?;
    push_operand(operands, Operand::Integer(v));
    Ok(())
}

/// The identity: it only asks that there is an operand.
pub fn noop(operands: &mut Vec<Operand>) -> (r: Result<(), Error>)
    ensures
        Builtin::Noop.settles(old(operands)@, final(operands)@, r),
{
    if operands.len() == 0 {
        Err(Error::NotEnoughOperand)
    } else {
        Ok(())
    }
}

/// Negates the number on top of the stack.
pub fn neg(operands: &mut Vec<Operand>) -> (r: Result<(), Error>)
    ensures
        Builtin::Negate.settles(old(operands)@, final(operands)@, r),
{
    let token = pop_operand(operands)?;
    match token {
        Operand::Float(f) => push_operand(operands, Operand::Float(negate(f))),
        Operand::Integer(i) => {
            let v = int_neg(i)?;
            push_operand(operands, Operand::Integer(v))
        },
        _ => {
            return Err(type_error(integer_or_float(), token.data_type()));
        },
    }
    Ok(())
}

/// The handler of `+`.
pub fn op_add<F: FloatUnit>(operands: &mut Vec<Operand>, unit: &F) -> (r: Result<(), Error>)
    ensures
        Builtin::Add.settles(old(operands)@, final(operands)@, r),
{
    arithmetic(Builtin::Add, operands, unit)
}

/// The handler of the binary `-`.
pub fn op_minus<F: FloatUnit>(operands: &mut Vec<Operand>, unit: &F) -> (r: Result<(), Error>)
    ensures
        Builtin::Minus.settles(old(operands)@, final(operands)@, r),
{
    arithmetic(Builtin::Minus, operands, unit)
}

/// The handler of `*`.
pub fn op_mul<F: FloatUnit>(operands: &mut Vec<Operand>, unit: &F) -> (r: Result<(), Error>)
    ensures
        Builtin::Mul.settles(old(operands)@, final(operands)@, r),
{
    arithmetic(Builtin::Mul, operands, unit)
}

/// The handler of `/`.
pub fn op_div<F: FloatUnit>(operands: &mut Vec<Operand>, unit: &F) -> (r: Result<(), Error>)
    ensures
        Builtin::Div.settles(old(operands)@, final(operands)@, r),
{
    arithmetic(Builtin::Div, operands, unit)
}

/// The handler of `^^`.
pub fn op_exp<F: FloatUnit>(operands: &mut Vec<Operand>, unit: &F) -> (r: Result<(), Error>)
    ensures
        Builtin::Expo.settles(old(operands)@, final(operands)@, r),
{
    arithmetic(Builtin::Expo, operands, unit)
}

/// The handler of `|`.
pub fn op_bit_or(operands: &mut Vec<Operand>) -> (r: Result<(), Error>)
    ensures
        Builtin::BitOr.settles(old(operands)@, final(operands)@, r),
{
    integer_pair(Builtin::BitOr, operands)
}

/// The handler of `&`.
pub fn op_bit_and(operands: &mut Vec<Operand>) -> (r: Result<(), Error>)
    ensures
        Builtin::BitAnd.settles(old(operands)@, final(operands)@, r),
{
    integer_pair(Builtin::BitAnd, operands)
}

/// The handler of `>>`.
pub fn op_bit_sh_right(operands: &mut Vec<Operand>) -> (r: Result<(), Error>)
    ensures
        Builtin::RightShift.settles(old(operands)@, final(operands)@, r),
{
    integer_pair(Builtin::RightShift, operands)
}

/// The handler of `<<`.
pub fn op_bit_sh_left(operands: &mut Vec<Operand>) -> (r: Result<(), Error>)
    ensures
        Builtin::LeftShift.settles(old(operands)@, final(operands)@, r),
{
    integer_pair(Builtin::LeftShift, operands)
}

/// The handler of `%`.
pub fn op_mod(operands: &mut Vec<Operand>) -> (r: Result<(), Error>)
    ensures
        Builtin::Mod.settles(old(operands)@, final(operands)@, r),
{
    integer_pair(Builtin::Mod, operands)
}

/// The handler of the complement within 8 bits.
pub fn op_bit_not_8(operands: &mut Vec<Operand>) -> (r: Result<(), Error>)
    ensures
        Builtin::BitNot8.settles(old(operands)@, final(operands)@, r),
{
    let a = pop_integer(operands)?;
    push_operand(operands, Operand::Integer(not8(a)));
    Ok(())
}

/// The handler of the complement within 16 bits.
pub fn op_bit_not_16(operands: &mut Vec<Operand>) -> (r: Result<(), Error>)
    ensures
        Builtin::BitNot16.settles(old(operands)@, final(operands)@, r),
{
    let a = pop_integer(operands)?;
    push_operand(operands, Operand::Integer(not16(a)));
    Ok(())
}

/// The handler of the complement within 32 bits.
pub fn op_bit_not_32(operands: &mut Vec<Operand>) -> (r: Result<(), Error>)
    ensures
        Builtin::BitNot32.settles(old(operands)@, final(operands)@, r),
{
    let a = pop_integer(operands)?;
    push_operand(operands, Operand::Integer(not32(a)));
    Ok(())
}

/// The handler of the complement within 64 bits.
pub fn op_bit_not_64(operands: &mut Vec<Operand>) -> (r: Result<(), Error>)
    ensures
        Builtin::BitNot64.settles(old(operands)@, final(operands)@, r),
{
    let a = pop_integer(operands)?;
    push_operand(operands, Operand::Integer(not64(a)));
    Ok(())
}

/// The handler of the exclusive or within 8 bits.
pub fn op_bit_xor_8(operands: &mut Vec<Operand>) -> (r: Result<(), Error>)
    ensures
        Builtin::BitXor8.settles(old(operands)@, final(operands)@, r),
{
    integer_pair(Builtin::BitXor8, operands)
}

/// The handler of the exclusive or within 16 bits.
pub fn op_bit_xor_16(operands: &mut Vec<Operand>) -> (r: Result<(), Error>)
    ensures
        Builtin::BitXor16.settles(old(operands)@, final(operands)@, r),
{
    integer_pair(Builtin::BitXor16, operands)
}

/// The handler of the exclusive or within 32 bits.
pub fn op_bit_xor_32(operands: &mut Vec<Operand>) -> (r: Result<(), Error>)
    ensures
        Builtin::BitXor32.settles(old(operands)@, final(operands)@, r),
{
    integer_pair(Builtin::BitXor32, operands)
}

/// The handler of the exclusive or within 64 bits.
pub fn op_bit_xor_64(operands: &mut Vec<Operand>) -> (r: Result<(), Error>)
    ensures
        Builtin::BitXor64.settles(old(operands)@, final(operands)@, r),
{
    integer_pair(Builtin::BitXor64, operands)
}

/// The handler of the exclusive or within 128 bits.
pub fn op_bit_xor_128(operands: &mut Vec<Operand>) -> (r: Result<(), Error>)
    ensures
        Builtin::BitXor128.settles(old(operands)@, final(operands)@, r),
{
    integer_pair(Builtin::BitXor128, operands)
}

/// The characters in the reverse order.
pub fn reversed_chars(chars: &Vec<char>) -> (r: Vec<char>)
    ensures
        r@ == chars@.reverse(),
{
    let mut r: Vec<char> = Vec::new();
    let mut i: usize = chars.len();
    while i > 0
        invariant
            i <= chars.len(),
            r.len() == chars.len() - i,
            forall|k: int| 0 <= k < r.len() ==> r[k] == chars[chars.len() - 1 - k],
        decreases i,
    {
        i = i - 1;
        r.push(chars[i]);
    }
    r
}

/// The codes of the characters, if each is at most 255.
fn bytes_of_chars(chars: &Vec<char>) -> (r: Option<Vec<u8>>)
    ensures
        all_bytes(chars@) ==> r is Some && r->0@ == as_bytes(chars@),
        !all_bytes(chars@) ==> r is None,
{
    let mut bytes: Vec<u8> = Vec::new();
    let mut i: usize = 0;
    while i < chars.len()
        invariant
            i <= chars.len(),
            bytes.len() == i,
            forall|k: int| 0 <= k < i ==> (#[trigger] chars[k]) as u32 <= 0xFF,
            forall|k: int| 0 <= k < i ==> bytes[k] == (#[trigger] chars[k]) as u8,
        decreases chars.len() - i,
    {
        let c = chars[i];
        if c as u32 > 0xFF {
            return None;
        }
        bytes.push(c as u8);
        i = i + 1;
    }
    Some(bytes)
}

/// The characters whose codes are the given bytes, the last byte first.
pub fn chars_of_bytes_reversed(bytes: &Vec<u8>) -> (r: Vec<char>)
    ensures
        r@ == as_chars(bytes@.reverse()),
{
    let mut r: Vec<char> = Vec::new();
    let mut i: usize = bytes.len();
    while i > 0
        invariant
            i <= bytes.len(),
            r.len() == bytes.len() - i,
            forall|k: int| 0 <= k < r.len() ==> r[k] == bytes[bytes.len() - 1 - k] as char,
        decreases i,
    {
        i = i - 1;
        r.push(bytes[i] as char);
    }
    r
}

/// Turns a string into the integer packed from its characters' codes, and an
/// integer into the string of its bytes.
pub fn ascii(operands: &mut Vec<Operand>) -> (r: Result<(), Error>)
    ensures
        Builtin::Ascii.settles(old(operands)@, final(operands)@, r),
{
    let operand = pop_operand(operands)?;
    match operand {
        Operand::String(s) => {
            let chars = chars_of(s.as_str());
            match bytes_of_chars(&chars) {
                Some(bytes) => {
                    let packed = pack_bytes(&bytes);
                    push_operand(operands, Operand::Integer(#[verifier::truncate] (packed as i128)));
                },
                None => {
                    return Err(custom("Character does not fit a byte"));
                },
            }
        },
        Operand::Integer(i) => {
            let bytes = unpack_bytes(#[verifier::truncate] (i as u128));
            let chars = chars_of_bytes_reversed(&bytes);
            push_operand(operands, Operand::String(string_of(&chars)));
        },
        _ => {
            return Err(type_error(string_or_integer(), operand.data_type()));
        },
    }
    Ok(())
}

/// Reverses a string character by character, and an integer byte by byte.
pub fn rev(operands: &mut Vec<Operand>) -> (r: Result<(), Error>)
    ensures
        Builtin::Rev.settles(old(operands)@, final(operands)@, r),
{
    let operand = pop_operand(operands)?;
    match operand {
        Operand::String(s) => {
            let chars = chars_of(s.as_str());
            let turned = reversed_chars(&chars);
            push_operand(operands, Operand::String(string_of(&turned)));
        },
        Operand::Integer(i) => {
            let n = #[verifier::truncate] (i as u128);
            let bytes = unpack_bytes(n);
            let packed = pack_bytes(&bytes);
            proof {
                lemma_reversal_fits(n);
            }
            push_operand(operands, Operand::Integer(#[verifier::truncate] (packed as i128)));
        },
        _ => {
            return Err(type_error(string_or_integer(), operand.data_type()));
        },
    }
    Ok(())
}

impl Builtin {
    /// Runs the handler on the stack.
    pub fn apply<F: FloatUnit>(&self, operands: &mut Vec<Operand>, unit: &F) -> (r: Result<
        (),
        Error,
    >)
        ensures
            self.settles(old(operands)@, final(operands)@, r),
    {
        match self {
            Builtin::Add => op_add(operands, unit),
            Builtin::Minus => op_minus(operands, unit),
            Builtin::Mul => op_mul(operands, unit),
            Builtin::Div => op_div(operands, unit),
            Builtin::Expo => op_exp(operands, unit),
            Builtin::BitOr => op_bit_or(operands),
            Builtin::BitAnd => op_bit_and(operands),
            Builtin::Mod => op_mod(operands),
            Builtin::LeftShift => op_bit_sh_left(operands),
            Builtin::RightShift => op_bit_sh_right(operands),
            Builtin::BitNot8 => op_bit_not_8(operands),
            Builtin::BitNot16 => op_bit_not_16(operands),
            Builtin::BitNot32 => op_bit_not_32(operands),
            Builtin::BitNot64 => op_bit_not_64(operands),
            Builtin::BitXor8 => op_bit_xor_8(operands),
            Builtin::BitXor16 => op_bit_xor_16(operands),
            Builtin::BitXor32 => op_bit_xor_32(operands),
            Builtin::BitXor64 => op_bit_xor_64(operands),
            Builtin::BitXor128 => op_bit_xor_128(operands),
            Builtin::Ascii => ascii(operands),
            Builtin::Rev => rev(operands),
            Builtin::Negate => neg(operands),
            Builtin::Noop => noop(operands),
        }
    }
}

/// A handler that a caller writes: it takes the operands it needs off the
/// stack and puts one result on it, or fails.
pub trait OperatorHandler {
    /// Runs the handler on the stack.
    fn apply(&self, operands: &mut Vec<Operand>) -> Result<(), Error>;
}

/// The handler type of a caller who registers no handler of their own. Where
/// it is registered all the same, it fails and leaves the stack alone.
pub struct NoHandler;

impl OperatorHandler for NoHandler {
    fn apply(&self, operands: &mut Vec<Operand>) -> (r: Result<(), Error>)
        ensures
            r is Err,
            r->Err_0@ == ErrorView::Custom("No handler"@),
            final(operands)@ == old(operands)@,
    {
        Err(custom("No handler"))
    }
}

/// What is registered for an operator: a handler of the calculator, or one of
/// the caller's.
pub enum OperatorAction<H> {
    Builtin(Builtin),
    External(H),
}

/// The handler that a table holds for an operator: that of the last entry
/// with this key.
pub open spec fn lookup<H>(table: Seq<(Operator, OperatorAction<H>)>, op: OperatorView) -> Option<
    OperatorAction<H>,
>
    decreases table.len(),
{
    if table.len() == 0 {
        None
    } else if table.last().0@ == op {
        Some(table.last().1)
    } else {
        lookup(table.drop_last(), op)
    }
}

/// The handler that the calculator registers for an operator by default.
pub open spec fn default_action(op: OperatorView) -> Option<Builtin> {
    match op {
        OperatorView::Add => Some(Builtin::Add),
        OperatorView::Minus => Some(Builtin::Minus),
        OperatorView::Mul => Some(Builtin::Mul),
        OperatorView::Div => Some(Builtin::Div),
        OperatorView::Expo => Some(Builtin::Expo),
        OperatorView::BitOr => Some(Builtin::BitOr),
        OperatorView::BitAnd => Some(Builtin::BitAnd),
        OperatorView::Mod => Some(Builtin::Mod),
        OperatorView::LeftShift => Some(Builtin::LeftShift),
        OperatorView::RightShift => Some(Builtin::RightShift),
        OperatorView::BitNot(width) => if width == 8 {
            Some(Builtin::BitNot8)
        } else if width == 16 {
            Some(Builtin::BitNot16)
        } else if width == 32 {
            Some(Builtin::BitNot32)
        } else if width == 64 {
            Some(Builtin::BitNot64)
        } else {
            None
        },
        OperatorView::BitXor(width) => if width == 8 {
            Some(Builtin::BitXor8)
        } else if width == 16 {
            Some(Builtin::BitXor16)
        } else if width == 32 {
            Some(Builtin::BitXor32)
        } else if width == 64 {
            Some(Builtin::BitXor64)
        } else if width == 128 {
            Some(Builtin::BitXor128)
        } else {
            None
        },
        OperatorView::Custom(name) => if name == "ascii"@ {
            Some(Builtin::Ascii)
        } else if name == "rev"@ {
            Some(Builtin::Rev)
        } else {
            None
        },
        OperatorView::Negate => Some(Builtin::Negate),
        OperatorView::Postive => Some(Builtin::Noop),
        OperatorView::OpenParenthesis | OperatorView::CloseParenthesis => None,
    }
}

/// What a table of the calculator's own handlers holds for an operator.
pub open spec fn builtin_of<H>(table: Seq<(Operator, OperatorAction<H>)>, op: OperatorView)
    -> Option<Builtin> {
    match lookup(table, op) {
        Some(OperatorAction::Builtin(kind)) => Some(kind),
        _ => None,
    }
}

/// Adds an entry at the end of a table of the calculator's own handlers.
fn register<H>(table: &mut Vec<(Operator, OperatorAction<H>)>, op: Operator, kind: Builtin)
    requires
        forall|k: OperatorView| #[trigger]
            lookup(old(table)@, k) is Some ==> lookup(old(table)@, k)->0 is Builtin,
    ensures
        forall|k: OperatorView| #[trigger]
            builtin_of(final(table)@, k) == (if k == op@ {
                Some(kind)
            } else {
                builtin_of(old(table)@, k)
            }),
        forall|k: OperatorView| #[trigger]
            lookup(final(table)@, k) is Some ==> lookup(final(table)@, k)->0 is Builtin,
{
    table.push((op, OperatorAction::Builtin(kind)));
    assert(table@.drop_last() =~= old(table)@);
    assert forall|k: OperatorView| #[trigger] lookup(table@, k) is Some implies lookup(
        table@,
        k,
    )->0 is Builtin by {
        if table@.last().0@ != k {
            assert(lookup(table@, k) == lookup(old(table)@, k));
        }
    }
}

/// The handlers that a new evaluator starts with.
pub fn default_handlers<H>() -> (table: Vec<(Operator, OperatorAction<H>)>)
    ensures
        forall|op: OperatorView| #[trigger]
            lookup(table@, op) == match default_action(op) {
                Some(kind) => Some(OperatorAction::<H>::Builtin(kind)),
                None => None,
            },
{
    let mut table: Vec<(Operator, OperatorAction<H>)> = Vec::new();
    register(&mut table, Operator::Add, Builtin::Add);
    register(&mut table, Operator::Minus, Builtin::Minus);
    register(&mut table, Operator::Mul, Builtin::Mul);
    register(&mut table, Operator::Div, Builtin::Div);
    register(&mut table, Operator::Expo, Builtin::Expo);
    register(&mut table, Operator::BitOr, Builtin::BitOr);
    register(&mut table, Operator::BitAnd, Builtin::BitAnd);
    register(&mut table, Operator::Mod, Builtin::Mod);
    register(&mut table, Operator::LeftShift, Builtin::LeftShift);
    register(&mut table, Operator::RightShift, Builtin::RightShift);
    register(&mut table, Operator::BitNot(8), Builtin::BitNot8);
    register(&mut table, Operator::BitNot(16), Builtin::BitNot16);
    register(&mut table, Operator::BitNot(32), Builtin::BitNot32);
    register(&mut table, Operator::BitNot(64), Builtin::BitNot64);
    register(&mut table, Operator::BitXor(8), Builtin::BitXor8);
    register(&mut table, Operator::BitXor(16), Builtin::BitXor16);
    register(&mut table, Operator::BitXor(32), Builtin::BitXor32);
    register(&mut table, Operator::BitXor(64), Builtin::BitXor64);
    register(&mut table, Operator::BitXor(128), Builtin::BitXor128);
    register(&mut table, Operator::Custom("ascii".to_owned()), Builtin::Ascii);
    register(&mut table, Operator::Custom("rev".to_owned()), Builtin::Rev);
    register(&mut table, Operator::Negate, Builtin::Negate);
    register(&mut table, Operator::Postive, Builtin::Noop);
    assert forall|op: OperatorView| #[trigger]
        lookup(table@, op) == match default_action(op) {
            Some(kind) => Some(OperatorAction::<H>::Builtin(kind)),
            None => None,
        } by {
        reveal_strlit("ascii");
        reveal_strlit("rev");
        assert("ascii"@.len() != "rev"@.len());
        assert(builtin_of(table@, op) == default_action(op));
    }
    table
}

} // verus!
