use rcal::expr::arith::{
    int_add, int_and, int_div, int_exp, int_mul, int_neg, int_or, int_pow, int_rem, int_shl,
    int_shr, int_sub, not16, not32, not64, not8, xor128, xor16, xor32, xor64, xor8,
};
use rcal::expr::bytes::{pack_bytes, unpack_bytes};
use rcal::expr::handler::{
    ascii, default_handlers, neg, noop, op_add, op_bit_and, op_bit_not_16, op_bit_not_32,
    op_bit_not_64, op_bit_not_8, op_bit_or, op_bit_sh_left, op_bit_sh_right, op_bit_xor_128,
    op_bit_xor_16, op_bit_xor_32, op_bit_xor_64, op_bit_xor_8, op_div, op_exp, op_minus, op_mod,
    op_mul, pop_operand, push_operand, rev, Builtin, NoHandler, OperatorAction,
};
use rcal::expr::operand::{Operand, OperandType};
use rcal::expr::operator::Operator;
use rcal::float::{negate, FloatUnit};
use rcal::text::{chars_of, same_text, string_of};
use rcal::Error;

struct Native;

impl FloatUnit for Native {
    fn parse(&self, text: &str) -> Option<u64> {
        text.parse::<f64>().ok().map(f64::to_bits)
    }

    fn from_int(&self, value: i128) -> u64 {
        (value as f64).to_bits()
    }

    fn floor(&self, bits: u64) -> i128 {
        f64::from_bits(bits).floor() as i128
    }

    fn sum(&self, a: u64, b: u64) -> u64 {
        (f64::from_bits(a) + f64::from_bits(b)).to_bits()
    }

    fn difference(&self, a: u64, b: u64) -> u64 {
        (f64::from_bits(a) - f64::from_bits(b)).to_bits()
    }

    fn product(&self, a: u64, b: u64) -> u64 {
        (f64::from_bits(a) * f64::from_bits(b)).to_bits()
    }

    fn quotient(&self, a: u64, b: u64) -> u64 {
        (f64::from_bits(a) / f64::from_bits(b)).to_bits()
    }

    fn power(&self, a: u64, b: u64) -> u64 {
        f64::from_bits(a).powf(f64::from_bits(b)).to_bits()
    }
}

fn float_of(value: f64) -> Operand {
    Operand::Float(value.to_bits())
}

fn string_of_text(s: &str) -> Operand {
    Operand::String(s.to_string())
}

fn wrong(expected: Vec<OperandType>, got: OperandType) -> Error {
    Error::InvalidDataType { expected, got }
}

fn overflow() -> Error {
    Error::Custom("Integer overflow".to_string())
}

#[test]
fn tags_of_operands() {
    assert_eq!(Operand::Integer(1).data_type(), OperandType::Integer);
    assert_eq!(float_of(1.0).data_type(), OperandType::Float);
    assert_eq!(string_of_text("a").data_type(), OperandType::String);
}

#[test]
fn to_float_widens_numbers() {
    assert_eq!(float_of(1.5).to_float(&Native), Ok(float_of(1.5)));
    assert_eq!(Operand::Integer(3).to_float(&Native), Ok(float_of(3.0)));
    assert_eq!(Operand::Integer(-3).to_float(&Native), Ok(float_of(-3.0)));
    assert_eq!(
        string_of_text("a").to_float(&Native),
        Err(wrong(
            vec![OperandType::Float, OperandType::Integer],
            OperandType::String
        ))
    );
}

#[test]
fn floor_to_int_rounds_down() {
    assert_eq!(float_of(1.5).floor_to_int(&Native), Ok(Operand::Integer(1)));
    assert_eq!(float_of(-1.5).floor_to_int(&Native), Ok(Operand::Integer(-2)));
    assert_eq!(float_of(2.0).floor_to_int(&Native), Ok(Operand::Integer(2)));
    assert_eq!(
        Operand::Integer(7).floor_to_int(&Native),
        Ok(Operand::Integer(7))
    );
    assert_eq!(
        string_of_text("a").floor_to_int(&Native),
        Err(wrong(
            vec![OperandType::Float, OperandType::Integer],
            OperandType::String
        ))
    );
}

#[test]
fn upgrade_if_need_promotes_both_or_none() {
    assert_eq!(
        Operand::upgrade_if_need(Operand::Integer(1), Operand::Integer(2), &Native),
        Ok((Operand::Integer(1), Operand::Integer(2)))
    );
    assert_eq!(
        Operand::upgrade_if_need(Operand::Integer(1), float_of(2.5), &Native),
        Ok((float_of(1.0), float_of(2.5)))
    );
    assert_eq!(
        Operand::upgrade_if_need(float_of(1.5), Operand::Integer(2), &Native),
        Ok((float_of(1.5), float_of(2.0)))
    );
    assert_eq!(
        Operand::upgrade_if_need(float_of(1.5), float_of(2.5), &Native),
        Ok((float_of(1.5), float_of(2.5)))
    );
    assert_eq!(
        Operand::upgrade_if_need(string_of_text("a"), Operand::Integer(2), &Native),
        Ok((string_of_text("a"), Operand::Integer(2)))
    );
    assert_eq!(
        Operand::upgrade_if_need(string_of_text("a"), string_of_text("b"), &Native),
        Ok((string_of_text("a"), string_of_text("b")))
    );
    assert_eq!(
        Operand::upgrade_if_need(string_of_text("a"), float_of(2.5), &Native),
        Err(wrong(
            vec![OperandType::Float, OperandType::Integer],
            OperandType::String
        ))
    );
    assert_eq!(
        Operand::upgrade_if_need(float_of(2.5), string_of_text("a"), &Native),
        Err(wrong(
            vec![OperandType::Float, OperandType::Integer],
            OperandType::String
        ))
    );
}

#[test]
fn accessors_ask_for_their_tag() {
    assert_eq!(Operand::Integer(5).as_int(), Ok(5));
    assert_eq!(
        float_of(1.0).as_int(),
        Err(wrong(vec![OperandType::Integer], OperandType::Float))
    );
    assert_eq!(
        string_of_text("a").as_int(),
        Err(wrong(vec![OperandType::Integer], OperandType::String))
    );
    assert_eq!(float_of(1.5).as_float(), Ok(1.5f64.to_bits()));
    assert_eq!(
        Operand::Integer(1).as_float(),
        Err(wrong(vec![OperandType::Float], OperandType::Integer))
    );
    assert_eq!(
        string_of_text("a").as_float(),
        Err(wrong(vec![OperandType::Float], OperandType::String))
    );
    assert_eq!(string_of_text("abc").as_string(), Ok("abc"));
    assert_eq!(
        Operand::Integer(1).as_string(),
        Err(wrong(vec![OperandType::String], OperandType::Integer))
    );
    assert_eq!(
        float_of(1.0).as_string(),
        Err(wrong(vec![OperandType::String], OperandType::Float))
    );
}

#[test]
fn copies_are_equal() {
    assert_eq!(Operand::Integer(5).duplicate(), Operand::Integer(5));
    assert_eq!(string_of_text("abc").duplicate(), string_of_text("abc"));
    assert_eq!(float_of(2.5).duplicate(), float_of(2.5));
    assert_eq!(
        Operator::Custom("f".to_string()).duplicate(),
        Operator::Custom("f".to_string())
    );
    assert_eq!(Operator::BitXor(8).duplicate(), Operator::BitXor(8));
    assert!(Operator::Custom("f".to_string()).same(&Operator::Custom("f".to_string())));
    assert!(!Operator::Custom("f".to_string()).same(&Operator::Custom("g".to_string())));
    assert!(!Operator::BitXor(8).same(&Operator::BitXor(16)));
    assert!(!Operator::BitXor(8).same(&Operator::BitNot(8)));
    assert!(Operator::Add.same(&Operator::Add));
    assert!(!Operator::Add.same(&Operator::Postive));
}

#[test]
fn checked_integer_operations() {
    assert_eq!(int_add(2, 3), Ok(5));
    assert_eq!(int_add(i128::MAX, 1), Err(overflow()));
    assert_eq!(int_add(i128::MIN, -1), Err(overflow()));
    assert_eq!(int_sub(2, 3), Ok(-1));
    assert_eq!(int_sub(i128::MIN, 1), Err(overflow()));
    assert_eq!(int_mul(-4, 5), Ok(-20));
    assert_eq!(int_mul(i128::MAX, 2), Err(overflow()));
    assert_eq!(int_neg(5), Ok(-5));
    assert_eq!(int_neg(i128::MAX), Ok(i128::MIN + 1));
    assert_eq!(int_neg(i128::MIN), Err(overflow()));
    assert_eq!(int_div(7, 2), Ok(3));
    assert_eq!(int_div(-7, 2), Ok(-3));
    assert_eq!(int_div(7, -2), Ok(-3));
    assert_eq!(int_div(-7, -2), Ok(3));
    assert_eq!(int_div(0, 5), Ok(0));
    assert_eq!(
        int_div(1, 0),
        Err(Error::Custom("Division by zero".to_string()))
    );
    assert_eq!(int_div(i128::MIN, -1), Err(overflow()));
    assert_eq!(int_rem(7, 3), Ok(1));
    assert_eq!(int_rem(-7, 3), Ok(-1));
    assert_eq!(int_rem(7, -3), Ok(1));
    assert_eq!(int_rem(-7, -3), Ok(-1));
    assert_eq!(
        int_rem(1, 0),
        Err(Error::Custom("Division by zero".to_string()))
    );
    assert_eq!(int_rem(i128::MIN, -1), Err(overflow()));
    assert_eq!(int_pow(2, 10), Ok(1024));
    assert_eq!(int_pow(-3, 3), Ok(-27));
    assert_eq!(int_pow(7, 0), Ok(1));
    assert_eq!(int_pow(0, 0), Ok(1));
    assert_eq!(int_pow(0, 9), Ok(0));
    assert_eq!(int_pow(1, u32::MAX), Ok(1));
    assert_eq!(int_pow(-1, u32::MAX), Ok(-1));
    assert_eq!(int_pow(-1, u32::MAX - 1), Ok(1));
    assert_eq!(int_pow(-2, 127), Ok(i128::MIN));
    assert_eq!(int_pow(2, 127), Err(overflow()));
    assert_eq!(int_pow(-2, 128), Err(overflow()));
    assert_eq!(int_pow(10, 39), Err(overflow()));
    assert_eq!(int_pow(10, 38), Ok(10i128.pow(38)));
    assert_eq!(int_exp(2, 8), Ok(256));
    assert_eq!(
        int_exp(2, -1),
        Err(Error::Custom(
            "Exp operation for integers only allows u32 as parameter".to_string()
        ))
    );
    assert_eq!(int_shl(1, 4), Ok(16));
    assert_eq!(int_shl(-1, 127), Ok(i128::MIN));
    assert_eq!(int_shl(3, 127), Ok(i128::MIN));
    assert_eq!(
        int_shl(1, 128),
        Err(Error::Custom("Shift amount out of range".to_string()))
    );
    assert_eq!(int_shr(-16, 2), Ok(-4));
    assert_eq!(int_shr(16, 5), Ok(0));
    assert_eq!(
        int_shr(1, -1),
        Err(Error::Custom("Shift amount out of range".to_string()))
    );
    assert_eq!(int_or(12, 3), Ok(15));
    assert_eq!(int_or(-1, 3), Ok(-1));
    assert_eq!(int_and(12, 10), Ok(8));
    assert_eq!(int_and(-1, 10), Ok(10));
}

#[test]
fn operations_at_a_width() {
    assert_eq!(not8(0), 0xFF);
    assert_eq!(not8(0x1F0), 0x0F);
    assert_eq!(not8(-1), 0);
    assert_eq!(not16(0), 0xFFFF);
    assert_eq!(not32(0), 0xFFFF_FFFF);
    assert_eq!(not32(0xF0), 0xFFFF_FF0F);
    assert_eq!(not64(0), 0xFFFF_FFFF_FFFF_FFFF);
    assert_eq!(xor8(0x1FF, 0x0F), 0xF0);
    assert_eq!(xor16(0x1FFFF, 0x0F), 0xFFF0);
    assert_eq!(xor32(-1, 0), 0xFFFF_FFFF);
    assert_eq!(xor64(-1, 0), 0xFFFF_FFFF_FFFF_FFFF);
    assert_eq!(xor128(-1, 0), -1);
    assert_eq!(xor128(5, 3), 6);
    for x in [0i128, 1, -1, 255, 256, i128::MAX, i128::MIN, 0x1234_5678_9ABC] {
        assert_eq!(xor8(x, x), 0);
        assert_eq!(xor16(x, x), 0);
        assert_eq!(xor32(x, x), 0);
        assert_eq!(xor64(x, x), 0);
        assert_eq!(xor128(x, x), 0);
    }
}

#[test]
fn negation_of_a_bit_pattern_flips_the_sign() {
    for value in [0.0f64, 1.5, -2.25, f64::INFINITY, f64::MAX, f64::MIN_POSITIVE] {
        assert_eq!(f64::from_bits(negate(value.to_bits())), -value);
        assert_eq!(negate(negate(value.to_bits())), value.to_bits());
    }
    assert_eq!(negate(negate(f64::NAN.to_bits())), f64::NAN.to_bits());
}

#[test]
fn bytes_are_packed_most_significant_first() {
    assert_eq!(pack_bytes(&vec![]), 0);
    assert_eq!(pack_bytes(&vec![1, 2, 3]), 0x010203);
    assert_eq!(pack_bytes(&vec![0xFF; 16]), u128::MAX);
    assert_eq!(pack_bytes(&vec![1; 17]), 0x01010101_01010101_01010101_01010101);
    assert_eq!(unpack_bytes(0), Vec::<u8>::new());
    assert_eq!(unpack_bytes(0x010203), vec![3, 2, 1]);
    assert_eq!(unpack_bytes(0x0100), vec![0, 1]);
    assert_eq!(unpack_bytes(u128::MAX), vec![0xFF; 16]);
}

#[test]
fn handlers_work_on_the_top_of_the_stack() {
    let mut stack = vec![Operand::Integer(9), Operand::Integer(6), Operand::Integer(3)];
    assert_eq!(op_add(&mut stack, &Native), Ok(()));
    assert_eq!(stack, vec![Operand::Integer(9), Operand::Integer(9)]);
    assert_eq!(op_minus(&mut stack, &Native), Ok(()));
    assert_eq!(stack, vec![Operand::Integer(0)]);
    let mut stack = vec![Operand::Integer(9), Operand::Integer(6), Operand::Integer(3)];
    assert_eq!(op_div(&mut stack, &Native), Ok(()));
    assert_eq!(stack, vec![Operand::Integer(9), Operand::Integer(2)]);
    assert_eq!(op_mul(&mut stack, &Native), Ok(()));
    assert_eq!(stack, vec![Operand::Integer(18)]);
    let mut stack = vec![Operand::Integer(2), Operand::Integer(5)];
    assert_eq!(op_exp(&mut stack, &Native), Ok(()));
    assert_eq!(stack, vec![Operand::Integer(32)]);
    let mut stack = vec![Operand::Integer(7), Operand::Integer(4)];
    assert_eq!(op_mod(&mut stack), Ok(()));
    assert_eq!(stack, vec![Operand::Integer(3)]);
    let mut stack = vec![Operand::Integer(12), Operand::Integer(3)];
    assert_eq!(op_bit_or(&mut stack), Ok(()));
    assert_eq!(stack, vec![Operand::Integer(15)]);
    let mut stack = vec![Operand::Integer(12), Operand::Integer(10)];
    assert_eq!(op_bit_and(&mut stack), Ok(()));
    assert_eq!(stack, vec![Operand::Integer(8)]);
    let mut stack = vec![Operand::Integer(3), Operand::Integer(2)];
    assert_eq!(op_bit_sh_left(&mut stack), Ok(()));
    assert_eq!(stack, vec![Operand::Integer(12)]);
    let mut stack = vec![Operand::Integer(12), Operand::Integer(2)];
    assert_eq!(op_bit_sh_right(&mut stack), Ok(()));
    assert_eq!(stack, vec![Operand::Integer(3)]);
}

#[test]
fn width_handlers_work_on_the_top_of_the_stack() {
    let mut stack = vec![Operand::Integer(1), Operand::Integer(0)];
    assert_eq!(op_bit_not_8(&mut stack), Ok(()));
    assert_eq!(stack, vec![Operand::Integer(1), Operand::Integer(0xFF)]);
    let mut stack = vec![Operand::Integer(0)];
    assert_eq!(op_bit_not_16(&mut stack), Ok(()));
    assert_eq!(stack, vec![Operand::Integer(0xFFFF)]);
    let mut stack = vec![Operand::Integer(0)];
    assert_eq!(op_bit_not_32(&mut stack), Ok(()));
    assert_eq!(stack, vec![Operand::Integer(0xFFFF_FFFF)]);
    let mut stack = vec![Operand::Integer(0)];
    assert_eq!(op_bit_not_64(&mut stack), Ok(()));
    assert_eq!(stack, vec![Operand::Integer(0xFFFF_FFFF_FFFF_FFFF)]);
    let mut stack = vec![Operand::Integer(0x1FF), Operand::Integer(1)];
    assert_eq!(op_bit_xor_8(&mut stack), Ok(()));
    assert_eq!(stack, vec![Operand::Integer(0xFE)]);
    let mut stack = vec![Operand::Integer(0x1FFFF), Operand::Integer(1)];
    assert_eq!(op_bit_xor_16(&mut stack), Ok(()));
    assert_eq!(stack, vec![Operand::Integer(0xFFFE)]);
    let mut stack = vec![Operand::Integer(0x1_FFFF_FFFF), Operand::Integer(1)];
    assert_eq!(op_bit_xor_32(&mut stack), Ok(()));
    assert_eq!(stack, vec![Operand::Integer(0xFFFF_FFFE)]);
    let mut stack = vec![Operand::Integer(-1), Operand::Integer(1)];
    assert_eq!(op_bit_xor_64(&mut stack), Ok(()));
    assert_eq!(stack, vec![Operand::Integer(0xFFFF_FFFF_FFFF_FFFE)]);
    let mut stack = vec![Operand::Integer(-1), Operand::Integer(1)];
    assert_eq!(op_bit_xor_128(&mut stack), Ok(()));
    assert_eq!(stack, vec![Operand::Integer(-2)]);
}

#[test]
fn a_failing_handler_keeps_what_it_did_not_take() {
    let mut stack: Vec<Operand> = vec![];
    assert_eq!(op_add(&mut stack, &Native), Err(Error::NotEnoughOperand));
    assert_eq!(stack, vec![]);
    let mut stack = vec![Operand::Integer(1)];
    assert_eq!(op_add(&mut stack, &Native), Err(Error::NotEnoughOperand));
    assert_eq!(stack, vec![]);
    let mut stack = vec![Operand::Integer(5), Operand::Integer(1), Operand::Integer(0)];
    assert_eq!(
        op_div(&mut stack, &Native),
        Err(Error::Custom("Division by zero".to_string()))
    );
    assert_eq!(stack, vec![Operand::Integer(5)]);
    let mut stack = vec![Operand::Integer(5), string_of_text("a")];
    assert_eq!(
        op_bit_or(&mut stack),
        Err(wrong(vec![OperandType::Integer], OperandType::String))
    );
    assert_eq!(stack, vec![Operand::Integer(5)]);
    let mut stack = vec![Operand::Integer(9), string_of_text("a"), Operand::Integer(5)];
    assert_eq!(
        op_bit_or(&mut stack),
        Err(wrong(vec![OperandType::Integer], OperandType::String))
    );
    assert_eq!(stack, vec![Operand::Integer(9)]);
    let mut stack = vec![Operand::Integer(5)];
    assert_eq!(op_bit_or(&mut stack), Err(Error::NotEnoughOperand));
    assert_eq!(stack, vec![]);
    let mut stack = vec![Operand::Integer(9), string_of_text("a")];
    assert_eq!(
        op_bit_not_8(&mut stack),
        Err(wrong(vec![OperandType::Integer], OperandType::String))
    );
    assert_eq!(stack, vec![Operand::Integer(9)]);
    let mut stack = vec![Operand::Integer(9), string_of_text("a")];
    assert_eq!(
        neg(&mut stack),
        Err(wrong(
            vec![OperandType::Integer, OperandType::Float],
            OperandType::String
        ))
    );
    assert_eq!(stack, vec![Operand::Integer(9)]);
}

#[test]
fn unary_handlers() {
    let mut stack = vec![Operand::Integer(9)];
    assert_eq!(noop(&mut stack), Ok(()));
    assert_eq!(stack, vec![Operand::Integer(9)]);
    let mut stack: Vec<Operand> = vec![];
    assert_eq!(noop(&mut stack), Err(Error::NotEnoughOperand));
    let mut stack = vec![Operand::Integer(9)];
    assert_eq!(neg(&mut stack), Ok(()));
    assert_eq!(stack, vec![Operand::Integer(-9)]);
    let mut stack = vec![float_of(2.5)];
    assert_eq!(neg(&mut stack), Ok(()));
    assert_eq!(stack, vec![float_of(-2.5)]);
    let mut stack = vec![Operand::Integer(i128::MIN)];
    assert_eq!(neg(&mut stack), Err(overflow()));
    assert_eq!(stack, vec![]);
    let mut stack = vec![string_of_text("AB")];
    assert_eq!(ascii(&mut stack), Ok(()));
    assert_eq!(stack, vec![Operand::Integer(0x4142)]);
    assert_eq!(ascii(&mut stack), Ok(()));
    assert_eq!(stack, vec![string_of_text("AB")]);
    assert_eq!(rev(&mut stack), Ok(()));
    assert_eq!(stack, vec![string_of_text("BA")]);
    let mut stack = vec![Operand::Integer(0x0102)];
    assert_eq!(rev(&mut stack), Ok(()));
    assert_eq!(stack, vec![Operand::Integer(0x0201)]);
    let mut stack = vec![Operand::Integer(-2)];
    assert_eq!(rev(&mut stack), Ok(()));
    assert_eq!(
        stack,
        vec![Operand::Integer(0xFEFF_FFFF_FFFF_FFFF_FFFF_FFFF_FFFF_FFFFu128 as i128)]
    );
}

#[test]
fn the_stack_helpers() {
    let mut stack: Vec<Operand> = vec![];
    assert_eq!(pop_operand(&mut stack), Err(Error::NotEnoughOperand));
    push_operand(&mut stack, Operand::Integer(1));
    push_operand(&mut stack, string_of_text("a"));
    assert_eq!(pop_operand(&mut stack), Ok(string_of_text("a")));
    assert_eq!(pop_operand(&mut stack), Ok(Operand::Integer(1)));
    assert_eq!(pop_operand(&mut stack), Err(Error::NotEnoughOperand));
}

#[test]
fn builtin_handlers_are_applied_by_kind() {
    let mut stack = vec![Operand::Integer(2), Operand::Integer(3)];
    assert_eq!(Builtin::Mul.apply(&mut stack, &Native), Ok(()));
    assert_eq!(stack, vec![Operand::Integer(6)]);
    let mut stack = vec![float_of(1.5), Operand::Integer(3)];
    assert_eq!(Builtin::Add.apply(&mut stack, &Native), Ok(()));
    assert_eq!(stack, vec![float_of(4.5)]);
    let mut stack = vec![Operand::Integer(0xF0)];
    assert_eq!(Builtin::BitNot8.apply(&mut stack, &Native), Ok(()));
    assert_eq!(stack, vec![Operand::Integer(0x0F)]);
}

#[test]
fn the_default_handlers() {
    let table = default_handlers::<NoHandler>();
    let keys: Vec<Operator> = table.iter().map(|(op, _)| op.duplicate()).collect();
    assert_eq!(
        keys,
        vec![
            Operator::Add,
            Operator::Minus,
            Operator::Mul,
            Operator::Div,
            Operator::Expo,
            Operator::BitOr,
            Operator::BitAnd,
            Operator::Mod,
            Operator::LeftShift,
            Operator::RightShift,
            Operator::BitNot(8),
            Operator::BitNot(16),
            Operator::BitNot(32),
            Operator::BitNot(64),
            Operator::BitXor(8),
            Operator::BitXor(16),
            Operator::BitXor(32),
            Operator::BitXor(64),
            Operator::BitXor(128),
            Operator::Custom("ascii".to_string()),
            Operator::Custom("rev".to_string()),
            Operator::Negate,
            Operator::Postive,
        ]
    );
    for (op, action) in &table {
        match action {
            OperatorAction::Builtin(kind) => match op {
                Operator::Add => assert_eq!(*kind, Builtin::Add),
                Operator::Postive => assert_eq!(*kind, Builtin::Noop),
                Operator::Negate => assert_eq!(*kind, Builtin::Negate),
                Operator::BitXor(128) => assert_eq!(*kind, Builtin::BitXor128),
                Operator::BitNot(64) => assert_eq!(*kind, Builtin::BitNot64),
                _ => {}
            },
            OperatorAction::External(_) => panic!("a default handler is the calculator's own"),
        }
    }
}

#[test]
fn texts_and_characters() {
    assert_eq!(chars_of("héllo"), vec!['h', 'é', 'l', 'l', 'o']);
    assert_eq!(chars_of(""), Vec::<char>::new());
    assert_eq!(string_of(&vec!['a', 'ß', 'c']), "aßc");
    assert_eq!(string_of(&vec![]), "");
    assert_eq!(string_of(&chars_of("round trip")), "round trip");
    assert!(same_text("abc", "abc"));
    assert!(same_text("", ""));
    assert!(!same_text("abc", "abd"));
    assert!(!same_text("abc", "ab"));
}
