use rcal::expr::handler::{pop_operand, NoHandler, OperatorAction, OperatorHandler};
use rcal::expr::operand::{Operand, OperandType};
use rcal::expr::operator::Operator;
use rcal::expr::ExprToken;
use rcal::float::FloatUnit;
use rcal::{Error, Evaluator};

struct Native;

impl FloatUnit for Native {
    fn parse(&self, text: &str) -> Option<u64> {
        text.parse::<f64>().ok().map(f64::to_bits)
    }

    fn from_int(&self, value: i128) -> u64 {
        (value as f64).to_bits()
    }

    fn floor(&self, bits: u64) -> i128 {
        f64::from_bits(bits).floor() as i128
    }

    fn sum(&self, a: u64, b: u64) -> u64 {
        (f64::from_bits(a) + f64::from_bits(b)).to_bits()
    }

    fn difference(&self, a: u64, b: u64) -> u64 {
        (f64::from_bits(a) - f64::from_bits(b)).to_bits()
    }

    fn product(&self, a: u64, b: u64) -> u64 {
        (f64::from_bits(a) * f64::from_bits(b)).to_bits()
    }

    fn quotient(&self, a: u64, b: u64) -> u64 {
        (f64::from_bits(a) / f64::from_bits(b)).to_bits()
    }

    fn power(&self, a: u64, b: u64) -> u64 {
        f64::from_bits(a).powf(f64::from_bits(b)).to_bits()
    }
}

struct TestFunc;

impl OperatorHandler for TestFunc {
    fn apply(&self, operands: &mut Vec<Operand>) -> Result<(), Error> {
        let c = pop_operand(operands)?.as_int()?;
        let b = pop_operand(operands)?.as_int()?;
        let a = pop_operand(operands)?.as_int()?;
        operands.push(Operand::Integer(a * b + c));
        Ok(())
    }
}

fn plain() -> Evaluator<Native, NoHandler> {
    Evaluator::new(Native)
}

fn integer(text: &str) -> i128 {
    match plain().eval(text) {
        Ok(Operand::Integer(i)) => i,
        other => panic!("{text}: {other:?}"),
    }
}

fn floating(text: &str) -> f64 {
    match plain().eval(text) {
        Ok(Operand::Float(bits)) => f64::from_bits(bits),
        other => panic!("{text}: {other:?}"),
    }
}

fn error(text: &str) -> Error {
    match plain().eval(text) {
        Err(e) => e,
        other => panic!("{text}: {other:?}"),
    }
}

fn failure(message: &str) -> Error {
    Error::Custom(message.to_string())
}

#[test]
fn test_basic() {
    let mut evaluator: Evaluator<Native, TestFunc> = Evaluator::new(Native);
    evaluator.insert_op_handler(
        Operator::Custom("func".to_string()),
        OperatorAction::External(TestFunc),
    );
    assert_eq!(
        evaluator.eval("2+(1 - 5)*3/4").unwrap(),
        Operand::Integer(2 + (1 - 5) * 3 / 4)
    );
    assert_eq!(
        evaluator.eval("3.0 / 5 ^^ 0.3").unwrap(),
        Operand::Float((3f64 / 5f64.powf(0.3f64)).to_bits())
    );
    assert_eq!(
        evaluator.eval("1 << 10").unwrap(),
        Operand::Integer(1 << 10)
    );
    assert_eq!(
        evaluator.eval("!0 & 0xF0F00000").unwrap(),
        Operand::Integer(0xF0F00000)
    );
    assert_eq!(
        evaluator.eval("~(0xF<<4)").unwrap(),
        Operand::Integer(0xFFFFFF0F)
    );
    assert_eq!(
        evaluator.eval("~(0xF>>2)").unwrap(),
        Operand::Integer(0xFFFFFFFC)
    );
    assert_eq!(
        evaluator.eval("0b101 b^ b!0").unwrap(),
        Operand::Integer(0b11111010)
    );
    assert_eq!(evaluator.eval("4096 / 1k").unwrap(), Operand::Integer(4));
    assert_eq!(
        evaluator.eval("(2--1)*5+-3+func(((2)),(1+2),4)").unwrap(),
        Operand::Integer(22)
    );
    assert_eq!(
        evaluator.eval(r"1+rev(ascii('_FVH'))+2").unwrap(),
        Operand::Integer(0x48564662)
    )
}

#[test]
fn truncating_division_scenario() {
    assert_eq!(integer("2+(1 - 5)*3/4"), -1);
}

#[test]
fn float_power_scenario() {
    assert_eq!(floating("3.0 / 5 ^^ 0.3"), 3.0 / 5.0f64.powf(0.3));
}

#[test]
fn shift_scenario() {
    assert_eq!(integer("1 << 10"), 1024);
}

#[test]
fn default_width_not_scenario() {
    assert_eq!(integer("!0 & 0xF0F00000"), 0xF0F00000);
    assert_eq!(integer("~(0xF<<4)"), 0xFFFFFF0F);
}

#[test]
fn eight_bit_xor_scenario() {
    assert_eq!(integer("0b101 b^ b!0"), 0b11111010);
}

#[test]
fn unit_suffix_scenario() {
    assert_eq!(integer("4096 / 1k"), 4);
}

#[test]
fn ascii_then_rev_scenario() {
    assert_eq!(integer("1+rev(ascii('_FVH'))+2"), 0x48564662);
}

#[test]
fn precedence_orders_binary_operators() {
    assert_eq!(integer("2+3*4"), 14);
    assert_eq!(integer("2*3+4"), 10);
    assert_eq!(integer("1 | 2 ^ 3 & 6 << 1 + 2 * 3 ^^ 2"), 1 | (2 ^ (3 & (6 << (1 + 2 * 9)))));
    assert_eq!(integer("1 + 2 << 3"), 24);
    assert_eq!(integer("7 & 3 | 8"), 11);
}

#[test]
fn equal_ranks_group_from_the_left() {
    assert_eq!(integer("10-4-3"), 3);
    assert_eq!(integer("100/5/2"), 10);
    assert_eq!(integer("2^^3^^2"), 64);
    assert_eq!(integer("7-2+1"), 6);
}

#[test]
fn prefix_operators_bind_tightest() {
    assert_eq!(integer("-2^^2"), 4);
    assert_eq!(integer("-2*3"), -6);
    assert_eq!(integer("+5"), 5);
    assert_eq!(integer("2--1"), 3);
    assert_eq!(integer("2*-3"), -6);
}

#[test]
fn parentheses_override_precedence() {
    assert_eq!(integer("(2+3)*4"), 20);
    assert_eq!(integer("2*(3+4)"), 14);
    assert_eq!(integer("(2*3)+4"), 10);
    assert_eq!(integer("2+(3*4)"), 14);
    assert_eq!(integer("(1|2)^^2"), 9);
    assert_eq!(integer("(8-3)-(2-1)"), 4);
}

#[test]
fn negating_twice_gives_the_number_back() {
    assert_eq!(integer("--5"), 5);
    assert_eq!(integer("--0"), 0);
    assert_eq!(integer("--(0-7)"), -7);
    assert_eq!(floating("--5.5"), 5.5);
    assert_eq!(plain().eval("--2.25").unwrap(), plain().eval("2.25").unwrap());
    assert_eq!(floating("-5.5"), -5.5);
}

#[test]
fn exclusive_or_of_a_value_with_itself_is_zero() {
    for sign in ["b^", "w^", "dw^", "l^", "ll^", "^"] {
        for value in ["0", "7", "255", "65536", "0xFFFFFFFFFFFF", "170141183460469231731687303715884105727"] {
            assert_eq!(integer(&format!("{value} {sign} {value}")), 0);
        }
    }
}

#[test]
fn exclusive_or_narrows_to_its_width() {
    assert_eq!(integer("0x1FF b^ 0"), 0xFF);
    assert_eq!(integer("0x1FFFF w^ 0"), 0xFFFF);
    assert_eq!(integer("0x1FFFFFFFF ^ 0"), 0xFFFFFFFF);
    assert_eq!(integer("0x1FFFFFFFF dw^ 1"), 0xFFFFFFFE);
    assert_eq!(integer("0x1FFFFFFFFFFFFFFFF l^ 0"), 0xFFFFFFFFFFFFFFFF);
    assert_eq!(integer("5 ll^ 3"), 6);
}

#[test]
fn complement_at_each_width() {
    assert_eq!(integer("b!0"), 0xFF);
    assert_eq!(integer("w!0"), 0xFFFF);
    assert_eq!(integer("dw!0"), 0xFFFFFFFF);
    assert_eq!(integer("!0"), 0xFFFFFFFF);
    assert_eq!(integer("~0"), 0xFFFFFFFF);
    assert_eq!(integer("l!0"), 0xFFFFFFFFFFFFFFFF);
    assert_eq!(integer("b~0x1F0"), 0x0F);
    assert_eq!(integer("w!1"), 0xFFFE);
}

#[test]
fn integer_arithmetic() {
    assert_eq!(integer("7 % 3"), 1);
    assert_eq!(integer("-7 % 3"), -1);
    assert_eq!(integer("7 % (0-3)"), 1);
    assert_eq!(integer("-7 / 2"), -3);
    assert_eq!(integer("7 / (0-2)"), -3);
    assert_eq!(integer("(0-7) / (0-2)"), 3);
    assert_eq!(integer("2 ^^ 10"), 1024);
    assert_eq!(integer("(0-2) ^^ 3"), -8);
    assert_eq!(integer("(0-1) ^^ 4294967295"), -1);
    assert_eq!(integer("1 ^^ 4294967295"), 1);
    assert_eq!(integer("0 ^^ 0"), 1);
    assert_eq!(integer("0 ^^ 5"), 0);
    assert_eq!(integer("2 ^^ 126"), 1i128 << 126);
    assert_eq!(integer("12 | 3"), 15);
    assert_eq!(integer("12 & 10"), 8);
    assert_eq!(integer("1024 >> 3"), 128);
    assert_eq!(integer("(0-16) >> 2"), -4);
    assert_eq!(integer("1 << 127"), i128::MIN);
}

#[test]
fn mixed_operands_are_promoted() {
    assert_eq!(floating("1 + 2.5"), 3.5);
    assert_eq!(floating("2.5 - 1"), 1.5);
    assert_eq!(floating("2 * 1.5"), 3.0);
    assert_eq!(floating("1 / 4.0"), 0.25);
    assert_eq!(floating("2.0 ^^ 3"), 8.0);
    assert_eq!(floating("1.5 + 1.5"), 3.0);
}

#[test]
fn arithmetic_failures_are_errors() {
    assert_eq!(error("1/0"), failure("Division by zero"));
    assert_eq!(error("1%0"), failure("Division by zero"));
    assert_eq!(
        error("170141183460469231731687303715884105727 + 1"),
        failure("Integer overflow")
    );
    assert_eq!(
        error("0 - 170141183460469231731687303715884105727 - 2"),
        failure("Integer overflow")
    );
    assert_eq!(
        error("170141183460469231731687303715884105727 * 2"),
        failure("Integer overflow")
    );
    assert_eq!(error("2 ^^ 127"), failure("Integer overflow"));
    assert_eq!(error("3 ^^ 4294967295"), failure("Integer overflow"));
    assert_eq!(error("-(1 << 127)"), failure("Integer overflow"));
    assert_eq!(error("(1 << 127) / (0-1)"), failure("Integer overflow"));
    assert_eq!(error("(1 << 127) % (0-1)"), failure("Integer overflow"));
    assert_eq!(
        error("2 ^^ (0-1)"),
        failure("Exp operation for integers only allows u32 as parameter")
    );
    assert_eq!(
        error("2 ^^ 4294967296"),
        failure("Exp operation for integers only allows u32 as parameter")
    );
    assert_eq!(error("1 << 128"), failure("Shift amount out of range"));
    assert_eq!(error("1 >> (0-1)"), failure("Shift amount out of range"));
}

#[test]
fn wrong_operand_types_are_reported() {
    assert_eq!(
        error("'a' + 1"),
        Error::InvalidDataType {
            expected: vec![OperandType::Integer, OperandType::Float],
            got: OperandType::String
        }
    );
    assert_eq!(
        error("1 + 'a'"),
        Error::InvalidDataType {
            expected: vec![OperandType::Integer],
            got: OperandType::String
        }
    );
    assert_eq!(
        error("1.5 + 'a'"),
        Error::InvalidDataType {
            expected: vec![OperandType::Float, OperandType::Integer],
            got: OperandType::String
        }
    );
    assert_eq!(
        error("1 | 2.0"),
        Error::InvalidDataType {
            expected: vec![OperandType::Integer],
            got: OperandType::Float
        }
    );
    assert_eq!(
        error("-'a'"),
        Error::InvalidDataType {
            expected: vec![OperandType::Integer, OperandType::Float],
            got: OperandType::String
        }
    );
    assert_eq!(
        error("ascii(1.5)"),
        Error::InvalidDataType {
            expected: vec![OperandType::String, OperandType::Integer],
            got: OperandType::Float
        }
    );
    assert_eq!(
        error("rev(1.5)"),
        Error::InvalidDataType {
            expected: vec![OperandType::String, OperandType::Integer],
            got: OperandType::Float
        }
    );
}

#[test]
fn ascii_packs_and_unpacks() {
    assert_eq!(integer("ascii('A')"), 65);
    assert_eq!(integer("ascii('AB')"), 0x4142);
    assert_eq!(integer("ascii('')"), 0);
    assert_eq!(
        plain().eval("ascii(0x414243)").unwrap(),
        Operand::String("ABC".to_string())
    );
    assert_eq!(
        plain().eval("ascii(0)").unwrap(),
        Operand::String(String::new())
    );
    assert_eq!(
        plain().eval("ascii(ascii('round trip'))").unwrap(),
        Operand::String("round trip".to_string())
    );
    assert_eq!(integer("ascii('0123456789abcdefg')"), 0x3132333435363738396162636465666_7);
    assert_eq!(
        plain()
            .consume_operators(&[
                ExprToken::Operand(Operand::String("\u{100}".to_string())),
                ExprToken::Operator(Operator::Custom("ascii".to_string())),
            ])
            .unwrap_err(),
        failure("Character does not fit a byte")
    );
    assert_eq!(
        plain()
            .consume_operators(&[
                ExprToken::Operand(Operand::Integer(-1)),
                ExprToken::Operator(Operator::Custom("ascii".to_string())),
            ])
            .unwrap(),
        Operand::String("\u{FF}".repeat(16))
    );
}

#[test]
fn rev_reverses_bytes_and_characters() {
    assert_eq!(integer("rev(0x1234)"), 0x3412);
    assert_eq!(integer("rev(0x1200)"), 0x12);
    assert_eq!(integer("rev(0x010203)"), 0x030201);
    assert_eq!(integer("rev(0)"), 0);
    assert_eq!(
        plain().eval("rev('abc')").unwrap(),
        Operand::String("cba".to_string())
    );
    assert_eq!(
        plain().eval("rev('')").unwrap(),
        Operand::String(String::new())
    );
}

#[test]
fn the_stack_machine_reports_its_errors() {
    let evaluator = plain();
    assert_eq!(
        evaluator.consume_operators(&[ExprToken::Operator(Operator::Add)]),
        Err(Error::NotEnoughOperand)
    );
    assert_eq!(
        evaluator.consume_operators(&[
            ExprToken::Operand(Operand::Integer(1)),
            ExprToken::Operator(Operator::Add)
        ]),
        Err(Error::NotEnoughOperand)
    );
    assert_eq!(
        evaluator.consume_operators(&[ExprToken::Operator(Operator::Postive)]),
        Err(Error::NotEnoughOperand)
    );
    assert_eq!(
        evaluator.consume_operators(&[ExprToken::Operator(Operator::Negate)]),
        Err(Error::NotEnoughOperand)
    );
    assert_eq!(
        evaluator.consume_operators(&[
            ExprToken::Operand(Operand::Integer(1)),
            ExprToken::Operand(Operand::Integer(2))
        ]),
        Err(Error::RedundantOperand(2))
    );
    assert_eq!(
        evaluator.consume_operators(&[]),
        Err(Error::RedundantOperand(0))
    );
    assert_eq!(
        evaluator.consume_operators(&[
            ExprToken::Operand(Operand::Integer(1)),
            ExprToken::Operator(Operator::OpenParenthesis)
        ]),
        Err(Error::NoMatchingHandler {
            op: Operator::OpenParenthesis
        })
    );
    assert_eq!(
        error("foo(1)"),
        Error::NoMatchingHandler {
            op: Operator::Custom("foo".to_string())
        }
    );
    assert_eq!(
        error("ll!1"),
        Error::NoMatchingHandler {
            op: Operator::BitNot(128)
        }
    );
    assert_eq!(
        evaluator.consume_operators(&[ExprToken::Operand(Operand::Integer(7))]),
        Ok(Operand::Integer(7))
    );
}

#[test]
fn a_registered_handler_replaces_the_default() {
    let mut evaluator: Evaluator<Native, TestFunc> = Evaluator::new(Native);
    assert_eq!(evaluator.eval("2+3").unwrap(), Operand::Integer(5));
    evaluator.insert_op_handler(Operator::Add, OperatorAction::External(TestFunc));
    assert_eq!(
        evaluator.consume_operators(&[
            ExprToken::Operand(Operand::Integer(2)),
            ExprToken::Operand(Operand::Integer(3)),
            ExprToken::Operand(Operand::Integer(4)),
            ExprToken::Operator(Operator::Add),
        ]),
        Ok(Operand::Integer(10))
    );
    evaluator.insert_op_handler(
        Operator::Add,
        OperatorAction::Builtin(rcal::expr::handler::Builtin::Minus),
    );
    assert_eq!(evaluator.eval("2+3").unwrap(), Operand::Integer(-1));
    assert_eq!(evaluator.eval("2*3").unwrap(), Operand::Integer(6));
}

#[test]
fn a_handler_of_no_one_fails() {
    let mut evaluator = plain();
    evaluator.insert_op_handler(
        Operator::Custom("nothing".to_string()),
        OperatorAction::External(NoHandler),
    );
    assert_eq!(error("foo(1)"), Error::NoMatchingHandler { op: Operator::Custom("foo".to_string()) });
    assert_eq!(evaluator.eval("nothing(1)"), Err(failure("No handler")));
}

#[test]
fn lexing_and_parsing_errors_come_through() {
    assert_eq!(error("1 # 2"), Error::InvalidToken);
    assert_eq!(error("x^ 1"), Error::InvalidBitWidthHint("x".to_string()));
    assert_eq!(
        error("1e.5 + 1"),
        Error::ParseFloatError("1e.5".to_string())
    );
    assert_eq!(
        error("170141183460469231731687303715884105728"),
        Error::ParseIntError("170141183460469231731687303715884105728".to_string())
    );
    assert_eq!(error("1 +"), Error::UnexpectedEnd);
    assert_eq!(error(""), Error::UnexpectedEnd);
}

#[test]
fn a_closing_parenthesis_ends_the_expression() {
    assert_eq!(integer("1) + 5"), 1);
    assert_eq!(integer("(1+2"), 3);
    assert_eq!(integer("((1+2)*3"), 9);
}

#[test]
fn the_default_error_is_the_invalid_token() {
    assert_eq!(Error::default(), Error::InvalidToken);
    assert_eq!(rcal::lex::Error::default(), rcal::lex::Error::Invalid);
    assert_eq!(
        Error::from_lex(rcal::lex::Error::Invalid),
        Error::InvalidToken
    );
    assert_eq!(
        Error::from_lex(rcal::lex::Error::ParseIntError("9".to_string())),
        Error::ParseIntError("9".to_string())
    );
    assert_eq!(
        Error::from_lex(rcal::lex::Error::ParseFloatError("1e.5".to_string())),
        Error::ParseFloatError("1e.5".to_string())
    );
    assert_eq!(
        Error::from_lex(rcal::lex::Error::InvalidBitWidthHint("x".to_string())),
        Error::InvalidBitWidthHint("x".to_string())
    );
}

/// An expression tree for the comparison of the stack machine with a direct
/// evaluation.
enum Shape {
    Leaf(i128),
    Sign(Operator, Box<Shape>),
    Pair(Box<Shape>, Operator, Box<Shape>),
}

struct Dice(u64);

impl Dice {
    fn roll(&mut self, sides: u64) -> u64 {
        self.0 = self
            .0
            .wrapping_mul(6364136223846793005)
            .wrapping_add(1442695040888963407);
        (self.0 >> 33) % sides
    }
}

fn grow(dice: &mut Dice, depth: u32) -> Shape {
    if depth == 0 || dice.roll(4) == 0 {
        return Shape::Leaf(dice.roll(40) as i128);
    }
    if dice.roll(5) == 0 {
        let sign = match dice.roll(3) {
            0 => Operator::Negate,
            1 => Operator::Postive,
            _ => Operator::BitNot(8),
        };
        return Shape::Sign(sign, Box::new(grow(dice, depth - 1)));
    }
    let op = match dice.roll(11) {
        0 => Operator::Add,
        1 => Operator::Minus,
        2 => Operator::Mul,
        3 => Operator::Div,
        4 => Operator::Mod,
        5 => Operator::Expo,
        6 => Operator::BitOr,
        7 => Operator::BitAnd,
        8 => Operator::BitXor(16),
        9 => Operator::LeftShift,
        _ => Operator::RightShift,
    };
    Shape::Pair(
        Box::new(grow(dice, depth - 1)),
        op,
        Box::new(grow(dice, depth - 1)),
    )
}

fn level(shape: &Shape) -> usize {
    match shape {
        Shape::Pair(_, op, _) => op.precedence(),
        _ => 0,
    }
}

fn write_in_parentheses(shape: &Shape, out: &mut Vec<ExprToken>) {
    out.push(ExprToken::Operator(Operator::OpenParenthesis));
    write(shape, out);
    out.push(ExprToken::Operator(Operator::CloseParenthesis));
}

/// Writes a tree as an infix sequence, with parentheses where the precedence
/// table would group otherwise.
fn write(shape: &Shape, out: &mut Vec<ExprToken>) {
    match shape {
        Shape::Leaf(i) => out.push(ExprToken::Operand(Operand::Integer(*i))),
        Shape::Sign(op, inner) => {
            out.push(ExprToken::Operator(op.duplicate()));
            if level(inner) == 0 {
                write(inner, out);
            } else {
                write_in_parentheses(inner, out);
            }
        }
        Shape::Pair(left, op, right) => {
            if level(left) <= op.precedence() {
                write(left, out);
            } else {
                write_in_parentheses(left, out);
            }
            out.push(ExprToken::Operator(op.duplicate()));
            if level(right) < op.precedence() {
                write(right, out);
            } else {
                write_in_parentheses(right, out);
            }
        }
    }
}

/// Evaluates a tree directly; `None` where an operation has no result.
fn direct(shape: &Shape) -> Option<i128> {
    match shape {
        Shape::Leaf(i) => Some(*i),
        Shape::Sign(op, inner) => {
            let x = direct(inner)?;
            match op {
                Operator::Negate => x.checked_neg(),
                Operator::Postive => Some(x),
                _ => Some((!(x as u8)) as i128),
            }
        }
        Shape::Pair(left, op, right) => {
            let a = direct(left)?;
            let b = direct(right)?;
            match op {
                Operator::Add => a.checked_add(b),
                Operator::Minus => a.checked_sub(b),
                Operator::Mul => a.checked_mul(b),
                Operator::Div => a.checked_div(b),
                Operator::Mod => a.checked_rem(b),
                Operator::Expo => a.checked_pow(u32::try_from(b).ok()?),
                Operator::BitOr => Some(a | b),
                Operator::BitAnd => Some(a & b),
                Operator::BitXor(_) => Some(((a as u16) ^ (b as u16)) as i128),
                Operator::LeftShift => {
                    if (0..128).contains(&b) {
                        Some(a << b)
                    } else {
                        None
                    }
                }
                _ => {
                    if (0..128).contains(&b) {
                        Some(a >> b)
                    } else {
                        None
                    }
                }
            }
        }
    }
}

#[test]
fn rewriting_and_running_gives_the_value_of_the_tree() {
    let evaluator = plain();
    let mut dice = Dice(2024);
    let mut with_value = 0;
    for _ in 0..2000 {
        let shape = grow(&mut dice, 5);
        let mut infix = Vec::new();
        write(&shape, &mut infix);
        let result = evaluator.consume_operators(&rcal::expr::to_suffix(&infix));
        match direct(&shape) {
            Some(value) => {
                with_value += 1;
                assert_eq!(result, Ok(Operand::Integer(value)));
            }
            None => assert!(matches!(result, Err(Error::Custom(_)))),
        }
    }
    assert!(with_value > 500);
}

#[test]
fn the_text_of_a_tree_has_the_value_of_the_tree() {
    let evaluator = plain();
    let mut dice = Dice(7);
    for _ in 0..500 {
        let shape = grow(&mut dice, 4);
        let mut infix = Vec::new();
        write(&shape, &mut infix);
        let text: String = infix
            .iter()
            .map(|token| match token {
                ExprToken::Operand(Operand::Integer(i)) => format!("{i} "),
                ExprToken::Operator(Operator::Expo) => "^^ ".to_string(),
                ExprToken::Operator(Operator::BitXor(_)) => "w^ ".to_string(),
                ExprToken::Operator(Operator::BitNot(_)) => "b!".to_string(),
                ExprToken::Operator(op) => format!("{} ", op.text()),
                ExprToken::Operand(_) => unreachable!(),
            })
            .collect();
        match direct(&shape) {
            Some(value) => assert_eq!(evaluator.eval(&text), Ok(Operand::Integer(value)), "{text}"),
            None => assert!(matches!(evaluator.eval(&text), Err(Error::Custom(_))), "{text}"),
        }
    }
}
