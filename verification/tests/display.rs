use rcal::display::{
    convert_to_string, group_digits, tokens_line, unsigned_to_string, val_to_string, FloatText,
};
use rcal::expr::operand::{Operand, OperandType};
use rcal::expr::operator::Operator;
use rcal::expr::ExprToken;
use rcal::value::Value;

struct Native;

impl FloatText for Native {
    fn is_whole(&self, bits: u64) -> bool {
        let f = f64::from_bits(bits);
        f.floor() == f
    }

    fn plain(&self, bits: u64) -> String {
        format!("{}", f64::from_bits(bits))
    }

    fn one_decimal(&self, bits: u64) -> String {
        format!("{:.1}", f64::from_bits(bits))
    }

    fn debug(&self, bits: u64) -> String {
        format!("{:?}", f64::from_bits(bits))
    }
}

fn show(val: Value, base: u32) -> Result<Option<String>, String> {
    val_to_string(&val, base, &Native)
}

#[test]
fn integers_in_a_base() {
    assert_eq!(convert_to_string(0, 2), Ok("0".into()));
    assert_eq!(convert_to_string(0, 36), Ok("0".into()));
    assert_eq!(convert_to_string(255, 16), Ok("FF".into()));
    assert_eq!(convert_to_string(-255, 16), Ok("-FF".into()));
    assert_eq!(convert_to_string(-10, 2), Ok("-1010".into()));
    assert_eq!(convert_to_string(1234567890, 10), Ok("1234567890".into()));
    assert_eq!(convert_to_string(8, 8), Ok("10".into()));
    assert_eq!(
        convert_to_string(i128::MAX, 10),
        Ok("170141183460469231731687303715884105727".into())
    );
    assert_eq!(
        convert_to_string(i128::MIN, 10),
        Ok("-170141183460469231731687303715884105728".into())
    );
    assert_eq!(
        convert_to_string(i128::MIN, 16),
        Ok("-80000000000000000000000000000000".into())
    );
    assert_eq!(convert_to_string(35, 36), Ok("Z".into()));
}

#[test]
fn a_base_out_of_range_is_refused() {
    assert_eq!(convert_to_string(10, 0), Err("Invalid base: 0".into()));
    assert_eq!(convert_to_string(10, 1), Err("Invalid base: 1".into()));
    assert_eq!(convert_to_string(10, 37), Err("Invalid base: 37".into()));
    assert_eq!(
        convert_to_string(10, u32::MAX),
        Err("Invalid base: 4294967295".into())
    );
    assert_eq!(convert_to_string(0, 1), Err("Invalid base: 1".into()));
}

#[test]
fn numbers_without_a_sign() {
    assert_eq!(unsigned_to_string(0, 16), "0");
    assert_eq!(unsigned_to_string(255, 16), "FF");
    assert_eq!(unsigned_to_string(255, 2), "11111111");
    assert_eq!(unsigned_to_string(8, 8), "10");
    assert_eq!(
        unsigned_to_string(u128::MAX, 16),
        "FFFFFFFFFFFFFFFFFFFFFFFFFFFFFFFF"
    );
    assert_eq!(
        unsigned_to_string(-1i128 as u128, 16),
        format!("{:X}", -1i128)
    );
    assert_eq!(unsigned_to_string(1u128 << 100, 2), format!("{:b}", 1u128 << 100));
    assert_eq!(unsigned_to_string(0o777, 8), format!("{:o}", 0o777));
}

#[test]
fn digits_in_sections() {
    assert_eq!(group_digits("", 3, ','), "");
    assert_eq!(group_digits("1", 3, ','), "1");
    assert_eq!(group_digits("123", 3, ','), "123");
    assert_eq!(group_digits("1234", 3, ','), "1,234");
    assert_eq!(group_digits("123456", 3, ','), "123,456");
    assert_eq!(group_digits("1234567", 3, ','), "1,234,567");
    assert_eq!(group_digits("ABCDE", 4, '_'), "A_BCDE");
    assert_eq!(group_digits("ABCDEFGH", 4, '_'), "ABCD_EFGH");
    assert_eq!(group_digits("10101", 1, ' '), "1 0 1 0 1");
    assert_eq!(group_digits("-1234", 3, ','), "-1,234");
    assert_eq!(group_digits("-123", 3, ','), "-,123");
}

#[test]
fn values_as_a_session_shows_them() {
    assert_eq!(
        show(Value::String("abc".to_string()), 10),
        Ok(Some("\"abc\"".to_string()))
    );
    assert_eq!(show(Value::Int(255), 16), Ok(Some("FF".to_string())));
    assert_eq!(show(Value::Int(-5), 2), Ok(Some("-101".to_string())));
    assert_eq!(show(Value::Int(5), 1), Err("Invalid base: 1".to_string()));
    assert_eq!(show(Value::Boolean(true), 10), Ok(Some("true".to_string())));
    assert_eq!(
        show(Value::Boolean(false), 10),
        Ok(Some("false".to_string()))
    );
    assert_eq!(show(Value::Empty, 10), Ok(None));
    assert_eq!(show(Value::Empty, 1), Ok(None));
    assert_eq!(
        show(Value::Float(2.0f64.to_bits()), 10),
        Ok(Some("2.0".to_string()))
    );
    assert_eq!(
        show(Value::Float(2.5f64.to_bits()), 10),
        Ok(Some("2.5".to_string()))
    );
    assert_eq!(
        show(Value::Float(2.5f64.to_bits()), 1),
        Ok(Some("2.5".to_string()))
    );
}

#[test]
fn tuples_as_a_debugging_aid_writes_them() {
    assert_eq!(show(Value::Tuple(vec![]), 10), Ok(Some("[]".to_string())));
    assert_eq!(
        show(Value::Tuple(vec![Value::Int(1)]), 16),
        Ok(Some("[Int(1)]".to_string()))
    );
    assert_eq!(
        show(
            Value::Tuple(vec![
                Value::Int(-12),
                Value::String("a\"b\n".to_string()),
                Value::Boolean(true),
                Value::Boolean(false),
                Value::Empty,
                Value::Float(1.5f64.to_bits()),
                Value::Tuple(vec![Value::Int(1), Value::Tuple(vec![]), Value::Int(2)]),
            ]),
            16
        ),
        Ok(Some(
            "[Int(-12), String(\"a\\\"b\\n\"), Boolean(true), Boolean(false), Empty, Float(1.5), Tuple([Int(1), Tuple([]), Int(2)])]"
                .to_string()
        ))
    );
}

#[test]
fn operators_and_operands_as_they_are_written() {
    assert_eq!(Operator::Add.text(), "+");
    assert_eq!(Operator::Minus.text(), "-");
    assert_eq!(Operator::Mul.text(), "*");
    assert_eq!(Operator::Div.text(), "/");
    assert_eq!(Operator::OpenParenthesis.text(), "(");
    assert_eq!(Operator::CloseParenthesis.text(), ")");
    assert_eq!(Operator::BitOr.text(), "|");
    assert_eq!(Operator::BitAnd.text(), "&");
    assert_eq!(Operator::BitXor(8).text(), "8^");
    assert_eq!(Operator::BitNot(128).text(), "128!");
    assert_eq!(Operator::BitNot(0).text(), "0!");
    assert_eq!(Operator::Expo.text(), "^");
    assert_eq!(Operator::Mod.text(), "%");
    assert_eq!(Operator::Custom("rev".to_string()).text(), "rev");
    assert_eq!(Operator::RightShift.text(), ">>");
    assert_eq!(Operator::LeftShift.text(), "<<");
    assert_eq!(Operator::Negate.text(), "-");
    assert_eq!(Operator::Postive.text(), "+");
    assert_eq!(OperandType::Integer.text(), "Integer");
    assert_eq!(OperandType::Float.text(), "Float");
    assert_eq!(OperandType::String.text(), "String");
    assert_eq!(Operand::Integer(-42).text(&Native), "-42");
    assert_eq!(Operand::String("a b".to_string()).text(&Native), "a b");
    assert_eq!(Operand::Float(1.5f64.to_bits()).text(&Native), "1.5");
    assert_eq!(
        ExprToken::Operand(Operand::Integer(7)).text(&Native),
        "7"
    );
    assert_eq!(ExprToken::Operator(Operator::Mod).text(&Native), "%");
}

#[test]
fn a_line_of_tokens() {
    assert_eq!(tokens_line(&[], &Native), "");
    assert_eq!(
        tokens_line(
            &[
                ExprToken::Operand(Operand::Integer(1)),
                ExprToken::Operand(Operand::Float(2.5f64.to_bits())),
                ExprToken::Operator(Operator::Add),
                ExprToken::Operand(Operand::String("s".to_string())),
                ExprToken::Operator(Operator::BitXor(16)),
            ],
            &Native
        ),
        "1 2.5 + s 16^ "
    );
}
