use rcal::float::FloatUnit;
use rcal::lex::{tokenize, Error, LexToken};

struct Native;

impl FloatUnit for Native {
    fn parse(&self, text: &str) -> Option<u64> {
        text.parse::<f64>().ok().map(f64::to_bits)
    }

    fn from_int(&self, value: i128) -> u64 {
        (value as f64).to_bits()
    }

    fn floor(&self, bits: u64) -> i128 {
        f64::from_bits(bits).floor() as i128
    }

    fn sum(&self, a: u64, b: u64) -> u64 {
        (f64::from_bits(a) + f64::from_bits(b)).to_bits()
    }

    fn difference(&self, a: u64, b: u64) -> u64 {
        (f64::from_bits(a) - f64::from_bits(b)).to_bits()
    }

    fn product(&self, a: u64, b: u64) -> u64 {
        (f64::from_bits(a) * f64::from_bits(b)).to_bits()
    }

    fn quotient(&self, a: u64, b: u64) -> u64 {
        (f64::from_bits(a) / f64::from_bits(b)).to_bits()
    }

    fn power(&self, a: u64, b: u64) -> u64 {
        f64::from_bits(a).powf(f64::from_bits(b)).to_bits()
    }
}

fn lex(text: &str) -> Vec<LexToken> {
    tokenize(text, &Native).unwrap()
}

fn number(value: f64) -> LexToken {
    LexToken::Float(value.to_bits())
}

#[test]
fn symbols_are_single_tokens() {
    assert_eq!(
        lex("+ - * / ( ) | & % , ^^ << >>"),
        vec![
            LexToken::Plus,
            LexToken::Minus,
            LexToken::Mul,
            LexToken::Div,
            LexToken::OpenParenthesis,
            LexToken::CloseParenthesis,
            LexToken::BitOr,
            LexToken::BitAnd,
            LexToken::Mod,
            LexToken::Comma,
            LexToken::Expo,
            LexToken::LeftShift,
            LexToken::RightShift,
        ]
    );
}

#[test]
fn white_space_separates_tokens() {
    assert_eq!(lex(""), vec![]);
    assert_eq!(lex(" \t\n\x0C\r"), vec![]);
    assert_eq!(
        lex("\t1\n+\r2 "),
        vec![LexToken::Integer(1), LexToken::Plus, LexToken::Integer(2)]
    );
    assert_eq!(
        lex("1+2"),
        vec![LexToken::Integer(1), LexToken::Plus, LexToken::Integer(2)]
    );
}

#[test]
fn decimal_integers_take_a_unit_letter() {
    assert_eq!(lex("0"), vec![LexToken::Integer(0)]);
    assert_eq!(lex("007"), vec![LexToken::Integer(7)]);
    assert_eq!(lex("1k"), vec![LexToken::Integer(1024)]);
    assert_eq!(lex("1K"), vec![LexToken::Integer(1024)]);
    assert_eq!(lex("2m"), vec![LexToken::Integer(2 * 1024 * 1024)]);
    assert_eq!(lex("2M"), vec![LexToken::Integer(2 * 1024 * 1024)]);
    assert_eq!(lex("3g"), vec![LexToken::Integer(3 * 1024 * 1024 * 1024)]);
    assert_eq!(lex("3G"), vec![LexToken::Integer(3 * 1024 * 1024 * 1024)]);
    assert_eq!(lex("4t"), vec![LexToken::Integer(4 * 1024i128.pow(4))]);
    assert_eq!(lex("4T"), vec![LexToken::Integer(4 * 1024i128.pow(4))]);
    assert_eq!(lex("5p"), vec![LexToken::Integer(5 * 1024i128.pow(5))]);
    assert_eq!(lex("5P"), vec![LexToken::Integer(5 * 1024i128.pow(5))]);
    assert_eq!(
        lex("170141183460469231731687303715884105727"),
        vec![LexToken::Integer(i128::MAX)]
    );
    assert_eq!(
        lex("1kb"),
        vec![LexToken::Integer(1024), LexToken::Custom("b".to_string())]
    );
}

#[test]
fn prefixed_integers_are_read_in_their_base() {
    assert_eq!(lex("0x1F"), vec![LexToken::Integer(31)]);
    assert_eq!(lex("0xff"), vec![LexToken::Integer(255)]);
    assert_eq!(lex("0xaBcDeF"), vec![LexToken::Integer(0xABCDEF)]);
    assert_eq!(lex("0o17"), vec![LexToken::Integer(15)]);
    assert_eq!(lex("0b101"), vec![LexToken::Integer(5)]);
    assert_eq!(
        lex("0b12"),
        vec![LexToken::Integer(1), LexToken::Integer(2)]
    );
    assert_eq!(
        lex("0o78"),
        vec![LexToken::Integer(7), LexToken::Integer(8)]
    );
    assert_eq!(
        lex("0x"),
        vec![LexToken::Integer(0), LexToken::Custom("x".to_string())]
    );
    assert_eq!(
        lex("0xg"),
        vec![LexToken::Integer(0), LexToken::Custom("xg".to_string())]
    );
    assert_eq!(
        lex("0x7FFFFFFFFFFFFFFFFFFFFFFFFFFFFFFF"),
        vec![LexToken::Integer(i128::MAX)]
    );
}

#[test]
fn floating_point_literals() {
    assert_eq!(lex("1.5"), vec![number(1.5)]);
    assert_eq!(lex("0.5"), vec![number(0.5)]);
    assert_eq!(lex(".5"), vec![number(0.5)]);
    assert_eq!(lex("3.0"), vec![number(3.0)]);
    assert_eq!(lex("5e3"), vec![number(5000.0)]);
    assert_eq!(lex("5E3"), vec![number(5000.0)]);
    assert_eq!(lex("1.5e-3"), vec![number(0.0015)]);
    assert_eq!(lex("1.5e+3"), vec![number(1500.0)]);
    assert_eq!(lex("007.5"), vec![number(7.5)]);
    assert_eq!(
        lex("1.5.5"),
        vec![number(1.5), number(0.5)]
    );
}

#[test]
fn the_integer_wins_where_both_are_equally_long() {
    assert_eq!(lex("5"), vec![LexToken::Integer(5)]);
    assert_eq!(lex("12"), vec![LexToken::Integer(12)]);
    assert_eq!(
        lex("5e"),
        vec![LexToken::Integer(5), LexToken::Custom("e".to_string())]
    );
    assert_eq!(
        lex("5e+"),
        vec![
            LexToken::Integer(5),
            LexToken::Custom("e".to_string()),
            LexToken::Plus
        ]
    );
    assert_eq!(
        lex("1e5k"),
        vec![number(100000.0), LexToken::Custom("k".to_string())]
    );
}

#[test]
fn strings_reach_to_the_next_quote() {
    assert_eq!(lex("'abc'"), vec![LexToken::String("abc".to_string())]);
    assert_eq!(lex("\"abc\""), vec![LexToken::String("abc".to_string())]);
    assert_eq!(lex("''"), vec![LexToken::String(String::new())]);
    assert_eq!(lex("'a\"b'"), vec![LexToken::String("a\"b".to_string())]);
    assert_eq!(lex("\"a'b\""), vec![LexToken::String("a'b".to_string())]);
    assert_eq!(
        lex("'a\\' 1"),
        vec![LexToken::String("a\\".to_string()), LexToken::Integer(1)]
    );
    assert_eq!(
        lex("'a b'+'c'"),
        vec![
            LexToken::String("a b".to_string()),
            LexToken::Plus,
            LexToken::String("c".to_string())
        ]
    );
}

#[test]
fn identifiers_name_functions() {
    assert_eq!(lex("rev"), vec![LexToken::Custom("rev".to_string())]);
    assert_eq!(lex("a_1"), vec![LexToken::Custom("a_1".to_string())]);
    assert_eq!(
        lex("f(1)"),
        vec![
            LexToken::Custom("f".to_string()),
            LexToken::OpenParenthesis,
            LexToken::Integer(1),
            LexToken::CloseParenthesis
        ]
    );
}

#[test]
fn width_hints_stand_in_front_of_the_sign() {
    assert_eq!(lex("^"), vec![LexToken::BitXor(32)]);
    assert_eq!(lex("b^"), vec![LexToken::BitXor(8)]);
    assert_eq!(lex("w^"), vec![LexToken::BitXor(16)]);
    assert_eq!(lex("dw^"), vec![LexToken::BitXor(32)]);
    assert_eq!(lex("l^"), vec![LexToken::BitXor(64)]);
    assert_eq!(lex("ll^"), vec![LexToken::BitXor(128)]);
    assert_eq!(lex("!"), vec![LexToken::BitNot(32)]);
    assert_eq!(lex("~"), vec![LexToken::BitNot(32)]);
    assert_eq!(lex("b!"), vec![LexToken::BitNot(8)]);
    assert_eq!(lex("w~"), vec![LexToken::BitNot(16)]);
    assert_eq!(lex("dw!"), vec![LexToken::BitNot(32)]);
    assert_eq!(lex("l~"), vec![LexToken::BitNot(64)]);
    assert_eq!(lex("ll!"), vec![LexToken::BitNot(128)]);
    assert_eq!(
        lex("b^^"),
        vec![LexToken::BitXor(8), LexToken::BitXor(32)]
    );
    assert_eq!(
        lex("b ^"),
        vec![LexToken::Custom("b".to_string()), LexToken::BitXor(32)]
    );
    assert_eq!(
        lex("2^^3"),
        vec![LexToken::Integer(2), LexToken::Expo, LexToken::Integer(3)]
    );
}

#[test]
fn each_lexing_error() {
    assert_eq!(tokenize("#", &Native), Err(Error::Invalid));
    assert_eq!(tokenize("1 $", &Native), Err(Error::Invalid));
    assert_eq!(tokenize("<", &Native), Err(Error::Invalid));
    assert_eq!(tokenize(">", &Native), Err(Error::Invalid));
    assert_eq!(tokenize("1 < 2", &Native), Err(Error::Invalid));
    assert_eq!(tokenize(".", &Native), Err(Error::Invalid));
    assert_eq!(tokenize("1.", &Native), Err(Error::Invalid));
    assert_eq!(tokenize("'abc", &Native), Err(Error::Invalid));
    assert_eq!(tokenize("\"abc'", &Native), Err(Error::Invalid));
    assert_eq!(tokenize("é", &Native), Err(Error::Invalid));
    assert_eq!(
        tokenize("x^", &Native),
        Err(Error::InvalidBitWidthHint("x".to_string()))
    );
    assert_eq!(
        tokenize("bb!", &Native),
        Err(Error::InvalidBitWidthHint("bb".to_string()))
    );
    assert_eq!(
        tokenize("lll~1", &Native),
        Err(Error::InvalidBitWidthHint("lll".to_string()))
    );
    assert_eq!(
        tokenize("B^", &Native),
        Err(Error::InvalidBitWidthHint("B".to_string()))
    );
    assert_eq!(
        tokenize("170141183460469231731687303715884105728", &Native),
        Err(Error::ParseIntError(
            "170141183460469231731687303715884105728".to_string()
        ))
    );
    assert_eq!(
        tokenize("0x80000000000000000000000000000000", &Native),
        Err(Error::ParseIntError(
            "0x80000000000000000000000000000000".to_string()
        ))
    );
    assert_eq!(
        tokenize("166153499473114484112975882535043072p", &Native),
        Err(Error::ParseIntError(
            "166153499473114484112975882535043072p".to_string()
        ))
    );
    assert_eq!(
        tokenize("1e.5", &Native),
        Err(Error::ParseFloatError("1e.5".to_string()))
    );
    assert_eq!(
        tokenize("1e1.5", &Native),
        Err(Error::ParseFloatError("1e1.5".to_string()))
    );
}

#[test]
fn the_first_error_is_returned() {
    assert_eq!(
        tokenize("1e.5 #", &Native),
        Err(Error::ParseFloatError("1e.5".to_string()))
    );
    assert_eq!(tokenize("# 1e.5", &Native), Err(Error::Invalid));
}

#[test]
fn coarse_ranks_of_tokens() {
    assert_eq!(LexToken::Expo.precedence(), Some(0));
    assert_eq!(LexToken::BitNot(8).precedence(), Some(0));
    assert_eq!(LexToken::Mul.precedence(), Some(1));
    assert_eq!(LexToken::Mod.precedence(), Some(1));
    assert_eq!(LexToken::Div.precedence(), Some(1));
    assert_eq!(LexToken::BitAnd.precedence(), Some(1));
    assert_eq!(LexToken::BitXor(8).precedence(), Some(1));
    assert_eq!(LexToken::LeftShift.precedence(), Some(1));
    assert_eq!(LexToken::RightShift.precedence(), Some(1));
    assert_eq!(LexToken::Plus.precedence(), Some(2));
    assert_eq!(LexToken::Minus.precedence(), Some(2));
    assert_eq!(LexToken::BitOr.precedence(), Some(2));
    assert_eq!(LexToken::Integer(1).precedence(), None);
    assert_eq!(LexToken::Comma.precedence(), None);
    assert_eq!(LexToken::OpenParenthesis.precedence(), None);
}
