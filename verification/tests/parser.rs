use rcal::expr::operand::Operand;
use rcal::expr::operator::Operator;
use rcal::expr::parse::{parse_expr, parse_para, LexTokenIter};
use rcal::expr::{to_suffix, ExprToken};
use rcal::lex::LexToken;
use rcal::Error;

fn shown(tokens: &[ExprToken]) -> Vec<String> {
    tokens
        .iter()
        .map(|t| match t {
            ExprToken::Operand(Operand::Integer(i)) => format!("{i}"),
            ExprToken::Operand(Operand::Float(f)) => format!("f{f}"),
            ExprToken::Operand(Operand::String(s)) => format!("'{s}'"),
            ExprToken::Operator(Operator::Negate) => "neg".to_string(),
            ExprToken::Operator(Operator::Postive) => "pos".to_string(),
            ExprToken::Operator(Operator::Custom(name)) => format!("@{name}"),
            ExprToken::Operator(op) => format!("{op:?}"),
        })
        .collect()
}

fn parse(tokens: &[LexToken]) -> Result<Vec<String>, Error> {
    parse_expr(&mut LexTokenIter::new(tokens)).map(|list| shown(&list))
}

fn n(i: i128) -> LexToken {
    LexToken::Integer(i)
}

fn name(s: &str) -> LexToken {
    LexToken::Custom(s.to_string())
}

fn operand(i: i128) -> ExprToken {
    ExprToken::Operand(Operand::Integer(i))
}

fn op(o: Operator) -> ExprToken {
    ExprToken::Operator(o)
}

fn suffix(tokens: &[ExprToken]) -> Vec<String> {
    shown(&to_suffix(tokens))
}

#[test]
fn operands_and_operators_alternate() {
    assert_eq!(parse(&[n(1)]), Ok(vec!["1".to_string()]));
    assert_eq!(
        parse(&[n(1), LexToken::Plus, n(2), LexToken::Mul, n(3)]),
        Ok(vec!["1", "Add", "2", "Mul", "3"].into_iter().map(String::from).collect())
    );
    assert_eq!(
        parse(&[
            n(1),
            LexToken::Minus,
            n(2),
            LexToken::Div,
            n(3),
            LexToken::Mod,
            n(4),
            LexToken::Expo,
            n(5),
            LexToken::BitOr,
            n(6),
            LexToken::BitAnd,
            n(7),
            LexToken::BitXor(8),
            n(8),
            LexToken::LeftShift,
            n(9),
            LexToken::RightShift,
            n(10)
        ]),
        Ok(vec![
            "1", "Minus", "2", "Div", "3", "Mod", "4", "Expo", "5", "BitOr", "6", "BitAnd", "7",
            "BitXor(8)", "8", "LeftShift", "9", "RightShift", "10"
        ]
        .into_iter()
        .map(String::from)
        .collect())
    );
}

#[test]
fn literals_become_operands() {
    assert_eq!(
        parse(&[LexToken::Float(4611686018427387904)]),
        Ok(vec!["f4611686018427387904".to_string()])
    );
    assert_eq!(
        parse(&[LexToken::String("a".to_string())]),
        Ok(vec!["'a'".to_string()])
    );
}

#[test]
fn signs_stand_in_front_of_an_operand() {
    assert_eq!(
        parse(&[LexToken::Minus, LexToken::Minus, n(5)]),
        Ok(vec!["neg", "neg", "5"].into_iter().map(String::from).collect())
    );
    assert_eq!(
        parse(&[LexToken::Plus, LexToken::BitNot(8), n(5)]),
        Ok(vec!["pos", "BitNot(8)", "5"].into_iter().map(String::from).collect())
    );
    assert_eq!(
        parse(&[n(2), LexToken::Minus, LexToken::Minus, n(1)]),
        Ok(vec!["2", "Minus", "neg", "1"].into_iter().map(String::from).collect())
    );
}

#[test]
fn parentheses_are_made_explicit() {
    assert_eq!(
        parse(&[
            LexToken::OpenParenthesis,
            n(1),
            LexToken::Plus,
            n(2),
            LexToken::CloseParenthesis,
            LexToken::Mul,
            n(3)
        ]),
        Ok(vec!["OpenParenthesis", "1", "Add", "2", "CloseParenthesis", "Mul", "3"]
            .into_iter()
            .map(String::from)
            .collect())
    );
    assert_eq!(
        parse(&[LexToken::OpenParenthesis, n(1)]),
        Ok(vec!["OpenParenthesis", "1", "CloseParenthesis"]
            .into_iter()
            .map(String::from)
            .collect())
    );
}

#[test]
fn a_closing_parenthesis_ends_the_parse() {
    let tokens = [n(1), LexToken::CloseParenthesis, LexToken::Plus, n(5)];
    let mut cursor = LexTokenIter::new(&tokens);
    assert_eq!(parse_expr(&mut cursor).map(|l| shown(&l)), Ok(vec!["1".to_string()]));
    assert_eq!(cursor.next(), Some(LexToken::Plus));
    assert_eq!(cursor.next(), Some(n(5)));
    assert_eq!(cursor.next(), None);
    assert_eq!(cursor.next(), None);
}

#[test]
fn arguments_follow_the_name_of_a_function() {
    assert_eq!(
        parse(&[
            name("f"),
            LexToken::OpenParenthesis,
            n(1),
            LexToken::Comma,
            n(2),
            LexToken::CloseParenthesis
        ]),
        Ok(vec!["@f", "1", "2"].into_iter().map(String::from).collect())
    );
    assert_eq!(
        parse(&[
            name("f"),
            LexToken::OpenParenthesis,
            LexToken::OpenParenthesis,
            n(1),
            LexToken::Plus,
            n(2),
            LexToken::CloseParenthesis,
            LexToken::Comma,
            n(4),
            LexToken::CloseParenthesis,
            LexToken::Plus,
            n(7)
        ]),
        Ok(vec!["@f", "OpenParenthesis", "1", "Add", "2", "CloseParenthesis", "4", "Add", "7"]
            .into_iter()
            .map(String::from)
            .collect())
    );
}

#[test]
fn a_comma_inside_a_nested_call_separates_nothing_outside() {
    assert_eq!(
        parse(&[
            name("f"),
            LexToken::OpenParenthesis,
            name("g"),
            LexToken::OpenParenthesis,
            n(1),
            LexToken::Comma,
            n(2),
            LexToken::CloseParenthesis,
            LexToken::Comma,
            n(3),
            LexToken::CloseParenthesis
        ]),
        Ok(vec!["@f", "@g", "1", "2", "3"].into_iter().map(String::from).collect())
    );
}

#[test]
fn parse_para_reads_one_argument_list() {
    let tokens = [
        LexToken::OpenParenthesis,
        n(1),
        LexToken::Comma,
        LexToken::Minus,
        n(2),
        LexToken::CloseParenthesis,
        LexToken::Plus,
    ];
    let mut cursor = LexTokenIter::new(&tokens);
    assert_eq!(
        parse_para(&mut cursor).map(|l| shown(&l)),
        Ok(vec!["1", "neg", "2"].into_iter().map(String::from).collect())
    );
    assert_eq!(cursor.next(), Some(LexToken::Plus));
}

#[test]
fn each_parsing_error() {
    assert_eq!(parse(&[]), Err(Error::UnexpectedEnd));
    assert_eq!(parse(&[n(1), LexToken::Plus]), Err(Error::UnexpectedEnd));
    assert_eq!(parse(&[LexToken::Minus]), Err(Error::UnexpectedEnd));
    assert_eq!(parse(&[LexToken::OpenParenthesis]), Err(Error::UnexpectedEnd));
    assert_eq!(parse(&[name("f")]), Err(Error::UnexpectedEnd));
    assert_eq!(
        parse(&[name("f"), LexToken::OpenParenthesis, n(1)]),
        Err(Error::UnexpectedEnd)
    );
    assert_eq!(
        parse(&[name("f"), LexToken::OpenParenthesis, LexToken::CloseParenthesis]),
        Err(Error::UnexpectedEnd)
    );
    assert_eq!(
        parse(&[
            name("f"),
            LexToken::OpenParenthesis,
            n(1),
            LexToken::Comma,
            LexToken::CloseParenthesis
        ]),
        Err(Error::UnexpectedEnd)
    );
    assert_eq!(
        parse(&[name("f"), n(1)]),
        Err(Error::ExpectToken(LexToken::OpenParenthesis, n(1)))
    );
    assert_eq!(
        parse(&[LexToken::Mul]),
        Err(Error::ExpectOperand(LexToken::Mul))
    );
    assert_eq!(
        parse(&[LexToken::CloseParenthesis]),
        Err(Error::ExpectOperand(LexToken::CloseParenthesis))
    );
    assert_eq!(
        parse(&[n(1), LexToken::Plus, LexToken::Comma]),
        Err(Error::ExpectOperand(LexToken::Comma))
    );
    assert_eq!(
        parse(&[n(1), n(2)]),
        Err(Error::ExpectOperator(n(2)))
    );
    assert_eq!(
        parse(&[n(1), LexToken::OpenParenthesis]),
        Err(Error::ExpectOperator(LexToken::OpenParenthesis))
    );
    assert_eq!(
        parse(&[n(1), LexToken::BitNot(8)]),
        Err(Error::ExpectOperator(LexToken::BitNot(8)))
    );
    assert_eq!(
        parse(&[n(1), name("f")]),
        Err(Error::ExpectOperator(name("f")))
    );
    assert_eq!(
        parse(&[n(1), LexToken::Comma]),
        Err(Error::ExpectOperator(LexToken::Comma))
    );
}

#[test]
fn from_token_takes_the_binary_operators() {
    assert_eq!(Operator::from_token(LexToken::Plus), Ok(Operator::Add));
    assert_eq!(Operator::from_token(LexToken::Minus), Ok(Operator::Minus));
    assert_eq!(Operator::from_token(LexToken::Mul), Ok(Operator::Mul));
    assert_eq!(Operator::from_token(LexToken::Div), Ok(Operator::Div));
    assert_eq!(Operator::from_token(LexToken::Mod), Ok(Operator::Mod));
    assert_eq!(Operator::from_token(LexToken::Expo), Ok(Operator::Expo));
    assert_eq!(Operator::from_token(LexToken::BitOr), Ok(Operator::BitOr));
    assert_eq!(Operator::from_token(LexToken::BitAnd), Ok(Operator::BitAnd));
    assert_eq!(Operator::from_token(LexToken::BitXor(16)), Ok(Operator::BitXor(16)));
    assert_eq!(Operator::from_token(LexToken::LeftShift), Ok(Operator::LeftShift));
    assert_eq!(Operator::from_token(LexToken::RightShift), Ok(Operator::RightShift));
    assert_eq!(
        Operator::from_token(LexToken::Comma),
        Err(Error::ExpectOperator(LexToken::Comma))
    );
}

#[test]
fn ranks_of_the_operators() {
    assert_eq!(Operator::Custom("f".to_string()).precedence(), 0);
    assert_eq!(Operator::BitNot(8).precedence(), 0);
    assert_eq!(Operator::Negate.precedence(), 0);
    assert_eq!(Operator::Postive.precedence(), 0);
    assert_eq!(Operator::Expo.precedence(), 2);
    assert_eq!(Operator::Mul.precedence(), 3);
    assert_eq!(Operator::Div.precedence(), 3);
    assert_eq!(Operator::Mod.precedence(), 3);
    assert_eq!(Operator::Add.precedence(), 4);
    assert_eq!(Operator::Minus.precedence(), 4);
    assert_eq!(Operator::LeftShift.precedence(), 5);
    assert_eq!(Operator::RightShift.precedence(), 5);
    assert_eq!(Operator::BitAnd.precedence(), 6);
    assert_eq!(Operator::BitXor(8).precedence(), 7);
    assert_eq!(Operator::BitOr.precedence(), 8);
    assert_eq!(Operator::OpenParenthesis.precedence(), 9);
    assert_eq!(Operator::CloseParenthesis.precedence(), 9);
}

#[test]
fn the_rewriter_puts_operators_behind_their_operands() {
    assert_eq!(suffix(&[]), Vec::<String>::new());
    assert_eq!(suffix(&[operand(1)]), vec!["1"]);
    assert_eq!(
        suffix(&[operand(1), op(Operator::Add), operand(2)]),
        vec!["1", "2", "Add"]
    );
    assert_eq!(
        suffix(&[
            operand(1),
            op(Operator::Add),
            operand(2),
            op(Operator::Mul),
            operand(3)
        ]),
        vec!["1", "2", "3", "Mul", "Add"]
    );
    assert_eq!(
        suffix(&[
            operand(1),
            op(Operator::Mul),
            operand(2),
            op(Operator::Add),
            operand(3)
        ]),
        vec!["1", "2", "Mul", "3", "Add"]
    );
    assert_eq!(
        suffix(&[
            operand(1),
            op(Operator::Minus),
            operand(2),
            op(Operator::Minus),
            operand(3)
        ]),
        vec!["1", "2", "Minus", "3", "Minus"]
    );
}

#[test]
fn the_rewriter_groups_as_parentheses_say() {
    assert_eq!(
        suffix(&[
            op(Operator::OpenParenthesis),
            operand(1),
            op(Operator::Add),
            operand(2),
            op(Operator::CloseParenthesis),
            op(Operator::Mul),
            operand(3)
        ]),
        vec!["1", "2", "Add", "3", "Mul"]
    );
    assert_eq!(
        suffix(&[
            operand(1),
            op(Operator::Mul),
            op(Operator::OpenParenthesis),
            operand(2),
            op(Operator::Add),
            operand(3),
            op(Operator::CloseParenthesis)
        ]),
        vec!["1", "2", "3", "Add", "Mul"]
    );
}

#[test]
fn the_rewriter_keeps_prefix_operators_tight() {
    assert_eq!(
        suffix(&[
            op(Operator::Negate),
            operand(2),
            op(Operator::Expo),
            operand(2)
        ]),
        vec!["2", "neg", "2", "Expo"]
    );
    assert_eq!(
        suffix(&[op(Operator::Negate), op(Operator::Negate), operand(5)]),
        vec!["5", "neg", "neg"]
    );
    assert_eq!(
        suffix(&[
            operand(1),
            op(Operator::Add),
            op(Operator::Custom("f".to_string())),
            op(Operator::OpenParenthesis),
            operand(2),
            op(Operator::CloseParenthesis),
            operand(3),
            op(Operator::Mul),
            operand(4)
        ]),
        vec!["1", "2", "3", "@f", "4", "Mul", "Add"]
    );
}

#[test]
fn the_rewriter_unwinds_what_is_left() {
    assert_eq!(
        suffix(&[op(Operator::OpenParenthesis), operand(1), op(Operator::Add)]),
        vec!["1", "Add", "OpenParenthesis"]
    );
    assert_eq!(
        suffix(&[operand(1), op(Operator::CloseParenthesis), operand(2)]),
        vec!["1", "2"]
    );
}
