//! Values as text: integers in a base from 2 to 36, and the other values of
//! the host expression language as a session shows them.
use vstd::prelude::*;
use vstd::string::StringExecFns;
use crate::expr::operand::{Operand, OperandType, OperandView};
use crate::expr::operator::{Operator, OperatorView};
use crate::expr::{tokens, ExprToken, ExprTokenView};
use crate::text::{chars_of, string_of};
use crate::value::{lemma_tuple_view, views, Value, ValueView};

verus! {

/// The character of a digit: `0` to `9`, then `A` to `Z`.
pub open spec fn digit_char(d: nat) -> char {
    if d < 10 {
        (0x30 + d) as u8 as char
    } else {
        (0x41 + d - 10) as u8 as char
    }
}

/// The digits of a number in a base, the most significant first; none for
/// zero.
pub open spec fn digits(n: nat, base: nat) -> Seq<char>
    decreases n,
    via digits_decreases
{
    if n == 0 || base < 2 {
        Seq::empty()
    } else {
        digits(n / base, base).push(digit_char(n % base))
    }
}

#[via_fn]
proof fn digits_decreases(n: nat, base: nat) {
    if n != 0 && base >= 2 {
        assert(n / base < n) by (nonlinear_arith)
            requires
                n > 0,
                base >= 2,
        ;
    }
}

/// An integer as text in a base: `0` for zero, and for another number its
/// digits, behind a minus sign if it is negative.
pub open spec fn radix_text(value: int, base: nat) -> Seq<char> {
    if value == 0 {
        seq!['0']
    } else if value < 0 {
        seq!['-'] + digits((-value) as nat, base)
    } else {
        digits(value as nat, base)
    }
}

/// The message for a base that is not from 2 to 36.
pub open spec fn invalid_base(base: u32) -> Seq<char> {
    "Invalid base: "@ + radix_text(base as int, 10)
}

fn char_of_digit(d: u32) -> (c: char)
    requires
        d < 36,
    ensures
        c == digit_char(d as nat),
{
    if d < 10 {
        (0x30 + d) as u8 as char
    } else {
        (0x41 + d - 10) as u8 as char
    }
}

/// The digits of `n` in a base, the most significant first.
fn digits_of(n: u128, base: u32) -> (r: Vec<char>)
    requires
        2 <= base <= 36,
    ensures
        r@ == digits(n as nat, base as nat),
{
    let mut low_first: Vec<char> = Vec::new();
    let mut rest: u128 = n;
    while rest != 0
        invariant
            2 <= base <= 36,
            digits(n as nat, base as nat) == digits(rest as nat, base as nat)
                + low_first@.reverse(),
        decreases rest,
    {
        let d = (rest % (base as u128)) as u32;
        let c = char_of_digit(d);
        low_first.push(c);
        rest = rest / (base as u128);
    }
    let mut r: Vec<char> = Vec::new();
    let mut i: usize = low_first.len();
    while i > 0
        invariant
            i <= low_first@.len(),
            r@.len() == low_first@.len() - i,
            forall|k: int| 0 <= k < r@.len() ==> r@[k] == low_first@[low_first@.len() - 1 - k],
        decreases i,
    {
        i = i - 1;
        r.push(low_first[i]);
    }
    r
}

/// A number without a sign as text in a base: `0` for zero, and the digits
/// of another number.
pub open spec fn unsigned_text(n: nat, base: nat) -> Seq<char> {
    if n == 0 {
        seq!['0']
    } else {
        digits(n, base)
    }
}

/// Writes a number without a sign in a base from 2 to 36.
pub fn unsigned_to_string(n: u128, base: u32) -> (r: String)
    requires
        2 <= base <= 36,
    ensures
        r@ == unsigned_text(n as nat, base as nat),
{
    if n == 0 {
        let mut zero: Vec<char> = Vec::new();
        zero.push('0');
        string_of(&zero)
    } else {
        string_of(&digits_of(n, base))
    }
}

/// Writes an integer in a base from 2 to 36, with `A` to `Z` for the digits
/// from ten on; another base is refused.
pub fn convert_to_string(value: i128, base: u32) -> (r: Result<String, String>)
    ensures
        2 <= base <= 36 ==> r is Ok && r->Ok_0@ == radix_text(value as int, base as nat),
        !(2 <= base <= 36) ==> r is Err && r->Err_0@ == invalid_base(base),
{
    if base > 36 || base < 2 {
        let mut message = "Invalid base: ".to_owned();
        if base == 0 {
            message.append("0");
            proof {
                reveal_strlit("0");
            }
        } else {
            let number = string_of(&digits_of(base as u128, 10));
            message.append(number.as_str());
        }
        return Err(message);
    }
    if value == 0 {
        proof {
            reveal_strlit("0");
        }
        return Ok("0".to_owned());
    }
    let abs: u128 = if value < 0 {
        ((-(value + 1)) as u128) + 1
    } else {
        value as u128
    };
    let body = digits_of(abs, base);
    if value < 0 {
        let mut text: Vec<char> = Vec::new();
        text.push('-');
        let mut body = body;
        text.append(&mut body);
        Ok(string_of(&text))
    } else {
        Ok(string_of(&body))
    }
}

/// The texts of a floating-point number, supplied by the caller.
///
/// Nothing is assumed of an implementation.
pub trait FloatText {
    /// Whether the number has no fractional part.
    fn is_whole(&self, bits: u64) -> bool;

    /// The number as it is usually written.
    fn plain(&self, bits: u64) -> String;

    /// The number with one digit behind the point.
    fn one_decimal(&self, bits: u64) -> String;

    /// The number as a debugging aid writes it.
    fn debug(&self, bits: u64) -> String;
}

/// A string as the standard library's `Debug` writes it: in double quotes,
/// with what needs it escaped.
pub uninterp spec fn quoted_debug(text: Seq<char>) -> Seq<char>;

/// Formats a string with `{:?}`, which is `<str as Debug>::fmt` of the standard
/// library. The contract only names the result.
#[verifier::external_body]
fn debug_quote(text: &str) -> (r: String)
    ensures
        r@ == quoted_debug(text@),
{
    format!("{:?}", text)
}

/// A value as a debugging aid writes it: the name of its kind, and what it
/// holds in parentheses. `None` where the value holds a floating-point number.
pub open spec fn debug_of(v: ValueView) -> Option<Seq<char>>
    decreases v,
{
    match v {
        ValueView::String(s) => Some("String("@ + quoted_debug(s) + ")"@),
        ValueView::Float(_) => None,
        ValueView::Int(i) => Some("Int("@ + radix_text(i as int, 10) + ")"@),
        ValueView::Boolean(b) => Some(
            if b {
                "Boolean(true)"@
            } else {
                "Boolean(false)"@
            },
        ),
        ValueView::Tuple(items) => match debug_items(items) {
            Some(inside) => Some("Tuple(["@ + inside + "])"@),
            None => None,
        },
        ValueView::Empty => Some("Empty"@),
    }
}

/// The items of a list as a debugging aid writes them, with a comma and a
/// blank between two of them.
pub open spec fn debug_items(items: Seq<ValueView>) -> Option<Seq<char>>
    decreases items,
{
    if items.len() == 0 {
        Some(Seq::empty())
    } else {
        match (debug_items(items.drop_last()), debug_of(items.last())) {
            (Some(front), Some(last)) => Some(
                if items.len() == 1 {
                    last
                } else {
                    front + ", "@ + last
                },
            ),
            _ => None,
        }
    }
}

/// A value as a session shows it: a string in double quotes, an integer in
/// the base of the session, a truth value by its name, a tuple as a
/// debugging aid writes the list of its items, and the empty value not at
/// all. `None` where the text is that of a floating-point number.
pub open spec fn shown(v: ValueView, base: u32) -> Option<Result<Option<Seq<char>>, Seq<char>>> {
    match v {
        ValueView::String(s) => Some(Ok(Some("\""@ + s + "\""@))),
        ValueView::Int(i) => Some(
            if 2 <= base <= 36 {
                Ok(Some(radix_text(i as int, base as nat)))
            } else {
                Err(invalid_base(base))
            },
        ),
        ValueView::Boolean(b) => Some(
            Ok(
                Some(
                    if b {
                        "true"@
                    } else {
                        "false"@
                    },
                ),
            ),
        ),
        ValueView::Float(_) => None,
        ValueView::Tuple(items) => match debug_items(items) {
            Some(inside) => Some(Ok(Some("["@ + inside + "]"@))),
            None => None,
        },
        ValueView::Empty => Some(Ok(None)),
    }
}

/// Appends a text to a list of characters.
fn write_text(out: &mut Vec<char>, text: &str)
    ensures
        final(out)@ == old(out)@ + text@,
{
    let mut chars = chars_of(text);
    out.append(&mut chars);
}

/// Appends to `out` what a debugging aid writes for a value.
fn write_debug<T: FloatText>(out: &mut Vec<char>, val: &Value, unit: &T)
    ensures
        debug_of(val@) matches Some(text) ==> final(out)@ == old(out)@ + text,
    decreases val, 1nat,
{
    match val {
        Value::String(s) => {
            write_text(out, "String(");
            let quoted = debug_quote(s.as_str());
            write_text(out, quoted.as_str());
            write_text(out, ")");
        },
        Value::Float(f) => {
            write_text(out, "Float(");
            let number = unit.debug(*f);
            write_text(out, number.as_str());
            write_text(out, ")");
        },
        Value::Int(i) => {
            write_text(out, "Int(");
            match convert_to_string(*i, 10) {
                Ok(number) => {
                    write_text(out, number.as_str());
                },
                Err(_) => {},
            }
            write_text(out, ")");
        },
        Value::Boolean(b) => {
            if *b {
                write_text(out, "Boolean(true)");
            } else {
                write_text(out, "Boolean(false)");
            }
        },
        Value::Tuple(items) => {
            proof {
                lemma_tuple_view(*val);
            }
            write_text(out, "Tuple([");
            write_items(out, items, unit, Ghost(*val));
            write_text(out, "])");
        },
        Value::Empty => {
            write_text(out, "Empty");
        },
    }
}

/// Appends to `out` what a debugging aid writes for the items of a tuple.
/// `whole` is the tuple that holds them.
fn write_items<T: FloatText>(
    out: &mut Vec<char>,
    items: &Vec<Value>,
    unit: &T,
    Ghost(whole): Ghost<Value>,
)
    requires
        whole is Tuple,
        whole->Tuple_0 == *items,
    ensures
        debug_items(views(items@)) matches Some(text) ==> final(out)@ == old(out)@ + text,
    decreases whole, 0nat,
{
    let mut i: usize = 0;
    while i < items.len()
        invariant
            i <= items@.len(),
            whole is Tuple,
            whole->Tuple_0 == *items,
            debug_items(views(items@).take(i as int)) matches Some(text) ==> out@ == old(out)@
                + text,
        decreases items@.len() - i,
    {
        let ghost upto = views(items@).take(i + 1);
        assert(upto.drop_last() =~= views(items@).take(i as int));
        if i > 0 {
            write_text(out, ", ");
        }
        assert(decreases_to!(whole => items@[i as int]));
        write_debug(out, &items[i], unit);
        i = i + 1;
    }
    assert(views(items@).take(i as int) =~= views(items@));
}

/// The text that a session shows for a value, if it shows any. An integer
/// is written in the given base, and the text of a floating-point number is
/// asked of `unit`: with one digit behind the point if the number is whole.
pub fn val_to_string<T: FloatText>(val: &Value, base: u32, unit: &T) -> (r: Result<
    Option<String>,
    String,
>)
    ensures
        match shown(val@, base) {
            Some(Ok(Some(text))) => r is Ok && r->Ok_0 is Some && r->Ok_0->0@ == text,
            Some(Ok(None)) => r is Ok && r->Ok_0 is None,
            Some(Err(message)) => r is Err && r->Err_0@ == message,
            None => r is Ok && r->Ok_0 is Some,
        },
{
    match val {
        Value::String(s) => {
            let mut text: Vec<char> = Vec::new();
            write_text(&mut text, "\"");
            write_text(&mut text, s.as_str());
            write_text(&mut text, "\"");
            Ok(Some(string_of(&text)))
        },
        Value::Int(i) => {
            match convert_to_string(*i, base) {
                Ok(text) => Ok(Some(text)),
                Err(message) => Err(message),
            }
        },
        Value::Boolean(b) => {
            if *b {
                Ok(Some("true".to_owned()))
            } else {
                Ok(Some("false".to_owned()))
            }
        },
        Value::Float(f) => {
            if unit.is_whole(*f) {
                Ok(Some(unit.one_decimal(*f)))
            } else {
                Ok(Some(unit.plain(*f)))
            }
        },
        Value::Tuple(items) => {
            proof {
                lemma_tuple_view(*val);
            }
            let mut text: Vec<char> = Vec::new();
            write_text(&mut text, "[");
            write_items(&mut text, items, unit, Ghost(*val));
            write_text(&mut text, "]");
            Ok(Some(string_of(&text)))
        },
        Value::Empty => Ok(None),
    }
}

/// The digits of a text in sections of `size` characters, counted from the
/// end, with `separator` between two sections.
pub open spec fn grouped(text: Seq<char>, size: nat, separator: char) -> Seq<char>
    decreases text.len(),
{
    if size == 0 || text.len() <= size {
        text
    } else {
        grouped(text.take(text.len() - size), size, separator).push(separator) + text.skip(
            text.len() - size,
        )
    }
}

/// What is left of a whole number of sections holds a section, and without
/// it a whole number of sections again.
proof fn lemma_sections(rest: int, size: int)
    requires
        size > 0,
        rest > 0,
        rest % size == 0,
    ensures
        rest >= size,
        (rest - size) % size == 0,
{
    vstd::arithmetic::div_mod::lemma_mod_is_zero(rest as nat, size as nat);
    vstd::arithmetic::div_mod::lemma_mod_sub_multiples_vanish(rest, size);
}

/// Splits a text into sections of `size` characters, counted from the end,
/// and puts `separator` between two sections.
pub fn group_digits(text: &str, size: usize, separator: char) -> (r: String)
    requires
        size > 0,
    ensures
        r@ == grouped(text@, size as nat, separator),
{
    let chars = chars_of(text);
    let len = chars.len();
    let mut out: Vec<char> = Vec::new();
    let first = if len % size == 0 && len > 0 {
        size
    } else {
        len % size
    };
    proof {
        let l = len as int;
        let z = size as int;
        vstd::arithmetic::div_mod::lemma_mod_decreases(len as nat, size as nat);
        vstd::arithmetic::div_mod::lemma_fundamental_div_mod(l, z);
        vstd::arithmetic::div_mod::lemma_mod_multiples_basic(l / z, z);
        assert((l / z) * z == z * (l / z)) by (nonlinear_arith);
        if l % z == 0 && l > 0 {
            lemma_sections(l, z);
        }
    }
    let mut i: usize = 0;
    while i < first
        invariant
            i <= first <= len,
            len == chars@.len(),
            out@ == chars@.take(i as int),
        decreases first - i,
    {
        out.push(chars[i]);
        i = i + 1;
    }
    while i < len
        invariant
            first <= i <= len,
            len == chars@.len(),
            size > 0,
            (len - i) % (size as int) == 0,
            i > 0 || len == 0,
            out@ == grouped(chars@.take(i as int), size as nat, separator),
        decreases len - i,
    {
        proof {
            lemma_sections(len - i, size as int);
        }
        let ghost before = out@;
        let ghost next = chars@.take(i + size);
        out.push(separator);
        let mut k: usize = 0;
        while k < size
            invariant
                k <= size,
                i + size <= len,
                len == chars@.len(),
                out@ == before.push(separator) + chars@.subrange(i as int, i + k),
            decreases size - k,
        {
            out.push(chars[i + k]);
            k = k + 1;
        }
        proof {
            assert(next.take(next.len() - size) =~= chars@.take(i as int));
        }
        i = i + size;
    }
    assert(chars@.take(i as int) =~= chars@);
    string_of(&out)
}

/// The name of a tag.
pub open spec fn tag_text(t: OperandType) -> Seq<char> {
    match t {
        OperandType::Integer => "Integer"@,
        OperandType::Float => "Float"@,
        OperandType::String => "String"@,
    }
}

impl OperandType {
    /// The name of the tag.
    pub fn text(&self) -> (r: String)
        ensures
            r@ == tag_text(*self),
    {
        match self {
            OperandType::Integer => "Integer".to_owned(),
            OperandType::Float => "Float".to_owned(),
            OperandType::String => "String".to_owned(),
        }
    }
}

/// An operator as it is written; a width stands in front of the sign of
/// the exclusive or and of the complement.
pub open spec fn operator_text(op: OperatorView) -> Seq<char> {
    match op {
        OperatorView::Add => "+"@,
        OperatorView::Minus => "-"@,
        OperatorView::Mul => "*"@,
        OperatorView::Div => "/"@,
        OperatorView::OpenParenthesis => "("@,
        OperatorView::CloseParenthesis => ")"@,
        OperatorView::BitOr => "|"@,
        OperatorView::BitAnd => "&"@,
        OperatorView::BitXor(width) => unsigned_text(width as nat, 10) + "^"@,
        OperatorView::BitNot(width) => unsigned_text(width as nat, 10) + "!"@,
        OperatorView::Expo => "^"@,
        OperatorView::Mod => "%"@,
        OperatorView::Custom(name) => name,
        OperatorView::RightShift => ">>"@,
        OperatorView::LeftShift => "<<"@,
        OperatorView::Negate => "-"@,
        OperatorView::Postive => "+"@,
    }
}

/// A width in decimal with a sign behind it.
fn width_text(width: usize, sign: &str) -> (r: String)
    ensures
        r@ == unsigned_text(width as nat, 10) + sign@,
{
    let mut text = unsigned_to_string(width as u128, 10);
    text.append(sign);
    text
}

impl Operator {
    /// The operator as it is written.
    pub fn text(&self) -> (r: String)
        ensures
            r@ == operator_text(self@),
    {
        match self {
            Operator::Add => "+".to_owned(),
            Operator::Minus => "-".to_owned(),
            Operator::Mul => "*".to_owned(),
            Operator::Div => "/".to_owned(),
            Operator::OpenParenthesis => "(".to_owned(),
            Operator::CloseParenthesis => ")".to_owned(),
            Operator::BitOr => "|".to_owned(),
            Operator::BitAnd => "&".to_owned(),
            Operator::BitXor(width) => width_text(*width, "^"),
            Operator::BitNot(width) => width_text(*width, "!"),
            Operator::Expo => "^".to_owned(),
            Operator::Mod => "%".to_owned(),
            Operator::Custom(id) => id.clone(),
            Operator::RightShift => ">>".to_owned(),
            Operator::LeftShift => "<<".to_owned(),
            Operator::Negate => "-".to_owned(),
            Operator::Postive => "+".to_owned(),
        }
    }
}

/// An operand as it is written, where it is no floating-point number.
pub open spec fn operand_text(o: OperandView) -> Option<Seq<char>> {
    match o {
        OperandView::Integer(i) => Some(radix_text(i as int, 10)),
        OperandView::String(s) => Some(s),
        OperandView::Float(_) => None,
    }
}

impl Operand {
    /// The operand as it is written: an integer in decimal, a string as it
    /// stands, and a floating-point number as `unit` writes it.
    pub fn text<T: FloatText>(&self, unit: &T) -> (r: String)
        ensures
            operand_text(self@) matches Some(text) ==> r@ == text,
    {
        match self {
            Operand::Float(f) => unit.plain(*f),
            Operand::Integer(i) => match convert_to_string(*i, 10) {
                Ok(text) => text,
                Err(message) => message,
            },
            Operand::String(s) => s.clone(),
        }
    }
}

/// A token as it is written, where it is no floating-point number.
pub open spec fn token_text(t: ExprTokenView) -> Option<Seq<char>> {
    match t {
        ExprTokenView::Operand(o) => operand_text(o),
        ExprTokenView::Operator(op) => Some(operator_text(op)),
    }
}

impl ExprToken {
    /// The token as it is written.
    pub fn text<T: FloatText>(&self, unit: &T) -> (r: String)
        ensures
            token_text(self@) matches Some(text) ==> r@ == text,
    {
        match self {
            ExprToken::Operand(o) => o.text(unit),
            ExprToken::Operator(op) => op.text(),
        }
    }
}

/// The tokens as they are written, each with a blank behind it. `None` where
/// one of them is a floating-point number.
pub open spec fn line_of(list: Seq<ExprTokenView>) -> Option<Seq<char>>
    decreases list.len(),
{
    if list.len() == 0 {
        Some(Seq::empty())
    } else {
        match (line_of(list.drop_last()), token_text(list.last())) {
            (Some(front), Some(last)) => Some(front + last + seq![' ']),
            _ => None,
        }
    }
}

/// The line that shows a sequence of tokens: each token with a blank behind
/// it.
pub fn tokens_line<T: FloatText>(list: &[ExprToken], unit: &T) -> (r: String)
    ensures
        line_of(tokens(list@)) matches Some(text) ==> r@ == text,
{
    let mut out: Vec<char> = Vec::new();
    let mut i: usize = 0;
    while i < list.len()
        invariant
            i <= list@.len(),
            line_of(tokens(list@).take(i as int)) matches Some(text) ==> out@ == text,
        decreases list@.len() - i,
    {
        let ghost upto = tokens(list@).take(i + 1);
        assert(upto.drop_last() =~= tokens(list@).take(i as int));
        let shown = list[i].text(unit);
        write_text(&mut out, shown.as_str());
        out.push(' ');
        i = i + 1;
    }
    assert(tokens(list@).take(i as int) =~= tokens(list@));
    string_of(&out)
}

} // verus!
