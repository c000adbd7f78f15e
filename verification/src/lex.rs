//! The tokens of the calculator's input language and the function that splits
//! a text into them.
use vstd::prelude::*;
use crate::float::FloatUnit;
use crate::scan::{
    announced_base, digit_value, digits_end, digits_value, float_end, fraction_end,
    integer_piece, is_digit, is_letter, is_space, is_width_mark, is_word, mantissa_end, number_at,
    piece_at, quote_at, scan, spaces_end, string_at, symbol_at, unit_factor, width_of,
    width_token, word_at, word_end, Piece, Scan, Step,
};
use crate::text::{chars_of, string_of};
use crate::{Float, Integer};

verus! {

/// Why a text could not be split into tokens.
#[derive(Debug, PartialEq, Eq, Clone)]
pub enum Error {
    /// An integer literal that does not fit the integer type; holds its text.
    ParseIntError(String),
    /// A literal in the shape of a floating-point number that is none; holds
    /// its text.
    ParseFloatError(String),
    /// Letters in front of `!`, `~` or `^` that name no bit width.
    InvalidBitWidthHint(String),
    /// Characters that begin no token.
    Invalid,
}

/// The mathematical value of a lexing [`Error`].
pub ghost enum ErrorView {
    ParseIntError(Seq<char>),
    ParseFloatError(Seq<char>),
    InvalidBitWidthHint(Seq<char>),
    Invalid,
}

impl View for Error {
    type V = ErrorView;

    open spec fn view(&self) -> ErrorView {
        match self {
            Error::ParseIntError(s) => ErrorView::ParseIntError(s@),
            Error::ParseFloatError(s) => ErrorView::ParseFloatError(s@),
            Error::InvalidBitWidthHint(s) => ErrorView::InvalidBitWidthHint(s@),
            Error::Invalid => ErrorView::Invalid,
        }
    }
}

impl Default for Error {
    fn default() -> (r: Error)
        ensures
            r == Error::Invalid,
    {
        Error::Invalid
    }
}

/// One token of the input.
#[derive(Debug, PartialEq, Clone)]
pub enum LexToken {
    Integer(Integer),
    Float(Float),
    Plus,
    Minus,
    Mul,
    Div,
    OpenParenthesis,
    CloseParenthesis,
    BitOr,
    BitAnd,
    BitXor(usize),
    BitNot(usize),
    Expo,
    Mod,
    Custom(String),
    RightShift,
    LeftShift,
    Comma,
    String(String),
}

/// The mathematical value of a [`LexToken`].
pub ghost enum LexTokenView {
    Integer(i128),
    Float(u64),
    Plus,
    Minus,
    Mul,
    Div,
    OpenParenthesis,
    CloseParenthesis,
    BitOr,
    BitAnd,
    BitXor(usize),
    BitNot(usize),
    Expo,
    Mod,
    Custom(Seq<char>),
    RightShift,
    LeftShift,
    Comma,
    String(Seq<char>),
}

impl View for LexToken {
    type V = LexTokenView;

    open spec fn view(&self) -> LexTokenView {
        match self {
            LexToken::Integer(i) => LexTokenView::Integer(*i),
            LexToken::Float(f) => LexTokenView::Float(*f),
            LexToken::Plus => LexTokenView::Plus,
            LexToken::Minus => LexTokenView::Minus,
            LexToken::Mul => LexTokenView::Mul,
            LexToken::Div => LexTokenView::Div,
            LexToken::OpenParenthesis => LexTokenView::OpenParenthesis,
            LexToken::CloseParenthesis => LexTokenView::CloseParenthesis,
            LexToken::BitOr => LexTokenView::BitOr,
            LexToken::BitAnd => LexTokenView::BitAnd,
            LexToken::BitXor(w) => LexTokenView::BitXor(*w),
            LexToken::BitNot(w) => LexTokenView::BitNot(*w),
            LexToken::Expo => LexTokenView::Expo,
            LexToken::Mod => LexTokenView::Mod,
            LexToken::Custom(s) => LexTokenView::Custom(s@),
            LexToken::RightShift => LexTokenView::RightShift,
            LexToken::LeftShift => LexTokenView::LeftShift,
            LexToken::Comma => LexTokenView::Comma,
            LexToken::String(s) => LexTokenView::String(s@),
        }
    }
}

impl LexTokenView {
    /// The coarse rank of a token that can stand between two operands.
    pub open spec fn precedence(self) -> Option<usize> {
        match self {
            LexTokenView::Expo | LexTokenView::BitNot(_) => Some(0usize),
            LexTokenView::Mul | LexTokenView::Mod | LexTokenView::Div | LexTokenView::BitAnd
            | LexTokenView::BitXor(_) | LexTokenView::LeftShift | LexTokenView::RightShift => Some(
                1usize,
            ),
            LexTokenView::Plus | LexTokenView::Minus | LexTokenView::BitOr => Some(2usize),
            _ => None,
        }
    }
}

impl LexToken {
    /// The coarse rank of a token that can stand between two operands: a lower
    /// rank binds tighter; other tokens have none.
    pub fn precedence(&self) -> (rank: Option<usize>)
        ensures
            rank == self@.precedence(),
    {
        match self {
            LexToken::Expo | LexToken::BitNot(_) => Some(0),
            LexToken::Mul | LexToken::Mod | LexToken::Div | LexToken::BitAnd | LexToken::BitXor(_)
            | LexToken::LeftShift | LexToken::RightShift => Some(1),
            LexToken::Plus | LexToken::Minus | LexToken::BitOr => Some(2),
            _ => None,
        }
    }

    /// A copy of the token.
    pub fn duplicate(&self) -> (r: LexToken)
        ensures
            r == *self,
    {
        match self {
            LexToken::Integer(i) => LexToken::Integer(*i),
            LexToken::Float(f) => LexToken::Float(*f),
            LexToken::Plus => LexToken::Plus,
            LexToken::Minus => LexToken::Minus,
            LexToken::Mul => LexToken::Mul,
            LexToken::Div => LexToken::Div,
            LexToken::OpenParenthesis => LexToken::OpenParenthesis,
            LexToken::CloseParenthesis => LexToken::CloseParenthesis,
            LexToken::BitOr => LexToken::BitOr,
            LexToken::BitAnd => LexToken::BitAnd,
            LexToken::BitXor(w) => LexToken::BitXor(*w),
            LexToken::BitNot(w) => LexToken::BitNot(*w),
            LexToken::Expo => LexToken::Expo,
            LexToken::Mod => LexToken::Mod,
            LexToken::Custom(s) => LexToken::Custom(s.clone()),
            LexToken::RightShift => LexToken::RightShift,
            LexToken::LeftShift => LexToken::LeftShift,
            LexToken::Comma => LexToken::Comma,
            LexToken::String(s) => LexToken::String(s.clone()),
        }
    }
}

/// A sequence of tokens as a sequence of their values.
pub open spec fn lexemes(s: Seq<LexToken>) -> Seq<LexTokenView> {
    s.map_values(|t: LexToken| t@)
}

/// What the scanner recognised: a token, or the text of a floating-point
/// literal.
pub enum Scanned {
    Token(LexToken),
    FloatText(String),
}

impl View for Scanned {
    type V = Piece;

    open spec fn view(&self) -> Piece {
        match self {
            Scanned::Token(t) => Piece::Token(t@),
            Scanned::FloatText(text) => Piece::FloatText(text@),
        }
    }
}

/// The step that a scanning function reports.
pub open spec fn step_of(piece: Result<Scanned, Error>, end: usize) -> Step {
    Step {
        piece: match piece {
            Ok(p) => Ok(p@),
            Err(e) => Err(e@),
        },
        end: end as nat,
    }
}

/// What a character is worth as a digit; 16 if it is no digit.
pub fn digit_of(c: char) -> (v: u32)
    ensures
        v == digit_value(c),
{
    let u = c as u32;
    if 0x30 <= u && u <= 0x39 {
        u - 0x30
    } else if 0x61 <= u && u <= 0x66 {
        u - 0x61 + 10
    } else if 0x41 <= u && u <= 0x46 {
        u - 0x41 + 10
    } else {
        16
    }
}

fn space(c: char) -> (r: bool)
    ensures
        r == is_space(c),
{
    c == ' ' || c == '\t' || c == '\n' || c == '\x0C' || c == '\r'
}

fn letter(c: char) -> (r: bool)
    ensures
        r == is_letter(c),
{
    let u = c as u32;
    (0x41 <= u && u <= 0x5A) || (0x61 <= u && u <= 0x7A)
}

fn word_char(c: char) -> (r: bool)
    ensures
        r == is_word(c),
{
    letter(c) || digit_of(c) < 10 || c == '_'
}

fn skip_spaces(chars: &Vec<char>, from: usize) -> (end: usize)
    requires
        from <= chars@.len(),
    ensures
        end == spaces_end(chars@, from as nat),
        from <= end <= chars@.len(),
{
    let mut at = from;
    while at < chars.len() && space(chars[at])
        invariant
            from <= at <= chars@.len(),
            spaces_end(chars@, from as nat) == spaces_end(chars@, at as nat),
        decreases chars@.len() - at,
    {
        at = at + 1;
    }
    at
}

fn skip_digits(chars: &Vec<char>, from: usize, base: u32) -> (end: usize)
    requires
        from <= chars@.len(),
    ensures
        end == digits_end(chars@, from as nat, base as nat),
        from <= end <= chars@.len(),
        forall|k: int| from <= k < end ==> is_digit(#[trigger] chars@[k], base as nat),
{
    let mut at = from;
    while at < chars.len() && digit_of(chars[at]) < base
        invariant
            from <= at <= chars@.len(),
            digits_end(chars@, from as nat, base as nat) == digits_end(
                chars@,
                at as nat,
                base as nat,
            ),
            forall|k: int| from <= k < at ==> is_digit(#[trigger] chars@[k], base as nat),
        decreases chars@.len() - at,
    {
        at = at + 1;
    }
    at
}

fn skip_word(chars: &Vec<char>, from: usize) -> (end: usize)
    requires
        from <= chars@.len(),
    ensures
        end == word_end(chars@, from as nat),
        from <= end <= chars@.len(),
{
    let mut at = from;
    while at < chars.len() && word_char(chars[at])
        invariant
            from <= at <= chars@.len(),
            word_end(chars@, from as nat) == word_end(chars@, at as nat),
        decreases chars@.len() - at,
    {
        at = at + 1;
    }
    at
}

fn find_quote(chars: &Vec<char>, from: usize, quote: char) -> (end: usize)
    requires
        from <= chars@.len(),
    ensures
        end == quote_at(chars@, from as nat, quote),
        from <= end <= chars@.len(),
{
    let mut at = from;
    while at < chars.len() && chars[at] != quote
        invariant
            from <= at <= chars@.len(),
            quote_at(chars@, from as nat, quote) == quote_at(chars@, at as nat, quote),
        decreases chars@.len() - at,
    {
        at = at + 1;
    }
    at
}

/// The characters from `from` up to `to` as a string.
fn substring(chars: &Vec<char>, from: usize, to: usize) -> (r: String)
    requires
        from <= to <= chars@.len(),
    ensures
        r@ == chars@.subrange(from as int, to as int),
{
    let mut part: Vec<char> = Vec::new();
    let mut at = from;
    while at < to
        invariant
            from <= at <= to <= chars@.len(),
            part@ == chars@.subrange(from as int, at as int),
        decreases to - at,
    {
        part.push(chars[at]);
        assert(part@ =~= chars@.subrange(from as int, at + 1));
        at = at + 1;
    }
    string_of(&part)
}

proof fn lemma_digits_value_grows(digits: Seq<char>, base: nat)
    requires
        base >= 1,
        digits.len() > 0,
    ensures
        digits_value(digits, base) >= digits_value(digits.drop_last(), base),
{
    let v = digits_value(digits.drop_last(), base);
    assert(v * base >= v) by (nonlinear_arith)
        requires
            base >= 1,
            v >= 0,
    ;
}

/// The value of the digits from `from` up to `to`, if it fits the integer
/// type.
fn read_digits(chars: &Vec<char>, from: usize, to: usize, base: u32) -> (v: Option<Integer>)
    requires
        from <= to <= chars@.len(),
        2 <= base <= 16,
        forall|k: int| from <= k < to ==> is_digit(#[trigger] chars@[k], base as nat),
    ensures
        match v {
            Some(x) => x == digits_value(chars@.subrange(from as int, to as int), base as nat),
            None => digits_value(chars@.subrange(from as int, to as int), base as nat) > i128::MAX,
        },
{
    let mut acc: Option<Integer> = Some(0);
    let mut at = from;
    while at < to
        invariant
            from <= at <= to <= chars@.len(),
            2 <= base <= 16,
            forall|k: int| from <= k < to ==> is_digit(#[trigger] chars@[k], base as nat),
            match acc {
                Some(x) => 0 <= x && x == digits_value(
                    chars@.subrange(from as int, at as int),
                    base as nat,
                ),
                None => digits_value(chars@.subrange(from as int, at as int), base as nat)
                    > i128::MAX,
            },
        decreases to - at,
    {
        let ghost before = chars@.subrange(from as int, at as int);
        let ghost now = chars@.subrange(from as int, at + 1);
        assert(now.drop_last() =~= before);
        assert(now.last() == chars@[at as int]);
        proof {
            lemma_digits_value_grows(now, base as nat);
        }
        let d = digit_of(chars[at]);
        acc = match acc {
            Some(x) => {
                assert(x * base + d == digits_value(now, base as nat)) by (nonlinear_arith)
                    requires
                        x == digits_value(before, base as nat),
                        digits_value(now, base as nat) == digits_value(before, base as nat) * (
                        base as nat) + d,
                ;
                match x.checked_mul(base as i128) {
                    Some(y) => y.checked_add(d as i128),
                    None => None,
                }
            },
            None => None,
        };
        at = at + 1;
    }
    acc
}

/// The factor of a unit letter.
fn factor_of(c: char) -> (r: Option<Integer>)
    ensures
        match r {
            Some(f) => unit_factor(c) == Some(f as nat) && f >= 1,
            None => unit_factor(c) is None,
        },
{
    if c == 'k' || c == 'K' {
        Some(0x400)
    } else if c == 'm' || c == 'M' {
        Some(0x10_0000)
    } else if c == 'g' || c == 'G' {
        Some(0x4000_0000)
    } else if c == 't' || c == 'T' {
        Some(0x100_0000_0000)
    } else if c == 'p' || c == 'P' {
        Some(0x4_0000_0000_0000)
    } else {
        None
    }
}

/// The base that the letter after a leading `0` announces.
fn base_of(c: char) -> (r: Option<u32>)
    ensures
        match r {
            Some(b) => announced_base(c) == Some(b as nat) && 2 <= b <= 16,
            None => announced_base(c) is None,
        },
{
    if c == 'x' {
        Some(16)
    } else if c == 'o' {
        Some(8)
    } else if c == 'b' {
        Some(2)
    } else {
        None
    }
}

/// The integer literal with the text from `from` up to `to` and the given
/// value, or the error that holds the text.
fn integer_token(chars: &Vec<char>, from: usize, to: usize, value: Option<Integer>) -> (r: Result<
    Scanned,
    Error,
>)
    requires
        from <= to <= chars@.len(),
        value is Some ==> value->0 >= 0,
    ensures
        value is Some ==> crate::lex::step_of(r, to).piece == integer_piece(
            chars@.subrange(from as int, to as int),
            value->0 as nat,
        ),
        value is None ==> r is Err && r->Err_0@ == ErrorView::ParseIntError(
            chars@.subrange(from as int, to as int),
        ),
{
    match value {
        Some(v) => Ok(Scanned::Token(LexToken::Integer(v))),
        None => Err(Error::ParseIntError(substring(chars, from, to))),
    }
}

fn end_of_fraction(chars: &Vec<char>, at: usize) -> (end: usize)
    requires
        at <= chars@.len(),
    ensures
        end == fraction_end(chars@, at as nat),
        at <= end <= chars@.len(),
{
    if at < chars.len() && at + 1 < chars.len() && chars[at] == '.' && digit_of(chars[at + 1])
        < 10 {
        skip_digits(chars, at + 1, 10)
    } else {
        at
    }
}

fn end_of_float(chars: &Vec<char>, i: usize) -> (end: usize)
    requires
        i < chars@.len(),
    ensures
        end == float_end(chars@, i as nat),
        i <= end <= chars@.len(),
{
    let d = skip_digits(chars, i, 10);
    let f = end_of_fraction(chars, d);
    let m = if f > d {
        f
    } else if d > i && chars[i] != '0' {
        d
    } else {
        i
    };
    assert(m == mantissa_end(chars@, i as nat));
    if m > i && m < chars.len() && (chars[m] == 'e' || chars[m] == 'E') {
        let b = if m + 1 < chars.len() && (chars[m + 1] == '+' || chars[m + 1] == '-') {
            m + 2
        } else {
            m + 1
        };
        let d = skip_digits(chars, b, 10);
        let f = end_of_fraction(chars, d);
        if f > d {
            f
        } else if d > b {
            d
        } else {
            m
        }
    } else {
        m
    }
}

/// Reads the literal that begins with the digit or the point at `i`.
fn take_number(chars: &Vec<char>, i: usize) -> (r: (Result<Scanned, Error>, usize))
    requires
        i < chars@.len(),
    ensures
        step_of(r.0, r.1) == number_at(chars@, i as nat),
        r.0 is Ok ==> i < r.1 <= chars@.len(),
{
    if chars.len() - i > 2 && chars[i] == '0' {
        if let Some(base) = base_of(chars[i + 1]) {
            if digit_of(chars[i + 2]) < base {
                let end = skip_digits(chars, i + 2, base);
                let value = read_digits(chars, i + 2, end, base);
                return (integer_token(chars, i, end, value), end);
            }
        }
    }
    let d = skip_digits(chars, i, 10);
    let mut int_end = d;
    let mut factor: Integer = 1;
    if d > i && d < chars.len() {
        if let Some(f) = factor_of(chars[d]) {
            int_end = d + 1;
            factor = f;
        }
    }
    let f = end_of_float(chars, i);
    if f > int_end {
        (Ok(Scanned::FloatText(substring(chars, i, f))), f)
    } else if d > i {
        let digits = read_digits(chars, i, d, 10);
        let ghost plain = digits_value(chars@.subrange(i as int, d as int), 10);
        let value = match digits {
            Some(v) => {
                assert(v * factor >= 0) by (nonlinear_arith)
                    requires
                        v >= 0,
                        factor >= 1,
                ;
                v.checked_mul(factor)
            },
            None => {
                assert(plain * (factor as nat) > i128::MAX) by (nonlinear_arith)
                    requires
                        plain > i128::MAX,
                        factor >= 1,
                ;
                None
            },
        };
        (integer_token(chars, i, int_end, value), int_end)
    } else {
        (Err(Error::Invalid), i + 1)
    }
}

proof fn lemma_word_end_bounds(s: Seq<char>, from: nat)
    requires
        from <= s.len(),
    ensures
        from <= word_end(s, from) <= s.len(),
    decreases s.len() - from,
{
    if from < s.len() && is_word(s[from as int]) {
        lemma_word_end_bounds(s, from + 1);
    }
}

/// The bit width that a hint names.
fn width_named(chars: &Vec<char>, from: usize, to: usize) -> (r: Option<usize>)
    requires
        from <= to <= chars@.len(),
    ensures
        r == width_of(chars@.subrange(from as int, to as int)),
{
    let ghost hint = chars@.subrange(from as int, to as int);
    let len = to - from;
    assert(hint.len() == len);
    assert(seq!['b'].len() == 1 && seq!['w'].len() == 1 && seq!['l'].len() == 1);
    assert(seq!['d', 'w'].len() == 2 && seq!['l', 'l'].len() == 2);
    assert(seq!['b'][0] == 'b' && seq!['w'][0] == 'w' && seq!['l'][0] == 'l');
    assert(seq!['d', 'w'][0] == 'd' && seq!['d', 'w'][1] == 'w');
    assert(seq!['l', 'l'][0] == 'l' && seq!['l', 'l'][1] == 'l');
    if len == 0 {
        assert(hint =~= Seq::<char>::empty());
        Some(32)
    } else if len == 1 {
        assert(hint =~= seq![chars@[from as int]]);
        let c = chars[from];
        if c == 'b' {
            Some(8)
        } else if c == 'w' {
            Some(16)
        } else if c == 'l' {
            Some(64)
        } else {
            assert(hint[0] != 'b' && hint[0] != 'w' && hint[0] != 'l');
            None
        }
    } else if len == 2 {
        assert(hint =~= seq![chars@[from as int], chars@[from + 1]]);
        let c = chars[from];
        let d = chars[from + 1];
        if c == 'd' && d == 'w' {
            Some(32)
        } else if c == 'l' && d == 'l' {
            Some(128)
        } else {
            assert(!(hint[0] == 'd' && hint[1] == 'w') && !(hint[0] == 'l' && hint[1] == 'l'));
            None
        }
    } else {
        None
    }
}

fn width_mark(c: char) -> (r: bool)
    ensures
        r == is_width_mark(c),
{
    c == '!' || c == '~' || c == '^'
}

fn token_of_width(mark: char, width: usize) -> (t: LexToken)
    ensures
        t@ == width_token(mark, width),
{
    if mark == '^' {
        LexToken::BitXor(width)
    } else {
        LexToken::BitNot(width)
    }
}

/// Reads the token that begins with the letter at `i`.
fn take_word(chars: &Vec<char>, i: usize) -> (r: (Result<Scanned, Error>, usize))
    requires
        i < chars@.len(),
        is_letter(chars@[i as int]),
    ensures
        step_of(r.0, r.1) == word_at(chars@, i as nat),
        r.0 is Ok ==> i < r.1 <= chars@.len(),
{
    let e = skip_word(chars, i);
    proof {
        lemma_word_end_bounds(chars@, i as nat + 1);
    }
    if e < chars.len() && width_mark(chars[e]) {
        match width_named(chars, i, e) {
            Some(width) => (Ok(Scanned::Token(token_of_width(chars[e], width))), e + 1),
            None => (Err(Error::InvalidBitWidthHint(substring(chars, i, e))), e + 1),
        }
    } else {
        (Ok(Scanned::Token(LexToken::Custom(substring(chars, i, e)))), e)
    }
}

/// Reads the string that begins with the quote at `i`.
fn take_string(chars: &Vec<char>, i: usize) -> (r: (Result<Scanned, Error>, usize))
    requires
        i < chars@.len(),
    ensures
        step_of(r.0, r.1) == string_at(chars@, i as nat),
        r.0 is Ok ==> i < r.1 <= chars@.len(),
{
    let len = chars.len();
    let close = find_quote(chars, i + 1, chars[i]);
    if close < len {
        (Ok(Scanned::Token(LexToken::String(substring(chars, i + 1, close)))), close + 1)
    } else {
        (Err(Error::Invalid), len)
    }
}

fn one(t: LexToken, i: usize) -> (r: (Result<Scanned, Error>, usize))
    requires
        i < usize::MAX,
    ensures
        r.0 is Ok,
        step_of(r.0, r.1) == (Step { piece: Ok(Piece::Token(t@)), end: (i + 1) as nat }),
{
    (Ok(Scanned::Token(t)), i + 1)
}

/// Reads the token that a character which is no letter, digit, point or
/// quote begins.
fn take_symbol(chars: &Vec<char>, i: usize) -> (r: (Result<Scanned, Error>, usize))
    requires
        i < chars@.len(),
    ensures
        step_of(r.0, r.1) == symbol_at(chars@, i as nat),
        r.0 is Ok ==> i < r.1 <= chars@.len(),
{
    let c = chars[i];
    let twice = chars.len() - i > 1 && chars[i + 1] == c;
    if c == '+' {
        one(LexToken::Plus, i)
    } else if c == '-' {
        one(LexToken::Minus, i)
    } else if c == '*' {
        one(LexToken::Mul, i)
    } else if c == '/' {
        one(LexToken::Div, i)
    } else if c == '(' {
        one(LexToken::OpenParenthesis, i)
    } else if c == ')' {
        one(LexToken::CloseParenthesis, i)
    } else if c == '|' {
        one(LexToken::BitOr, i)
    } else if c == '&' {
        one(LexToken::BitAnd, i)
    } else if c == '%' {
        one(LexToken::Mod, i)
    } else if c == ',' {
        one(LexToken::Comma, i)
    } else if c == '^' && twice {
        (Ok(Scanned::Token(LexToken::Expo)), i + 2)
    } else if c == '<' && twice {
        (Ok(Scanned::Token(LexToken::LeftShift)), i + 2)
    } else if c == '>' && twice {
        (Ok(Scanned::Token(LexToken::RightShift)), i + 2)
    } else if width_mark(c) {
        one(token_of_width(c, 32), i)
    } else {
        (Err(Error::Invalid), i + 1)
    }
}

/// Reads what begins at position `i`, which holds no blank.
fn take_piece(chars: &Vec<char>, i: usize) -> (r: (Result<Scanned, Error>, usize))
    requires
        i < chars@.len(),
    ensures
        step_of(r.0, r.1) == piece_at(chars@, i as nat),
        r.0 is Ok ==> i < r.1 <= chars@.len(),
{
    let c = chars[i];
    if digit_of(c) < 10 || c == '.' {
        take_number(chars, i)
    } else if letter(c) {
        take_word(chars, i)
    } else if c == '\'' || c == '"' {
        take_string(chars, i)
    } else {
        take_symbol(chars, i)
    }
}

/// Whether the tokens are what the pieces stand for: each token piece is
/// that token, and each floating-point literal is a floating-point token.
pub open spec fn agrees(pieces: Seq<Piece>, found: Seq<LexTokenView>) -> bool {
    &&& pieces.len() == found.len()
    &&& forall|i: int|
        0 <= i < pieces.len() ==> match #[trigger] pieces[i] {
            Piece::Token(t) => found[i] == t,
            Piece::FloatText(_) => found[i] is Float,
        }
}

/// Whether no piece is a floating-point literal.
pub open spec fn float_free(pieces: Seq<Piece>) -> bool {
    forall|i: int| 0 <= i < pieces.len() ==> (#[trigger] pieces[i]) is Token
}

/// Whether the error is that of a floating-point literal among the pieces
/// whose text is no number.
pub open spec fn refuses_float(pieces: Seq<Piece>, e: ErrorView) -> bool {
    exists|i: int|
        0 <= i < pieces.len() && (#[trigger] pieces[i]) is FloatText && e
            == ErrorView::ParseFloatError(pieces[i]->FloatText_0)
}

/// What `tokenize` returns for a text with the given pieces and error,
/// whatever the values of the floating-point literals are.
pub open spec fn tokenized(found: Scan, r: Result<Vec<LexToken>, Error>) -> bool {
    match r {
        Ok(list) => found.error is None && agrees(found.pieces, lexemes(list@)),
        Err(e) => found.error == Some(e@) || refuses_float(found.pieces, e@),
    }
}

/// The token of a piece, given what the floating-point unit made of the text
/// of a floating-point literal.
pub fn resolve(piece: Scanned, parsed: Option<Float>) -> (r: Result<LexToken, Error>)
    ensures
        match piece@ {
            Piece::Token(t) => r is Ok && r->Ok_0@ == t,
            Piece::FloatText(text) => match parsed {
                Some(bits) => r is Ok && r->Ok_0@ == LexTokenView::Float(bits),
                None => r is Err && r->Err_0@ == ErrorView::ParseFloatError(text),
            },
        },
{
    match piece {
        Scanned::Token(t) => Ok(t),
        Scanned::FloatText(text) => match parsed {
            Some(bits) => Ok(LexToken::Float(bits)),
            None => Err(Error::ParseFloatError(text)),
        },
    }
}

/// Splits a text into tokens, from left to right, and stops at the first
/// error. The value of a floating-point literal is asked of `unit`.
pub fn tokenize<F: FloatUnit>(text: &str, unit: &F) -> (r: Result<Vec<LexToken>, Error>)
    ensures
        tokenized(scan(text@, 0), r),
        float_free(scan(text@, 0).pieces) ==> (r is Ok <==> scan(text@, 0).error is None),
{
    let chars = chars_of(text);
    let mut list: Vec<LexToken> = Vec::new();
    let ghost whole = scan(chars@, 0);
    let ghost mut seen: Seq<Piece> = Seq::empty();
    let mut at: usize = 0;
    assert(seen + whole.pieces =~= whole.pieces);
    loop
        invariant
            at <= chars@.len(),
            chars@ == text@,
            whole == scan(chars@, 0),
            whole.pieces == seen + scan(chars@, at as nat).pieces,
            whole.error == scan(chars@, at as nat).error,
            agrees(seen, lexemes(list@)),
        ensures
            whole.pieces == seen,
            whole.error is None,
        decreases chars@.len() - at,
    {
        let ghost here = scan(chars@, at as nat);
        let i = skip_spaces(&chars, at);
        if i >= chars.len() {
            assert(seen + Seq::<Piece>::empty() =~= seen);
            break ;
        }
        let (piece, end) = take_piece(&chars, i);
        let piece = match piece {
            Ok(p) => p,
            Err(e) => {
                return Err(e);
            },
        };
        let ghost now = piece@;
        let ghost rest = scan(chars@, end as nat);
        assert(here.pieces == seq![now] + rest.pieces);
        assert(whole.pieces =~= seen.push(now) + rest.pieces);
        assert(whole.pieces[seen.len() as int] == now);
        let parsed = match &piece {
            Scanned::FloatText(literal) => unit.parse(literal.as_str()),
            Scanned::Token(_) => None,
        };
        let token = resolve(piece, parsed)?;
        let ghost before = list@;
        let ghost value = token@;
        list.push(token);
        proof {
            assert(lexemes(list@) =~= lexemes(before).push(value));
            seen = seen.push(now);
        }
        at = end;
    }
    Ok(list)
}

} // verus!
