//! The grammar of the tokens, as functions on a sequence of characters: where
//! each kind of token ends and what it stands for.
use vstd::prelude::*;
use crate::lex::{ErrorView, LexTokenView};

verus! {

/// What the scanner recognises: a token, or the text of a floating-point
/// literal, whose value is computed outside.
pub ghost enum Piece {
    Token(LexTokenView),
    FloatText(Seq<char>),
}

/// One step of the scanner: what begins at a position, and where the next
/// step begins.
pub ghost struct Step {
    pub piece: Result<Piece, ErrorView>,
    pub end: nat,
}

/// Blank, tab, line feed, form feed and carriage return separate tokens.
pub open spec fn is_space(c: char) -> bool {
    c == ' ' || c == '\t' || c == '\n' || c == '\x0C' || c == '\r'
}

/// What a character is worth as a digit: `0` to `9`, then `a` to `f` in
/// either case; 16 if it is no digit.
pub open spec fn digit_value(c: char) -> nat {
    let u = c as u32;
    if 0x30 <= u <= 0x39 {
        (u - 0x30) as nat
    } else if 0x61 <= u <= 0x66 {
        (u - 0x61 + 10) as nat
    } else if 0x41 <= u <= 0x46 {
        (u - 0x41 + 10) as nat
    } else {
        16
    }
}

/// Whether a character is a digit of the base.
pub open spec fn is_digit(c: char, base: nat) -> bool {
    digit_value(c) < base
}

/// A letter of the Latin alphabet, in either case.
pub open spec fn is_letter(c: char) -> bool {
    let u = c as u32;
    0x41 <= u <= 0x5A || 0x61 <= u <= 0x7A
}

/// A letter, a decimal digit or the underscore.
pub open spec fn is_word(c: char) -> bool {
    is_letter(c) || is_digit(c, 10) || c == '_'
}

/// The end of the run of blanks that begins at `from`.
pub open spec fn spaces_end(s: Seq<char>, from: nat) -> nat
    decreases s.len() - from,
{
    if from < s.len() && is_space(s[from as int]) {
        spaces_end(s, from + 1)
    } else {
        from
    }
}

/// The end of the run of digits of a base that begins at `from`.
pub open spec fn digits_end(s: Seq<char>, from: nat, base: nat) -> nat
    decreases s.len() - from,
{
    if from < s.len() && is_digit(s[from as int], base) {
        digits_end(s, from + 1, base)
    } else {
        from
    }
}

/// The end of the run of word characters that begins at `from`.
pub open spec fn word_end(s: Seq<char>, from: nat) -> nat
    decreases s.len() - from,
{
    if from < s.len() && is_word(s[from as int]) {
        word_end(s, from + 1)
    } else {
        from
    }
}

/// The position of the first `quote` at or after `from`, or the length of the
/// text if there is none.
pub open spec fn quote_at(s: Seq<char>, from: nat, quote: char) -> nat
    decreases s.len() - from,
{
    if from < s.len() && s[from as int] != quote {
        quote_at(s, from + 1, quote)
    } else {
        from
    }
}

/// The number that a string of digits denotes in a base.
pub open spec fn digits_value(digits: Seq<char>, base: nat) -> nat
    decreases digits.len(),
{
    if digits.len() == 0 {
        0
    } else {
        digits_value(digits.drop_last(), base) * base + digit_value(digits.last())
    }
}

/// The factor that a unit letter stands for: a power of 1024.
pub open spec fn unit_factor(c: char) -> Option<nat> {
    if c == 'k' || c == 'K' {
        Some(0x400nat)
    } else if c == 'm' || c == 'M' {
        Some(0x10_0000nat)
    } else if c == 'g' || c == 'G' {
        Some(0x4000_0000nat)
    } else if c == 't' || c == 'T' {
        Some(0x100_0000_0000nat)
    } else if c == 'p' || c == 'P' {
        Some(0x4_0000_0000_0000nat)
    } else {
        None
    }
}

/// The base that the letter after a leading `0` announces.
pub open spec fn announced_base(c: char) -> Option<nat> {
    if c == 'x' {
        Some(16nat)
    } else if c == 'o' {
        Some(8nat)
    } else if c == 'b' {
        Some(2nat)
    } else {
        None
    }
}

/// The bit width that the letters in front of `!`, `~` or `^` name; none
/// name 32 bits.
pub open spec fn width_of(hint: Seq<char>) -> Option<usize> {
    if hint == Seq::<char>::empty() {
        Some(32usize)
    } else if hint == seq!['b'] {
        Some(8usize)
    } else if hint == seq!['w'] {
        Some(16usize)
    } else if hint == seq!['d', 'w'] {
        Some(32usize)
    } else if hint == seq!['l'] {
        Some(64usize)
    } else if hint == seq!['l', 'l'] {
        Some(128usize)
    } else {
        None
    }
}

/// An integer literal with the given text and value: the value has to fit
/// the integer type.
pub open spec fn integer_piece(text: Seq<char>, value: nat) -> Result<Piece, ErrorView> {
    if value <= i128::MAX {
        Ok(Piece::Token(LexTokenView::Integer(value as i128)))
    } else {
        Err(ErrorView::ParseIntError(text))
    }
}

/// The end of a fraction, a point and at least one digit, that begins at
/// `at`; `at` itself if none begins there.
pub open spec fn fraction_end(s: Seq<char>, at: nat) -> nat {
    if at + 1 < s.len() && s[at as int] == '.' && is_digit(s[at as int + 1], 10) {
        digits_end(s, at + 1, 10)
    } else {
        at
    }
}

/// The end of the longest mantissa of a floating-point literal that begins at
/// `i`: digits with a fraction, a fraction alone, or digits that do not begin
/// with `0`. It is `i` itself if none begins there.
pub open spec fn mantissa_end(s: Seq<char>, i: nat) -> nat {
    let d = digits_end(s, i, 10);
    let f = fraction_end(s, d);
    if f > d {
        f
    } else if d > i && s[i as int] != '0' {
        d
    } else {
        i
    }
}

/// The end of the longest exponent that begins at `m`: `e` or `E`, a sign if
/// there is one, and digits, a fraction or both. It is `m` itself if none
/// begins there.
pub open spec fn exponent_end(s: Seq<char>, m: nat) -> nat {
    if m < s.len() && (s[m as int] == 'e' || s[m as int] == 'E') {
        let b = if m + 1 < s.len() && (s[m as int + 1] == '+' || s[m as int + 1] == '-') {
            m + 2
        } else {
            m + 1
        };
        let d = digits_end(s, b, 10);
        let f = fraction_end(s, d);
        if f > d {
            f
        } else if d > b {
            d
        } else {
            m
        }
    } else {
        m
    }
}

/// The end of the longest floating-point literal that begins at `i`, or `i`.
pub open spec fn float_end(s: Seq<char>, i: nat) -> nat {
    let m = mantissa_end(s, i);
    if m > i {
        exponent_end(s, m)
    } else {
        i
    }
}

/// The literal that begins with the digit or the point at `i`. A leading `0`
/// with `x`, `o` or `b` and a digit of that base begins an integer in that
/// base. Otherwise the longer of the decimal integer, with its unit letter if
/// it has one, and the floating-point literal wins, and the integer where
/// they are equally long.
pub open spec fn number_at(s: Seq<char>, i: nat) -> Step
    recommends
        i < s.len(),
{
    if i + 2 < s.len() && s[i as int] == '0' && announced_base(s[i as int + 1]) is Some && is_digit(
        s[i as int + 2],
        announced_base(s[i as int + 1])->0,
    ) {
        let base = announced_base(s[i as int + 1])->0;
        let end = digits_end(s, i + 2, base);
        Step {
            piece: integer_piece(
                s.subrange(i as int, end as int),
                digits_value(s.subrange(i as int + 2, end as int), base),
            ),
            end,
        }
    } else {
        let d = digits_end(s, i, 10);
        let with_unit = d > i && d < s.len() && unit_factor(s[d as int]) is Some;
        let int_end = if with_unit {
            d + 1
        } else {
            d
        };
        let factor = if with_unit {
            unit_factor(s[d as int])->0
        } else {
            1
        };
        let f = float_end(s, i);
        if f > int_end {
            Step { piece: Ok(Piece::FloatText(s.subrange(i as int, f as int))), end: f }
        } else if d > i {
            Step {
                piece: integer_piece(
                    s.subrange(i as int, int_end as int),
                    digits_value(s.subrange(i as int, d as int), 10) * factor,
                ),
                end: int_end,
            }
        } else {
            Step { piece: Err(ErrorView::Invalid), end: i + 1 }
        }
    }
}

/// The operator with a bit width that ends with the character `mark`.
pub open spec fn width_token(mark: char, width: usize) -> LexTokenView {
    if mark == '^' {
        LexTokenView::BitXor(width)
    } else {
        LexTokenView::BitNot(width)
    }
}

/// Whether a character is one of the three that a width hint can stand in
/// front of.
pub open spec fn is_width_mark(c: char) -> bool {
    c == '!' || c == '~' || c == '^'
}

/// The token that begins with the letter at `i`: the name of a function, or,
/// where `!`, `~` or `^` follows the word at once, an operator with a width
/// hint.
pub open spec fn word_at(s: Seq<char>, i: nat) -> Step
    recommends
        i < s.len(),
{
    let e = word_end(s, i);
    let word = s.subrange(i as int, e as int);
    if e < s.len() && is_width_mark(s[e as int]) {
        Step {
            piece: match width_of(word) {
                Some(width) => Ok(Piece::Token(width_token(s[e as int], width))),
                None => Err(ErrorView::InvalidBitWidthHint(word)),
            },
            end: e + 1,
        }
    } else {
        Step { piece: Ok(Piece::Token(LexTokenView::Custom(word))), end: e }
    }
}

/// The string that begins with the quote at `i`: it reaches up to the next
/// quote of the same kind, and nothing in it is an escape.
pub open spec fn string_at(s: Seq<char>, i: nat) -> Step
    recommends
        i < s.len(),
{
    let close = quote_at(s, i + 1, s[i as int]);
    if close < s.len() {
        Step {
            piece: Ok(Piece::Token(LexTokenView::String(s.subrange(i as int + 1, close as int)))),
            end: close + 1,
        }
    } else {
        Step { piece: Err(ErrorView::Invalid), end: s.len() }
    }
}

/// The token that a character which is no letter, digit, point or quote
/// begins.
pub open spec fn symbol_at(s: Seq<char>, i: nat) -> Step
    recommends
        i < s.len(),
{
    let c = s[i as int];
    let twice = i + 1 < s.len() && s[i as int + 1] == c;
    let one = |t: LexTokenView| Step { piece: Ok(Piece::Token(t)), end: i + 1 };
    let two = |t: LexTokenView| Step { piece: Ok(Piece::Token(t)), end: i + 2 };
    if c == '+' {
        one(LexTokenView::Plus)
    } else if c == '-' {
        one(LexTokenView::Minus)
    } else if c == '*' {
        one(LexTokenView::Mul)
    } else if c == '/' {
        one(LexTokenView::Div)
    } else if c == '(' {
        one(LexTokenView::OpenParenthesis)
    } else if c == ')' {
        one(LexTokenView::CloseParenthesis)
    } else if c == '|' {
        one(LexTokenView::BitOr)
    } else if c == '&' {
        one(LexTokenView::BitAnd)
    } else if c == '%' {
        one(LexTokenView::Mod)
    } else if c == ',' {
        one(LexTokenView::Comma)
    } else if c == '^' && twice {
        two(LexTokenView::Expo)
    } else if c == '<' && twice {
        two(LexTokenView::LeftShift)
    } else if c == '>' && twice {
        two(LexTokenView::RightShift)
    } else if is_width_mark(c) {
        one(width_token(c, 32))
    } else {
        Step { piece: Err(ErrorView::Invalid), end: i + 1 }
    }
}

/// What begins at position `i`, which holds no blank.
pub open spec fn piece_at(s: Seq<char>, i: nat) -> Step
    recommends
        i < s.len(),
{
    let c = s[i as int];
    if is_digit(c, 10) || c == '.' {
        number_at(s, i)
    } else if is_letter(c) {
        word_at(s, i)
    } else if c == '\'' || c == '"' {
        string_at(s, i)
    } else {
        symbol_at(s, i)
    }
}

/// What a text holds: the pieces in front of the first error, and that error.
pub ghost struct Scan {
    pub pieces: Seq<Piece>,
    pub error: Option<ErrorView>,
}

/// The pieces of the text from position `from` on.
pub open spec fn scan(s: Seq<char>, from: nat) -> Scan
    decreases s.len() - from,
{
    let i = spaces_end(s, from);
    if from <= i < s.len() {
        let step = piece_at(s, i);
        match step.piece {
            Err(e) => Scan { pieces: Seq::empty(), error: Some(e) },
            Ok(piece) => if i < step.end <= s.len() {
                let rest = scan(s, step.end);
                Scan { pieces: seq![piece] + rest.pieces, error: rest.error }
            } else {
                Scan { pieces: seq![piece], error: None }
            },
        }
    } else {
        Scan { pieces: Seq::empty(), error: None }
    }
}

/// The number that the front of a string of digits denotes is at most the
/// number that the whole string denotes.
pub proof fn lemma_digits_value_grows(digits: Seq<char>, k: nat, base: nat)
    requires
        base >= 1,
        k <= digits.len(),
    ensures
        digits_value(digits.take(k as int), base) <= digits_value(digits, base),
    decreases digits.len() - k,
{
    if k < digits.len() {
        let longer = digits.take(k as int + 1);
        assert(longer.drop_last() =~= digits.take(k as int));
        let v = digits_value(digits.take(k as int), base);
        assert(v * base >= v) by (nonlinear_arith)
            requires
                base >= 1,
                v >= 0,
        ;
        lemma_digits_value_grows(digits, k + 1, base);
    } else {
        assert(digits.take(k as int) =~= digits);
    }
}

} // verus!
