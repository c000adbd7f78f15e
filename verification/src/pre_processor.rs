//! The rewriting of convenient notation into the notation of the host
//! expression language: units of memory, bit numbers, bare literals in other
//! bases and the names of the bitwise functions.
use regex::{Captures, Regex};
use vstd::prelude::*;
use crate::display::{unsigned_text, unsigned_to_string};
use crate::lex::digit_of;
use crate::scan::{digits_value, is_digit, lemma_digits_value_grows};
use crate::text::{chars_of, string_of};

verus! {

/// What `Regex::replace_all` of the regex crate makes of a text, for the
/// regular expression that `Regex::new` builds from a pattern and for a
/// replacement in which `$1` stands for the first group. `None` where the
/// pattern is no regular expression.
pub uninterp spec fn replaced(pattern: Seq<char>, text: Seq<char>, replacement: Seq<char>)
    -> Option<Seq<char>>;

/// What `Regex::replace_all` makes of a text, for the regular expression of a
/// pattern, where each match is replaced by what `in_decimal` makes of the
/// match and of its first group. `None` where the pattern is no regular
/// expression.
pub uninterp spec fn renumbered(pattern: Seq<char>, text: Seq<char>, base: u32) -> Option<
    Seq<char>,
>;

/// The mathematical value of a text that may be missing.
pub open spec fn text_of(r: Option<String>) -> Option<Seq<char>> {
    match r {
        Some(s) => Some(s@),
        None => None,
    }
}

/// Builds the regular expression with `Regex::new` and replaces every match
/// that does not overlap an earlier one with `Regex::replace_all`. The
/// contract only names the result.
#[verifier::external_body]
fn replace_all(pattern: &str, text: &str, replacement: &str) -> (r: Option<String>)
    ensures
        text_of(r) == replaced(pattern@, text@, replacement@),
{
    match Regex::new(pattern) {
        Ok(re) => Some(re.replace_all(text, replacement).into_owned()),
        Err(_) => None,
    }
}

/// Builds the regular expression with `Regex::new` and has
/// `Regex::replace_all` replace every match by the decimal form of its first
/// group, read in the given base. The contract only names the result.
#[verifier::external_body]
fn replace_numbers(pattern: &str, text: &str, base: u32) -> (r: Option<String>)
    requires
        base == 2 || base == 8 || base == 16,
    ensures
        text_of(r) == renumbered(pattern@, text@, base),
{
    match Regex::new(pattern) {
        Ok(re) => Some(
            re.replace_all(
                text,
                |cap: &Captures| in_decimal(&cap[0], cap.get(1).map_or("", |m| m.as_str()), base),
            ).into_owned(),
        ),
        Err(_) => None,
    }
}

/// Whether the text is a number in the given base that fits 128 bits.
pub open spec fn is_number(digits: Seq<char>, base: u32) -> bool {
    &&& digits.len() > 0
    &&& forall|i: int| 0 <= i < digits.len() ==> is_digit(#[trigger] digits[i], base as nat)
    &&& digits_value(digits, base as nat) <= u128::MAX
}

/// The decimal form of the digits, read in the given base; where they are no
/// number in that base or do not fit 128 bits, the whole match as it stands.
pub open spec fn decimal_of(whole: Seq<char>, digits: Seq<char>, base: u32) -> Seq<char> {
    if is_number(digits, base) {
        unsigned_text(digits_value(digits, base as nat), 10)
    } else {
        whole
    }
}

/// The decimal form of a literal in another base.
pub fn in_decimal(whole: &str, digits: &str, base: u32) -> (r: String)
    requires
        base == 2 || base == 8 || base == 16,
    ensures
        r@ == decimal_of(whole@, digits@, base),
{
    let chars = chars_of(digits);
    if chars.len() == 0 {
        return whole.to_owned();
    }
    let mut value: u128 = 0;
    let mut i: usize = 0;
    while i < chars.len()
        invariant
            i <= chars@.len(),
            chars@ == digits@,
            chars@.len() > 0,
            base == 2 || base == 8 || base == 16,
            value == digits_value(chars@.take(i as int), base as nat),
            forall|k: int| 0 <= k < i ==> is_digit(#[trigger] chars@[k], base as nat),
        decreases chars@.len() - i,
    {
        let ghost upto = chars@.take(i + 1);
        assert(upto.drop_last() =~= chars@.take(i as int));
        let d = digit_of(chars[i]);
        if d >= base {
            return whole.to_owned();
        }
        let next = match value.checked_mul(base as u128) {
            Some(scaled) => scaled.checked_add(d as u128),
            None => None,
        };
        match next {
            Some(v) => {
                value = v;
            },
            None => {
                proof {
                    lemma_digits_value_grows(chars@, i as nat + 1, base as nat);
                }
                return whole.to_owned();
            },
        }
        i = i + 1;
    }
    assert(chars@.take(i as int) =~= chars@);
    unsigned_to_string(value, 10)
}

/// The text after one rewriting step; a pattern that is no regular
/// expression changes nothing.
pub open spec fn rewritten(pattern: Seq<char>, text: Seq<char>, replacement: Seq<char>) -> Seq<
    char,
> {
    match replaced(pattern, text, replacement) {
        Some(result) => result,
        None => text,
    }
}

/// The text after one step that turns literals of another base into decimal
/// ones.
pub open spec fn converted(pattern: Seq<char>, text: Seq<char>, base: u32) -> Seq<char> {
    match renumbered(pattern, text, base) {
        Some(result) => result,
        None => text,
    }
}

fn rewrite(pattern: &str, text: String, replacement: &str) -> (r: String)
    ensures
        r@ == rewritten(pattern@, text@, replacement@),
{
    match replace_all(pattern, text.as_str(), replacement) {
        Some(result) => result,
        None => text,
    }
}

fn convert(pattern: &str, text: String, base: u32) -> (r: String)
    requires
        base == 2 || base == 8 || base == 16,
    ensures
        r@ == converted(pattern@, text@, base),
{
    match replace_numbers(pattern, text.as_str(), base) {
        Some(result) => result,
        None => text,
    }
}

/// The text with a double quote in place of every single one.
pub open spec fn double_quoted(text: Seq<char>) -> Seq<char> {
    text.map_values(
        |c: char|
            if c == '\'' {
                '"'
            } else {
                c
            },
    )
}

/// Puts a double quote in place of every single one.
pub fn double_quote(text: &str) -> (r: String)
    ensures
        r@ == double_quoted(text@),
{
    let chars = chars_of(text);
    let mut out: Vec<char> = Vec::new();
    let mut i: usize = 0;
    while i < chars.len()
        invariant
            i <= chars@.len(),
            out@.len() == i,
            forall|k: int|
                0 <= k < i ==> out@[k] == if chars@[k] == '\'' {
                    '"'
                } else {
                    chars@[k]
                },
        decreases chars@.len() - i,
    {
        let c = chars[i];
        out.push(
            if c == '\'' {
                '"'
            } else {
                c
            },
        );
        i = i + 1;
    }
    string_of(&out)
}

/// The text in the notation of the host expression language. The words
/// `or`, `xor`, `and` and `not` become the names of the bitwise functions,
/// `BIT` with a number a shift, a number with a unit of memory a product, a
/// literal in base 16, 2 or 8, with its prefix or with its letter behind it,
/// a decimal number, and a single quote a double one, in this order.
pub open spec fn pre_processed(input: Seq<char>) -> Seq<char> {
    let named = rewritten(r"(?i)\b(or|xor|and|not)\b"@, input, "bit$1"@);
    let shifted = rewritten(r"(?i)BIT(\d+)"@, named, "shl(1, $1)"@);
    let kb = rewritten(r"(?i)(\d+)KB"@, shifted, "($1 * 1024)"@);
    let mb = rewritten(r"(?i)(\d+)MB"@, kb, "($1 * 1024 * 1024)"@);
    let gb = rewritten(r"(?i)(\d+)GB"@, mb, "($1 * 1024 * 1024 * 1024)"@);
    let tb = rewritten(r"(?i)(\d+)TB"@, gb, "($1 * 1024 * 1024 * 1024 * 1024)"@);
    let pb = rewritten(r"(?i)(\d+)PB"@, tb, "($1 * 1024 * 1024 * 1024 * 1024 * 1024)"@);
    let hex = converted(r"\b0x(?i)([a-f0-9]+)\b"@, pb, 16);
    let hex_behind = converted(r"\b(?i)([a-f0-9]+)(?-i)h\b"@, hex, 16);
    let bin = converted(r"\b0b(?i)([01]+)\b"@, hex_behind, 2);
    let bin_behind = converted(r"\b(?i)([01]+)(?-i)b\b"@, bin, 2);
    let oct = converted(r"\b0o(?i)([0-7]+)\b"@, bin_behind, 8);
    let oct_behind = converted(r"\b(?i)([0-7]+)(?-i)o\b"@, oct, 8);
    double_quoted(oct_behind)
}

/// Rewrites convenient notation into the notation of the host expression
/// language.
pub fn pre_process(input: &str) -> (r: String)
    ensures
        r@ == pre_processed(input@),
{
    let mut result = rewrite(r"(?i)\b(or|xor|and|not)\b", input.to_owned(), "bit$1");
    result = rewrite(r"(?i)BIT(\d+)", result, "shl(1, $1)");
    result = rewrite(r"(?i)(\d+)KB", result, "($1 * 1024)");
    result = rewrite(r"(?i)(\d+)MB", result, "($1 * 1024 * 1024)");
    result = rewrite(r"(?i)(\d+)GB", result, "($1 * 1024 * 1024 * 1024)");
    result = rewrite(r"(?i)(\d+)TB", result, "($1 * 1024 * 1024 * 1024 * 1024)");
    result = rewrite(r"(?i)(\d+)PB", result, "($1 * 1024 * 1024 * 1024 * 1024 * 1024)");
    result = convert(r"\b0x(?i)([a-f0-9]+)\b", result, 16);
    result = convert(r"\b(?i)([a-f0-9]+)(?-i)h\b", result, 16);
    result = convert(r"\b0b(?i)([01]+)\b", result, 2);
    result = convert(r"\b(?i)([01]+)(?-i)b\b", result, 2);
    result = convert(r"\b0o(?i)([0-7]+)\b", result, 8);
    result = convert(r"\b(?i)([0-7]+)(?-i)o\b", result, 8);
    double_quote(result.as_str())
}

} // verus!
