//! The parser: it reads tokens into an infix sequence of operands and
//! operators, in which every parenthesis is explicit and the arguments of a
//! function follow its name.
use vstd::prelude::*;
use vstd::slice::slice_subrange;
use crate::expr::operand::{Operand, OperandView};
use crate::expr::operator::{Operator, OperatorView};
use crate::expr::{tokens, ExprToken, ExprTokenView};
use crate::lex::{lexemes, LexToken, LexTokenView};
use crate::{Error, ErrorView};

verus! {

/// A cursor over a sequence of tokens.
pub struct LexTokenIter<'a> {
    inner: &'a [LexToken],
    idx: usize,
}

impl<'a> LexTokenIter<'a> {
    /// The tokens that have not been read yet.
    pub closed spec fn remaining(&self) -> Seq<LexTokenView> {
        if self.idx <= self.inner@.len() {
            lexemes(self.inner@.skip(self.idx as int))
        } else {
            Seq::empty()
        }
    }

    /// A cursor at the first of the given tokens.
    pub fn new(value: &'a [LexToken]) -> (r: Self)
        ensures
            r.remaining() == lexemes(value@),
    {
        LexTokenIter { inner: value, idx: 0 }
    }

    /// Reads the next token, if there is one.
    pub fn next(&mut self) -> (r: Option<LexToken>)
        ensures
            old(self).remaining().len() == 0 ==> r is None && final(self).remaining() == old(
                self,
            ).remaining(),
            old(self).remaining().len() > 0 ==> r is Some && r->0@ == old(self).remaining().first()
                && final(self).remaining() == old(self).remaining().drop_first(),
    {
        if self.idx < self.inner.len() {
            let item = self.inner[self.idx].duplicate();
            self.idx = self.idx + 1;
            Some(item)
        } else {
            None
        }
    }
}

/// What a parse yields: the infix sequence or the error, and the tokens that
/// are left for the caller.
pub ghost struct Parsed {
    pub result: Result<Seq<ExprTokenView>, ErrorView>,
    pub rest: Seq<LexTokenView>,
}

impl Parsed {
    /// The same parse with `head` emitted in front of it.
    pub open spec fn after(self, head: Seq<ExprTokenView>) -> Parsed {
        match self.result {
            Ok(more) => Parsed { result: Ok(head + more), rest: self.rest },
            Err(_) => self,
        }
    }
}

/// The operator that a token stands for between two operands.
pub open spec fn infix_operator(t: LexTokenView) -> Option<OperatorView> {
    match t {
        LexTokenView::Plus => Some(OperatorView::Add),
        LexTokenView::Minus => Some(OperatorView::Minus),
        LexTokenView::Mul => Some(OperatorView::Mul),
        LexTokenView::Div => Some(OperatorView::Div),
        LexTokenView::Mod => Some(OperatorView::Mod),
        LexTokenView::Expo => Some(OperatorView::Expo),
        LexTokenView::BitOr => Some(OperatorView::BitOr),
        LexTokenView::BitAnd => Some(OperatorView::BitAnd),
        LexTokenView::BitXor(width) => Some(OperatorView::BitXor(width)),
        LexTokenView::LeftShift => Some(OperatorView::LeftShift),
        LexTokenView::RightShift => Some(OperatorView::RightShift),
        _ => None,
    }
}

/// The operator that a token stands for in front of an operand.
pub open spec fn prefix_operator(t: LexTokenView) -> Option<OperatorView> {
    match t {
        LexTokenView::Minus => Some(OperatorView::Negate),
        LexTokenView::Plus => Some(OperatorView::Postive),
        LexTokenView::BitNot(width) => Some(OperatorView::BitNot(width)),
        _ => None,
    }
}

/// The operand that a literal token stands for.
pub open spec fn literal(t: LexTokenView) -> Option<OperandView> {
    match t {
        LexTokenView::Integer(i) => Some(OperandView::Integer(i)),
        LexTokenView::Float(f) => Some(OperandView::Float(f)),
        LexTokenView::String(s) => Some(OperandView::String(s)),
        _ => None,
    }
}

/// The position of the parenthesis that closes an argument list, counted from
/// `from` at nesting depth `depth`.
pub open spec fn closing(input: Seq<LexTokenView>, from: nat, depth: nat) -> Option<nat>
    decreases input.len() - from,
{
    if from >= input.len() {
        None
    } else {
        match input[from as int] {
            LexTokenView::CloseParenthesis => if depth == 0 {
                Some(from)
            } else {
                closing(input, from + 1, (depth - 1) as nat)
            },
            LexTokenView::OpenParenthesis => closing(input, from + 1, depth + 1),
            _ => closing(input, from + 1, depth),
        }
    }
}

/// The position of the first comma at or after `from` that no parenthesis
/// encloses, or the length of the input if there is none.
pub open spec fn boundary(input: Seq<LexTokenView>, from: nat, depth: nat) -> nat
    decreases input.len() - from,
{
    if from >= input.len() {
        input.len()
    } else {
        match input[from as int] {
            LexTokenView::Comma => if depth == 0 {
                from
            } else {
                boundary(input, from + 1, depth)
            },
            LexTokenView::OpenParenthesis => boundary(input, from + 1, depth + 1),
            LexTokenView::CloseParenthesis => boundary(
                input,
                from + 1,
                if depth == 0 {
                    0
                } else {
                    (depth - 1) as nat
                },
            ),
            _ => boundary(input, from + 1, depth),
        }
    }
}

/// The parse of one (sub)expression from the front of `input`. It starts, and
/// is again after every operator, in the state in which an operand is due;
/// after an operand an operator is due, or the end.
pub open spec fn expression(input: Seq<LexTokenView>, operand_due: bool) -> Parsed
    decreases input.len(), 0nat,
{
    if input.len() == 0 {
        Parsed {
            result: if operand_due {
                Err(ErrorView::UnexpectedEnd)
            } else {
                Ok(Seq::empty())
            },
            rest: input,
        }
    } else {
        let t = input.first();
        let tail = input.drop_first();
        if !operand_due {
            if t == LexTokenView::CloseParenthesis {
                Parsed { result: Ok(Seq::empty()), rest: tail }
            } else {
                match infix_operator(t) {
                    Some(op) => expression(tail, true).after(seq![ExprTokenView::Operator(op)]),
                    None => Parsed { result: Err(ErrorView::ExpectOperator(t)), rest: tail },
                }
            }
        } else if literal(t) is Some {
            expression(tail, false).after(seq![ExprTokenView::Operand(literal(t)->0)])
        } else if prefix_operator(t) is Some {
            expression(tail, true).after(seq![ExprTokenView::Operator(prefix_operator(t)->0)])
        } else {
            match t {
                LexTokenView::OpenParenthesis => {
                    let inner = expression(tail, true);
                    match inner.result {
                        Ok(sub) if inner.rest.len() <= tail.len() => expression(
                            inner.rest,
                            false,
                        ).after(
                            seq![ExprTokenView::Operator(OperatorView::OpenParenthesis)] + sub
                                + seq![ExprTokenView::Operator(OperatorView::CloseParenthesis)],
                        ),
                        _ => inner,
                    }
                },
                LexTokenView::Custom(name) => {
                    let args = arguments(tail);
                    match args.result {
                        Ok(sub) if args.rest.len() <= tail.len() => expression(
                            args.rest,
                            false,
                        ).after(seq![ExprTokenView::Operator(OperatorView::Custom(name))] + sub),
                        _ => args,
                    }
                },
                _ => Parsed { result: Err(ErrorView::ExpectOperand(t)), rest: tail },
            }
        }
    }
}

/// The parse of the argument list that follows a function's name: an opening
/// parenthesis, the arguments, and the parenthesis that closes the list.
pub open spec fn arguments(input: Seq<LexTokenView>) -> Parsed
    decreases input.len(), 0nat,
{
    if input.len() == 0 {
        Parsed { result: Err(ErrorView::UnexpectedEnd), rest: input }
    } else if input.first() != LexTokenView::OpenParenthesis {
        Parsed {
            result: Err(ErrorView::ExpectToken(LexTokenView::OpenParenthesis, input.first())),
            rest: input.drop_first(),
        }
    } else {
        let tail = input.drop_first();
        match closing(tail, 0, 0) {
            Some(end) if end < tail.len() => Parsed {
                result: segments(tail.take(end as int), 0),
                rest: tail.skip(end as int + 1),
            },
            _ => Parsed { result: Err(ErrorView::UnexpectedEnd), rest: Seq::empty() },
        }
    }
}

/// The parses of the arguments from position `start` of the list's inside,
/// one after the other: each argument reaches up to the next comma that no
/// parenthesis encloses, and is an expression of its own.
pub open spec fn segments(inside: Seq<LexTokenView>, start: nat) -> Result<
    Seq<ExprTokenView>,
    ErrorView,
>
    decreases inside.len() + 1, inside.len() - start,
{
    let end = boundary(inside, start, 0);
    if start <= end <= inside.len() {
        match expression(inside.subrange(start as int, end as int), true).result {
            Err(e) => Err(e),
            Ok(sub) => if end == inside.len() {
                Ok(sub)
            } else {
                match segments(inside, end + 1) {
                    Err(e) => Err(e),
                    Ok(more) => Ok(sub + more),
                }
            },
        }
    } else {
        Ok(Seq::empty())
    }
}

impl Operator {
    /// The operator that a token stands for between two operands; any other
    /// token is refused.
    pub fn from_token(value: LexToken) -> (r: Result<Operator, Error>)
        ensures
            match infix_operator(value@) {
                Some(op) => r is Ok && r->Ok_0@ == op,
                None => r is Err && r->Err_0@ == ErrorView::ExpectOperator(value@),
            },
    {
        match value {
            LexToken::BitAnd => Ok(Operator::BitAnd),
            LexToken::BitOr => Ok(Operator::BitOr),
            LexToken::BitXor(w) => Ok(Operator::BitXor(w)),
            LexToken::Div => Ok(Operator::Div),
            LexToken::Expo => Ok(Operator::Expo),
            LexToken::LeftShift => Ok(Operator::LeftShift),
            LexToken::Minus => Ok(Operator::Minus),
            LexToken::Mod => Ok(Operator::Mod),
            LexToken::Mul => Ok(Operator::Mul),
            LexToken::Plus => Ok(Operator::Add),
            LexToken::RightShift => Ok(Operator::RightShift),
            _ => Err(Error::ExpectOperator(value)),
        }
    }
}

/// Whether what a parser returned, and where it left the cursor, is the
/// given parse.
pub open spec fn parses(p: Parsed, r: Result<Vec<ExprToken>, Error>, rest: Seq<LexTokenView>)
    -> bool {
    match p.result {
        Ok(infix) => r is Ok && tokens(r->Ok_0@) == infix && rest == p.rest,
        Err(e) => r is Err && r->Err_0@ == e,
    }
}

/// Emitting in front of what has been emitted in front is emitting both in
/// front.
pub proof fn lemma_after_after(p: Parsed, inner: Seq<ExprTokenView>, outer: Seq<ExprTokenView>)
    ensures
        p.after(inner).after(outer) == p.after(outer + inner),
{
    match p.result {
        Ok(more) => {
            assert(outer + (inner + more) =~= (outer + inner) + more);
        },
        Err(_) => {},
    }
}

/// Appends one token to the list that a parser builds.
fn emit(list: &mut Vec<ExprToken>, token: ExprToken)
    ensures
        final(list)@ == old(list)@.push(token),
        tokens(final(list)@) == tokens(old(list)@) + seq![token@],
{
    list.push(token);
}

/// Appends the tokens of a sub-expression to the list that a parser builds.
fn emit_all(list: &mut Vec<ExprToken>, part: Vec<ExprToken>)
    ensures
        tokens(final(list)@) == tokens(old(list)@) + tokens(part@),
{
    let mut part = part;
    list.append(&mut part);
}

/// Parses one (sub)expression: up to the end of the tokens, or up to and
/// including the closing parenthesis that ends it. The cursor is left behind
/// what was read.
///
/// Nested parentheses and calls are parsed by recursion, as deep as the input
/// nests them.
pub fn parse_expr(cursor: &mut LexTokenIter) -> (r: Result<Vec<ExprToken>, Error>)
    ensures
        parses(expression(old(cursor).remaining(), true), r, final(cursor).remaining()),
        final(cursor).remaining().len() <= old(cursor).remaining().len(),
    decreases old(cursor).remaining().len(), 1nat,
{
    let mut operand_due = true;
    let mut ret_list: Vec<ExprToken> = Vec::new();
    let ghost start = cursor.remaining();
    loop
        invariant
            expression(start, true) == expression(cursor.remaining(), operand_due).after(
                tokens(ret_list@),
            ),
            cursor.remaining().len() <= start.len(),
            start == old(cursor).remaining(),
        ensures
            cursor.remaining().len() == 0,
        decreases cursor.remaining().len(),
    {
        let ghost emitted = tokens(ret_list@);
        let token = match cursor.next() {
            Some(t) => t,
            None => {
                break ;
            },
        };
        let ghost tail = cursor.remaining();
        if !operand_due {
            if let LexToken::CloseParenthesis = token {
                return Ok(ret_list);
            }
            let op = Operator::from_token(token)?;
            proof {
                lemma_after_after(
                    expression(tail, true),
                    seq![ExprTokenView::Operator(op@)],
                    emitted,
                );
            }
            emit(&mut ret_list, ExprToken::Operator(op));
            operand_due = true;
        } else {
            match token {
                LexToken::Float(f) => {
                    proof {
                        lemma_after_after(
                            expression(tail, false),
                            seq![ExprTokenView::Operand(OperandView::Float(f))],
                            emitted,
                        );
                    }
                    emit(&mut ret_list, ExprToken::Operand(Operand::Float(f)));
                    operand_due = false;
                },
                LexToken::Integer(i) => {
                    proof {
                        lemma_after_after(
                            expression(tail, false),
                            seq![ExprTokenView::Operand(OperandView::Integer(i))],
                            emitted,
                        );
                    }
                    emit(&mut ret_list, ExprToken::Operand(Operand::Integer(i)));
                    operand_due = false;
                },
                LexToken::String(s) => {
                    proof {
                        lemma_after_after(
                            expression(tail, false),
                            seq![ExprTokenView::Operand(OperandView::String(s@))],
                            emitted,
                        );
                    }
                    emit(&mut ret_list, ExprToken::Operand(Operand::String(s)));
                    operand_due = false;
                },
                LexToken::Minus => {
                    proof {
                        lemma_after_after(
                            expression(tail, true),
                            seq![ExprTokenView::Operator(OperatorView::Negate)],
                            emitted,
                        );
                    }
                    emit(&mut ret_list, ExprToken::Operator(Operator::Negate));
                },
                LexToken::Plus => {
                    proof {
                        lemma_after_after(
                            expression(tail, true),
                            seq![ExprTokenView::Operator(OperatorView::Postive)],
                            emitted,
                        );
                    }
                    emit(&mut ret_list, ExprToken::Operator(Operator::Postive));
                },
                LexToken::BitNot(width) => {
                    proof {
                        lemma_after_after(
                            expression(tail, true),
                            seq![ExprTokenView::Operator(OperatorView::BitNot(width))],
                            emitted,
                        );
                    }
                    emit(&mut ret_list, ExprToken::Operator(Operator::BitNot(width)));
                },
                LexToken::OpenParenthesis => {
                    emit(&mut ret_list, ExprToken::Operator(Operator::OpenParenthesis));
                    let sub = parse_expr(cursor)?;
                    proof {
                        lemma_after_after(
                            expression(cursor.remaining(), false),
                            seq![ExprTokenView::Operator(OperatorView::OpenParenthesis)] + tokens(
                                sub@,
                            ) + seq![ExprTokenView::Operator(OperatorView::CloseParenthesis)],
                            emitted,
                        );
                    }
                    emit_all(&mut ret_list, sub);
                    emit(&mut ret_list, ExprToken::Operator(Operator::CloseParenthesis));
                    assert(tokens(ret_list@) =~= emitted + (seq![
                        ExprTokenView::Operator(OperatorView::OpenParenthesis),
                    ] + tokens(sub@) + seq![
                        ExprTokenView::Operator(OperatorView::CloseParenthesis),
                    ]));
                    operand_due = false;
                },
                LexToken::Custom(id) => {
                    let ghost name = id@;
                    emit(&mut ret_list, ExprToken::Operator(Operator::Custom(id)));
                    let sub = parse_para(cursor)?;
                    proof {
                        lemma_after_after(
                            expression(cursor.remaining(), false),
                            seq![ExprTokenView::Operator(OperatorView::Custom(name))] + tokens(
                                sub@,
                            ),
                            emitted,
                        );
                    }
                    emit_all(&mut ret_list, sub);
                    assert(tokens(ret_list@) =~= emitted + (seq![
                        ExprTokenView::Operator(OperatorView::Custom(name)),
                    ] + tokens(sub@)));
                    operand_due = false;
                },
                _ => {
                    return Err(Error::ExpectOperand(token));
                },
            }
        }
    }
    if operand_due {
        return Err(Error::UnexpectedEnd);
    }
    Ok(ret_list)
}

/// Parses the argument list that follows a function's name, from its opening
/// parenthesis up to and including the parenthesis that closes it. The
/// arguments are parsed one by one and their tokens put one after the other.
pub fn parse_para(cursor: &mut LexTokenIter) -> (r: Result<Vec<ExprToken>, Error>)
    ensures
        parses(arguments(old(cursor).remaining()), r, final(cursor).remaining()),
        final(cursor).remaining().len() <= old(cursor).remaining().len(),
    decreases old(cursor).remaining().len(), 0nat,
{
    let ghost input = cursor.remaining();
    let inner = cursor.inner;
    if cursor.idx >= inner.len() {
        return Err(Error::UnexpectedEnd);
    }
    match &inner[cursor.idx] {
        LexToken::OpenParenthesis => {},
        other => {
            return Err(Error::ExpectToken(LexToken::OpenParenthesis, other.duplicate()));
        },
    }
    let start = cursor.idx + 1;
    let ghost tail = lexemes(inner@.skip(start as int));
    let mut at: usize = start;
    let mut depth: usize = 0;
    loop
        invariant
            start <= at <= inner@.len() <= usize::MAX,
            depth <= at - start,
            tail == lexemes(inner@.skip(start as int)),
            closing(tail, 0, 0) == closing(tail, (at - start) as nat, depth as nat),
            cursor.remaining() == input,
            input == old(cursor).remaining(),
            input.len() > 0,
            input.first() == LexTokenView::OpenParenthesis,
            tail == input.drop_first(),
        ensures
            at < inner@.len(),
            closing(tail, 0, 0) == Some((at - start) as nat),
        decreases inner@.len() - at,
    {
        if at >= inner.len() {
            return Err(Error::UnexpectedEnd);
        }
        match &inner[at] {
            LexToken::CloseParenthesis => {
                if depth == 0 {
                    break ;
                }
                depth = depth - 1;
            },
            LexToken::OpenParenthesis => {
                depth = depth + 1;
            },
            _ => {},
        }
        at = at + 1;
    }
    cursor.idx = at + 1;
    let inside = slice_subrange(inner, start, at);
    let ghost within = tail.take(at - start);
    assert(cursor.remaining() =~= tail.skip(at - start + 1));
    let mut ret_list: Vec<ExprToken> = Vec::new();
    let mut from: usize = 0;
    loop
        invariant_except_break
            segments(within, 0) == match segments(within, from as nat) {
                Ok(more) => Ok(tokens(ret_list@) + more),
                Err(e) => Err(e),
            },
        invariant
            from <= inside@.len(),
            lexemes(inside@) == within,
            within.len() + 2 <= input.len(),
            input == old(cursor).remaining(),
            cursor.remaining().len() <= input.len(),
            arguments(input) == (Parsed {
                result: segments(within, 0),
                rest: cursor.remaining(),
            }),
        ensures
            segments(within, 0) == Ok::<Seq<ExprTokenView>, ErrorView>(tokens(ret_list@)),
        decreases inside@.len() - from,
    {
        let mut to: usize = from;
        let mut nesting: usize = 0;
        while to < inside.len() && !(nesting == 0 && is_comma(&inside[to]))
            invariant
                from <= to <= inside@.len(),
                nesting <= to - from,
                lexemes(inside@) == within,
                boundary(within, from as nat, 0) == boundary(within, to as nat, nesting as nat),
            decreases inside@.len() - to,
        {
            match &inside[to] {
                LexToken::OpenParenthesis => {
                    nesting = nesting + 1;
                },
                LexToken::CloseParenthesis => {
                    if nesting > 0 {
                        nesting = nesting - 1;
                    }
                },
                _ => {},
            }
            to = to + 1;
        }
        let piece = slice_subrange(inside, from, to);
        assert(lexemes(piece@) =~= within.subrange(from as int, to as int));
        let mut sub = LexTokenIter::new(piece);
        let ghost emitted = tokens(ret_list@);
        let part = parse_expr(&mut sub)?;
        emit_all(&mut ret_list, part);
        if to == inside.len() {
            break ;
        }
        proof {
            match segments(within, (to + 1) as nat) {
                Ok(more) => {
                    assert(emitted + (tokens(part@) + more) =~= (emitted + tokens(part@)) + more);
                },
                Err(_) => {},
            }
        }
        from = to + 1;
    }
    Ok(ret_list)
}

/// Whether the token is a comma.
fn is_comma(token: &LexToken) -> (r: bool)
    ensures
        r == (token@ == LexTokenView::Comma),
{
    match token {
        LexToken::Comma => true,
        _ => false,
    }
}

} // verus!
