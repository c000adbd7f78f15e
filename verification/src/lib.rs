//! An expression calculator: text is split into tokens, the tokens are parsed
//! into an infix sequence, the infix sequence is rewritten into postfix order
//! and the postfix sequence is run on an operand stack.
//!
//! Integers are 128-bit and signed. A floating-point operand is carried as the
//! bit pattern of an IEEE 754 binary64 value; the arithmetic on such patterns
//! is supplied by the caller through [`float::FloatUnit`].
use vstd::prelude::*;
use crate::expr::handler::{
    default_action, default_handlers, failed, lookup, push_operand, status, values, Effect,
    OperatorAction, OperatorHandler,
};
use crate::expr::operand::{outcome, Operand, OperandType, OperandView};
use crate::expr::operator::{Operator, OperatorView};
use crate::expr::parse::{expression, parse_expr, LexTokenIter};
use crate::expr::{suffix_of, to_suffix, tokens, ExprToken, ExprTokenView};
use crate::float::FloatUnit;
use crate::lex::{agrees, float_free, lexemes, refuses_float, tokenize, LexToken, LexTokenView};
use crate::scan::{scan, Piece, Scan};

pub mod custom_fn;
pub mod display;
pub mod expr;
pub mod float;
pub mod interactive;
pub mod laws;
pub mod lex;
pub mod pre_processor;
pub mod scan;
pub mod text;
pub mod value;

verus! {

/// The integer type of the calculator.
pub type Integer = i128;

/// A binary64 value, held as its bit pattern.
pub type Float = u64;

/// Why an expression has no value.
#[derive(Debug, PartialEq, Clone)]
pub enum Error {
    InvalidToken,
    /// An integer literal that does not fit the integer type; holds its text.
    ParseIntError(String),
    /// A literal in the shape of a floating-point number that is none; holds
    /// its text.
    ParseFloatError(String),
    InvalidBitWidthHint(String),
    NotEnoughOperand,
    NoMatchingHandler { op: Operator },
    RedundantOperand(usize),
    InvalidDataType { expected: Vec<OperandType>, got: OperandType },
    Custom(String),
    ExpectOperator(LexToken),
    ExpectOperand(LexToken),
    ExpectToken(LexToken, LexToken),
    UnexpectedEnd,
}

/// The mathematical value of an [`Error`].
pub ghost enum ErrorView {
    InvalidToken,
    ParseIntError(Seq<char>),
    ParseFloatError(Seq<char>),
    InvalidBitWidthHint(Seq<char>),
    NotEnoughOperand,
    NoMatchingHandler { op: OperatorView },
    RedundantOperand(usize),
    InvalidDataType { expected: Seq<OperandType>, got: OperandType },
    Custom(Seq<char>),
    ExpectOperator(LexTokenView),
    ExpectOperand(LexTokenView),
    ExpectToken(LexTokenView, LexTokenView),
    UnexpectedEnd,
}

impl View for Error {
    type V = ErrorView;

    open spec fn view(&self) -> ErrorView {
        match self {
            Error::InvalidToken => ErrorView::InvalidToken,
            Error::ParseIntError(s) => ErrorView::ParseIntError(s@),
            Error::ParseFloatError(s) => ErrorView::ParseFloatError(s@),
            Error::InvalidBitWidthHint(s) => ErrorView::InvalidBitWidthHint(s@),
            Error::NotEnoughOperand => ErrorView::NotEnoughOperand,
            Error::NoMatchingHandler { op } => ErrorView::NoMatchingHandler { op: op@ },
            Error::RedundantOperand(n) => ErrorView::RedundantOperand(*n),
            Error::InvalidDataType { expected, got } => ErrorView::InvalidDataType {
                expected: expected@,
                got: *got,
            },
            Error::Custom(s) => ErrorView::Custom(s@),
            Error::ExpectOperator(t) => ErrorView::ExpectOperator(t@),
            Error::ExpectOperand(t) => ErrorView::ExpectOperand(t@),
            Error::ExpectToken(want, got) => ErrorView::ExpectToken(want@, got@),
            Error::UnexpectedEnd => ErrorView::UnexpectedEnd,
        }
    }
}

/// The error that stands for a lexing error in the evaluator's vocabulary.
pub open spec fn lifted(e: lex::ErrorView) -> ErrorView {
    match e {
        lex::ErrorView::ParseIntError(s) => ErrorView::ParseIntError(s),
        lex::ErrorView::ParseFloatError(s) => ErrorView::ParseFloatError(s),
        lex::ErrorView::InvalidBitWidthHint(s) => ErrorView::InvalidBitWidthHint(s),
        lex::ErrorView::Invalid => ErrorView::InvalidToken,
    }
}

impl Default for Error {
    fn default() -> (r: Error)
        ensures
            r == Error::InvalidToken,
    {
        Error::InvalidToken
    }
}

impl Error {
    /// Takes a lexing error over into the evaluator's vocabulary.
    pub fn from_lex(e: lex::Error) -> (r: Error)
        ensures
            r@ == lifted(e@),
    {
        match e {
            lex::Error::ParseIntError(s) => Error::ParseIntError(s),
            lex::Error::ParseFloatError(s) => Error::ParseFloatError(s),
            lex::Error::InvalidBitWidthHint(s) => Error::InvalidBitWidthHint(s),
            lex::Error::Invalid => Error::InvalidToken,
        }
    }
}

/// Replacing the last entry of a key leaves every other key as it was.
proof fn lemma_lookup_update<H>(
    table: Seq<(Operator, OperatorAction<H>)>,
    i: int,
    entry: (Operator, OperatorAction<H>),
)
    requires
        0 <= i < table.len(),
        table[i].0@ == entry.0@,
        forall|j: int| i < j < table.len() ==> (#[trigger] table[j]).0@ != entry.0@,
    ensures
        forall|k: OperatorView| #[trigger]
            lookup(table.update(i, entry), k) == (if k == entry.0@ {
                Some(entry.1)
            } else {
                lookup(table, k)
            }),
    decreases table.len(),
{
    let updated = table.update(i, entry);
    if i == table.len() - 1 {
        assert(updated.drop_last() =~= table.drop_last());
    } else {
        assert(updated.drop_last() =~= table.drop_last().update(i, entry));
        lemma_lookup_update(table.drop_last(), i, entry);
        assert forall|k: OperatorView| #[trigger]
            lookup(updated, k) == (if k == entry.0@ {
                Some(entry.1)
            } else {
                lookup(table, k)
            }) by {
            assert(lookup(updated.drop_last(), k) == lookup(
                table.drop_last().update(i, entry),
                k,
            ));
        }
    }
}

/// A key that no entry has is not in the table.
proof fn lemma_lookup_absent<H>(table: Seq<(Operator, OperatorAction<H>)>, op: OperatorView)
    requires
        forall|j: int| 0 <= j < table.len() ==> (#[trigger] table[j]).0@ != op,
    ensures
        lookup(table, op) is None,
    decreases table.len(),
{
    if table.len() > 0 {
        lemma_lookup_absent(table.drop_last(), op);
    }
}

/// The last entry of a key is what the table holds for it.
proof fn lemma_lookup_found<H>(table: Seq<(Operator, OperatorAction<H>)>, i: int)
    requires
        0 <= i < table.len(),
        forall|j: int| i < j < table.len() ==> (#[trigger] table[j]).0@ != table[i].0@,
    ensures
        lookup(table, table[i].0@) == Some(table[i].1),
    decreases table.len(),
{
    if i < table.len() - 1 {
        lemma_lookup_found(table.drop_last(), i);
    }
}

/// What a step that the calculator does not compute itself came to.
pub ghost enum Outcome {
    /// The floating-point number that arithmetic came to.
    Float(u64),
    /// What a handler of the caller left behind: the stack, and whether it
    /// succeeded.
    Handler(Effect),
}

/// The one operand that a run leaves, or its error.
pub open spec fn finished(run: Result<Seq<OperandView>, ErrorView>) -> Result<
    OperandView,
    ErrorView,
> {
    match run {
        Err(e) => Err(e),
        Ok(stack) => if stack.len() == 1 {
            Ok(stack[0])
        } else {
            Err(ErrorView::RedundantOperand(stack.len() as usize))
        },
    }
}

/// The handlers by operator, and the unit that computes on floating-point
/// numbers.
pub struct Evaluator<F, H> {
    operators: Vec<(Operator, OperatorAction<H>)>,
    unit: F,
}

impl<F: FloatUnit, H: OperatorHandler> Evaluator<F, H> {
    /// The handler that is registered for an operator.
    pub closed spec fn handler(&self, op: OperatorView) -> Option<OperatorAction<H>> {
        lookup(self.operators@, op)
    }

    /// What an operator does to a stack, and the outcomes that are left for
    /// the steps behind it, where the steps that are computed outside come to
    /// `outcomes`, in their order. `None` where the first outcome is missing or
    /// of the wrong kind.
    pub open spec fn step_given(
        &self,
        op: OperatorView,
        stack: Seq<OperandView>,
        outcomes: Seq<Outcome>,
    ) -> Option<(Effect, Seq<Outcome>)> {
        match self.handler(op) {
            None => Some((failed(stack, ErrorView::NoMatchingHandler { op }), outcomes)),
            Some(OperatorAction::Builtin(kind)) => match kind.effect(stack) {
                Some(effect) => Some((effect, outcomes)),
                None => if outcomes.len() > 0 && outcomes.first() is Float {
                    Some((kind.effect_given(stack, outcomes.first()->Float_0), outcomes.drop_first()))
                } else {
                    None
                },
            },
            Some(OperatorAction::External(_)) => if outcomes.len() > 0
                && outcomes.first() is Handler {
                Some((outcomes.first()->Handler_0, outcomes.drop_first()))
            } else {
                None
            },
        }
    }

    /// The stack after a postfix sequence has run on `stack`, or the first
    /// error, and the outcomes that are left, where the steps that are
    /// computed outside come to `outcomes`, in their order. `None` where an
    /// outcome is missing or of the wrong kind.
    pub open spec fn trace_given(
        &self,
        expr: Seq<ExprTokenView>,
        stack: Seq<OperandView>,
        outcomes: Seq<Outcome>,
    ) -> Option<(Result<Seq<OperandView>, ErrorView>, Seq<Outcome>)>
        decreases expr.len(),
    {
        if expr.len() == 0 {
            Some((Ok(stack), outcomes))
        } else {
            match expr.first() {
                ExprTokenView::Operand(o) => self.trace_given(
                    expr.drop_first(),
                    stack.push(o),
                    outcomes,
                ),
                ExprTokenView::Operator(op) => match self.step_given(op, stack, outcomes) {
                    None => None,
                    Some((effect, left)) => match effect.result {
                        Ok(_) => self.trace_given(expr.drop_first(), effect.stack, left),
                        Err(e) => Some((Err(e), left)),
                    },
                },
            }
        }
    }

    /// The stack after a postfix sequence has run on `stack`, or the first
    /// error, where the steps that are computed outside come to `outcomes`.
    pub open spec fn run_given(
        &self,
        expr: Seq<ExprTokenView>,
        stack: Seq<OperandView>,
        outcomes: Seq<Outcome>,
    ) -> Option<Result<Seq<OperandView>, ErrorView>> {
        match self.trace_given(expr, stack, outcomes) {
            None => None,
            Some((run, _)) => Some(run),
        }
    }

    /// The stack after a postfix sequence has run on `stack`, or the first
    /// error, where no step is computed outside the calculator; `None` where
    /// one is, by a handler of the caller or on floating-point numbers.
    pub open spec fn run(&self, expr: Seq<ExprTokenView>, stack: Seq<OperandView>) -> Option<
        Result<Seq<OperandView>, ErrorView>,
    > {
        self.run_given(expr, stack, Seq::empty())
    }

    /// The value of a postfix sequence where the steps that are computed
    /// outside come to `outcomes`.
    pub open spec fn value_given(&self, expr: Seq<ExprTokenView>, outcomes: Seq<Outcome>)
        -> Option<Result<OperandView, ErrorView>> {
        match self.run_given(expr, Seq::empty(), outcomes) {
            None => None,
            Some(run) => Some(finished(run)),
        }
    }

    /// The value of an expression that is given by its tokens, where the
    /// steps that are computed outside come to `outcomes`.
    pub open spec fn interpretation_given(
        &self,
        input: Seq<LexTokenView>,
        outcomes: Seq<Outcome>,
    ) -> Option<Result<OperandView, ErrorView>> {
        match expression(input, true).result {
            Err(e) => Some(Err(e)),
            Ok(infix) => self.value_given(suffix_of(infix), outcomes),
        }
    }

    /// The value of a postfix sequence: the one operand that is left when it
    /// has run on the empty stack.
    pub open spec fn value(&self, expr: Seq<ExprTokenView>) -> Option<
        Result<OperandView, ErrorView>,
    > {
        self.value_given(expr, Seq::empty())
    }

    /// The value of an expression that is given by its tokens, where no step
    /// is computed outside the calculator; `None` where one is.
    pub open spec fn interpretation(&self, input: Seq<LexTokenView>) -> Option<
        Result<OperandView, ErrorView>,
    > {
        self.interpretation_given(input, Seq::empty())
    }

    /// The value of an expression that is given as a text and holds no
    /// floating-point literal.
    pub open spec fn meaning(&self, text: Seq<char>) -> Option<Result<OperandView, ErrorView>> {
        let found = scan(text, 0);
        if !float_free(found.pieces) {
            None
        } else {
            match found.error {
                Some(e) => Some(Err(lifted(e))),
                None => self.interpretation(found.pieces.map_values(|p: Piece| p->Token_0)),
            }
        }
    }

    /// What `eval` returns for a text with the given pieces and error,
    /// whatever the values of its floating-point literals are: the error of
    /// the text, or the value of tokens that the pieces stand for.
    pub open spec fn admits(&self, found: Scan, r: Result<Operand, Error>) -> bool {
        ||| r is Err && found.error is Some && r->Err_0@ == lifted(found.error->0)
        ||| r is Err && exists|e: lex::ErrorView|
            refuses_float(found.pieces, e) && r->Err_0@ == lifted(e)
        ||| found.error is None && exists|input: Seq<LexTokenView>, outcomes: Seq<Outcome>|
            agrees(found.pieces, input) && #[trigger] self.interpretation_given(input, outcomes)
                == Some(outcome(r))
    }

    /// An evaluator with the default handlers.
    pub fn new(unit: F) -> (e: Self)
        ensures
            forall|op: OperatorView| #[trigger]
                e.handler(op) == match default_action(op) {
                    Some(kind) => Some(OperatorAction::<H>::Builtin(kind)),
                    None => None,
                },
    {
        Evaluator { operators: default_handlers(), unit }
    }

    /// The index of the last entry for an operator.
    fn find(&self, op: &Operator) -> (r: Option<usize>)
        ensures
            match r {
                Some(i) => i < self.operators@.len() && self.operators@[i as int].0@ == op@
                    && self.handler(op@) == Some(self.operators@[i as int].1),
                None => self.handler(op@) is None,
            },
            r is Some ==> forall|j: int|
                r->0 < j < self.operators@.len() ==> (#[trigger] self.operators@[j]).0@ != op@,
    {
        let mut i: usize = self.operators.len();
        while i > 0
            invariant
                i <= self.operators@.len(),
                forall|j: int|
                    i <= j < self.operators@.len() ==> (#[trigger] self.operators@[j]).0@ != op@,
            decreases i,
        {
            i = i - 1;
            if self.operators[i].0.same(op) {
                proof {
                    lemma_lookup_found(self.operators@, i as int);
                }
                return Some(i);
            }
        }
        proof {
            lemma_lookup_absent(self.operators@, op@);
        }
        None
    }

    /// Registers a handler for an operator, in place of the one that it had.
    pub fn insert_op_handler(&mut self, op: Operator, handler: OperatorAction<H>)
        ensures
            forall|k: OperatorView| #[trigger]
                final(self).handler(k) == (if k == op@ {
                    Some(handler)
                } else {
                    old(self).handler(k)
                }),
    {
        match self.find(&op) {
            Some(i) => {
                proof {
                    lemma_lookup_update(self.operators@, i as int, (op, handler));
                }
                self.operators.set(i, (op, handler));
            },
            None => {
                self.operators.push((op, handler));
                assert(self.operators@.drop_last() =~= old(self).operators@);
            },
        }
    }

    /// Runs a postfix sequence on an empty stack and returns the one operand
    /// that is left. The result is that of the stack machine, whatever the
    /// steps that are computed outside come to.
    pub fn consume_operators(&self, expr: &[ExprToken]) -> (r: Result<Operand, Error>)
        ensures
            exists|outcomes: Seq<Outcome>| #[trigger]
                self.value_given(tokens(expr@), outcomes) == Some(outcome(r)),
            self.value(tokens(expr@)) matches Some(v) ==> outcome(r) == v,
    {
        let mut operands: Vec<Operand> = Vec::new();
        let ghost full = tokens(expr@);
        let ghost empty = Seq::<OperandView>::empty();
        let ghost whole = self.run(full, empty);
        let ghost mut trace = Seq::<Outcome>::empty();
        assert(full.skip(0) =~= full);
        assert(values(operands@) =~= empty);
        assert forall|tail: Seq<Outcome>| #[trigger]
            self.run_given(full, empty, trace + tail) == self.run_given(
                full.skip(0),
                values(operands@),
                tail,
            ) by {
            assert(trace + tail =~= tail);
        }
        let mut i: usize = 0;
        while i < expr.len()
            invariant
                i <= expr.len(),
                full == tokens(expr@),
                empty == Seq::<OperandView>::empty(),
                whole == self.run(full, empty),
                whole is None || whole == self.run(full.skip(i as int), values(operands@)),
                forall|tail: Seq<Outcome>| #[trigger]
                    self.run_given(full, empty, trace + tail) == self.run_given(
                        full.skip(i as int),
                        values(operands@),
                        tail,
                    ),
            decreases expr.len() - i,
        {
            let ghost rest = full.skip(i as int);
            let ghost before = values(operands@);
            let ghost so_far = trace;
            assert(rest.drop_first() =~= full.skip(i + 1));
            assert(rest.first() == expr[i as int]@);
            let done = match &expr[i] {
                ExprToken::Operand(o) => {
                    push_operand(&mut operands, o.duplicate());
                    Ok(())
                },
                ExprToken::Operator(op) => {
                    match self.find(op) {
                        None => Err(Error::NoMatchingHandler { op: op.duplicate() }),
                        Some(j) => {
                            match &self.operators[j].1 {
                                OperatorAction::Builtin(kind) => {
                                    let r = kind.apply(&mut operands, &self.unit);
                                    proof {
                                        if kind.effect(before) is None {
                                            let x = values(operands@).last()->Float_0;
                                            assert(values(operands@) =~= kind.effect_given(
                                                before,
                                                x,
                                            ).stack);
                                            trace = trace.push(Outcome::Float(x));
                                        }
                                    }
                                    r
                                },
                                OperatorAction::External(h) => {
                                    let r = h.apply(&mut operands);
                                    proof {
                                        trace = trace.push(
                                            Outcome::Handler(
                                                Effect {
                                                    stack: values(operands@),
                                                    result: status(r),
                                                },
                                            ),
                                        );
                                    }
                                    r
                                },
                            }
                        },
                    }
                },
            };
            proof {
                assert forall|tail: Seq<Outcome>|
                    self.run_given(full, empty, #[trigger] (trace + tail)) == (match done {
                        Ok(_) => self.run_given(full.skip(i + 1), values(operands@), tail),
                        Err(e) => Some(Err(e@)),
                    }) by {
                    if trace == so_far {
                        assert(self.run_given(full, empty, so_far + tail) == self.run_given(
                            rest,
                            before,
                            tail,
                        ));
                    } else {
                        let used = seq![trace.last()] + tail;
                        assert(trace + tail =~= so_far + used);
                        assert(used.drop_first() =~= tail);
                        assert(self.run_given(full, empty, so_far + used) == self.run_given(
                            rest,
                            before,
                            used,
                        ));
                    }
                }
            }
            match done {
                Ok(_) => {},
                Err(e) => {
                    proof {
                        assert(trace + Seq::<Outcome>::empty() =~= trace);
                        assert(self.value_given(full, trace) == Some(
                            Err::<OperandView, ErrorView>(e@),
                        ));
                    }
                    return Err(e);
                },
            }
            i = i + 1;
        }
        proof {
            assert(trace + Seq::<Outcome>::empty() =~= trace);
            assert(self.value_given(full, trace) == Some(finished(Ok(values(operands@)))));
        }
        if operands.len() != 1 {
            return Err(Error::RedundantOperand(operands.len()));
        }
        match operands.pop() {
            Some(o) => Ok(o),
            None => Err(Error::NotEnoughOperand),
        }
    }

    /// Parses tokens, rewrites them into postfix order and runs them.
    pub fn eval_tokens(&self, input: &[LexToken]) -> (r: Result<Operand, Error>)
        ensures
            exists|outcomes: Seq<Outcome>| #[trigger]
                self.interpretation_given(lexemes(input@), outcomes) == Some(outcome(r)),
            self.interpretation(lexemes(input@)) matches Some(v) ==> outcome(r) == v,
    {
        let mut cursor = LexTokenIter::new(input);
        let expr_tokens = match parse_expr(&mut cursor) {
            Ok(list) => list,
            Err(e) => {
                assert(self.interpretation_given(lexemes(input@), Seq::empty()) == Some(
                    Err::<OperandView, ErrorView>(e@),
                ));
                return Err(e);
            },
        };
        let suffix = to_suffix(expr_tokens.as_slice());
        let r = self.consume_operators(suffix.as_slice());
        proof {
            let outcomes = choose|outcomes: Seq<Outcome>| #[trigger]
                self.value_given(tokens(suffix@), outcomes) == Some(outcome(r));
            assert(self.interpretation_given(lexemes(input@), outcomes) == Some(outcome(r)));
        }
        r
    }

    /// Evaluates an expression that is given as a text.
    pub fn eval(&self, formula: &str) -> (r: Result<Operand, Error>)
        ensures
            self.admits(scan(formula@, 0), r),
            self.meaning(formula@) matches Some(v) ==> outcome(r) == v,
    {
        let ghost found = scan(formula@, 0);
        match tokenize(formula, &self.unit) {
            Ok(list) => {
                let r = self.eval_tokens(list.as_slice());
                proof {
                    if float_free(found.pieces) {
                        assert(lexemes(list@) =~= found.pieces.map_values(|p: Piece| p->Token_0));
                    }
                    let outcomes = choose|outcomes: Seq<Outcome>| #[trigger]
                        self.interpretation_given(lexemes(list@), outcomes) == Some(outcome(r));
                    assert(agrees(found.pieces, lexemes(list@)) && self.interpretation_given(
                        lexemes(list@),
                        outcomes,
                    ) == Some(outcome(r)));
                }
                r
            },
            Err(e) => Err(Error::from_lex(e)),
        }
    }
}

} // verus!
