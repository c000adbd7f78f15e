//! Expressions as sequences of operands and operators: the parser that reads
//! them from tokens and the rewriter that puts them into postfix order.
use vstd::prelude::*;
use crate::expr::operand::{Operand, OperandView};
use crate::expr::operator::{Operator, OperatorView};

pub mod arith;
pub mod bytes;
pub mod grammar;
pub mod handler;
pub mod operand;
pub mod operator;
pub mod parse;
pub mod tree;

verus! {

/// The unit that the parser, the rewriter and the evaluator exchange.
#[derive(Debug, Clone)]
pub enum ExprToken {
    Operator(Operator),
    Operand(Operand),
}

/// The mathematical value of an [`ExprToken`].
pub ghost enum ExprTokenView {
    Operator(OperatorView),
    Operand(OperandView),
}

impl View for ExprToken {
    type V = ExprTokenView;

    open spec fn view(&self) -> ExprTokenView {
        match self {
            ExprToken::Operator(op) => ExprTokenView::Operator(op@),
            ExprToken::Operand(o) => ExprTokenView::Operand(o@),
        }
    }
}

impl ExprToken {
    /// A copy of the token.
    pub fn duplicate(&self) -> (r: ExprToken)
        ensures
            r == *self,
    {
        match self {
            ExprToken::Operator(op) => ExprToken::Operator(op.duplicate()),
            ExprToken::Operand(o) => ExprToken::Operand(o.duplicate()),
        }
    }
}

/// A sequence of tokens as a sequence of their values.
pub open spec fn tokens(s: Seq<ExprToken>) -> Seq<ExprTokenView> {
    s.map_values(|t: ExprToken| t@)
}

/// A stack of operators as a sequence of their values, the top last.
pub open spec fn operators(s: Seq<Operator>) -> Seq<OperatorView> {
    s.map_values(|op: Operator| op@)
}

/// The state of the rewriter: what has been put out, and the operators that
/// wait, the top last.
pub ghost struct Shunt {
    pub output: Seq<ExprTokenView>,
    pub stack: Seq<OperatorView>,
}

impl Shunt {
    /// The state in front of the first token.
    pub open spec fn start() -> Shunt {
        Shunt { output: Seq::empty(), stack: Seq::empty() }
    }

    /// Moves the top operator to the output.
    pub open spec fn pop(self) -> Shunt
        recommends
            self.stack.len() > 0,
    {
        Shunt {
            output: self.output.push(ExprTokenView::Operator(self.stack.last())),
            stack: self.stack.drop_last(),
        }
    }

    /// A closing parenthesis: the operators down to the nearest opening
    /// parenthesis go to the output, and that parenthesis is dropped.
    pub open spec fn close(self) -> Shunt
        decreases self.stack.len(),
    {
        if self.stack.len() == 0 {
            self
        } else if self.stack.last() == OperatorView::OpenParenthesis {
            Shunt { output: self.output, stack: self.stack.drop_last() }
        } else {
            self.pop().close()
        }
    }

    /// Before an operator of rank `rank` is pushed, the operators on top that
    /// bind as tight or tighter go to the output; a prefix operator moves none.
    pub open spec fn give_way(self, rank: nat) -> Shunt
        decreases self.stack.len(),
    {
        if self.stack.len() == 0 || rank == 0 || self.stack.last().precedence() > rank {
            self
        } else {
            self.pop().give_way(rank)
        }
    }

    /// The state after one more token.
    pub open spec fn step(self, token: ExprTokenView) -> Shunt {
        match token {
            ExprTokenView::Operand(_) => Shunt {
                output: self.output.push(token),
                stack: self.stack,
            },
            ExprTokenView::Operator(op) => if op == OperatorView::CloseParenthesis {
                self.close()
            } else if op == OperatorView::OpenParenthesis {
                Shunt { output: self.output, stack: self.stack.push(op) }
            } else {
                let cleared = self.give_way(op.precedence());
                Shunt { output: cleared.output, stack: cleared.stack.push(op) }
            },
        }
    }

    /// The state after a sequence of tokens.
    pub open spec fn run(self, input: Seq<ExprTokenView>) -> Shunt
        decreases input.len(),
    {
        if input.len() == 0 {
            self
        } else {
            self.step(input.first()).run(input.drop_first())
        }
    }

    /// At the end of the input every waiting operator goes to the output, the
    /// top first.
    pub open spec fn flush(self) -> Seq<ExprTokenView>
        decreases self.stack.len(),
    {
        if self.stack.len() == 0 {
            self.output
        } else {
            self.pop().flush()
        }
    }
}

/// The postfix order of an infix sequence.
pub open spec fn suffix_of(infix: Seq<ExprTokenView>) -> Seq<ExprTokenView> {
    Shunt::start().run(infix).flush()
}

/// Whether the lists that the rewriter works on stand for the given state.
pub open spec fn stands_for(list: Seq<ExprToken>, op_stack: Seq<Operator>, state: Shunt) -> bool {
    tokens(list) == state.output && operators(op_stack) == state.stack
}

/// Rewrites an infix sequence into postfix order, in which every operator
/// follows its operands.
pub fn to_suffix(src: &[ExprToken]) -> (list: Vec<ExprToken>)
    ensures
        tokens(list@) == suffix_of(tokens(src@)),
{
    let mut list: Vec<ExprToken> = Vec::with_capacity(src.len());
    let mut op_stack: Vec<Operator> = Vec::new();
    let ghost mut state = Shunt::start();
    assert(tokens(list@) =~= state.output && operators(op_stack@) =~= state.stack);
    assert(tokens(src@).skip(0) =~= tokens(src@));
    let mut i: usize = 0;
    while i < src.len()
        invariant
            i <= src.len(),
            stands_for(list@, op_stack@, state),
            state.run(tokens(src@).skip(i as int)) == Shunt::start().run(tokens(src@)),
        decreases src.len() - i,
    {
        let ghost rest = tokens(src@).skip(i as int);
        assert(rest.drop_first() =~= tokens(src@).skip(i + 1));
        let ghost next = state.step(src[i as int]@);
        match &src[i] {
            ExprToken::Operand(o) => {
                list.push(ExprToken::Operand(o.duplicate()));
                assert(tokens(list@) =~= next.output);
            },
            ExprToken::Operator(op) => {
                if op.same(&Operator::CloseParenthesis) {
                    let ghost mut cur = state;
                    loop
                        invariant_except_break
                            stands_for(list@, op_stack@, cur),
                            cur.close() == state.close(),
                        ensures
                            stands_for(list@, op_stack@, state.close()),
                        decreases op_stack.len(),
                    {
                        match op_stack.pop() {
                            Some(top) => {
                                assert(operators(op_stack@) =~= cur.stack.drop_last());
                                if top.same(&Operator::OpenParenthesis) {
                                    break ;
                                } else {
                                    list.push(ExprToken::Operator(top));
                                    proof {
                                        cur = cur.pop();
                                    }
                                    assert(tokens(list@) =~= cur.output);
                                }
                            },
                            None => {
                                break ;
                            },
                        }
                    }
                } else if op.same(&Operator::OpenParenthesis) {
                    op_stack.push(op.duplicate());
                    assert(operators(op_stack@) =~= next.stack);
                } else {
                    let rank = op.precedence();
                    let ghost mut cur = state;
                    while op_stack.len() > 0 && rank != 0 && op_stack[op_stack.len() - 1].precedence()
                        <= rank
                        invariant
                            stands_for(list@, op_stack@, cur),
                            cur.give_way(rank as nat) == state.give_way(rank as nat),
                        decreases op_stack.len(),
                    {
                        match op_stack.pop() {
                            Some(top) => {
                                assert(operators(op_stack@) =~= cur.stack.drop_last());
                                list.push(ExprToken::Operator(top));
                                proof {
                                    cur = cur.pop();
                                }
                                assert(tokens(list@) =~= cur.output);
                            },
                            None => {},
                        }
                    }
                    op_stack.push(op.duplicate());
                    assert(operators(op_stack@) =~= next.stack);
                }
            },
        }
        proof {
            state = next;
        }
        i = i + 1;
    }
    let ghost mut cur = state;
    loop
        invariant
            stands_for(list@, op_stack@, cur),
            cur.flush() == state.flush(),
        ensures
            cur.stack.len() == 0,
        decreases op_stack.len(),
    {
        match op_stack.pop() {
            Some(op) => {
                assert(operators(op_stack@) =~= cur.stack.drop_last());
                list.push(ExprToken::Operator(op));
                proof {
                    cur = cur.pop();
                }
                assert(tokens(list@) =~= cur.output);
            },
            None => {
                break ;
            },
        }
    }
    list
}

} // verus!
