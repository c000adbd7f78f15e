//! What holds of the calculator as a whole: the value of an expression is the
//! value of its tree, parentheses group as they are written, and the
//! identities of the negation and of the exclusive or.
use vstd::prelude::*;
use crate::expr::arith::{exclusive128, exclusive16, exclusive32, exclusive64, exclusive8};
use crate::expr::handler::{
    default_action, integer_pair_effect, Builtin, OperatorAction, OperatorHandler,
};
use crate::expr::operand::OperandView;
use crate::expr::operator::OperatorView;
use crate::expr::grammar::lemma_parse_written;
use crate::expr::tree::{lemma_suffix_of_tree, operator, postfix_all, Tree};
use crate::expr::{suffix_of, ExprTokenView};
use crate::float::{lemma_negated_twice, FloatUnit};
use crate::{finished, ErrorView, Evaluator, Outcome};

verus! {

/// A stack or an error, with the outcomes that are left; nothing where an
/// outcome is missing.
pub type Trace = Option<(Result<Seq<OperandView>, ErrorView>, Seq<Outcome>)>;

/// The run that goes on with one operator where the run so far left a stack.
pub open spec fn applied<F: FloatUnit, H: OperatorHandler>(
    e: &Evaluator<F, H>,
    op: OperatorView,
    before: Trace,
) -> Trace {
    match before {
        Some((Ok(stack), left)) => e.trace_given(seq![operator(op)], stack, left),
        _ => before,
    }
}

/// The value of a tree, computed from its leaves upward: the operands of an
/// operator from left to right, then the operator. The steps that are
/// computed outside the calculator come to `outcomes`, in this order.
pub open spec fn tree_trace<F: FloatUnit, H: OperatorHandler>(
    e: &Evaluator<F, H>,
    tree: Tree,
    stack: Seq<OperandView>,
    outcomes: Seq<Outcome>,
) -> Trace
    decreases tree,
{
    match tree {
        Tree::Leaf(o) => Some((Ok(stack.push(o)), outcomes)),
        Tree::Group(inner) => tree_trace(e, *inner, stack, outcomes),
        Tree::Prefix(op, inner) => applied(e, op, tree_trace(e, *inner, stack, outcomes)),
        Tree::Call(name, args) => applied(
            e,
            OperatorView::Custom(name),
            all_trace(e, args, stack, outcomes),
        ),
        Tree::Infix(left, op, right) => applied(
            e,
            op,
            match tree_trace(e, *left, stack, outcomes) {
                Some((Ok(between), rest)) => tree_trace(e, *right, between, rest),
                other => other,
            },
        ),
    }
}

/// The values of the arguments of a function, computed from left to right.
pub open spec fn all_trace<F: FloatUnit, H: OperatorHandler>(
    e: &Evaluator<F, H>,
    args: Seq<Tree>,
    stack: Seq<OperandView>,
    outcomes: Seq<Outcome>,
) -> Trace
    decreases args,
{
    if args.len() == 0 {
        Some((Ok(stack), outcomes))
    } else {
        match all_trace(e, args.drop_last(), stack, outcomes) {
            Some((Ok(between), rest)) => tree_trace(e, args.last(), between, rest),
            other => other,
        }
    }
}

/// The value of a tree where the steps that are computed outside the
/// calculator come to `outcomes`.
pub open spec fn tree_value_given<F: FloatUnit, H: OperatorHandler>(
    e: &Evaluator<F, H>,
    tree: Tree,
    outcomes: Seq<Outcome>,
) -> Option<Result<OperandView, ErrorView>> {
    match tree_trace(e, tree, Seq::empty(), outcomes) {
        None => None,
        Some((run, _)) => Some(finished(run)),
    }
}

/// The value of a tree where no step is computed outside the calculator;
/// `None` where one is.
pub open spec fn tree_value<F: FloatUnit, H: OperatorHandler>(e: &Evaluator<F, H>, tree: Tree)
    -> Option<Result<OperandView, ErrorView>> {
    tree_value_given(e, tree, Seq::empty())
}

/// Running two sequences one after the other is running the first and then,
/// on the stack and with the outcomes that it leaves, the second.
pub proof fn lemma_trace_concat<F: FloatUnit, H: OperatorHandler>(
    e: &Evaluator<F, H>,
    a: Seq<ExprTokenView>,
    b: Seq<ExprTokenView>,
    stack: Seq<OperandView>,
    outcomes: Seq<Outcome>,
)
    ensures
        e.trace_given(a + b, stack, outcomes) == match e.trace_given(a, stack, outcomes) {
            Some((Ok(between), rest)) => e.trace_given(b, between, rest),
            other => other,
        },
    decreases a.len(),
{
    if a.len() == 0 {
        assert(a + b =~= b);
    } else {
        assert((a + b).first() == a.first());
        assert((a + b).drop_first() =~= a.drop_first() + b);
        match a.first() {
            ExprTokenView::Operand(o) => {
                lemma_trace_concat(e, a.drop_first(), b, stack.push(o), outcomes);
            },
            ExprTokenView::Operator(op) => {
                match e.step_given(op, stack, outcomes) {
                    Some((effect, rest)) => {
                        if effect.result is Ok {
                            lemma_trace_concat(e, a.drop_first(), b, effect.stack, rest);
                        }
                    },
                    None => {},
                }
            },
        }
    }
}

/// Running the postfix order of a tree computes the tree from its leaves
/// upward.
pub proof fn lemma_trace_of_tree<F: FloatUnit, H: OperatorHandler>(
    e: &Evaluator<F, H>,
    tree: Tree,
    stack: Seq<OperandView>,
    outcomes: Seq<Outcome>,
)
    ensures
        e.trace_given(tree.postfix(), stack, outcomes) == tree_trace(e, tree, stack, outcomes),
    decreases tree,
{
    match tree {
        Tree::Leaf(o) => {
            let one = seq![ExprTokenView::Operand(o)];
            assert(one.drop_first() =~= Seq::<ExprTokenView>::empty());
            assert(e.trace_given(one.drop_first(), stack.push(o), outcomes) == Some(
                (Ok::<Seq<OperandView>, ErrorView>(stack.push(o)), outcomes),
            ));
        },
        Tree::Group(inner) => {
            lemma_trace_of_tree(e, *inner, stack, outcomes);
        },
        Tree::Prefix(op, inner) => {
            lemma_trace_concat(e, inner.postfix(), seq![operator(op)], stack, outcomes);
            lemma_trace_of_tree(e, *inner, stack, outcomes);
        },
        Tree::Call(name, args) => {
            lemma_trace_concat(
                e,
                postfix_all(args),
                seq![operator(OperatorView::Custom(name))],
                stack,
                outcomes,
            );
            lemma_trace_of_all(e, args, stack, outcomes);
        },
        Tree::Infix(left, op, right) => {
            lemma_trace_concat(
                e,
                left.postfix() + right.postfix(),
                seq![operator(op)],
                stack,
                outcomes,
            );
            lemma_trace_concat(e, left.postfix(), right.postfix(), stack, outcomes);
            lemma_trace_of_tree(e, *left, stack, outcomes);
            match tree_trace(e, *left, stack, outcomes) {
                Some((Ok(between), rest)) => {
                    lemma_trace_of_tree(e, *right, between, rest);
                },
                _ => {},
            }
        },
    }
}

/// Running the postfix orders of a function's arguments computes the
/// arguments from left to right.
pub proof fn lemma_trace_of_all<F: FloatUnit, H: OperatorHandler>(
    e: &Evaluator<F, H>,
    args: Seq<Tree>,
    stack: Seq<OperandView>,
    outcomes: Seq<Outcome>,
)
    ensures
        e.trace_given(postfix_all(args), stack, outcomes) == all_trace(e, args, stack, outcomes),
    decreases args,
{
    if args.len() > 0 {
        lemma_trace_concat(
            e,
            postfix_all(args.drop_last()),
            args.last().postfix(),
            stack,
            outcomes,
        );
        lemma_trace_of_all(e, args.drop_last(), stack, outcomes);
        match all_trace(e, args.drop_last(), stack, outcomes) {
            Some((Ok(between), rest)) => {
                lemma_trace_of_tree(e, args.last(), between, rest);
            },
            _ => {},
        }
    }
}

/// Rewriting the infix sequence of a tree that is grouped as the precedence
/// table asks, and running what comes out, gives the value of the tree,
/// whatever the steps that are computed outside the calculator come to.
pub proof fn lemma_value_of_tree_given<F: FloatUnit, H: OperatorHandler>(
    e: &Evaluator<F, H>,
    tree: Tree,
    outcomes: Seq<Outcome>,
)
    requires
        tree.respects(),
    ensures
        e.value_given(suffix_of(tree.infix()), outcomes) == tree_value_given(e, tree, outcomes),
{
    lemma_suffix_of_tree(tree);
    lemma_trace_of_tree(e, tree, Seq::empty(), outcomes);
}

/// Rewriting the infix sequence of a tree that is grouped as the precedence
/// table asks, and running what comes out, gives the value of the tree.
pub proof fn lemma_value_of_tree<F: FloatUnit, H: OperatorHandler>(e: &Evaluator<F, H>, tree: Tree)
    requires
        tree.respects(),
    ensures
        e.value(suffix_of(tree.infix())) == tree_value(e, tree),
{
    lemma_value_of_tree_given(e, tree, Seq::empty());
}

/// Parsing the tokens that a tree is written as, rewriting what comes out
/// and running it gives the value of the tree, where the tree is grouped as
/// the precedence table asks, whatever the steps that are computed outside
/// the calculator come to.
pub proof fn lemma_interpretation_of_tree<F: FloatUnit, H: OperatorHandler>(
    e: &Evaluator<F, H>,
    tree: Tree,
    outcomes: Seq<Outcome>,
)
    requires
        tree.well_formed(),
        tree.respects(),
    ensures
        e.interpretation_given(tree.written(), outcomes) == tree_value_given(e, tree, outcomes),
        e.interpretation(tree.written()) == tree_value(e, tree),
{
    lemma_parse_written(tree);
    lemma_value_of_tree_given(e, tree, outcomes);
    lemma_value_of_tree(e, tree);
}

/// Parentheses group as they are written, whatever the ranks of the two
/// operators are: in `(a op1 b) op2 c` the first operator is applied to `a` and
/// `b`, and the second to what comes out and `c`.
pub proof fn lemma_parentheses_group_left(
    a: OperandView,
    first: OperatorView,
    b: OperandView,
    second: OperatorView,
    c: OperandView,
)
    requires
        first.is_infix(),
        second.is_infix(),
    ensures
        suffix_of(
            seq![
                operator(OperatorView::OpenParenthesis),
                ExprTokenView::Operand(a),
                operator(first),
                ExprTokenView::Operand(b),
                operator(OperatorView::CloseParenthesis),
                operator(second),
                ExprTokenView::Operand(c),
            ],
        ) == seq![
            ExprTokenView::Operand(a),
            ExprTokenView::Operand(b),
            operator(first),
            ExprTokenView::Operand(c),
            operator(second),
        ],
{
    let leaf_a = Tree::Leaf(a);
    let leaf_b = Tree::Leaf(b);
    let leaf_c = Tree::Leaf(c);
    assert(leaf_a.respects() && leaf_b.respects() && leaf_c.respects());
    assert(leaf_a.infix() =~= seq![ExprTokenView::Operand(a)]);
    assert(leaf_b.infix() =~= seq![ExprTokenView::Operand(b)]);
    assert(leaf_c.infix() =~= seq![ExprTokenView::Operand(c)]);
    assert(leaf_a.postfix() =~= seq![ExprTokenView::Operand(a)]);
    assert(leaf_b.postfix() =~= seq![ExprTokenView::Operand(b)]);
    assert(leaf_c.postfix() =~= seq![ExprTokenView::Operand(c)]);
    let inner = Tree::Infix(Box::new(leaf_a), first, Box::new(leaf_b));
    let group = Tree::Group(Box::new(inner));
    let tree = Tree::Infix(Box::new(group), second, Box::new(leaf_c));
    assert(inner.respects());
    assert(group.respects());
    lemma_suffix_of_tree(tree);
    assert(inner.infix() =~= seq![
        ExprTokenView::Operand(a),
        operator(first),
        ExprTokenView::Operand(b),
    ]);
    assert(group.infix() =~= seq![
        operator(OperatorView::OpenParenthesis),
        ExprTokenView::Operand(a),
        operator(first),
        ExprTokenView::Operand(b),
        operator(OperatorView::CloseParenthesis),
    ]);
    assert(group.postfix() == inner.postfix());
    assert(tree.infix() =~= seq![
        operator(OperatorView::OpenParenthesis),
        ExprTokenView::Operand(a),
        operator(first),
        ExprTokenView::Operand(b),
        operator(OperatorView::CloseParenthesis),
        operator(second),
        ExprTokenView::Operand(c),
    ]);
}

/// Parentheses group as they are written on the right too: in
/// `a op1 (b op2 c)` the second operator is applied to `b` and `c`, and the
/// first to `a` and what comes out.
pub proof fn lemma_parentheses_group_right(
    a: OperandView,
    first: OperatorView,
    b: OperandView,
    second: OperatorView,
    c: OperandView,
)
    requires
        first.is_infix(),
        second.is_infix(),
    ensures
        suffix_of(
            seq![
                ExprTokenView::Operand(a),
                operator(first),
                operator(OperatorView::OpenParenthesis),
                ExprTokenView::Operand(b),
                operator(second),
                ExprTokenView::Operand(c),
                operator(OperatorView::CloseParenthesis),
            ],
        ) == seq![
            ExprTokenView::Operand(a),
            ExprTokenView::Operand(b),
            ExprTokenView::Operand(c),
            operator(second),
            operator(first),
        ],
{
    let leaf_a = Tree::Leaf(a);
    let leaf_b = Tree::Leaf(b);
    let leaf_c = Tree::Leaf(c);
    assert(leaf_a.respects() && leaf_b.respects() && leaf_c.respects());
    assert(leaf_a.infix() =~= seq![ExprTokenView::Operand(a)]);
    assert(leaf_b.infix() =~= seq![ExprTokenView::Operand(b)]);
    assert(leaf_c.infix() =~= seq![ExprTokenView::Operand(c)]);
    assert(leaf_a.postfix() =~= seq![ExprTokenView::Operand(a)]);
    assert(leaf_b.postfix() =~= seq![ExprTokenView::Operand(b)]);
    assert(leaf_c.postfix() =~= seq![ExprTokenView::Operand(c)]);
    let inner = Tree::Infix(Box::new(leaf_b), second, Box::new(leaf_c));
    let group = Tree::Group(Box::new(inner));
    let tree = Tree::Infix(Box::new(leaf_a), first, Box::new(group));
    assert(inner.respects());
    assert(group.respects());
    lemma_suffix_of_tree(tree);
    assert(inner.infix() =~= seq![
        ExprTokenView::Operand(b),
        operator(second),
        ExprTokenView::Operand(c),
    ]);
    assert(group.infix() =~= seq![
        operator(OperatorView::OpenParenthesis),
        ExprTokenView::Operand(b),
        operator(second),
        ExprTokenView::Operand(c),
        operator(OperatorView::CloseParenthesis),
    ]);
    assert(group.postfix() == inner.postfix());
    assert(tree.infix() =~= seq![
        ExprTokenView::Operand(a),
        operator(first),
        operator(OperatorView::OpenParenthesis),
        ExprTokenView::Operand(b),
        operator(second),
        ExprTokenView::Operand(c),
        operator(OperatorView::CloseParenthesis),
    ]);
}

/// One operator with a handler of the calculator, where the handler's effect
/// is determined, takes that effect and uses no outcome.
pub proof fn lemma_apply_builtin<F: FloatUnit, H: OperatorHandler>(
    e: &Evaluator<F, H>,
    op: OperatorView,
    kind: Builtin,
    stack: Seq<OperandView>,
    outcomes: Seq<Outcome>,
)
    requires
        e.handler(op) == Some(OperatorAction::<H>::Builtin(kind)),
        kind.effect(stack) is Some,
    ensures
        e.trace_given(seq![operator(op)], stack, outcomes) == Some(
            (
                match kind.effect(stack)->0.result {
                    Ok(_) => Ok(kind.effect(stack)->0.stack),
                    Err(error) => Err(error),
                },
                outcomes,
            ),
        ),
{
    let one = seq![operator(op)];
    let effect = kind.effect(stack)->0;
    assert(one.drop_first() =~= Seq::<ExprTokenView>::empty());
    assert(e.step_given(op, stack, outcomes) == Some((effect, outcomes)));
    assert(e.trace_given(one.drop_first(), effect.stack, outcomes) == Some(
        (Ok::<Seq<OperandView>, ErrorView>(effect.stack), outcomes),
    ));
}

/// Whether the evaluator holds for an operator the handler that a new
/// evaluator holds for it.
pub open spec fn keeps_default<F: FloatUnit, H: OperatorHandler>(
    e: &Evaluator<F, H>,
    op: OperatorView,
) -> bool {
    e.handler(op) == match default_action(op) {
        Some(kind) => Some(OperatorAction::<H>::Builtin(kind)),
        None => None,
    }
}

/// Negating a number twice gives the number back: `--x` has the value of `x`.
/// The one integer that has no negative, the least, is left out.
pub proof fn lemma_negate_twice<F: FloatUnit, H: OperatorHandler>(
    e: &Evaluator<F, H>,
    x: OperandView,
)
    requires
        keeps_default(e, OperatorView::Negate),
        x is Integer || x is Float,
        x != OperandView::Integer(i128::MIN),
    ensures
        e.value(
            suffix_of(
                seq![
                    operator(OperatorView::Negate),
                    operator(OperatorView::Negate),
                    ExprTokenView::Operand(x),
                ],
            ),
        ) == Some(Ok::<OperandView, ErrorView>(x)),
        e.value(suffix_of(seq![ExprTokenView::Operand(x)])) == Some(
            Ok::<OperandView, ErrorView>(x),
        ),
{
    let leaf = Tree::Leaf(x);
    let once = Tree::Prefix(OperatorView::Negate, Box::new(leaf));
    let twice = Tree::Prefix(OperatorView::Negate, Box::new(once));
    assert(leaf.respects());
    assert(once.respects());
    lemma_value_of_tree(e, leaf);
    lemma_value_of_tree(e, twice);
    assert(once.infix() =~= seq![operator(OperatorView::Negate), ExprTokenView::Operand(x)]);
    assert(twice.infix() =~= seq![
        operator(OperatorView::Negate),
        operator(OperatorView::Negate),
        ExprTokenView::Operand(x),
    ]);
    let empty = Seq::<OperandView>::empty();
    let none = Seq::<Outcome>::empty();
    let start = empty.push(x);
    let minus = match x {
        OperandView::Integer(i) => OperandView::Integer((-i) as i128),
        OperandView::Float(bits) => OperandView::Float(crate::float::negated(bits)),
        OperandView::String(_) => x,
    };
    match x {
        OperandView::Float(bits) => {
            lemma_negated_twice(bits);
        },
        _ => {},
    }
    let middle = empty.push(minus);
    assert(start.drop_last() =~= empty);
    assert(middle.drop_last() =~= empty);
    assert(Builtin::Negate.effect(start)->0.stack == middle);
    assert(Builtin::Negate.effect(middle)->0.stack == start);
    lemma_apply_builtin(e, OperatorView::Negate, Builtin::Negate, start, none);
    lemma_apply_builtin(e, OperatorView::Negate, Builtin::Negate, middle, none);
    assert(tree_trace(e, leaf, empty, none) == Some(
        (Ok::<Seq<OperandView>, ErrorView>(start), none),
    ));
    assert(tree_trace(e, once, empty, none) == Some(
        (Ok::<Seq<OperandView>, ErrorView>(middle), none),
    ));
    assert(tree_trace(e, twice, empty, none) == Some(
        (Ok::<Seq<OperandView>, ErrorView>(start), none),
    ));
}

/// The exclusive or of a value with itself is zero, at every width.
pub proof fn lemma_exclusive_or_cancels(x: i128)
    ensures
        exclusive8(x, x) == 0,
        exclusive16(x, x) == 0,
        exclusive32(x, x) == 0,
        exclusive64(x, x) == 0,
        exclusive128(x, x) == 0,
{
    assert(((x as u8) ^ (x as u8)) as i128 == 0) by (bit_vector);
    assert(((x as u16) ^ (x as u16)) as i128 == 0) by (bit_vector);
    assert(((x as u32) ^ (x as u32)) as i128 == 0) by (bit_vector);
    assert(((x as u64) ^ (x as u64)) as i128 == 0) by (bit_vector);
    assert(((x as u128) ^ (x as u128)) as i128 == 0) by (bit_vector);
}

/// The exclusive or of an integer with itself has the value zero, at each of
/// the five widths: `x ^ x` with any width hint evaluates to 0.
pub proof fn lemma_exclusive_or_of_itself<F: FloatUnit, H: OperatorHandler>(
    e: &Evaluator<F, H>,
    x: i128,
    width: usize,
)
    requires
        width == 8 || width == 16 || width == 32 || width == 64 || width == 128,
        keeps_default(e, OperatorView::BitXor(width)),
    ensures
        e.value(
            suffix_of(
                seq![
                    ExprTokenView::Operand(OperandView::Integer(x)),
                    operator(OperatorView::BitXor(width)),
                    ExprTokenView::Operand(OperandView::Integer(x)),
                ],
            ),
        ) == Some(Ok::<OperandView, ErrorView>(OperandView::Integer(0))),
{
    let op = OperatorView::BitXor(width);
    let leaf = Tree::Leaf(OperandView::Integer(x));
    let tree = Tree::Infix(Box::new(leaf), op, Box::new(leaf));
    assert(leaf.respects());
    lemma_value_of_tree(e, tree);
    assert(leaf.infix() =~= seq![ExprTokenView::Operand(OperandView::Integer(x))]);
    assert(tree.infix() =~= seq![
        ExprTokenView::Operand(OperandView::Integer(x)),
        operator(op),
        ExprTokenView::Operand(OperandView::Integer(x)),
    ]);
    lemma_exclusive_or_cancels(x);
    let kind = default_action(op)->0;
    let empty = Seq::<OperandView>::empty();
    let none = Seq::<Outcome>::empty();
    let one = empty.push(OperandView::Integer(x));
    let two = one.push(OperandView::Integer(x));
    let zero = empty.push(OperandView::Integer(0));
    assert(two.drop_last() =~= one);
    assert(one.drop_last() =~= empty);
    assert(kind.on_integers(x, x) == Ok::<i128, ErrorView>(0));
    assert(kind.effect(two) == Some(
        integer_pair_effect(two, |a: i128, b: i128| kind.on_integers(a, b)),
    ));
    assert(kind.effect(two)->0.stack == zero);
    lemma_apply_builtin(e, op, kind, two, none);
    assert(tree_trace(e, leaf, empty, none) == Some(
        (Ok::<Seq<OperandView>, ErrorView>(one), none),
    ));
    assert(tree_trace(e, leaf, one, none) == Some(
        (Ok::<Seq<OperandView>, ErrorView>(two), none),
    ));
    assert(tree_trace(e, tree, empty, none) == Some(
        (Ok::<Seq<OperandView>, ErrorView>(zero), none),
    ));
}

} // verus!
