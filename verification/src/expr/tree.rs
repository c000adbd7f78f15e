//! Expressions as trees, and the proof that the rewriter puts the infix
//! sequence of a tree into the tree's postfix order.
use vstd::prelude::*;
use crate::expr::operand::OperandView;
use crate::expr::operator::OperatorView;
use crate::expr::{suffix_of, ExprTokenView, Shunt};

verus! {

/// An expression as the precedence table groups it.
pub ghost enum Tree {
    /// An operand.
    Leaf(OperandView),
    /// An expression in parentheses.
    Group(Box<Tree>),
    /// A sign or a complement in front of its operand.
    Prefix(OperatorView, Box<Tree>),
    /// A function with its arguments.
    Call(Seq<char>, Seq<Tree>),
    /// An operator between its two operands.
    Infix(Box<Tree>, OperatorView, Box<Tree>),
}

/// An operator as a token.
pub open spec fn operator(op: OperatorView) -> ExprTokenView {
    ExprTokenView::Operator(op)
}

impl Tree {
    /// The rank at which the tree binds: that of its operator if it is an
    /// operator between two operands, and the tightest otherwise.
    pub open spec fn level(self) -> nat {
        match self {
            Tree::Infix(_, op, _) => op.precedence(),
            _ => 0,
        }
    }

    /// The tree as it is written: an operator between its operands, a sign in
    /// front of its operand, and the arguments of a function one after the
    /// other behind its name.
    pub open spec fn infix(self) -> Seq<ExprTokenView>
        decreases self,
    {
        match self {
            Tree::Leaf(o) => seq![ExprTokenView::Operand(o)],
            Tree::Group(inner) => seq![operator(OperatorView::OpenParenthesis)] + inner.infix()
                + seq![operator(OperatorView::CloseParenthesis)],
            Tree::Prefix(op, inner) => seq![operator(op)] + inner.infix(),
            Tree::Call(name, args) => seq![operator(OperatorView::Custom(name))] + infix_all(
                args,
            ),
            Tree::Infix(left, op, right) => left.infix() + seq![operator(op)] + right.infix(),
        }
    }

    /// The tree in postfix order: every operator behind its operands.
    pub open spec fn postfix(self) -> Seq<ExprTokenView>
        decreases self,
    {
        match self {
            Tree::Leaf(o) => seq![ExprTokenView::Operand(o)],
            Tree::Group(inner) => inner.postfix(),
            Tree::Prefix(op, inner) => inner.postfix() + seq![operator(op)],
            Tree::Call(name, args) => postfix_all(args) + seq![
                operator(OperatorView::Custom(name)),
            ],
            Tree::Infix(left, op, right) => left.postfix() + right.postfix() + seq![operator(op)],
        }
    }

    /// Whether the tree needs no operator to hold it together: an operand or
    /// an expression in parentheses.
    pub open spec fn closed(self) -> bool {
        self is Leaf || self is Group
    }

    /// Whether the tree is grouped as the precedence table asks. The left
    /// operand of an operator binds as tight as the operator or tighter, the
    /// right one tighter. A sign stands in front of what binds tightest. An
    /// argument of a function binds tightest, and each but the last is an
    /// operand or stands in parentheses.
    pub open spec fn respects(self) -> bool
        decreases self,
    {
        match self {
            Tree::Leaf(_) => true,
            Tree::Group(inner) => inner.respects(),
            Tree::Prefix(op, inner) => op.is_prefix() && !(op is Custom) && inner.respects()
                && inner.level() == 0,
            Tree::Call(_, args) => all_respect(args) && (args.len() > 0 ==> all_closed(
                args.drop_last(),
            )),
            Tree::Infix(left, op, right) => op.is_infix() && left.respects() && right.respects()
                && left.level() <= op.precedence() && right.level() < op.precedence(),
        }
    }

    /// The operators of the tree that wait on the rewriter's stack when the
    /// tree has been read, the top last.
    pub open spec fn pending(self) -> Seq<OperatorView>
        decreases self,
    {
        match self {
            Tree::Leaf(_) => Seq::empty(),
            Tree::Group(_) => Seq::empty(),
            Tree::Prefix(op, inner) => seq![op] + inner.pending(),
            Tree::Call(name, args) => seq![OperatorView::Custom(name)] + pending_all(args),
            Tree::Infix(_, op, right) => seq![op] + right.pending(),
        }
    }

    /// What the rewriter has put out when the tree has been read.
    pub open spec fn emitted(self) -> Seq<ExprTokenView>
        decreases self,
    {
        match self {
            Tree::Leaf(o) => seq![ExprTokenView::Operand(o)],
            Tree::Group(inner) => inner.emitted() + unwound(inner.pending()),
            Tree::Prefix(_, inner) => inner.emitted(),
            Tree::Call(_, args) => emitted_all(args),
            Tree::Infix(left, _, right) => left.emitted() + unwound(left.pending())
                + right.emitted(),
        }
    }
}

/// The arguments as they are written, one after the other.
pub open spec fn infix_all(args: Seq<Tree>) -> Seq<ExprTokenView>
    decreases args,
{
    if args.len() == 0 {
        Seq::empty()
    } else {
        infix_all(args.drop_last()) + args.last().infix()
    }
}

/// The arguments in postfix order, one after the other.
pub open spec fn postfix_all(args: Seq<Tree>) -> Seq<ExprTokenView>
    decreases args,
{
    if args.len() == 0 {
        Seq::empty()
    } else {
        postfix_all(args.drop_last()) + args.last().postfix()
    }
}

/// Whether each argument is grouped as the precedence table asks and binds
/// tightest.
pub open spec fn all_respect(args: Seq<Tree>) -> bool
    decreases args,
{
    args.len() > 0 ==> all_respect(args.drop_last()) && args.last().respects()
        && args.last().level() == 0
}

/// Whether every argument is an operand or stands in parentheses.
pub open spec fn all_closed(args: Seq<Tree>) -> bool {
    forall|i: int| 0 <= i < args.len() ==> (#[trigger] args[i]).closed()
}

/// The operators that wait on the rewriter's stack when the arguments have
/// been read.
pub open spec fn pending_all(args: Seq<Tree>) -> Seq<OperatorView>
    decreases args,
{
    if args.len() == 0 {
        Seq::empty()
    } else {
        pending_all(args.drop_last()) + args.last().pending()
    }
}

/// What the rewriter has put out when the arguments have been read.
pub open spec fn emitted_all(args: Seq<Tree>) -> Seq<ExprTokenView>
    decreases args,
{
    if args.len() == 0 {
        Seq::empty()
    } else {
        emitted_all(args.drop_last()) + args.last().emitted()
    }
}

/// The operators of a stack as they leave it, the top first.
pub open spec fn unwound(stack: Seq<OperatorView>) -> Seq<ExprTokenView>
    decreases stack.len(),
{
    if stack.len() == 0 {
        Seq::empty()
    } else {
        seq![operator(stack.last())] + unwound(stack.drop_last())
    }
}

/// Whether every operator of the stack has at most the given rank.
pub open spec fn tight(stack: Seq<OperatorView>, rank: nat) -> bool {
    forall|i: int| 0 <= i < stack.len() ==> (#[trigger] stack[i]).precedence() <= rank
}

/// Whether reading a tree of the given level leaves the stack alone: the
/// tree has no operator that could move the top of the stack.
pub open spec fn clear(stack: Seq<OperatorView>, level: nat) -> bool {
    level == 0 || stack.len() == 0 || stack.last().precedence() > level
}

proof fn lemma_unwound_concat(a: Seq<OperatorView>, b: Seq<OperatorView>)
    ensures
        unwound(a + b) == unwound(b) + unwound(a),
    decreases b.len(),
{
    if b.len() > 0 {
        assert((a + b).drop_last() =~= a + b.drop_last());
        lemma_unwound_concat(a, b.drop_last());
    }
}

proof fn lemma_unwound_one(op: OperatorView)
    ensures
        unwound(seq![op]) == seq![operator(op)],
{
    let one = seq![op];
    assert(unwound(one.drop_last()) =~= Seq::<ExprTokenView>::empty());
}

/// No operator between two operands has a rank above 8.
proof fn lemma_level_bound(tree: Tree)
    requires
        tree.respects(),
    ensures
        tree.level() <= 8,
{
}

proof fn lemma_run_one(state: Shunt, token: ExprTokenView)
    ensures
        state.run(seq![token]) == state.step(token),
{
    let input = seq![token];
    assert(state.step(token).run(input.drop_first()) == state.step(token));
}

proof fn lemma_run_concat(state: Shunt, a: Seq<ExprTokenView>, b: Seq<ExprTokenView>)
    ensures
        state.run(a + b) == state.run(a).run(b),
    decreases a.len(),
{
    if a.len() > 0 {
        assert((a + b).drop_first() =~= a.drop_first() + b);
        lemma_run_concat(state.step(a.first()), a.drop_first(), b);
    }
}

/// An operator between two operands lets the tighter operators on top of the
/// stack go first.
proof fn lemma_give_way(
    output: Seq<ExprTokenView>,
    below: Seq<OperatorView>,
    top: Seq<OperatorView>,
    rank: nat,
)
    requires
        rank > 0,
        tight(top, rank),
        below.len() == 0 || below.last().precedence() > rank,
    ensures
        (Shunt { output, stack: below + top }).give_way(rank) == (Shunt {
            output: output + unwound(top),
            stack: below,
        }),
    decreases top.len(),
{
    if top.len() > 0 {
        assert((below + top).drop_last() =~= below + top.drop_last());
        lemma_give_way(output.push(operator(top.last())), below, top.drop_last(), rank);
        assert(output.push(operator(top.last())) + unwound(top.drop_last()) =~= output
            + unwound(top));
    }
}

/// A closing parenthesis lets the operators above its opening parenthesis go.
proof fn lemma_close(output: Seq<ExprTokenView>, below: Seq<OperatorView>, top: Seq<OperatorView>)
    requires
        tight(top, 8),
    ensures
        (Shunt {
            output,
            stack: below.push(OperatorView::OpenParenthesis) + top,
        }).close() == (Shunt { output: output + unwound(top), stack: below }),
    decreases top.len(),
{
    let base = below.push(OperatorView::OpenParenthesis);
    if top.len() == 0 {
        assert(base.drop_last() =~= below);
    } else {
        assert((base + top).drop_last() =~= base + top.drop_last());
        lemma_close(output.push(operator(top.last())), below, top.drop_last());
        assert(output.push(operator(top.last())) + unwound(top.drop_last()) =~= output
            + unwound(top));
    }
}

/// At the end of the input the stack is unwound.
proof fn lemma_flush(output: Seq<ExprTokenView>, stack: Seq<OperatorView>)
    ensures
        (Shunt { output, stack }).flush() == output + unwound(stack),
    decreases stack.len(),
{
    if stack.len() > 0 {
        lemma_flush(output.push(operator(stack.last())), stack.drop_last());
    }
}

/// Arguments that are operands or stand in parentheses leave no operator
/// behind.
proof fn lemma_closed_arguments(args: Seq<Tree>)
    requires
        all_closed(args),
    ensures
        pending_all(args) == Seq::<OperatorView>::empty(),
    decreases args,
{
    if args.len() > 0 {
        assert(args.last().pending() =~= Seq::<OperatorView>::empty());
        lemma_closed_arguments(args.drop_last());
    }
}

/// What reading a tree does to the rewriter: it adds to the output and to the
/// stack, and moves nothing that was there.
proof fn lemma_read_tree(tree: Tree, state: Shunt)
    requires
        tree.respects(),
        clear(state.stack, tree.level()),
    ensures
        state.run(tree.infix()) == (Shunt {
            output: state.output + tree.emitted(),
            stack: state.stack + tree.pending(),
        }),
        tight(tree.pending(), tree.level()),
        tree.level() <= 8,
        tree.postfix() == tree.emitted() + unwound(tree.pending()),
    decreases tree,
{
    let output = state.output;
    let stack = state.stack;
    match tree {
        Tree::Leaf(o) => {
            lemma_run_one(state, ExprTokenView::Operand(o));
            assert(output.push(ExprTokenView::Operand(o)) =~= output + tree.emitted());
        },
        Tree::Group(inner) => {
            let open = operator(OperatorView::OpenParenthesis);
            let close = operator(OperatorView::CloseParenthesis);
            let opened = Shunt { output, stack: stack.push(OperatorView::OpenParenthesis) };
            lemma_run_concat(state, seq![open] + inner.infix(), seq![close]);
            lemma_run_concat(state, seq![open], inner.infix());
            lemma_run_one(state, open);
            lemma_level_bound(*inner);
            lemma_read_tree(*inner, opened);
            let inside = Shunt {
                output: output + inner.emitted(),
                stack: opened.stack + inner.pending(),
            };
            lemma_run_one(inside, close);
            lemma_close(inside.output, stack, inner.pending());
            assert(output + inner.emitted() + unwound(inner.pending()) =~= output
                + tree.emitted());
        },
        Tree::Prefix(op, inner) => {
            let pushed = Shunt { output, stack: stack.push(op) };
            lemma_run_concat(state, seq![operator(op)], inner.infix());
            lemma_run_one(state, operator(op));
            lemma_read_tree(*inner, pushed);
            assert(stack.push(op) + inner.pending() =~= stack + tree.pending());
            lemma_unwound_concat(seq![op], inner.pending());
            lemma_unwound_one(op);
        },
        Tree::Call(name, args) => {
            let op = OperatorView::Custom(name);
            let pushed = Shunt { output, stack: stack.push(op) };
            lemma_run_concat(state, seq![operator(op)], infix_all(args));
            lemma_run_one(state, operator(op));
            lemma_read_all(args, pushed);
            assert(stack.push(op) + pending_all(args) =~= stack + tree.pending());
            lemma_unwound_concat(seq![op], pending_all(args));
            lemma_unwound_one(op);
            lemma_call_postfix(args);
        },
        Tree::Infix(left, op, right) => {
            let rank = op.precedence();
            lemma_run_concat(state, left.infix() + seq![operator(op)], right.infix());
            lemma_run_concat(state, left.infix(), seq![operator(op)]);
            lemma_read_tree(*left, state);
            let read = Shunt {
                output: output + left.emitted(),
                stack: stack + left.pending(),
            };
            lemma_run_one(read, operator(op));
            lemma_give_way(read.output, stack, left.pending(), rank);
            let pushed = Shunt {
                output: output + left.emitted() + unwound(left.pending()),
                stack: stack.push(op),
            };
            lemma_read_tree(*right, pushed);
            assert(pushed.output + right.emitted() =~= output + tree.emitted());
            assert(stack.push(op) + right.pending() =~= stack + tree.pending());
            lemma_unwound_concat(seq![op], right.pending());
            lemma_unwound_one(op);
        },
    }
}

/// What reading the arguments of a function does to the rewriter.
proof fn lemma_read_all(args: Seq<Tree>, state: Shunt)
    requires
        all_respect(args),
    ensures
        state.run(infix_all(args)) == (Shunt {
            output: state.output + emitted_all(args),
            stack: state.stack + pending_all(args),
        }),
        tight(pending_all(args), 0),
    decreases args,
{
    if args.len() > 0 {
        let front = args.drop_last();
        let last = args.last();
        lemma_run_concat(state, infix_all(front), last.infix());
        lemma_read_all(front, state);
        let read = Shunt {
            output: state.output + emitted_all(front),
            stack: state.stack + pending_all(front),
        };
        lemma_read_tree(last, read);
        assert(read.output + last.emitted() =~= state.output + emitted_all(args));
        assert(read.stack + last.pending() =~= state.stack + pending_all(args));
    }
}

/// The postfix order of a function's arguments is what the rewriter puts out
/// for them, and then the operators that the last argument leaves behind.
proof fn lemma_call_postfix(args: Seq<Tree>)
    requires
        all_respect(args),
        args.len() > 0 ==> all_closed(args.drop_last()),
    ensures
        postfix_all(args) == emitted_all(args) + unwound(pending_all(args)),
    decreases args,
{
    if args.len() > 0 {
        let front = args.drop_last();
        let last = args.last();
        lemma_closed_arguments(front);
        lemma_closed_postfix(front);
        lemma_read_tree(last, Shunt::start());
    }
}

/// For arguments that are operands or stand in parentheses, what the
/// rewriter puts out is their postfix order.
proof fn lemma_closed_postfix(args: Seq<Tree>)
    requires
        all_respect(args),
        all_closed(args),
    ensures
        postfix_all(args) == emitted_all(args),
    decreases args,
{
    if args.len() > 0 {
        let front = args.drop_last();
        let last = args.last();
        lemma_closed_postfix(front);
        lemma_read_tree(last, Shunt::start());
    }
}

/// The rewriter puts the infix sequence of every tree that is grouped as the
/// precedence table asks into the postfix order of that tree.
pub proof fn lemma_suffix_of_tree(tree: Tree)
    requires
        tree.respects(),
    ensures
        suffix_of(tree.infix()) == tree.postfix(),
{
    lemma_read_tree(tree, Shunt::start());
    lemma_flush(Shunt::start().output + tree.emitted(), Shunt::start().stack + tree.pending());
}

} // verus!
