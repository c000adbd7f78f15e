//! Expressions as they are written in tokens, and the proof that the parser
//! reads the tokens of a tree into the infix sequence of that tree.
use vstd::prelude::*;
use crate::expr::operand::OperandView;
use crate::expr::operator::OperatorView;
use crate::expr::parse::{
    arguments, boundary, closing, expression, lemma_after_after, segments, Parsed,
};
use crate::expr::tree::{infix_all, operator, Tree};
use crate::expr::ExprTokenView;
use crate::lex::LexTokenView;
use crate::ErrorView;

verus! {

/// The token that an operand is written as.
pub open spec fn literal_token(o: OperandView) -> LexTokenView {
    match o {
        OperandView::Integer(i) => LexTokenView::Integer(i),
        OperandView::Float(f) => LexTokenView::Float(f),
        OperandView::String(s) => LexTokenView::String(s),
    }
}

/// The token that a sign or a complement is written as.
pub open spec fn prefix_token(op: OperatorView) -> LexTokenView {
    match op {
        OperatorView::Negate => LexTokenView::Minus,
        OperatorView::Postive => LexTokenView::Plus,
        OperatorView::BitNot(width) => LexTokenView::BitNot(width),
        _ => LexTokenView::Comma,
    }
}

/// The token that an operator between two operands is written as.
pub open spec fn infix_token(op: OperatorView) -> LexTokenView {
    match op {
        OperatorView::Add => LexTokenView::Plus,
        OperatorView::Minus => LexTokenView::Minus,
        OperatorView::Mul => LexTokenView::Mul,
        OperatorView::Div => LexTokenView::Div,
        OperatorView::Mod => LexTokenView::Mod,
        OperatorView::Expo => LexTokenView::Expo,
        OperatorView::BitOr => LexTokenView::BitOr,
        OperatorView::BitAnd => LexTokenView::BitAnd,
        OperatorView::BitXor(width) => LexTokenView::BitXor(width),
        OperatorView::LeftShift => LexTokenView::LeftShift,
        OperatorView::RightShift => LexTokenView::RightShift,
        _ => LexTokenView::Comma,
    }
}

/// Whether a token is no parenthesis and no comma.
pub open spec fn is_plain(t: LexTokenView) -> bool {
    t != LexTokenView::OpenParenthesis && t != LexTokenView::CloseParenthesis && t
        != LexTokenView::Comma
}

impl Tree {
    /// Whether the tree can be written: a sign is one of the three prefix
    /// operators, an operator between two operands is a binary one, and a
    /// function has at least one argument.
    pub open spec fn well_formed(self) -> bool
        decreases self,
    {
        match self {
            Tree::Leaf(_) => true,
            Tree::Group(inner) => inner.well_formed(),
            Tree::Prefix(op, inner) => (op == OperatorView::Negate || op == OperatorView::Postive
                || op is BitNot) && inner.well_formed(),
            Tree::Call(_, args) => args.len() > 0 && all_formed(args),
            Tree::Infix(left, op, right) => op.is_infix() && left.well_formed()
                && right.well_formed(),
        }
    }

    /// The tokens that the tree is written as: the arguments of a function
    /// stand in parentheses behind its name, with commas between them.
    pub open spec fn written(self) -> Seq<LexTokenView>
        decreases self,
    {
        match self {
            Tree::Leaf(o) => seq![literal_token(o)],
            Tree::Group(inner) => seq![LexTokenView::OpenParenthesis] + inner.written() + seq![
                LexTokenView::CloseParenthesis,
            ],
            Tree::Prefix(op, inner) => seq![prefix_token(op)] + inner.written(),
            Tree::Call(name, args) => seq![
                LexTokenView::Custom(name),
                LexTokenView::OpenParenthesis,
            ] + written_all(args) + seq![LexTokenView::CloseParenthesis],
            Tree::Infix(left, op, right) => left.written() + seq![infix_token(op)]
                + right.written(),
        }
    }
}

/// Whether every argument can be written.
pub open spec fn all_formed(args: Seq<Tree>) -> bool
    decreases args,
{
    args.len() > 0 ==> all_formed(args.drop_last()) && args.last().well_formed()
}

/// The tokens that the arguments are written as, with a comma between two
/// of them.
pub open spec fn written_all(args: Seq<Tree>) -> Seq<LexTokenView>
    decreases args,
{
    if args.len() == 0 {
        Seq::empty()
    } else if args.len() == 1 {
        args.last().written()
    } else {
        written_all(args.drop_last()) + seq![LexTokenView::Comma] + args.last().written()
    }
}

/// The arguments are written as the first of them and, behind a comma, the
/// others.
proof fn lemma_written_front(args: Seq<Tree>)
    requires
        args.len() > 0,
    ensures
        written_all(args) == if args.len() == 1 {
            args.first().written()
        } else {
            args.first().written() + seq![LexTokenView::Comma] + written_all(args.drop_first())
        },
    decreases args.len(),
{
    if args.len() == 1 {
        assert(args.last() == args.first());
    } else if args.len() == 2 {
        let front = args.drop_last();
        let back = args.drop_first();
        assert(front.len() == 1);
        assert(front.last() == args.first());
        assert(back.len() == 1);
        assert(back.last() == args.last());
        assert(written_all(front) == args.first().written());
        assert(written_all(back) == args.last().written());
    } else if args.len() > 2 {
        let front = args.drop_last();
        lemma_written_front(front);
        assert(front.first() == args.first());
        assert(front.drop_first() =~= args.drop_first().drop_last());
        assert(args.drop_first().last() == args.last());
        assert(written_all(args.drop_first()) == written_all(args.drop_first().drop_last())
            + seq![LexTokenView::Comma] + args.last().written());
        assert(written_all(args) =~= args.first().written() + seq![LexTokenView::Comma]
            + written_all(args.drop_first()));
    }
}

/// The infix sequence of the arguments is that of the first of them and then
/// that of the others.
proof fn lemma_infix_front(args: Seq<Tree>)
    requires
        args.len() > 0,
    ensures
        infix_all(args) == args.first().infix() + infix_all(args.drop_first()),
    decreases args.len(),
{
    if args.len() == 1 {
        assert(args.drop_last() =~= Seq::<Tree>::empty());
        assert(args.drop_first() =~= Seq::<Tree>::empty());
        assert(infix_all(args) =~= args.first().infix() + infix_all(args.drop_first()));
    } else {
        let front = args.drop_last();
        lemma_infix_front(front);
        assert(front.first() == args.first());
        assert(front.drop_first() =~= args.drop_first().drop_last());
        assert(args.drop_first().last() == args.last());
        assert(infix_all(args) =~= args.first().infix() + infix_all(args.drop_first()));
    }
}

proof fn lemma_all_formed_front(args: Seq<Tree>)
    requires
        args.len() > 0,
        all_formed(args),
    ensures
        args.first().well_formed(),
        all_formed(args.drop_first()),
    decreases args.len(),
{
    if args.len() > 1 {
        let front = args.drop_last();
        lemma_all_formed_front(front);
        assert(front.first() == args.first());
        assert(front.drop_first() =~= args.drop_first().drop_last());
        assert(args.drop_first().last() == args.last());
    } else {
        assert(args.drop_first() =~= Seq::<Tree>::empty());
    }
}

/// A tree that can be written is written as at least one token.
proof fn lemma_written_nonempty(tree: Tree)
    ensures
        tree.written().len() > 0,
{
}

/// The search for the parenthesis that closes a list passes over a tree: the
/// parentheses of a tree are balanced.
proof fn lemma_closing_tree(
    before: Seq<LexTokenView>,
    tree: Tree,
    after: Seq<LexTokenView>,
    depth: nat,
)
    requires
        tree.well_formed(),
    ensures
        closing(before + tree.written() + after, before.len(), depth) == closing(
            before + tree.written() + after,
            before.len() + tree.written().len(),
            depth,
        ),
    decreases tree,
{
    let s = before + tree.written() + after;
    let from = before.len();
    match tree {
        Tree::Leaf(o) => {
            assert(s[from as int] == literal_token(o));
        },
        Tree::Group(inner) => {
            assert(s[from as int] == LexTokenView::OpenParenthesis);
            let pre = before.push(LexTokenView::OpenParenthesis);
            let post = seq![LexTokenView::CloseParenthesis] + after;
            assert(s =~= pre + inner.written() + post);
            lemma_closing_tree(pre, *inner, post, depth + 1);
            assert(s[from as int + 1 + inner.written().len()] == LexTokenView::CloseParenthesis);
        },
        Tree::Prefix(op, inner) => {
            assert(s[from as int] == prefix_token(op));
            let pre = before.push(prefix_token(op));
            assert(s =~= pre + inner.written() + after);
            lemma_closing_tree(pre, *inner, after, depth);
        },
        Tree::Call(name, args) => {
            assert(s[from as int] == LexTokenView::Custom(name));
            assert(s[from as int + 1] == LexTokenView::OpenParenthesis);
            let pre = before + seq![LexTokenView::Custom(name), LexTokenView::OpenParenthesis];
            let post = seq![LexTokenView::CloseParenthesis] + after;
            assert(s =~= pre + written_all(args) + post);
            lemma_closing_all(pre, args, post, depth + 1);
            assert(s[from as int + 2 + written_all(args).len()] == LexTokenView::CloseParenthesis);
        },
        Tree::Infix(left, op, right) => {
            let post = seq![infix_token(op)] + right.written() + after;
            assert(s =~= before + left.written() + post);
            lemma_closing_tree(before, *left, post, depth);
            let at = from + left.written().len();
            assert(s[at as int] == infix_token(op));
            let pre = before + left.written() + seq![infix_token(op)];
            assert(s =~= pre + right.written() + after);
            lemma_closing_tree(pre, *right, after, depth);
        },
    }
}

/// The search for the closing parenthesis passes over a list of arguments.
proof fn lemma_closing_all(
    before: Seq<LexTokenView>,
    args: Seq<Tree>,
    after: Seq<LexTokenView>,
    depth: nat,
)
    requires
        all_formed(args),
    ensures
        closing(before + written_all(args) + after, before.len(), depth) == closing(
            before + written_all(args) + after,
            before.len() + written_all(args).len(),
            depth,
        ),
    decreases args,
{
    let s = before + written_all(args) + after;
    if args.len() == 1 {
        lemma_closing_tree(before, args.last(), after, depth);
    } else if args.len() > 1 {
        let front = args.drop_last();
        let last = args.last();
        let post = seq![LexTokenView::Comma] + last.written() + after;
        assert(s =~= before + written_all(front) + post);
        lemma_closing_all(before, front, post, depth);
        let at = before.len() + written_all(front).len();
        assert(s[at as int] == LexTokenView::Comma);
        let pre = before + written_all(front) + seq![LexTokenView::Comma];
        assert(s =~= pre + last.written() + after);
        lemma_closing_tree(pre, last, after, depth);
    }
}

/// The search for the comma that ends an argument passes over a tree: the
/// commas of a tree stand in parentheses.
proof fn lemma_boundary_tree(
    before: Seq<LexTokenView>,
    tree: Tree,
    after: Seq<LexTokenView>,
    depth: nat,
)
    requires
        tree.well_formed(),
    ensures
        boundary(before + tree.written() + after, before.len(), depth) == boundary(
            before + tree.written() + after,
            before.len() + tree.written().len(),
            depth,
        ),
    decreases tree,
{
    let s = before + tree.written() + after;
    let from = before.len();
    match tree {
        Tree::Leaf(o) => {
            assert(s[from as int] == literal_token(o));
            assert(is_plain(literal_token(o)));
            assert(boundary(s, from, depth) == boundary(s, from + 1, depth));
        },
        Tree::Group(inner) => {
            assert(s[from as int] == LexTokenView::OpenParenthesis);
            let pre = before.push(LexTokenView::OpenParenthesis);
            let post = seq![LexTokenView::CloseParenthesis] + after;
            assert(s =~= pre + inner.written() + post);
            lemma_boundary_tree(pre, *inner, post, depth + 1);
            assert(s[from as int + 1 + inner.written().len()] == LexTokenView::CloseParenthesis);
        },
        Tree::Prefix(op, inner) => {
            assert(s[from as int] == prefix_token(op));
            let pre = before.push(prefix_token(op));
            assert(s =~= pre + inner.written() + after);
            lemma_boundary_tree(pre, *inner, after, depth);
        },
        Tree::Call(name, args) => {
            assert(s[from as int] == LexTokenView::Custom(name));
            assert(s[from as int + 1] == LexTokenView::OpenParenthesis);
            let pre = before + seq![LexTokenView::Custom(name), LexTokenView::OpenParenthesis];
            let post = seq![LexTokenView::CloseParenthesis] + after;
            assert(s =~= pre + written_all(args) + post);
            lemma_boundary_all(pre, args, post, depth + 1);
            let close = from + 2 + written_all(args).len();
            assert(s[close as int] == LexTokenView::CloseParenthesis);
            assert(boundary(s, from, depth) == boundary(s, from + 1, depth));
            assert(boundary(s, from + 1, depth) == boundary(s, from + 2, depth + 1));
            assert(pre.len() == from + 2);
            assert(boundary(s, from + 2, depth + 1) == boundary(s, close, depth + 1));
            assert(boundary(s, close, depth + 1) == boundary(s, close + 1, depth));
            assert(tree.written().len() == written_all(args).len() + 3);
        },
        Tree::Infix(left, op, right) => {
            let post = seq![infix_token(op)] + right.written() + after;
            assert(s =~= before + left.written() + post);
            lemma_boundary_tree(before, *left, post, depth);
            let at = from + left.written().len();
            assert(s[at as int] == infix_token(op));
            let pre = before + left.written() + seq![infix_token(op)];
            assert(s =~= pre + right.written() + after);
            lemma_boundary_tree(pre, *right, after, depth);
        },
    }
}

/// Inside parentheses the search for the comma that ends an argument passes
/// over a list of arguments.
proof fn lemma_boundary_all(
    before: Seq<LexTokenView>,
    args: Seq<Tree>,
    after: Seq<LexTokenView>,
    depth: nat,
)
    requires
        all_formed(args),
        depth > 0,
    ensures
        boundary(before + written_all(args) + after, before.len(), depth) == boundary(
            before + written_all(args) + after,
            before.len() + written_all(args).len(),
            depth,
        ),
    decreases args,
{
    let s = before + written_all(args) + after;
    if args.len() == 1 {
        lemma_boundary_tree(before, args.last(), after, depth);
    } else if args.len() > 1 {
        let front = args.drop_last();
        let last = args.last();
        let post = seq![LexTokenView::Comma] + last.written() + after;
        assert(s =~= before + written_all(front) + post);
        lemma_boundary_all(before, front, post, depth);
        let at = before.len() + written_all(front).len();
        assert(s[at as int] == LexTokenView::Comma);
        let pre = before + written_all(front) + seq![LexTokenView::Comma];
        assert(s =~= pre + last.written() + after);
        lemma_boundary_tree(pre, last, after, depth);
    }
}

/// Where an operand is due, the parser reads the tokens of a tree into the
/// infix sequence of the tree, and then an operator is due.
pub proof fn lemma_parse_tree(tree: Tree, rest: Seq<LexTokenView>)
    requires
        tree.well_formed(),
    ensures
        expression(tree.written() + rest, true) == expression(rest, false).after(tree.infix()),
    decreases tree, 1nat,
{
    let input = tree.written() + rest;
    let then = expression(rest, false);
    match tree {
        Tree::Leaf(o) => {
            assert(input.first() == literal_token(o));
            assert(input.drop_first() =~= rest);
        },
        Tree::Group(inner) => {
            assert(input.first() == LexTokenView::OpenParenthesis);
            let closed = seq![LexTokenView::CloseParenthesis] + rest;
            assert(input.drop_first() =~= inner.written() + closed);
            lemma_parse_tree(*inner, closed);
            assert(closed.first() == LexTokenView::CloseParenthesis);
            assert(closed.drop_first() =~= rest);
            assert(expression(closed, false) == (Parsed {
                result: Ok(Seq::empty()),
                rest: rest,
            }));
            assert(inner.infix() + Seq::<ExprTokenView>::empty() =~= inner.infix());
        },
        Tree::Prefix(op, inner) => {
            assert(input.first() == prefix_token(op));
            assert(input.drop_first() =~= inner.written() + rest);
            lemma_parse_tree(*inner, rest);
            lemma_after_after(then, inner.infix(), seq![operator(op)]);
        },
        Tree::Call(name, args) => {
            assert(input.first() == LexTokenView::Custom(name));
            let tail = input.drop_first();
            let listed = written_all(args);
            let closed = seq![LexTokenView::CloseParenthesis] + rest;
            assert(tail =~= seq![LexTokenView::OpenParenthesis] + listed + closed);
            assert(tail.first() == LexTokenView::OpenParenthesis);
            let inside = tail.drop_first();
            assert(inside =~= Seq::<LexTokenView>::empty() + listed + closed);
            lemma_closing_all(Seq::empty(), args, closed, 0);
            assert(inside[listed.len() as int] == LexTokenView::CloseParenthesis);
            assert(closing(inside, 0, 0) == Some(listed.len()));
            assert(inside.take(listed.len() as int) =~= listed);
            assert(inside.skip(listed.len() as int + 1) =~= rest);
            lemma_segments(Seq::empty(), args);
            assert(Seq::<LexTokenView>::empty() + listed =~= listed);
            assert(arguments(tail) == (Parsed { result: Ok(infix_all(args)), rest: rest }));
        },
        Tree::Infix(left, op, right) => {
            let middle = seq![infix_token(op)] + right.written() + rest;
            assert(input =~= left.written() + middle);
            lemma_parse_tree(*left, middle);
            assert(middle.first() == infix_token(op));
            assert(middle.drop_first() =~= right.written() + rest);
            lemma_parse_tree(*right, rest);
            lemma_after_after(then, right.infix(), seq![operator(op)]);
            lemma_after_after(then, seq![operator(op)] + right.infix(), left.infix());
            assert(left.infix() + (seq![operator(op)] + right.infix()) =~= tree.infix());
        },
    }
}

/// The parser reads a list of arguments argument by argument.
proof fn lemma_segments(before: Seq<LexTokenView>, args: Seq<Tree>)
    requires
        args.len() > 0,
        all_formed(args),
    ensures
        segments(before + written_all(args), before.len()) == Ok::<
            Seq<ExprTokenView>,
            ErrorView,
        >(infix_all(args)),
    decreases args, 0nat,
{
    let inside = before + written_all(args);
    let first = args.first();
    let others = args.drop_first();
    lemma_written_front(args);
    lemma_infix_front(args);
    lemma_all_formed_front(args);
    let start = before.len();
    let end = start + first.written().len();
    lemma_written_nonempty(first);
    assert(decreases_to!(args => first));
    lemma_parse_tree(first, Seq::empty());
    assert(first.written() + Seq::<LexTokenView>::empty() =~= first.written());
    assert(first.infix() + Seq::<ExprTokenView>::empty() =~= first.infix());
    assert(expression(first.written(), true).result == Ok::<Seq<ExprTokenView>, ErrorView>(
        first.infix(),
    ));
    if args.len() == 1 {
        assert(inside =~= before + first.written() + Seq::<LexTokenView>::empty());
        lemma_boundary_tree(before, first, Seq::empty(), 0);
        assert(boundary(inside, end, 0) == end);
        assert(inside.subrange(start as int, end as int) =~= first.written());
        assert(others =~= Seq::<Tree>::empty());
        assert(first.infix() + infix_all(others) =~= first.infix());
    } else {
        let more = seq![LexTokenView::Comma] + written_all(others);
        assert(inside =~= before + first.written() + more);
        lemma_boundary_tree(before, first, more, 0);
        assert(inside[end as int] == LexTokenView::Comma);
        assert(boundary(inside, end, 0) == end);
        assert(inside.subrange(start as int, end as int) =~= first.written());
        let pre = before + first.written() + seq![LexTokenView::Comma];
        assert(inside =~= pre + written_all(others));
        assert(decreases_to!(args => others));
        lemma_segments(pre, others);
    }
}

/// The parser reads the tokens of a tree that can be written into the infix
/// sequence of the tree, and leaves none.
pub proof fn lemma_parse_written(tree: Tree)
    requires
        tree.well_formed(),
    ensures
        expression(tree.written(), true) == (Parsed {
            result: Ok(tree.infix()),
            rest: Seq::empty(),
        }),
{
    lemma_parse_tree(tree, Seq::empty());
    assert(tree.written() + Seq::<LexTokenView>::empty() =~= tree.written());
    assert(tree.infix() + Seq::<ExprTokenView>::empty() =~= tree.infix());
}

} // verus!
