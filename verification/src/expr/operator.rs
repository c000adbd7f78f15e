//! The operators of the calculator and their binding strength.
use vstd::prelude::*;

verus! {

/// The key under which a handler is registered.
#[derive(Debug, Clone, PartialEq, Eq, Hash)]
pub enum Operator {
    Add,
    Minus,
    Mul,
    Div,
    OpenParenthesis,
    CloseParenthesis,
    BitOr,
    BitAnd,
    BitXor(usize),
    BitNot(usize),
    Expo,
    Mod,
    Custom(String),
    RightShift,
    LeftShift,
    Negate,
    Postive,
}

/// The mathematical value of an [`Operator`].
pub ghost enum OperatorView {
    Add,
    Minus,
    Mul,
    Div,
    OpenParenthesis,
    CloseParenthesis,
    BitOr,
    BitAnd,
    BitXor(usize),
    BitNot(usize),
    Expo,
    Mod,
    Custom(Seq<char>),
    RightShift,
    LeftShift,
    Negate,
    Postive,
}

impl View for Operator {
    type V = OperatorView;

    open spec fn view(&self) -> OperatorView {
        match self {
            Operator::Add => OperatorView::Add,
            Operator::Minus => OperatorView::Minus,
            Operator::Mul => OperatorView::Mul,
            Operator::Div => OperatorView::Div,
            Operator::OpenParenthesis => OperatorView::OpenParenthesis,
            Operator::CloseParenthesis => OperatorView::CloseParenthesis,
            Operator::BitOr => OperatorView::BitOr,
            Operator::BitAnd => OperatorView::BitAnd,
            Operator::BitXor(w) => OperatorView::BitXor(*w),
            Operator::BitNot(w) => OperatorView::BitNot(*w),
            Operator::Expo => OperatorView::Expo,
            Operator::Mod => OperatorView::Mod,
            Operator::Custom(name) => OperatorView::Custom(name@),
            Operator::RightShift => OperatorView::RightShift,
            Operator::LeftShift => OperatorView::LeftShift,
            Operator::Negate => OperatorView::Negate,
            Operator::Postive => OperatorView::Postive,
        }
    }
}

impl OperatorView {
    /// The rank of the operator: a lower rank binds tighter. Rank 0 is that of
    /// the prefix operators, and the parentheses have the loosest rank.
    pub open spec fn precedence(self) -> nat {
        match self {
            OperatorView::Custom(_) | OperatorView::BitNot(_) | OperatorView::Negate
            | OperatorView::Postive => 0,
            OperatorView::Expo => 2,
            OperatorView::Mul | OperatorView::Div | OperatorView::Mod => 3,
            OperatorView::Add | OperatorView::Minus => 4,
            OperatorView::LeftShift | OperatorView::RightShift => 5,
            OperatorView::BitAnd => 6,
            OperatorView::BitXor(_) => 7,
            OperatorView::BitOr => 8,
            OperatorView::OpenParenthesis | OperatorView::CloseParenthesis => 9,
        }
    }

    /// Whether the operator stands between two operands.
    pub open spec fn is_infix(self) -> bool {
        2 <= self.precedence() <= 8
    }

    /// Whether the operator stands in front of its operand.
    pub open spec fn is_prefix(self) -> bool {
        self.precedence() == 0
    }
}

impl Operator {
    /// The rank of the operator: a lower rank binds tighter.
    pub fn precedence(&self) -> (rank: usize)
        ensures
            rank == self@.precedence(),
    {
        match self {
            Operator::Custom(_) | Operator::BitNot(_) | Operator::Negate | Operator::Postive => 0,
            Operator::Expo => 2,
            Operator::Mul | Operator::Div | Operator::Mod => 3,
            Operator::Add | Operator::Minus => 4,
            Operator::LeftShift | Operator::RightShift => 5,
            Operator::BitAnd => 6,
            Operator::BitXor(_) => 7,
            Operator::BitOr => 8,
            Operator::OpenParenthesis | Operator::CloseParenthesis => 9,
        }
    }

    /// A copy of the operator.
    pub fn duplicate(&self) -> (r: Operator)
        ensures
            r == *self,
    {
        match self {
            Operator::Add => Operator::Add,
            Operator::Minus => Operator::Minus,
            Operator::Mul => Operator::Mul,
            Operator::Div => Operator::Div,
            Operator::OpenParenthesis => Operator::OpenParenthesis,
            Operator::CloseParenthesis => Operator::CloseParenthesis,
            Operator::BitOr => Operator::BitOr,
            Operator::BitAnd => Operator::BitAnd,
            Operator::BitXor(w) => Operator::BitXor(*w),
            Operator::BitNot(w) => Operator::BitNot(*w),
            Operator::Expo => Operator::Expo,
            Operator::Mod => Operator::Mod,
            Operator::Custom(name) => Operator::Custom(name.clone()),
            Operator::RightShift => Operator::RightShift,
            Operator::LeftShift => Operator::LeftShift,
            Operator::Negate => Operator::Negate,
            Operator::Postive => Operator::Postive,
        }
    }

    /// Whether two operators are the same key.
    pub fn same(&self, other: &Operator) -> (r: bool)
        ensures
            r == (self@ == other@),
    {
        match (self, other) {
            (Operator::Add, Operator::Add) => true,
            (Operator::Minus, Operator::Minus) => true,
            (Operator::Mul, Operator::Mul) => true,
            (Operator::Div, Operator::Div) => true,
            (Operator::OpenParenthesis, Operator::OpenParenthesis) => true,
            (Operator::CloseParenthesis, Operator::CloseParenthesis) => true,
            (Operator::BitOr, Operator::BitOr) => true,
            (Operator::BitAnd, Operator::BitAnd) => true,
            (Operator::BitXor(a), Operator::BitXor(b)) => *a == *b,
            (Operator::BitNot(a), Operator::BitNot(b)) => *a == *b,
            (Operator::Expo, Operator::Expo) => true,
            (Operator::Mod, Operator::Mod) => true,
            (Operator::Custom(a), Operator::Custom(b)) => *a == *b,
            (Operator::RightShift, Operator::RightShift) => true,
            (Operator::LeftShift, Operator::LeftShift) => true,
            (Operator::Negate, Operator::Negate) => true,
            (Operator::Postive, Operator::Postive) => true,
            _ => false,
        }
    }
}

} // verus!
