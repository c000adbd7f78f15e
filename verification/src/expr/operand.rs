//! The values that the calculator computes with.
use vstd::prelude::*;
use crate::float::FloatUnit;
use crate::{Error, ErrorView, Float, Integer};

verus! {

/// The tag of an operand.
#[derive(Debug, PartialEq, Eq, Clone, Copy, Structural)]
pub enum OperandType {
    Integer,
    Float,
    String,
}

/// A value on the operand stack.
#[derive(Debug, Clone, PartialEq)]
pub enum Operand {
    Integer(Integer),
    Float(Float),
    String(String),
}

/// The mathematical value of an [`Operand`].
pub ghost enum OperandView {
    Integer(i128),
    Float(u64),
    String(Seq<char>),
}

impl OperandView {
    /// The tag of the value.
    pub open spec fn data_type(self) -> OperandType {
        match self {
            OperandView::Integer(_) => OperandType::Integer,
            OperandView::Float(_) => OperandType::Float,
            OperandView::String(_) => OperandType::String,
        }
    }
}

impl View for Operand {
    type V = OperandView;

    open spec fn view(&self) -> OperandView {
        match self {
            Operand::Integer(i) => OperandView::Integer(*i),
            Operand::Float(f) => OperandView::Float(*f),
            Operand::String(s) => OperandView::String(s@),
        }
    }
}

/// The error of an operand whose tag is `got` where one of `expected` is asked for.
pub open spec fn wrong_type(expected: Seq<OperandType>, got: OperandType) -> ErrorView {
    ErrorView::InvalidDataType { expected, got }
}

/// Builds the error of an operand of the wrong tag.
pub fn type_error(expected: Vec<OperandType>, got: OperandType) -> (e: Error)
    ensures
        e@ == wrong_type(expected@, got),
{
    Error::InvalidDataType { expected, got }
}

/// The tags of the two kinds of number, floating point first.
pub fn float_or_integer() -> (v: Vec<OperandType>)
    ensures
        v@ == seq![OperandType::Float, OperandType::Integer],
{
    let mut v = Vec::new();
    v.push(OperandType::Float);
    v.push(OperandType::Integer);
    v
}

/// A list that holds one tag.
pub fn only(t: OperandType) -> (v: Vec<OperandType>)
    ensures
        v@ == seq![t],
{
    let mut v = Vec::new();
    v.push(t);
    v
}

impl OperandView {
    /// What `to_float` gives for an operand that is no integer.
    pub open spec fn to_float_fixed(self) -> Result<OperandView, ErrorView> {
        match self {
            OperandView::String(_) => Err(
                wrong_type(seq![OperandType::Float, OperandType::Integer], OperandType::String),
            ),
            _ => Ok(self),
        }
    }

    /// Whether a pair of operands is promoted to floating point.
    pub open spec fn promotes_with(self, other: OperandView) -> bool {
        self is Float || other is Float
    }

    /// The integer that the value holds, if it holds one.
    pub open spec fn as_int(self) -> Result<i128, ErrorView> {
        match self {
            OperandView::Integer(i) => Ok(i),
            _ => Err(wrong_type(seq![OperandType::Integer], self.data_type())),
        }
    }

    /// The floating-point number that the value holds, if it holds one.
    pub open spec fn as_float(self) -> Result<u64, ErrorView> {
        match self {
            OperandView::Float(f) => Ok(f),
            _ => Err(wrong_type(seq![OperandType::Float], self.data_type())),
        }
    }

    /// The string that the value holds, if it holds one.
    pub open spec fn as_string(self) -> Result<Seq<char>, ErrorView> {
        match self {
            OperandView::String(s) => Ok(s),
            _ => Err(wrong_type(seq![OperandType::String], self.data_type())),
        }
    }
}

impl Operand {
    /// The tag of the operand.
    pub fn data_type(&self) -> (t: OperandType)
        ensures
            t == self@.data_type(),
    {
        match self {
            Operand::Float(_) => OperandType::Float,
            Operand::Integer(_) => OperandType::Integer,
            Operand::String(_) => OperandType::String,
        }
    }

    /// A copy of the operand.
    pub fn duplicate(&self) -> (r: Operand)
        ensures
            r == *self,
    {
        match self {
            Operand::Integer(i) => Operand::Integer(*i),
            Operand::Float(f) => Operand::Float(*f),
            Operand::String(s) => Operand::String(s.clone()),
        }
    }

    /// Widens a number to floating point. A floating-point operand is returned
    /// as it is, an integer is converted by `unit`, and a string is refused.
    pub fn to_float<F: FloatUnit>(self, unit: &F) -> (r: Result<Operand, Error>)
        ensures
            !(self@ is Integer) ==> crate::expr::operand::outcome(r) == self@.to_float_fixed(),
            self@ is Integer ==> r is Ok && r->Ok_0@ is Float,
    {
        match self {
            Operand::Float(_) => Ok(self),
            Operand::Integer(i) => Ok(Operand::Float(unit.from_int(i))),
            _ => Err(type_error(float_or_integer(), OperandType::String)),
        }
    }

    /// Rounds a number down to an integer. An integer is returned as it is, a
    /// floating-point operand is rounded by `unit`, and a string is refused.
    pub fn floor_to_int<F: FloatUnit>(self, unit: &F) -> (r: Result<Operand, Error>)
        ensures
            self@ is Integer ==> r is Ok && r->Ok_0@ == self@,
            self@ is Float ==> r is Ok && r->Ok_0@ is Integer,
            self@ is String ==> r is Err && r->Err_0@ == wrong_type(
                seq![OperandType::Float, OperandType::Integer],
                OperandType::String,
            ),
    {
        match self {
            Operand::Float(float) => Ok(Operand::Integer(unit.floor(float))),
            Operand::Integer(_) => Ok(self),
            _ => Err(type_error(float_or_integer(), OperandType::String)),
        }
    }

    /// Promotes both operands to floating point if either is one; otherwise
    /// returns them unchanged.
    pub fn upgrade_if_need<F: FloatUnit>(a: Operand, b: Operand, unit: &F) -> (r: Result<
        (Operand, Operand),
        Error,
    >)
        ensures
            !a@.promotes_with(b@) ==> r is Ok && r->Ok_0.0@ == a@ && r->Ok_0.1@ == b@,
            a@.promotes_with(b@) && (a@ is String || b@ is String) ==> r is Err && r->Err_0@
                == wrong_type(
                seq![OperandType::Float, OperandType::Integer],
                OperandType::String,
            ),
            a@.promotes_with(b@) && !(a@ is String) && !(b@ is String) ==> {
                &&& r is Ok
                &&& r->Ok_0.0@ is Float
                &&& r->Ok_0.1@ is Float
                &&& a@ is Float ==> r->Ok_0.0@ == a@
                &&& b@ is Float ==> r->Ok_0.1@ == b@
            },
    {
        let promote = match (&a, &b) {
            (Operand::Float(_), _) => true,
            (_, Operand::Float(_)) => true,
            _ => false,
        };
        if promote {
            let a = match a.to_float(unit) {
                Ok(a) => a,
                Err(e) => {
                    return Err(e);
                },
            };
            let b = match b.to_float(unit) {
                Ok(b) => b,
                Err(e) => {
                    return Err(e);
                },
            };
            Ok((a, b))
        } else {
            Ok((a, b))
        }
    }

    /// The integer that the operand holds; another operand is refused.
    pub fn as_int(&self) -> (r: Result<Integer, Error>)
        ensures
            match self@.as_int() {
                Ok(i) => r == Ok::<Integer, Error>(i),
                Err(e) => r is Err && r->Err_0@ == e,
            },
    {
        match self {
            Operand::Integer(i) => Ok(*i),
            _ => Err(type_error(only(OperandType::Integer), self.data_type())),
        }
    }

    /// The floating-point number that the operand holds; another operand is
    /// refused.
    pub fn as_float(&self) -> (r: Result<Float, Error>)
        ensures
            match self@.as_float() {
                Ok(f) => r == Ok::<Float, Error>(f),
                Err(e) => r is Err && r->Err_0@ == e,
            },
    {
        match self {
            Operand::Float(float) => Ok(*float),
            _ => Err(type_error(only(OperandType::Float), self.data_type())),
        }
    }

    /// The string that the operand holds; another operand is refused.
    pub fn as_string(&self) -> (r: Result<&str, Error>)
        ensures
            match self@.as_string() {
                Ok(s) => r is Ok && r->Ok_0@ == s,
                Err(e) => r is Err && r->Err_0@ == e,
            },
    {
        match self {
            Operand::String(s) => Ok(s.as_str()),
            _ => Err(type_error(only(OperandType::String), self.data_type())),
        }
    }
}

/// The mathematical value of the result of a step that yields an operand.
pub open spec fn outcome(r: Result<Operand, Error>) -> Result<OperandView, ErrorView> {
    match r {
        Ok(o) => Ok(o@),
        Err(e) => Err(e@),
    }
}

} // verus!
