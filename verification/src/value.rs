//! The values that the functions for the host expression language take and
//! return.
use vstd::prelude::*;
use crate::{Float, Integer};

verus! {

/// A value of the host expression language.
#[derive(Debug, PartialEq)]
pub enum Value {
    String(String),
    Float(Float),
    Int(Integer),
    Boolean(bool),
    Tuple(Vec<Value>),
    Empty,
}

/// The mathematical value of a [`Value`].
pub ghost enum ValueView {
    String(Seq<char>),
    Float(u64),
    Int(i128),
    Boolean(bool),
    Tuple(Seq<ValueView>),
    Empty,
}

/// The mathematical value of a value: that of a tuple holds those of its
/// items.
pub open spec fn value_of(value: Value) -> ValueView
    decreases value,
{
    match value {
        Value::String(s) => ValueView::String(s@),
        Value::Float(f) => ValueView::Float(f),
        Value::Int(i) => ValueView::Int(i),
        Value::Boolean(b) => ValueView::Boolean(b),
        Value::Tuple(items) => ValueView::Tuple(
            Seq::new(
                items@.len(),
                |i: int|
                    if 0 <= i < items@.len() {
                        value_of(items@[i])
                    } else {
                        ValueView::Empty
                    },
            ),
        ),
        Value::Empty => ValueView::Empty,
    }
}

impl View for Value {
    type V = ValueView;

    open spec fn view(&self) -> ValueView {
        value_of(*self)
    }
}

/// A list of values as a sequence of their mathematical values.
pub open spec fn views(items: Seq<Value>) -> Seq<ValueView> {
    Seq::new(items.len(), |i: int| items[i]@)
}

/// The value of a tuple is the tuple of its items' values.
pub proof fn lemma_tuple_view(value: Value)
    requires
        value is Tuple,
    ensures
        value@ == ValueView::Tuple(views(value->Tuple_0@)),
{
    assert(value_of(value)->Tuple_0 =~= views(value->Tuple_0@));
}

impl Value {
    /// A copy of the value.
    pub fn duplicate(&self) -> (r: Value)
        ensures
            r@ == self@,
        decreases self,
    {
        match self {
            Value::String(s) => Value::String(s.clone()),
            Value::Float(f) => Value::Float(*f),
            Value::Int(i) => Value::Int(*i),
            Value::Boolean(b) => Value::Boolean(*b),
            Value::Tuple(items) => {
                let mut copy: Vec<Value> = Vec::new();
                let mut i: usize = 0;
                while i < items.len()
                    invariant
                        i <= items@.len(),
                        copy@.len() == i,
                        self is Tuple,
                        self->Tuple_0 == *items,
                        forall|k: int| 0 <= k < i ==> (#[trigger] copy@[k])@ == items@[k]@,
                    decreases items@.len() - i,
                {
                    assert(decreases_to!(self => items@[i as int]));
                    copy.push(items[i].duplicate());
                    i = i + 1;
                }
                let r = Value::Tuple(copy);
                proof {
                    lemma_tuple_view(r);
                    lemma_tuple_view(*self);
                    assert(views(copy@) =~= views(items@));
                }
                r
            },
            Value::Empty => Value::Empty,
        }
    }
}

} // verus!
