//! Values bound to statement parameters.
use vstd::prelude::*;

verus! {

/// A value bound to a placeholder of a statement.
#[derive(Debug, PartialEq, Eq)]
pub enum Value {
    Int(i64),
    Text(String),
    /// `mantissa * 10^-scale`.
    Decimal(i64, u32),
    Bool(bool),
}

/// The mathematical content of a [`Value`].
pub enum ValueView {
    Int(int),
    Text(Seq<char>),
    Decimal(int, nat),
    Bool(bool),
}

impl View for Value {
    type V = ValueView;

    open spec fn view(&self) -> ValueView {
        match self {
            Value::Int(i) => ValueView::Int(*i as int),
            Value::Text(s) => ValueView::Text(s@),
            Value::Decimal(m, e) => ValueView::Decimal(*m as int, *e as nat),
            Value::Bool(b) => ValueView::Bool(*b),
        }
    }
}

impl Value {
    /// A copy of this value.
    pub fn copy(&self) -> (r: Value)
        ensures
            r@ == self@,
    {
        match self {
            Value::Int(i) => Value::Int(*i),
            Value::Text(s) => Value::Text(s.clone()),
            Value::Decimal(m, e) => Value::Decimal(*m, *e),
            Value::Bool(b) => Value::Bool(*b),
        }
    }
}

} // verus!
