//! Match trees: composable filters over the value of one column.
use vstd::prelude::*;
use crate::query::views;
use crate::value::{Value, ValueView};

verus! {

broadcast use vstd::std_specs::vec::group_vec_axioms;

/// A filter over the value of a column.
pub enum Match {
    /// Every value.
    Any,
    /// Values equal to the operand.
    EqualTo(Value),
    /// Values between the two operands, both included.
    InRange(Value, Value),
    /// Values equal to one of the operands; none when there is no operand.
    HasAny(Vec<Value>),
    /// Values that every child accepts; every value when there is no child.
    And(Vec<Match>),
    /// Values that some child accepts; none when there is no child.
    Or(Vec<Match>),
    /// Values that the child rejects.
    Not(Box<Match>),
}

impl Match {
    /// The filter which accepts exactly `id`.
    pub fn from_id(id: i64) -> (m: Match)
        ensures
            m == Match::EqualTo(Value::Int(id)),
    {
        Match::EqualTo(Value::Int(id))
    }
}

/// The values that `m` binds, in pre-order, left to right.
pub open spec fn leaves(m: Match) -> Seq<ValueView>
    decreases m,
{
    match m {
        Match::Any => Seq::empty(),
        Match::EqualTo(v) => seq![v@],
        Match::InRange(lo, hi) => seq![lo@, hi@],
        Match::HasAny(vs) => views(vs@),
        Match::And(cs) => leaves_all(cs@),
        Match::Or(cs) => leaves_all(cs@),
        Match::Not(c) => leaves(*c),
    }
}

/// The values that the trees of `cs` bind, one tree after the other.
pub open spec fn leaves_all(cs: Seq<Match>) -> Seq<ValueView>
    decreases cs,
{
    if cs.len() == 0 {
        Seq::empty()
    } else {
        leaves_all(cs.drop_last()) + leaves(cs.last())
    }
}

/// Whether `m` accepts a column value `x`, where `le` is the store's order on values.
pub open spec fn accepts(m: Match, x: ValueView, le: spec_fn(ValueView, ValueView) -> bool) -> bool
    decreases m,
{
    match m {
        Match::Any => true,
        Match::EqualTo(v) => x == v@,
        Match::InRange(lo, hi) => le(lo@, x) && le(x, hi@),
        Match::HasAny(vs) => views(vs@).contains(x),
        Match::And(cs) => accepts_all(cs@, x, le),
        Match::Or(cs) => accepts_some(cs@, x, le),
        Match::Not(c) => !accepts(*c, x, le),
    }
}

/// Whether every tree of `cs` accepts `x`.
pub open spec fn accepts_all(cs: Seq<Match>, x: ValueView, le: spec_fn(ValueView, ValueView) -> bool) -> bool
    decreases cs,
{
    if cs.len() == 0 {
        true
    } else {
        accepts_all(cs.drop_last(), x, le) && accepts(cs.last(), x, le)
    }
}

/// Whether some tree of `cs` accepts `x`.
pub open spec fn accepts_some(cs: Seq<Match>, x: ValueView, le: spec_fn(ValueView, ValueView) -> bool) -> bool
    decreases cs,
{
    if cs.len() == 0 {
        false
    } else {
        accepts_some(cs.drop_last(), x, le) || accepts(cs.last(), x, le)
    }
}

} // verus!
