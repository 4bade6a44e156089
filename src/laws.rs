//! Laws that relate the compiled predicates and batch statements.
use vstd::prelude::*;
use crate::compile::fragment;
use crate::descriptor::{assignments, key_count, values_alias, Column};
use crate::matching::{accepts, accepts_all, accepts_some, leaves, leaves_all, Match};
use crate::schema::id_views;
use crate::value::{Value, ValueView};

verus! {

broadcast use vstd::std_specs::vec::group_vec_axioms;

/// Whether `m` is the conjunction of exactly the trees `cs`.
pub open spec fn is_and_of(m: Match, cs: Seq<Match>) -> bool {
    match m {
        Match::And(v) => v@ == cs,
        _ => false,
    }
}

/// Whether `m` is the disjunction of exactly the trees `cs`.
pub open spec fn is_or_of(m: Match, cs: Seq<Match>) -> bool {
    match m {
        Match::Or(v) => v@ == cs,
        _ => false,
    }
}

/// Whether `m` is the negation of `c`.
pub open spec fn is_not_of(m: Match, c: Match) -> bool {
    match m {
        Match::Not(b) => *b == c,
        _ => false,
    }
}

/// What the conjunction and the disjunction of a pair of trees accept.
proof fn lemma_pair(p: Match, q: Match, x: ValueView, le: spec_fn(ValueView, ValueView) -> bool)
    ensures
        accepts_all(seq![p, q], x, le) == (accepts(p, x, le) && accepts(q, x, le)),
        accepts_some(seq![p, q], x, le) == (accepts(p, x, le) || accepts(q, x, le)),
{
    let e = Seq::<Match>::empty();
    assert(seq![p, q].drop_last() =~= seq![p]);
    assert(seq![p].drop_last() =~= e);
    assert(accepts_all(e, x, le));
    assert(!accepts_some(e, x, le));
    assert(accepts_all(seq![p], x, le) == accepts(p, x, le));
    assert(accepts_some(seq![p], x, le) == accepts(p, x, le));
}

/// What a pair of trees binds: the values of the first, then those of the second.
proof fn lemma_pair_leaves(p: Match, q: Match)
    ensures
        leaves_all(seq![p, q]) == leaves(p) + leaves(q),
{
    let e = Seq::<Match>::empty();
    assert(seq![p, q].drop_last() =~= seq![p]);
    assert(seq![p].drop_last() =~= e);
    assert(leaves_all(e) == Seq::<ValueView>::empty());
    assert(leaves_all(seq![p]) =~= leaves(p));
    assert(leaves_all(seq![p, q]) =~= leaves(p) + leaves(q));
}

/// Regrouping a conjunction of three trees changes neither the values the
/// tree accepts nor the parameters its predicate binds, in their order.
pub proof fn lemma_and_regroup(a: Match, b: Match, c: Match, ab: Match, bc: Match, left: Match, right: Match)
    requires
        is_and_of(ab, seq![a, b]),
        is_and_of(left, seq![ab, c]),
        is_and_of(bc, seq![b, c]),
        is_and_of(right, seq![a, bc]),
    ensures
        forall|x: ValueView, le: spec_fn(ValueView, ValueView) -> bool|
            accepts(left, x, le) == accepts(right, x, le),
        leaves(left) == leaves(right),
{
    assert forall|x: ValueView, le: spec_fn(ValueView, ValueView) -> bool|
        accepts(left, x, le) == accepts(right, x, le) by {
        lemma_pair(a, b, x, le);
        lemma_pair(ab, c, x, le);
        lemma_pair(b, c, x, le);
        lemma_pair(a, bc, x, le);
    }
    lemma_pair_leaves(a, b);
    lemma_pair_leaves(ab, c);
    lemma_pair_leaves(b, c);
    lemma_pair_leaves(a, bc);
    assert(leaves(left) =~= leaves(right));
}

/// Regrouping a disjunction of three trees changes neither the values the
/// tree accepts nor the parameters its predicate binds, in their order.
pub proof fn lemma_or_regroup(a: Match, b: Match, c: Match, ab: Match, bc: Match, left: Match, right: Match)
    requires
        is_or_of(ab, seq![a, b]),
        is_or_of(left, seq![ab, c]),
        is_or_of(bc, seq![b, c]),
        is_or_of(right, seq![a, bc]),
    ensures
        forall|x: ValueView, le: spec_fn(ValueView, ValueView) -> bool|
            accepts(left, x, le) == accepts(right, x, le),
        leaves(left) == leaves(right),
{
    assert forall|x: ValueView, le: spec_fn(ValueView, ValueView) -> bool|
        accepts(left, x, le) == accepts(right, x, le) by {
        lemma_pair(a, b, x, le);
        lemma_pair(ab, c, x, le);
        lemma_pair(b, c, x, le);
        lemma_pair(a, bc, x, le);
    }
    lemma_pair_leaves(a, b);
    lemma_pair_leaves(ab, c);
    lemma_pair_leaves(b, c);
    lemma_pair_leaves(a, bc);
    assert(leaves(left) =~= leaves(right));
}

/// The negation of an empty conjunction compiles to `NOT (TRUE)`, binds
/// nothing, and accepts no value.
pub proof fn lemma_not_empty_and(e: Match, m: Match, col: Seq<char>, n: nat)
    requires
        is_and_of(e, Seq::empty()),
        is_not_of(m, e),
    ensures
        fragment(m, col, n) == "NOT (TRUE)"@,
        leaves(m) == Seq::<ValueView>::empty(),
        forall|x: ValueView, le: spec_fn(ValueView, ValueView) -> bool| !accepts(m, x, le),
{
    reveal_strlit("NOT (");
    reveal_strlit("TRUE");
    reveal_strlit(")");
    reveal_strlit("NOT (TRUE)");
    assert(fragment(e, col, n) == "TRUE"@);
    assert(fragment(m, col, n) =~= "NOT (TRUE)"@);
    assert(leaves_all(Seq::<Match>::empty()) =~= Seq::<ValueView>::empty());
    assert(leaves(e) == Seq::<ValueView>::empty());
    assert forall|x: ValueView, le: spec_fn(ValueView, ValueView) -> bool| !accepts(m, x, le) by {
        assert(accepts_all(Seq::<Match>::empty(), x, le));
        assert(accepts(e, x, le));
    }
}

/// The negation of an empty disjunction compiles to `NOT (FALSE)`, binds
/// nothing, and accepts every value.
pub proof fn lemma_not_empty_or(e: Match, m: Match, col: Seq<char>, n: nat)
    requires
        is_or_of(e, Seq::empty()),
        is_not_of(m, e),
    ensures
        fragment(m, col, n) == "NOT (FALSE)"@,
        leaves(m) == Seq::<ValueView>::empty(),
        forall|x: ValueView, le: spec_fn(ValueView, ValueView) -> bool| accepts(m, x, le),
{
    reveal_strlit("NOT (");
    reveal_strlit("FALSE");
    reveal_strlit(")");
    reveal_strlit("NOT (FALSE)");
    assert(fragment(e, col, n) == "FALSE"@);
    assert(fragment(m, col, n) =~= "NOT (FALSE)"@);
    assert(leaves_all(Seq::<Match>::empty()) =~= Seq::<ValueView>::empty());
    assert(leaves(e) == Seq::<ValueView>::empty());
    assert forall|x: ValueView, le: spec_fn(ValueView, ValueView) -> bool| accepts(m, x, le) by {
        assert(!accepts_some(Seq::<Match>::empty(), x, le));
        assert(!accepts(e, x, le));
    }
}

/// A disjunction of equalities, one per identity value, accepts exactly the
/// values among them.
pub proof fn lemma_equalities_accept(cs: Seq<Match>, ids: Seq<i64>, x: ValueView, le: spec_fn(ValueView, ValueView) -> bool)
    requires
        cs.len() == ids.len(),
        forall|j: int| 0 <= j < cs.len() ==> cs[j] == Match::EqualTo(Value::Int(ids[j])),
    ensures
        accepts_some(cs, x, le) <==> id_views(ids).contains(x),
    decreases cs.len(),
{
    if cs.len() > 0 {
        let k = cs.len() - 1;
        lemma_equalities_accept(cs.drop_last(), ids.drop_last(), x, le);
        assert(id_views(ids) =~= id_views(ids.drop_last()).push(ValueView::Int(ids[k] as int)));
        assert(accepts(cs.last(), x, le) == (x == ValueView::Int(ids[k] as int)));
        if id_views(ids).contains(x) && x != ValueView::Int(ids[k] as int) {
            let j = choose|j: int| 0 <= j < id_views(ids).len() && id_views(ids)[j] == x;
            assert(id_views(ids.drop_last())[j] == x);
        }
        if id_views(ids.drop_last()).contains(x) {
            let j = choose|j: int| 0 <= j < id_views(ids.drop_last()).len() && id_views(ids.drop_last())[j] == x;
            assert(id_views(ids)[j] == x);
        }
        if x == ValueView::Int(ids[k] as int) {
            assert(id_views(ids)[k] == x);
        }
    } else {
        assert(id_views(ids) =~= Seq::<ValueView>::empty());
    }
}

/// An update sets every column outside the key, so it makes as many
/// assignments as there are columns less key columns; and its derived table's
/// alias differs from the target's.
pub proof fn lemma_update_assignments(cs: Seq<Column>, a: Seq<char>)
    ensures
        assignments(cs, values_alias(a)).len() + key_count(cs) == cs.len(),
        values_alias(a) != a,
    decreases cs.len(),
{
    if cs.len() > 0 {
        lemma_update_assignments(cs.drop_last(), a);
    }
    assert(values_alias(a).len() > a.len()) by {
        reveal_strlit("_v");
    }
}

} // verus!
