//! Compilation of match trees into parameterized SQL predicates.
use vstd::prelude::*;
use vstd::string::StringExecFns;
use crate::matching::{leaves, leaves_all, Match};
use crate::query::{placeholder, placeholder_list, Query};
use crate::schema::PgSchema;
use crate::value::ValueView;

verus! {

broadcast use vstd::std_specs::vec::group_vec_axioms;

/// The reference to `column` under `alias`: `<alias>.<column>`, or the bare
/// column where the alias is empty.
pub open spec fn column_ref(alias: Seq<char>, column: Seq<char>) -> Seq<char> {
    if alias.len() == 0 {
        column
    } else {
        alias + "."@ + column
    }
}

/// The predicate that `m` compiles to over the column reference `col`, when
/// `n` parameters are bound before it.
pub open spec fn fragment(m: Match, col: Seq<char>, n: nat) -> Seq<char>
    decreases m,
{
    match m {
        Match::Any => "TRUE"@,
        Match::EqualTo(_) => col + " = "@ + placeholder(n),
        Match::InRange(_, _) => "("@ + col + " BETWEEN "@ + placeholder(n) + " AND "@ + placeholder(n + 1)
            + ")"@,
        Match::HasAny(vs) => if vs@.len() == 0 {
            "FALSE"@
        } else {
            col + " IN ("@ + placeholder_list(n, vs@.len()) + ")"@
        },
        Match::And(cs) => if cs@.len() == 0 {
            "TRUE"@
        } else {
            joined(cs@, col, n, " AND "@)
        },
        Match::Or(cs) => if cs@.len() == 0 {
            "FALSE"@
        } else {
            joined(cs@, col, n, " OR "@)
        },
        Match::Not(c) => "NOT ("@ + fragment(*c, col, n) + ")"@,
    }
}

/// The predicates of the trees of `cs`, each in parentheses, separated by `sep`.
pub open spec fn joined(cs: Seq<Match>, col: Seq<char>, n: nat, sep: Seq<char>) -> Seq<char>
    decreases cs,
{
    if cs.len() == 0 {
        Seq::empty()
    } else if cs.len() == 1 {
        "("@ + fragment(cs[0], col, n) + ")"@
    } else {
        joined(cs.drop_last(), col, n, sep) + sep + "("@ + fragment(
            cs.last(),
            col,
            n + leaves_all(cs.drop_last()).len(),
        ) + ")"@
    }
}

fn write_fragment(col: &str, m: &Match, q: &mut Query)
    ensures
        final(q).text() == old(q).text() + fragment(*m, col@, old(q).bound().len()),
        final(q).bound() == old(q).bound() + leaves(*m),
    decreases m,
{
    let ghost n = q.bound().len();
    match m {
        Match::Any => {
            q.push("TRUE");
        },
        Match::EqualTo(v) => {
            q.push(col);
            q.push(" = ");
            q.push_bind(v.copy());
        },
        Match::InRange(lo, hi) => {
            q.push("(");
            q.push(col);
            q.push(" BETWEEN ");
            q.push_bind(lo.copy());
            q.push(" AND ");
            q.push_bind(hi.copy());
            q.push(")");
        },
        Match::HasAny(vs) => {
            if vs.len() == 0 {
                q.push("FALSE");
                assert(leaves(*m) =~= Seq::<ValueView>::empty());
            } else {
                q.push(col);
                q.push(" IN (");
                q.push_binds(vs);
                q.push(")");
                assert(q.bound() =~= old(q).bound() + leaves(*m));
            }
        },
        Match::And(cs) => {
            if cs.len() == 0 {
                q.push("TRUE");
                assert(leaves_all(cs@) =~= Seq::<ValueView>::empty());
            } else {
                write_joined(col, cs, " AND ", q);
            }
        },
        Match::Or(cs) => {
            if cs.len() == 0 {
                q.push("FALSE");
                assert(leaves_all(cs@) =~= Seq::<ValueView>::empty());
            } else {
                write_joined(col, cs, " OR ", q);
            }
        },
        Match::Not(c) => {
            q.push("NOT (");
            write_fragment(col, c, q);
            q.push(")");
        },
    }
    assert(q.text() =~= old(q).text() + fragment(*m, col@, n));
    assert(q.bound() =~= old(q).bound() + leaves(*m));
}

fn write_joined(col: &str, cs: &Vec<Match>, sep: &str, q: &mut Query)
    ensures
        final(q).text() == old(q).text() + joined(cs@, col@, old(q).bound().len(), sep@),
        final(q).bound() == old(q).bound() + leaves_all(cs@),
    decreases cs,
{
    let ghost n = q.bound().len();
    let mut i: usize = 0;
    while i < cs.len()
        invariant
            i <= cs@.len(),
            n == old(q).bound().len(),
            q.text() == old(q).text() + joined(cs@.take(i as int), col@, n, sep@),
            q.bound() == old(q).bound() + leaves_all(cs@.take(i as int)),
        decreases cs@.len() - i,
    {
        let ghost before = cs@.take(i as int);
        let ghost after = cs@.take(i + 1);
        assert(after.drop_last() =~= before);
        assert(after.last() == cs@[i as int]);
        if i > 0 {
            q.push(sep);
        }
        q.push("(");
        let ghost mid = q.text();
        assert(q.bound() == old(q).bound() + leaves_all(before));
        assert(q.bound().len() == n + leaves_all(before).len());
        write_fragment(col, &cs[i], q);
        assert(q.text() == mid + fragment(cs@[i as int], col@, n + leaves_all(before).len()));
        q.push(")");
        assert(q.bound() =~= old(q).bound() + leaves_all(after));
        if i == 0 {
            assert(leaves_all(before) =~= Seq::<ValueView>::empty());
            assert(after[0] == cs@[0]);
            assert(q.text() =~= old(q).text() + joined(after, col@, n, sep@));
        } else {
            assert(q.text() =~= old(q).text() + joined(before, col@, n, sep@) + sep@ + "("@ + fragment(
                cs@[i as int],
                col@,
                n + leaves_all(before).len(),
            ) + ")"@);
        }
        i += 1;
    }
    assert(cs@.take(cs@.len() as int) =~= cs@);
}

impl PgSchema {
    /// Appends to `q` the predicate that `m` compiles to over `column` under
    /// `alias` (the empty alias leaves the column bare), binding the values of
    /// `m` in pre-order after those that `q` already holds.
    pub fn write_where_clause(alias: &str, column: &str, m: &Match, q: &mut Query)
        ensures
            final(q).text() == old(q).text() + fragment(
                *m,
                column_ref(alias@, column@),
                old(q).bound().len(),
            ),
            final(q).bound() == old(q).bound() + leaves(*m),
    {
        let col = if alias.is_empty() {
            String::from_str(column)
        } else {
            let mut c = String::from_str(alias);
            c.append(".");
            c.append(column);
            c
        };
        write_fragment(col.as_str(), m, q);
    }
}

} // verus!
