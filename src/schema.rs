//! Batch statements over a Postgres store.
use vstd::prelude::*;
use crate::compile::{column_ref, fragment, joined};
use crate::descriptor::{assignments, column_names, key_terms, values_alias, Column, Columns, Table};
use crate::matching::{leaves, leaves_all, Match};
use crate::query::{placeholder, placeholder_list, views, Query};
use crate::text::{join, lemma_join_push};
use crate::value::{Value, ValueView};

verus! {

broadcast use vstd::std_specs::vec::group_vec_axioms;

/// Builds the statements through which a Postgres store is changed and filtered.
pub struct PgSchema;

/// The views of identity values.
pub open spec fn id_views(ids: Seq<i64>) -> Seq<ValueView> {
    ids.map_values(|i: i64| ValueView::Int(i as int))
}

/// `k` equality terms over `col`, each in parentheses, binding the parameters
/// from position `n` on.
pub open spec fn equality_terms(col: Seq<char>, n: nat, k: nat) -> Seq<Seq<char>> {
    Seq::new(k, |i: int| "("@ + col + " = "@ + placeholder((n + i) as nat) + ")"@)
}

/// The text of the statement that deletes the rows of `table` whose `id` is
/// one of `k` bound values.
pub open spec fn delete_text(table: Seq<char>, k: nat) -> Seq<char> {
    "DELETE FROM "@ + table + " WHERE "@ + join(equality_terms("id"@, 0, k), " OR "@)
}

/// The values of `rows`, row after row.
pub open spec fn flat(rows: Seq<Vec<Value>>) -> Seq<ValueView>
    decreases rows.len(),
{
    if rows.len() == 0 {
        Seq::empty()
    } else {
        flat(rows.drop_last()) + views(rows.last()@)
    }
}

/// The tuples of a `VALUES` list: one per row, with a placeholder per value,
/// numbered on from position `n`.
pub open spec fn tuples(rows: Seq<Vec<Value>>, n: nat) -> Seq<Seq<char>>
    decreases rows.len(),
{
    if rows.len() == 0 {
        Seq::empty()
    } else {
        tuples(rows.drop_last(), n).push(
            "("@ + placeholder_list(n + flat(rows.drop_last()).len(), rows.last()@.len()) + ")"@,
        )
    }
}

/// The text of the statement that updates the table of `cs` from `rows`.
pub open spec fn update_text(cs: Columns, rows: Seq<Vec<Value>>) -> Seq<char> {
    let a = cs.table.default_alias@;
    let v = values_alias(a);
    "UPDATE "@ + cs.table.name@ + " AS "@ + a + " SET "@ + join(assignments(cs.columns@, v), ", "@)
        + " FROM (VALUES "@ + join(tuples(rows, 0), ", "@) + ") AS "@ + v + " ("@ + join(
        column_names(cs.columns@),
        ", "@,
    ) + ") WHERE "@ + join(key_terms(cs.columns@, a, v), " AND "@)
}

/// An `OR` of equalities binds the compared values in order and compiles to
/// the chain of parenthesized equality terms.
proof fn lemma_equality_chain(cs: Seq<Match>, ids: Seq<i64>, col: Seq<char>, n: nat)
    requires
        cs.len() == ids.len(),
        forall|j: int| 0 <= j < cs.len() ==> cs[j] == Match::EqualTo(Value::Int(ids[j])),
    ensures
        leaves_all(cs) == id_views(ids),
        joined(cs, col, n, " OR "@) == join(equality_terms(col, n, cs.len()), " OR "@),
    decreases cs.len(),
{
    let k = cs.len();
    if k == 0 {
        assert(id_views(ids) =~= Seq::<ValueView>::empty());
    } else {
        lemma_equality_chain(cs.drop_last(), ids.drop_last(), col, n);
        assert(leaves(cs.last()) == seq![ValueView::Int(ids.last() as int)]);
        assert(id_views(ids) =~= id_views(ids.drop_last()) + seq![ValueView::Int(ids.last() as int)]);
        assert(equality_terms(col, n, k).drop_last() =~= equality_terms(col, n, (k - 1) as nat));
        if k == 1 {
            assert(fragment(cs[0], col, n) == col + " = "@ + placeholder(n));
            assert(joined(cs, col, n, " OR "@) =~= equality_terms(col, n, k)[0]);
        } else {
            assert(fragment(cs.last(), col, (n + k - 1) as nat) == col + " = "@ + placeholder(
                (n + k - 1) as nat,
            ));
            assert(joined(cs, col, n, " OR "@) =~= join(equality_terms(col, n, (k - 1) as nat), " OR "@)
                + " OR "@ + equality_terms(col, n, k).last());
        }
    }
}

fn write_assignments(q: &mut Query, cs: &Vec<Column>, v: &str)
    ensures
        final(q).text() == old(q).text() + join(assignments(cs@, v@), ", "@),
        final(q).bound() == old(q).bound(),
{
    let mut any = false;
    let mut i: usize = 0;
    while i < cs.len()
        invariant
            i <= cs@.len(),
            q.text() == old(q).text() + join(assignments(cs@.take(i as int), v@), ", "@),
            q.bound() == old(q).bound(),
            any == (assignments(cs@.take(i as int), v@).len() > 0),
        decreases cs@.len() - i,
    {
        let ghost prev = assignments(cs@.take(i as int), v@);
        assert(cs@.take(i + 1).drop_last() =~= cs@.take(i as int));
        let c = &cs[i];
        if !c.key {
            if any {
                q.push(", ");
            }
            q.push(c.name.as_str());
            q.push(" = ");
            q.push(v);
            q.push(".");
            q.push(c.name.as_str());
            proof {
                lemma_join_push(prev, c.name@ + " = "@ + v@ + "."@ + c.name@, ", "@);
            }
            assert(q.text() =~= old(q).text() + join(assignments(cs@.take(i + 1), v@), ", "@));
            any = true;
        }
        i += 1;
    }
    assert(cs@.take(cs@.len() as int) =~= cs@);
}

fn write_key_terms(q: &mut Query, cs: &Vec<Column>, a: &str, v: &str)
    ensures
        final(q).text() == old(q).text() + join(key_terms(cs@, a@, v@), " AND "@),
        final(q).bound() == old(q).bound(),
{
    let mut any = false;
    let mut i: usize = 0;
    while i < cs.len()
        invariant
            i <= cs@.len(),
            q.text() == old(q).text() + join(key_terms(cs@.take(i as int), a@, v@), " AND "@),
            q.bound() == old(q).bound(),
            any == (key_terms(cs@.take(i as int), a@, v@).len() > 0),
        decreases cs@.len() - i,
    {
        let ghost prev = key_terms(cs@.take(i as int), a@, v@);
        assert(cs@.take(i + 1).drop_last() =~= cs@.take(i as int));
        let c = &cs[i];
        if c.key {
            if any {
                q.push(" AND ");
            }
            q.push(a);
            q.push(".");
            q.push(c.name.as_str());
            q.push(" = ");
            q.push(v);
            q.push(".");
            q.push(c.name.as_str());
            proof {
                lemma_join_push(prev, a@ + "."@ + c.name@ + " = "@ + v@ + "."@ + c.name@, " AND "@);
            }
            assert(q.text() =~= old(q).text() + join(key_terms(cs@.take(i + 1), a@, v@), " AND "@));
            any = true;
        }
        i += 1;
    }
    assert(cs@.take(cs@.len() as int) =~= cs@);
}

fn write_column_names(q: &mut Query, cs: &Vec<Column>)
    ensures
        final(q).text() == old(q).text() + join(column_names(cs@), ", "@),
        final(q).bound() == old(q).bound(),
{
    let mut i: usize = 0;
    while i < cs.len()
        invariant
            i <= cs@.len(),
            q.text() == old(q).text() + join(column_names(cs@.take(i as int)), ", "@),
            q.bound() == old(q).bound(),
        decreases cs@.len() - i,
    {
        assert(column_names(cs@.take(i + 1)) =~= column_names(cs@.take(i as int)).push(cs@[i as int].name@));
        if i > 0 {
            q.push(", ");
        }
        q.push(cs[i].name.as_str());
        proof {
            lemma_join_push(column_names(cs@.take(i as int)), cs@[i as int].name@, ", "@);
        }
        i += 1;
    }
    assert(cs@.take(cs@.len() as int) =~= cs@);
}

fn write_tuples(q: &mut Query, rows: &Vec<Vec<Value>>)
    ensures
        final(q).text() == old(q).text() + join(tuples(rows@, old(q).bound().len()), ", "@),
        final(q).bound() == old(q).bound() + flat(rows@),
{
    let ghost n = q.bound().len();
    let mut i: usize = 0;
    while i < rows.len()
        invariant
            i <= rows@.len(),
            n == old(q).bound().len(),
            q.text() == old(q).text() + join(tuples(rows@.take(i as int), n), ", "@),
            q.bound() == old(q).bound() + flat(rows@.take(i as int)),
        decreases rows@.len() - i,
    {
        let ghost prev = rows@.take(i as int);
        assert(rows@.take(i + 1).drop_last() =~= prev);
        if i > 0 {
            q.push(", ");
        }
        q.push("(");
        q.push_binds(&rows[i]);
        q.push(")");
        proof {
            lemma_join_push(
                tuples(prev, n),
                "("@ + placeholder_list(n + flat(prev).len(), rows@[i as int]@.len()) + ")"@,
                ", "@,
            );
        }
        assert(q.text() =~= old(q).text() + join(tuples(rows@.take(i + 1), n), ", "@));
        assert(q.bound() =~= old(q).bound() + flat(rows@.take(i + 1)));
        i += 1;
    }
    assert(rows@.take(rows@.len() as int) =~= rows@);
}

impl PgSchema {
    /// The statement that deletes the rows of `table` whose `id` is one of
    /// `ids`: `DELETE FROM <table> WHERE (id = $1) OR ... OR (id = $k)`, binding
    /// `ids` in order. There is none for no ids.
    pub fn delete_query(table: &Table, ids: &Vec<i64>) -> (r: Option<Query>)
        ensures
            r is None <==> ids@.len() == 0,
            r matches Some(q) ==> q.text() == delete_text(table.name@, ids@.len())
                && q.bound() == id_views(ids@),
    {
        if ids.len() == 0 {
            return None;
        }
        let mut ms: Vec<Match> = Vec::new();
        let mut i: usize = 0;
        while i < ids.len()
            invariant
                i <= ids@.len(),
                ms@.len() == i,
                forall|j: int| 0 <= j < i ==> ms@[j] == Match::EqualTo(Value::Int(ids@[j])),
            decreases ids@.len() - i,
        {
            ms.push(Match::from_id(ids[i]));
            i += 1;
        }
        let mut q = Query::new("DELETE FROM ");
        q.push(table.name.as_str());
        q.push(" WHERE ");
        let ghost before = q.text();
        let m = Match::Or(ms);
        PgSchema::write_where_clause("", "id", &m, &mut q);
        proof {
            reveal_strlit("");
            assert(column_ref(""@, "id"@) == "id"@);
            lemma_equality_chain(ms@, ids@, "id"@, 0);
            assert(q.text() =~= delete_text(table.name@, ids@.len()));
            assert(q.bound() =~= id_views(ids@));
        }
        Some(q)
    }

    /// The statement that updates the table of `cs` from `rows`, one row of
    /// values per tuple of a derived table whose columns are those of `cs` in
    /// order: the columns outside the key are set from it, and it is joined to
    /// the target on the key columns. The values are bound row after row. There
    /// is none for no rows.
    pub fn update_query(cs: &Columns, rows: &Vec<Vec<Value>>) -> (r: Option<Query>)
        requires
            cs.has_key(),
        ensures
            r is None <==> rows@.len() == 0,
            r matches Some(q) ==> q.text() == update_text(*cs, rows@) && q.bound() == flat(rows@),
    {
        if rows.len() == 0 {
            return None;
        }
        let a = cs.table.default_alias.as_str();
        let v = cs.values_alias();
        let mut q = Query::new("UPDATE ");
        q.push(cs.table.name.as_str());
        q.push(" AS ");
        q.push(a);
        q.push(" SET ");
        write_assignments(&mut q, &cs.columns, v.as_str());
        q.push(" FROM (VALUES ");
        assert(q.bound().len() == 0);
        write_tuples(&mut q, rows);
        q.push(") AS ");
        q.push(v.as_str());
        q.push(" (");
        write_column_names(&mut q, &cs.columns);
        q.push(") WHERE ");
        write_key_terms(&mut q, &cs.columns, a, v.as_str());
        assert(q.text() =~= update_text(*cs, rows@));
        assert(q.bound() =~= flat(rows@));
        Some(q)
    }
}

} // verus!
