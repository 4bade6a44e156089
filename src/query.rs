//! The query assembler: SQL text and the values bound to its placeholders.
use vstd::prelude::*;
use vstd::string::StringExecFns;
use crate::text::{decimal, push_decimal};
use crate::value::{Value, ValueView};

verus! {

/// The placeholder of the parameter at position `i` (counting from zero): `$<i + 1>`.
pub open spec fn placeholder(i: nat) -> Seq<char> {
    "$"@ + decimal(i + 1)
}

/// The placeholders of `k` parameters starting at position `n`, separated by `, `.
pub open spec fn placeholder_list(n: nat, k: nat) -> Seq<char>
    decreases k,
{
    if k == 0 {
        Seq::empty()
    } else if k == 1 {
        placeholder(n)
    } else {
        placeholder_list(n, (k - 1) as nat) + ", "@ + placeholder((n + k - 1) as nat)
    }
}

/// Views of a sequence of values.
pub open spec fn views(vs: Seq<Value>) -> Seq<ValueView> {
    vs.map_values(|v: Value| v@)
}

/// A statement under construction. Every value bound through `push_bind` is
/// paired with a placeholder numbered after its position in `params`, so the
/// placeholders of the text and the parameter list stay in step.
pub struct Query {
    sql: String,
    params: Vec<Value>,
}

impl Query {
    /// The text written so far.
    pub closed spec fn text(&self) -> Seq<char> {
        self.sql@
    }

    /// The values bound so far, in placeholder order.
    pub closed spec fn bound(&self) -> Seq<ValueView> {
        views(self.params@)
    }

    /// A query whose text starts with `s` and which binds nothing yet.
    pub fn new(s: &str) -> (q: Query)
        ensures
            q.text() == s@,
            q.bound() == Seq::<ValueView>::empty(),
    {
        let q = Query { sql: String::from_str(s), params: Vec::new() };
        assert(q.bound() =~= Seq::<ValueView>::empty());
        q
    }

    /// Appends `s` to the text.
    pub fn push(&mut self, s: &str)
        ensures
            final(self).text() == old(self).text() + s@,
            final(self).bound() == old(self).bound(),
    {
        self.sql.append(s);
    }

    /// Binds `v` as the next parameter and appends its placeholder to the text.
    pub fn push_bind(&mut self, v: Value)
        ensures
            final(self).text() == old(self).text() + placeholder(old(self).bound().len()),
            final(self).bound() == old(self).bound().push(v@),
    {
        let n = self.params.len() as u128 + 1;
        self.sql.append("$");
        push_decimal(&mut self.sql, n);
        self.params.push(v);
        assert(self.bound() =~= old(self).bound().push(v@));
        assert(self.sql@ =~= old(self).text() + placeholder(old(self).bound().len()));
    }

    /// Binds each of `vs` in order, appending their placeholders separated by `, `.
    pub fn push_binds(&mut self, vs: &Vec<Value>)
        ensures
            final(self).text() == old(self).text() + placeholder_list(old(self).bound().len(), vs@.len()),
            final(self).bound() == old(self).bound() + views(vs@),
    {
        let ghost n = self.bound().len();
        let mut i: usize = 0;
        while i < vs.len()
            invariant
                i <= vs@.len(),
                n == old(self).bound().len(),
                self.text() == old(self).text() + placeholder_list(n, i as nat),
                self.bound() == old(self).bound() + views(vs@.take(i as int)),
                self.bound().len() == n + i,
            decreases vs@.len() - i,
        {
            if i > 0 {
                self.push(", ");
            }
            self.push_bind(vs[i].copy());
            assert(views(vs@.take(i + 1)) =~= views(vs@.take(i as int)).push(vs@[i as int]@));
            if i == 0 {
                assert(self.text() =~= old(self).text() + placeholder_list(n, 1));
            } else {
                assert(self.text() =~= old(self).text() + placeholder_list(n, i as nat) + ", "@ + placeholder(
                    (n + i) as nat,
                ));
            }
            i += 1;
        }
        assert(vs@.take(vs@.len() as int) =~= vs@);
    }

    /// The number of values bound so far.
    pub fn param_count(&self) -> (r: usize)
        ensures
            r == self.bound().len(),
    {
        self.params.len()
    }

    /// The statement's text.
    pub fn sql(&self) -> (r: &str)
        ensures
            r@ == self.text(),
    {
        self.sql.as_str()
    }

    /// The bound values, in placeholder order.
    pub fn params(&self) -> (r: &Vec<Value>)
        ensures
            views(r@) == self.bound(),
    {
        &self.params
    }
}

} // verus!
