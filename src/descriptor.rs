//! Descriptions of tables and of their persisted columns.
use vstd::prelude::*;
use vstd::string::StringExecFns;

verus! {

/// A table: its name and the alias that statements give it.
pub struct Table {
    pub name: String,
    pub default_alias: String,
}

/// A persisted column, and whether it belongs to the table's key.
pub struct Column {
    pub name: String,
    pub key: bool,
}

/// The persisted columns of a table, in the order in which statements list them.
pub struct Columns {
    pub table: Table,
    pub columns: Vec<Column>,
}

/// The alias of the derived table of an update, given the target's alias.
pub open spec fn values_alias(alias: Seq<char>) -> Seq<char> {
    alias + "_v"@
}

/// The names of `cs`, in order.
pub open spec fn column_names(cs: Seq<Column>) -> Seq<Seq<char>> {
    cs.map_values(|c: Column| c.name@)
}

/// The number of key columns in `cs`.
pub open spec fn key_count(cs: Seq<Column>) -> nat
    decreases cs.len(),
{
    if cs.len() == 0 {
        0
    } else {
        key_count(cs.drop_last()) + if cs.last().key {
            1nat
        } else {
            0nat
        }
    }
}

/// The `SET` assignments of an update: `<c> = <v>.<c>` for each column `c`
/// outside the key, in order, where `v` is the derived table's alias.
pub open spec fn assignments(cs: Seq<Column>, v: Seq<char>) -> Seq<Seq<char>>
    decreases cs.len(),
{
    if cs.len() == 0 {
        Seq::empty()
    } else if cs.last().key {
        assignments(cs.drop_last(), v)
    } else {
        assignments(cs.drop_last(), v).push(cs.last().name@ + " = "@ + v + "."@ + cs.last().name@)
    }
}

/// The terms that join an update's target to its derived table:
/// `<a>.<c> = <v>.<c>` for each key column `c`, in order.
pub open spec fn key_terms(cs: Seq<Column>, a: Seq<char>, v: Seq<char>) -> Seq<Seq<char>>
    decreases cs.len(),
{
    if cs.len() == 0 {
        Seq::empty()
    } else if cs.last().key {
        key_terms(cs.drop_last(), a, v).push(
            a + "."@ + cs.last().name@ + " = "@ + v + "."@ + cs.last().name@,
        )
    } else {
        key_terms(cs.drop_last(), a, v)
    }
}

impl Columns {
    /// Whether some column belongs to the key.
    pub open spec fn has_key(&self) -> bool {
        key_count(self.columns@) > 0
    }

    /// The alias of the derived table of an update of this table.
    pub fn values_alias(&self) -> (r: String)
        ensures
            r@ == values_alias(self.table.default_alias@),
    {
        let mut r = self.table.default_alias.clone();
        r.append("_v");
        r
    }
}

} // verus!
