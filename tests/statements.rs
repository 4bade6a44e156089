use clinvoice_adapter_postgres::descriptor::{Column, Columns, Table};
use clinvoice_adapter_postgres::matching::Match;
use clinvoice_adapter_postgres::query::Query;
use clinvoice_adapter_postgres::schema::PgSchema;
use clinvoice_adapter_postgres::value::Value;

fn jobs() -> Table {
    Table { name: String::from("jobs"), default_alias: String::from("j") }
}

fn column(name: &str, key: bool) -> Column {
    Column { name: String::from(name), key }
}

fn compiled(alias: &str, column: &str, m: &Match) -> Query {
    let mut q = Query::new("");
    PgSchema::write_where_clause(alias, column, m, &mut q);
    q
}

fn ints(values: &[i64]) -> Vec<Value> {
    values.iter().map(|i| Value::Int(*i)).collect()
}

#[test]
fn delete_without_ids_builds_nothing() {
    assert!(PgSchema::delete_query(&jobs(), &vec![]).is_none());
}

#[test]
fn delete_two_ids() {
    let q = PgSchema::delete_query(&jobs(), &vec![3, 7]).unwrap();
    assert_eq!(q.sql(), "DELETE FROM jobs WHERE (id = $1) OR (id = $2)");
    assert_eq!(q.params(), &ints(&[3, 7]));
}

#[test]
fn delete_one_id_has_no_joiner() {
    let q = PgSchema::delete_query(&jobs(), &vec![42]).unwrap();
    assert_eq!(q.sql(), "DELETE FROM jobs WHERE (id = $1)");
    assert_eq!(q.params(), &ints(&[42]));
}

#[test]
fn delete_keeps_input_order_past_nine_ids() {
    let ids: Vec<i64> = (1..=12).rev().collect();
    let q = PgSchema::delete_query(&jobs(), &ids).unwrap();
    let terms: Vec<String> = (1..=12).map(|i| format!("(id = ${})", i)).collect();
    assert_eq!(q.sql(), format!("DELETE FROM jobs WHERE {}", terms.join(" OR ")));
    assert_eq!(q.params(), &ints(&ids));
}

#[test]
fn update_one_row() {
    let cs = Columns {
        table: jobs(),
        columns: vec![column("id", true), column("name", false), column("rate", false)],
    };
    let rows = vec![vec![Value::Int(5), Value::Text(String::from("alice")), Value::Decimal(125, 1)]];
    let q = PgSchema::update_query(&cs, &rows).unwrap();
    assert_eq!(
        q.sql(),
        "UPDATE jobs AS j SET name = j_v.name, rate = j_v.rate FROM (VALUES ($1, $2, $3)) \
         AS j_v (id, name, rate) WHERE j.id = j_v.id"
    );
    assert_eq!(
        q.params(),
        &vec![Value::Int(5), Value::Text(String::from("alice")), Value::Decimal(125, 1)]
    );
}

#[test]
fn update_two_rows_and_two_keys() {
    let cs = Columns {
        table: Table { name: String::from("timesheets"), default_alias: String::from("t") },
        columns: vec![
            column("job_id", true),
            column("work_notes", false),
            column("employee_id", true),
        ],
    };
    let rows = vec![
        vec![Value::Int(1), Value::Text(String::from("a")), Value::Int(2)],
        vec![Value::Int(3), Value::Text(String::from("b")), Value::Int(4)],
    ];
    let q = PgSchema::update_query(&cs, &rows).unwrap();
    assert_eq!(
        q.sql(),
        "UPDATE timesheets AS t SET work_notes = t_v.work_notes FROM (VALUES ($1, $2, $3), ($4, $5, $6)) \
         AS t_v (job_id, work_notes, employee_id) \
         WHERE t.job_id = t_v.job_id AND t.employee_id = t_v.employee_id"
    );
    assert_eq!(q.params().len(), 6);
    assert_eq!(q.params()[3], Value::Int(3));
}

#[test]
fn update_without_rows_builds_nothing() {
    let cs = Columns { table: jobs(), columns: vec![column("id", true), column("name", false)] };
    assert!(PgSchema::update_query(&cs, &vec![]).is_none());
}

#[test]
fn or_of_three_ids() {
    let m = Match::Or(vec![Match::from_id(1), Match::from_id(2), Match::from_id(3)]);
    let q = compiled("", "id", &m);
    assert_eq!(q.sql(), "(id = $1) OR (id = $2) OR (id = $3)");
    assert_eq!(q.params(), &ints(&[1, 2, 3]));
}

#[test]
fn regrouped_and_binds_the_same_parameters() {
    let left = Match::And(vec![
        Match::And(vec![Match::from_id(1), Match::from_id(2)]),
        Match::from_id(3),
    ]);
    let right = Match::And(vec![
        Match::from_id(1),
        Match::And(vec![Match::from_id(2), Match::from_id(3)]),
    ]);
    let l = compiled("j", "id", &left);
    let r = compiled("j", "id", &right);
    assert_eq!(l.sql(), "((j.id = $1) AND (j.id = $2)) AND (j.id = $3)");
    assert_eq!(r.sql(), "(j.id = $1) AND ((j.id = $2) AND (j.id = $3))");
    assert_eq!(l.params(), r.params());
}

#[test]
fn not_of_empty_and_and_empty_or() {
    let q = compiled("", "id", &Match::Not(Box::new(Match::And(vec![]))));
    assert_eq!(q.sql(), "NOT (TRUE)");
    assert!(q.params().is_empty());
    let q = compiled("", "id", &Match::Not(Box::new(Match::Or(vec![]))));
    assert_eq!(q.sql(), "NOT (FALSE)");
    assert!(q.params().is_empty());
}

#[test]
fn empty_and_or_and_set() {
    assert_eq!(compiled("", "id", &Match::And(vec![])).sql(), "TRUE");
    assert_eq!(compiled("", "id", &Match::Or(vec![])).sql(), "FALSE");
    assert_eq!(compiled("", "id", &Match::HasAny(vec![])).sql(), "FALSE");
    assert_eq!(compiled("", "id", &Match::Any).sql(), "TRUE");
}

#[test]
fn set_membership_and_range() {
    let q = compiled("o", "id", &Match::HasAny(ints(&[4, 5])));
    assert_eq!(q.sql(), "o.id IN ($1, $2)");
    assert_eq!(q.params(), &ints(&[4, 5]));
    let q = compiled("j", "rate", &Match::InRange(Value::Int(10), Value::Int(20)));
    assert_eq!(q.sql(), "(j.rate BETWEEN $1 AND $2)");
    assert_eq!(q.params(), &ints(&[10, 20]));
}

#[test]
fn parameters_in_pre_order() {
    let m = Match::Or(vec![
        Match::InRange(Value::Int(1), Value::Int(2)),
        Match::Not(Box::new(Match::HasAny(ints(&[3, 4])))),
        Match::from_id(5),
    ]);
    let q = compiled("", "n", &m);
    assert_eq!(q.sql(), "((n BETWEEN $1 AND $2)) OR (NOT (n IN ($3, $4))) OR (n = $5)");
    assert_eq!(q.params(), &ints(&[1, 2, 3, 4, 5]));
}

#[test]
fn numbering_continues_across_columns() {
    let mut q = Query::new("");
    PgSchema::write_where_clause("e", "a", &Match::from_id(1), &mut q);
    q.push(" AND ");
    PgSchema::write_where_clause("e", "b", &Match::EqualTo(Value::Text(String::from("x"))), &mut q);
    assert_eq!(q.sql(), "e.a = $1 AND e.b = $2");
    assert_eq!(q.param_count(), 2);
    assert_eq!(q.params()[1], Value::Text(String::from("x")));
}
