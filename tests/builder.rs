use lorm::commands::Fetch;
use lorm::model::{EntityModel, FieldSpec};
use lorm::predicates::{Aggregate, OrderBy, Where};
use lorm::value::{SqlType, Value};

const COLUMNS: &str = "id,email,count,created_at,updated_at";

fn text(s: &str) -> Value {
    Value::Text(s.to_string())
}

fn model(backend: &str) -> EntityModel {
    let fields = vec![
        FieldSpec::new("id", SqlType::Integer).pk().readonly(),
        FieldSpec::new("email", SqlType::Text).lookup_by(),
        FieldSpec::new("count", SqlType::Integer).nullable().lookup_by(),
        FieldSpec::new("created_at", SqlType::Text).created_at().readonly(),
        FieldSpec::new("updated_at", SqlType::Text).updated_at(),
    ];
    EntityModel::compile(&"AltUser".to_string(), &None, &fields, &vec![backend.to_string()]).unwrap()
}

#[test]
fn empty_select_lists_all_columns() {
    let m = model("sqlite");
    let st = m.select().build();
    assert_eq!(st.sql, format!("SELECT {} FROM alt_users", COLUMNS));
    assert!(st.args.is_empty());
    assert_eq!(st.fetch, Fetch::All);
}

#[test]
fn order_desc_with_limit_and_offset() {
    let m = model("sqlite");
    let st = m.select().order_by(1, OrderBy::Desc).limit(2).build();
    assert_eq!(st.sql, format!("SELECT {} FROM alt_users ORDER BY email DESC LIMIT $1", COLUMNS));
    assert_eq!(st.args, vec![Value::Int(2)]);
    let st = m.select().order_by(1, OrderBy::Desc).limit(2).offset(2).build();
    assert_eq!(
        st.sql,
        format!("SELECT {} FROM alt_users ORDER BY email DESC LIMIT $1 OFFSET $2", COLUMNS)
    );
    assert_eq!(st.args, vec![Value::Int(2), Value::Int(2)]);
}

#[test]
fn between_on_count() {
    let m = model("sqlite");
    let st = m.select().where_between(2, Value::Int(2), Value::Int(4)).build();
    assert_eq!(st.sql, format!("SELECT {} FROM alt_users WHERE count BETWEEN $1 AND $2", COLUMNS));
    assert_eq!(st.args, vec![Value::Int(2), Value::Int(4)]);
}

#[test]
fn like_on_email() {
    let m = model("sqlite");
    let st = m.select().where_field(1, Where::Like, text("1%")).build();
    assert_eq!(st.sql, format!("SELECT {} FROM alt_users WHERE email LIKE $1", COLUMNS));
    assert_eq!(st.args, vec![text("1%")]);
}

#[test]
fn group_by_with_having_max() {
    let m = model("sqlite");
    let st = m.select().group_by(2).having(2, Where::Eq, Aggregate::Max, Value::Int(1)).build();
    assert_eq!(
        st.sql,
        format!("SELECT {} FROM alt_users GROUP BY count HAVING MAX(count) = $1", COLUMNS)
    );
    assert_eq!(st.args, vec![Value::Int(1)]);
}

#[test]
fn same_chain_builds_same_statement() {
    let m = model("postgres");
    let chain = || {
        m.select()
            .where_field(1, Where::NotEq, text("x"))
            .where_between(2, Value::Int(1), Value::Int(9))
            .group_by(1)
            .having(2, Where::GreaterThan, Aggregate::Count, Value::Int(0))
            .order_by(3, OrderBy::Asc)
            .limit(5)
            .build()
    };
    let a = chain();
    let b = chain();
    assert_eq!(a.sql, b.sql);
    assert_eq!(a.args, b.args);
}

#[test]
fn clause_order_is_fixed_whatever_the_call_order() {
    let m = model("sqlite");
    let st = m
        .select()
        .offset(4)
        .limit(3)
        .order_by(2, OrderBy::Asc)
        .having(2, Where::LesserOrEqual, Aggregate::Sum, Value::Int(10))
        .group_by(1)
        .where_field(1, Where::Eq, text("a"))
        .where_between(2, Value::Int(1), Value::Int(5))
        .order_by(0, OrderBy::Desc)
        .group_by(0)
        .build();
    assert_eq!(
        st.sql,
        format!(
            "SELECT {} FROM alt_users WHERE email = $1 AND count BETWEEN $2 AND $3 GROUP BY email,id HAVING SUM(count) <= $4 ORDER BY count ASC, id DESC LIMIT $5 OFFSET $6",
            COLUMNS
        )
    );
    assert_eq!(
        st.args,
        vec![text("a"), Value::Int(1), Value::Int(5), Value::Int(10), Value::Int(3), Value::Int(4)]
    );
}

#[test]
fn limit_and_offset_last_write_wins() {
    let m = model("sqlite");
    let st = m.select().limit(1).limit(7).offset(2).offset(9).build();
    assert_eq!(st.sql, format!("SELECT {} FROM alt_users LIMIT $1 OFFSET $2", COLUMNS));
    assert_eq!(st.args, vec![Value::Int(7), Value::Int(9)]);
}

#[test]
fn mysql_builder_markers() {
    let m = model("mysql");
    let st = m.select().where_field(2, Where::GreaterOrEqual, Value::Int(3)).limit(1).build();
    assert_eq!(st.sql, format!("SELECT {} FROM alt_users WHERE count >= ? LIMIT ?", COLUMNS));
}

#[test]
fn operators_and_aggregates_text() {
    let m = model("sqlite");
    let st = m
        .select()
        .where_field(2, Where::LesserThan, Value::Int(3))
        .having(2, Where::Eq, Aggregate::CountDistinct, Value::Int(1))
        .having(2, Where::Eq, Aggregate::Avg, Value::Int(1))
        .having(2, Where::Eq, Aggregate::Min, Value::Int(1))
        .having(2, Where::Eq, Aggregate::Plain, Value::Int(1))
        .build();
    assert_eq!(
        st.sql,
        format!(
            "SELECT {} FROM alt_users WHERE count < $1 HAVING COUNT(DISTINCT count) = $2 AND AVG(count) = $3 AND MIN(count) = $4 AND count = $5",
            COLUMNS
        )
    );
}

#[test]
fn markers_past_nine_use_two_digits() {
    let m = model("postgres");
    let mut b = m.select();
    for i in 0..11 {
        b = b.where_field(2, Where::NotEq, Value::Int(i));
    }
    let st = b.build();
    assert!(st.sql.ends_with("count <> $10 AND count <> $11"));
    assert_eq!(st.args.len(), 11);
    assert!(m.select().is_bounded());
}
