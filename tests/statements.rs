use lorm::commands::{Fetch, Fresh};
use lorm::errors::Error;
use lorm::model::{EntityModel, FieldSpec};
use lorm::predicates::OrderBy;
use lorm::value::{SqlType, Value};

const NIL: &str = "00000000-0000-0000-0000-000000000000";
const COLUMNS: &str = "id,email,count,created_at,updated_at";

fn text(s: &str) -> Value {
    Value::Text(s.to_string())
}

fn user(backend: &str) -> EntityModel {
    let fields = vec![
        FieldSpec::new("id", SqlType::Text).pk().unset_when(text(NIL)),
        FieldSpec::new("email", SqlType::Text).lookup_by(),
        FieldSpec::new("count", SqlType::Integer).nullable().readonly(),
        FieldSpec::new("tmp", SqlType::Integer).transient(),
        FieldSpec::new("created_at", SqlType::Text).created_at(),
        FieldSpec::new("updated_at", SqlType::Text).updated_at(),
    ];
    EntityModel::compile(&"User".to_string(), &None, &fields, &vec![backend.to_string()]).unwrap()
}

fn alt_user() -> EntityModel {
    let fields = vec![
        FieldSpec::new("id", SqlType::Integer).pk().readonly(),
        FieldSpec::new("email", SqlType::Text),
        FieldSpec::new("count", SqlType::Integer).nullable().lookup_by(),
        FieldSpec::new("created_at", SqlType::Text).created_at().readonly(),
        FieldSpec::new("updated_at", SqlType::Text).updated_at(),
    ];
    EntityModel::compile(&"AltUser".to_string(), &None, &fields, &vec!["sqlite".to_string()])
        .unwrap()
}

fn fresh(now: &str) -> Fresh {
    Fresh { key: text("5f0c2a8e-0000-4000-8000-000000000001"), now: text(now) }
}

#[test]
fn save_of_new_record_inserts_with_stamps() {
    let m = user("sqlite");
    let row = vec![text(NIL), text("alice.dupont@domain.com"), Value::Null, text(""), text("")];
    let st = m.save(&row, &fresh("2024-01-01T00:00:00Z"));
    assert_eq!(
        st.sql,
        format!(
            "INSERT INTO users (id,email,created_at,updated_at) VALUES ($1,$2,$3,$4) RETURNING {}",
            COLUMNS
        )
    );
    assert_eq!(
        st.args,
        vec![
            text("5f0c2a8e-0000-4000-8000-000000000001"),
            text("alice.dupont@domain.com"),
            text("2024-01-01T00:00:00Z"),
            text("2024-01-01T00:00:00Z"),
        ]
    );
    assert_eq!(st.fetch, Fetch::One);
    // created_at and updated_at hold the same instant after an insert
    assert_eq!(st.args[2], st.args[3]);
}

#[test]
fn save_of_stored_record_updates_and_keeps_key_and_creation() {
    let m = user("postgres");
    let row = vec![
        text("5f0c2a8e-0000-4000-8000-000000000001"),
        text("alice.dupont@new-domain.com"),
        Value::Null,
        text("2024-01-01T00:00:00Z"),
        text("2024-01-01T00:00:00Z"),
    ];
    let st = m.save(&row, &fresh("2024-01-01T00:00:01Z"));
    assert_eq!(
        st.sql,
        format!(
            "UPDATE users SET id = $1,email = $2,created_at = $3,updated_at = $4 WHERE id = $5 RETURNING {}",
            COLUMNS
        )
    );
    assert_eq!(
        st.args,
        vec![
            text("5f0c2a8e-0000-4000-8000-000000000001"),
            text("alice.dupont@new-domain.com"),
            text("2024-01-01T00:00:00Z"),
            text("2024-01-01T00:00:01Z"),
            text("5f0c2a8e-0000-4000-8000-000000000001"),
        ]
    );
}

#[test]
fn stamp_reports_insert_decision() {
    let m = user("sqlite");
    let new_row = vec![text(NIL), text("a"), Value::Null, text(""), text("")];
    let (saved, insert) = m.stamp(&new_row, &fresh("t1"));
    assert!(insert);
    assert_eq!(saved[0], text("5f0c2a8e-0000-4000-8000-000000000001"));
    assert_eq!(saved[3], text("t1"));
    assert_eq!(saved[4], text("t1"));
    let old_row = vec![text("k"), text("a"), Value::Null, text("t0"), text("t0")];
    let (saved, insert) = m.stamp(&old_row, &fresh("t1"));
    assert!(!insert);
    assert_eq!(saved, vec![text("k"), text("a"), Value::Null, text("t0"), text("t1")]);
}

#[test]
fn read_only_key_and_creation_are_left_to_the_store() {
    let m = alt_user();
    let row = vec![Value::Int(0), text("alice.dupont@domain.com"), Value::Null, text(""), text("")];
    let st = m.save(&row, &fresh("t1"));
    assert_eq!(
        st.sql,
        format!(
            "INSERT INTO alt_users (email,count,updated_at) VALUES ($1,$2,$3) RETURNING {}",
            COLUMNS
        )
    );
    assert_eq!(st.args, vec![text("alice.dupont@domain.com"), Value::Null, text("t1")]);
}

#[test]
fn read_only_key_update_binds_key_last() {
    let m = alt_user();
    let row = vec![Value::Int(7), text("e"), Value::Int(42), text("t0"), text("t0")];
    let st = m.save(&row, &fresh("t1"));
    assert_eq!(
        st.sql,
        format!(
            "UPDATE alt_users SET email = $1,count = $2,updated_at = $3 WHERE id = $4 RETURNING {}",
            COLUMNS
        )
    );
    assert_eq!(st.args, vec![text("e"), Value::Int(42), text("t1"), Value::Int(7)]);
}

#[test]
fn mysql_uses_generic_markers() {
    let m = user("mysql");
    let row = vec![text(NIL), text("a"), Value::Null, text(""), text("")];
    let st = m.save(&row, &fresh("t"));
    assert_eq!(
        st.sql,
        format!("INSERT INTO users (id,email,created_at,updated_at) VALUES (?,?,?,?) RETURNING {}", COLUMNS)
    );
    assert_eq!(m.delete(&row).sql, "DELETE FROM users WHERE id = ?");
}

#[test]
fn delete_targets_the_key() {
    let m = user("sqlite");
    let row = vec![text("k1"), text("a"), Value::Null, text("t"), text("t")];
    let st = m.delete(&row);
    assert_eq!(st.sql, "DELETE FROM users WHERE id = $1");
    assert_eq!(st.args, vec![text("k1")]);
    assert_eq!(st.fetch, Fetch::Execute);
    let by = m.by_column(m.pk, text("k1"));
    assert_eq!(by.sql, format!("SELECT {} FROM users WHERE id = $1", COLUMNS));
    assert_eq!(by.args, st.args);
}

#[test]
fn by_and_with_lookups() {
    let m = user("sqlite");
    let st = m.by_column(1, text("alice.dupont@domain.com"));
    assert_eq!(st.sql, format!("SELECT {} FROM users WHERE email = $1", COLUMNS));
    assert_eq!(st.args, vec![text("alice.dupont@domain.com")]);
    assert_eq!(st.fetch, Fetch::One);
    let st = alt_user().with_column(2, Value::Int(42));
    assert_eq!(st.sql, format!("SELECT {} FROM alt_users WHERE count = $1", COLUMNS));
    assert_eq!(st.args, vec![Value::Int(42)]);
    assert_eq!(st.fetch, Fetch::All);
}

#[test]
fn unset_rules() {
    let m = user("sqlite");
    assert!(m.is_unset(0, &text(NIL)));
    assert!(!m.is_unset(0, &text("")));
    assert!(m.is_unset(1, &text("")));
    assert!(!m.is_unset(1, &text("x")));
    assert!(m.is_unset(2, &Value::Null));
    assert!(!m.is_unset(2, &Value::Int(0)));
    let a = alt_user();
    assert!(a.is_unset(0, &Value::Int(0)));
    assert!(!a.is_unset(0, &Value::Int(3)));
}

#[test]
fn foreign_key_lookup_goes_through_target_key() {
    let post_fields = vec![
        FieldSpec::new("id", SqlType::Integer).pk(),
        FieldSpec::new("owner_id", SqlType::Text).fk("User"),
        FieldSpec::new("title", SqlType::Text).fk("Blog"),
    ];
    let post = EntityModel::compile(&"Post".to_string(), &None, &post_fields, &vec!["sqlite".to_string()])
        .unwrap();
    let users = user("sqlite");
    let row = vec![Value::Int(1), text("k1"), text("t")];
    let st = post.fk_lookup(1, &users, &row).unwrap();
    assert_eq!(st.sql, format!("SELECT {} FROM users WHERE id = $1", COLUMNS));
    assert_eq!(st.args, vec![text("k1")]);
    assert_eq!(st.fetch, Fetch::Optional);
    assert!(post.fk_lookup(2, &users, &row).is_none());
    assert!(post.fk_lookup(0, &users, &row).is_none());
    assert_eq!(post.fk_accessor(1), "get_owner");
    assert_eq!(post.fk_accessor(2), "get_title");
}

#[test]
fn decode_row_checks_arity_and_types() {
    let m = user("sqlite");
    let good = vec![text("k"), text("a"), Value::Int(3), text("t"), text("t")];
    assert_eq!(m.decode_row(good.clone()).unwrap(), good);
    let null_ok = vec![text("k"), text("a"), Value::Null, text("t"), text("t")];
    assert!(m.decode_row(null_ok).is_ok());
    let short = vec![text("k")];
    assert!(matches!(m.decode_row(short), Err(Error::DatabaseError(_))));
    let wrong = vec![text("k"), Value::Int(1), Value::Null, text("t"), text("t")];
    assert!(matches!(m.decode_row(wrong), Err(Error::DatabaseError(_))));
}

#[test]
fn order_by_text() {
    assert_eq!(OrderBy::Asc.to_string(), "ASC");
    assert_eq!(OrderBy::Desc.to_string(), "DESC");
    assert_eq!(OrderBy::default(), OrderBy::Asc);
}

#[test]
fn fresh_values_must_fit_stamped_columns() {
    let m = user("sqlite");
    assert!(m.fresh_fits(&fresh("t")));
    assert!(!m.fresh_fits(&Fresh { key: Value::Int(1), now: text("t") }));
    assert!(!m.fresh_fits(&Fresh { key: text("k"), now: Value::Int(1) }));
    let a = alt_user();
    assert!(a.fresh_fits(&Fresh { key: text("unused: key is read-only"), now: text("t") }));
}
