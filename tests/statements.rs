use rusql_alchemy::model::{get_type_name, to_value, Arg, Dialect, Kwargs, Operator, Value};
use rusql_alchemy::outcome::{count_or_zero, first_row, rows_or_empty};
use rusql_alchemy::sql::{BuildError, Descriptor};
use rusql_alchemy::text::{decimal, split_on_marker};

fn user() -> Descriptor {
    Descriptor {
        name: "user".to_string(),
        primary_key: "id".to_string(),
        schema: "create table if not exists user (id integer primary key, name varchar(50), email varchar(255));".to_string(),
    }
}

fn text(s: &str) -> Value {
    Value::Text(s.to_string())
}

#[test]
fn insert_user_binds_in_column_order() {
    let kw = Kwargs::new().arg("name", text("joe")).arg("email", text("joe@x.io"));
    let st = user().create_statement(Dialect::Numbered, kw);
    assert_eq!(st.sql, "INSERT INTO user (name, email) VALUES ($1, $2)");
    assert_eq!(st.params, vec![text("joe"), text("joe@x.io")]);
}

#[test]
fn get_by_unique_column_selects_by_it() {
    let kw = Kwargs::new().arg("email", text("joe@x.io"));
    let st = user().filter_statement(Dialect::Numbered, kw).unwrap();
    assert_eq!(st.sql, "SELECT * FROM user WHERE email = $1");
    assert_eq!(st.params, vec![text("joe@x.io")]);
}

#[test]
fn join_key_filter_on_user() {
    let kw = Kwargs::new().arg("owner__product__is_sel", Value::Bool(true));
    let st = user().filter_statement(Dialect::Numbered, kw).unwrap();
    assert_eq!(
        st.sql,
        "SELECT user.* FROM user INNER JOIN product ON user.id = product.owner WHERE product.is_sel = $1"
    );
    assert_eq!(st.params, vec![Value::Integer(1)]);
}

#[test]
fn and_filter_joins_every_predicate_in_order() {
    let kw = Kwargs::new()
        .arg("a", Value::Integer(1))
        .arg("b", Value::Integer(2))
        .arg("c", Value::Integer(3));
    let st = user().filter_statement(Dialect::Numbered, kw).unwrap();
    assert_eq!(st.sql, "SELECT * FROM user WHERE a = $1 and b = $2 and c = $3");
    assert_eq!(st.sql.matches(" and ").count(), 2);
    assert_eq!(st.params, vec![Value::Integer(1), Value::Integer(2), Value::Integer(3)]);
}

#[test]
fn or_filter_uses_or() {
    let kw = Kwargs::new().arg("name", text("joe")).arg("email", text("e")).or();
    assert_eq!(kw.operator, Operator::Or);
    let st = user().filter_statement(Dialect::Positional, kw).unwrap();
    assert_eq!(st.sql, "SELECT * FROM user WHERE name = ? or email = ?");
}

#[test]
fn every_join_key_brings_its_own_join() {
    let kw = Kwargs::new()
        .arg("owner__product__is_sel", Value::Bool(false))
        .arg("name", text("joe"))
        .arg("writer__post__title", text("hi"));
    let st = user().filter_statement(Dialect::Numbered, kw).unwrap();
    assert_eq!(
        st.sql,
        "SELECT user.* FROM user INNER JOIN product ON user.id = product.owner \
         INNER JOIN post ON user.id = post.writer \
         WHERE product.is_sel = $1 and name = $2 and post.title = $3"
    );
    assert_eq!(st.sql.matches("INNER JOIN product").count(), 1);
    assert_eq!(st.params, vec![Value::Integer(0), text("joe"), text("hi")]);
}

#[test]
fn key_with_two_parts_is_a_plain_column() {
    let kw = Kwargs::new().arg("owner__product", Value::Integer(4));
    let st = user().filter_statement(Dialect::Numbered, kw).unwrap();
    assert_eq!(st.sql, "SELECT * FROM user WHERE owner__product = $1");
}

#[test]
fn empty_filter_is_rejected() {
    let r = user().filter_statement(Dialect::Numbered, Kwargs::new());
    assert_eq!(r.unwrap_err(), BuildError::EmptyArguments);
}

#[test]
fn update_binds_primary_key_last() {
    let kw = Kwargs::new().arg("role", text("admin")).arg("name", text("joe")).or();
    let st = user().set_statement(Dialect::Numbered, Value::Integer(7), kw).unwrap();
    assert_eq!(st.sql, "UPDATE user SET role = $1, name = $2 WHERE id = $3");
    assert_eq!(st.params, vec![text("admin"), text("joe"), Value::Integer(7)]);
}

#[test]
fn update_with_positional_markers() {
    let kw = Kwargs::new().arg("role", text("admin"));
    let st = user().set_statement(Dialect::Positional, Value::Integer(7), kw).unwrap();
    assert_eq!(st.sql, "UPDATE user SET role = ? WHERE id = ?");
}

#[test]
fn empty_update_is_rejected() {
    let r = user().set_statement(Dialect::Numbered, Value::Integer(7), Kwargs::new());
    assert_eq!(r.unwrap_err(), BuildError::EmptyArguments);
}

#[test]
fn migrate_passes_schema_unchanged() {
    let d = user();
    assert_eq!(d.migrate_sql(), d.schema.as_str());
}

#[test]
fn table_wide_statements() {
    let d = user();
    assert_eq!(d.all_sql(), "SELECT * FROM user");
    assert_eq!(d.count_sql(), "SELECT COUNT(*) FROM user");
    assert_eq!(d.delete_sql(), "DELETE FROM user");
}

#[test]
fn booleans_bind_as_integers() {
    assert_eq!(to_value(Value::Bool(true)), Value::Integer(1));
    assert_eq!(to_value(Value::Bool(false)), Value::Integer(0));
    assert_eq!(to_value(text("x")), text("x"));
    let a = Arg::new("is_active", Value::Bool(true));
    assert_eq!(a.value, Value::Integer(1));
    assert_eq!(get_type_name(&a.value), "i32");
}

#[test]
fn type_names() {
    assert_eq!(get_type_name(&Value::Integer(3)), "i32");
    assert_eq!(get_type_name(&Value::Real("1.5".to_string())), "f64");
    assert_eq!(get_type_name(&text("a")), "String");
    assert_eq!(get_type_name(&Value::Bool(true)), "bool");
}

#[test]
fn connectors() {
    assert_eq!(Operator::And.get(), " and ");
    assert_eq!(Operator::Or.get(), " or ");
}

#[test]
fn placeholders_past_nine() {
    assert_eq!(Dialect::Numbered.placeholder(1), "$1");
    assert_eq!(Dialect::Numbered.placeholder(10), "$10");
    assert_eq!(Dialect::Numbered.placeholder(305), "$305");
    assert_eq!(Dialect::Positional.placeholder(12), "?");
    assert_eq!(decimal(0), "0");
}

#[test]
fn split_like_str_split() {
    for s in ["a__b__c", "a___b", "__", "", "abc", "a____c", "x__"] {
        let want: Vec<String> = s.split("__").map(|p| p.to_string()).collect();
        assert_eq!(split_on_marker(s), want, "{s}");
    }
}

#[test]
fn failed_reads_give_nothing() {
    assert_eq!(rows_or_empty::<i32>(None), Vec::<i32>::new());
    assert_eq!(rows_or_empty(Some(vec![1, 2])), vec![1, 2]);
    assert_eq!(count_or_zero(None), 0);
    assert_eq!(count_or_zero(Some(5)), 5);
    assert_eq!(count_or_zero(Some(-1)), 0);
    assert_eq!(first_row::<i32>(vec![]), None);
    assert_eq!(first_row(vec![4, 5]), Some(4));
}

#[test]
fn insert_with_real_value() {
    let kw = Kwargs::new().arg("name", text("tomato")).arg("price", Value::Real("1000.0".to_string()));
    let st = Descriptor {
        name: "product".to_string(),
        primary_key: "id".to_string(),
        schema: String::new(),
    }
    .create_statement(Dialect::Positional, kw);
    assert_eq!(st.sql, "INSERT INTO product (name, price) VALUES (?, ?)");
    assert_eq!(st.params, vec![text("tomato"), Value::Real("1000.0".to_string())]);
}
