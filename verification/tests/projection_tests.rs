use ukiapi::json::{copy_value, JsonValue};
use ukiapi::projection::{filter_value, projected, Projected};

fn s(x: &str) -> JsonValue {
    JsonValue::Str(x.to_string())
}

fn n(x: &str) -> JsonValue {
    JsonValue::Number(x.to_string())
}

fn obj(members: Vec<(&str, JsonValue)>) -> JsonValue {
    JsonValue::Object(members.into_iter().map(|(k, v)| (k.to_string(), v)).collect())
}

fn user(id: &str, name: &str, email: &str) -> JsonValue {
    obj(vec![("id", n(id)), ("name", s(name)), ("email", s(email))])
}

fn render(p: &Projected<JsonValue>) -> JsonValue {
    let mut val = copy_value(p.body());
    filter_value(&mut val, p.included(), p.excluded());
    val
}

#[test]
fn test_include_fields() {
    let projected = Projected::new(user("1", "Alice", "alice@example.com")).include_fields(vec!["id", "name"]);
    assert_eq!(render(&projected), obj(vec![("id", n("1")), ("name", s("Alice"))]));
}

#[test]
fn test_exclude_fields() {
    let projected = Projected::new(user("1", "Alice", "alice@example.com")).exclude(vec!["email"]);
    assert_eq!(render(&projected), obj(vec![("id", n("1")), ("name", s("Alice"))]));
}

#[test]
fn test_include_and_exclude_fields() {
    let projected = Projected::new(user("1", "Alice", "alice@example.com"))
        .include_fields(vec!["id", "name", "email"])
        .exclude(vec!["email"]);
    assert_eq!(render(&projected), obj(vec![("id", n("1")), ("name", s("Alice"))]));
}

#[test]
fn test_array_projection() {
    let users = JsonValue::Array(vec![
        user("1", "Alice", "alice@example.com"),
        user("2", "Bob", "bob@example.com"),
    ]);
    let projected = Projected::new(users).include_fields(vec!["name"]);
    assert_eq!(
        render(&projected),
        JsonValue::Array(vec![obj(vec![("name", s("Alice"))]), obj(vec![("name", s("Bob"))])])
    );
}

#[test]
fn test_nested_projection() {
    let nested = obj(vec![
        ("id", n("1")),
        ("name", s("Alice")),
        ("details", obj(vec![("age", n("30")), ("email", s("alice@example.com"))])),
    ]);
    let projected = Projected::new(nested).exclude(vec!["email"]);
    assert_eq!(
        render(&projected),
        obj(vec![
            ("id", n("1")),
            ("name", s("Alice")),
            ("details", obj(vec![("age", n("30"))])),
        ])
    );
}

#[test]
fn projecting_twice_changes_nothing_more() {
    let v = obj(vec![
        ("a", n("1")),
        ("b", JsonValue::Array(vec![obj(vec![("a", n("2")), ("c", JsonValue::Null)])])),
    ]);
    let inc = Some(vec!["a".to_string(), "b".to_string()]);
    let exc = Some(vec!["c".to_string()]);
    let once = projected(&v, &inc, &exc);
    let twice = projected(&once, &inc, &exc);
    assert_eq!(once, twice);
    assert_eq!(
        once,
        obj(vec![("a", n("1")), ("b", JsonValue::Array(vec![obj(vec![("a", n("2"))])]))])
    );
}

#[test]
fn render_outcomes() {
    let p = Projected::new(()).exclude(vec!["secret"]);
    let ok = p.render(Ok(obj(vec![("id", n("7")), ("secret", s("x"))]))).unwrap();
    assert_eq!(ok, obj(vec![("id", n("7"))]));
    let (code, msg) = p.render(Err("key must be a string".to_string())).unwrap_err();
    assert_eq!(code, 500);
    assert_eq!(msg, "Serialization error: key must be a string");
}

#[test]
fn scalars_pass_unchanged() {
    let inc = Some(vec!["x".to_string()]);
    assert_eq!(projected(&n("3"), &inc, &None), n("3"));
    assert_eq!(projected(&JsonValue::Bool(true), &inc, &None), JsonValue::Bool(true));
}
