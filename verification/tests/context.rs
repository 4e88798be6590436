use zine::context::{Context, ContextError, JsonNumber, JsonValue};

fn num(i: i64) -> JsonValue {
    JsonValue::Number(JsonNumber::Int(i))
}

fn int_of(v: Option<&JsonValue>) -> Option<i64> {
    match v {
        Some(JsonValue::Number(JsonNumber::Int(i))) => Some(*i),
        _ => None,
    }
}

fn keys(v: JsonValue) -> Vec<String> {
    match v {
        JsonValue::Object(entries) => entries.into_iter().map(|(k, _)| k).collect(),
        _ => panic!("not an object"),
    }
}

#[test]
fn context_insert_and_get() {
    let mut context = Context::new();
    context.insert("number_users".to_string(), num(42));
    assert_eq!(int_of(context.get("number_users")), Some(42));
    assert!(context.contains_key("number_users"));
    assert!(!context.contains_key("other"));
    assert!(context.get("other").is_none());
}

#[test]
fn context_insert_replaces_and_keeps_keys_in_order() {
    let mut context = Context::default();
    context.insert("b".to_string(), num(2));
    context.insert("a".to_string(), num(1));
    context.insert("c".to_string(), num(3));
    context.insert("a".to_string(), num(10));
    assert_eq!(int_of(context.get("a")), Some(10));
    assert_eq!(keys(context.into_json()), vec!["a", "b", "c"]);
}

#[test]
fn context_remove_gives_the_value_once() {
    let mut context = Context::new();
    context.insert("a".to_string(), num(1));
    context.insert("b".to_string(), num(2));
    assert_eq!(int_of(context.remove("a").as_ref()), Some(1));
    assert!(context.remove("a").is_none());
    assert!(!context.contains_key("a"));
    assert_eq!(int_of(context.get("b")), Some(2));
}

#[test]
fn context_extend_overwrites_existing_keys() {
    let mut target = Context::new();
    target.insert("a".to_string(), num(1));
    target.insert("b".to_string(), num(2));
    let mut source = Context::new();
    source.insert("b".to_string(), num(3));
    source.insert("d".to_string(), num(4));
    target.extend(source);
    assert_eq!(int_of(target.get("a")), Some(1));
    assert_eq!(int_of(target.get("b")), Some(3));
    assert_eq!(int_of(target.get("d")), Some(4));
    assert_eq!(keys(target.into_json()), vec!["a", "b", "d"]);
}

#[test]
fn context_from_object_value() {
    let obj = JsonValue::Object(vec![
        ("y".to_string(), num(1)),
        ("x".to_string(), num(2)),
        ("y".to_string(), num(3)),
    ]);
    let context = match Context::from_value(obj) {
        Ok(c) => c,
        Err(e) => panic!("{e:?}"),
    };
    assert_eq!(int_of(context.get("y")), Some(3));
    assert_eq!(int_of(context.get("x")), Some(2));
    assert_eq!(keys(context.into_json()), vec!["x", "y"]);
}

#[test]
fn context_from_other_values_fails() {
    assert!(matches!(Context::from_value(JsonValue::Null), Err(ContextError::NotAnObject)));
    assert!(matches!(Context::from_value(num(1)), Err(ContextError::NotAnObject)));
    assert!(matches!(Context::from_value(JsonValue::Array(vec![])), Err(ContextError::NotAnObject)));
}

#[test]
fn context_round_trip_through_json() {
    let mut context = Context::new();
    context.insert("b".to_string(), num(2));
    context.insert("a".to_string(), num(1));
    let back = match Context::from_value(context.into_json()) {
        Ok(c) => c,
        Err(e) => panic!("{e:?}"),
    };
    assert_eq!(int_of(back.get("a")), Some(1));
    assert_eq!(int_of(back.get("b")), Some(2));
    assert_eq!(keys(back.into_json()), vec!["a", "b"]);
}
