use baiban::manifest::{rename_package, set_field, JsonValue, PackageJsonError};

fn field<'a>(v: &'a serde_json::Value, key: &str) -> &'a serde_json::Value {
    &v.as_object().unwrap()[key]
}

#[test]
fn rename_sets_name_and_keeps_other_keys() {
    let manifest = "{\"version\": \"1.0.0\", \"name\": \"template\", \"private\": true, \"scripts\": {\"dev\": \"vite\"}, \"n\": 1.5, \"m\": -3}";
    let out = rename_package(manifest, "my-app").unwrap();
    let v: serde_json::Value = serde_json::from_str(&out).unwrap();
    let before: serde_json::Value = serde_json::from_str(manifest).unwrap();
    assert_eq!(field(&v, "name"), "my-app");
    for key in ["version", "private", "scripts", "n", "m"] {
        assert_eq!(field(&v, key), field(&before, key), "{}", key);
    }
    assert_eq!(v.as_object().unwrap().len(), before.as_object().unwrap().len());
}

#[test]
fn rename_adds_missing_name() {
    let out = rename_package("{\"version\": \"0.1.0\"}", "x").unwrap();
    let v: serde_json::Value = serde_json::from_str(&out).unwrap();
    assert_eq!(field(&v, "name"), "x");
    assert_eq!(field(&v, "version"), "0.1.0");
    assert_eq!(v.as_object().unwrap().len(), 2);
}

#[test]
fn rename_prints_like_serde_json() {
    let manifest = "{\"name\":\"t\",\"version\":\"1.0.0\",\"big\":12345678901234567890,\"f\":0.1}";
    let mut expected: serde_json::Value = serde_json::from_str(manifest).unwrap();
    expected.as_object_mut().unwrap().insert("name".to_string(), serde_json::Value::String("my-app".to_string()));
    assert_eq!(rename_package(manifest, "my-app").unwrap(), serde_json::to_string_pretty(&expected).unwrap());
}

#[test]
fn rename_prints_floats_as_serde_json_reads_them() {
    let manifest = "{\"name\":\"t\",\"a\":2.2250738585072011e-308,\"b\":0.30000000000000004,\"c\":1.7976931348623157e308,\"d\":5e-324,\"e\":[1e21,-0.0,123456.789e-3]}";
    let mut expected: serde_json::Value = serde_json::from_str(manifest).unwrap();
    expected.as_object_mut().unwrap().insert("name".to_string(), serde_json::Value::String("my-app".to_string()));
    assert_eq!(rename_package(manifest, "my-app").unwrap(), serde_json::to_string_pretty(&expected).unwrap());
}

#[test]
fn rename_keeps_non_object_json() {
    let out = rename_package("[1, 2]", "my-app").unwrap();
    assert_eq!(out, serde_json::to_string_pretty(&serde_json::from_str::<serde_json::Value>("[1,2]").unwrap()).unwrap());
}

#[test]
fn rename_rejects_invalid_json() {
    assert_eq!(rename_package("{ not json", "my-app"), Err(PackageJsonError::Parse));
    assert_eq!(rename_package("", "my-app"), Err(PackageJsonError::Parse));
}

#[test]
fn set_field_replaces_or_inserts_in_key_order() {
    let obj = JsonValue::Object(vec![
        ("a".to_string(), JsonValue::Null),
        ("name".to_string(), JsonValue::Bool(true)),
        ("z".to_string(), JsonValue::Array(vec![])),
    ]);
    match set_field(obj, "name", JsonValue::Str("n".to_string())) {
        JsonValue::Object(es) => {
            let keys: Vec<&str> = es.iter().map(|(k, _)| k.as_str()).collect();
            assert_eq!(keys, vec!["a", "name", "z"]);
            assert!(matches!(&es[1].1, JsonValue::Str(s) if s == "n"));
        }
        other => panic!("unexpected {:?}", other),
    }
    let obj = JsonValue::Object(vec![("a".to_string(), JsonValue::Null), ("z".to_string(), JsonValue::Null)]);
    match set_field(obj, "name", JsonValue::Str("n".to_string())) {
        JsonValue::Object(es) => {
            let keys: Vec<&str> = es.iter().map(|(k, _)| k.as_str()).collect();
            assert_eq!(keys, vec!["a", "name", "z"]);
        }
        other => panic!("unexpected {:?}", other),
    }
    assert!(matches!(set_field(JsonValue::Bool(false), "name", JsonValue::Null), JsonValue::Bool(false)));
}

#[test]
fn set_field_keeps_sorted_keys_sorted() {
    let obj = JsonValue::Object(vec![
        ("a".to_string(), JsonValue::Null),
        ("b".to_string(), JsonValue::Null),
        ("z".to_string(), JsonValue::Null),
    ]);
    match set_field(obj, "name", JsonValue::Null) {
        JsonValue::Object(es) => {
            let keys: Vec<&str> = es.iter().map(|(k, _)| k.as_str()).collect();
            let mut sorted = keys.clone();
            sorted.sort();
            sorted.dedup();
            assert_eq!(keys, sorted);
            assert_eq!(keys, vec!["a", "b", "name", "z"]);
        }
        other => panic!("unexpected {:?}", other),
    }
}
