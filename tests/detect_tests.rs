use ksecret::detect::{detect, fields_from_json, fields_from_yaml, fields_or_value, YamlScalar};
use ksecret::fields::FieldMap;

fn pairs(raw: &str) -> Vec<(String, String)> {
    detect(raw).to_pairs()
}

fn expect(items: &[(&str, &str)]) -> Vec<(String, String)> {
    items.iter().map(|(k, v)| (k.to_string(), v.to_string())).collect()
}

#[test]
fn plain_value_becomes_single_value_field() {
    assert_eq!(pairs("hunter2"), expect(&[("value", "hunter2")]));
}

#[test]
fn json_object_keeps_member_order() {
    let fields = pairs(r#"{"user":"admin","pass":"x"}"#);
    assert_eq!(fields.len(), 2);
    assert_eq!(fields, expect(&[("user", "admin"), ("pass", "x")]));
}

#[test]
fn json_non_string_members_are_serialized() {
    let fields = pairs(r#"{"a":1,"b":true,"c":[1,2],"d":{"x":null}}"#);
    assert_eq!(
        fields,
        expect(&[("a", "1"), ("b", "true"), ("c", "[1,2]"), ("d", r#"{"x":null}"#)])
    );
}

#[test]
fn empty_json_object_falls_back_to_value() {
    assert_eq!(pairs("{}"), expect(&[("value", "{}")]));
}

#[test]
fn json_array_is_a_scalar() {
    assert_eq!(pairs("[1,2]"), expect(&[("value", "[1,2]")]));
}

#[test]
fn number_is_a_scalar() {
    assert_eq!(pairs("123"), expect(&[("value", "123")]));
}

#[test]
fn empty_input_is_a_scalar() {
    assert_eq!(pairs(""), expect(&[("value", "")]));
}

#[test]
fn yaml_scalars_are_stringified() {
    let fields = pairs("host: db.local\nport: 5432\ntls: true\n");
    assert_eq!(fields, expect(&[("host", "db.local"), ("port", "5432"), ("tls", "true")]));
}

#[test]
fn yaml_complex_values_are_serialized_and_trimmed() {
    let fields = pairs("hosts:\n  - a\n  - b\nname: x\n");
    assert_eq!(fields, expect(&[("hosts", "- a\n- b"), ("name", "x")]));
}

#[test]
fn yaml_null_value_is_serialized() {
    assert_eq!(pairs("key: ~\n"), expect(&[("key", "null")]));
}

#[test]
fn yaml_non_string_keys_are_skipped() {
    assert_eq!(pairs("1: one\nb: two\n"), expect(&[("b", "two")]));
}

#[test]
fn yaml_with_only_non_string_keys_falls_back_to_value() {
    assert_eq!(pairs("1: one\n2: two"), expect(&[("value", "1: one\n2: two")]));
}

#[test]
fn detection_is_deterministic() {
    let raw = "b: 1\na: 2\n";
    assert_eq!(pairs(raw), pairs(raw));
    assert_eq!(pairs(raw), expect(&[("b", "1"), ("a", "2")]));
}

#[test]
fn field_map_get_and_insert() {
    let mut fm = FieldMap::new();
    fm.insert("a".to_string(), "1".to_string());
    fm.insert("b".to_string(), "2".to_string());
    fm.insert("a".to_string(), "3".to_string());
    assert_eq!(fm.len(), 2);
    assert_eq!(fm.get("a"), Some("3".to_string()));
    assert_eq!(fm.get("c"), None);
    assert_eq!(fm.to_pairs(), expect(&[("a", "3"), ("b", "2")]));
}

#[test]
fn json_members_become_fields_in_order() {
    let ms = vec![("b".to_string(), "1".to_string()), ("a".to_string(), "2".to_string())];
    assert_eq!(fields_from_json(&ms).to_pairs(), expect(&[("b", "1"), ("a", "2")]));
}

#[test]
fn yaml_entries_become_fields() {
    let es = vec![
        (Some("s".to_string()), YamlScalar::Text("x".to_string())),
        (None, YamlScalar::Text("skipped".to_string())),
        (Some("t".to_string()), YamlScalar::Bool(true)),
        (Some("f".to_string()), YamlScalar::Bool(false)),
        (Some("n".to_string()), YamlScalar::Number("2.5".to_string())),
        (Some("c".to_string()), YamlScalar::Complex("- a\n- b\n".to_string())),
    ];
    assert_eq!(
        fields_from_yaml(&es).to_pairs(),
        expect(&[("s", "x"), ("t", "true"), ("f", "false"), ("n", "2.5"), ("c", "- a\n- b")])
    );
}

#[test]
fn empty_structure_falls_back_to_raw_value() {
    assert_eq!(fields_or_value(FieldMap::new(), "raw").to_pairs(), expect(&[("value", "raw")]));
    let mut fm = FieldMap::new();
    fm.insert("k".to_string(), "v".to_string());
    assert_eq!(fields_or_value(fm, "raw").to_pairs(), expect(&[("k", "v")]));
}
