use hivegui::json::{json_diff_paths, json_equal, json_pointer_escape, pretty_json_lines, JsonValue};

fn num(t: &str) -> JsonValue {
    JsonValue::Number(t.to_string())
}

fn text(t: &str) -> JsonValue {
    JsonValue::Str(t.to_string())
}

fn obj(members: Vec<(&str, JsonValue)>) -> JsonValue {
    JsonValue::Object(members.into_iter().map(|(k, v)| (k.to_string(), v)).collect())
}

fn sorted(mut v: Vec<String>) -> Vec<String> {
    v.sort();
    v.dedup();
    v
}

#[test]
fn equal_values_have_no_differences() {
    let a = obj(vec![("a", num("1")), ("b", JsonValue::Array(vec![num("1"), num("2")]))]);
    let b = obj(vec![("a", num("1")), ("b", JsonValue::Array(vec![num("1"), num("2")]))]);
    assert!(json_equal(&a, &b));
    assert!(json_diff_paths(&[a, b]).is_empty());
}

#[test]
fn a_single_value_has_no_differences() {
    assert!(json_diff_paths(&[num("1")]).is_empty());
    assert!(json_diff_paths(&[]).is_empty());
}

#[test]
fn only_the_smallest_differing_leaf_is_marked() {
    let a = obj(vec![("a", num("1")), ("b", JsonValue::Array(vec![num("1"), num("2")]))]);
    let b = obj(vec![("a", num("1")), ("b", JsonValue::Array(vec![num("1"), num("3")]))]);
    assert_eq!(sorted(json_diff_paths(&[a, b])), vec!["/b/1".to_string()]);
}

#[test]
fn differing_kinds_mark_the_node_itself() {
    let a = obj(vec![("x", num("1"))]);
    let b = JsonValue::Array(vec![]);
    assert_eq!(json_diff_paths(&[a, b]), vec!["".to_string()]);

    let a = obj(vec![("m", text("a"))]);
    let b = obj(vec![("m", num("1"))]);
    assert_eq!(json_diff_paths(&[a, b]), vec!["/m".to_string()]);
}

#[test]
fn missing_keys_and_positions_count_as_null() {
    let a = obj(vec![("k", num("1"))]);
    let b = obj(vec![("k", num("1")), ("only_b", JsonValue::Bool(true))]);
    assert_eq!(json_diff_paths(&[a, b]), vec!["/only_b".to_string()]);

    let a = JsonValue::Array(vec![num("1")]);
    let b = JsonValue::Array(vec![num("1"), num("2")]);
    assert_eq!(json_diff_paths(&[a, b]), vec!["/1".to_string()]);
}

#[test]
fn keys_are_escaped_in_pointers() {
    assert_eq!(json_pointer_escape("a/b~c"), "a~1b~0c");
    let a = obj(vec![("a/b", num("1"))]);
    let b = obj(vec![("a/b", num("2"))]);
    assert_eq!(json_diff_paths(&[a, b]), vec!["/a~1b".to_string()]);
}

#[test]
fn three_values_differ_where_any_one_does() {
    let a = obj(vec![("t", num("0.7")), ("m", text("x"))]);
    let b = obj(vec![("t", num("0.7")), ("m", text("x"))]);
    let c = obj(vec![("t", num("0.9")), ("m", text("x"))]);
    assert_eq!(json_diff_paths(&[a, b, c]), vec!["/t".to_string()]);
}

#[test]
fn pretty_lines_mark_the_differing_members() {
    let v = obj(vec![("a", num("1")), ("b", obj(vec![("c", text("x\"y"))]))]);
    let lines = pretty_json_lines(&v, &["/b/c".to_string()]);
    let expected: Vec<(String, bool)> = vec![
        ("{".to_string(), false),
        ("  \"a\": 1,".to_string(), false),
        ("  \"b\": {".to_string(), false),
        ("    \"c\": \"x\\\"y\"".to_string(), true),
        ("  }".to_string(), false),
        ("}".to_string(), false),
    ];
    assert_eq!(lines, expected);
}

#[test]
fn pretty_lines_of_arrays_and_scalars() {
    let v = JsonValue::Array(vec![num("1"), obj(vec![("k", JsonValue::Bool(true))]), JsonValue::Null]);
    let lines = pretty_json_lines(&v, &["/1".to_string()]);
    let expected: Vec<(String, bool)> = vec![
        ("[".to_string(), false),
        ("  1,".to_string(), false),
        ("  {".to_string(), true),
        ("    \"k\": true".to_string(), false),
        ("  },".to_string(), false),
        ("  null".to_string(), false),
        ("]".to_string(), false),
    ];
    assert_eq!(lines, expected);

    assert_eq!(pretty_json_lines(&obj(vec![]), &[]), vec![("{}".to_string(), false)]);
    assert_eq!(pretty_json_lines(&JsonValue::Array(vec![]), &[]), vec![("[]".to_string(), false)]);
    assert_eq!(pretty_json_lines(&JsonValue::Bool(false), &[]), vec![("false".to_string(), false)]);
}

#[test]
fn strings_are_written_as_serde_json_writes_them() {
    let lines = pretty_json_lines(&text("a\nb\t\u{1}\\/é"), &[]);
    assert_eq!(lines, vec![("\"a\\nb\\t\\u0001\\\\/é\"".to_string(), false)]);
}

#[test]
fn empty_containers_inside_objects_stay_on_one_line() {
    let v = obj(vec![("e", JsonValue::Array(vec![])), ("o", obj(vec![]))]);
    let lines = pretty_json_lines(&v, &["/o".to_string()]);
    let expected: Vec<(String, bool)> = vec![
        ("{".to_string(), false),
        ("  \"e\": [],".to_string(), false),
        ("  \"o\": {}".to_string(), true),
        ("}".to_string(), false),
    ];
    assert_eq!(lines, expected);
}

#[test]
fn nested_members_close_with_a_comma_when_more_follow() {
    let v = obj(vec![("a", obj(vec![("x", num("1"))])), ("b", num("2")), ("c", JsonValue::Array(vec![num("3")])), ("d", num("4"))]);
    let lines = pretty_json_lines(&v, &["/b".to_string()]);
    let expected: Vec<(String, bool)> = vec![
        ("{".to_string(), false),
        ("  \"a\": {".to_string(), false),
        ("    \"x\": 1".to_string(), false),
        ("  },".to_string(), false),
        ("  \"b\": 2,".to_string(), true),
        ("  \"c\": [".to_string(), false),
        ("    3".to_string(), false),
        ("  ],".to_string(), false),
        ("  \"d\": 4".to_string(), false),
        ("}".to_string(), false),
    ];
    assert_eq!(lines, expected);
}
