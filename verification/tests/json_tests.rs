use httplite::json_object_body;
use httplite::JsonObject;
use httplite::ToJson;

#[test]
fn string_renders_quoted() {
    assert_eq!("abc".to_string().to_json(), "\"abc\"");
    assert_eq!(String::new().to_json(), "\"\"");
}

#[test]
fn str_renders_quoted() {
    assert_eq!("abc".to_json(), "\"abc\"");
}

#[test]
fn integers_render_bare() {
    assert_eq!(0.to_json(), "0");
    assert_eq!(42.to_json(), "42");
    assert_eq!((-7).to_json(), "-7");
    assert_eq!(1000000.to_json(), "1000000");
    assert_eq!(i32::MAX.to_json(), "2147483647");
    assert_eq!(i32::MIN.to_json(), "-2147483648");
}

#[test]
fn vec_renders_comma_joined() {
    assert_eq!(vec![1, 2, 3].to_json(), "[1,2,3]");
    assert_eq!(vec!["a".to_string()].to_json(), "[\"a\"]");
    assert_eq!(vec![vec![1], vec![2, 3]].to_json(), "[[1],[2,3]]");
}

#[test]
fn empty_vec_collapses_to_closing_bracket() {
    // The rendering removes a trailing separator even when none was
    // accumulated, which takes the opening bracket with it.
    let empty: Vec<i32> = Vec::new();
    assert_eq!(empty.to_json(), "]");
}

#[test]
fn array_renders_like_vec() {
    assert_eq!([1, 2].to_json(), "[1,2]");
    assert_eq!([5].to_json(), "[5]");
}

#[test]
fn object_with_integer_keys() {
    let mut o: JsonObject<i32, i32> = JsonObject::new();
    o.insert(1, 10);
    o.insert(2, 20);
    assert_eq!(o.to_json(), "{\"1\":10,\"2\":20}");
}

#[test]
fn object_keys_render_inside_added_quotes() {
    // A string key contributes its own quoted rendering between the added
    // quotes, doubling them.
    let mut o: JsonObject<String, i32> = JsonObject::new();
    o.insert("a".to_string(), 1);
    o.insert("b".to_string(), 2);
    assert_eq!(o.to_json(), "{\"\"a\"\":1,\"\"b\"\":2}");
}

#[test]
fn empty_object_collapses_to_closing_brace() {
    let o: JsonObject<i32, i32> = JsonObject::new();
    assert_eq!(o.to_json(), "}");
}

#[test]
fn object_insert_overwrites_equal_key() {
    let mut o: JsonObject<i32, i32> = JsonObject::new();
    o.insert(1, 10);
    o.insert(2, 20);
    o.insert(1, 30);
    assert_eq!(o.to_json(), "{\"1\":30,\"2\":20}");
}

#[test]
fn object_values_render_by_type() {
    let mut o: JsonObject<i32, Vec<i32>> = JsonObject::new();
    o.insert(1, vec![1, 2]);
    assert_eq!(o.to_json(), "{\"1\":[1,2]}");
}

#[test]
fn object_body_keeps_keys_verbatim() {
    let pairs = vec![
        ("a".to_string(), "1".to_string()),
        ("b".to_string(), "\"x\"".to_string()),
    ];
    assert_eq!(json_object_body(&pairs), "{\"a\":1,\"b\":\"x\"}");
}

#[test]
fn object_body_of_no_pairs_collapses() {
    let pairs: Vec<(String, String)> = Vec::new();
    assert_eq!(json_object_body(&pairs), "}");
}
