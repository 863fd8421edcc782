use ddp::json::Json;

fn number(n: u64) -> Json {
    Json::Number(serde_json::Number::from(n))
}

fn text(s: &str) -> Json {
    Json::Text(s.to_string())
}

#[test]
fn parse_reads_every_kind_of_value() {
    assert_eq!(Json::parse("null"), Some(Json::Null));
    assert_eq!(Json::parse("true"), Some(Json::Bool(true)));
    assert_eq!(Json::parse("false"), Some(Json::Bool(false)));
    assert_eq!(Json::parse("3"), Some(number(3)));
    assert_eq!(Json::parse("\"a\\\"b\""), Some(text("a\"b")));
    assert_eq!(Json::parse("[1,\"x\",null]"), Some(Json::Array(vec![number(1), text("x"), Json::Null])));
    assert_eq!(
        Json::parse(" { \"b\" : 1 , \"a\" : [ ] } "),
        Some(Json::Object(vec![("a".to_string(), Json::Array(vec![])), ("b".to_string(), number(1))]))
    );
}

#[test]
fn parse_refuses_what_is_not_json() {
    for bad in ["", "{", "{\"a\":}", "ping", "{\"a\":1} x", "[1,]", "'a'"] {
        assert_eq!(Json::parse(bad), None, "{}", bad);
    }
}

#[test]
fn parse_is_not_the_identity_on_text() {
    assert_eq!(Json::parse("\"ping\""), Some(text("ping")));
    assert_ne!(Json::parse("\"ping\""), Some(text("\"ping\"")));
}

#[test]
fn text_is_compact() {
    let value = Json::parse("{ \"b\" : [ 1 , 2 ] , \"a\" : { \"c\" : null } }").unwrap();
    assert_eq!(value.text(), "{\"a\":{\"c\":null},\"b\":[1,2]}");
}

#[test]
fn text_escapes_strings() {
    assert_eq!(text("a\"b\\c\nd").text(), "\"a\\\"b\\\\c\\nd\"");
    assert_eq!(text("").text(), "\"\"");
}

#[test]
fn text_of_scalars() {
    assert_eq!(Json::Null.text(), "null");
    assert_eq!(Json::Bool(true).text(), "true");
    assert_eq!(number(500).text(), "500");
    assert_eq!(Json::Array(vec![]).text(), "[]");
    assert_eq!(Json::Object(vec![]).text(), "{}");
}

#[test]
fn text_then_parse_gives_the_value_back() {
    let value = Json::Object(vec![
        ("password".to_string(), text("supersecret")),
        ("user".to_string(), Json::Object(vec![("username".to_string(), text("rc_bot"))])),
    ]);
    assert_eq!(Json::parse(&value.text()), Some(value));
}

#[test]
fn get_finds_members_of_objects_only() {
    let value = Json::parse("{\"msg\":\"ping\",\"id\":\"q\",\"n\":null}").unwrap();
    assert_eq!(value.get("msg"), Some(&text("ping")));
    assert_eq!(value.get("id"), Some(&text("q")));
    assert_eq!(value.get("n"), Some(&Json::Null));
    assert_eq!(value.get("other"), None);
    assert_eq!(value.get(""), None);
    assert_eq!(Json::parse("[\"msg\"]").unwrap().get("msg"), None);
    assert_eq!(text("msg").get("msg"), None);
    assert_eq!(Json::Null.get("msg"), None);
}

#[test]
fn get_takes_the_last_of_equal_keys() {
    let value = Json::Object(vec![
        ("k".to_string(), number(1)),
        ("j".to_string(), number(2)),
        ("k".to_string(), number(3)),
    ]);
    assert_eq!(value.get("k"), Some(&number(3)));
    assert_eq!(value.get("j"), Some(&number(2)));
    assert_eq!(Json::parse("{\"k\":1,\"k\":3}").unwrap().get("k"), Some(&number(3)));
}

#[test]
fn as_str_is_for_strings_only() {
    assert_eq!(text("x").as_str(), Some("x"));
    assert_eq!(text("").as_str(), Some(""));
    assert_eq!(number(1).as_str(), None);
    assert_eq!(Json::Null.as_str(), None);
    assert_eq!(Json::Array(vec![text("x")]).as_str(), None);
}

#[test]
fn as_array_is_for_arrays_only() {
    let items = vec![text("x"), number(1)];
    assert_eq!(Json::Array(vec![text("x"), number(1)]).as_array(), Some(&items));
    assert_eq!(Json::Array(vec![]).as_array(), Some(&vec![]));
    assert_eq!(text("x").as_array(), None);
    assert_eq!(Json::Object(vec![]).as_array(), None);
}

#[test]
fn str_at_needs_a_string_member() {
    let value = Json::parse("{\"id\":\"q\",\"n\":7}").unwrap();
    assert_eq!(value.str_at("id"), Some("q"));
    assert_eq!(value.str_at("n"), None);
    assert_eq!(value.str_at("missing"), None);
    assert_eq!(number(1).str_at("id"), None);
}

#[test]
fn into_member_hands_the_member_over() {
    let value = Json::parse("{\"result\":{\"x\":[1]},\"id\":\"q\"}").unwrap();
    assert_eq!(
        value.into_member("result"),
        Some(Json::Object(vec![("x".to_string(), Json::Array(vec![number(1)]))]))
    );
    let value = Json::parse("{\"id\":\"q\"}").unwrap();
    assert_eq!(value.into_member("result"), None);
    assert_eq!(number(1).into_member("result"), None);
    let twice = Json::Object(vec![("k".to_string(), number(1)), ("k".to_string(), number(3))]);
    assert_eq!(twice.into_member("k"), Some(number(3)));
}
