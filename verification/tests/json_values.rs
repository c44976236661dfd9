use llm_chat::json::Json;

fn value(text: &str) -> serde_json::Value {
    serde_json::from_str(text).unwrap()
}

#[test]
fn parse_reads_a_document() {
    let json = Json::parse("{\"a\": [1, \"two\", null, true], \"b\": {\"c\": -3}}").unwrap();
    assert_eq!(json.to_value(), value("{\"a\":[1,\"two\",null,true],\"b\":{\"c\":-3}}"));
    let a = json.member("a").unwrap();
    assert_eq!(a.item(0).unwrap().as_i64(), Some(1));
    assert_eq!(a.item(1).unwrap().as_str(), Some("two"));
    assert!(a.item(2).unwrap().as_str().is_none());
    assert!(a.item(4).is_none());
    assert_eq!(json.member("b").unwrap().member("c").unwrap().as_i64(), Some(-3));
    assert!(json.member("c").is_none());
}

#[test]
fn parse_rejects_what_is_no_json() {
    assert!(Json::parse("").is_err());
    assert!(Json::parse("{").is_err());
    assert!(Json::parse("{\"a\": }").is_err());
    assert!(Json::parse("1 2").is_err());
    let message = Json::parse("{\"a\"").unwrap_err();
    assert_eq!(message, "EOF while parsing an object at line 1 column 4");
}

#[test]
fn accessors_on_the_wrong_kind_give_nothing() {
    let text = Json::from_text("word");
    assert!(text.member("a").is_none());
    assert!(text.item(0).is_none());
    assert!(text.as_i64().is_none());
    assert_eq!(text.as_str(), Some("word"));
    let number = Json::from_i64(7);
    assert!(number.as_str().is_none());
    assert_eq!(number.as_i64(), Some(7));
    assert!(Json::Null.member("a").is_none());
}

#[test]
fn numbers_that_are_no_i64_have_no_integer() {
    assert_eq!(Json::parse("1.5").unwrap().as_i64(), None);
    assert_eq!(Json::parse("18446744073709551615").unwrap().as_i64(), None);
    assert_eq!(Json::parse("9223372036854775807").unwrap().as_i64(), Some(i64::MAX));
    assert_eq!(Json::parse("-9223372036854775808").unwrap().as_i64(), Some(i64::MIN));
    assert_eq!(Json::from_i64(i64::MIN).as_i64(), Some(i64::MIN));
    assert_eq!(Json::parse("1.5").unwrap().to_value(), value("1.5"));
}

#[test]
fn insert_replaces_what_was_under_the_key() {
    let mut object = Json::object();
    object.insert("a", Json::from_i64(1));
    object.insert("b", Json::from_text("x"));
    object.insert("a", Json::from_i64(2));
    assert_eq!(object.member("a").unwrap().as_i64(), Some(2));
    assert_eq!(object.member("b").unwrap().as_str(), Some("x"));
    assert_eq!(object.to_value(), value("{\"a\":2,\"b\":\"x\"}"));
    let mut not_object = Json::from_i64(5);
    not_object.insert("a", Json::Null);
    assert_eq!(not_object.to_value(), value("5"));
}

#[test]
fn pretty_is_the_indented_rendering() {
    let json = Json::parse("{\"b\":[1,2],\"a\":\"x\"}").unwrap();
    assert_eq!(json.pretty().unwrap(), "{\n  \"a\": \"x\",\n  \"b\": [\n    1,\n    2\n  ]\n}");
    assert_eq!(Json::from_text("a\"b").pretty().unwrap(), "\"a\\\"b\"");
    assert_eq!(Json::Null.pretty().unwrap(), "null");
}

#[test]
fn values_round_trip() {
    let source = value("{\"k\":[{\"n\":1.25},false,\"s\",null],\"z\":{}}");
    let json = Json::from_value(&source);
    assert_eq!(json.to_value(), source);
    assert_eq!(json.clone().to_value(), source);
    assert_eq!(Json::object().to_value(), value("{}"));
    assert_eq!(Json::Bool(true).to_value(), value("true"));
}
