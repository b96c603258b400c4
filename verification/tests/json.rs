use irodori_lakehouse::json::{Json, JsonNumber, Members};

fn read(content: &str) -> Json {
    match Json::parse(content) {
        Ok(json) => json,
        Err(message) => panic!("{content}: {message}"),
    }
}

const VALUES: [&str; 14] = [
    "null",
    "true",
    "\"a \\\"b\\\" \\u00e4\"",
    "0",
    "-0",
    "18446744073709551615",
    "-9223372036854775808",
    "1.5",
    "1e300",
    "100000000000000000000",
    "[]",
    "[1, [2, {}], \"x\"]",
    "{\"b\": 1, \"a\": [true, null]}",
    "{\"a\": 1, \"a\": 2}",
];

#[test]
fn reads_and_writes_what_serde_json_does() {
    for content in VALUES {
        let expected: serde_json::Value = serde_json::from_str(content).unwrap();
        assert_eq!(read(content).to_text(), expected.to_string());
    }
    assert_eq!(read(" {\"b\": [1.50, -2], \"a\": {}} ").to_text(), "{\"a\":{},\"b\":[1.5,-2]}");
}

#[test]
fn reports_the_error_of_an_invalid_text() {
    for content in ["", "{", "nope", "[1,]", "\"\\x\"", "1 2"] {
        let expected = serde_json::from_str::<serde_json::Value>(content).unwrap_err().to_string();
        match Json::parse(content) {
            Ok(_) => panic!("{content} was read"),
            Err(message) => assert_eq!(message, expected),
        }
    }
}

#[test]
fn finds_members() {
    let json = read("{\"a\": {\"b\": \"x\"}, \"n\": 3, \"f\": false, \"l\": [1]}");
    assert_eq!(json.get("a").and_then(|a| a.text_at("b")), Some("x"));
    assert!(json.get("missing").is_none());
    assert!(json.text_at("n").is_none());
    assert_eq!(json.get("f").and_then(|f| f.as_bool()), Some(false));
    assert_eq!(json.get("l").and_then(|l| l.as_array()).map(|l| l.len()), Some(1));
    assert!(read("[1]").get("a").is_none());
}

#[test]
fn compares_values_as_serde_json_does() {
    let more = ["0.0", "-0.0", "1", "1.0", "{\"a\": [true, null], \"b\": 1}", "{\"b\": 1}", "[1]"];
    for a in VALUES.iter().chain(more.iter()) {
        for b in VALUES.iter().chain(more.iter()) {
            let x: serde_json::Value = serde_json::from_str(a).unwrap();
            let y: serde_json::Value = serde_json::from_str(b).unwrap();
            assert_eq!(read(a).same(&read(b)), x == y, "{a} {b}");
        }
    }
}

#[test]
fn writes_numbers() {
    assert_eq!(JsonNumber::from_signed(i64::MIN).written(), "-9223372036854775808");
    assert_eq!(JsonNumber::from_signed(-1).written(), "-1");
    assert_eq!(JsonNumber::from_signed(7).written(), "7");
    assert_eq!(JsonNumber::from_unsigned(u64::MAX).written(), "18446744073709551615");
    assert_eq!(JsonNumber::Float("2.5".to_string()).written(), "2.5");
    assert_eq!(Json::Number(JsonNumber::from_signed(7)).to_text(), "7");
    assert_eq!(Json::Number(JsonNumber::Negative(7)).to_text(), "7");
    assert_eq!(Json::Number(JsonNumber::Float("inf".to_string())).to_text(), "null");
    assert_eq!(Json::Number(JsonNumber::Float("2.50".to_string())).to_text(), "2.5");
}

#[test]
fn builds_objects() {
    let json = Members::new().with_text("a", "x").with("b", Json::Bool(true)).with_text("a", "y");
    assert_eq!(json.object().to_text(), "{\"a\":\"y\",\"b\":true}");
    let twice = Json::Object(vec![
        ("k".to_string(), Json::Null),
        ("m".to_string(), Json::Bool(true)),
        ("k".to_string(), Json::Bool(false)),
    ]);
    assert_eq!(twice.to_text(), "{\"k\":false,\"m\":true}");
    let copy = read("{\"a\": [1, {\"b\": 2.5}]}").clone();
    assert_eq!(copy.to_text(), "{\"a\":[1,{\"b\":2.5}]}");
}
