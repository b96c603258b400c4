use irodori_lakehouse::json::Json;
use irodori_lakehouse::request::{option_string, redaction_values};

fn read(content: &str) -> Json {
    Json::parse(content).ok().expect("valid JSON")
}

#[test]
fn looks_for_options_in_order() {
    let request = read(
        r#"{"a": " own ", "profile": {"a": "profile", "b": "p", "options": {"d": "deep"}},
            "options": {"b": "section", "c": "  "}, "secrets": {"c": "s"}}"#,
    );
    assert_eq!(option_string(&request, &["a"]), Some("own".to_string()));
    assert_eq!(option_string(&request, &["b"]), Some("p".to_string()));
    assert_eq!(option_string(&request, &["c"]), Some("s".to_string()));
    assert_eq!(option_string(&request, &["d"]), Some("deep".to_string()));
    assert_eq!(option_string(&request, &["missing"]), None);
    assert_eq!(option_string(&request, &["d", "b"]), Some("p".to_string()));
    assert_eq!(option_string(&request, &[]), None);
}

#[test]
fn reads_numbers_and_flags_as_options() {
    let request = read(r#"{"n": -7, "f": true, "x": 1.5, "o": {}, "l": [], "z": null, "e": ""}"#);
    assert_eq!(option_string(&request, &["n"]), Some("-7".to_string()));
    assert_eq!(option_string(&request, &["f"]), Some("true".to_string()));
    assert_eq!(option_string(&request, &["x"]), Some("1.5".to_string()));
    for name in ["o", "l", "z", "e"] {
        assert_eq!(option_string(&request, &[name]), None);
    }
}

#[test]
fn collects_secrets_once() {
    let request = read(
        r#"{"password": "p", "auth": {"token": "t", "accessKeyId": "p"},
            "secrets": {"s3SessionToken": " s "}}"#,
    );
    assert_eq!(redaction_values(&request), vec!["p", "t", "s"]);
    assert!(redaction_values(&read("[]")).is_empty());
}
