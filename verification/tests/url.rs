use irodori_lakehouse::url::{encode_component, encode_namespace, hex_encode};

const NAMESPACE_SEPARATOR: &str = "%1F";

#[test]
fn encodes_namespaces_and_components() {
    assert_eq!(
        encode_namespace(&["a".to_string(), "b c".to_string()], NAMESPACE_SEPARATOR),
        "a%1Fb%20c"
    );
    assert_eq!(
        encode_namespace(&["a".to_string(), "b".to_string()], "%2E"),
        "a%2Eb"
    );
    assert_eq!(encode_component("a/b?c"), "a%2Fb%3Fc");
}

#[test]
fn encodes_bytes_outside_the_unreserved_set() {
    assert_eq!(encode_component("AZaz09-._~"), "AZaz09-._~");
    assert_eq!(encode_component("ä%"), "%C3%A4%25");
    assert_eq!(encode_component(""), "");
    assert_eq!(encode_namespace(&[], NAMESPACE_SEPARATOR), "");
}

#[test]
fn encodes_bytes_in_hexadecimal() {
    assert_eq!(hex_encode(&[0, 9, 10, 255]), "00090aff");
    assert_eq!(hex_encode(&[]), "");
}

fn decoded(text: &str) -> Vec<u8> {
    let bytes = text.as_bytes();
    let mut out = Vec::new();
    let mut i = 0;
    while i < bytes.len() {
        if bytes[i] == b'%' {
            out.push(u8::from_str_radix(&text[i + 1..i + 3], 16).unwrap());
            i += 3;
        } else {
            out.push(bytes[i]);
            i += 1;
        }
    }
    out
}

#[test]
fn encoded_components_are_read_back() {
    for value in ["", "plain", "a b/ä?%\u{1f}", "~._-", "\u{10ffff}"] {
        let encoded = encode_component(value);
        assert_eq!(decoded(&encoded), value.as_bytes());
        assert!(encoded.bytes().all(|b| b.is_ascii_alphanumeric() || b"-._~%".contains(&b)));
    }
    assert_ne!(encode_component("a b"), encode_component("a%20b"));
}

#[test]
fn encoded_namespaces_are_read_back() {
    let levels = ["a b".to_string(), "ä".to_string(), "c".to_string()];
    let encoded = encode_namespace(&levels, NAMESPACE_SEPARATOR);
    assert_eq!(decoded(&encoded), "a b\u{1f}ä\u{1f}c".as_bytes());
}

#[test]
fn hexadecimal_is_read_back() {
    let bytes: Vec<u8> = (0..=255).collect();
    let text = hex_encode(&bytes);
    let back: Vec<u8> = (0..256)
        .map(|i| u8::from_str_radix(&text[2 * i..2 * i + 2], 16).unwrap())
        .collect();
    assert_eq!(back, bytes);
}
