use irodori_lakehouse::redaction::{redact, redact_value};

#[test]
fn masks_every_occurrence() {
    assert_eq!(redact_value("key=k1 and k1", "k1"), "key=**** and ****");
    assert_eq!(redact_value("nothing", ""), "nothing");
    assert_eq!(redact_value("aaa", "aa"), "****a");
}

#[test]
fn masks_one_value_after_the_other() {
    let values = ["abc".to_string(), "".to_string(), "bcd".to_string()];
    assert_eq!(redact(&values, "abcd bcd"), "****d ****");
    assert_eq!(redact(&[], "abcd"), "abcd");
}

#[test]
fn no_secret_is_left() {
    let values = ["ab".to_string(), "ba".to_string()];
    let message = redact(&values, "abab baba aabb");
    assert!(!message.contains("ab") && !message.contains("ba"), "{message}");
}

#[test]
fn a_mask_can_hold_a_secret_of_its_own_characters() {
    assert!(redact_value("*", "*").contains("*"));
}
