use phesm::trim::{trim_optional_string, trim_string};

#[test]
fn trim_string_surrounding_whitespace() {
    assert_eq!(
        trim_string("   Hello, World!   "),
        "Hello, World!".to_string()
    );
}

#[test]
fn trim_string_already_trimmed() {
    assert_eq!(trim_string("text"), "text".to_string());
}

#[test]
fn trim_string_empty_and_whitespace_only() {
    assert_eq!(trim_string(""), "".to_string());
    assert_eq!(trim_string("   "), "".to_string());
}

#[test]
fn trim_string_keeps_inner_whitespace() {
    assert_eq!(trim_string("  a b  c "), "a b  c".to_string());
}

#[test]
fn trim_string_unicode_whitespace() {
    // Em spaces and a no-break space are Unicode whitespace.
    assert_eq!(
        trim_string("\u{2003}\u{a0}x\u{2003}"),
        "x".to_string()
    );
}

#[test]
fn trim_optional_string_whitespace_only_is_dropped() {
    assert_eq!(trim_optional_string(Some("   ".to_string())), None);
}

#[test]
fn trim_optional_string_absent_stays_absent() {
    assert_eq!(trim_optional_string(None), None);
}

#[test]
fn trim_optional_string_present_is_trimmed() {
    assert_eq!(
        trim_optional_string(Some("  text  ".to_string())),
        Some("text".to_string())
    );
}

#[test]
fn trim_optional_string_empty_is_dropped() {
    assert_eq!(trim_optional_string(Some("".to_string())), None);
}
