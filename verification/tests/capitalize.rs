use phesm::capitalize::{Capitalize, CapitalizeUntrimmed};

#[test]
fn capitalize_empty() {
    assert_eq!("".capitalize(), "".to_string());
    assert_eq!(String::new().capitalize(), "".to_string());
}

#[test]
fn capitalize_untrimmed_empty() {
    assert_eq!("".capitalize_untrimmed(), "".to_string());
    assert_eq!(String::new().capitalize_untrimmed(), "".to_string());
}

#[test]
fn capitalize_word() {
    assert_eq!("hello".capitalize(), "Hello".to_string());
    assert_eq!("hello".to_string().capitalize(), "Hello".to_string());
}

#[test]
fn capitalize_leading_space_blocks() {
    assert_eq!(" hello".capitalize(), " hello".to_string());
    assert_eq!(" hello".to_string().capitalize(), " hello".to_string());
}

#[test]
fn capitalize_untrimmed_leading_space() {
    assert_eq!(" hello".capitalize_untrimmed(), " Hello".to_string());
    assert_eq!(
        " hello".to_string().capitalize_untrimmed(),
        " Hello".to_string()
    );
}

#[test]
fn capitalize_untrimmed_whitespace_only() {
    assert_eq!("   ".capitalize_untrimmed(), "   ".to_string());
}

#[test]
fn capitalize_untrimmed_no_leading_whitespace() {
    assert_eq!("hello".capitalize_untrimmed(), "Hello".to_string());
    assert_eq!("hello".capitalize_untrimmed(), "hello".capitalize());
}

#[test]
fn capitalize_sentence() {
    assert_eq!("hello, World!".capitalize(), "Hello, World!".to_string());
    assert_eq!(
        "hello, World!".capitalize_untrimmed(),
        "Hello, World!".to_string()
    );
    assert_eq!(
        "    capitalize".capitalize_untrimmed(),
        "    Capitalize".to_string()
    );
}

#[test]
fn capitalize_multi_scalar_expansion() {
    // The uppercase mapping of a single character may be several characters.
    assert_eq!("\u{df}ass".capitalize(), "SSass".to_string());
    assert_eq!(" \u{df}ass".capitalize_untrimmed(), " SSass".to_string());
}

#[test]
fn capitalize_non_ascii_first_char() {
    assert_eq!("\u{e9}cole".capitalize(), "\u{c9}cole".to_string());
}

#[test]
fn capitalize_untrimmed_unicode_whitespace() {
    // An em space counts as whitespace when looking for the first letter.
    assert_eq!(
        "\u{2003}hello".capitalize_untrimmed(),
        "\u{2003}Hello".to_string()
    );
}

#[test]
fn capitalize_already_uppercase() {
    assert_eq!("Hello".capitalize(), "Hello".to_string());
    assert_eq!("9 lives".capitalize(), "9 lives".to_string());
}
