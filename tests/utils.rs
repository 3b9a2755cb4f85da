use eldiro::utils::{extract_digits, extract_iden, extract_whitespace, extract_whitespace1, tag};

#[test]
fn extract_whitespace_empty() {
    assert_eq!(extract_whitespace(""), ("", ""))
}

#[test]
fn extract_whitespace_and_newline() {
    assert_eq!(extract_whitespace("\n  \n\n"), ("", "\n  \n\n"))
}

#[test]
fn extract_whitespace1_no_whitespace() {
    assert!(extract_whitespace1("test").is_err())
}

#[test]
fn extract_whitespace1_3() {
    assert_eq!(extract_whitespace1("   hello"), Ok(("hello", "   ")))
}

#[test]
fn extract_whitespace_3() {
    assert_eq!(extract_whitespace("   hello"), ("hello", "   "))
}

#[test]
fn extract_string_valid() {
    assert_eq!(tag("let x = 3", "let"), Ok(" x = 3"))
}

#[test]
fn extract_string_invalid() {
    assert!(tag("abcd", "abd").is_err())
}

#[test]
fn extract_identifier() {
    assert_eq!(extract_iden("test/2"), Ok(("/2", "test")))
}

#[test]
fn extract_identifier_numeric() {
    assert_eq!(extract_iden("test1 2"), Ok((" 2", "test1")))
}

#[test]
fn extract_identifier_non_numeric() {
    assert!(extract_iden("2test").is_err())
}

#[test]
fn extract_one_digit() {
    let input = "1+2";
    assert_eq!(extract_digits(input), Ok(("+2", "1")))
}

#[test]
fn extract_large_number() {
    let input = "1111+2222";
    assert_eq!(extract_digits(input), Ok(("+2222", "1111")))
}

#[test]
fn extract_number_alone() {
    let input = "1111";
    assert_eq!(extract_digits(input), Ok(("", "1111")))
}

#[test]
fn extract_empty() {
    let input = "";
    assert!(extract_digits(input).is_err())
}

#[test]
fn extract_identifier_unicode_letters_and_underscore() {
    assert_eq!(extract_iden("caf\u{e9}_2 x"), Ok((" x", "caf\u{e9}_2")))
}

#[test]
fn extract_identifier_stops_at_non_alphanumeric() {
    assert_eq!(extract_iden("ab-c"), Ok(("-c", "ab")))
}

#[test]
fn extract_identifier_needs_ascii_letter_first() {
    assert!(extract_iden("\u{e9}t\u{e9}").is_err());
    assert!(extract_iden("_x").is_err());
}

#[test]
fn tag_on_short_input() {
    assert!(tag("le", "let").is_err());
    assert_eq!(tag("let", "let"), Ok(""));
}

#[test]
fn extract_whitespace_ignores_tabs() {
    assert_eq!(extract_whitespace("\t x"), ("\t x", ""));
    assert!(extract_whitespace1("\tx").is_err());
}
