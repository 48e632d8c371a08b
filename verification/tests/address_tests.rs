use notifier::address::{validate, validate_form_input, ValidationError};

#[test]
fn accepts_plain_address() {
    let a = validate("a@b.c".to_string()).unwrap();
    assert_eq!(a.as_str(), "a@b.c");
}

#[test]
fn accepts_permissive_addresses() {
    let a = validate("user.name+tag@example.co.uk".to_string()).unwrap();
    assert_eq!(a.as_str(), "user.name+tag@example.co.uk");
    let b = validate("x@y.".to_string()).unwrap();
    assert_eq!(b.as_str(), "x@y.");
    let c = validate("p\u{e9}ter@ex\u{e4}mple.de".to_string()).unwrap();
    assert_eq!(c.as_str(), "p\u{e9}ter@ex\u{e4}mple.de");
}

#[test]
fn rejects_missing_domain_dot() {
    assert_eq!(
        validate("a@b".to_string()).unwrap_err(),
        ValidationError::MissingDomainDot
    );
}

#[test]
fn rejects_empty_local_part() {
    assert_eq!(
        validate("@b.c".to_string()).unwrap_err(),
        ValidationError::EmptyLocalPart
    );
}

#[test]
fn rejects_two_ats() {
    assert_eq!(
        validate("a@b@c.d".to_string()).unwrap_err(),
        ValidationError::MalformedAddress
    );
}

#[test]
fn rejects_no_at() {
    assert_eq!(
        validate("ab.c".to_string()).unwrap_err(),
        ValidationError::MalformedAddress
    );
}

#[test]
fn rejects_empty_string() {
    assert_eq!(
        validate(String::new()).unwrap_err(),
        ValidationError::MalformedAddress
    );
}

#[test]
fn form_input_percent_decodes() {
    let a = validate_form_input("a%40b.c").unwrap();
    assert_eq!(a.as_str(), "a@b.c");
}

#[test]
fn form_input_decodes_plus_to_space() {
    let a = validate_form_input("a+b@c.d").unwrap();
    assert_eq!(a.as_str(), "a b@c.d");
}

#[test]
fn form_input_decodes_multibyte_escape() {
    let a = validate_form_input("p%C3%A9ter@x.com").unwrap();
    assert_eq!(a.as_str(), "p\u{e9}ter@x.com");
}

#[test]
fn form_input_keeps_invalid_escape() {
    let a = validate_form_input("%zz@b.c").unwrap();
    assert_eq!(a.as_str(), "%zz@b.c");
}

#[test]
fn form_input_rejects_invalid_utf8() {
    assert_eq!(
        validate_form_input("%FF%FE@b.c").unwrap_err(),
        ValidationError::InvalidEncoding
    );
}

#[test]
fn form_input_validates_decoded_string() {
    assert_eq!(
        validate_form_input("a%40b").unwrap_err(),
        ValidationError::MissingDomainDot
    );
}

#[test]
fn into_string_returns_validated_input() {
    let a = validate("a@b.c".to_string()).unwrap();
    assert_eq!(a.into_string(), "a@b.c");
}
