use notifier::compose::{compose, ComposeError};

#[test]
fn splits_four_part_pipe() {
    let m = compose("\nAlice\nHello\nBody line 1\nBody line 2").unwrap();
    assert_eq!(m.from_display_name, "Alice");
    assert_eq!(m.subject, "Hello");
    assert_eq!(m.body, "Body line 1\nBody line 2");
}

#[test]
fn keeps_later_line_breaks_in_body() {
    let m = compose("\nA\nS\n1\n2\n3\n").unwrap();
    assert_eq!(m.from_display_name, "A");
    assert_eq!(m.subject, "S");
    assert_eq!(m.body, "1\n2\n3\n");
}

#[test]
fn allows_empty_body() {
    let m = compose("\nA\nS\n").unwrap();
    assert_eq!(m.from_display_name, "A");
    assert_eq!(m.subject, "S");
    assert_eq!(m.body, "");
}

#[test]
fn rejects_non_empty_preamble() {
    assert_eq!(
        compose("NotEmpty\nAlice\nHello\nBody").unwrap_err(),
        ComposeError::NonEmptyPreamble
    );
}

#[test]
fn rejects_too_few_parts() {
    assert_eq!(
        compose("\nAlice\nHello").unwrap_err(),
        ComposeError::MissingField
    );
}

#[test]
fn rejects_empty_text() {
    assert_eq!(compose("").unwrap_err(), ComposeError::MissingField);
}
