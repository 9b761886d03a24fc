use zero2prod::form::{FormError, parse_form_data};

#[test]
fn a_plain_body_is_read() {
    let fd = parse_form_data("name=le guin&email=ursula@gmail.com").unwrap();
    assert_eq!(fd.name, "le guin");
    assert_eq!(fd.email, "ursula@gmail.com");
}

#[test]
fn percent_escapes_and_plus_are_decoded() {
    let fd = parse_form_data("name=le+guin&email=ursula_le_guin%40gmail.com").unwrap();
    assert_eq!(fd.name, "le guin");
    assert_eq!(fd.email, "ursula_le_guin@gmail.com");
}

#[test]
fn multi_byte_escapes_are_decoded() {
    let fd = parse_form_data("name=%D1%91&email=a%40b.com").unwrap();
    assert_eq!(fd.name, "ё");
    assert_eq!(fd.email, "a@b.com");
}

#[test]
fn a_missing_email_is_reported() {
    let err = parse_form_data("name=le%20guin").unwrap_err();
    assert_eq!(err, FormError::MissingEmail);
}

#[test]
fn a_missing_name_is_reported() {
    let err = parse_form_data("email=ursula_le_guin%40gmail.com").unwrap_err();
    assert_eq!(err, FormError::MissingName);
}

#[test]
fn an_empty_body_misses_both_fields() {
    let err = parse_form_data("").unwrap_err();
    assert_eq!(err, FormError::MissingEmail);
}

#[test]
fn a_truncated_escape_is_an_encoding_error() {
    let err = parse_form_data("name=le%2&email=a%40b.com").unwrap_err();
    assert_eq!(err, FormError::InvalidEncoding);
}

#[test]
fn bytes_that_are_not_utf8_are_an_encoding_error() {
    let err = parse_form_data("name=%FF%FE&email=a%40b.com").unwrap_err();
    assert_eq!(err, FormError::InvalidEncoding);
}

#[test]
fn the_last_occurrence_of_a_repeated_field_wins() {
    let fd = parse_form_data("email=a%40b.com&name=first&name=second").unwrap();
    assert_eq!(fd.name, "second");
    assert_eq!(fd.email, "a@b.com");
}

#[test]
fn a_field_without_a_value_is_empty() {
    // The name key is present with an empty value: parsing succeeds and the
    // empty name is left for validation to reject downstream.
    let fd = parse_form_data("name&email=a%40b.com").unwrap();
    assert_eq!(fd.name, "");
    assert_eq!(fd.email, "a@b.com");
}
