use zero2prod::domain::SubscriberEmail;

#[test]
fn a_valid_email_is_parsed_successfully() {
    let email = SubscriberEmail::parse("ursula_le_guin@gmail.com".to_string()).unwrap();
    assert_eq!(email.as_ref(), "ursula_le_guin@gmail.com");
}

#[test]
fn an_email_missing_the_at_symbol_is_rejected() {
    assert!(SubscriberEmail::parse("ursula_le_guin.gmail.com".to_string()).is_err());
}

#[test]
fn an_email_missing_the_domain_is_rejected() {
    assert!(SubscriberEmail::parse("ursula_le_guin@".to_string()).is_err());
}

#[test]
fn an_email_missing_the_local_part_is_rejected() {
    assert!(SubscriberEmail::parse("@gmail.com".to_string()).is_err());
}

#[test]
fn an_empty_email_is_rejected() {
    assert!(SubscriberEmail::parse("".to_string()).is_err());
}

#[test]
fn an_email_with_two_at_symbols_is_rejected() {
    assert!(SubscriberEmail::parse("ursula@le@guin.com".to_string()).is_err());
}

#[test]
fn an_email_with_whitespace_in_the_local_part_is_rejected() {
    assert!(SubscriberEmail::parse("ursula le guin@gmail.com".to_string()).is_err());
}

#[test]
fn an_email_whose_domain_starts_with_a_dot_is_rejected() {
    assert!(SubscriberEmail::parse("ursula@.gmail.com".to_string()).is_err());
}

#[test]
fn a_rejected_email_reports_itself() {
    let err = SubscriberEmail::parse("not-an-email".to_string()).unwrap_err();
    assert_eq!(err, "not-an-email is not a valid subscriber email.");
}
