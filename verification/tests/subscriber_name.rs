use zero2prod::domain::SubscriberName;

#[test]
fn a_256_grapheme_long_name_is_valid() {
    let name = "ё".repeat(256);
    assert!(SubscriberName::parse(name).is_ok());
}

#[test]
fn a_256_grapheme_long_name_is_rejected() {
    let name = "a".repeat(257);
    assert!(SubscriberName::parse(name).is_err());
}

#[test]
fn white_spaces_only_are_rejected() {
    let name = " ".to_string();
    assert!(SubscriberName::parse(name).is_err());
}

#[test]
fn empty_string_is_rejected() {
    let name = "".to_string();
    assert!(SubscriberName::parse(name).is_err());
}

#[test]
fn names_containing_an_invalid_character_are_rejected() {
    for name in &['/', '(', ')', '"', '<', '>', '\\', '{', '}'] {
        let name = name.to_string();
        assert!(SubscriberName::parse(name).is_err());
    }
}

#[test]
fn a_valid_name_is_parsed_successfully() {
    let name = "Talal Shafei".to_string();
    assert!(SubscriberName::parse(name).is_ok());
}

#[test]
fn a_rejected_name_reports_itself() {
    let err = SubscriberName::parse("le/guin".to_string()).unwrap_err();
    assert_eq!(err, "le/guin is not a valid subscriber name. ");
}

#[test]
fn a_parsed_name_exposes_the_original_text() {
    let name = SubscriberName::parse("Ursula Le Guin".to_string()).unwrap();
    assert_eq!(name.as_ref(), "Ursula Le Guin");
}

#[test]
fn a_name_of_257_graphemes_with_combining_marks_is_rejected() {
    let name = "e\u{0301}".repeat(257);
    assert!(SubscriberName::parse(name).is_err());
}
