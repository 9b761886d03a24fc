use zero2prod::token::generate_subscription_token;

#[test]
fn a_token_has_exactly_25_characters() {
    let token = generate_subscription_token();
    assert_eq!(token.chars().count(), 25);
}

#[test]
fn a_token_is_alphanumeric() {
    let token = generate_subscription_token();
    assert!(token.chars().all(|c| c.is_ascii_alphanumeric()));
}

#[test]
fn two_tokens_differ() {
    let first = generate_subscription_token();
    let second = generate_subscription_token();
    assert_ne!(first, second);
}
