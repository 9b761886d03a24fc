use zero2prod::SubscriptionStatus;
use zero2prod::domain::NewSubscriber;
use zero2prod::routes::subscriptions::{
    EmailClient, FormData, SubscribeOutcome, build_confirmation_link, handle_submission,
    http_status, subscribe,
};
use zero2prod::store::SubscriptionStore;

#[test]
fn the_name_is_checked_before_the_email() {
    let form = FormData { email: "broken".to_string(), name: "le/guin".to_string() };
    let err = NewSubscriber::try_from(form).unwrap_err();
    assert_eq!(err, "le/guin is not a valid subscriber name. ");
}

#[test]
fn a_valid_form_yields_the_aggregate() {
    let form = FormData {
        email: "ursula_le_guin@gmail.com".to_string(),
        name: "le guin".to_string(),
    };
    let ns = NewSubscriber::try_from(form).unwrap();
    assert_eq!(ns.email.as_ref(), "ursula_le_guin@gmail.com");
    assert_eq!(ns.name.as_ref(), "le guin");
}

#[test]
fn the_confirmation_link_carries_the_token() {
    let link = build_confirmation_link("https://there.com", "mytokenmytokenmytokenmyto");
    assert_eq!(
        link,
        "https://there.com/subscriptions/confirm?subscription_token=mytokenmytokenmytokenmyto"
    );
}

#[test]
fn http_statuses_follow_the_outcomes() {
    assert_eq!(http_status(SubscribeOutcome::Accepted), 200);
    assert_eq!(http_status(SubscribeOutcome::Rejected), 400);
    assert_eq!(http_status(SubscribeOutcome::FailedStorage), 500);
    assert_eq!(http_status(SubscribeOutcome::FailedDispatch), 500);
}

#[test]
fn subscribe_returns_a_200_for_valid_form_data() {
    let mut store = SubscriptionStore::new();
    let mut email_client = EmailClient::new();
    let body = "name=le%20guin&email=ursula_le_guin%40gmail.com";
    let code = handle_submission(&mut store, &mut email_client, "https://there.com", body, 3);
    assert_eq!(code, 200);
    assert_eq!(store.subscriber_count(), 1);
    let row = store.subscriber_at(0);
    assert_eq!(row.email, "ursula_le_guin@gmail.com");
    assert_eq!(row.name, "le guin");
    assert_eq!(row.status, SubscriptionStatus::PendingConfirmation);
    assert_eq!(store.token_count(), 1);
    let token = store.token_at(0);
    assert_eq!(token.subscriber_id, row.id);
    // Exactly one outbound email went out, and it carries the stored token.
    assert_eq!(email_client.sent.len(), 1);
    let email = &email_client.sent[0];
    assert_eq!(email.recipient, "ursula_le_guin@gmail.com");
    assert_eq!(email.subject, "Welcome!");
    let link = build_confirmation_link("https://there.com", &token.subscription_token);
    assert!(email.plain_body.contains(link.as_str()));
    assert!(email.html_body.contains(link.as_str()));
}

#[test]
fn subscribe_returns_a_400_when_data_is_missing() {
    let cases = ["name=le%20guin", "email=ursula_le_guin%40gmail.com", ""];
    for body in cases {
        let mut store = SubscriptionStore::new();
        let mut email_client = EmailClient::new();
        let code = handle_submission(&mut store, &mut email_client, "https://there.com", body, 3);
        assert_eq!(code, 400);
        assert_eq!(store.subscriber_count(), 0);
        assert_eq!(store.token_count(), 0);
        assert_eq!(email_client.sent.len(), 0);
    }
}

#[test]
fn a_forbidden_character_in_the_name_field_is_rejected() {
    let mut store = SubscriptionStore::new();
    let mut email_client = EmailClient::new();
    let body = "name=le%2Fguin&email=ursula_le_guin%40gmail.com";
    let code = handle_submission(&mut store, &mut email_client, "https://there.com", body, 3);
    assert_eq!(code, 400);
    assert_eq!(store.subscriber_count(), 0);
    assert_eq!(store.token_count(), 0);
    assert_eq!(email_client.sent.len(), 0);
}

#[test]
fn a_dispatch_failure_does_not_undo_the_persisted_rows() {
    let mut store = SubscriptionStore::new();
    let mut email_client = EmailClient::new();
    email_client.available = false;
    let form = FormData {
        email: "ursula_le_guin@gmail.com".to_string(),
        name: "le guin".to_string(),
    };
    let outcome = subscribe(&mut store, &mut email_client, "https://there.com", form, 3);
    assert_eq!(outcome, SubscribeOutcome::FailedDispatch);
    assert_eq!(http_status(outcome), 500);
    // The pair is durably on file even though no email went out.
    assert_eq!(store.subscriber_count(), 1);
    assert_eq!(store.token_count(), 1);
    assert_eq!(store.subscriber_at(0).status, SubscriptionStatus::PendingConfirmation);
    assert_eq!(store.token_at(0).subscriber_id, store.subscriber_at(0).id);
    assert_eq!(email_client.sent.len(), 0);
}

#[test]
fn an_invalid_form_is_rejected_before_any_work() {
    let mut store = SubscriptionStore::new();
    let mut email_client = EmailClient::new();
    let form = FormData { email: "nonsense".to_string(), name: "le guin".to_string() };
    let outcome = subscribe(&mut store, &mut email_client, "https://there.com", form, 3);
    assert_eq!(outcome, SubscribeOutcome::Rejected);
    assert_eq!(store.subscriber_count(), 0);
    assert_eq!(store.token_count(), 0);
    assert_eq!(email_client.sent.len(), 0);
}

#[test]
fn a_generated_token_is_stored_and_linked() {
    let mut store = SubscriptionStore::new();
    let mut email_client = EmailClient::new();
    let form = FormData {
        email: "ursula_le_guin@gmail.com".to_string(),
        name: "le guin".to_string(),
    };
    let outcome = subscribe(&mut store, &mut email_client, "https://there.com", form, 3);
    assert_eq!(outcome, SubscribeOutcome::Accepted);
    let token = &store.token_at(0).subscription_token;
    assert_eq!(token.chars().count(), 25);
    assert!(token.chars().all(|c| c.is_ascii_alphanumeric()));
}
