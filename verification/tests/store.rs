use zero2prod::SubscriptionStatus;
use zero2prod::domain::NewSubscriber;
use zero2prod::routes::subscriptions::FormData;
use zero2prod::store::{StorageError, SubscriptionStore};

fn a_subscriber(email: &str, name: &str) -> NewSubscriber {
    NewSubscriber::try_from(FormData { email: email.to_string(), name: name.to_string() })
        .unwrap()
}

#[test]
fn a_successful_save_stores_the_pair() {
    let mut store = SubscriptionStore::new();
    let ns = a_subscriber("ursula_le_guin@gmail.com", "le guin");
    let id = store.save(&ns, 7, 1700000000, "aaaaaaaaaaaaaaaaaaaaaaaaa").unwrap();
    assert_eq!(id, 7);
    assert_eq!(store.subscriber_count(), 1);
    assert_eq!(store.token_count(), 1);
    let row = store.subscriber_at(0);
    assert_eq!(row.id, 7);
    assert_eq!(row.email, "ursula_le_guin@gmail.com");
    assert_eq!(row.name, "le guin");
    assert_eq!(row.subscribed_at, 1700000000);
    assert_eq!(row.status, SubscriptionStatus::PendingConfirmation);
    let token = store.token_at(0);
    assert_eq!(token.subscription_token, "aaaaaaaaaaaaaaaaaaaaaaaaa");
    assert_eq!(token.subscriber_id, 7);
}

#[test]
fn a_token_collision_rolls_the_whole_transaction_back() {
    let mut store = SubscriptionStore::new();
    let first = a_subscriber("first@example.com", "First");
    store.save(&first, 1, 0, "sharedsharedsharedshared!").unwrap();
    let second = a_subscriber("second@example.com", "Second");
    let err = store.save(&second, 2, 0, "sharedsharedsharedshared!").unwrap_err();
    assert_eq!(err, StorageError::TokenInUse);
    // Nothing of the failed attempt is visible: no half-inserted subscriber.
    assert_eq!(store.subscriber_count(), 1);
    assert_eq!(store.token_count(), 1);
    assert_eq!(store.subscriber_at(0).email, "first@example.com");
}

#[test]
fn an_id_collision_is_a_storage_failure() {
    let mut store = SubscriptionStore::new();
    let first = a_subscriber("first@example.com", "First");
    store.save(&first, 9, 0, "tokentokentokentokentoken").unwrap();
    let second = a_subscriber("second@example.com", "Second");
    let err = store.save(&second, 9, 0, "othertokenothertokenother").unwrap_err();
    assert_eq!(err, StorageError::IdInUse);
    assert_eq!(store.subscriber_count(), 1);
    assert_eq!(store.token_count(), 1);
}
