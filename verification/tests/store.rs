use zero2prod::outbox::{eligible_recipients, get_confirmed_subscribers};
use zero2prod::store::{Store, StoreError};

#[test]
fn a_new_store_is_empty() {
    let store = Store::new();
    assert_eq!(store.saved_count(), 0);
    assert_eq!(store.pending_count(), 0);
    assert_eq!(store.issue_count(), 0);
    assert_eq!(store.queue_len(), 0);
    assert!(store.get_issue(1).is_none());
    assert!(get_confirmed_subscribers(&store).is_empty());
}

#[test]
fn an_identifier_or_an_address_is_taken_once() {
    let mut store = Store::new();
    assert_eq!(store.insert_subscriber_row(1, "ursula_le_guin@gmail.com".to_string(), "le guin".to_string()), Ok(()));
    assert_eq!(
        store.insert_subscriber_row(1, "other@gmail.com".to_string(), "le guin".to_string()),
        Err(StoreError::DuplicateSubscriber)
    );
    assert_eq!(
        store.insert_subscriber_row(2, "ursula_le_guin@gmail.com".to_string(), "le guin".to_string()),
        Err(StoreError::DuplicateSubscriber)
    );
    assert_eq!(store.insert_subscriber_row(2, "other@gmail.com".to_string(), "le guin".to_string()), Ok(()));
}

#[test]
fn a_subscriber_counts_only_once_confirmed() {
    let mut store = Store::new();
    store.insert_subscriber_row(1, "ursula_le_guin@gmail.com".to_string(), "le guin".to_string()).unwrap();
    assert!(get_confirmed_subscribers(&store).is_empty());
    assert_eq!(store.confirm_subscriber(2), Err(StoreError::UnknownSubscriber));
    assert_eq!(store.confirm_subscriber(1), Ok(()));
    let confirmed = get_confirmed_subscribers(&store);
    assert_eq!(confirmed.len(), 1);
    assert_eq!(confirmed[0].as_ref().unwrap().email.as_ref(), "ursula_le_guin@gmail.com");
    assert_eq!(eligible_recipients(&store), vec!["ursula_le_guin@gmail.com".to_string()]);
    assert_eq!(store.confirm_subscriber(1), Ok(()));
    assert_eq!(get_confirmed_subscribers(&store).len(), 1);
}

#[test]
fn a_stored_contact_that_is_no_address_is_reported() {
    let mut store = Store::new();
    store.insert_subscriber_row(1, "definitely-not-an-email".to_string(), "le guin".to_string()).unwrap();
    store.insert_subscriber_row(2, "ursula_le_guin@gmail.com".to_string(), "le guin".to_string()).unwrap();
    store.confirm_subscriber(1).unwrap();
    store.confirm_subscriber(2).unwrap();
    let confirmed = get_confirmed_subscribers(&store);
    assert_eq!(confirmed.len(), 2);
    assert_eq!(
        confirmed[0],
        Err("definitely-not-an-email is not a valid subscriber email.".to_string())
    );
    assert_eq!(confirmed[1].as_ref().unwrap().email.as_ref(), "ursula_le_guin@gmail.com");
}
