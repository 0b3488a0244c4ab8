use zero2prod::dispatcher::{
    complete_delivery, dequeue_task, plan_delivery, DeliveryOutcome, DeliveryStep, LogLevel,
};
use zero2prod::gateway::{
    decide_after_insert, rollback, save_response, try_processing, InsertDecision, NextAction,
};
use zero2prod::key::{IdempotencyKey, KeyError};
use zero2prod::outbox::{
    eligible_recipients, enqueue_delivery_tasks, get_confirmed_subscribers,
    insert_newsletter_issue_with_id,
};
use zero2prod::publish::{publish_newsletter, publish_newsletter_with_id, FormData, PublishOutcome};
use zero2prod::response::Response;
use zero2prod::store::{Store, StoreError};

fn key(text: &str) -> IdempotencyKey {
    IdempotencyKey::parse(text.to_string()).unwrap()
}

fn form(key: &str) -> FormData {
    FormData {
        title: "Newsletter title".to_string(),
        html_content: "<p>Newsletter body as HTML</p>".to_string(),
        text_content: "Newsletter body as plain text".to_string(),
        idempotency_key: key.to_string(),
    }
}

fn store_with_subscribers(confirmed: &[&str], unconfirmed: &[&str]) -> Store {
    let mut store = Store::new();
    let mut id: u128 = 1;
    for email in confirmed {
        store.insert_subscriber_row(id, email.to_string(), "le guin".to_string()).unwrap();
        store.confirm_subscriber(id).unwrap();
        id += 1;
    }
    for email in unconfirmed {
        store.insert_subscriber_row(id, email.to_string(), "le guin".to_string()).unwrap();
        id += 1;
    }
    store
}

#[test]
fn a_new_command_is_started_and_holds_the_key() {
    let mut store = Store::new();
    let k = key("9f3a");
    let transaction = match try_processing(&mut store, &k, 7, 100) {
        NextAction::StartProcessing(t) => t,
        other => panic!("expected a start, got {:?}", other),
    };
    assert_eq!(transaction.user_id(), 7);
    assert_eq!(transaction.idempotency_key(), "9f3a");
    assert_eq!(store.pending_count(), 1);
    assert!(matches!(try_processing(&mut store, &k, 7, 101), NextAction::Wait));
    assert_eq!(store.pending_count(), 1);
}

#[test]
fn the_same_key_of_another_user_is_another_command() {
    let mut store = Store::new();
    let k = key("9f3a");
    assert!(matches!(try_processing(&mut store, &k, 7, 100), NextAction::StartProcessing(_)));
    assert!(matches!(try_processing(&mut store, &k, 8, 100), NextAction::StartProcessing(_)));
    assert_eq!(store.pending_count(), 2);
}

#[test]
fn a_saved_response_is_replayed_verbatim() {
    let mut store = Store::new();
    let k = key("9f3a");
    let transaction = match try_processing(&mut store, &k, 7, 100) {
        NextAction::StartProcessing(t) => t,
        other => panic!("expected a start, got {:?}", other),
    };
    let mut response = Response::see_other("/admin/newsletters");
    response.body = vec![1, 2, 3];
    let answer = save_response(&mut store, transaction, response).unwrap();
    assert_eq!(answer.status_code, 303);
    assert_eq!(answer.body, vec![1, 2, 3]);
    assert_eq!(store.saved_count(), 1);
    assert_eq!(store.pending_count(), 0);
    match try_processing(&mut store, &k, 7, 200) {
        NextAction::ReturnSavedResponse(replayed) => {
            assert_eq!(replayed, answer);
            assert!(replayed.same_as(&answer));
            assert_eq!(replayed.headers.len(), 1);
            assert_eq!(replayed.headers[0].name, "Location");
            assert_eq!(replayed.headers[0].value, b"/admin/newsletters".to_vec());
        }
        other => panic!("expected a replay, got {:?}", other),
    }
    let row = store.get_cached_response(7, &k).unwrap();
    assert_eq!(row.user_id, 7);
    assert_eq!(row.idempotency_key, "9f3a");
    assert_eq!(row.created_at, 100);
    assert_eq!(row.response, answer);
    assert!(store.get_cached_response(8, &k).is_none());
    assert_eq!(store.get_saved_response(7, &k), Some(answer));
    assert_eq!(store.get_saved_response(8, &k), None);
}

#[test]
fn a_rolled_back_command_can_be_started_again() {
    let mut store = store_with_subscribers(&["a@example.com"], &[]);
    let k = key("retry-me");
    let transaction = match try_processing(&mut store, &k, 7, 100) {
        NextAction::StartProcessing(t) => t,
        other => panic!("expected a start, got {:?}", other),
    };
    let id = insert_newsletter_issue_with_id(&mut store, &transaction, 42, "t", "x", "h", 100);
    assert_eq!(id, Ok(42));
    assert_eq!(store.issue_count(), 0);
    assert_eq!(store.queue_len(), 0);
    assert_eq!(rollback(&mut store, transaction), Ok(()));
    assert_eq!(store.issue_count(), 0);
    assert_eq!(store.queue_len(), 0);
    assert_eq!(store.saved_count(), 0);
    assert_eq!(store.pending_count(), 0);
    assert!(matches!(try_processing(&mut store, &k, 7, 101), NextAction::StartProcessing(_)));
}

#[test]
fn the_outbox_is_invisible_until_the_commit() {
    let mut store = store_with_subscribers(&["a@example.com", "b@example.com"], &["c@example.com"]);
    let k = key("outbox");
    let transaction = match try_processing(&mut store, &k, 7, 100) {
        NextAction::StartProcessing(t) => t,
        other => panic!("expected a start, got {:?}", other),
    };
    assert_eq!(
        enqueue_delivery_tasks(&mut store, &transaction, 42),
        Err(StoreError::UnknownIssue)
    );
    assert_eq!(insert_newsletter_issue_with_id(&mut store, &transaction, 42, "t", "x", "h", 100), Ok(42));
    assert_eq!(
        insert_newsletter_issue_with_id(&mut store, &transaction, 43, "t", "x", "h", 100),
        Err(StoreError::IssueAlreadyInserted)
    );
    assert_eq!(enqueue_delivery_tasks(&mut store, &transaction, 41), Err(StoreError::UnknownIssue));
    assert_eq!(enqueue_delivery_tasks(&mut store, &transaction, 42), Ok(()));
    assert_eq!(
        enqueue_delivery_tasks(&mut store, &transaction, 42),
        Err(StoreError::TasksAlreadyEnqueued)
    );
    assert_eq!(store.issue_count(), 0);
    assert_eq!(store.queue_len(), 0);
    assert!(dequeue_task(&mut store).is_none());
    save_response(&mut store, transaction, Response::see_other("/admin/newsletters")).unwrap();
    assert_eq!(store.issue_count(), 1);
    assert_eq!(store.queue_len(), 2);
    assert!(store.is_queued(42, &"a@example.com".to_string()));
    assert!(store.is_queued(42, &"b@example.com".to_string()));
    assert!(!store.is_queued(42, &"c@example.com".to_string()));
    let issue = store.get_issue(42).unwrap();
    assert_eq!(issue.title, "t");
    assert_eq!(issue.text_content, "x");
    assert_eq!(issue.html_content, "h");
    assert_eq!(issue.published_at, 100);
}

#[test]
fn an_identifier_in_use_is_refused() {
    let mut store = Store::new();
    assert!(matches!(
        publish_newsletter_with_id(&mut store, 7, &form("first"), 42, 100),
        PublishOutcome::Accepted(_)
    ));
    match publish_newsletter_with_id(&mut store, 7, &form("second"), 42, 101) {
        PublishOutcome::Failed(error) => assert_eq!(error, StoreError::DuplicateIssue),
        other => panic!("expected a failure, got {:?}", other),
    }
    assert_eq!(store.issue_count(), 1);
    assert_eq!(store.saved_count(), 1);
    assert_eq!(store.pending_count(), 0);
    assert!(matches!(
        publish_newsletter_with_id(&mut store, 7, &form("second"), 43, 102),
        PublishOutcome::Accepted(_)
    ));
    assert_eq!(store.issue_count(), 2);
}

#[test]
fn a_commit_that_finds_its_identifier_taken_rolls_back() {
    let mut store = Store::new();
    let slow = match try_processing(&mut store, &key("slow"), 7, 100) {
        NextAction::StartProcessing(t) => t,
        other => panic!("expected a start, got {:?}", other),
    };
    assert_eq!(insert_newsletter_issue_with_id(&mut store, &slow, 42, "t", "x", "h", 100), Ok(42));
    assert!(matches!(
        publish_newsletter_with_id(&mut store, 8, &form("fast"), 42, 101),
        PublishOutcome::Accepted(_)
    ));
    assert_eq!(
        save_response(&mut store, slow, Response::see_other("/admin/newsletters")),
        Err(StoreError::DuplicateIssue)
    );
    assert_eq!(store.pending_count(), 0);
    assert_eq!(store.saved_count(), 1);
    assert_eq!(store.issue_count(), 1);
    assert!(matches!(
        try_processing(&mut store, &key("slow"), 7, 102),
        NextAction::StartProcessing(_)
    ));
}

#[test]
fn a_malformed_key_is_rejected_and_nothing_is_touched() {
    let mut store = store_with_subscribers(&["a@example.com"], &[]);
    match publish_newsletter_with_id(&mut store, 7, &form(""), 42, 100) {
        PublishOutcome::Rejected(reason) => assert_eq!(reason, KeyError::Empty),
        other => panic!("expected a rejection, got {:?}", other),
    }
    assert_eq!(store.pending_count(), 0);
    assert_eq!(store.saved_count(), 0);
    assert_eq!(store.issue_count(), 0);
    assert_eq!(store.queue_len(), 0);
}

#[test]
fn newsletter_creation_is_idempotent_in_memory() {
    let mut store = store_with_subscribers(
        &["a@example.com", "b@example.com", "not an address"],
        &["pending@example.com"],
    );
    let first = match publish_newsletter_with_id(&mut store, 7, &form("9f3a"), 42, 100) {
        PublishOutcome::Accepted(response) => response,
        other => panic!("expected an acceptance, got {:?}", other),
    };
    assert_eq!(first.status_code, 303);
    assert_eq!(store.issue_count(), 1);
    assert_eq!(store.queue_len(), 3);

    let mut changed = form("9f3a");
    changed.title = "another title".to_string();
    let second = match publish_newsletter_with_id(&mut store, 7, &changed, 43, 200) {
        PublishOutcome::Replayed(response) => response,
        other => panic!("expected a replay, got {:?}", other),
    };
    assert_eq!(second, first);
    assert_eq!(store.issue_count(), 1);
    assert_eq!(store.queue_len(), 3);
    assert_eq!(store.saved_count(), 1);

    let mut sent: Vec<String> = Vec::new();
    let mut warnings = 0;
    while let Some(task) = dequeue_task(&mut store) {
        assert_eq!(task.issue_id(), 42);
        match plan_delivery(&store, &task).unwrap() {
            DeliveryStep::Send { recipient, subject, html_body, text_body } => {
                assert_eq!(subject, "Newsletter title");
                assert_eq!(html_body, "<p>Newsletter body as HTML</p>");
                assert_eq!(text_body, "Newsletter body as plain text");
                sent.push(recipient);
                let log = complete_delivery(&mut store, task, DeliveryOutcome::Delivered).unwrap();
                assert!(log.is_none());
            }
            DeliveryStep::Discard => {
                let log = complete_delivery(&mut store, task, DeliveryOutcome::InvalidRecipient)
                    .unwrap()
                    .unwrap();
                assert_eq!(log.level, LogLevel::Warning);
                assert_eq!(log.issue_id, 42);
                assert_eq!(log.recipient, "not an address");
                assert_eq!(log.outcome, DeliveryOutcome::InvalidRecipient);
                warnings += 1;
            }
        }
    }
    assert_eq!(sent, vec!["a@example.com".to_string(), "b@example.com".to_string()]);
    assert_eq!(warnings, 1);
    assert_eq!(store.queue_len(), 0);
}

#[test]
fn a_random_identifier_is_a_version_four_uuid() {
    let mut store = store_with_subscribers(&["a@example.com"], &[]);
    assert!(matches!(
        publish_newsletter(&mut store, 7, &form("random"), 100),
        PublishOutcome::Accepted(_)
    ));
    let task = dequeue_task(&mut store).unwrap();
    let id = task.issue_id();
    assert_eq!((id >> 76) & 0xf, 4);
    assert_eq!((id >> 62) & 0x3, 2);
    assert!(store.get_issue(id).is_some());
}

#[test]
fn the_snapshot_holds_the_confirmed_subscribers_in_order() {
    let store = store_with_subscribers(&["a@example.com", "b@example.com"], &["c@example.com"]);
    assert_eq!(
        eligible_recipients(&store),
        vec!["a@example.com".to_string(), "b@example.com".to_string()]
    );
    let emails: Vec<String> = get_confirmed_subscribers(&store)
        .into_iter()
        .map(|s| s.unwrap().email.as_ref().to_string())
        .collect();
    assert_eq!(emails, vec!["a@example.com".to_string(), "b@example.com".to_string()]);
}

#[test]
fn the_insert_of_the_placeholder_decides_what_follows() {
    let saved = Response::see_other("/admin/newsletters");
    assert_eq!(decide_after_insert(1, None), InsertDecision::StartProcessing);
    assert_eq!(
        decide_after_insert(0, Some(saved.duplicate())),
        InsertDecision::ReturnSavedResponse(saved)
    );
    assert_eq!(decide_after_insert(0, None), InsertDecision::Retry);
}

#[test]
fn a_transaction_that_is_not_open_changes_nothing() {
    let mut store = Store::new();
    let mut other = Store::new();
    let k = key("elsewhere");
    let foreign = match try_processing(&mut other, &k, 7, 100) {
        NextAction::StartProcessing(t) => t,
        other => panic!("expected a start, got {:?}", other),
    };
    assert_eq!(
        insert_newsletter_issue_with_id(&mut store, &foreign, 42, "t", "x", "h", 100),
        Err(StoreError::NoSuchTransaction)
    );
    assert_eq!(
        enqueue_delivery_tasks(&mut store, &foreign, 42),
        Err(StoreError::NoSuchTransaction)
    );
    let foreign = match save_response(&mut store, foreign, Response::see_other("/"))  {
        Err(error) => {
            assert_eq!(error, StoreError::NoSuchTransaction);
            match try_processing(&mut store, &k, 7, 100) {
                NextAction::StartProcessing(t) => t,
                other => panic!("expected a start, got {:?}", other),
            }
        }
        Ok(_) => panic!("a transaction of another store was committed"),
    };
    assert_eq!(rollback(&mut other, foreign), Ok(()));
    assert_eq!(other.pending_count(), 0);
    assert_eq!(store.pending_count(), 1);
    assert_eq!(store.saved_count(), 0);
}
