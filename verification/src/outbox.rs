//! The outbox writer: inside the transaction of a command it records the
//! issue and one delivery task for each subscriber who is confirmed at that
//! moment. Nothing of it is visible before the transaction commits.

use crate::domain::{invalid_email_message, is_valid_email, ConfirmedSubscriber, SubscriberEmail};
use crate::gateway::Transaction;
use crate::history::{step, Op};
use crate::invariants::{lemma_stage_issue_wf, lemma_stage_tasks_wf};
use crate::model::{confirmed_emails, lemma_pending_index, IssueView, StoreView};
use crate::store::{texts, Issue, Store, StoreError};
use vstd::prelude::*;
use vstd::string::*;

verus! {

/// The bits that every version 4 UUID has in common: version 4, variant 1.
pub open spec fn is_random_uuid(id: u128) -> bool {
    id & 0x0000_0000_0000_f000_c000_0000_0000_0000 == 0x0000_0000_0000_4000_8000_0000_0000_0000
}

/// Calls `uuid::Uuid::new_v4` and gives the identifier as a number, most
/// significant byte first. The value is random; all that is claimed of it is
/// that it carries the version and variant bits of a version 4 UUID.
#[verifier::external_body]
pub(crate) fn random_uuid() -> (id: u128)
    ensures
        is_random_uuid(id),
{
    uuid::Uuid::new_v4().as_u128()
}

/// Why an issue cannot be inserted, or `None` where it can.
pub open spec fn insert_refusal(s: StoreView, user_id: u128, key: Seq<char>, id: u128) -> Option<
    StoreError,
> {
    if !s.has_pending(user_id, key) {
        Some(StoreError::NoSuchTransaction)
    } else if s.pending_of(user_id, key).issue is Some {
        Some(StoreError::IssueAlreadyInserted)
    } else if s.has_issue(id) {
        Some(StoreError::DuplicateIssue)
    } else {
        None
    }
}

/// Why the tasks of an issue cannot be enqueued, or `None` where they can.
pub open spec fn enqueue_refusal(
    s: StoreView,
    user_id: u128,
    key: Seq<char>,
    issue_id: u128,
) -> Option<StoreError> {
    if !s.has_pending(user_id, key) {
        Some(StoreError::NoSuchTransaction)
    } else if !(s.pending_of(user_id, key).issue matches Some(issue) && issue.id == issue_id) {
        Some(StoreError::UnknownIssue)
    } else if s.pending_of(user_id, key).recipients is Some {
        Some(StoreError::TasksAlreadyEnqueued)
    } else {
        None
    }
}

/// The snapshot of eligible recipients: the stored contacts of the
/// subscribers who are confirmed, in table order, as they are.
pub fn eligible_recipients(store: &Store) -> (recipients: Vec<String>)
    ensures
        texts(recipients@) == confirmed_emails(store@.subscribers),
{
    let mut recipients: Vec<String> = Vec::new();
    let mut i: usize = 0;
    assert(store@.subscribers.take(0) =~= Seq::empty());
    while i < store.subscribers.len()
        invariant
            i <= store.subscribers.len(),
            texts(recipients@) == confirmed_emails(store@.subscribers.take(i as int)),
        decreases store.subscribers.len() - i,
    {
        let ghost before = recipients@;
        assert(store@.subscribers.take(i + 1).drop_last() =~= store@.subscribers.take(i as int));
        assert(store@.subscribers.take(i + 1).last() == store.subscribers@[i as int]@);
        if store.subscribers[i].confirmed {
            recipients.push(store.subscribers[i].email.clone());
            assert(texts(recipients@) =~= texts(before) + seq![
                store.subscribers@[i as int].email@,
            ]);
        }
        i += 1;
    }
    assert(store@.subscribers.take(i as int) =~= store@.subscribers);
    recipients
}

/// What becomes of a stored contact when it is read as an address: the
/// address, or the sentence that says it is none.
pub open spec fn contact_matches(contact: Seq<char>, read: Result<ConfirmedSubscriber, String>) -> bool {
    match read {
        Ok(subscriber) => is_valid_email(contact) && subscriber.email@ == contact,
        Err(message) => !is_valid_email(contact) && message@ == invalid_email_message(contact),
    }
}

/// The confirmed subscribers, in table order, each with the stored contact
/// read as an address, or with the reason why it is none.
pub fn get_confirmed_subscribers(store: &Store) -> (subscribers: Vec<
    Result<ConfirmedSubscriber, String>,
>)
    ensures
        subscribers@.len() == confirmed_emails(store@.subscribers).len(),
        forall|i: int|
            0 <= i < subscribers@.len() ==> contact_matches(
                confirmed_emails(store@.subscribers)[i],
                #[trigger] subscribers@[i],
            ),
{
    let contacts = eligible_recipients(store);
    let mut subscribers: Vec<Result<ConfirmedSubscriber, String>> = Vec::new();
    let mut i: usize = 0;
    while i < contacts.len()
        invariant
            i <= contacts.len(),
            subscribers@.len() == i,
            texts(contacts@) == confirmed_emails(store@.subscribers),
            forall|j: int|
                0 <= j < i ==> contact_matches(contacts@[j]@, #[trigger] subscribers@[j]),
        decreases contacts.len() - i,
    {
        match SubscriberEmail::parse(contacts[i].clone()) {
            Ok(email) => subscribers.push(Ok(ConfirmedSubscriber { email })),
            Err(message) => subscribers.push(Err(message)),
        }
        i += 1;
    }
    assert forall|j: int| 0 <= j < subscribers@.len() implies contact_matches(
        confirmed_emails(store@.subscribers)[j],
        #[trigger] subscribers@[j],
    ) by {
        assert(texts(contacts@)[j] == contacts@[j]@);
    }
    subscribers
}

/// Inserts the issue with identifier `id` in the transaction.
///
/// Refused, with nothing changed, where the transaction is not open, has
/// inserted an issue before, or `id` is the identifier of a published issue.
pub fn insert_newsletter_issue_with_id(
    store: &mut Store,
    transaction: &Transaction,
    id: u128,
    title: &str,
    text_content: &str,
    html_content: &str,
    published_at: i64,
) -> (inserted: Result<u128, StoreError>)
    requires
        old(store)@.wf(),
    ensures
        final(store)@.wf(),
        final(store)@ == step(
            old(store)@,
            Op::InsertIssue {
                user_id: transaction.user(),
                key: transaction.key_text(),
                issue: IssueView {
                    id,
                    title: title@,
                    text_content: text_content@,
                    html_content: html_content@,
                    published_at,
                },
            },
        ),
        match inserted {
            Ok(issue_id) => {
                &&& issue_id == id
                &&& insert_refusal(old(store)@, transaction.user(), transaction.key_text(), id)
                    is None
                &&& final(store)@ == old(store)@.stage_issue(
                    transaction.user(),
                    transaction.key_text(),
                    IssueView {
                        id,
                        title: title@,
                        text_content: text_content@,
                        html_content: html_content@,
                        published_at,
                    },
                )
            },
            Err(e) => {
                &&& insert_refusal(old(store)@, transaction.user(), transaction.key_text(), id)
                    == Some(e)
                &&& final(store)@ == old(store)@
            },
        },
{
    let ghost before = store@;
    let ghost user = transaction.user_id;
    let ghost key = transaction.key@;
    let i = match store.find_pending(transaction.user_id, &transaction.key) {
        Some(i) => i,
        None => {
            return Err(StoreError::NoSuchTransaction);
        },
    };
    proof {
        lemma_pending_index(before, i as int, user, key);
    }
    if store.pending[i].issue.is_some() {
        return Err(StoreError::IssueAlreadyInserted);
    }
    if store.find_issue(id).is_some() {
        return Err(StoreError::DuplicateIssue);
    }
    let issue = Issue {
        id,
        title: String::from_str(title),
        text_content: String::from_str(text_content),
        html_content: String::from_str(html_content),
        published_at,
    };
    proof {
        lemma_stage_issue_wf(before, user, key, issue@);
    }
    let mut command = store.pending.remove(i);
    command.issue = Some(issue);
    store.pending.insert(i, command);
    proof {
        assert(store@.pending =~= before.stage_issue(user, key, issue@).pending);
    }
    Ok(id)
}

/// Inserts the issue in the transaction under a fresh random identifier and
/// returns the identifier.
///
/// Which identifier is drawn is not for this function to say: the outcome is
/// that of `insert_newsletter_issue_with_id` for the identifier drawn.
pub fn insert_newsletter_issue(
    store: &mut Store,
    transaction: &Transaction,
    title: &str,
    text_content: &str,
    html_content: &str,
    published_at: i64,
) -> (inserted: Result<u128, StoreError>)
    requires
        old(store)@.wf(),
    ensures
        final(store)@.wf(),
        match inserted {
            Ok(id) => {
                &&& is_random_uuid(id)
                &&& insert_refusal(old(store)@, transaction.user(), transaction.key_text(), id)
                    is None
                &&& final(store)@ == old(store)@.stage_issue(
                    transaction.user(),
                    transaction.key_text(),
                    IssueView {
                        id,
                        title: title@,
                        text_content: text_content@,
                        html_content: html_content@,
                        published_at,
                    },
                )
            },
            Err(e) => {
                &&& exists|id: u128|
                    is_random_uuid(id) && #[trigger] insert_refusal(
                        old(store)@,
                        transaction.user(),
                        transaction.key_text(),
                        id,
                    ) == Some(e)
                &&& final(store)@ == old(store)@
            },
        },
{
    let id = random_uuid();
    insert_newsletter_issue_with_id(
        store,
        transaction,
        id,
        title,
        text_content,
        html_content,
        published_at,
    )
}

/// Takes the snapshot of the confirmed subscribers and enqueues, in the
/// transaction, one delivery task for each of them.
///
/// Refused, with nothing changed, where the transaction is not open, has not
/// inserted the issue `issue_id`, or has enqueued its tasks before.
pub fn enqueue_delivery_tasks(store: &mut Store, transaction: &Transaction, issue_id: u128) -> (done:
    Result<(), StoreError>)
    requires
        old(store)@.wf(),
    ensures
        final(store)@.wf(),
        final(store)@ == step(
            old(store)@,
            Op::EnqueueTasks {
                user_id: transaction.user(),
                key: transaction.key_text(),
                issue_id,
            },
        ),
        match done {
            Ok(()) => {
                &&& enqueue_refusal(
                    old(store)@,
                    transaction.user(),
                    transaction.key_text(),
                    issue_id,
                ) is None
                &&& final(store)@ == old(store)@.stage_tasks(
                    transaction.user(),
                    transaction.key_text(),
                )
            },
            Err(e) => {
                &&& enqueue_refusal(
                    old(store)@,
                    transaction.user(),
                    transaction.key_text(),
                    issue_id,
                ) == Some(e)
                &&& final(store)@ == old(store)@
            },
        },
{
    let ghost before = store@;
    let ghost user = transaction.user_id;
    let ghost key = transaction.key@;
    let i = match store.find_pending(transaction.user_id, &transaction.key) {
        Some(i) => i,
        None => {
            return Err(StoreError::NoSuchTransaction);
        },
    };
    proof {
        lemma_pending_index(before, i as int, user, key);
    }
    let known: bool = match &store.pending[i].issue {
        Some(issue) => issue.id == issue_id,
        None => false,
    };
    if !known {
        return Err(StoreError::UnknownIssue);
    }
    if store.pending[i].recipients.is_some() {
        return Err(StoreError::TasksAlreadyEnqueued);
    }
    let recipients = eligible_recipients(store);
    proof {
        lemma_stage_tasks_wf(before, user, key);
    }
    let mut command = store.pending.remove(i);
    command.recipients = Some(recipients);
    store.pending.insert(i, command);
    proof {
        assert(store@.pending =~= before.stage_tasks(user, key).pending);
    }
    Ok(())
}

} // verus!
