//! The command gateway: it decides, for a command that arrives with an
//! idempotency key, whether to run it, to wait for the submission that is
//! running it, or to replay the response that was saved for it.
//!
//! The placeholder row of a command is the lock: whoever inserted it owns the
//! transaction, and the row turns into the saved response, or disappears, in
//! one step with everything else the transaction wrote.

use crate::history::{step, Op};
use crate::invariants::{lemma_begin_wf, lemma_commit_wf, lemma_rollback_wf};
use crate::key::IdempotencyKey;
use crate::model::{lemma_pending_index, lemma_saved_index, tasks_for, StoreView};
use crate::response::Response;
use crate::store::{texts, CachedResponse, PendingCommand, QueueRow, Store, StoreError};
use vstd::prelude::*;
use vstd::string::*;

verus! {

/// The open transaction of a command. It is handed out when the command is
/// started and given back when the response is saved or the work abandoned.
#[derive(Debug)]
pub struct Transaction {
    pub(crate) user_id: u128,
    pub(crate) key: String,
}

impl Transaction {
    /// The user whose command this is.
    pub open(crate) spec fn user(&self) -> u128 {
        self.user_id
    }

    /// The text of the command's idempotency key.
    pub open(crate) spec fn key_text(&self) -> Seq<char> {
        self.key@
    }

    /// The user whose command this is.
    pub fn user_id(&self) -> (id: u128)
        ensures
            id == self.user(),
    {
        self.user_id
    }

    /// The command's idempotency key.
    pub fn idempotency_key(&self) -> (key: &str)
        ensures
            key@ == self.key_text(),
    {
        self.key.as_str()
    }
}

/// What the submitter of a command has to do next.
#[derive(Debug)]
pub enum NextAction {
    /// The command is new: run it in this transaction, then save the response.
    StartProcessing(Transaction),
    /// The command is complete: answer with this, and do nothing else.
    ReturnSavedResponse(Response),
    /// Another submission of the command is running: wait until it has ended
    /// one way or the other, then ask again.
    Wait,
}

/// What a submitter does once the insert of the placeholder row has
/// returned, in a store where that insert waits for a transaction that
/// holds the row.
#[derive(Debug, PartialEq, Eq)]
pub enum InsertDecision {
    /// The row was inserted: the command is this submitter's to run.
    StartProcessing,
    /// The row was there and the command is complete: answer with this.
    ReturnSavedResponse(Response),
    /// The row was there when the insert was tried and is gone now: the
    /// transaction that held it was rolled back. Try the insert again.
    Retry,
}

/// The decision after an insert that affected `n_inserted_rows` rows, with
/// `saved` being what is saved for the command where no row was inserted.
pub open spec fn insert_decision_matches(
    n_inserted_rows: u64,
    saved: Option<Response>,
    decision: InsertDecision,
) -> bool {
    match decision {
        InsertDecision::StartProcessing => n_inserted_rows > 0,
        InsertDecision::ReturnSavedResponse(response) => {
            &&& n_inserted_rows == 0
            &&& saved matches Some(found)
            &&& response@ == found@
        },
        InsertDecision::Retry => n_inserted_rows == 0 && saved is None,
    }
}

/// Decides what to do once the insert of the placeholder row has returned.
pub fn decide_after_insert(n_inserted_rows: u64, saved: Option<Response>) -> (decision:
    InsertDecision)
    ensures
        insert_decision_matches(n_inserted_rows, saved, decision),
{
    if n_inserted_rows > 0 {
        InsertDecision::StartProcessing
    } else {
        match saved {
            Some(response) => InsertDecision::ReturnSavedResponse(response),
            None => InsertDecision::Retry,
        }
    }
}

/// Why a transaction cannot be committed, or `None` where it can.
pub open spec fn commit_refusal(s: StoreView, user_id: u128, key: Seq<char>) -> Option<StoreError> {
    if !s.has_pending(user_id, key) {
        Some(StoreError::NoSuchTransaction)
    } else if !s.can_commit(user_id, key) {
        Some(StoreError::DuplicateIssue)
    } else {
        None
    }
}

/// The queue rows for `recipients`, all for issue `issue_id`, unclaimed.
fn make_tasks(issue_id: u128, recipients: &Vec<String>) -> (rows: Vec<QueueRow>)
    ensures
        rows@.map_values(|t: QueueRow| t@) == tasks_for(issue_id, texts(recipients@)),
{
    let mut rows: Vec<QueueRow> = Vec::new();
    let mut i: usize = 0;
    while i < recipients.len()
        invariant
            i <= recipients.len(),
            rows@.len() == i,
            forall|j: int|
                0 <= j < i ==> (#[trigger] rows@[j])@ == tasks_for(issue_id, texts(recipients@))[j],
        decreases recipients.len() - i,
    {
        rows.push(QueueRow { issue_id, recipient: recipients[i].clone(), claimed: false });
        i += 1;
    }
    assert(rows@.map_values(|t: QueueRow| t@) =~= tasks_for(issue_id, texts(recipients@)));
    rows
}

/// Looks at the command `(user_id, key)` and says what to do with it.
///
/// A command with a saved response is answered with that response and the
/// store is left alone. A command that another submission is running makes
/// the caller wait, and the store is left alone. Any other command is
/// started: its placeholder row is inserted, stamped `now`, and the caller
/// gets the transaction.
pub fn try_processing(store: &mut Store, key: &IdempotencyKey, user_id: u128, now: i64) -> (action:
    NextAction)
    requires
        old(store)@.wf(),
    ensures
        final(store)@.wf(),
        final(store)@ == step(old(store)@, Op::TryProcessing { user_id, key: key@, now }),
        match action {
            NextAction::ReturnSavedResponse(response) => {
                &&& old(store)@.phase(user_id, key@) is Complete
                &&& response@ == old(store)@.saved_response(user_id, key@)
                &&& final(store)@ == old(store)@
            },
            NextAction::Wait => {
                &&& old(store)@.phase(user_id, key@) is InProgress
                &&& final(store)@ == old(store)@
            },
            NextAction::StartProcessing(transaction) => {
                &&& old(store)@.phase(user_id, key@) is NoRecord
                &&& final(store)@ == old(store)@.begin(user_id, key@, now)
                &&& final(store)@.phase(user_id, key@) is InProgress
                &&& transaction.user() == user_id
                &&& transaction.key_text() == key@
            },
        },
{
    let text = key.as_string();
    match store.find_saved(user_id, text) {
        Some(i) => {
            proof {
                lemma_saved_index(store@, i as int, user_id, key@);
            }
            return NextAction::ReturnSavedResponse(store.saved[i].response.duplicate());
        },
        None => {},
    }
    if store.find_pending(user_id, text).is_some() {
        return NextAction::Wait;
    }
    proof {
        lemma_begin_wf(store@, user_id, key@, now);
    }
    let ghost before = store@;
    store.pending.push(
        PendingCommand { user_id, key: text.clone(), created_at: now, issue: None, recipients: None },
    );
    proof {
        assert(store@.pending =~= before.begin(user_id, key@, now).pending);
    }
    NextAction::StartProcessing(Transaction { user_id, key: text.clone() })
}

/// Saves `response` as the answer to the transaction's command and commits.
///
/// On success the response, the issue that the transaction inserted and the
/// tasks it enqueued all become visible in this one step, the command is
/// complete, and the response is handed back for the submitter. Where the
/// issue's identifier has been taken in the meantime the transaction is
/// rolled back instead and nothing of it remains. A transaction that is not
/// open in this store changes nothing.
pub fn save_response(store: &mut Store, transaction: Transaction, response: Response) -> (saved:
    Result<Response, StoreError>)
    requires
        old(store)@.wf(),
    ensures
        final(store)@.wf(),
        final(store)@ == step(
            old(store)@,
            Op::SaveResponse {
                user_id: transaction.user(),
                key: transaction.key_text(),
                response: response@,
            },
        ),
        match saved {
            Ok(answer) => {
                &&& commit_refusal(old(store)@, transaction.user(), transaction.key_text()) is None
                &&& final(store)@ == old(store)@.commit(
                    transaction.user(),
                    transaction.key_text(),
                    response@,
                )
                &&& final(store)@.phase(transaction.user(), transaction.key_text()) is Complete
                &&& final(store)@.saved_response(transaction.user(), transaction.key_text())
                    == response@
                &&& answer@ == response@
            },
            Err(e) => {
                &&& commit_refusal(old(store)@, transaction.user(), transaction.key_text())
                    == Some(e)
                &&& final(store)@ == if e == StoreError::NoSuchTransaction {
                    old(store)@
                } else {
                    old(store)@.rollback(transaction.user(), transaction.key_text())
                }
                &&& e != StoreError::NoSuchTransaction ==> final(store)@.phase(
                    transaction.user(),
                    transaction.key_text(),
                ) is NoRecord
            },
        },
{
    let ghost before = store@;
    let ghost user = transaction.user_id;
    let ghost key = transaction.key@;
    let i = match store.find_pending(transaction.user_id, &transaction.key) {
        Some(i) => i,
        None => {
            return Err(StoreError::NoSuchTransaction);
        },
    };
    proof {
        lemma_pending_index(before, i as int, user, key);
    }
    let taken: bool = match &store.pending[i].issue {
        Some(issue) => store.find_issue(issue.id).is_some(),
        None => false,
    };
    let command = store.pending.remove(i);
    assert(command@ == before.pending[i as int]);
    if taken {
        proof {
            lemma_rollback_wf(before, user, key);
            assert(store@.pending =~= before.rollback(user, key).pending);
        }
        return Err(StoreError::DuplicateIssue);
    }
    proof {
        lemma_commit_wf(before, user, key, response@);
    }
    let PendingCommand { user_id, key: key_text, created_at, issue, recipients } = command;
    store.saved.push(
        CachedResponse {
            user_id,
            idempotency_key: key_text,
            response: response.duplicate(),
            created_at,
        },
    );
    match issue {
        Some(issue) => {
            let issue_id = issue.id;
            store.issues.push(issue);
            match recipients {
                Some(recipients) => {
                    let mut rows = make_tasks(issue_id, &recipients);
                    store.queue.append(&mut rows);
                },
                None => {},
            }
        },
        None => {},
    }
    proof {
        let after = before.commit(user, key, response@);
        assert(store@.saved =~= after.saved);
        assert(store@.pending =~= after.pending);
        assert(store@.issues =~= after.issues);
        assert(store@.queue =~= after.queue);
    }
    Ok(response)
}

/// Abandons the transaction: its placeholder row and everything it wrote are
/// gone, and the command can be submitted afresh. A transaction that is not
/// open in this store changes nothing.
pub fn rollback(store: &mut Store, transaction: Transaction) -> (done: Result<(), StoreError>)
    requires
        old(store)@.wf(),
    ensures
        final(store)@.wf(),
        final(store)@ == step(
            old(store)@,
            Op::Rollback { user_id: transaction.user(), key: transaction.key_text() },
        ),
        match done {
            Ok(()) => {
                &&& old(store)@.has_pending(transaction.user(), transaction.key_text())
                &&& final(store)@ == old(store)@.rollback(
                    transaction.user(),
                    transaction.key_text(),
                )
                &&& final(store)@.phase(transaction.user(), transaction.key_text()) is NoRecord
            },
            Err(e) => {
                &&& e == StoreError::NoSuchTransaction
                &&& !old(store)@.has_pending(transaction.user(), transaction.key_text())
                &&& final(store)@ == old(store)@
            },
        },
{
    let ghost before = store@;
    match store.find_pending(transaction.user_id, &transaction.key) {
        None => Err(StoreError::NoSuchTransaction),
        Some(i) => {
            proof {
                lemma_pending_index(before, i as int, transaction.user_id, transaction.key@);
                lemma_rollback_wf(before, transaction.user_id, transaction.key@);
            }
            let _ = store.pending.remove(i);
            proof {
                assert(store@.pending =~= before.rollback(
                    transaction.user_id,
                    transaction.key@,
                ).pending);
            }
            Ok(())
        },
    }
}

} // verus!
