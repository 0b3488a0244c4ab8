//! Runs of the store: any number of gateways, outbox writers and dispatchers
//! working at once are a sequence of operations, each of which takes effect
//! in one step. What holds of every such sequence holds of every
//! interleaving.

use crate::dispatcher::{settled, DeliveryOutcome};
use crate::gateway::commit_refusal;
use crate::invariants::{
    lemma_begin_wf, lemma_claim_wf, lemma_commit_wf, lemma_confirm_wf, lemma_release_wf,
    lemma_retire_wf, lemma_rollback_wf, lemma_stage_issue_wf, lemma_stage_tasks_wf,
    lemma_subscribe_wf,
};
use crate::model::{IssueView, StoreView};
use crate::outbox::{enqueue_refusal, insert_refusal};
use crate::response::ResponseView;
use crate::store::StoreError;
use vstd::prelude::*;

verus! {

/// One operation on the store, by whoever makes it.
pub enum Op {
    /// A submitter asks the gateway about a command.
    TryProcessing { user_id: u128, key: Seq<char>, now: i64 },
    /// The transaction of a command inserts an issue.
    InsertIssue { user_id: u128, key: Seq<char>, issue: IssueView },
    /// The transaction of a command enqueues the tasks of its issue.
    EnqueueTasks { user_id: u128, key: Seq<char>, issue_id: u128 },
    /// The transaction of a command saves the response and commits.
    SaveResponse { user_id: u128, key: Seq<char>, response: ResponseView },
    /// The transaction of a command is abandoned.
    Rollback { user_id: u128, key: Seq<char> },
    /// A dispatcher claims the next free task.
    Dequeue,
    /// A dispatcher settles the task it holds.
    Settle { issue_id: u128, recipient: Seq<char>, outcome: DeliveryOutcome },
    /// A person subscribes.
    Subscribe { id: u128, email: Seq<char>, name: Seq<char> },
    /// A subscriber confirms.
    Confirm { id: u128 },
}

/// The store after `op`. An operation that is refused leaves the store as it
/// is, but for a commit that finds its issue's identifier taken, which rolls
/// the transaction back.
pub open spec fn step(s: StoreView, op: Op) -> StoreView {
    match op {
        Op::TryProcessing { user_id, key, now } => if s.phase(user_id, key) is NoRecord {
            s.begin(user_id, key, now)
        } else {
            s
        },
        Op::InsertIssue { user_id, key, issue } => if insert_refusal(s, user_id, key, issue.id)
            is None {
            s.stage_issue(user_id, key, issue)
        } else {
            s
        },
        Op::EnqueueTasks { user_id, key, issue_id } => if enqueue_refusal(
            s,
            user_id,
            key,
            issue_id,
        ) is None {
            s.stage_tasks(user_id, key)
        } else {
            s
        },
        Op::SaveResponse { user_id, key, response } => match commit_refusal(s, user_id, key) {
            None => s.commit(user_id, key, response),
            Some(StoreError::NoSuchTransaction) => s,
            Some(_) => s.rollback(user_id, key),
        },
        Op::Rollback { user_id, key } => if s.has_pending(user_id, key) {
            s.rollback(user_id, key)
        } else {
            s
        },
        Op::Dequeue => if s.has_next_task() {
            s.claim_next()
        } else {
            s
        },
        Op::Settle { issue_id, recipient, outcome } => if s.is_claimed(issue_id, recipient) {
            settled(s, issue_id, recipient, outcome)
        } else {
            s
        },
        Op::Subscribe { id, email, name } => if !s.has_subscriber(id) && !s.has_email(email) {
            s.subscribe(id, email, name)
        } else {
            s
        },
        Op::Confirm { id } => if s.has_subscriber(id) {
            s.confirm(id)
        } else {
            s
        },
    }
}

/// The store after the operations `ops`, in order.
pub open spec fn run(s: StoreView, ops: Seq<Op>) -> StoreView
    decreases ops.len(),
{
    if ops.len() == 0 {
        s
    } else {
        step(run(s, ops.drop_last()), ops.last())
    }
}

/// Every operation keeps the store consistent.
pub proof fn lemma_step_wf(s: StoreView, op: Op)
    requires
        s.wf(),
    ensures
        step(s, op).wf(),
{
    match op {
        Op::TryProcessing { user_id, key, now } => {
            if s.phase(user_id, key) is NoRecord {
                lemma_begin_wf(s, user_id, key, now);
            }
        },
        Op::InsertIssue { user_id, key, issue } => {
            if insert_refusal(s, user_id, key, issue.id) is None {
                lemma_stage_issue_wf(s, user_id, key, issue);
            }
        },
        Op::EnqueueTasks { user_id, key, issue_id } => {
            if enqueue_refusal(s, user_id, key, issue_id) is None {
                lemma_stage_tasks_wf(s, user_id, key);
            }
        },
        Op::SaveResponse { user_id, key, response } => {
            if s.has_pending(user_id, key) {
                if s.can_commit(user_id, key) {
                    lemma_commit_wf(s, user_id, key, response);
                } else {
                    lemma_rollback_wf(s, user_id, key);
                }
            }
        },
        Op::Rollback { user_id, key } => {
            if s.has_pending(user_id, key) {
                lemma_rollback_wf(s, user_id, key);
            }
        },
        Op::Dequeue => {
            if s.has_next_task() {
                lemma_claim_wf(s);
            }
        },
        Op::Settle { issue_id, recipient, outcome } => {
            if s.is_claimed(issue_id, recipient) {
                if outcome.is_terminal() {
                    lemma_retire_wf(s, issue_id, recipient);
                } else {
                    lemma_release_wf(s, issue_id, recipient);
                }
            }
        },
        Op::Subscribe { id, email, name } => {
            if !s.has_subscriber(id) && !s.has_email(email) {
                lemma_subscribe_wf(s, id, email, name);
            }
        },
        Op::Confirm { id } => {
            if s.has_subscriber(id) {
                lemma_confirm_wf(s, id);
            }
        },
    }
}

/// Every run keeps the store consistent.
pub proof fn lemma_run_wf(s: StoreView, ops: Seq<Op>)
    requires
        s.wf(),
    ensures
        run(s, ops).wf(),
    decreases ops.len(),
{
    if ops.len() > 0 {
        lemma_run_wf(s, ops.drop_last());
        lemma_step_wf(run(s, ops.drop_last()), ops.last());
    }
}

/// A run can be cut in two at any point.
pub proof fn lemma_run_split(s: StoreView, first: Seq<Op>, rest: Seq<Op>)
    ensures
        run(s, first + rest) == run(run(s, first), rest),
    decreases rest.len(),
{
    if rest.len() == 0 {
        assert(first + rest =~= first);
    } else {
        assert((first + rest).drop_last() =~= first + rest.drop_last());
        assert((first + rest).last() == rest.last());
        lemma_run_split(s, first, rest.drop_last());
    }
}

} // verus!
