//! The delivery dispatcher: it claims one queued task at a time, learns how
//! the delivery went, and either retires the task or lets go of it so that
//! it is tried again.
//!
//! Sending is not done here. The dispatcher says what to send, and is told
//! what became of it.

use crate::domain::{is_valid_email, SubscriberEmail};
use crate::history::{step, Op};
use crate::invariants::{lemma_claim_wf, lemma_release_wf, lemma_retire_wf};
use crate::model::{lemma_issue_index, lemma_next_task_index, lemma_task_index, StoreView};
use crate::store::{Store, StoreError};
use vstd::prelude::*;
use vstd::string::*;

verus! {

/// A task that this dispatcher holds. No other dispatcher can claim it until
/// it is deleted or released.
#[derive(Debug)]
pub struct ClaimedTask {
    pub(crate) issue_id: u128,
    pub(crate) recipient: String,
}

impl ClaimedTask {
    /// The issue to deliver.
    pub open(crate) spec fn issue(&self) -> u128 {
        self.issue_id
    }

    /// The stored contact of the recipient.
    pub open(crate) spec fn recipient_text(&self) -> Seq<char> {
        self.recipient@
    }

    /// The issue to deliver.
    pub fn issue_id(&self) -> (id: u128)
        ensures
            id == self.issue(),
    {
        self.issue_id
    }

    /// The stored contact of the recipient.
    pub fn recipient(&self) -> (recipient: &str)
        ensures
            recipient@ == self.recipient_text(),
    {
        self.recipient.as_str()
    }
}

/// What one iteration of the dispatcher came to.
#[derive(Clone, Copy, Debug, PartialEq, Eq, Structural)]
pub enum ExecutionOutcome {
    /// A task was claimed and retired.
    TaskCompleted,
    /// A task was claimed, failed transiently and stays queued.
    TaskRetained,
    /// No task was free.
    EmptyQueue,
}

/// How long the worker loop rests: after it found the queue empty, and
/// after a task failed transiently. Neither is fixed by the dispatcher; a
/// delay of zero means no rest.
#[derive(Clone, Copy, Debug, PartialEq, Eq, Structural)]
pub struct WorkerPolicy {
    pub poll_interval_ms: u64,
    pub retry_delay_ms: u64,
}

/// What became of a claimed task.
#[derive(Clone, Copy, Debug, PartialEq, Eq, Structural)]
pub enum DeliveryOutcome {
    /// The stored contact of the recipient is malformed; nothing was sent.
    InvalidRecipient,
    /// The send gateway accepted the email.
    Delivered,
    /// The send gateway refused the email for good.
    PermanentFailure,
    /// The send gateway failed in a way that may pass.
    TransientFailure,
}

impl DeliveryOutcome {
    /// Whether the task is done with: every outcome but a transient failure.
    pub open spec fn is_terminal(self) -> bool {
        !(self is TransientFailure)
    }

    /// Whether the outcome is one that is never retried and has to be logged
    /// as such.
    pub open spec fn is_permanent_failure(self) -> bool {
        self is InvalidRecipient || self is PermanentFailure
    }
}

/// What the answer of the send gateway means for a task: a status from 200
/// to 299 is a delivery; a status from 400 to 499 says that the request
/// will not do as it stands, which is a failure for good; no answer at all,
/// and any other status, is a failure that may pass.
pub open spec fn outcome_of_answer(status: Option<u16>) -> DeliveryOutcome {
    match status {
        Some(code) => if 200 <= code <= 299 {
            DeliveryOutcome::Delivered
        } else if 400 <= code <= 499 {
            DeliveryOutcome::PermanentFailure
        } else {
            DeliveryOutcome::TransientFailure
        },
        None => DeliveryOutcome::TransientFailure,
    }
}

/// What is done with the row of a claimed task.
#[derive(Clone, Copy, Debug, PartialEq, Eq, Structural)]
pub enum Settlement {
    /// The row is deleted in the transaction that claimed it.
    DeleteTask,
    /// The claim is given up and the row stays.
    ReleaseClaim,
}

/// How grave a log record is.
#[derive(Clone, Copy, Debug, PartialEq, Eq, Structural)]
pub enum LogLevel {
    Warning,
    Error,
}

impl DeliveryOutcome {
    /// What the answer of the send gateway means for a task, given the
    /// status it answered with, or `None` where it did not answer.
    pub fn from_answer(status: Option<u16>) -> (outcome: DeliveryOutcome)
        ensures
            outcome == outcome_of_answer(status),
    {
        match status {
            Some(code) => {
                if 200 <= code && code <= 299 {
                    DeliveryOutcome::Delivered
                } else if 400 <= code && code <= 499 {
                    DeliveryOutcome::PermanentFailure
                } else {
                    DeliveryOutcome::TransientFailure
                }
            },
            None => DeliveryOutcome::TransientFailure,
        }
    }

    /// What is done with the row of a task that came to this outcome: it
    /// stays only after a transient failure.
    pub fn settlement(&self) -> (settlement: Settlement)
        ensures
            settlement == if self.is_terminal() {
                Settlement::DeleteTask
            } else {
                Settlement::ReleaseClaim
            },
    {
        match self {
            DeliveryOutcome::TransientFailure => Settlement::ReleaseClaim,
            _ => Settlement::DeleteTask,
        }
    }

    /// What an iteration that settled a task with this outcome came to.
    pub fn execution_outcome(&self) -> (outcome: ExecutionOutcome)
        ensures
            outcome == if self.is_terminal() {
                ExecutionOutcome::TaskCompleted
            } else {
                ExecutionOutcome::TaskRetained
            },
    {
        match self {
            DeliveryOutcome::TransientFailure => ExecutionOutcome::TaskRetained,
            _ => ExecutionOutcome::TaskCompleted,
        }
    }

    /// How the outcome is logged: not at all where the email was
    /// delivered, as a warning where the task failed for good, as an error
    /// where it failed transiently.
    pub fn log_level(&self) -> (level: Option<LogLevel>)
        ensures
            level == if *self is Delivered {
                None
            } else if self.is_permanent_failure() {
                Some(LogLevel::Warning)
            } else {
                Some(LogLevel::Error)
            },
    {
        match self {
            DeliveryOutcome::Delivered => None,
            DeliveryOutcome::InvalidRecipient | DeliveryOutcome::PermanentFailure => Some(
                LogLevel::Warning,
            ),
            DeliveryOutcome::TransientFailure => Some(LogLevel::Error),
        }
    }
}

/// The log record of a delivery that failed: which task, which issue, and
/// what went wrong.
#[derive(Debug)]
pub struct FailureRecord {
    pub level: LogLevel,
    pub issue_id: u128,
    pub recipient: String,
    pub outcome: DeliveryOutcome,
}

/// What the dispatcher does with a claimed task once the recipient's contact
/// has been checked.
#[derive(Debug, PartialEq, Eq)]
pub enum DeliveryStep {
    /// Hand this email to the send gateway.
    Send { recipient: String, subject: String, html_body: String, text_body: String },
    /// The contact is malformed: send nothing, discard the task.
    Discard,
}

/// What the worker loop does between two iterations.
#[derive(Clone, Copy, Debug, PartialEq, Eq, Structural)]
pub enum WorkerAction {
    /// Run the next iteration at once.
    Continue,
    /// Suspend for this many milliseconds, then run the next iteration.
    Sleep { milliseconds: u64 },
    /// Leave the loop.
    Stop,
}

/// What the worker loop does after an iteration that came to `outcome`:
/// it stops once shutdown is requested, rests for the polling interval
/// when the queue was empty and for the retry delay when a task was
/// retained, and goes on at once otherwise.
pub open spec fn worker_action(
    shutdown_requested: bool,
    outcome: ExecutionOutcome,
    policy: WorkerPolicy,
) -> WorkerAction {
    let rest = match outcome {
        ExecutionOutcome::EmptyQueue => policy.poll_interval_ms,
        ExecutionOutcome::TaskRetained => policy.retry_delay_ms,
        ExecutionOutcome::TaskCompleted => 0,
    };
    if shutdown_requested {
        WorkerAction::Stop
    } else if rest > 0 {
        WorkerAction::Sleep { milliseconds: rest }
    } else {
        WorkerAction::Continue
    }
}

/// Decides what the worker loop does between two iterations.
pub fn next_worker_action(
    shutdown_requested: bool,
    outcome: ExecutionOutcome,
    policy: WorkerPolicy,
) -> (action: WorkerAction)
    ensures
        action == worker_action(shutdown_requested, outcome, policy),
{
    let rest: u64 = match outcome {
        ExecutionOutcome::EmptyQueue => policy.poll_interval_ms,
        ExecutionOutcome::TaskRetained => policy.retry_delay_ms,
        ExecutionOutcome::TaskCompleted => 0,
    };
    if shutdown_requested {
        WorkerAction::Stop
    } else if rest > 0 {
        WorkerAction::Sleep { milliseconds: rest }
    } else {
        WorkerAction::Continue
    }
}

/// Claims the first queued task that no dispatcher holds. Tasks held by
/// others are skipped; where none is free nothing changes.
pub fn dequeue_task(store: &mut Store) -> (claimed: Option<ClaimedTask>)
    requires
        old(store)@.wf(),
    ensures
        final(store)@.wf(),
        final(store)@ == step(old(store)@, Op::Dequeue),
        match claimed {
            Some(task) => {
                &&& old(store)@.has_next_task()
                &&& final(store)@ == old(store)@.claim_next()
                &&& task.issue() == old(store)@.queue[old(store)@.next_task_index()].issue_id
                &&& task.recipient_text() == old(store)@.queue[old(
                    store,
                )@.next_task_index()].recipient
                &&& old(store)@.has_task(task.issue(), task.recipient_text())
                &&& !old(store)@.is_claimed(task.issue(), task.recipient_text())
                &&& final(store)@.is_claimed(task.issue(), task.recipient_text())
            },
            None => !old(store)@.has_next_task() && final(store)@ == old(store)@,
        },
{
    let ghost before = store@;
    let mut i: usize = 0;
    while i < store.queue.len()
        invariant
            i <= store.queue.len(),
            store@ == before,
            before == old(store)@,
            before.wf(),
            forall|j: int| 0 <= j < i ==> (#[trigger] before.queue[j]).claimed,
        decreases store.queue.len() - i,
    {
        if !store.queue[i].claimed {
            proof {
                assert(before.is_next_task(i as int));
                lemma_next_task_index(before, i as int);
                lemma_claim_wf(before);
            }
            let mut row = store.queue.remove(i);
            row.claimed = true;
            let task = ClaimedTask { issue_id: row.issue_id, recipient: row.recipient.clone() };
            store.queue.insert(i, row);
            proof {
                assert(store@.queue =~= before.claim_next().queue);
                assert(before.task_matches(i as int, task.issue_id, task.recipient@));
                lemma_task_index(before, i as int, task.issue_id, task.recipient@);
                assert(store@.task_matches(i as int, task.issue_id, task.recipient@));
                lemma_task_index(store@, i as int, task.issue_id, task.recipient@);
            }
            return Some(task);
        }
        i += 1;
    }
    proof {
        if before.has_next_task() {
            let k = before.next_task_index();
            assert(before.is_next_task(k));
            assert(before.queue[k].claimed);
        }
    }
    None
}

/// Deletes the task for good and ends the claim. A task that is not queued
/// and claimed in this store changes nothing.
pub fn delete_task(store: &mut Store, task: ClaimedTask) -> (done: Result<(), StoreError>)
    requires
        old(store)@.wf(),
    ensures
        final(store)@.wf(),
        match done {
            Ok(()) => {
                &&& old(store)@.is_claimed(task.issue(), task.recipient_text())
                &&& final(store)@ == old(store)@.retire(task.issue(), task.recipient_text())
                &&& !final(store)@.has_task(task.issue(), task.recipient_text())
            },
            Err(e) => {
                &&& e == StoreError::NoSuchTask
                &&& !old(store)@.is_claimed(task.issue(), task.recipient_text())
                &&& final(store)@ == old(store)@
            },
        },
{
    let ghost before = store@;
    match store.find_task(task.issue_id, &task.recipient) {
        None => Err(StoreError::NoSuchTask),
        Some(i) => {
            proof {
                lemma_task_index(before, i as int, task.issue_id, task.recipient@);
            }
            if !store.queue[i].claimed {
                return Err(StoreError::NoSuchTask);
            }
            proof {
                lemma_retire_wf(before, task.issue_id, task.recipient@);
            }
            let _ = store.queue.remove(i);
            proof {
                assert(store@.queue =~= before.retire(task.issue_id, task.recipient@).queue);
            }
            Ok(())
        },
    }
}

/// Ends the claim and leaves the task queued, in place, for a later attempt.
/// A task that is not queued and claimed in this store changes nothing.
pub fn release_task(store: &mut Store, task: ClaimedTask) -> (done: Result<(), StoreError>)
    requires
        old(store)@.wf(),
    ensures
        final(store)@.wf(),
        match done {
            Ok(()) => {
                &&& old(store)@.is_claimed(task.issue(), task.recipient_text())
                &&& final(store)@ == old(store)@.release(task.issue(), task.recipient_text())
            },
            Err(e) => {
                &&& e == StoreError::NoSuchTask
                &&& !old(store)@.is_claimed(task.issue(), task.recipient_text())
                &&& final(store)@ == old(store)@
            },
        },
{
    let ghost before = store@;
    match store.find_task(task.issue_id, &task.recipient) {
        None => Err(StoreError::NoSuchTask),
        Some(i) => {
            proof {
                lemma_task_index(before, i as int, task.issue_id, task.recipient@);
            }
            if !store.queue[i].claimed {
                return Err(StoreError::NoSuchTask);
            }
            proof {
                lemma_release_wf(before, task.issue_id, task.recipient@);
            }
            let mut row = store.queue.remove(i);
            row.claimed = false;
            store.queue.insert(i, row);
            proof {
                assert(store@.queue =~= before.release(task.issue_id, task.recipient@).queue);
            }
            Ok(())
        },
    }
}

/// The store after a claimed task has come to `outcome`: the task is gone
/// unless the failure was transient, in which case only the claim ends.
pub open spec fn settled(
    s: StoreView,
    issue_id: u128,
    recipient: Seq<char>,
    outcome: DeliveryOutcome,
) -> StoreView {
    if outcome.is_terminal() {
        s.retire(issue_id, recipient)
    } else {
        s.release(issue_id, recipient)
    }
}

/// What is done with a claimed task whose recipient's contact is valid or
/// not, in a store that holds the task's issue.
pub open spec fn step_matches(
    s: StoreView,
    issue_id: u128,
    recipient: Seq<char>,
    contact_is_valid: bool,
    step: DeliveryStep,
) -> bool {
    match step {
        DeliveryStep::Discard => !contact_is_valid,
        DeliveryStep::Send { recipient: to, subject, html_body, text_body } => {
            &&& contact_is_valid
            &&& to@ == recipient
            &&& subject@ == s.issue(issue_id).title
            &&& html_body@ == s.issue(issue_id).html_content
            &&& text_body@ == s.issue(issue_id).text_content
        },
    }
}

/// Says what to do with a claimed task once the recipient's stored contact
/// has been checked: a malformed contact is discarded without a send, any
/// other gets the issue's title and two bodies. Refused exactly when the
/// store does not hold the task's issue.
pub fn plan_delivery_with(store: &Store, task: &ClaimedTask, contact_is_valid: bool) -> (step:
    Result<DeliveryStep, StoreError>)
    requires
        store@.wf(),
    ensures
        match step {
            Ok(step) => store@.has_issue(task.issue()) && step_matches(
                store@,
                task.issue(),
                task.recipient_text(),
                contact_is_valid,
                step,
            ),
            Err(e) => e == StoreError::UnknownIssue && !store@.has_issue(task.issue()),
        },
{
    match store.find_issue(task.issue_id) {
        None => Err(StoreError::UnknownIssue),
        Some(i) => {
            proof {
                lemma_issue_index(store@, i as int, task.issue_id);
            }
            if !contact_is_valid {
                Ok(DeliveryStep::Discard)
            } else {
                Ok(
                    DeliveryStep::Send {
                        recipient: task.recipient.clone(),
                        subject: store.issues[i].title.clone(),
                        html_body: store.issues[i].html_content.clone(),
                        text_body: store.issues[i].text_content.clone(),
                    },
                )
            }
        },
    }
}

/// Checks the stored contact of the task's recipient and says what to do
/// with the task: a contact that is no email address is discarded without a
/// send, any other gets the issue's title and two bodies. Refused exactly
/// when the store does not hold the task's issue.
pub fn plan_delivery(store: &Store, task: &ClaimedTask) -> (step: Result<DeliveryStep, StoreError>)
    requires
        store@.wf(),
    ensures
        match step {
            Ok(step) => store@.has_issue(task.issue()) && step_matches(
                store@,
                task.issue(),
                task.recipient_text(),
                is_valid_email(task.recipient_text()),
                step,
            ),
            Err(e) => e == StoreError::UnknownIssue && !store@.has_issue(task.issue()),
        },
{
    let contact_is_valid = SubscriberEmail::parse(task.recipient.clone()).is_ok();
    plan_delivery_with(store, task, contact_is_valid)
}

/// Settles a claimed task that came to `outcome`.
///
/// A delivered task is deleted and nothing is logged. A task that failed for
/// good, because the contact is malformed or the gateway said so, is deleted
/// and a warning names it. A task that failed transiently stays queued, its
/// claim ends, and an error names it. A task that is not queued and claimed
/// in this store changes nothing.
pub fn complete_delivery(store: &mut Store, task: ClaimedTask, outcome: DeliveryOutcome) -> (done:
    Result<Option<FailureRecord>, StoreError>)
    requires
        old(store)@.wf(),
    ensures
        final(store)@.wf(),
        final(store)@ == step(
            old(store)@,
            Op::Settle { issue_id: task.issue(), recipient: task.recipient_text(), outcome },
        ),
        match done {
            Ok(log) => {
                &&& old(store)@.is_claimed(task.issue(), task.recipient_text())
                &&& final(store)@ == settled(
                    old(store)@,
                    task.issue(),
                    task.recipient_text(),
                    outcome,
                )
                &&& log is None <==> outcome is Delivered
                &&& log matches Some(record) ==> {
                    &&& record.issue_id == task.issue()
                    &&& record.recipient@ == task.recipient_text()
                    &&& record.outcome == outcome
                    &&& record.level == if outcome.is_permanent_failure() {
                        LogLevel::Warning
                    } else {
                        LogLevel::Error
                    }
                }
            },
            Err(e) => {
                &&& e == StoreError::NoSuchTask
                &&& !old(store)@.is_claimed(task.issue(), task.recipient_text())
                &&& final(store)@ == old(store)@
            },
        },
{
    let record = match outcome.log_level() {
        None => None,
        Some(level) => Some(
            FailureRecord {
                level,
                issue_id: task.issue_id,
                recipient: task.recipient.clone(),
                outcome,
            },
        ),
    };
    let settled = match outcome.settlement() {
        Settlement::DeleteTask => delete_task(store, task),
        Settlement::ReleaseClaim => release_task(store, task),
    };
    match settled {
        Ok(()) => Ok(record),
        Err(e) => Err(e),
    }
}

} // verus!
