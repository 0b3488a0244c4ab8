//! The store as a mathematical value: the rows of its five tables, what it
//! means for them to be consistent, and the transitions that the gateway, the
//! outbox writer and the dispatcher make on them.
//!
//! Everything here is specification. The executable store refines it: each of
//! its operations is stated as one of these transitions.

use crate::response::ResponseView;
use vstd::prelude::*;

verus! {

/// A completed command: the response that was first given for `(user_id, key)`.
pub struct SavedRow {
    pub user_id: u128,
    pub key: Seq<char>,
    pub response: ResponseView,
    pub created_at: i64,
}

/// A published newsletter issue.
pub struct IssueView {
    pub id: u128,
    pub title: Seq<char>,
    pub text_content: Seq<char>,
    pub html_content: Seq<char>,
    pub published_at: i64,
}

/// A command in progress: the placeholder row for `(user_id, key)` together
/// with what its transaction has written and not yet committed.
pub struct PendingView {
    pub user_id: u128,
    pub key: Seq<char>,
    pub created_at: i64,
    pub issue: Option<IssueView>,
    pub recipients: Option<Seq<Seq<char>>>,
}

/// A delivery task: one issue to one recipient. `claimed` is the row lock of
/// the dispatcher that is working on it.
pub struct TaskView {
    pub issue_id: u128,
    pub recipient: Seq<char>,
    pub claimed: bool,
}

/// A subscriber, confirmed or not.
pub struct SubscriberView {
    pub id: u128,
    pub email: Seq<char>,
    pub name: Seq<char>,
    pub confirmed: bool,
}

/// Where a command stands.
pub enum Phase {
    /// Never seen, or seen and rolled back.
    NoRecord,
    /// A transaction holds the placeholder row.
    InProgress,
    /// The response is saved.
    Complete,
}

/// The whole store.
pub struct StoreView {
    pub saved: Seq<SavedRow>,
    pub pending: Seq<PendingView>,
    pub issues: Seq<IssueView>,
    pub queue: Seq<TaskView>,
    pub subscribers: Seq<SubscriberView>,
}

/// The addresses of the confirmed subscribers, in table order.
pub open spec fn confirmed_emails(subscribers: Seq<SubscriberView>) -> Seq<Seq<char>> {
    subscribers.filter_map(
        |s: SubscriberView|
            if s.confirmed {
                Some(s.email)
            } else {
                None
            },
    )
}

/// One unclaimed task per recipient, all for issue `issue_id`.
pub open spec fn tasks_for(issue_id: u128, recipients: Seq<Seq<char>>) -> Seq<TaskView> {
    recipients.map_values(|r: Seq<char>| TaskView { issue_id, recipient: r, claimed: false })
}

impl StoreView {
    /// The store with nothing in it.
    pub open spec fn empty() -> StoreView {
        StoreView {
            saved: Seq::empty(),
            pending: Seq::empty(),
            issues: Seq::empty(),
            queue: Seq::empty(),
            subscribers: Seq::empty(),
        }
    }

    // ----- lookups ---------------------------------------------------------

    /// Row `i` of the saved responses is the one of `(user_id, key)`.
    pub open spec fn saved_matches(self, i: int, user_id: u128, key: Seq<char>) -> bool {
        0 <= i < self.saved.len() && self.saved[i].user_id == user_id && self.saved[i].key == key
    }

    pub open spec fn has_saved(self, user_id: u128, key: Seq<char>) -> bool {
        exists|i: int| self.saved_matches(i, user_id, key)
    }

    pub open spec fn saved_index(self, user_id: u128, key: Seq<char>) -> int {
        choose|i: int| self.saved_matches(i, user_id, key)
    }

    /// The response saved for `(user_id, key)`.
    pub open spec fn saved_response(self, user_id: u128, key: Seq<char>) -> ResponseView {
        self.saved[self.saved_index(user_id, key)].response
    }

    /// Row `i` of the commands in progress is the one of `(user_id, key)`.
    pub open spec fn pending_matches(self, i: int, user_id: u128, key: Seq<char>) -> bool {
        0 <= i < self.pending.len() && self.pending[i].user_id == user_id && self.pending[i].key
            == key
    }

    pub open spec fn has_pending(self, user_id: u128, key: Seq<char>) -> bool {
        exists|i: int| self.pending_matches(i, user_id, key)
    }

    pub open spec fn pending_index(self, user_id: u128, key: Seq<char>) -> int {
        choose|i: int| self.pending_matches(i, user_id, key)
    }

    /// What the transaction of `(user_id, key)` has written so far.
    pub open spec fn pending_of(self, user_id: u128, key: Seq<char>) -> PendingView {
        self.pending[self.pending_index(user_id, key)]
    }

    pub open spec fn issue_matches(self, i: int, id: u128) -> bool {
        0 <= i < self.issues.len() && self.issues[i].id == id
    }

    pub open spec fn has_issue(self, id: u128) -> bool {
        exists|i: int| self.issue_matches(i, id)
    }

    pub open spec fn issue_index(self, id: u128) -> int {
        choose|i: int| self.issue_matches(i, id)
    }

    /// The published issue with identifier `id`.
    pub open spec fn issue(self, id: u128) -> IssueView {
        self.issues[self.issue_index(id)]
    }

    pub open spec fn task_matches(self, i: int, issue_id: u128, recipient: Seq<char>) -> bool {
        0 <= i < self.queue.len() && self.queue[i].issue_id == issue_id && self.queue[i].recipient
            == recipient
    }

    pub open spec fn has_task(self, issue_id: u128, recipient: Seq<char>) -> bool {
        exists|i: int| self.task_matches(i, issue_id, recipient)
    }

    pub open spec fn task_index(self, issue_id: u128, recipient: Seq<char>) -> int {
        choose|i: int| self.task_matches(i, issue_id, recipient)
    }

    /// The task `(issue_id, recipient)` is queued and a dispatcher holds it.
    pub open spec fn is_claimed(self, issue_id: u128, recipient: Seq<char>) -> bool {
        self.has_task(issue_id, recipient) && self.queue[self.task_index(
            issue_id,
            recipient,
        )].claimed
    }

    /// Row `i` of the queue is the first that no dispatcher holds.
    pub open spec fn is_next_task(self, i: int) -> bool {
        &&& 0 <= i < self.queue.len()
        &&& !self.queue[i].claimed
        &&& forall|j: int| 0 <= j < i ==> (#[trigger] self.queue[j]).claimed
    }

    /// Some task is free to be claimed.
    pub open spec fn has_next_task(self) -> bool {
        exists|i: int| self.is_next_task(i)
    }

    pub open spec fn next_task_index(self) -> int {
        choose|i: int| self.is_next_task(i)
    }

    pub open spec fn subscriber_matches(self, i: int, id: u128) -> bool {
        0 <= i < self.subscribers.len() && self.subscribers[i].id == id
    }

    pub open spec fn has_subscriber(self, id: u128) -> bool {
        exists|i: int| self.subscriber_matches(i, id)
    }

    pub open spec fn subscriber_index(self, id: u128) -> int {
        choose|i: int| self.subscriber_matches(i, id)
    }

    pub open spec fn email_matches(self, i: int, email: Seq<char>) -> bool {
        0 <= i < self.subscribers.len() && self.subscribers[i].email == email
    }

    pub open spec fn has_email(self, email: Seq<char>) -> bool {
        exists|i: int| self.email_matches(i, email)
    }

    /// Where the command `(user_id, key)` stands.
    pub open spec fn phase(self, user_id: u128, key: Seq<char>) -> Phase {
        if self.has_saved(user_id, key) {
            Phase::Complete
        } else if self.has_pending(user_id, key) {
            Phase::InProgress
        } else {
            Phase::NoRecord
        }
    }

    // ----- consistency -----------------------------------------------------

    /// At most one saved response per `(user_id, key)`.
    pub open spec fn saved_unique(self) -> bool {
        forall|i: int, j: int|
            0 <= i < self.saved.len() && 0 <= j < self.saved.len() && i != j ==> !((
            #[trigger] self.saved[i]).user_id == (#[trigger] self.saved[j]).user_id
                && self.saved[i].key == self.saved[j].key)
    }

    /// At most one transaction per `(user_id, key)`.
    pub open spec fn pending_unique(self) -> bool {
        forall|i: int, j: int|
            0 <= i < self.pending.len() && 0 <= j < self.pending.len() && i != j ==> !((
            #[trigger] self.pending[i]).user_id == (#[trigger] self.pending[j]).user_id
                && self.pending[i].key == self.pending[j].key)
    }

    /// No command is both complete and in progress.
    pub open spec fn pending_not_saved(self) -> bool {
        forall|i: int, j: int|
            0 <= i < self.pending.len() && 0 <= j < self.saved.len() ==> !((
            #[trigger] self.pending[i]).user_id == (#[trigger] self.saved[j]).user_id
                && self.pending[i].key == self.saved[j].key)
    }

    /// A transaction enqueues tasks only for an issue it has inserted, and the
    /// recipients it has taken are distinct.
    pub open spec fn pending_staged(self) -> bool {
        forall|i: int|
            0 <= i < self.pending.len() && (#[trigger] self.pending[i]).recipients is Some
                ==> self.pending[i].issue is Some
                && self.pending[i].recipients->0.no_duplicates()
    }

    /// Issue identifiers are unique.
    pub open spec fn issues_unique(self) -> bool {
        forall|i: int, j: int|
            0 <= i < self.issues.len() && 0 <= j < self.issues.len() && i != j ==> (
            #[trigger] self.issues[i]).id != (#[trigger] self.issues[j]).id
    }

    /// At most one task per `(issue, recipient)`.
    pub open spec fn queue_unique(self) -> bool {
        forall|i: int, j: int|
            0 <= i < self.queue.len() && 0 <= j < self.queue.len() && i != j ==> !((
            #[trigger] self.queue[i]).issue_id == (#[trigger] self.queue[j]).issue_id
                && self.queue[i].recipient == self.queue[j].recipient)
    }

    /// Every task is for a published issue.
    pub open spec fn queue_refers_to_issues(self) -> bool {
        forall|i: int|
            0 <= i < self.queue.len() ==> self.has_issue((#[trigger] self.queue[i]).issue_id)
    }

    /// Subscriber identifiers and addresses are unique.
    pub open spec fn subscribers_unique(self) -> bool {
        forall|i: int, j: int|
            0 <= i < self.subscribers.len() && 0 <= j < self.subscribers.len() && i != j ==> (
            #[trigger] self.subscribers[i]).id != (#[trigger] self.subscribers[j]).id
                && self.subscribers[i].email != self.subscribers[j].email
    }

    /// The store is consistent.
    pub open spec fn wf(self) -> bool {
        &&& self.saved_unique()
        &&& self.pending_unique()
        &&& self.pending_not_saved()
        &&& self.pending_staged()
        &&& self.issues_unique()
        &&& self.queue_unique()
        &&& self.queue_refers_to_issues()
        &&& self.subscribers_unique()
    }

    // ----- transitions of the gateway ---------------------------------------

    /// `NoRecord -> InProgress`: the placeholder row is inserted and its
    /// transaction stays open.
    pub open spec fn begin(self, user_id: u128, key: Seq<char>, now: i64) -> StoreView {
        StoreView {
            pending: self.pending.push(
                PendingView { user_id, key, created_at: now, issue: None, recipients: None },
            ),
            ..self
        }
    }

    /// The transaction of `(user_id, key)` inserts `issue`.
    pub open spec fn stage_issue(self, user_id: u128, key: Seq<char>, issue: IssueView) -> StoreView {
        let i = self.pending_index(user_id, key);
        StoreView {
            pending: self.pending.update(
                i,
                PendingView { issue: Some(issue), ..self.pending[i] },
            ),
            ..self
        }
    }

    /// The transaction of `(user_id, key)` takes its snapshot of the confirmed
    /// subscribers.
    pub open spec fn stage_tasks(self, user_id: u128, key: Seq<char>) -> StoreView {
        let i = self.pending_index(user_id, key);
        StoreView {
            pending: self.pending.update(
                i,
                PendingView {
                    recipients: Some(confirmed_emails(self.subscribers)),
                    ..self.pending[i]
                },
            ),
            ..self
        }
    }

    /// Whether the transaction of `(user_id, key)` can commit: it is open, and
    /// the issue it inserted, if any, still has a fresh identifier.
    pub open spec fn can_commit(self, user_id: u128, key: Seq<char>) -> bool {
        &&& self.has_pending(user_id, key)
        &&& self.pending_of(user_id, key).issue matches Some(issue) ==> !self.has_issue(issue.id)
    }

    /// `InProgress -> Complete`: the response, the issue and its tasks become
    /// visible together, and the transaction is closed.
    pub open spec fn commit(self, user_id: u128, key: Seq<char>, response: ResponseView) -> StoreView {
        let i = self.pending_index(user_id, key);
        let p = self.pending[i];
        StoreView {
            saved: self.saved.push(SavedRow { user_id, key, response, created_at: p.created_at }),
            pending: self.pending.remove(i),
            issues: match p.issue {
                Some(issue) => self.issues.push(issue),
                None => self.issues,
            },
            queue: match (p.issue, p.recipients) {
                (Some(issue), Some(recipients)) => self.queue + tasks_for(issue.id, recipients),
                _ => self.queue,
            },
            subscribers: self.subscribers,
        }
    }

    /// `InProgress -> NoRecord`: the transaction is abandoned and nothing of
    /// it remains.
    pub open spec fn rollback(self, user_id: u128, key: Seq<char>) -> StoreView {
        StoreView { pending: self.pending.remove(self.pending_index(user_id, key)), ..self }
    }

    // ----- transitions of the dispatcher -------------------------------------

    /// A dispatcher takes the first task that nobody holds.
    pub open spec fn claim_next(self) -> StoreView {
        let i = self.next_task_index();
        StoreView {
            queue: self.queue.update(i, TaskView { claimed: true, ..self.queue[i] }),
            ..self
        }
    }

    /// The task is done with, for good: its row is deleted.
    pub open spec fn retire(self, issue_id: u128, recipient: Seq<char>) -> StoreView {
        StoreView { queue: self.queue.remove(self.task_index(issue_id, recipient)), ..self }
    }

    /// The dispatcher lets go of the task, which stays queued.
    pub open spec fn release(self, issue_id: u128, recipient: Seq<char>) -> StoreView {
        let i = self.task_index(issue_id, recipient);
        StoreView {
            queue: self.queue.update(i, TaskView { claimed: false, ..self.queue[i] }),
            ..self
        }
    }

    // ----- transitions of the subscriber table --------------------------------

    /// A new subscriber, not yet confirmed.
    pub open spec fn subscribe(self, id: u128, email: Seq<char>, name: Seq<char>) -> StoreView {
        StoreView {
            subscribers: self.subscribers.push(
                SubscriberView { id, email, name, confirmed: false },
            ),
            ..self
        }
    }

    /// Subscriber `id` is confirmed.
    pub open spec fn confirm(self, id: u128) -> StoreView {
        let i = self.subscriber_index(id);
        StoreView {
            subscribers: self.subscribers.update(
                i,
                SubscriberView { confirmed: true, ..self.subscribers[i] },
            ),
            ..self
        }
    }
}

// ----- the lookups are well defined ------------------------------------------

/// In a consistent store the row of a command is the only one that matches.
pub proof fn lemma_saved_index(s: StoreView, i: int, user_id: u128, key: Seq<char>)
    requires
        s.saved_unique(),
        s.saved_matches(i, user_id, key),
    ensures
        s.has_saved(user_id, key),
        s.saved_index(user_id, key) == i,
{
}

pub proof fn lemma_pending_index(s: StoreView, i: int, user_id: u128, key: Seq<char>)
    requires
        s.pending_unique(),
        s.pending_matches(i, user_id, key),
    ensures
        s.has_pending(user_id, key),
        s.pending_index(user_id, key) == i,
{
}

pub proof fn lemma_issue_index(s: StoreView, i: int, id: u128)
    requires
        s.issues_unique(),
        s.issue_matches(i, id),
    ensures
        s.has_issue(id),
        s.issue_index(id) == i,
{
}

pub proof fn lemma_task_index(s: StoreView, i: int, issue_id: u128, recipient: Seq<char>)
    requires
        s.queue_unique(),
        s.task_matches(i, issue_id, recipient),
    ensures
        s.has_task(issue_id, recipient),
        s.task_index(issue_id, recipient) == i,
{
}

pub proof fn lemma_subscriber_index(s: StoreView, i: int, id: u128)
    requires
        s.subscribers_unique(),
        s.subscriber_matches(i, id),
    ensures
        s.has_subscriber(id),
        s.subscriber_index(id) == i,
{
}

/// The first free task is the only first free task.
pub proof fn lemma_next_task_index(s: StoreView, i: int)
    requires
        s.is_next_task(i),
    ensures
        s.has_next_task(),
        s.next_task_index() == i,
{
    let j = s.next_task_index();
    assert(s.is_next_task(j));
    if j < i {
        assert(s.queue[j].claimed);
    }
    if i < j {
        assert(s.queue[i].claimed);
    }
}

} // verus!
