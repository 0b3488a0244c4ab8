//! The store itself: five tables held in memory, with the row types that the
//! gateway, the outbox writer and the dispatcher exchange.

use crate::history::{step, Op};
use crate::invariants::{lemma_confirm_wf, lemma_empty_wf, lemma_subscribe_wf};
use crate::key::IdempotencyKey;
use crate::model::{
    lemma_issue_index, lemma_saved_index, lemma_subscriber_index, IssueView, PendingView, SavedRow,
    StoreView, SubscriberView, TaskView,
};
use crate::response::Response;
use vstd::prelude::*;
use vstd::string::*;

verus! {

/// Why the store refused an operation.
#[derive(Clone, Copy, Debug, PartialEq, Eq, Structural)]
pub enum StoreError {
    /// The transaction is not open in this store.
    NoSuchTransaction,
    /// The transaction has already inserted its issue.
    IssueAlreadyInserted,
    /// An issue with this identifier exists.
    DuplicateIssue,
    /// The transaction has not inserted an issue with this identifier.
    UnknownIssue,
    /// The tasks of the issue have already been enqueued.
    TasksAlreadyEnqueued,
    /// A subscriber with this identifier or this address exists.
    DuplicateSubscriber,
    /// No subscriber has this identifier.
    UnknownSubscriber,
    /// The task is not queued and claimed in this store.
    NoSuchTask,
}

/// A saved response with the command it answers.
#[derive(Debug)]
pub struct CachedResponse {
    pub user_id: u128,
    pub idempotency_key: String,
    pub response: Response,
    pub created_at: i64,
}

/// A newsletter issue.
#[derive(Debug, PartialEq, Eq)]
pub struct Issue {
    pub id: u128,
    pub title: String,
    pub text_content: String,
    pub html_content: String,
    pub published_at: i64,
}

/// A subscriber.
#[derive(Debug, PartialEq, Eq)]
pub struct Subscriber {
    pub id: u128,
    pub email: String,
    pub name: String,
    pub confirmed: bool,
}

/// The placeholder row of a command in progress, with the uncommitted writes
/// of its transaction.
pub(crate) struct PendingCommand {
    pub(crate) user_id: u128,
    pub(crate) key: String,
    pub(crate) created_at: i64,
    pub(crate) issue: Option<Issue>,
    pub(crate) recipients: Option<Vec<String>>,
}

/// A row of the delivery queue.
pub(crate) struct QueueRow {
    pub(crate) issue_id: u128,
    pub(crate) recipient: String,
    pub(crate) claimed: bool,
}

/// The texts of `strings`, in order.
pub open spec fn texts(strings: Seq<String>) -> Seq<Seq<char>> {
    strings.map_values(|s: String| s@)
}

impl View for CachedResponse {
    type V = SavedRow;

    open spec fn view(&self) -> SavedRow {
        SavedRow {
            user_id: self.user_id,
            key: self.idempotency_key@,
            response: self.response@,
            created_at: self.created_at,
        }
    }
}

impl View for Issue {
    type V = IssueView;

    open spec fn view(&self) -> IssueView {
        IssueView {
            id: self.id,
            title: self.title@,
            text_content: self.text_content@,
            html_content: self.html_content@,
            published_at: self.published_at,
        }
    }
}

impl View for Subscriber {
    type V = SubscriberView;

    open spec fn view(&self) -> SubscriberView {
        SubscriberView {
            id: self.id,
            email: self.email@,
            name: self.name@,
            confirmed: self.confirmed,
        }
    }
}

impl View for PendingCommand {
    type V = PendingView;

    open(crate) spec fn view(&self) -> PendingView {
        PendingView {
            user_id: self.user_id,
            key: self.key@,
            created_at: self.created_at,
            issue: match self.issue {
                Some(issue) => Some(issue@),
                None => None,
            },
            recipients: match self.recipients {
                Some(recipients) => Some(texts(recipients@)),
                None => None,
            },
        }
    }
}

impl View for QueueRow {
    type V = TaskView;

    open(crate) spec fn view(&self) -> TaskView {
        TaskView { issue_id: self.issue_id, recipient: self.recipient@, claimed: self.claimed }
    }
}

/// The store: saved responses, commands in progress, issues, the delivery
/// queue and the subscribers.
pub struct Store {
    pub(crate) saved: Vec<CachedResponse>,
    pub(crate) pending: Vec<PendingCommand>,
    pub(crate) issues: Vec<Issue>,
    pub(crate) queue: Vec<QueueRow>,
    pub(crate) subscribers: Vec<Subscriber>,
}

impl View for Store {
    type V = StoreView;

    open(crate) spec fn view(&self) -> StoreView {
        StoreView {
            saved: self.saved@.map_values(|r: CachedResponse| r@),
            pending: self.pending@.map_values(|p: PendingCommand| p@),
            issues: self.issues@.map_values(|i: Issue| i@),
            queue: self.queue@.map_values(|t: QueueRow| t@),
            subscribers: self.subscribers@.map_values(|s: Subscriber| s@),
        }
    }
}

impl Issue {
    /// A copy of this issue.
    pub fn duplicate(&self) -> (copy: Issue)
        ensures
            copy@ == self@,
    {
        Issue {
            id: self.id,
            title: self.title.clone(),
            text_content: self.text_content.clone(),
            html_content: self.html_content.clone(),
            published_at: self.published_at,
        }
    }
}

impl Store {
    /// A store with nothing in it.
    pub fn new() -> (store: Store)
        ensures
            store@ == StoreView::empty(),
            store@.wf(),
    {
        let store = Store {
            saved: Vec::new(),
            pending: Vec::new(),
            issues: Vec::new(),
            queue: Vec::new(),
            subscribers: Vec::new(),
        };
        proof {
            lemma_empty_wf();
            assert(store@.saved =~= Seq::empty());
            assert(store@.pending =~= Seq::empty());
            assert(store@.issues =~= Seq::empty());
            assert(store@.queue =~= Seq::empty());
            assert(store@.subscribers =~= Seq::empty());
        }
        store
    }

    // ----- where a row is ----------------------------------------------------

    pub(crate) fn find_saved(&self, user_id: u128, key: &String) -> (found: Option<usize>)
        ensures
            match found {
                Some(i) => self@.saved_matches(i as int, user_id, key@),
                None => !self@.has_saved(user_id, key@),
            },
    {
        let mut i: usize = 0;
        while i < self.saved.len()
            invariant
                i <= self.saved.len(),
                forall|j: int| 0 <= j < i ==> !self@.saved_matches(j, user_id, key@),
            decreases self.saved.len() - i,
        {
            if self.saved[i].user_id == user_id && self.saved[i].idempotency_key == *key {
                return Some(i);
            }
            i += 1;
        }
        None
    }

    pub(crate) fn find_pending(&self, user_id: u128, key: &String) -> (found: Option<usize>)
        ensures
            match found {
                Some(i) => self@.pending_matches(i as int, user_id, key@),
                None => !self@.has_pending(user_id, key@),
            },
    {
        let mut i: usize = 0;
        while i < self.pending.len()
            invariant
                i <= self.pending.len(),
                forall|j: int| 0 <= j < i ==> !self@.pending_matches(j, user_id, key@),
            decreases self.pending.len() - i,
        {
            if self.pending[i].user_id == user_id && self.pending[i].key == *key {
                return Some(i);
            }
            i += 1;
        }
        None
    }

    pub(crate) fn find_issue(&self, id: u128) -> (found: Option<usize>)
        ensures
            match found {
                Some(i) => self@.issue_matches(i as int, id),
                None => !self@.has_issue(id),
            },
    {
        let mut i: usize = 0;
        while i < self.issues.len()
            invariant
                i <= self.issues.len(),
                forall|j: int| 0 <= j < i ==> !self@.issue_matches(j, id),
            decreases self.issues.len() - i,
        {
            if self.issues[i].id == id {
                return Some(i);
            }
            i += 1;
        }
        None
    }

    pub(crate) fn find_task(&self, issue_id: u128, recipient: &String) -> (found: Option<usize>)
        ensures
            match found {
                Some(i) => self@.task_matches(i as int, issue_id, recipient@),
                None => !self@.has_task(issue_id, recipient@),
            },
    {
        let mut i: usize = 0;
        while i < self.queue.len()
            invariant
                i <= self.queue.len(),
                forall|j: int| 0 <= j < i ==> !self@.task_matches(j, issue_id, recipient@),
            decreases self.queue.len() - i,
        {
            if self.queue[i].issue_id == issue_id && self.queue[i].recipient == *recipient {
                return Some(i);
            }
            i += 1;
        }
        None
    }

    pub(crate) fn find_subscriber(&self, id: u128) -> (found: Option<usize>)
        ensures
            match found {
                Some(i) => self@.subscriber_matches(i as int, id),
                None => !self@.has_subscriber(id),
            },
    {
        let mut i: usize = 0;
        while i < self.subscribers.len()
            invariant
                i <= self.subscribers.len(),
                forall|j: int| 0 <= j < i ==> !self@.subscriber_matches(j, id),
            decreases self.subscribers.len() - i,
        {
            if self.subscribers[i].id == id {
                return Some(i);
            }
            i += 1;
        }
        None
    }

    pub(crate) fn find_email(&self, email: &String) -> (found: Option<usize>)
        ensures
            match found {
                Some(i) => self@.email_matches(i as int, email@),
                None => !self@.has_email(email@),
            },
    {
        let mut i: usize = 0;
        while i < self.subscribers.len()
            invariant
                i <= self.subscribers.len(),
                forall|j: int| 0 <= j < i ==> !self@.email_matches(j, email@),
            decreases self.subscribers.len() - i,
        {
            if self.subscribers[i].email == *email {
                return Some(i);
            }
            i += 1;
        }
        None
    }

    // ----- reading -----------------------------------------------------------

    /// The response saved for `(user_id, key)`, if the command is complete.
    pub fn get_saved_response(&self, user_id: u128, key: &IdempotencyKey) -> (saved: Option<
        Response,
    >)
        requires
            self@.wf(),
        ensures
            match saved {
                Some(response) => self@.has_saved(user_id, key@) && response@
                    == self@.saved_response(user_id, key@),
                None => !self@.has_saved(user_id, key@),
            },
    {
        match self.find_saved(user_id, key.as_string()) {
            Some(i) => {
                proof {
                    lemma_saved_index(self@, i as int, user_id, key@);
                }
                Some(self.saved[i].response.duplicate())
            },
            None => None,
        }
    }

    /// The saved row of `(user_id, key)`, if the command is complete: the
    /// response with the moment at which the command was started.
    pub fn get_cached_response(&self, user_id: u128, key: &IdempotencyKey) -> (saved: Option<
        CachedResponse,
    >)
        requires
            self@.wf(),
        ensures
            match saved {
                Some(row) => self@.has_saved(user_id, key@) && row@
                    == self@.saved[self@.saved_index(user_id, key@)],
                None => !self@.has_saved(user_id, key@),
            },
    {
        match self.find_saved(user_id, key.as_string()) {
            Some(i) => {
                proof {
                    lemma_saved_index(self@, i as int, user_id, key@);
                }
                Some(
                    CachedResponse {
                        user_id,
                        idempotency_key: self.saved[i].idempotency_key.clone(),
                        response: self.saved[i].response.duplicate(),
                        created_at: self.saved[i].created_at,
                    },
                )
            },
            None => None,
        }
    }

    /// The published issue with identifier `id`, if there is one.
    pub fn get_issue(&self, id: u128) -> (found: Option<Issue>)
        requires
            self@.wf(),
        ensures
            match found {
                Some(issue) => self@.has_issue(id) && issue@ == self@.issue(id),
                None => !self@.has_issue(id),
            },
    {
        match self.find_issue(id) {
            Some(i) => {
                proof {
                    lemma_issue_index(self@, i as int, id);
                }
                Some(self.issues[i].duplicate())
            },
            None => None,
        }
    }

    /// The subscriber with identifier `id`, if there is one.
    pub fn get_subscriber(&self, id: u128) -> (found: Option<Subscriber>)
        requires
            self@.wf(),
        ensures
            match found {
                Some(subscriber) => self@.has_subscriber(id) && subscriber@
                    == self@.subscribers[self@.subscriber_index(id)],
                None => !self@.has_subscriber(id),
            },
    {
        match self.find_subscriber(id) {
            Some(i) => {
                proof {
                    lemma_subscriber_index(self@, i as int, id);
                }
                Some(
                    Subscriber {
                        id: self.subscribers[i].id,
                        email: self.subscribers[i].email.clone(),
                        name: self.subscribers[i].name.clone(),
                        confirmed: self.subscribers[i].confirmed,
                    },
                )
            },
            None => None,
        }
    }

    /// How many responses are saved.
    pub fn saved_count(&self) -> (n: usize)
        ensures
            n == self@.saved.len(),
    {
        self.saved.len()
    }

    /// How many commands are in progress.
    pub fn pending_count(&self) -> (n: usize)
        ensures
            n == self@.pending.len(),
    {
        self.pending.len()
    }

    /// How many issues are published.
    pub fn issue_count(&self) -> (n: usize)
        ensures
            n == self@.issues.len(),
    {
        self.issues.len()
    }

    /// How many delivery tasks are queued, claimed or not.
    pub fn queue_len(&self) -> (n: usize)
        ensures
            n == self@.queue.len(),
    {
        self.queue.len()
    }

    /// Whether the task `(issue_id, recipient)` is queued.
    pub fn is_queued(&self, issue_id: u128, recipient: &String) -> (queued: bool)
        ensures
            queued == self@.has_task(issue_id, recipient@),
    {
        self.find_task(issue_id, recipient).is_some()
    }

    // ----- subscribers ---------------------------------------------------------

    /// Adds a subscriber who has not confirmed yet, with the contact and the
    /// name as they are. Refused, with the store unchanged, exactly when the
    /// identifier or the address is taken.
    pub fn insert_subscriber_row(&mut self, id: u128, email: String, name: String) -> (done:
        Result<(), StoreError>)
        requires
            old(self)@.wf(),
        ensures
            final(self)@.wf(),
            final(self)@ == step(old(self)@, Op::Subscribe { id, email: email@, name: name@ }),
            match done {
                Ok(()) => !old(self)@.has_subscriber(id) && !old(self)@.has_email(email@)
                    && final(self)@ == old(self)@.subscribe(id, email@, name@),
                Err(e) => e == StoreError::DuplicateSubscriber && (old(self)@.has_subscriber(id)
                    || old(self)@.has_email(email@)) && final(self)@ == old(self)@,
            },
    {
        if self.find_subscriber(id).is_some() || self.find_email(&email).is_some() {
            return Err(StoreError::DuplicateSubscriber);
        }
        proof {
            lemma_subscribe_wf(self@, id, email@, name@);
        }
        let ghost before = self@;
        let ghost email_text = email@;
        let ghost name_text = name@;
        self.subscribers.push(Subscriber { id, email, name, confirmed: false });
        proof {
            assert(self@.subscribers =~= before.subscribe(id, email_text, name_text).subscribers);
        }
        Ok(())
    }

    /// Marks subscriber `id` as confirmed. Refused, with the store unchanged,
    /// exactly when there is no such subscriber.
    pub fn confirm_subscriber(&mut self, id: u128) -> (done: Result<(), StoreError>)
        requires
            old(self)@.wf(),
        ensures
            final(self)@.wf(),
            final(self)@ == step(old(self)@, Op::Confirm { id }),
            match done {
                Ok(()) => old(self)@.has_subscriber(id) && final(self)@ == old(self)@.confirm(id),
                Err(e) => e == StoreError::UnknownSubscriber && !old(self)@.has_subscriber(id)
                    && final(self)@ == old(self)@,
            },
    {
        match self.find_subscriber(id) {
            None => Err(StoreError::UnknownSubscriber),
            Some(i) => {
                proof {
                    lemma_subscriber_index(self@, i as int, id);
                    lemma_confirm_wf(self@, id);
                }
                let ghost before = self@;
                let mut row = self.subscribers.remove(i);
                row.confirmed = true;
                self.subscribers.insert(i, row);
                proof {
                    assert(self@.subscribers =~= before.confirm(id).subscribers);
                }
                Ok(())
            },
        }
    }
}

} // verus!
