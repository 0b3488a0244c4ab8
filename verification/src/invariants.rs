//! Every transition of the store keeps it consistent.

use crate::model::{confirmed_emails, tasks_for, IssueView, StoreView, SubscriberView};
use crate::response::ResponseView;
use vstd::prelude::*;

verus! {

/// The empty store is consistent.
pub proof fn lemma_empty_wf()
    ensures
        StoreView::empty().wf(),
{
}

/// An address occurs among the confirmed ones only if a subscriber has it.
pub proof fn lemma_confirmed_email_has_subscriber(subscribers: Seq<SubscriberView>, k: int)
    requires
        0 <= k < confirmed_emails(subscribers).len(),
    ensures
        exists|i: int|
            0 <= i < subscribers.len() && (#[trigger] subscribers[i]).confirmed && subscribers[i].email
                == confirmed_emails(subscribers)[k],
    decreases subscribers.len(),
{
    let rest = subscribers.drop_last();
    let last = subscribers.last();
    if last.confirmed && k == confirmed_emails(rest).len() {
        assert(subscribers[subscribers.len() - 1].email == confirmed_emails(subscribers)[k]);
    } else {
        lemma_confirmed_email_has_subscriber(rest, k);
        let i = choose|i: int|
            0 <= i < rest.len() && (#[trigger] rest[i]).confirmed && rest[i].email
                == confirmed_emails(rest)[k];
        assert(subscribers[i] == rest[i]);
    }
}

/// Distinct addresses in the table give distinct recipients in the snapshot.
pub proof fn lemma_confirmed_emails_distinct(subscribers: Seq<SubscriberView>)
    requires
        forall|i: int, j: int|
            0 <= i < subscribers.len() && 0 <= j < subscribers.len() && i != j ==> (
            #[trigger] subscribers[i]).email != (#[trigger] subscribers[j]).email,
    ensures
        confirmed_emails(subscribers).no_duplicates(),
    decreases subscribers.len(),
{
    if subscribers.len() > 0 {
        let rest = subscribers.drop_last();
        let last = subscribers.last();
        assert forall|i: int, j: int|
            0 <= i < rest.len() && 0 <= j < rest.len() && i != j implies (#[trigger] rest[i]).email != (
        #[trigger] rest[j]).email by {
            assert(rest[i] == subscribers[i]);
            assert(rest[j] == subscribers[j]);
        }
        lemma_confirmed_emails_distinct(rest);
        if last.confirmed {
            let emails = confirmed_emails(rest);
            assert forall|k: int| 0 <= k < emails.len() implies emails[k] != last.email by {
                lemma_confirmed_email_has_subscriber(rest, k);
                let i = choose|i: int|
                    0 <= i < rest.len() && (#[trigger] rest[i]).confirmed && rest[i].email
                        == emails[k];
                assert(rest[i] == subscribers[i]);
                assert(subscribers[subscribers.len() - 1] == last);
            }
        }
    }
}

/// Beginning a command that has no record keeps the store consistent and
/// puts the command in progress, with nothing written yet.
pub proof fn lemma_begin_wf(s: StoreView, user_id: u128, key: Seq<char>, now: i64)
    requires
        s.wf(),
        s.phase(user_id, key) is NoRecord,
    ensures
        s.begin(user_id, key, now).wf(),
        s.begin(user_id, key, now).phase(user_id, key) is InProgress,
        s.begin(user_id, key, now).pending_index(user_id, key) == s.pending.len(),
{
    let t = s.begin(user_id, key, now);
    assert forall|i: int, j: int|
        0 <= i < t.pending.len() && 0 <= j < t.pending.len() && i != j implies !((
    #[trigger] t.pending[i]).user_id == (#[trigger] t.pending[j]).user_id && t.pending[i].key
        == t.pending[j].key) by {
        if i < s.pending.len() && j == s.pending.len() {
            assert(!s.pending_matches(i, user_id, key));
        }
        if j < s.pending.len() && i == s.pending.len() {
            assert(!s.pending_matches(j, user_id, key));
        }
    }
    assert forall|i: int, j: int|
        0 <= i < t.pending.len() && 0 <= j < t.saved.len() implies !((
    #[trigger] t.pending[i]).user_id == (#[trigger] t.saved[j]).user_id && t.pending[i].key
        == t.saved[j].key) by {
        if i == s.pending.len() {
            assert(!s.saved_matches(j, user_id, key));
        }
    }
    assert(t.queue_refers_to_issues()) by {
        assert forall|i: int| 0 <= i < t.queue.len() implies t.has_issue(
            (#[trigger] t.queue[i]).issue_id,
        ) by {
            let w = s.issue_index(s.queue[i].issue_id);
            assert(s.issue_matches(w, s.queue[i].issue_id));
            assert(t.issue_matches(w, t.queue[i].issue_id));
        }
    }
    assert(t.pending_matches(s.pending.len() as int, user_id, key));
    crate::model::lemma_pending_index(t, s.pending.len() as int, user_id, key);
    assert(!t.has_saved(user_id, key)) by {
        if t.has_saved(user_id, key) {
            let j = t.saved_index(user_id, key);
            assert(s.saved_matches(j, user_id, key));
        }
    }
}

/// Changing what a transaction has written, and nothing else, keeps every
/// part of consistency that does not speak of it.
pub proof fn lemma_stage_frame(s: StoreView, t: StoreView)
    requires
        s.wf(),
        t.saved == s.saved,
        t.issues == s.issues,
        t.queue == s.queue,
        t.subscribers == s.subscribers,
        t.pending.len() == s.pending.len(),
        forall|i: int|
            0 <= i < s.pending.len() ==> (#[trigger] t.pending[i]).user_id == s.pending[i].user_id
                && t.pending[i].key == s.pending[i].key,
        t.pending_staged(),
    ensures
        t.wf(),
        forall|user_id: u128, key: Seq<char>|
            #![trigger t.has_pending(user_id, key)]
            #![trigger t.pending_index(user_id, key)]
            s.has_pending(user_id, key) ==> t.has_pending(user_id, key) && t.pending_index(
                user_id,
                key,
            ) == s.pending_index(user_id, key),
        forall|user_id: u128, key: Seq<char>|
            #![trigger t.phase(user_id, key)]
            t.phase(user_id, key) == s.phase(user_id, key),
{
    assert(t.queue_refers_to_issues()) by {
        assert forall|i: int| 0 <= i < t.queue.len() implies t.has_issue(
            (#[trigger] t.queue[i]).issue_id,
        ) by {
            let w = s.issue_index(s.queue[i].issue_id);
            assert(s.issue_matches(w, s.queue[i].issue_id));
            assert(t.issue_matches(w, t.queue[i].issue_id));
        }
    }
    assert forall|user_id: u128, key: Seq<char>| s.has_pending(user_id, key) implies t.has_pending(
        user_id,
        key,
    ) && t.pending_index(user_id, key) == s.pending_index(user_id, key) by {
        let i = s.pending_index(user_id, key);
        assert(s.pending_matches(i, user_id, key));
        assert(t.pending_matches(i, user_id, key));
        crate::model::lemma_pending_index(t, i, user_id, key);
    }
    assert forall|user_id: u128, key: Seq<char>|
        t.phase(user_id, key) == s.phase(user_id, key) by {
        if s.has_saved(user_id, key) {
            let i = s.saved_index(user_id, key);
            assert(t.saved_matches(i, user_id, key));
        }
        if t.has_saved(user_id, key) {
            let i = t.saved_index(user_id, key);
            assert(s.saved_matches(i, user_id, key));
        }
        if t.has_pending(user_id, key) {
            let i = t.pending_index(user_id, key);
            assert(t.pending_matches(i, user_id, key));
            assert(s.pending_matches(i, user_id, key));
        }
    }
}

/// Inserting an issue in an open transaction keeps the store consistent.
pub proof fn lemma_stage_issue_wf(s: StoreView, user_id: u128, key: Seq<char>, issue: IssueView)
    requires
        s.wf(),
        s.has_pending(user_id, key),
    ensures
        s.stage_issue(user_id, key, issue).wf(),
        s.stage_issue(user_id, key, issue).has_pending(user_id, key),
        s.stage_issue(user_id, key, issue).pending_index(user_id, key) == s.pending_index(
            user_id,
            key,
        ),
{
    let i = s.pending_index(user_id, key);
    assert(s.pending_matches(i, user_id, key));
    lemma_stage_frame(s, s.stage_issue(user_id, key, issue));
}

/// Taking the snapshot of recipients in a transaction that has inserted its
/// issue keeps the store consistent.
pub proof fn lemma_stage_tasks_wf(s: StoreView, user_id: u128, key: Seq<char>)
    requires
        s.wf(),
        s.has_pending(user_id, key),
        s.pending_of(user_id, key).issue is Some,
    ensures
        s.stage_tasks(user_id, key).wf(),
        s.stage_tasks(user_id, key).has_pending(user_id, key),
        s.stage_tasks(user_id, key).pending_index(user_id, key) == s.pending_index(user_id, key),
{
    let i = s.pending_index(user_id, key);
    assert(s.pending_matches(i, user_id, key));
    lemma_confirmed_emails_distinct(s.subscribers);
    lemma_stage_frame(s, s.stage_tasks(user_id, key));
}

/// Removing a transaction, and nothing else, keeps the store consistent.
pub proof fn lemma_rollback_wf(s: StoreView, user_id: u128, key: Seq<char>)
    requires
        s.wf(),
        s.has_pending(user_id, key),
    ensures
        s.rollback(user_id, key).wf(),
        s.rollback(user_id, key).phase(user_id, key) is NoRecord,
{
    let t = s.rollback(user_id, key);
    let i = s.pending_index(user_id, key);
    assert(s.pending_matches(i, user_id, key));
    assert forall|a: int| 0 <= a < t.pending.len() implies #[trigger] t.pending[a] == s.pending[if a
        < i {
        a
    } else {
        a + 1
    }] by {}
    assert(t.queue_refers_to_issues()) by {
        assert forall|k: int| 0 <= k < t.queue.len() implies t.has_issue(
            (#[trigger] t.queue[k]).issue_id,
        ) by {
            let w = s.issue_index(s.queue[k].issue_id);
            assert(s.issue_matches(w, s.queue[k].issue_id));
            assert(t.issue_matches(w, t.queue[k].issue_id));
        }
    }
    assert(!t.has_pending(user_id, key)) by {
        if t.has_pending(user_id, key) {
            let a = t.pending_index(user_id, key);
            assert(t.pending_matches(a, user_id, key));
            let b = if a < i {
                a
            } else {
                a + 1
            };
            assert(s.pending_matches(b, user_id, key));
        }
    }
    assert(!t.has_saved(user_id, key)) by {
        if t.has_saved(user_id, key) {
            let j = t.saved_index(user_id, key);
            assert(s.saved_matches(j, user_id, key));
        }
    }
}

/// Committing a transaction whose issue is still fresh keeps the store
/// consistent, completes the command with the given response, and leaves
/// every response saved before as it was.
pub proof fn lemma_commit_wf(s: StoreView, user_id: u128, key: Seq<char>, response: ResponseView)
    requires
        s.wf(),
        s.can_commit(user_id, key),
    ensures
        s.commit(user_id, key, response).wf(),
        s.commit(user_id, key, response).phase(user_id, key) is Complete,
        s.commit(user_id, key, response).saved_response(user_id, key) == response,
        !s.commit(user_id, key, response).has_pending(user_id, key),
{
    let t = s.commit(user_id, key, response);
    let i = s.pending_index(user_id, key);
    assert(s.pending_matches(i, user_id, key));
    let p = s.pending[i];
    assert forall|a: int| 0 <= a < t.pending.len() implies #[trigger] t.pending[a] == s.pending[if a
        < i {
        a
    } else {
        a + 1
    }] by {}
    assert(t.saved_unique()) by {
        assert forall|a: int, b: int|
            0 <= a < t.saved.len() && 0 <= b < t.saved.len() && a != b implies !((
        #[trigger] t.saved[a]).user_id == (#[trigger] t.saved[b]).user_id && t.saved[a].key
            == t.saved[b].key) by {
            if a < s.saved.len() && b == s.saved.len() {
                assert(s.saved[a] == t.saved[a]);
            }
            if b < s.saved.len() && a == s.saved.len() {
                assert(s.saved[b] == t.saved[b]);
            }
        }
    }
    assert(t.pending_not_saved()) by {
        assert forall|a: int, b: int|
            0 <= a < t.pending.len() && 0 <= b < t.saved.len() implies !((
        #[trigger] t.pending[a]).user_id == (#[trigger] t.saved[b]).user_id && t.pending[a].key
            == t.saved[b].key) by {
            let a0 = if a < i {
                a
            } else {
                a + 1
            };
            assert(t.pending[a] == s.pending[a0]);
            if b < s.saved.len() {
                assert(t.saved[b] == s.saved[b]);
            }
        }
    }
    assert(t.issues_unique()) by {
        if let Some(issue) = p.issue {
            assert forall|a: int, b: int|
                0 <= a < t.issues.len() && 0 <= b < t.issues.len() && a != b implies (
            #[trigger] t.issues[a]).id != (#[trigger] t.issues[b]).id by {
                if a < s.issues.len() && b == s.issues.len() {
                    assert(!s.issue_matches(a, issue.id));
                }
                if b < s.issues.len() && a == s.issues.len() {
                    assert(!s.issue_matches(b, issue.id));
                }
            }
        }
    }
    assert(t.queue_refers_to_issues()) by {
        assert forall|k: int| 0 <= k < t.queue.len() implies t.has_issue(
            (#[trigger] t.queue[k]).issue_id,
        ) by {
            if k < s.queue.len() {
                let w = s.issue_index(s.queue[k].issue_id);
                assert(s.issue_matches(w, s.queue[k].issue_id));
                assert(t.issue_matches(w, t.queue[k].issue_id));
            } else {
                assert(t.issue_matches(s.issues.len() as int, t.queue[k].issue_id));
            }
        }
    }
    assert(t.queue_unique()) by {
        if p.issue is Some && p.recipients is Some {
            let issue = p.issue->0;
            let recipients = p.recipients->0;
            let fresh = tasks_for(issue.id, recipients);
            assert forall|a: int, b: int|
                0 <= a < t.queue.len() && 0 <= b < t.queue.len() && a != b implies !((
            #[trigger] t.queue[a]).issue_id == (#[trigger] t.queue[b]).issue_id
                && t.queue[a].recipient == t.queue[b].recipient) by {
                let n = s.queue.len() as int;
                if a < n && b >= n {
                    let w = s.issue_index(s.queue[a].issue_id);
                    assert(s.issue_matches(w, s.queue[a].issue_id));
                    assert(!s.issue_matches(w, issue.id));
                }
                if b < n && a >= n {
                    let w = s.issue_index(s.queue[b].issue_id);
                    assert(s.issue_matches(w, s.queue[b].issue_id));
                    assert(!s.issue_matches(w, issue.id));
                }
                if a >= n && b >= n {
                    assert(t.queue[a].recipient == recipients[a - n]);
                    assert(t.queue[b].recipient == recipients[b - n]);
                }
            }
        }
    }
    assert(t.saved_matches(s.saved.len() as int, user_id, key));
    crate::model::lemma_saved_index(t, s.saved.len() as int, user_id, key);
    assert(!t.has_pending(user_id, key)) by {
        if t.has_pending(user_id, key) {
            let a = t.pending_index(user_id, key);
            assert(t.pending_matches(a, user_id, key));
            let b = if a < i {
                a
            } else {
                a + 1
            };
            assert(s.pending_matches(b, user_id, key));
        }
    }
}

/// Claiming, releasing and retiring a task keep the store consistent.
pub proof fn lemma_claim_wf(s: StoreView)
    requires
        s.wf(),
        s.has_next_task(),
    ensures
        s.claim_next().wf(),
{
    let t = s.claim_next();
    let i = s.next_task_index();
    assert(s.is_next_task(i));
    lemma_queue_flag_frame(s, t);
}

pub proof fn lemma_release_wf(s: StoreView, issue_id: u128, recipient: Seq<char>)
    requires
        s.wf(),
        s.has_task(issue_id, recipient),
    ensures
        s.release(issue_id, recipient).wf(),
{
    let t = s.release(issue_id, recipient);
    let i = s.task_index(issue_id, recipient);
    assert(s.task_matches(i, issue_id, recipient));
    lemma_queue_flag_frame(s, t);
}

/// Changing who holds which task, and nothing else, keeps the store
/// consistent.
pub proof fn lemma_queue_flag_frame(s: StoreView, t: StoreView)
    requires
        s.wf(),
        t.saved == s.saved,
        t.pending == s.pending,
        t.issues == s.issues,
        t.subscribers == s.subscribers,
        t.queue.len() == s.queue.len(),
        forall|i: int|
            0 <= i < s.queue.len() ==> (#[trigger] t.queue[i]).issue_id == s.queue[i].issue_id
                && t.queue[i].recipient == s.queue[i].recipient,
    ensures
        t.wf(),
{
    assert(t.queue_refers_to_issues()) by {
        assert forall|k: int| 0 <= k < t.queue.len() implies t.has_issue(
            (#[trigger] t.queue[k]).issue_id,
        ) by {
            let w = s.issue_index(s.queue[k].issue_id);
            assert(s.issue_matches(w, s.queue[k].issue_id));
            assert(t.issue_matches(w, t.queue[k].issue_id));
        }
    }
}

pub proof fn lemma_retire_wf(s: StoreView, issue_id: u128, recipient: Seq<char>)
    requires
        s.wf(),
        s.has_task(issue_id, recipient),
    ensures
        s.retire(issue_id, recipient).wf(),
        !s.retire(issue_id, recipient).has_task(issue_id, recipient),
{
    let t = s.retire(issue_id, recipient);
    let i = s.task_index(issue_id, recipient);
    assert(s.task_matches(i, issue_id, recipient));
    assert forall|a: int| 0 <= a < t.queue.len() implies #[trigger] t.queue[a] == s.queue[if a < i {
        a
    } else {
        a + 1
    }] by {}
    assert(t.queue_refers_to_issues()) by {
        assert forall|k: int| 0 <= k < t.queue.len() implies t.has_issue(
            (#[trigger] t.queue[k]).issue_id,
        ) by {
            let k0 = if k < i {
                k
            } else {
                k + 1
            };
            let w = s.issue_index(s.queue[k0].issue_id);
            assert(s.issue_matches(w, s.queue[k0].issue_id));
            assert(t.issue_matches(w, t.queue[k].issue_id));
        }
    }
    assert(!t.has_task(issue_id, recipient)) by {
        if t.has_task(issue_id, recipient) {
            let a = t.task_index(issue_id, recipient);
            assert(t.task_matches(a, issue_id, recipient));
            let b = if a < i {
                a
            } else {
                a + 1
            };
            assert(s.task_matches(b, issue_id, recipient));
        }
    }
}

/// A subscriber with a new identifier and a new address keeps the store
/// consistent.
pub proof fn lemma_subscribe_wf(s: StoreView, id: u128, email: Seq<char>, name: Seq<char>)
    requires
        s.wf(),
        !s.has_subscriber(id),
        !s.has_email(email),
    ensures
        s.subscribe(id, email, name).wf(),
{
    let t = s.subscribe(id, email, name);
    assert forall|i: int, j: int|
        0 <= i < t.subscribers.len() && 0 <= j < t.subscribers.len() && i != j implies (
    #[trigger] t.subscribers[i]).id != (#[trigger] t.subscribers[j]).id && t.subscribers[i].email
        != t.subscribers[j].email by {
        if i < s.subscribers.len() && j == s.subscribers.len() {
            assert(!s.subscriber_matches(i, id));
            assert(!s.email_matches(i, email));
        }
        if j < s.subscribers.len() && i == s.subscribers.len() {
            assert(!s.subscriber_matches(j, id));
            assert(!s.email_matches(j, email));
        }
    }
    assert(t.queue_refers_to_issues()) by {
        assert forall|k: int| 0 <= k < t.queue.len() implies t.has_issue(
            (#[trigger] t.queue[k]).issue_id,
        ) by {
            let w = s.issue_index(s.queue[k].issue_id);
            assert(s.issue_matches(w, s.queue[k].issue_id));
            assert(t.issue_matches(w, t.queue[k].issue_id));
        }
    }
}

/// Confirming a subscriber keeps the store consistent.
pub proof fn lemma_confirm_wf(s: StoreView, id: u128)
    requires
        s.wf(),
        s.has_subscriber(id),
    ensures
        s.confirm(id).wf(),
{
    let t = s.confirm(id);
    let i = s.subscriber_index(id);
    assert(s.subscriber_matches(i, id));
    assert(t.queue_refers_to_issues()) by {
        assert forall|k: int| 0 <= k < t.queue.len() implies t.has_issue(
            (#[trigger] t.queue[k]).issue_id,
        ) by {
            let w = s.issue_index(s.queue[k].issue_id);
            assert(s.issue_matches(w, s.queue[k].issue_id));
            assert(t.issue_matches(w, t.queue[k].issue_id));
        }
    }
}

} // verus!
