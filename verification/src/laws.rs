//! What the gateway, the outbox writer and the dispatcher guarantee, stated
//! of every consistent store and of every run, and proved.

use crate::dispatcher::{settled, DeliveryOutcome};
use crate::gateway::commit_refusal;
use crate::history::{lemma_run_split, lemma_run_wf, lemma_step_wf, run, step, Op};
use crate::invariants::{
    lemma_begin_wf, lemma_claim_wf, lemma_commit_wf, lemma_retire_wf, lemma_rollback_wf,
    lemma_stage_issue_wf, lemma_stage_tasks_wf,
};
use crate::key::key_rejection;
use crate::model::{
    confirmed_emails, lemma_next_task_index, lemma_saved_index, lemma_task_index, tasks_for,
    IssueView, StoreView, TaskView,
};
use crate::publish::{
    issue_of, newsletters_page, publish_result_matches, published, FormData, PublishOutcome,
};
use crate::response::{see_other_response, ResponseView};
use vstd::prelude::*;

verus! {

// ----- saved responses are final ----------------------------------------------

/// `op` is the commit that completes the command `(user_id, key)` in `s`.
pub open spec fn commits(s: StoreView, op: Op, user_id: u128, key: Seq<char>) -> bool {
    op matches Op::SaveResponse { user_id: u, key: k, response: _ } && u == user_id && k == key
        && commit_refusal(s, user_id, key) is None
}

/// The response that `op` hands to a submitter of the command
/// `(user_id, key)` in `s`: the saved one where the gateway replays, the new
/// one where the transaction commits, none otherwise.
pub open spec fn reply(s: StoreView, op: Op, user_id: u128, key: Seq<char>) -> Option<
    ResponseView,
> {
    match op {
        Op::TryProcessing { user_id: u, key: k, now: _ } => if u == user_id && k == key
            && s.has_saved(u, k) {
            Some(s.saved_response(u, k))
        } else {
            None
        },
        Op::SaveResponse { user_id: u, key: k, response } => if u == user_id && k == key
            && commit_refusal(s, u, k) is None {
            Some(response)
        } else {
            None
        },
        _ => None,
    }
}

/// An operation saves a response only by committing the command, never
/// changes one that is saved, and never removes one.
pub proof fn lemma_saved_step(s: StoreView, op: Op, user_id: u128, key: Seq<char>)
    requires
        s.wf(),
    ensures
        step(s, op).has_saved(user_id, key) <==> s.has_saved(user_id, key) || commits(
            s,
            op,
            user_id,
            key,
        ),
        s.has_saved(user_id, key) ==> step(s, op).saved_response(user_id, key) == s.saved_response(
            user_id,
            key,
        ),
        commits(s, op, user_id, key) ==> !s.has_saved(user_id, key) && Some(
            step(s, op).saved_response(user_id, key),
        ) == reply(s, op, user_id, key),
{
    let t = step(s, op);
    lemma_step_wf(s, op);
    let committing = op matches Op::SaveResponse { user_id: u, key: k, response: _ }
        && commit_refusal(s, u, k) is None;
    if committing {
        let u = op->SaveResponse_user_id;
        let k = op->SaveResponse_key;
        let r = op->response;
        assert(t == s.commit(u, k, r));
        lemma_commit_wf(s, u, k, r);
        assert(t.saved == s.saved.push(t.saved[s.saved.len() as int]));
        let i = s.pending_index(u, k);
        assert(s.pending_matches(i, u, k));
        if s.has_saved(user_id, key) {
            let j = s.saved_index(user_id, key);
            assert(s.saved_matches(j, user_id, key));
            assert(t.saved_matches(j, user_id, key));
            lemma_saved_index(t, j, user_id, key);
            assert(!(u == user_id && k == key));
        }
        if t.has_saved(user_id, key) {
            let j = t.saved_index(user_id, key);
            assert(t.saved_matches(j, user_id, key));
            if j < s.saved.len() {
                assert(s.saved_matches(j, user_id, key));
            }
        }
    } else {
        assert(t.saved == s.saved);
        if s.has_saved(user_id, key) {
            let j = s.saved_index(user_id, key);
            assert(s.saved_matches(j, user_id, key));
            assert(t.saved_matches(j, user_id, key));
            lemma_saved_index(t, j, user_id, key);
        }
        if t.has_saved(user_id, key) {
            let j = t.saved_index(user_id, key);
            assert(t.saved_matches(j, user_id, key));
            assert(s.saved_matches(j, user_id, key));
        }
    }
}

/// A saved response is final: whatever happens afterwards, the command
/// stays complete and its response stays what it was.
pub proof fn law_saved_response_is_final(
    s: StoreView,
    ops: Seq<Op>,
    user_id: u128,
    key: Seq<char>,
)
    requires
        s.wf(),
        s.has_saved(user_id, key),
    ensures
        run(s, ops).has_saved(user_id, key),
        run(s, ops).saved_response(user_id, key) == s.saved_response(user_id, key),
    decreases ops.len(),
{
    if ops.len() > 0 {
        law_saved_response_is_final(s, ops.drop_last(), user_id, key);
        lemma_run_wf(s, ops.drop_last());
        lemma_saved_step(run(s, ops.drop_last()), ops.last(), user_id, key);
    }
}

// ----- idempotence --------------------------------------------------------------

/// What the first submission of a command leaves behind: one response, one
/// issue, one task for each subscriber confirmed at that moment, and no
/// transaction.
pub proof fn lemma_published(s: StoreView, user_id: u128, form: FormData, id: u128, now: i64)
    requires
        s.wf(),
        s.phase(user_id, form.idempotency_key@) is NoRecord,
        !s.has_issue(id),
    ensures
        published(s, user_id, form, id, now).wf(),
        published(s, user_id, form, id, now).has_saved(user_id, form.idempotency_key@),
        published(s, user_id, form, id, now).saved_response(user_id, form.idempotency_key@)
            == see_other_response(newsletters_page()),
        published(s, user_id, form, id, now).saved.len() == s.saved.len() + 1,
        published(s, user_id, form, id, now).issues == s.issues.push(issue_of(form, id, now)),
        published(s, user_id, form, id, now).queue == s.queue + tasks_for(
            id,
            confirmed_emails(s.subscribers),
        ),
        published(s, user_id, form, id, now).pending == s.pending,
        published(s, user_id, form, id, now).subscribers == s.subscribers,
{
    let key = form.idempotency_key@;
    let issue = issue_of(form, id, now);
    let n = s.pending.len() as int;
    let a = s.begin(user_id, key, now);
    lemma_begin_wf(s, user_id, key, now);
    assert(a.pending_matches(n, user_id, key));
    let b = a.stage_issue(user_id, key, issue);
    lemma_stage_issue_wf(a, user_id, key, issue);
    let c = b.stage_tasks(user_id, key);
    lemma_stage_tasks_wf(b, user_id, key);
    assert(c.pending_index(user_id, key) == n);
    assert(c.has_pending(user_id, key));
    assert(!c.has_issue(id)) by {
        if c.has_issue(id) {
            assert(s.issue_matches(c.issue_index(id), id));
        }
    }
    assert(c.can_commit(user_id, key));
    lemma_commit_wf(c, user_id, key, see_other_response(newsletters_page()));
    let d = c.commit(user_id, key, see_other_response(newsletters_page()));
    assert(d.pending =~= s.pending);
}

/// Idempotence. Once a command has been accepted, every later submission
/// with the same user and key, whatever else it holds and whatever has
/// happened in between, is answered with the response of the first, byte
/// for byte, and changes nothing: the issue and its tasks exist once.
pub proof fn law_idempotence(
    s: StoreView,
    user_id: u128,
    first: FormData,
    first_id: u128,
    first_now: i64,
    between: Seq<Op>,
    again: FormData,
    again_id: u128,
    again_now: i64,
    after: StoreView,
    outcome: PublishOutcome,
)
    requires
        s.wf(),
        key_rejection(first.idempotency_key@) is None,
        s.phase(user_id, first.idempotency_key@) is NoRecord,
        !s.has_issue(first_id),
        again.idempotency_key@ == first.idempotency_key@,
        publish_result_matches(
            run(published(s, user_id, first, first_id, first_now), between),
            after,
            outcome,
            user_id,
            again,
            again_id,
            again_now,
        ),
    ensures
        outcome matches PublishOutcome::Replayed(response) && response@ == see_other_response(
            newsletters_page(),
        ),
        after == run(published(s, user_id, first, first_id, first_now), between),
{
    let key = first.idempotency_key@;
    let accepted = published(s, user_id, first, first_id, first_now);
    lemma_published(s, user_id, first, first_id, first_now);
    law_saved_response_is_final(accepted, between, user_id, key);
}

// ----- atomicity ----------------------------------------------------------------

/// What a transaction has written is invisible while it is open: the saved
/// responses, the issues and the queue are those of before.
pub proof fn law_uncommitted_is_invisible(s: StoreView, op: Op)
    requires
        s.wf(),
        op is InsertIssue || op is EnqueueTasks || op is TryProcessing || op is Rollback,
    ensures
        step(s, op).saved == s.saved,
        step(s, op).issues == s.issues,
        step(s, op).queue == s.queue,
        step(s, op).subscribers == s.subscribers,
{
}

/// Atomicity. A command that fails after the issue is inserted and before
/// the tasks are enqueued leaves no trace: while its transaction is open
/// neither the issue nor any task is visible, and once it is rolled back the
/// store is what it was and the command can be started again.
pub proof fn law_atomicity(s: StoreView, user_id: u128, key: Seq<char>, now: i64, issue: IssueView)
    requires
        s.wf(),
        s.phase(user_id, key) is NoRecord,
    ensures
        ({
            let open = s.begin(user_id, key, now).stage_issue(user_id, key, issue);
            &&& open.saved == s.saved
            &&& open.issues == s.issues
            &&& open.queue == s.queue
            &&& open.rollback(user_id, key) == s
            &&& open.rollback(user_id, key).phase(user_id, key) is NoRecord
        }),
{
    let n = s.pending.len() as int;
    let a = s.begin(user_id, key, now);
    lemma_begin_wf(s, user_id, key, now);
    assert(a.pending_matches(n, user_id, key));
    let b = a.stage_issue(user_id, key, issue);
    lemma_stage_issue_wf(a, user_id, key, issue);
    assert(b.pending_index(user_id, key) == n);
    assert(b.rollback(user_id, key).pending =~= s.pending);
}

/// Rolling back an open transaction, at whatever point, leaves the saved
/// responses, the issues, the queue and the subscribers as they are, and
/// the command without a record.
pub proof fn law_rollback_leaves_no_trace(s: StoreView, user_id: u128, key: Seq<char>)
    requires
        s.wf(),
        s.has_pending(user_id, key),
    ensures
        s.rollback(user_id, key).wf(),
        s.rollback(user_id, key).saved == s.saved,
        s.rollback(user_id, key).issues == s.issues,
        s.rollback(user_id, key).queue == s.queue,
        s.rollback(user_id, key).subscribers == s.subscribers,
        s.rollback(user_id, key).phase(user_id, key) is NoRecord,
{
    lemma_rollback_wf(s, user_id, key);
}

// ----- one execution, one response -----------------------------------------------

/// How many times the command `(user_id, key)` is committed in the run of
/// `ops` from `s`.
pub open spec fn commit_count(s: StoreView, ops: Seq<Op>, user_id: u128, key: Seq<char>) -> nat
    decreases ops.len(),
{
    if ops.len() == 0 {
        0
    } else {
        commit_count(s, ops.drop_last(), user_id, key) + if commits(
            run(s, ops.drop_last()),
            ops.last(),
            user_id,
            key,
        ) {
            1nat
        } else {
            0nat
        }
    }
}

/// Mutual exclusion. While a transaction holds a command, the gateway
/// starts no second one for it and the store does not move: the submitter is
/// told to wait.
pub proof fn law_in_progress_excludes(s: StoreView, user_id: u128, key: Seq<char>, now: i64)
    requires
        s.wf(),
        s.has_pending(user_id, key),
    ensures
        s.phase(user_id, key) is InProgress,
        step(s, Op::TryProcessing { user_id, key, now }) == s,
{
    let i = s.pending_index(user_id, key);
    assert(s.pending_matches(i, user_id, key));
    if s.has_saved(user_id, key) {
        let j = s.saved_index(user_id, key);
        assert(s.saved_matches(j, user_id, key));
    }
}

/// A command that has no saved response is committed at most once in any
/// run, and exactly once where the run leaves it complete.
pub proof fn lemma_commit_count(s: StoreView, ops: Seq<Op>, user_id: u128, key: Seq<char>)
    requires
        s.wf(),
        !s.has_saved(user_id, key),
    ensures
        commit_count(s, ops, user_id, key) == if run(s, ops).has_saved(user_id, key) {
            1nat
        } else {
            0nat
        },
    decreases ops.len(),
{
    if ops.len() > 0 {
        lemma_commit_count(s, ops.drop_last(), user_id, key);
        lemma_run_wf(s, ops.drop_last());
        lemma_saved_step(run(s, ops.drop_last()), ops.last(), user_id, key);
    }
}

/// Concurrency safety. However many submissions of one command run at once,
/// and in whatever order their steps fall, the command is committed at most
/// once, it is committed exactly once where the run leaves it complete, and
/// every response that any of the submitters is handed, by the commit or by
/// a replay, is the one response that is saved.
pub proof fn law_single_execution(s: StoreView, ops: Seq<Op>, user_id: u128, key: Seq<char>)
    requires
        s.wf(),
        !s.has_saved(user_id, key),
    ensures
        commit_count(s, ops, user_id, key) <= 1,
        commit_count(s, ops, user_id, key) == 1 <==> run(s, ops).has_saved(user_id, key),
        forall|i: int|
            0 <= i < ops.len() && (#[trigger] reply(run(s, ops.take(i)), ops[i], user_id, key))
                is Some ==> run(s, ops).has_saved(user_id, key) && reply(
                run(s, ops.take(i)),
                ops[i],
                user_id,
                key,
            ) == Some(run(s, ops).saved_response(user_id, key)),
{
    lemma_commit_count(s, ops, user_id, key);
    assert forall|i: int|
        0 <= i < ops.len() && (#[trigger] reply(run(s, ops.take(i)), ops[i], user_id, key))
            is Some implies run(s, ops).has_saved(user_id, key) && reply(
        run(s, ops.take(i)),
        ops[i],
        user_id,
        key,
    ) == Some(run(s, ops).saved_response(user_id, key)) by {
        let before = run(s, ops.take(i));
        let op = ops[i];
        lemma_run_wf(s, ops.take(i));
        lemma_saved_step(before, op, user_id, key);
        lemma_step_wf(before, op);
        let upto = ops.take(i + 1);
        assert(upto.drop_last() =~= ops.take(i));
        assert(upto.last() == op);
        assert(run(s, upto) == step(before, op));
        assert(ops =~= upto + ops.skip(i + 1));
        lemma_run_split(s, upto, ops.skip(i + 1));
        law_saved_response_is_final(step(before, op), ops.skip(i + 1), user_id, key);
    }
}

// ----- the dispatcher --------------------------------------------------------------

/// `op` is the settlement that retires the task `(issue_id, recipient)` in
/// `s`: the dispatcher that holds it reports an outcome that is not a
/// transient failure.
pub open spec fn retires(s: StoreView, op: Op, issue_id: u128, recipient: Seq<char>) -> bool {
    op matches Op::Settle { issue_id: i, recipient: r, outcome } && i == issue_id && r
        == recipient && s.is_claimed(issue_id, recipient) && outcome.is_terminal()
}

/// Retiring one task leaves every other task queued, in order, and held or
/// free as it was.
pub proof fn lemma_retire_frame(
    s: StoreView,
    issue_id: u128,
    recipient: Seq<char>,
    other_issue: u128,
    other_recipient: Seq<char>,
)
    requires
        s.wf(),
        s.has_task(issue_id, recipient),
        !(other_issue == issue_id && other_recipient == recipient),
    ensures
        s.retire(issue_id, recipient).has_task(other_issue, other_recipient) == s.has_task(
            other_issue,
            other_recipient,
        ),
        s.retire(issue_id, recipient).is_claimed(other_issue, other_recipient) == s.is_claimed(
            other_issue,
            other_recipient,
        ),
{
    let t = s.retire(issue_id, recipient);
    lemma_retire_wf(s, issue_id, recipient);
    let i = s.task_index(issue_id, recipient);
    assert(s.task_matches(i, issue_id, recipient));
    if s.has_task(other_issue, other_recipient) {
        let a = s.task_index(other_issue, other_recipient);
        assert(s.task_matches(a, other_issue, other_recipient));
        let b = if a < i {
            a
        } else {
            a - 1
        };
        assert(t.task_matches(b, other_issue, other_recipient));
        lemma_task_index(t, b, other_issue, other_recipient);
    }
    if t.has_task(other_issue, other_recipient) {
        let b = t.task_index(other_issue, other_recipient);
        assert(t.task_matches(b, other_issue, other_recipient));
        let a = if b < i {
            b
        } else {
            b + 1
        };
        assert(s.task_matches(a, other_issue, other_recipient));
        lemma_task_index(s, a, other_issue, other_recipient);
    }
}

/// Changing who holds one task leaves every task queued, and every other
/// task held or free as it was.
pub proof fn lemma_flag_frame(
    s: StoreView,
    i: int,
    claimed: bool,
    other_issue: u128,
    other_recipient: Seq<char>,
)
    requires
        s.wf(),
        0 <= i < s.queue.len(),
    ensures
        ({
            let t = StoreView {
                queue: s.queue.update(i, TaskView { claimed, ..s.queue[i] }),
                ..s
            };
            &&& t.has_task(other_issue, other_recipient) == s.has_task(
                other_issue,
                other_recipient,
            )
            &&& t.is_claimed(other_issue, other_recipient) == if s.task_matches(
                i,
                other_issue,
                other_recipient,
            ) {
                claimed
            } else {
                s.is_claimed(other_issue, other_recipient)
            }
        }),
{
    let t = StoreView { queue: s.queue.update(i, TaskView { claimed, ..s.queue[i] }), ..s };
    crate::invariants::lemma_queue_flag_frame(s, t);
    if s.has_task(other_issue, other_recipient) {
        let a = s.task_index(other_issue, other_recipient);
        assert(s.task_matches(a, other_issue, other_recipient));
        assert(t.task_matches(a, other_issue, other_recipient));
        lemma_task_index(t, a, other_issue, other_recipient);
    }
    if t.has_task(other_issue, other_recipient) {
        let a = t.task_index(other_issue, other_recipient);
        assert(t.task_matches(a, other_issue, other_recipient));
        assert(s.task_matches(a, other_issue, other_recipient));
        lemma_task_index(s, a, other_issue, other_recipient);
    }
    if s.task_matches(i, other_issue, other_recipient) {
        lemma_task_index(s, i, other_issue, other_recipient);
    }
}

/// A commit queues tasks for its own new issue only: the tasks of every
/// published issue are queued, and held or free, as they were.
pub proof fn lemma_commit_frame(
    s: StoreView,
    user_id: u128,
    key: Seq<char>,
    response: ResponseView,
    issue_id: u128,
    recipient: Seq<char>,
)
    requires
        s.wf(),
        s.can_commit(user_id, key),
        s.has_issue(issue_id),
    ensures
        s.commit(user_id, key, response).has_task(issue_id, recipient) == s.has_task(
            issue_id,
            recipient,
        ),
        s.commit(user_id, key, response).is_claimed(issue_id, recipient) == s.is_claimed(
            issue_id,
            recipient,
        ),
        s.commit(user_id, key, response).has_issue(issue_id),
{
    let t = s.commit(user_id, key, response);
    lemma_commit_wf(s, user_id, key, response);
    let w = s.issue_index(issue_id);
    assert(s.issue_matches(w, issue_id));
    assert(t.issue_matches(w, issue_id));
    if s.has_task(issue_id, recipient) {
        let a = s.task_index(issue_id, recipient);
        assert(s.task_matches(a, issue_id, recipient));
        assert(t.task_matches(a, issue_id, recipient));
        lemma_task_index(t, a, issue_id, recipient);
    }
    if t.has_task(issue_id, recipient) {
        let a = t.task_index(issue_id, recipient);
        assert(t.task_matches(a, issue_id, recipient));
        if a >= s.queue.len() {
            let p = s.pending_of(user_id, key);
            assert(p.issue is Some && p.recipients is Some);
            assert(t.queue[a].issue_id == p.issue->0.id);
            assert(false);
        }
        assert(s.task_matches(a, issue_id, recipient));
        lemma_task_index(s, a, issue_id, recipient);
    }
}

/// A published issue stays published, whatever the operation.
pub proof fn lemma_issue_step(s: StoreView, op: Op, issue_id: u128)
    requires
        s.wf(),
        s.has_issue(issue_id),
    ensures
        step(s, op).has_issue(issue_id),
{
    let t = step(s, op);
    let w = s.issue_index(issue_id);
    assert(s.issue_matches(w, issue_id));
    assert(t.issue_matches(w, issue_id));
}

/// A task of a published issue leaves the queue only by being retired, and
/// never enters it again. It passes from held to free, and from free to
/// held, only by the operations that say so.
pub proof fn lemma_task_step(s: StoreView, op: Op, issue_id: u128, recipient: Seq<char>)
    requires
        s.wf(),
        s.has_issue(issue_id),
    ensures
        step(s, op).has_task(issue_id, recipient) <==> s.has_task(issue_id, recipient) && !retires(
            s,
            op,
            issue_id,
            recipient,
        ),
        s.is_claimed(issue_id, recipient) && !(op matches Op::Settle {
            issue_id: i,
            recipient: r,
            outcome: _,
        } && i == issue_id && r == recipient) ==> step(s, op).is_claimed(issue_id, recipient),
{
    let t = step(s, op);
    match op {
        Op::SaveResponse { user_id, key, response } => {
            if commit_refusal(s, user_id, key) is None {
                lemma_commit_frame(s, user_id, key, response, issue_id, recipient);
            } else {
                lemma_queue_untouched(s, t, issue_id, recipient);
            }
        },
        Op::Dequeue => {
            if s.has_next_task() {
                let i = s.next_task_index();
                assert(s.is_next_task(i));
                lemma_flag_frame(s, i, true, issue_id, recipient);
                if s.task_matches(i, issue_id, recipient) {
                    lemma_task_index(s, i, issue_id, recipient);
                }
            } else {
                lemma_queue_untouched(s, t, issue_id, recipient);
            }
        },
        Op::Settle { issue_id: i, recipient: r, outcome } => {
            if s.is_claimed(i, r) {
                let at = s.task_index(i, r);
                assert(s.task_matches(at, i, r));
                if outcome.is_terminal() {
                    if i == issue_id && r == recipient {
                        lemma_retire_wf(s, i, r);
                    } else {
                        lemma_retire_frame(s, i, r, issue_id, recipient);
                    }
                } else {
                    lemma_flag_frame(s, at, false, issue_id, recipient);
                }
            } else {
                lemma_queue_untouched(s, t, issue_id, recipient);
            }
        },
        _ => {
            lemma_queue_untouched(s, t, issue_id, recipient);
        },
    }
}

/// Where the queue is the same, the same tasks are queued and held.
pub proof fn lemma_queue_untouched(
    s: StoreView,
    t: StoreView,
    issue_id: u128,
    recipient: Seq<char>,
)
    requires
        s.queue_unique(),
        t.queue == s.queue,
    ensures
        t.has_task(issue_id, recipient) == s.has_task(issue_id, recipient),
        t.is_claimed(issue_id, recipient) == s.is_claimed(issue_id, recipient),
{
    if s.has_task(issue_id, recipient) {
        let i = s.task_index(issue_id, recipient);
        assert(s.task_matches(i, issue_id, recipient));
        assert(t.task_matches(i, issue_id, recipient));
        lemma_task_index(t, i, issue_id, recipient);
    }
    if t.has_task(issue_id, recipient) {
        let i = t.task_index(issue_id, recipient);
        assert(t.task_matches(i, issue_id, recipient));
        assert(s.task_matches(i, issue_id, recipient));
    }
}

/// Dispatcher independence. When a task is discarded for good, because the
/// stored contact is malformed or the gateway refused it, that task alone
/// leaves the queue. Every other task, of the same issue or another, is
/// queued as before, held or free as before, and the task that the next
/// dispatcher will claim is the one it would have claimed anyway.
pub proof fn law_discard_leaves_others(
    s: StoreView,
    issue_id: u128,
    recipient: Seq<char>,
    outcome: DeliveryOutcome,
)
    requires
        s.wf(),
        s.is_claimed(issue_id, recipient),
        outcome.is_permanent_failure(),
    ensures
        ({
            let t = settled(s, issue_id, recipient, outcome);
            &&& t.wf()
            &&& !t.has_task(issue_id, recipient)
            &&& forall|i: u128, r: Seq<char>|
                !(i == issue_id && r == recipient) ==> #[trigger] t.has_task(i, r) == s.has_task(
                    i,
                    r,
                ) && t.is_claimed(i, r) == s.is_claimed(i, r)
            &&& t.has_next_task() == s.has_next_task()
            &&& s.has_next_task() ==> t.queue[t.next_task_index()] == s.queue[s.next_task_index()]
            &&& t.saved == s.saved
            &&& t.pending == s.pending
            &&& t.issues == s.issues
        }),
{
    let t = settled(s, issue_id, recipient, outcome);
    lemma_retire_wf(s, issue_id, recipient);
    let at = s.task_index(issue_id, recipient);
    assert(s.task_matches(at, issue_id, recipient));
    assert forall|i: u128, r: Seq<char>| !(i == issue_id && r == recipient) implies #[trigger] t.has_task(
        i,
        r,
    ) == s.has_task(i, r) && t.is_claimed(i, r) == s.is_claimed(i, r) by {
        lemma_retire_frame(s, issue_id, recipient, i, r);
    }
    if s.has_next_task() {
        let a = s.next_task_index();
        assert(s.is_next_task(a));
        let b = if a < at {
            a
        } else {
            a - 1
        };
        assert(t.is_next_task(b)) by {
            assert forall|j: int| 0 <= j < b implies (#[trigger] t.queue[j]).claimed by {
                let j0 = if j < at {
                    j
                } else {
                    j + 1
                };
                assert(s.queue[j0].claimed);
            }
        }
        lemma_next_task_index(t, b);
    }
    if t.has_next_task() {
        let b = t.next_task_index();
        assert(t.is_next_task(b));
        let a = if b < at {
            b
        } else {
            b + 1
        };
        assert(s.is_next_task(a)) by {
            assert forall|j: int| 0 <= j < a implies (#[trigger] s.queue[j]).claimed by {
                if j != at {
                    let j0 = if j < at {
                        j
                    } else {
                        j - 1
                    };
                    assert(t.queue[j0].claimed);
                }
            }
        }
    }
}

/// Letting go of the task that was just claimed puts the store back where
/// it was.
pub proof fn lemma_release_undoes_claim(s: StoreView)
    requires
        s.wf(),
        s.has_next_task(),
    ensures
        ({
            let task = s.queue[s.next_task_index()];
            &&& s.claim_next().is_claimed(task.issue_id, task.recipient)
            &&& s.claim_next().release(task.issue_id, task.recipient) == s
        }),
{
    let i = s.next_task_index();
    assert(s.is_next_task(i));
    let task = s.queue[i];
    let c = s.claim_next();
    lemma_claim_wf(s);
    assert(c.task_matches(i, task.issue_id, task.recipient));
    lemma_task_index(c, i, task.issue_id, task.recipient);
    assert(c.release(task.issue_id, task.recipient).queue =~= s.queue);
}

/// The store after `n` attempts on the next free task that all failed
/// transiently: each time the task is claimed and then let go.
pub open spec fn after_failed_attempts(s: StoreView, n: nat) -> StoreView
    decreases n,
{
    if n == 0 {
        s
    } else {
        let before = after_failed_attempts(s, (n - 1) as nat);
        let task = before.queue[before.next_task_index()];
        settled(
            before.claim_next(),
            task.issue_id,
            task.recipient,
            DeliveryOutcome::TransientFailure,
        )
    }
}

/// Dispatcher retry. A task that fails transiently stays queued and free to
/// be claimed: after any number of such attempts the store is what it was.
/// The attempt that then succeeds removes the task, and only the task.
pub proof fn law_retry(s: StoreView, n: nat)
    requires
        s.wf(),
        s.has_next_task(),
    ensures
        after_failed_attempts(s, n) == s,
        ({
            let task = s.queue[s.next_task_index()];
            let done = settled(
                after_failed_attempts(s, n).claim_next(),
                task.issue_id,
                task.recipient,
                DeliveryOutcome::Delivered,
            );
            &&& s.has_task(task.issue_id, task.recipient)
            &&& !done.has_task(task.issue_id, task.recipient)
            &&& done.queue == s.queue.remove(s.next_task_index())
        }),
    decreases n,
{
    let i = s.next_task_index();
    assert(s.is_next_task(i));
    let task = s.queue[i];
    assert(s.task_matches(i, task.issue_id, task.recipient));
    if n > 0 {
        law_retry(s, (n - 1) as nat);
    }
    lemma_release_undoes_claim(s);
    let c = s.claim_next();
    lemma_claim_wf(s);
    assert(c.task_matches(i, task.issue_id, task.recipient));
    lemma_task_index(c, i, task.issue_id, task.recipient);
    lemma_retire_wf(c, task.issue_id, task.recipient);
    assert(c.retire(task.issue_id, task.recipient).queue =~= s.queue.remove(i));
}

/// How many times the task `(issue_id, recipient)` is retired in the run of
/// `ops` from `s`.
pub open spec fn retire_count(s: StoreView, ops: Seq<Op>, issue_id: u128, recipient: Seq<char>) -> nat
    decreases ops.len(),
{
    if ops.len() == 0 {
        0
    } else {
        retire_count(s, ops.drop_last(), issue_id, recipient) + if retires(
            run(s, ops.drop_last()),
            ops.last(),
            issue_id,
            recipient,
        ) {
            1nat
        } else {
            0nat
        }
    }
}

/// No double claim. A task that a dispatcher holds is not the one that the
/// next claim takes, and it stays held through every operation but its own
/// settlement.
pub proof fn law_no_double_claim(s: StoreView, op: Op, issue_id: u128, recipient: Seq<char>)
    requires
        s.wf(),
        s.is_claimed(issue_id, recipient),
    ensures
        s.has_next_task() ==> !(s.queue[s.next_task_index()].issue_id == issue_id
            && s.queue[s.next_task_index()].recipient == recipient),
        !(op matches Op::Settle { issue_id: i, recipient: r, outcome: _ } && i == issue_id && r
            == recipient) ==> step(s, op).is_claimed(issue_id, recipient),
{
    let at = s.task_index(issue_id, recipient);
    assert(s.task_matches(at, issue_id, recipient));
    assert(s.has_issue(issue_id));
    lemma_task_step(s, op, issue_id, recipient);
    if s.has_next_task() {
        let i = s.next_task_index();
        assert(s.is_next_task(i));
        if s.task_matches(i, issue_id, recipient) {
            lemma_task_index(s, i, issue_id, recipient);
        }
    }
}

/// Each task is processed once. In any run, with any number of dispatchers,
/// a queued task is retired at most once, exactly once where the run leaves
/// it gone, and once gone it is never queued again.
pub proof fn law_single_retirement(s: StoreView, ops: Seq<Op>, issue_id: u128, recipient: Seq<char>)
    requires
        s.wf(),
        s.has_task(issue_id, recipient),
    ensures
        retire_count(s, ops, issue_id, recipient) == if run(s, ops).has_task(issue_id, recipient) {
            0nat
        } else {
            1nat
        },
{
    let at = s.task_index(issue_id, recipient);
    assert(s.task_matches(at, issue_id, recipient));
    assert(s.has_issue(issue_id));
    lemma_retire_count(s, ops, issue_id, recipient);
}

/// The count of retirements of a task of a published issue, and whether the
/// task is still queued, always add up to whether it was queued at first.
pub proof fn lemma_retire_count(s: StoreView, ops: Seq<Op>, issue_id: u128, recipient: Seq<char>)
    requires
        s.wf(),
        s.has_issue(issue_id),
    ensures
        run(s, ops).has_issue(issue_id),
        retire_count(s, ops, issue_id, recipient) + (if run(s, ops).has_task(issue_id, recipient) {
            1nat
        } else {
            0nat
        }) == if s.has_task(issue_id, recipient) {
            1nat
        } else {
            0nat
        },
    decreases ops.len(),
{
    if ops.len() > 0 {
        lemma_retire_count(s, ops.drop_last(), issue_id, recipient);
        lemma_run_wf(s, ops.drop_last());
        lemma_task_step(run(s, ops.drop_last()), ops.last(), issue_id, recipient);
        lemma_issue_step(run(s, ops.drop_last()), ops.last(), issue_id);
    }
}

/// The tasks of an issue are produced once. Whatever happens after an issue
/// is published, no task is ever added for it: a task of the issue that is
/// queued at the end was queued all along.
pub proof fn law_tasks_are_never_added(
    s: StoreView,
    ops: Seq<Op>,
    issue_id: u128,
    recipient: Seq<char>,
)
    requires
        s.wf(),
        s.has_issue(issue_id),
        run(s, ops).has_task(issue_id, recipient),
    ensures
        s.has_task(issue_id, recipient),
{
    lemma_retire_count(s, ops, issue_id, recipient);
}

/// Resubmissions change nothing. Once a command is complete, any number of
/// further submissions of it leave the store exactly as it is, and each of
/// them is handed the saved response.
pub proof fn law_replays_change_nothing(s: StoreView, ops: Seq<Op>, user_id: u128, key: Seq<char>)
    requires
        s.wf(),
        s.has_saved(user_id, key),
        forall|i: int|
            0 <= i < ops.len() ==> (#[trigger] ops[i] matches Op::TryProcessing {
                user_id: u,
                key: k,
                now: _,
            } && u == user_id && k == key),
    ensures
        run(s, ops) == s,
        forall|i: int|
            0 <= i < ops.len() ==> #[trigger] reply(run(s, ops.take(i)), ops[i], user_id, key)
                == Some(s.saved_response(user_id, key)),
    decreases ops.len(),
{
    if ops.len() > 0 {
        let init = ops.drop_last();
        law_replays_change_nothing(s, init, user_id, key);
        assert(ops.last() == ops[ops.len() - 1]);
        assert forall|i: int| 0 <= i < ops.len() implies #[trigger] reply(
            run(s, ops.take(i)),
            ops[i],
            user_id,
            key,
        ) == Some(s.saved_response(user_id, key)) by {
            if i < init.len() {
                assert(ops.take(i) =~= init.take(i));
                assert(ops[i] == init[i]);
            } else {
                assert(ops.take(i) =~= init);
            }
        }
    }
}

/// An issue is written once. Whatever happens after it is published, it
/// stays published and holds what it held.
pub proof fn law_issue_is_immutable(s: StoreView, ops: Seq<Op>, issue_id: u128)
    requires
        s.wf(),
        s.has_issue(issue_id),
    ensures
        run(s, ops).has_issue(issue_id),
        run(s, ops).issue(issue_id) == s.issue(issue_id),
    decreases ops.len(),
{
    if ops.len() > 0 {
        law_issue_is_immutable(s, ops.drop_last(), issue_id);
        let before = run(s, ops.drop_last());
        let after = step(before, ops.last());
        lemma_run_wf(s, ops.drop_last());
        lemma_step_wf(before, ops.last());
        let w = before.issue_index(issue_id);
        assert(before.issue_matches(w, issue_id));
        assert(after.issue_matches(w, issue_id));
        crate::model::lemma_issue_index(after, w, issue_id);
    }
}

/// One holder at a time. In every store that a run can reach, a command has
/// at most one open transaction, and none once it is complete.
pub proof fn law_one_holder_at_a_time(s: StoreView, ops: Seq<Op>, user_id: u128, key: Seq<char>)
    requires
        s.wf(),
    ensures
        forall|i: int, j: int|
            run(s, ops).pending_matches(i, user_id, key) && run(s, ops).pending_matches(
                j,
                user_id,
                key,
            ) ==> i == j,
        run(s, ops).has_saved(user_id, key) ==> !run(s, ops).has_pending(user_id, key),
{
    lemma_run_wf(s, ops);
    let t = run(s, ops);
    if t.has_saved(user_id, key) && t.has_pending(user_id, key) {
        let a = t.saved_index(user_id, key);
        let b = t.pending_index(user_id, key);
        assert(t.saved_matches(a, user_id, key));
        assert(t.pending_matches(b, user_id, key));
    }
}

/// The four operations that the first submission of a command is made of.
pub open spec fn submission(user_id: u128, form: FormData, id: u128, now: i64) -> Seq<Op> {
    let key = form.idempotency_key@;
    seq![
        Op::TryProcessing { user_id, key, now },
        Op::InsertIssue { user_id, key, issue: issue_of(form, id, now) },
        Op::EnqueueTasks { user_id, key, issue_id: id },
        Op::SaveResponse { user_id, key, response: see_other_response(newsletters_page()) },
    ]
}

/// A submission is a run. Publishing a new command is the run of its four
/// operations, so that what holds of every run holds of every way in which
/// submissions, and the steps of submissions, fall between each other.
pub proof fn law_submission_is_a_run(s: StoreView, user_id: u128, form: FormData, id: u128, now: i64)
    requires
        s.wf(),
        s.phase(user_id, form.idempotency_key@) is NoRecord,
        !s.has_issue(id),
    ensures
        run(s, submission(user_id, form, id, now)) == published(s, user_id, form, id, now),
{
    let key = form.idempotency_key@;
    let issue = issue_of(form, id, now);
    let ops = submission(user_id, form, id, now);
    let n = s.pending.len() as int;
    let a = s.begin(user_id, key, now);
    lemma_begin_wf(s, user_id, key, now);
    assert(a.pending_matches(n, user_id, key));
    let b = a.stage_issue(user_id, key, issue);
    lemma_stage_issue_wf(a, user_id, key, issue);
    assert(!a.has_issue(id)) by {
        if a.has_issue(id) {
            assert(s.issue_matches(a.issue_index(id), id));
        }
    }
    let c = b.stage_tasks(user_id, key);
    lemma_stage_tasks_wf(b, user_id, key);
    assert(!c.has_issue(id)) by {
        if c.has_issue(id) {
            assert(s.issue_matches(c.issue_index(id), id));
        }
    }
    assert(c.has_pending(user_id, key));
    assert(c.pending_index(user_id, key) == n);
    let one = ops.take(1);
    let two = ops.take(2);
    let three = ops.take(3);
    assert(one.drop_last() =~= Seq::<Op>::empty());
    assert(two.drop_last() =~= one);
    assert(three.drop_last() =~= two);
    assert(ops.drop_last() =~= three);
    assert(run(s, Seq::<Op>::empty()) == s);
    assert(run(s, one) == step(s, ops[0]));
    assert(run(s, one) == a);
    assert(run(s, two) == step(a, ops[1]));
    assert(run(s, two) == b);
    assert(run(s, three) == step(b, ops[2]));
    assert(run(s, three) == c);
    assert(run(s, ops) == step(c, ops[3]));
}

} // verus!
