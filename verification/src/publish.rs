//! Publishing a newsletter issue: the command that the gateway guards.
//!
//! One submission runs through the gateway, the outbox writer and the commit
//! in one go. The emails themselves are not sent here: the tasks are left in
//! the queue for the dispatcher.

use crate::gateway::{rollback, save_response, try_processing, NextAction};
use crate::invariants::{lemma_begin_wf, lemma_stage_issue_wf, lemma_stage_tasks_wf};
use crate::key::{key_rejection, IdempotencyKey, KeyError};
use crate::model::{confirmed_emails, tasks_for, IssueView, StoreView};
use crate::outbox::{
    enqueue_delivery_tasks, insert_newsletter_issue_with_id, is_random_uuid, random_uuid,
};
use crate::response::{
    plain_response, see_other_response, HeaderPair, HeaderView, Response, ResponseView,
    BAD_REQUEST, INTERNAL_SERVER_ERROR, UNAUTHORIZED,
};
use crate::store::{Store, StoreError};
use vstd::prelude::*;
use vstd::string::*;

verus! {

/// What the publishing form holds.
#[derive(Debug, PartialEq, Eq)]
pub struct FormData {
    pub title: String,
    pub html_content: String,
    pub text_content: String,
    pub idempotency_key: String,
}

/// An issue as the JSON interface takes it: a title and the content.
#[derive(Debug, PartialEq, Eq)]
pub struct BodyData {
    pub title: String,
    pub content: Content,
}

/// The content of an issue, once for each kind of reader.
#[derive(Debug, PartialEq, Eq)]
pub struct Content {
    pub html: String,
    pub text: String,
}

impl BodyData {
    /// The same issue as the form holds it, to be published under
    /// `idempotency_key`.
    pub fn into_form(self, idempotency_key: String) -> (form: FormData)
        ensures
            form.title@ == self.title@,
            form.html_content@ == self.content.html@,
            form.text_content@ == self.content.text@,
            form.idempotency_key@ == idempotency_key@,
    {
        let BodyData { title, content } = self;
        let Content { html, text } = content;
        FormData { title, html_content: html, text_content: text, idempotency_key }
    }
}

/// Why publishing failed.
#[derive(Debug, PartialEq, Eq)]
pub enum PublishError {
    /// The submitter did not prove who they are. The text says why.
    AuthError(String),
    /// Something else went wrong. The text says what.
    UnexpectedError(String),
}

/// The response that reports `error`: status 500 and nothing else for an
/// unexpected error; status 401 with a challenge for the `publish` realm
/// where authentication failed.
pub open spec fn error_response_of(error: PublishError) -> ResponseView {
    match error {
        PublishError::UnexpectedError(_) => plain_response(INTERNAL_SERVER_ERROR, Seq::empty()),
        PublishError::AuthError(_) => ResponseView {
            status_code: UNAUTHORIZED,
            headers: seq![
                HeaderView {
                    name: "WWW-Authenticate"@,
                    value: vstd::utf8::encode_utf8("Basic realm=\"publish\""@),
                },
            ],
            body: Seq::empty(),
        },
    }
}

impl PublishError {
    /// The response that reports this error.
    pub fn error_response(&self) -> (response: Response)
        ensures
            response@ == error_response_of(*self),
    {
        match self {
            PublishError::UnexpectedError(_) => Response::new(INTERNAL_SERVER_ERROR, Vec::new()),
            PublishError::AuthError(_) => {
                let mut headers: Vec<HeaderPair> = Vec::new();
                headers.push(
                    HeaderPair {
                        name: String::from_str("WWW-Authenticate"),
                        value: "Basic realm=\"publish\"".as_bytes_vec(),
                    },
                );
                let response = Response { status_code: UNAUTHORIZED, headers, body: Vec::new() };
                assert(response@.headers =~= error_response_of(*self).headers);
                assert(response@.body =~= Seq::empty());
                response
            },
        }
    }
}

/// The page that the submitter is sent to once the issue is accepted.
pub open spec fn newsletters_page() -> Seq<char> {
    "/admin/newsletters"@
}

/// The notice shown to the submitter whose issue was accepted, the first
/// time and on every replay.
pub fn success_message() -> (text: &'static str)
    ensures
        text@ == "The newsletter issue has been accepted - emails will go out shortly."@,
{
    "The newsletter issue has been accepted - emails will go out shortly."
}

/// What became of a submission.
#[derive(Debug)]
pub enum PublishOutcome {
    /// The issue was accepted now: it is recorded, its tasks are queued and
    /// this response is saved.
    Accepted(Response),
    /// The issue was accepted before: this is the response saved then.
    Replayed(Response),
    /// Another submission of the same command is running: wait, then submit
    /// again.
    Wait,
    /// The idempotency key is malformed. Nothing was touched.
    Rejected(KeyError),
    /// The store refused. Nothing of the command remains and it can be
    /// submitted again.
    Failed(StoreError),
}

/// What the submitter is answered with: the redirect, fresh or replayed;
/// status 400 and the reason for a malformed key; status 500 where the
/// store refused; nothing yet while another submission is running.
pub open spec fn answer_of(outcome: PublishOutcome) -> Option<ResponseView> {
    match outcome {
        PublishOutcome::Accepted(response) => Some(response@),
        PublishOutcome::Replayed(response) => Some(response@),
        PublishOutcome::Wait => None,
        PublishOutcome::Rejected(reason) => Some(
            plain_response(
                BAD_REQUEST,
                vstd::utf8::encode_utf8(crate::key::rejection_message(reason)),
            ),
        ),
        PublishOutcome::Failed(_) => Some(
            plain_response(
                INTERNAL_SERVER_ERROR,
                vstd::utf8::encode_utf8("Failed to store newsletter issue details"@),
            ),
        ),
    }
}

/// An optional response, as a value.
pub open spec fn response_view(response: Option<Response>) -> Option<ResponseView> {
    match response {
        Some(response) => Some(response@),
        None => None,
    }
}

impl PublishOutcome {
    /// What the submitter is answered with, if the submission has come to
    /// an end.
    pub fn response(&self) -> (answer: Option<Response>)
        ensures
            response_view(answer) == answer_of(*self),
    {
        match self {
            PublishOutcome::Accepted(response) => Some(response.duplicate()),
            PublishOutcome::Replayed(response) => Some(response.duplicate()),
            PublishOutcome::Wait => None,
            PublishOutcome::Rejected(reason) => Some(Response::bad_request(reason.message())),
            PublishOutcome::Failed(_) => Some(
                Response::internal_error("Failed to store newsletter issue details"),
            ),
        }
    }
}

/// The issue that a form asks to publish.
pub open spec fn issue_of(form: FormData, id: u128, now: i64) -> IssueView {
    IssueView {
        id,
        title: form.title@,
        text_content: form.text_content@,
        html_content: form.html_content@,
        published_at: now,
    }
}

/// The store after a new command of `user_id` has run to completion: the
/// placeholder is inserted, the issue recorded, the tasks enqueued, and all
/// of it committed with the redirect as the saved response.
pub open spec fn published(s: StoreView, user_id: u128, form: FormData, id: u128, now: i64) -> StoreView {
    let key = form.idempotency_key@;
    s.begin(user_id, key, now).stage_issue(user_id, key, issue_of(form, id, now)).stage_tasks(
        user_id,
        key,
    ).commit(user_id, key, see_other_response(newsletters_page()))
}

/// What a submission comes to, and what it leaves of the store, told apart
/// by the key, by where the command stands, and by whether `id` is fresh.
pub open spec fn publish_result_matches(
    before: StoreView,
    after: StoreView,
    outcome: PublishOutcome,
    user_id: u128,
    form: FormData,
    id: u128,
    now: i64,
) -> bool {
    let key = form.idempotency_key@;
    match outcome {
        PublishOutcome::Rejected(reason) => {
            &&& key_rejection(key) == Some(reason)
            &&& after == before
        },
        PublishOutcome::Replayed(response) => {
            &&& key_rejection(key) is None
            &&& before.phase(user_id, key) is Complete
            &&& response@ == before.saved_response(user_id, key)
            &&& after == before
        },
        PublishOutcome::Wait => {
            &&& key_rejection(key) is None
            &&& before.phase(user_id, key) is InProgress
            &&& after == before
        },
        PublishOutcome::Accepted(response) => {
            &&& key_rejection(key) is None
            &&& before.phase(user_id, key) is NoRecord
            &&& !before.has_issue(id)
            &&& response@ == see_other_response(newsletters_page())
            &&& after == published(before, user_id, form, id, now)
        },
        PublishOutcome::Failed(error) => {
            &&& key_rejection(key) is None
            &&& before.phase(user_id, key) is NoRecord
            &&& before.has_issue(id)
            &&& error == StoreError::DuplicateIssue
            &&& after == before
        },
    }
}

/// Runs one submission of the publishing form, with `id` as the identifier
/// of the issue should the command be new.
pub fn publish_newsletter_with_id(
    store: &mut Store,
    user_id: u128,
    form: &FormData,
    id: u128,
    now: i64,
) -> (outcome: PublishOutcome)
    requires
        old(store)@.wf(),
    ensures
        final(store)@.wf(),
        publish_result_matches(old(store)@, final(store)@, outcome, user_id, *form, id, now),
        outcome is Accepted ==> {
            &&& final(store)@.phase(user_id, form.idempotency_key@) is Complete
            &&& final(store)@.saved_response(user_id, form.idempotency_key@) == see_other_response(
                newsletters_page(),
            )
            &&& final(store)@.saved.len() == old(store)@.saved.len() + 1
            &&& final(store)@.issues == old(store)@.issues.push(issue_of(*form, id, now))
            &&& final(store)@.queue == old(store)@.queue + tasks_for(
                id,
                confirmed_emails(old(store)@.subscribers),
            )
            &&& final(store)@.pending == old(store)@.pending
            &&& final(store)@.subscribers == old(store)@.subscribers
        },
{
    let ghost before = store@;
    let ghost key_text = form.idempotency_key@;
    let key = match IdempotencyKey::parse(form.idempotency_key.clone()) {
        Ok(key) => key,
        Err(reason) => {
            return PublishOutcome::Rejected(reason);
        },
    };
    let transaction = match try_processing(store, &key, user_id, now) {
        NextAction::StartProcessing(transaction) => transaction,
        NextAction::ReturnSavedResponse(saved) => {
            return PublishOutcome::Replayed(saved);
        },
        NextAction::Wait => {
            return PublishOutcome::Wait;
        },
    };
    let ghost begun = store@;
    let ghost issue = issue_of(*form, id, now);
    proof {
        lemma_begin_wf(before, user_id, key_text, now);
        assert(begun.pending_matches(before.pending.len() as int, user_id, key_text));
        assert(begun.pending.remove(before.pending.len() as int) =~= before.pending);
        assert(begun.has_issue(id) == before.has_issue(id)) by {
            if begun.has_issue(id) {
                assert(before.issue_matches(begun.issue_index(id), id));
            }
            if before.has_issue(id) {
                assert(begun.issue_matches(before.issue_index(id), id));
            }
        }
    }
    match insert_newsletter_issue_with_id(
        store,
        &transaction,
        id,
        form.title.as_str(),
        form.text_content.as_str(),
        form.html_content.as_str(),
        now,
    ) {
        Ok(_) => {},
        Err(error) => {
            let _ = rollback(store, transaction);
            return PublishOutcome::Failed(error);
        },
    }
    let ghost staged = store@;
    proof {
        lemma_stage_issue_wf(begun, user_id, key_text, issue);
    }
    match enqueue_delivery_tasks(store, &transaction, id) {
        Ok(()) => {},
        Err(error) => {
            let _ = rollback(store, transaction);
            return PublishOutcome::Failed(error);
        },
    }
    proof {
        lemma_stage_tasks_wf(staged, user_id, key_text);
        assert(store@.has_issue(id) == before.has_issue(id)) by {
            if store@.has_issue(id) {
                assert(before.issue_matches(store@.issue_index(id), id));
            }
            if before.has_issue(id) {
                assert(store@.issue_matches(before.issue_index(id), id));
            }
        }
    }
    proof {
        crate::laws::lemma_published(before, user_id, *form, id, now);
    }
    let response = Response::see_other("/admin/newsletters");
    match save_response(store, transaction, response) {
        Ok(answer) => PublishOutcome::Accepted(answer),
        Err(error) => PublishOutcome::Failed(error),
    }
}

/// Runs one submission of the publishing form. Should the command be new,
/// the issue gets a fresh random identifier.
///
/// The outcome is that of `publish_newsletter_with_id` for the identifier
/// drawn, whichever it is.
pub fn publish_newsletter(store: &mut Store, user_id: u128, form: &FormData, now: i64) -> (outcome:
    PublishOutcome)
    requires
        old(store)@.wf(),
    ensures
        final(store)@.wf(),
        exists|id: u128|
            is_random_uuid(id) && #[trigger] publish_result_matches(
                old(store)@,
                final(store)@,
                outcome,
                user_id,
                *form,
                id,
                now,
            ),
{
    let id = random_uuid();
    publish_newsletter_with_id(store, user_id, form, id, now)
}

} // verus!
