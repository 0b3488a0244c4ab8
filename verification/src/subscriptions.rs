//! Signing up: the confirmation email that a new subscriber is sent, and
//! what the two handlers of the workflow answer.

use crate::domain::{
    invalid_email_message, invalid_name_message, is_valid_email, is_valid_name, NewSubscriber,
    SubscriberEmail, SubscriberName,
};
use crate::history::{step, Op};
use crate::outbox::{is_random_uuid, random_uuid};
use crate::response::{
    plain_response, Response, ResponseView, BAD_REQUEST, INTERNAL_SERVER_ERROR, UNAUTHORIZED,
};
use crate::store::{Store, StoreError};
use vstd::prelude::*;
use vstd::string::*;
use vstd::utf8::encode_utf8;

verus! {

/// The address under which the application is reached from outside.
#[derive(Debug, PartialEq, Eq)]
pub struct ApplicationBaseUrl(pub String);

/// The query string of a confirmation link.
#[derive(Debug, PartialEq, Eq)]
pub struct Parameters {
    pub subscription_token: String,
}

/// The signup form.
#[derive(Debug, PartialEq, Eq)]
pub struct FormData {
    pub email: String,
    pub name: String,
}

/// What a signup form comes to: the subscriber it describes, or the
/// sentence that says what is wrong with it. The address is looked at
/// first.
pub open spec fn form_matches(form: FormData, parsed: Result<NewSubscriber, String>) -> bool {
    match parsed {
        Ok(subscriber) => {
            &&& is_valid_email(form.email@)
            &&& is_valid_name(form.name@)
            &&& subscriber.email@ == form.email@
            &&& subscriber.name@ == form.name@
        },
        Err(message) => if !is_valid_email(form.email@) {
            message@ == invalid_email_message(form.email@)
        } else {
            !is_valid_name(form.name@) && message@ == invalid_name_message(form.name@)
        },
    }
}

impl NewSubscriber {
    /// The subscriber that a signup form describes.
    pub fn try_from(form: FormData) -> (parsed: Result<NewSubscriber, String>)
        ensures
            form_matches(form, parsed),
    {
        let FormData { email, name } = form;
        let email = match SubscriberEmail::parse(email) {
            Ok(email) => email,
            Err(message) => {
                return Err(message);
            },
        };
        let name = match SubscriberName::parse(name) {
            Ok(name) => name,
            Err(message) => {
                return Err(message);
            },
        };
        Ok(NewSubscriber { email, name })
    }
}

/// Stores a new subscriber under the identifier `id`, pending
/// confirmation. Refused, with the store unchanged, exactly when the
/// identifier or the address is taken.
pub fn insert_subscriber_with_id(store: &mut Store, id: u128, new_subscriber: &NewSubscriber) -> (stored:
    Result<u128, StoreError>)
    requires
        old(store)@.wf(),
    ensures
        final(store)@.wf(),
        final(store)@ == step(
            old(store)@,
            Op::Subscribe { id, email: new_subscriber.email@, name: new_subscriber.name@ },
        ),
        match stored {
            Ok(subscriber_id) => {
                &&& subscriber_id == id
                &&& !old(store)@.has_subscriber(id)
                &&& !old(store)@.has_email(new_subscriber.email@)
                &&& final(store)@ == old(store)@.subscribe(
                    id,
                    new_subscriber.email@,
                    new_subscriber.name@,
                )
            },
            Err(e) => {
                &&& e == StoreError::DuplicateSubscriber
                &&& old(store)@.has_subscriber(id) || old(store)@.has_email(new_subscriber.email@)
                &&& final(store)@ == old(store)@
            },
        },
{
    let email = String::from_str(new_subscriber.email.as_ref());
    let name = String::from_str(new_subscriber.name.as_ref());
    match store.insert_subscriber_row(id, email, name) {
        Ok(()) => Ok(id),
        Err(e) => Err(e),
    }
}

/// Stores a new subscriber under a fresh random identifier, pending
/// confirmation, and returns the identifier.
///
/// The outcome is that of `insert_subscriber_with_id` for the identifier
/// drawn, whichever it is.
pub fn insert_subscriber(store: &mut Store, new_subscriber: &NewSubscriber) -> (stored: Result<
    u128,
    StoreError,
>)
    requires
        old(store)@.wf(),
    ensures
        final(store)@.wf(),
        match stored {
            Ok(id) => {
                &&& is_random_uuid(id)
                &&& !old(store)@.has_subscriber(id)
                &&& !old(store)@.has_email(new_subscriber.email@)
                &&& final(store)@ == old(store)@.subscribe(
                    id,
                    new_subscriber.email@,
                    new_subscriber.name@,
                )
            },
            Err(e) => {
                &&& e == StoreError::DuplicateSubscriber
                &&& final(store)@ == old(store)@
                &&& old(store)@.has_email(new_subscriber.email@) || exists|id: u128|
                    is_random_uuid(id) && #[trigger] old(store)@.has_subscriber(id)
            },
        },
{
    let id = random_uuid();
    insert_subscriber_with_id(store, id, new_subscriber)
}

/// Marks the subscriber as confirmed. Refused, with the store unchanged,
/// exactly when there is no such subscriber.
pub fn update_subscriber_to_confirmed(store: &mut Store, subscriber_id: u128) -> (done: Result<
    (),
    StoreError,
>)
    requires
        old(store)@.wf(),
    ensures
        final(store)@.wf(),
        final(store)@ == step(old(store)@, Op::Confirm { id: subscriber_id }),
        match done {
            Ok(()) => old(store)@.has_subscriber(subscriber_id) && final(store)@ == old(
                store,
            )@.confirm(subscriber_id),
            Err(e) => e == StoreError::UnknownSubscriber && !old(store)@.has_subscriber(
                subscriber_id,
            ) && final(store)@ == old(store)@,
        },
{
    store.confirm_subscriber(subscriber_id)
}

/// The status of a request that was served.
pub const OK: u16 = 200;

/// An email without its recipient: the subject and the two bodies.
#[derive(Debug, PartialEq, Eq)]
pub struct EmailContent {
    pub subject: String,
    pub html_body: String,
    pub text_body: String,
}

/// The link that a new subscriber follows to confirm.
pub open spec fn confirmation_link(base_url: Seq<char>) -> Seq<char> {
    base_url + "/subscription/confirm?subscription_token=mytoken"@
}

/// The HTML body of the confirmation email.
pub open spec fn confirmation_html(base_url: Seq<char>) -> Seq<char> {
    "Welcome to our newsletter!<br/>\n            Click <a href=\""@ + confirmation_link(base_url)
        + "\">here</a> to confirm your subscription."@
}

/// The plain body of the confirmation email.
pub open spec fn confirmation_text(base_url: Seq<char>) -> Seq<char> {
    "Welcome to our newsletter!\n\n            Visit "@ + confirmation_link(base_url)
        + " to confirm your subscription."@
}

/// The confirmation email for a subscriber of the application at
/// `base_url`.
pub fn confirmation_email(base_url: &ApplicationBaseUrl) -> (email: EmailContent)
    ensures
        email.subject@ == "Welcome"@,
        email.html_body@ == confirmation_html(base_url.0@),
        email.text_body@ == confirmation_text(base_url.0@),
{
    let mut link = base_url.0.clone();
    link.append("/subscription/confirm?subscription_token=mytoken");
    let mut html_body = String::from_str(
        "Welcome to our newsletter!<br/>\n            Click <a href=\"",
    );
    html_body.append(link.as_str());
    html_body.append("\">here</a> to confirm your subscription.");
    let mut text_body = String::from_str("Welcome to our newsletter!\n\n            Visit ");
    text_body.append(link.as_str());
    text_body.append(" to confirm your subscription.");
    EmailContent { subject: String::from_str("Welcome"), html_body, text_body }
}

/// How far a signup got.
#[derive(Debug, PartialEq, Eq)]
pub enum Signup {
    /// The form does not describe a subscriber. The text says why.
    InvalidForm(String),
    /// The subscriber could not be stored.
    NotStored,
    /// The subscriber is stored but the confirmation email could not be
    /// sent.
    NotNotified,
    /// The subscriber is stored and the confirmation email is sent.
    Completed,
}

/// What a signup is answered with: 400 and the reason for a form that does
/// not describe a subscriber, 500 where storing or sending failed, 200
/// otherwise.
pub open spec fn signup_response(signup: Signup) -> ResponseView {
    match signup {
        Signup::InvalidForm(reason) => plain_response(BAD_REQUEST, encode_utf8(reason@)),
        Signup::NotStored => plain_response(INTERNAL_SERVER_ERROR, Seq::empty()),
        Signup::NotNotified => plain_response(INTERNAL_SERVER_ERROR, Seq::empty()),
        Signup::Completed => plain_response(OK, Seq::empty()),
    }
}

/// The response to a signup.
pub fn subscribe(signup: &Signup) -> (response: Response)
    ensures
        response@ == signup_response(*signup),
{
    match signup {
        Signup::InvalidForm(reason) => Response::bad_request(reason.as_str()),
        Signup::NotStored => Response::new(INTERNAL_SERVER_ERROR, Vec::new()),
        Signup::NotNotified => Response::new(INTERNAL_SERVER_ERROR, Vec::new()),
        Signup::Completed => Response::new(OK, Vec::new()),
    }
}

/// How far a confirmation got.
#[derive(Clone, Copy, Debug, PartialEq, Eq, Structural)]
pub enum Confirmation {
    /// The token could not be looked up.
    LookupFailed,
    /// No subscriber has the token.
    UnknownToken,
    /// The subscriber with this identifier has the token but could not be
    /// marked as confirmed.
    NotUpdated(u128),
    /// The subscriber with this identifier is confirmed.
    Confirmed(u128),
}

/// The status that a confirmation is answered with: 401 for a token that
/// nobody has, 500 where the store failed, 200 otherwise.
pub open spec fn confirmation_status(confirmation: Confirmation) -> u16 {
    match confirmation {
        Confirmation::LookupFailed => INTERNAL_SERVER_ERROR,
        Confirmation::UnknownToken => UNAUTHORIZED,
        Confirmation::NotUpdated(_) => INTERNAL_SERVER_ERROR,
        Confirmation::Confirmed(_) => OK,
    }
}

/// The response to a confirmation: the status, and nothing else.
pub fn subscribe_confirm(confirmation: Confirmation) -> (response: Response)
    ensures
        response@ == plain_response(confirmation_status(confirmation), Seq::empty()),
{
    match confirmation {
        Confirmation::LookupFailed => Response::new(INTERNAL_SERVER_ERROR, Vec::new()),
        Confirmation::UnknownToken => Response::new(UNAUTHORIZED, Vec::new()),
        Confirmation::NotUpdated(_) => Response::new(INTERNAL_SERVER_ERROR, Vec::new()),
        Confirmation::Confirmed(_) => Response::new(OK, Vec::new()),
    }
}

} // verus!
