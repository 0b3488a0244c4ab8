use zero2prod::admin::{
    check_password_form, reject_anonymous_users, reject_current_password, render_notices,
    CredentialsFailure, FormData,
};
use zero2prod::startup::{report_exit, Severity, TaskExit};
use zero2prod::domain::NewSubscriber;
use zero2prod::outbox::eligible_recipients;
use zero2prod::store::{Store, StoreError};
use zero2prod::subscriptions::{
    confirmation_email, insert_subscriber, insert_subscriber_with_id, subscribe, subscribe_confirm,
    update_subscriber_to_confirmed, ApplicationBaseUrl, Confirmation, Parameters, Signup,
};

fn password_form(new_password: &str, new_password_check: &str) -> FormData {
    FormData {
        current_password: "current".to_string(),
        new_password: new_password.to_string(),
        new_password_check: new_password_check.to_string(),
    }
}

#[test]
fn you_must_be_logged_in_to_see_the_change_password_form() {
    let response = reject_anonymous_users(None).unwrap();
    assert_eq!(response.status_code, 303);
    assert_eq!(response.headers[0].name, "Location");
    assert_eq!(response.headers[0].value, b"/login".to_vec());
}

#[test]
fn you_must_be_logged_in_to_change_your_password() {
    let reply = check_password_form(None, &password_form("new", "new")).unwrap_err();
    assert_eq!(reply.response.status_code, 303);
    assert_eq!(reply.response.headers[0].name, "Location");
    assert_eq!(reply.response.headers[0].value, b"/login".to_vec());
    assert_eq!(reply.notice, None);
}

#[test]
fn new_password_fields_must_match() {
    let reply = check_password_form(Some(7), &password_form("new", "another")).unwrap_err();
    assert_eq!(reply.response.status_code, 303);
    assert_eq!(reply.response.headers[0].name, "Location");
    assert_eq!(reply.response.headers[0].value, b"/admin/password".to_vec());
    let html_page = render_notices(&vec![reply.notice.unwrap()]);
    assert!(html_page.contains(
        "<p><i>You entered two different new passwords - \
        the field vallues must match.</i></p>"
    ));
}

#[test]
fn matching_new_passwords_lead_to_the_check_of_the_current_one() {
    assert_eq!(check_password_form(Some(7), &password_form("new", "new")), Ok(7));
}

#[test]
fn an_invalid_current_password_leads_back_to_the_form() {
    let reply = reject_current_password(CredentialsFailure::InvalidCredentials);
    assert_eq!(reply.response.status_code, 303);
    assert_eq!(reply.response.headers[0].value, b"/admin/password".to_vec());
    assert_eq!(reply.notice, Some("You entered an invalid current password.".to_string()));
    let reply = reject_current_password(CredentialsFailure::UnexpectedError);
    assert_eq!(reply.response.status_code, 500);
    assert!(reply.response.headers.is_empty());
    assert_eq!(reply.notice, None);
}

#[test]
fn notices_are_rendered_one_paragraph_each() {
    assert_eq!(render_notices(&vec![]), "");
    assert_eq!(
        render_notices(&vec!["first".to_string(), "second".to_string()]),
        "<p><i>first</i></p>\n<p><i>second</i></p>\n"
    );
}

#[test]
fn the_confirmation_email_holds_the_link() {
    let email = confirmation_email(&ApplicationBaseUrl("http://127.0.0.1".to_string()));
    assert_eq!(email.subject, "Welcome");
    assert_eq!(
        email.html_body,
        "Welcome to our newsletter!<br/>
            Click <a href=\"http://127.0.0.1/subscription/confirm?subscription_token=mytoken\">here</a> to confirm your subscription."
    );
    assert_eq!(
        email.text_body,
        "Welcome to our newsletter!\n
            Visit http://127.0.0.1/subscription/confirm?subscription_token=mytoken to confirm your subscription."
    );
}

#[test]
fn a_signup_is_answered_by_how_far_it_got() {
    let rejected = subscribe(&Signup::InvalidForm("empty name".to_string()));
    assert_eq!(rejected.status_code, 400);
    assert_eq!(rejected.body, b"empty name".to_vec());
    assert_eq!(subscribe(&Signup::NotStored).status_code, 500);
    assert_eq!(subscribe(&Signup::NotNotified).status_code, 500);
    let done = subscribe(&Signup::Completed);
    assert_eq!(done.status_code, 200);
    assert!(done.body.is_empty());
    assert!(done.headers.is_empty());
}

#[test]
fn a_confirmation_is_answered_by_how_far_it_got() {
    assert_eq!(subscribe_confirm(Confirmation::LookupFailed).status_code, 500);
    assert_eq!(subscribe_confirm(Confirmation::UnknownToken).status_code, 401);
    assert_eq!(subscribe_confirm(Confirmation::NotUpdated(7)).status_code, 500);
    assert_eq!(subscribe_confirm(Confirmation::Confirmed(7)).status_code, 200);
    let parameters = Parameters { subscription_token: "mytoken".to_string() };
    assert_eq!(parameters.subscription_token, "mytoken");
}

#[test]
fn the_end_of_a_task_is_reported() {
    let done = report_exit("API", TaskExit::Completed);
    assert_eq!(done.severity, Severity::Info);
    assert_eq!(done.message, "API has exited");
    assert_eq!(done.error, None);
    let failed = report_exit("API", TaskExit::Failed("address in use".to_string()));
    assert_eq!(failed.severity, Severity::Error);
    assert_eq!(failed.message, "API failed");
    assert_eq!(failed.error, Some("address in use".to_string()));
    let aborted = report_exit("Backgground worker", TaskExit::Aborted("panicked".to_string()));
    assert_eq!(aborted.severity, Severity::Error);
    assert_eq!(aborted.message, "Backgground worker task failed to complete");
    assert_eq!(aborted.error, Some("panicked".to_string()));
}

fn signup_form(email: &str, name: &str) -> zero2prod::subscriptions::FormData {
    zero2prod::subscriptions::FormData { email: email.to_string(), name: name.to_string() }
}

#[test]
fn a_valid_form_describes_a_subscriber() {
    let subscriber = NewSubscriber::try_from(signup_form("ursula_le_guin@gmail.com", "le guin")).unwrap();
    assert_eq!(subscriber.email.as_ref(), "ursula_le_guin@gmail.com");
    assert_eq!(subscriber.name.as_ref(), "le guin");
}

#[test]
fn a_form_with_invalid_fields_is_refused() {
    assert_eq!(
        NewSubscriber::try_from(signup_form("ursula_le_guin@gmail.com", "")),
        Err(" is not a valid subscriber name.".to_string())
    );
    assert_eq!(
        NewSubscriber::try_from(signup_form("", "Ursula")),
        Err(" is not a valid subscriber email.".to_string())
    );
    assert_eq!(
        NewSubscriber::try_from(signup_form("definitely-not-an-email", "Ursula")),
        Err("definitely-not-an-email is not a valid subscriber email.".to_string())
    );
    assert_eq!(
        NewSubscriber::try_from(signup_form("definitely-not-an-email", "")),
        Err("definitely-not-an-email is not a valid subscriber email.".to_string())
    );
}

#[test]
fn a_subscriber_is_stored_pending_and_then_confirmed() {
    let mut store = Store::new();
    let subscriber = NewSubscriber::try_from(signup_form("ursula_le_guin@gmail.com", "le guin")).unwrap();
    assert_eq!(insert_subscriber_with_id(&mut store, 7, &subscriber), Ok(7));
    assert_eq!(
        insert_subscriber_with_id(&mut store, 8, &subscriber),
        Err(StoreError::DuplicateSubscriber)
    );
    assert!(eligible_recipients(&store).is_empty());
    assert_eq!(update_subscriber_to_confirmed(&mut store, 8), Err(StoreError::UnknownSubscriber));
    assert_eq!(update_subscriber_to_confirmed(&mut store, 7), Ok(()));
    assert_eq!(eligible_recipients(&store), vec!["ursula_le_guin@gmail.com".to_string()]);
}

#[test]
fn a_subscriber_gets_a_random_identifier() {
    let mut store = Store::new();
    let first = NewSubscriber::try_from(signup_form("a@gmail.com", "a")).unwrap();
    let second = NewSubscriber::try_from(signup_form("b@gmail.com", "b")).unwrap();
    let a = insert_subscriber(&mut store, &first).unwrap();
    let b = insert_subscriber(&mut store, &second).unwrap();
    assert_ne!(a, b);
    assert_eq!((a >> 76) & 0xf, 4);
    assert_eq!((b >> 62) & 0x3, 2);
    assert_eq!(insert_subscriber(&mut store, &first), Err(StoreError::DuplicateSubscriber));
    assert_eq!(update_subscriber_to_confirmed(&mut store, a), Ok(()));
    assert_eq!(eligible_recipients(&store), vec!["a@gmail.com".to_string()]);
}

#[test]
fn subscribe_return_a_200_for_valid_form_data() {
    let mut store = Store::new();
    let form = signup_form("ursula_le_guin@gmail.com", "le guin");
    let signup = match NewSubscriber::try_from(form) {
        Err(reason) => Signup::InvalidForm(reason),
        Ok(subscriber) => match insert_subscriber_with_id(&mut store, 1, &subscriber) {
            Err(_) => Signup::NotStored,
            Ok(_) => Signup::Completed,
        },
    };
    let response = subscribe(&signup);
    assert_eq!(200, response.status_code);
    let saved = store.get_subscriber(1).unwrap();
    assert_eq!(saved.email, "ursula_le_guin@gmail.com");
    assert_eq!(saved.name, "le guin");
    assert!(!saved.confirmed);
}

#[test]
fn subscribe_returns_a_200_when_fields_are_present_but_invalid() {
    let test_cases = vec![
        ("", "ursula_le_guin@gmail.com", "empty name"),
        ("Ursula", "", "empty email"),
        ("Ursula", "definitely-not-an-email", "invalid email"),
    ];
    for (name, email, description) in test_cases {
        let signup = match NewSubscriber::try_from(signup_form(email, name)) {
            Err(reason) => Signup::InvalidForm(reason),
            Ok(_) => Signup::Completed,
        };
        let response = subscribe(&signup);
        assert_eq!(
            400, response.status_code,
            "The API did not return a 400 Bad Request when the payload was {}.",
            description
        );
    }
}

#[test]
fn the_link_returned_with_200_if_called() {
    let mut store = Store::new();
    let subscriber =
        NewSubscriber::try_from(signup_form("ursula_le_guin3@gmail.com", "le guin")).unwrap();
    let id = insert_subscriber_with_id(&mut store, 1, &subscriber).unwrap();
    let confirmation = match update_subscriber_to_confirmed(&mut store, id) {
        Ok(()) => Confirmation::Confirmed(id),
        Err(_) => Confirmation::NotUpdated(id),
    };
    assert_eq!(subscribe_confirm(confirmation).status_code, 200);
}

#[test]
fn click_on_link_confirms_a_subscriber() {
    let mut store = Store::new();
    let subscriber =
        NewSubscriber::try_from(signup_form("ursula_le_guin3@gmail.com", "le guin")).unwrap();
    let id = insert_subscriber_with_id(&mut store, 1, &subscriber).unwrap();
    assert_eq!(update_subscriber_to_confirmed(&mut store, id), Ok(()));
    let saved = store.get_subscriber(id).unwrap();
    assert_eq!(saved.name, "le guin");
    assert_eq!(saved.email, "ursula_le_guin3@gmail.com");
    assert!(saved.confirmed);
}
