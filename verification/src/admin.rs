//! The pages of the administrator: who may see them, what the password form
//! answers, and how the notices of the previous request are shown.

use crate::response::{plain_response, see_other_response, Response, ResponseView, INTERNAL_SERVER_ERROR};
use vstd::prelude::*;
use vstd::string::*;

verus! {

/// The form that changes the password.
#[derive(PartialEq, Eq)]
pub struct FormData {
    pub current_password: String,
    pub new_password: String,
    pub new_password_check: String,
}

/// A response with the notice, if any, that the next page is to show.
#[derive(Debug, PartialEq, Eq)]
pub struct Reply {
    pub response: Response,
    pub notice: Option<String>,
}

/// What a reply is, as a value.
pub struct ReplyView {
    pub response: ResponseView,
    pub notice: Option<Seq<char>>,
}

impl View for Reply {
    type V = ReplyView;

    open spec fn view(&self) -> ReplyView {
        ReplyView {
            response: self.response@,
            notice: match self.notice {
                Some(text) => Some(text@),
                None => None,
            },
        }
    }
}

/// The redirect to `location`, with `notice` for the page that follows.
pub open spec fn redirect(location: Seq<char>, notice: Option<Seq<char>>) -> ReplyView {
    ReplyView { response: see_other_response(location), notice }
}

/// Whoever is not logged in is sent to the login page. `None` means that
/// the page may be shown.
pub fn reject_anonymous_users(session_user: Option<u128>) -> (reply: Option<Response>)
    ensures
        match reply {
            Some(response) => session_user is None && response@ == see_other_response("/login"@),
            None => session_user is Some,
        },
{
    match session_user {
        Some(_) => None,
        None => Some(Response::see_other("/login")),
    }
}

/// What is known once the password form has been looked at: where to send
/// the submitter, or the user whose current password is to be checked next.
pub open spec fn password_form_verdict(session_user: Option<u128>, form: FormData) -> Result<
    u128,
    ReplyView,
> {
    match session_user {
        None => Err(redirect("/login"@, None)),
        Some(user_id) => if form.new_password@ != form.new_password_check@ {
            Err(
                redirect(
                    "/admin/password"@,
                    Some(
                        "You entered two different new passwords - the field vallues must match."@,
                    ),
                ),
            )
        } else {
            Ok(user_id)
        },
    }
}

/// A result that holds a reply, as a value.
pub open spec fn reply_result(result: Result<u128, Reply>) -> Result<u128, ReplyView> {
    match result {
        Ok(user_id) => Ok(user_id),
        Err(reply) => Err(reply@),
    }
}

/// Looks at the password form before anything is read from the store: an
/// anonymous submitter is sent to the login page, one whose two new
/// passwords differ is sent back to the form with a notice, and for any
/// other the current password is to be checked.
pub fn check_password_form(session_user: Option<u128>, form: &FormData) -> (verdict: Result<
    u128,
    Reply,
>)
    ensures
        reply_result(verdict) == password_form_verdict(session_user, *form),
{
    let user_id = match session_user {
        Some(user_id) => user_id,
        None => {
            return Err(Reply { response: Response::see_other("/login"), notice: None });
        },
    };
    if !(form.new_password == form.new_password_check) {
        return Err(
            Reply {
                response: Response::see_other("/admin/password"),
                notice: Some(
                    String::from_str(
                        "You entered two different new passwords - the field vallues must match.",
                    ),
                ),
            },
        );
    }
    Ok(user_id)
}

/// Why the current password did not pass.
#[derive(Clone, Copy, Debug, PartialEq, Eq, Structural)]
pub enum CredentialsFailure {
    /// It is not the user's password.
    InvalidCredentials,
    /// The check itself failed.
    UnexpectedError,
}

/// What the submitter of the password form is told when the current
/// password did not pass: back to the form with a notice where it is
/// wrong, status 500 where the check failed.
pub open spec fn rejected_password_reply(failure: CredentialsFailure) -> ReplyView {
    match failure {
        CredentialsFailure::InvalidCredentials => redirect(
            "/admin/password"@,
            Some("You entered an invalid current password."@),
        ),
        CredentialsFailure::UnexpectedError => ReplyView {
            response: plain_response(INTERNAL_SERVER_ERROR, Seq::empty()),
            notice: None,
        },
    }
}

/// The reply to a password form whose current password did not pass.
pub fn reject_current_password(failure: CredentialsFailure) -> (reply: Reply)
    ensures
        reply@ == rejected_password_reply(failure),
{
    match failure {
        CredentialsFailure::InvalidCredentials => Reply {
            response: Response::see_other("/admin/password"),
            notice: Some(String::from_str("You entered an invalid current password.")),
        },
        CredentialsFailure::UnexpectedError => Reply {
            response: Response::new(INTERNAL_SERVER_ERROR, Vec::new()),
            notice: None,
        },
    }
}

/// One notice as a paragraph of HTML, on a line of its own.
pub open spec fn notice_paragraph(notice: Seq<char>) -> Seq<char> {
    "<p><i>"@ + notice + "</i></p>\n"@
}

/// The notices as paragraphs, in order.
pub open spec fn notice_paragraphs(notices: Seq<String>) -> Seq<char>
    decreases notices.len(),
{
    if notices.len() == 0 {
        Seq::empty()
    } else {
        notice_paragraphs(notices.drop_last()) + notice_paragraph(notices.last()@)
    }
}

/// Renders the notices of the previous request for the top of a form.
pub fn render_notices(notices: &Vec<String>) -> (html: String)
    ensures
        html@ == notice_paragraphs(notices@),
{
    let mut html = String::new();
    let mut i: usize = 0;
    assert(notices@.take(0) =~= Seq::empty());
    while i < notices.len()
        invariant
            i <= notices.len(),
            html@ == notice_paragraphs(notices@.take(i as int)),
        decreases notices.len() - i,
    {
        assert(notices@.take(i + 1).drop_last() =~= notices@.take(i as int));
        html.append("<p><i>");
        html.append(notices[i].as_str());
        html.append("</i></p>\n");
        i += 1;
    }
    assert(notices@.take(i as int) =~= notices@);
    html
}

} // verus!
