//! Who is asking: the credentials of the `Basic` scheme, read from a header,
//! and their check against a stored password hash.

use argon2::PasswordVerifier;
use crate::publish::PublishError;
use vstd::prelude::*;
use vstd::string::*;
use vstd::utf8::{decode_utf8, valid_utf8};

verus! {

/// A user name and a password, as the submitter gave them.
#[derive(PartialEq, Eq)]
pub struct Credentials {
    pub username: String,
    pub password: String,
}

/// What the request holds under `Authorization`.
#[derive(Debug, PartialEq, Eq)]
pub enum AuthorizationHeader {
    /// No such header.
    Missing,
    /// A header whose value is not text.
    NotText,
    /// A header with this value.
    Text(String),
}

/// Why a request carries no usable credentials.
#[derive(Clone, Copy, Debug, PartialEq, Eq, Structural)]
pub enum BasicAuthError {
    MissingHeader,
    HeaderNotText,
    SchemeNotBasic,
    InvalidBase64,
    CredentialsNotUtf8,
    MissingPassword,
}

impl BasicAuthError {
    /// The sentence that says what is wrong.
    pub fn message(&self) -> (text: &'static str)
        ensures
            text@ == match *self {
                BasicAuthError::MissingHeader => "The 'Authorization' header was missing"@,
                BasicAuthError::HeaderNotText => "The 'Authorization' header was not a valid UTF8 string."@,
                BasicAuthError::SchemeNotBasic => "The authorization scheme was not 'Basic'."@,
                BasicAuthError::InvalidBase64 => "Failed to base64-decode 'Basic' credentials"@,
                BasicAuthError::CredentialsNotUtf8 => "The decoded credential string is not valid UTF8"@,
                BasicAuthError::MissingPassword => "A password must be provided in 'Basic' auth."@,
            },
    {
        match self {
            BasicAuthError::MissingHeader => "The 'Authorization' header was missing",
            BasicAuthError::HeaderNotText => "The 'Authorization' header was not a valid UTF8 string.",
            BasicAuthError::SchemeNotBasic => "The authorization scheme was not 'Basic'.",
            BasicAuthError::InvalidBase64 => "Failed to base64-decode 'Basic' credentials",
            BasicAuthError::CredentialsNotUtf8 => "The decoded credential string is not valid UTF8",
            BasicAuthError::MissingPassword => "A password must be provided in 'Basic' auth.",
        }
    }
}

// ----- the scheme -----------------------------------------------------------------

/// The word that opens the value of a `Basic` header, with its blank.
pub open spec fn basic_prefix() -> Seq<char> {
    seq!['B', 'a', 's', 'i', 'c', ' ']
}

/// The value opens with `Basic` and a blank.
pub open spec fn is_basic(value: Seq<char>) -> bool {
    value.len() >= 6 && value.subrange(0, 6) == basic_prefix()
}

/// What follows `Basic` and the blank, where the value opens with them.
pub fn strip_basic_prefix(value: &str) -> (rest: Option<&str>)
    ensures
        match rest {
            Some(segment) => is_basic(value@) && segment@ == value@.skip(6),
            None => !is_basic(value@),
        },
{
    let n: usize = value.unicode_len();
    if n < 6 {
        return None;
    }
    if value.get_char(0) == 'B' && value.get_char(1) == 'a' && value.get_char(2) == 's'
        && value.get_char(3) == 'i' && value.get_char(4) == 'c' && value.get_char(5) == ' ' {
        assert(value@.subrange(0, 6) =~= basic_prefix());
        let segment = value.substring_char(6, n);
        assert(segment@ =~= value@.skip(6));
        Some(segment)
    } else {
        proof {
            if is_basic(value@) {
                let head = value@.subrange(0, 6);
                assert(head[0] == 'B' && head[1] == 'a' && head[2] == 's' && head[3] == 'i'
                    && head[4] == 'c' && head[5] == ' ');
            }
        }
        None
    }
}

// ----- base64 -----------------------------------------------------------------------

/// The bytes that a text stands for in standard base64, with padding, or
/// `None` where the text is not base64, as `base64::decode_config` decides.
pub uninterp spec fn base64_decoded(text: Seq<char>) -> Option<Seq<u8>>;

/// Calls `base64::decode_config` with the standard alphabet. Whether the
/// text decodes, and to which bytes, depends on the text alone.
#[verifier::external_body]
fn base64_decode(text: &str) -> (decoded: Option<Vec<u8>>)
    ensures
        match decoded {
            Some(bytes) => base64_decoded(text@) == Some(bytes@),
            None => base64_decoded(text@) is None,
        },
{
    match base64::decode_config(text, base64::STANDARD) {
        Ok(bytes) => Some(bytes),
        Err(_) => None,
    }
}

/// Calls `String::from_utf8`, which gives the text that the bytes encode
/// exactly when they are valid UTF-8.
#[verifier::external_body]
fn string_from_utf8(bytes: Vec<u8>) -> (text: Option<String>)
    ensures
        match text {
            Some(text) => valid_utf8(bytes@) && text@ == decode_utf8(bytes@),
            None => !valid_utf8(bytes@),
        },
{
    match String::from_utf8(bytes) {
        Ok(text) => Some(text),
        Err(_) => None,
    }
}

// ----- user name and password -------------------------------------------------------

/// Position `i` holds the first colon of the text.
pub open spec fn is_first_colon(text: Seq<char>, i: int) -> bool {
    &&& 0 <= i < text.len()
    &&& text[i] == ':'
    &&& forall|j: int| 0 <= j < i ==> text[j] != ':'
}

/// The text before the first colon and the text after it, or `None` where
/// there is no colon.
pub open spec fn split_at_colon(text: Seq<char>) -> Option<(Seq<char>, Seq<char>)> {
    if exists|i: int| is_first_colon(text, i) {
        let i = choose|i: int| is_first_colon(text, i);
        Some((text.subrange(0, i), text.subrange(i + 1, text.len() as int)))
    } else {
        None
    }
}

/// The credentials in decoded bytes: a user name, a colon, a password.
pub open spec fn credentials_in(decoded: Seq<u8>) -> Result<(Seq<char>, Seq<char>), BasicAuthError> {
    if !valid_utf8(decoded) {
        Err(BasicAuthError::CredentialsNotUtf8)
    } else {
        match split_at_colon(decode_utf8(decoded)) {
            Some(pair) => Ok(pair),
            None => Err(BasicAuthError::MissingPassword),
        }
    }
}

/// The credentials in a header.
pub open spec fn basic_credentials(header: AuthorizationHeader) -> Result<
    (Seq<char>, Seq<char>),
    BasicAuthError,
> {
    match header {
        AuthorizationHeader::Missing => Err(BasicAuthError::MissingHeader),
        AuthorizationHeader::NotText => Err(BasicAuthError::HeaderNotText),
        AuthorizationHeader::Text(value) => if !is_basic(value@) {
            Err(BasicAuthError::SchemeNotBasic)
        } else {
            match base64_decoded(value@.skip(6)) {
                None => Err(BasicAuthError::InvalidBase64),
                Some(decoded) => credentials_in(decoded),
            }
        },
    }
}

/// Credentials, or the reason for their absence, as a value.
pub open spec fn credentials_result(found: Result<Credentials, BasicAuthError>) -> Result<
    (Seq<char>, Seq<char>),
    BasicAuthError,
> {
    match found {
        Ok(credentials) => Ok((credentials.username@, credentials.password@)),
        Err(reason) => Err(reason),
    }
}

/// Reads the credentials from the decoded bytes of a `Basic` header: the
/// bytes must be UTF-8, the user name ends at the first colon, and the
/// password is all that follows, colons included.
pub fn credentials_from_bytes(decoded: Vec<u8>) -> (found: Result<Credentials, BasicAuthError>)
    ensures
        credentials_result(found) == credentials_in(decoded@),
{
    let text = match string_from_utf8(decoded) {
        Some(text) => text,
        None => {
            return Err(BasicAuthError::CredentialsNotUtf8);
        },
    };
    let n: usize = text.as_str().unicode_len();
    let mut i: usize = 0;
    while i < n
        invariant
            n == text@.len(),
            i <= n,
            valid_utf8(decoded@),
            text@ == decode_utf8(decoded@),
            forall|j: int| 0 <= j < i ==> text@[j] != ':',
        decreases n - i,
    {
        if text.as_str().get_char(i) == ':' {
            assert(is_first_colon(text@, i as int));
            proof {
                let k = choose|k: int| is_first_colon(text@, k);
                if k < i {
                    assert(text@[k] != ':');
                }
                if i < k {
                    assert(text@[i as int] != ':');
                }
                assert(k == i);
                assert(split_at_colon(text@) == Some(
                    (text@.subrange(0, i as int), text@.subrange(i + 1, n as int)),
                ));
            }
            let username = String::from_str(text.as_str().substring_char(0, i));
            let password = String::from_str(text.as_str().substring_char(i + 1, n));
            return Ok(Credentials { username, password });
        }
        i += 1;
    }
    proof {
        if exists|k: int| is_first_colon(text@, k) {
            let k = choose|k: int| is_first_colon(text@, k);
            assert(text@[k] != ':');
        }
    }
    Err(BasicAuthError::MissingPassword)
}

/// Reads the credentials of the `Basic` scheme from the `Authorization`
/// header of a request.
pub fn basic_authentication(header: &AuthorizationHeader) -> (found: Result<
    Credentials,
    BasicAuthError,
>)
    ensures
        credentials_result(found) == basic_credentials(*header),
{
    let value = match header {
        AuthorizationHeader::Missing => {
            return Err(BasicAuthError::MissingHeader);
        },
        AuthorizationHeader::NotText => {
            return Err(BasicAuthError::HeaderNotText);
        },
        AuthorizationHeader::Text(value) => value,
    };
    let segment = match strip_basic_prefix(value.as_str()) {
        Some(segment) => segment,
        None => {
            return Err(BasicAuthError::SchemeNotBasic);
        },
    };
    match base64_decode(segment) {
        Some(decoded) => credentials_from_bytes(decoded),
        None => Err(BasicAuthError::InvalidBase64),
    }
}

// ----- the password -------------------------------------------------------------------

/// What the check of a password against a stored hash came to.
#[derive(Clone, Copy, Debug, PartialEq, Eq, Structural)]
pub enum PasswordCheck {
    /// The stored hash is not in PHC string format.
    MalformedHash,
    /// The password is not the one that was hashed.
    Rejected,
    /// The password is the one that was hashed.
    Verified,
}

/// Whether a text is a password hash in PHC string format, as
/// `PasswordHash::new` of the crate `argon2` decides.
pub uninterp spec fn is_phc_string(hash: Seq<char>) -> bool;

/// Whether Argon2 with its default settings, run with the parameters and the
/// salt that the hash names, accepts the password for the hash, as
/// `verify_password` of the crate `argon2` decides.
pub uninterp spec fn argon2_accepts(hash: Seq<char>, password: Seq<u8>) -> bool;

/// What a check comes to, by the two decisions it rests on.
pub open spec fn password_check(hash: Seq<char>, password: Seq<u8>) -> PasswordCheck {
    if !is_phc_string(hash) {
        PasswordCheck::MalformedHash
    } else if argon2_accepts(hash, password) {
        PasswordCheck::Verified
    } else {
        PasswordCheck::Rejected
    }
}

/// Parses the hash with `PasswordHash::new` and, where that succeeds, calls
/// `verify_password` of the default `Argon2` on the password. Both
/// decisions depend on the two arguments alone.
#[verifier::external_body]
fn check_password(expected_password_hash: &str, password_candidate: &[u8]) -> (check: PasswordCheck)
    ensures
        check == if !is_phc_string(expected_password_hash@) {
            PasswordCheck::MalformedHash
        } else if argon2_accepts(expected_password_hash@, password_candidate@) {
            PasswordCheck::Verified
        } else {
            PasswordCheck::Rejected
        },
{
    match argon2::PasswordHash::new(expected_password_hash) {
        Err(_) => PasswordCheck::MalformedHash,
        Ok(hash) => match argon2::Argon2::default().verify_password(password_candidate, &hash) {
            Ok(()) => PasswordCheck::Verified,
            Err(_) => PasswordCheck::Rejected,
        },
    }
}

/// A publishing result, as a value: which error, with which text.
pub enum Verdict {
    Passed,
    AuthError(Seq<char>),
    UnexpectedError(Seq<char>),
}

/// The verdict that a check stands for: a hash that cannot be read and a
/// password that does not fit are both reported as unexpected errors.
pub open spec fn verdict_of(check: PasswordCheck) -> Verdict {
    match check {
        PasswordCheck::Verified => Verdict::Passed,
        PasswordCheck::MalformedHash => Verdict::UnexpectedError(
            "Failed to parse password hash in PHC string format"@,
        ),
        PasswordCheck::Rejected => Verdict::UnexpectedError("Invalid password."@),
    }
}

/// A result without a value, as a verdict.
pub open spec fn verdict_view(result: Result<(), PublishError>) -> Verdict {
    match result {
        Ok(()) => Verdict::Passed,
        Err(PublishError::AuthError(text)) => Verdict::AuthError(text@),
        Err(PublishError::UnexpectedError(text)) => Verdict::UnexpectedError(text@),
    }
}

/// Turns the outcome of a password check into a result.
pub fn password_verdict(check: PasswordCheck) -> (verdict: Result<(), PublishError>)
    ensures
        verdict_view(verdict) == verdict_of(check),
{
    match check {
        PasswordCheck::Verified => Ok(()),
        PasswordCheck::MalformedHash => Err(
            PublishError::UnexpectedError(
                String::from_str("Failed to parse password hash in PHC string format"),
            ),
        ),
        PasswordCheck::Rejected => Err(
            PublishError::UnexpectedError(String::from_str("Invalid password.")),
        ),
    }
}

/// Checks the candidate against the stored hash.
pub fn verify_password_hash(expected_password_hash: &str, password_candidate: &str) -> (verdict:
    Result<(), PublishError>)
    ensures
        verdict_view(verdict) == verdict_of(
            password_check(expected_password_hash@, password_candidate.spec_bytes()),
        ),
{
    password_verdict(check_password(expected_password_hash, password_candidate.as_bytes()))
}

/// The user as whom the credentials pass, given what is stored for the
/// user name: nobody where nothing is stored, nobody where the password
/// does not verify, the stored user otherwise.
pub open spec fn validated_user(password: Seq<char>, stored: Option<(u128, String)>) -> Result<
    u128,
    Verdict,
> {
    match stored {
        None => Err(Verdict::AuthError("Unknown username"@)),
        Some((user_id, hash)) => match verdict_of(
            password_check(hash@, vstd::utf8::encode_utf8(password)),
        ) {
            Verdict::Passed => Ok(user_id),
            failed => Err(failed),
        },
    }
}

/// Validates credentials against what is stored for their user name: the
/// user's identifier and password hash, or nothing where the name is
/// unknown.
pub fn validate_credentials(credentials: Credentials, stored: Option<(u128, String)>) -> (user:
    Result<u128, PublishError>)
    ensures
        match user {
            Ok(user_id) => validated_user(credentials.password@, stored) == Ok::<u128, Verdict>(
                user_id,
            ),
            Err(error) => validated_user(credentials.password@, stored) == Err::<u128, Verdict>(
                verdict_view(Err(error)),
            ),
        },
{
    match stored {
        None => Err(PublishError::AuthError(String::from_str("Unknown username"))),
        Some((user_id, hash)) => {
            match verify_password_hash(hash.as_str(), credentials.password.as_str()) {
                Ok(()) => Ok(user_id),
                Err(error) => Err(error),
            }
        },
    }
}

} // verus!
