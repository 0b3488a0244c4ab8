use argon2::password_hash::SaltString;
use argon2::{Argon2, PasswordHasher};
use zero2prod::authentication::{
    basic_authentication, credentials_from_bytes, password_verdict, strip_basic_prefix,
    validate_credentials, verify_password_hash, AuthorizationHeader, BasicAuthError, Credentials,
    PasswordCheck,
};
use zero2prod::publish::PublishError;

fn header(value: &str) -> AuthorizationHeader {
    AuthorizationHeader::Text(value.to_string())
}

fn pair(found: Result<Credentials, BasicAuthError>) -> Result<(String, String), BasicAuthError> {
    found.map(|c| (c.username, c.password))
}

fn hash_of(password: &str) -> String {
    let salt = SaltString::new("c29tZXNhbHRzb21lc2FsdA").unwrap();
    Argon2::default().hash_password(password.as_bytes(), &salt).unwrap().to_string()
}

#[test]
fn credentials_are_read_from_a_basic_header() {
    assert_eq!(
        pair(basic_authentication(&header("Basic dXNlcjpwYXNz"))),
        Ok(("user".to_string(), "pass".to_string()))
    );
}

#[test]
fn the_password_may_hold_colons() {
    assert_eq!(
        pair(basic_authentication(&header("Basic dXNlcjpwYTpzcw=="))),
        Ok(("user".to_string(), "pa:ss".to_string()))
    );
    assert_eq!(
        pair(credentials_from_bytes(b":".to_vec())),
        Ok((String::new(), String::new()))
    );
    assert_eq!(
        pair(credentials_from_bytes("\u{e9}t\u{e9}:\u{fc}ber".as_bytes().to_vec())),
        Ok(("\u{e9}t\u{e9}".to_string(), "\u{fc}ber".to_string()))
    );
}

#[test]
fn a_missing_header_is_reported() {
    assert_eq!(
        pair(basic_authentication(&AuthorizationHeader::Missing)),
        Err(BasicAuthError::MissingHeader)
    );
    assert_eq!(
        pair(basic_authentication(&AuthorizationHeader::NotText)),
        Err(BasicAuthError::HeaderNotText)
    );
}

#[test]
fn another_scheme_is_reported() {
    for value in ["Bearer abc", "basic dXNlcjpwYXNz", "Basic", "", "BasicdXNlcjpwYXNz"] {
        assert_eq!(pair(basic_authentication(&header(value))), Err(BasicAuthError::SchemeNotBasic));
    }
    assert_eq!(strip_basic_prefix("Basic abc"), Some("abc"));
    assert_eq!(strip_basic_prefix("Basic "), Some(""));
    assert_eq!(strip_basic_prefix("Basi"), None);
}

#[test]
fn text_that_is_not_base64_is_reported() {
    for value in ["Basic !!!!", "Basic dXNlcjpwYXNz=", "Basic dXNlcjpwYXN"] {
        assert_eq!(pair(basic_authentication(&header(value))), Err(BasicAuthError::InvalidBase64));
    }
}

#[test]
fn bytes_that_are_not_text_are_reported() {
    assert_eq!(
        pair(basic_authentication(&header("Basic /w=="))),
        Err(BasicAuthError::CredentialsNotUtf8)
    );
    assert_eq!(
        pair(credentials_from_bytes(vec![b'a', b':', 0xc3])),
        Err(BasicAuthError::CredentialsNotUtf8)
    );
}

#[test]
fn credentials_without_a_colon_lack_the_password() {
    assert_eq!(
        pair(basic_authentication(&header("Basic dXNlcg=="))),
        Err(BasicAuthError::MissingPassword)
    );
    assert_eq!(pair(basic_authentication(&header("Basic "))), Err(BasicAuthError::MissingPassword));
}

#[test]
fn every_header_error_has_its_sentence() {
    assert_eq!(BasicAuthError::MissingHeader.message(), "The 'Authorization' header was missing");
    assert_eq!(
        BasicAuthError::HeaderNotText.message(),
        "The 'Authorization' header was not a valid UTF8 string."
    );
    assert_eq!(BasicAuthError::SchemeNotBasic.message(), "The authorization scheme was not 'Basic'.");
    assert_eq!(
        BasicAuthError::InvalidBase64.message(),
        "Failed to base64-decode 'Basic' credentials"
    );
    assert_eq!(
        BasicAuthError::CredentialsNotUtf8.message(),
        "The decoded credential string is not valid UTF8"
    );
    assert_eq!(
        BasicAuthError::MissingPassword.message(),
        "A password must be provided in 'Basic' auth."
    );
}

#[test]
fn the_right_password_verifies() {
    let hash = hash_of("everythinghastostartsomewhere");
    assert_eq!(verify_password_hash(&hash, "everythinghastostartsomewhere"), Ok(()));
}

#[test]
fn a_wrong_password_is_an_unexpected_error() {
    let hash = hash_of("everythinghastostartsomewhere");
    assert_eq!(
        verify_password_hash(&hash, "everythinghastostartsomewher"),
        Err(PublishError::UnexpectedError("Invalid password.".to_string()))
    );
    assert_eq!(
        verify_password_hash(&hash, &hash),
        Err(PublishError::UnexpectedError("Invalid password.".to_string()))
    );
}

#[test]
fn a_hash_that_cannot_be_read_is_an_unexpected_error() {
    for hash in ["", "not a hash", "everythinghastostartsomewhere"] {
        assert_eq!(
            verify_password_hash(hash, "everythinghastostartsomewhere"),
            Err(PublishError::UnexpectedError(
                "Failed to parse password hash in PHC string format".to_string()
            ))
        );
    }
}

#[test]
fn a_check_becomes_a_result() {
    assert_eq!(password_verdict(PasswordCheck::Verified), Ok(()));
    assert_eq!(
        password_verdict(PasswordCheck::Rejected),
        Err(PublishError::UnexpectedError("Invalid password.".to_string()))
    );
    assert_eq!(
        password_verdict(PasswordCheck::MalformedHash),
        Err(PublishError::UnexpectedError(
            "Failed to parse password hash in PHC string format".to_string()
        ))
    );
}

#[test]
fn credentials_are_validated_against_what_is_stored() {
    let hash = hash_of("pass");
    let credentials = || Credentials { username: "user".to_string(), password: "pass".to_string() };
    assert_eq!(validate_credentials(credentials(), Some((7, hash.clone()))), Ok(7));
    assert_eq!(
        validate_credentials(credentials(), None),
        Err(PublishError::AuthError("Unknown username".to_string()))
    );
    assert_eq!(
        validate_credentials(credentials(), Some((7, hash_of("other")))),
        Err(PublishError::UnexpectedError("Invalid password.".to_string()))
    );
}
