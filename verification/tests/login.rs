use hmac::{Hmac, Mac};
use sha2::Sha256;
use zero2prod::login::{
    conclude, login_error_html, login_error_redirect, render_notice, tagged_text, HmacSecret,
    QueryError, QueryParams,
};

fn secret() -> HmacSecret {
    HmacSecret("super-long-and-secret-random-key-needed-to-verify-message-integrity".to_string())
}

fn tag_for(text: &str, secret: &HmacSecret) -> String {
    let mut mac = Hmac::<Sha256>::new_from_slice(secret.0.as_bytes()).unwrap();
    mac.update(text.as_bytes());
    hex::encode(mac.finalize().into_bytes())
}

fn query(error: &str, tag: &str) -> QueryParams {
    QueryParams { error: Some(error.to_string()), tag: Some(tag.to_string()) }
}

#[test]
fn the_tagged_text_is_percent_encoded() {
    assert_eq!(tagged_text("Authentication failed"), "error=Authentication%20failed");
    assert_eq!(tagged_text("a-b.c_d~e"), "error=a-b.c_d~e");
    assert_eq!(tagged_text("a&b=c/d"), "error=a%26b%3Dc%2Fd");
    assert_eq!(tagged_text("\u{e9}"), "error=%C3%A9");
    assert_eq!(tagged_text(""), "error=");
}

#[test]
fn a_notice_with_its_tag_is_shown() {
    let tag = tag_for("error=Authentication%20failed", &secret());
    assert_eq!(
        query("Authentication failed", &tag).verify(&secret()),
        Ok("Authentication failed".to_string())
    );
    assert_eq!(
        query("Authentication failed", &tag.to_uppercase()).verify(&secret()),
        Ok("Authentication failed".to_string())
    );
}

#[test]
fn a_known_tag_is_accepted() {
    let secret = HmacSecret("key".to_string());
    let tag = "629243c042177689316f75b96e51e792b975a1ccb111774574d066d0965fec87";
    assert_eq!(
        query("The quick brown fox jumps over the lazy dog", tag).verify(&secret),
        Ok("The quick brown fox jumps over the lazy dog".to_string())
    );
    let mut forged = tag.to_string();
    forged.replace_range(0..1, if tag.starts_with('0') { "1" } else { "0" });
    assert_eq!(
        query("The quick brown fox jumps over the lazy dog", &forged).verify(&secret),
        Err(QueryError::TagMismatch)
    );
}

#[test]
fn a_notice_with_another_tag_is_not_shown() {
    let tag = tag_for("error=Authentication%20failed", &secret());
    assert_eq!(query("You are in", &tag).verify(&secret()), Err(QueryError::TagMismatch));
    let other = HmacSecret("another secret".to_string());
    assert_eq!(
        query("Authentication failed", &tag).verify(&other),
        Err(QueryError::TagMismatch)
    );
    let unencoded = tag_for("error=Authentication failed", &secret());
    assert_eq!(
        query("Authentication failed", &unencoded).verify(&secret()),
        Err(QueryError::TagMismatch)
    );
    assert_eq!(
        query("Authentication failed", &tag[..62]).verify(&secret()),
        Err(QueryError::TagMismatch)
    );
    assert_eq!(query("Authentication failed", "").verify(&secret()), Err(QueryError::TagMismatch));
}

#[test]
fn a_tag_that_is_not_hexadecimal_is_malformed() {
    assert_eq!(query("x", "abc").verify(&secret()), Err(QueryError::MalformedTag));
    assert_eq!(query("x", "zz").verify(&secret()), Err(QueryError::MalformedTag));
    assert_eq!(query("x", "\u{e9}").verify(&secret()), Err(QueryError::MalformedTag));
}

#[test]
fn both_parameters_are_needed() {
    let none = QueryParams { error: None, tag: None };
    assert_eq!(none.verify(&secret()), Err(QueryError::MissingParameters));
    let no_tag = QueryParams { error: Some("x".to_string()), tag: None };
    assert_eq!(no_tag.verify(&secret()), Err(QueryError::MissingParameters));
    let no_error = QueryParams { error: None, tag: Some("00".to_string()) };
    assert_eq!(no_error.verify(&secret()), Err(QueryError::MissingParameters));
}

#[test]
fn the_verdict_follows_the_tag() {
    assert_eq!(conclude("x".to_string(), true), Ok("x".to_string()));
    assert_eq!(conclude("x".to_string(), false), Err(QueryError::TagMismatch));
}

#[test]
fn a_verified_notice_is_escaped() {
    let error = "<script>\"x\" & 'y'</script>";
    let tag = tag_for(tagged_text(error).as_str(), &secret());
    assert_eq!(
        login_error_html(query(error, &tag), &secret()),
        "<p><i>&lt;script&gt;&quot;x&quot; &amp; &#x27;y&#x27;&lt;/script&gt;</i></p>"
    );
}

#[test]
fn an_unverified_notice_is_dropped() {
    assert_eq!(login_error_html(query("Authentication failed", "00"), &secret()), "");
    assert_eq!(render_notice(Err(QueryError::MissingParameters)), "");
    assert_eq!(render_notice(Ok("plain".to_string())), "<p><i>plain</i></p>");
}

#[test]
fn a_failed_login_is_redirected_with_a_tagged_notice() {
    let secret = HmacSecret("key".to_string());
    assert_eq!(
        login_error_redirect("Authentication failed", &secret),
        "/login?error=Authentication%20failed&tag=1701d6636a293effee94c57e7d57d8d7d256ff11b249b134a3cab358219c393f"
    );
}

#[test]
fn a_notice_tagged_by_the_application_verifies() {
    for error in ["Authentication failed", "", "a&tag=00", "\u{e9}\u{1f600}"] {
        let location = login_error_redirect(error, &secret());
        let tag = location.rsplit("&tag=").next().unwrap().to_string();
        assert_eq!(tag.len(), 64);
        assert!(tag.chars().all(|c| c.is_ascii_digit() || ('a'..='f').contains(&c)));
        assert_eq!(query(error, &tag).verify(&secret()), Ok(error.to_string()));
    }
}
