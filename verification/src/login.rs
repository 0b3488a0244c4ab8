//! The error notice of the login page. The notice travels in the query
//! string, so it is shown only where the tag that comes with it proves that
//! the application wrote it.

use hmac::Mac;
use vstd::prelude::*;
use vstd::string::*;
use vstd::utf8::encode_utf8;

verus! {

/// The secret under which query strings are tagged.
pub struct HmacSecret(pub String);

/// What the query string of the login page may hold.
#[derive(Debug, PartialEq, Eq)]
pub struct QueryParams {
    pub error: Option<String>,
    pub tag: Option<String>,
}

/// Why the error notice of a query string is not shown.
#[derive(Clone, Copy, Debug, PartialEq, Eq, Structural)]
pub enum QueryError {
    /// The error or the tag is missing.
    MissingParameters,
    /// The tag is not written in hexadecimal digits, two for each byte.
    MalformedTag,
    /// The tag is not the one that the secret gives for this error.
    TagMismatch,
}

// ----- hexadecimal ---------------------------------------------------------------

/// The value of a hexadecimal digit, in either case.
pub open spec fn hex_digit_value(digit: u8) -> Option<u8> {
    if 0x30 <= digit <= 0x39 {
        Some((digit - 0x30) as u8)
    } else if 0x61 <= digit <= 0x66 {
        Some((digit - 0x61 + 10) as u8)
    } else if 0x41 <= digit <= 0x46 {
        Some((digit - 0x41 + 10) as u8)
    } else {
        None
    }
}

/// The text is an even number of hexadecimal digits.
pub open spec fn is_hex_text(text: Seq<u8>) -> bool {
    &&& text.len() % 2 == 0
    &&& forall|i: int| 0 <= i < text.len() ==> hex_digit_value(#[trigger] text[i]) is Some
}

/// The bytes that a hexadecimal text stands for, two digits for each.
pub open spec fn hex_bytes(text: Seq<u8>) -> Seq<u8> {
    Seq::new(
        text.len() / 2,
        |i: int|
            (hex_digit_value(text[2 * i])->0 * 16 + hex_digit_value(text[2 * i + 1])->0) as u8,
    )
}

/// Calls `hex::decode`. It succeeds exactly on an even number of
/// hexadecimal digits, upper or lower case, and gives one byte for each two
/// digits, the first digit being the high half.
#[verifier::external_body]
fn hex_decode(text: &str) -> (decoded: Option<Vec<u8>>)
    ensures
        match decoded {
            Some(bytes) => is_hex_text(text.spec_bytes()) && bytes@ == hex_bytes(text.spec_bytes()),
            None => !is_hex_text(text.spec_bytes()),
        },
{
    match hex::decode(text) {
        Ok(bytes) => Some(bytes),
        Err(_) => None,
    }
}

/// The lower-case hexadecimal digit for a value below sixteen.
pub open spec fn lower_hex_digit(value: u8) -> char {
    if value < 10 {
        (0x30 + value) as char
    } else {
        (0x61 + value - 10) as char
    }
}

/// A byte string in lower-case hexadecimal digits, two for each byte, the
/// high half first.
pub open spec fn hex_text(bytes: Seq<u8>) -> Seq<char> {
    Seq::new(
        2 * bytes.len(),
        |i: int|
            if i % 2 == 0 {
                lower_hex_digit(bytes[i / 2] / 16)
            } else {
                lower_hex_digit(bytes[i / 2] % 16)
            },
    )
}

/// Calls `hex::encode`, which writes each byte as two lower-case
/// hexadecimal digits, the high half first.
#[verifier::external_body]
fn hex_encode(bytes: &[u8]) -> (text: String)
    ensures
        text@ == hex_text(bytes@),
{
    hex::encode(bytes)
}

/// What is written in hexadecimal reads back as it was.
pub proof fn lemma_hex_round_trip(bytes: Seq<u8>)
    ensures
        is_hex_text(encode_utf8(hex_text(bytes))),
        hex_bytes(encode_utf8(hex_text(bytes))) == bytes,
{
    let text = hex_text(bytes);
    assert(vstd::utf8::is_ascii_chars(text));
    vstd::utf8::is_ascii_chars_encode_utf8(text);
    let encoded = encode_utf8(text);
    assert forall|i: int| 0 <= i < encoded.len() implies hex_digit_value(
        #[trigger] encoded[i],
    ) is Some && hex_digit_value(encoded[i])->0 == if i % 2 == 0 {
        bytes[i / 2] / 16
    } else {
        bytes[i / 2] % 16
    } by {
        assert(encoded[i] == text[i] as u8);
    }
    assert forall|k: int| 0 <= k < bytes.len() implies #[trigger] hex_bytes(encoded)[k]
        == bytes[k] by {
        assert(hex_digit_value(encoded[2 * k])->0 == bytes[k] / 16);
        assert(hex_digit_value(encoded[2 * k + 1])->0 == bytes[k] % 16);
    }
    assert(hex_bytes(encoded) =~= bytes);
}

// ----- percent-encoding ------------------------------------------------------------

/// The bytes that are written as they are: letters, digits and `-._~`.
pub open spec fn is_unreserved(byte: u8) -> bool {
    ||| 0x30 <= byte <= 0x39
    ||| 0x41 <= byte <= 0x5a
    ||| 0x61 <= byte <= 0x7a
    ||| byte == 0x2d
    ||| byte == 0x2e
    ||| byte == 0x5f
    ||| byte == 0x7e
}

/// The upper-case hexadecimal digit for a value below sixteen.
pub open spec fn upper_hex_digit(value: u8) -> char {
    if value < 10 {
        (0x30 + value) as char
    } else {
        (0x41 + value - 10) as char
    }
}

/// One byte, percent-encoded.
pub open spec fn percent_encoded_byte(byte: u8) -> Seq<char> {
    if is_unreserved(byte) {
        seq![byte as char]
    } else {
        seq!['%', upper_hex_digit(byte / 16), upper_hex_digit(byte % 16)]
    }
}

/// A byte string, percent-encoded byte by byte.
pub open spec fn percent_encoded(bytes: Seq<u8>) -> Seq<char>
    decreases bytes.len(),
{
    if bytes.len() == 0 {
        Seq::empty()
    } else {
        percent_encoded(bytes.drop_last()) + percent_encoded_byte(bytes.last())
    }
}

/// Formats `urlencoding::Encoded` of the text. Every byte of the text's
/// UTF-8 encoding is written as it is where it is a letter, a digit or one
/// of `-._~`, and as `%` with two upper-case hexadecimal digits otherwise.
#[verifier::external_body]
fn url_encode(text: &str) -> (encoded: String)
    ensures
        encoded@ == percent_encoded(text.spec_bytes()),
{
    format!("{}", urlencoding::Encoded::new(text))
}

// ----- the tag ----------------------------------------------------------------------

/// The HMAC-SHA256 tag of `message` under `key`, as `Hmac<Sha256>` of the
/// crate `hmac` computes it.
pub uninterp spec fn hmac_sha256(key: Seq<u8>, message: Seq<u8>) -> Seq<u8>;

/// Makes an `Hmac<Sha256>` from `key`, feeds it `message` and finalizes
/// it. The tag depends on the two byte strings alone and is thirty-two
/// bytes long.
#[verifier::external_body]
fn hmac_sha256_tag(key: &[u8], message: &[u8]) -> (tag: Vec<u8>)
    ensures
        tag@ == hmac_sha256(key@, message@),
        tag@.len() == 32,
{
    match hmac::Hmac::<sha2::Sha256>::new_from_slice(key) {
        Ok(mut mac) => {
            mac.update(message);
            mac.finalize().into_bytes().to_vec()
        },
        Err(_) => Vec::new(),
    }
}

/// Makes an `Hmac<Sha256>` from `key`, feeds it `message` and calls
/// `verify_slice` with `tag`, which accepts the tag exactly when it is the
/// one that finalizing would give.
#[verifier::external_body]
fn hmac_sha256_verify(key: &[u8], message: &[u8], tag: &[u8]) -> (accepted: bool)
    ensures
        accepted == (tag@ == hmac_sha256(key@, message@)),
{
    match hmac::Hmac::<sha2::Sha256>::new_from_slice(key) {
        Ok(mut mac) => {
            mac.update(message);
            mac.verify_slice(tag).is_ok()
        },
        Err(_) => false,
    }
}

/// The tag of the error notice `error` under `secret`.
pub open spec fn notice_tag(error: Seq<char>, secret: Seq<char>) -> Seq<u8> {
    hmac_sha256(encode_utf8(secret), encode_utf8(query_string(error)))
}

/// The text that is tagged for an error notice: `error=` and the notice,
/// percent-encoded.
pub open spec fn query_string(error: Seq<char>) -> Seq<char> {
    "error="@ + percent_encoded(encode_utf8(error))
}

/// What the verification of a query string comes to, given whether the tag
/// was accepted.
pub open spec fn concluded(error: Seq<char>, tag_accepted: bool) -> Result<Seq<char>, QueryError> {
    if tag_accepted {
        Ok(error)
    } else {
        Err(QueryError::TagMismatch)
    }
}

/// The error notice that a query string may show, or why it shows none.
pub open spec fn verified_error(
    error: Option<Seq<char>>,
    tag: Option<Seq<char>>,
    secret: Seq<char>,
) -> Result<Seq<char>, QueryError> {
    if error is None || tag is None {
        Err(QueryError::MissingParameters)
    } else if !is_hex_text(encode_utf8(tag->0)) {
        Err(QueryError::MalformedTag)
    } else {
        concluded(error->0, hex_bytes(encode_utf8(tag->0)) == notice_tag(error->0, secret))
    }
}

/// The text of an optional string.
pub open spec fn text_of(value: Option<String>) -> Option<Seq<char>> {
    match value {
        Some(text) => Some(text@),
        None => None,
    }
}

/// A result that holds a text, as a value.
pub open spec fn error_result(result: Result<String, QueryError>) -> Result<Seq<char>, QueryError> {
    match result {
        Ok(text) => Ok(text@),
        Err(reason) => Err(reason),
    }
}

/// The text that is tagged for the error notice `error`.
pub fn tagged_text(error: &str) -> (text: String)
    ensures
        text@ == query_string(error@),
{
    let mut text = String::from_str("error=");
    let encoded = url_encode(error);
    text.append(encoded.as_str());
    text
}

/// The verdict on a query string whose tag was checked: the notice where
/// the tag was accepted, a mismatch otherwise.
pub fn conclude(error: String, tag_accepted: bool) -> (verdict: Result<String, QueryError>)
    ensures
        error_result(verdict) == concluded(error@, tag_accepted),
{
    if tag_accepted {
        Ok(error)
    } else {
        Err(QueryError::TagMismatch)
    }
}

impl QueryParams {
    /// Gives the error notice where both parameters are there, the tag is
    /// hexadecimal, and it is the tag of `error=` followed by the
    /// percent-encoded notice under `secret`.
    pub fn verify(self, secret: &HmacSecret) -> (verdict: Result<String, QueryError>)
        ensures
            error_result(verdict) == verified_error(
                text_of(self.error),
                text_of(self.tag),
                secret.0@,
            ),
    {
        let QueryParams { error, tag } = self;
        let (error, tag) = match (error, tag) {
            (Some(error), Some(tag)) => (error, tag),
            _ => {
                return Err(QueryError::MissingParameters);
            },
        };
        let tag_bytes = match hex_decode(tag.as_str()) {
            Some(bytes) => bytes,
            None => {
                return Err(QueryError::MalformedTag);
            },
        };
        let text = tagged_text(error.as_str());
        let accepted = hmac_sha256_verify(
            secret.0.as_str().as_bytes(),
            text.as_str().as_bytes(),
            tag_bytes.as_slice(),
        );
        conclude(error, accepted)
    }
}

/// Where the browser is sent after a login that failed with `error`: the
/// login page, with the notice and its tag in the query string.
pub open spec fn login_error_location(error: Seq<char>, secret: Seq<char>) -> Seq<char> {
    "/login?"@ + query_string(error) + "&tag="@ + hex_text(notice_tag(error, secret))
}

/// Where to send the browser after a login that failed with `error`.
pub fn login_error_redirect(error: &str, secret: &HmacSecret) -> (location: String)
    ensures
        location@ == login_error_location(error@, secret.0@),
{
    let text = tagged_text(error);
    let tag = hmac_sha256_tag(secret.0.as_str().as_bytes(), text.as_str().as_bytes());
    let hexadecimal = hex_encode(tag.as_slice());
    let mut location = String::from_str("/login?");
    location.append(text.as_str());
    location.append("&tag=");
    location.append(hexadecimal.as_str());
    location
}

/// A notice that the application has tagged is shown: the query string
/// that `login_error_redirect` writes passes `verify` under the same
/// secret, and gives the notice back.
pub proof fn law_tagged_notice_verifies(error: Seq<char>, secret: Seq<char>)
    ensures
        verified_error(Some(error), Some(hex_text(notice_tag(error, secret))), secret) == Ok::<
            Seq<char>,
            QueryError,
        >(error),
{
    lemma_hex_round_trip(notice_tag(error, secret));
}

// ----- the notice ---------------------------------------------------------------------

/// What stands for a character in HTML text: an entity for `"`, `&`, `'`,
/// `<` and `>`, the character itself otherwise.
pub open spec fn html_entity(c: char) -> Seq<char> {
    if c == '"' {
        "&quot;"@
    } else if c == '&' {
        "&amp;"@
    } else if c == '\'' {
        "&#x27;"@
    } else if c == '<' {
        "&lt;"@
    } else if c == '>' {
        "&gt;"@
    } else {
        seq![c]
    }
}

/// A text with each character replaced by what stands for it in HTML.
pub open spec fn html_escaped(text: Seq<char>) -> Seq<char>
    decreases text.len(),
{
    if text.len() == 0 {
        Seq::empty()
    } else {
        html_escaped(text.drop_last()) + html_entity(text.last())
    }
}

/// Calls `htmlescape::encode_minimal`, which replaces `"`, `&`, `'`, `<`
/// and `>` by their entities and keeps every other character.
#[verifier::external_body]
fn html_escape(text: &str) -> (escaped: String)
    ensures
        escaped@ == html_escaped(text@),
{
    htmlescape::encode_minimal(text)
}

/// The paragraph that shows a verified notice, and nothing where there is
/// none to show.
pub open spec fn notice_html(verdict: Result<Seq<char>, QueryError>) -> Seq<char> {
    match verdict {
        Ok(error) => "<p><i>"@ + html_escaped(error) + "</i></p>"@,
        Err(_) => Seq::empty(),
    }
}

/// The paragraph for the verdict on a query string.
pub fn render_notice(verdict: Result<String, QueryError>) -> (html: String)
    ensures
        html@ == notice_html(error_result(verdict)),
{
    match verdict {
        Ok(error) => {
            let mut html = String::from_str("<p><i>");
            let escaped = html_escape(error.as_str());
            html.append(escaped.as_str());
            html.append("</i></p>");
            html
        },
        Err(_) => String::new(),
    }
}

/// The error notice of the login page for a query string, as HTML: the
/// escaped notice in a paragraph where the tag verifies, nothing otherwise.
pub fn login_error_html(query: QueryParams, secret: &HmacSecret) -> (html: String)
    ensures
        html@ == notice_html(verified_error(text_of(query.error), text_of(query.tag), secret.0@)),
{
    render_notice(query.verify(secret))
}

} // verus!
