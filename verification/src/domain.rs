//! The values that a subscriber is made of: an email address and a name,
//! each of which exists only where it is valid.

use unicode_segmentation::UnicodeSegmentation;
use vstd::prelude::*;
use vstd::string::*;

verus! {

// ----- the email address -----------------------------------------------------------

/// Whether a text is an email address, as `validator::validate_email`
/// decides by the rules that HTML gives for its email fields.
pub uninterp spec fn is_valid_email(text: Seq<char>) -> bool;

/// Calls `validator::validate_email`. The verdict depends on the text
/// alone; a text without an `@` is never an address.
#[verifier::external_body]
fn validate_email(text: &str) -> (valid: bool)
    ensures
        valid == is_valid_email(text@),
        valid ==> text@.contains('@'),
{
    validator::validate_email(text)
}

/// What is said of a text that is no email address.
pub open spec fn invalid_email_message(text: Seq<char>) -> Seq<char> {
    text + " is not a valid subscriber email."@
}

/// The email address of a subscriber.
#[derive(Debug, PartialEq, Eq)]
pub struct SubscriberEmail(String);

impl View for SubscriberEmail {
    type V = Seq<char>;

    closed spec fn view(&self) -> Seq<char> {
        self.0@
    }
}

impl SubscriberEmail {
    #[verifier::type_invariant]
    spec fn well_formed(self) -> bool {
        is_valid_email(self.0@)
    }

    /// Makes an address of a text whose validity is known.
    pub fn from_checked(text: String, valid: bool) -> (parsed: Result<SubscriberEmail, String>)
        requires
            valid == is_valid_email(text@),
        ensures
            match parsed {
                Ok(email) => valid && email@ == text@,
                Err(message) => !valid && message@ == invalid_email_message(text@),
            },
    {
        if valid {
            Ok(SubscriberEmail(text))
        } else {
            Err(text.concat(" is not a valid subscriber email."))
        }
    }

    /// Accepts the text exactly when it is an email address, and keeps it
    /// unchanged.
    pub fn parse(text: String) -> (parsed: Result<SubscriberEmail, String>)
        ensures
            match parsed {
                Ok(email) => is_valid_email(text@) && email@ == text@,
                Err(message) => !is_valid_email(text@) && message@ == invalid_email_message(text@),
            },
    {
        let valid = validate_email(text.as_str());
        SubscriberEmail::from_checked(text, valid)
    }

    /// The address as text.
    pub fn as_ref(&self) -> (text: &str)
        ensures
            text@ == self@,
            is_valid_email(text@),
    {
        proof {
            use_type_invariant(self);
        }
        self.0.as_str()
    }

    /// A second handle on the same address.
    pub fn duplicate(&self) -> (copy: SubscriberEmail)
        ensures
            copy@ == self@,
    {
        proof {
            use_type_invariant(self);
        }
        SubscriberEmail(self.0.clone())
    }
}

// ----- the name ------------------------------------------------------------------------

/// The longest name that is accepted, in grapheme clusters.
pub const MAX_NAME_LENGTH: usize = 256;

/// The number of extended grapheme clusters of a text, as the crate
/// `unicode-segmentation` counts them.
pub uninterp spec fn grapheme_count(text: Seq<char>) -> nat;

/// Counts what `UnicodeSegmentation::graphemes` yields for the text with
/// extended clusters. The count depends on the text alone.
#[verifier::external_body]
fn count_graphemes(text: &str) -> (count: usize)
    ensures
        count == grapheme_count(text@),
{
    text.graphemes(true).count()
}

/// A text without its leading and trailing whitespace, as `str::trim`
/// gives it.
pub uninterp spec fn trimmed(text: Seq<char>) -> Seq<char>;

/// Calls `str::trim`, which removes leading and trailing whitespace by the
/// rules of Unicode. The result depends on the text alone.
#[verifier::external_body]
fn trim(text: &str) -> (inner: &str)
    ensures
        inner@ == trimmed(text@),
{
    text.trim()
}

/// The characters that a name may not hold.
pub open spec fn is_forbidden(c: char) -> bool {
    c == '/' || c == '(' || c == ')' || c == '"' || c == '<' || c == '>' || c == '\\' || c == '{'
        || c == '}'
}

/// The text holds a character that a name may not hold.
pub open spec fn has_forbidden(text: Seq<char>) -> bool {
    exists|i: int| 0 <= i < text.len() && is_forbidden(#[trigger] text[i])
}

/// Whether a text is a name, given whether it is blank and how many
/// grapheme clusters it has: it must not be blank, not be longer than 256
/// clusters, and hold none of the forbidden characters.
pub open spec fn name_passes(text: Seq<char>, blank: bool, graphemes: nat) -> bool {
    !blank && graphemes <= MAX_NAME_LENGTH && !has_forbidden(text)
}

/// Whether a text is a name.
pub open spec fn is_valid_name(text: Seq<char>) -> bool {
    name_passes(text, trimmed(text).len() == 0, grapheme_count(text))
}

/// What is said of a text that is no name.
pub open spec fn invalid_name_message(text: Seq<char>) -> Seq<char> {
    text + " is not a valid subscriber name."@
}

/// Whether `c` is one of the characters that a name may not hold.
pub fn char_is_forbidden(c: char) -> (forbidden: bool)
    ensures
        forbidden == is_forbidden(c),
{
    c == '/' || c == '(' || c == ')' || c == '"' || c == '<' || c == '>' || c == '\\' || c == '{'
        || c == '}'
}

/// Whether the text holds a forbidden character.
pub fn contains_forbidden_characters(text: &str) -> (found: bool)
    ensures
        found == has_forbidden(text@),
{
    let n: usize = text.unicode_len();
    let mut i: usize = 0;
    while i < n
        invariant
            n == text@.len(),
            i <= n,
            forall|j: int| 0 <= j < i ==> !is_forbidden(#[trigger] text@[j]),
        decreases n - i,
    {
        if char_is_forbidden(text.get_char(i)) {
            return true;
        }
        i += 1;
    }
    false
}

/// Whether a text is a name, given whether it is blank and how many
/// grapheme clusters it has.
pub fn name_is_acceptable(text: &str, blank: bool, graphemes: usize) -> (acceptable: bool)
    ensures
        acceptable == name_passes(text@, blank, graphemes as nat),
{
    !blank && graphemes <= MAX_NAME_LENGTH && !contains_forbidden_characters(text)
}

/// The name of a subscriber.
#[derive(Debug, PartialEq, Eq)]
pub struct SubscriberName(String);

impl View for SubscriberName {
    type V = Seq<char>;

    closed spec fn view(&self) -> Seq<char> {
        self.0@
    }
}

impl SubscriberName {
    #[verifier::type_invariant]
    spec fn well_formed(self) -> bool {
        is_valid_name(self.0@)
    }

    /// Accepts the text exactly when it is a name, and keeps it unchanged.
    pub fn parse(text: String) -> (parsed: Result<SubscriberName, String>)
        ensures
            match parsed {
                Ok(name) => is_valid_name(text@) && name@ == text@,
                Err(message) => !is_valid_name(text@) && message@ == invalid_name_message(text@),
            },
    {
        let blank = trim(text.as_str()).unicode_len() == 0;
        let graphemes = count_graphemes(text.as_str());
        if name_is_acceptable(text.as_str(), blank, graphemes) {
            Ok(SubscriberName(text))
        } else {
            Err(text.concat(" is not a valid subscriber name."))
        }
    }

    /// The name as text.
    pub fn as_ref(&self) -> (text: &str)
        ensures
            text@ == self@,
            is_valid_name(text@),
    {
        proof {
            use_type_invariant(self);
        }
        self.0.as_str()
    }
}

// ----- the subscriber ---------------------------------------------------------------------

/// What a person enters to subscribe, once it has been found valid.
#[derive(Debug, PartialEq, Eq)]
pub struct NewSubscriber {
    pub email: SubscriberEmail,
    pub name: SubscriberName,
}

/// A subscriber who is confirmed and whose stored contact is an address.
#[derive(Debug, PartialEq, Eq)]
pub struct ConfirmedSubscriber {
    pub email: SubscriberEmail,
}

} // verus!
