//! The caller-supplied token that makes a command safe to submit twice.

use vstd::prelude::*;
use vstd::string::*;

verus! {

/// The longest idempotency key that is accepted, in characters.
pub const MAX_KEY_LENGTH: usize = 50;

/// A character counts as printable unless it is a control character
/// (U+0000 to U+001F and U+007F to U+009F).
pub open spec fn is_printable(c: char) -> bool {
    !(c as u32 <= 0x1f || 0x7f <= c as u32 <= 0x9f)
}

/// Every character of `text` is printable.
pub open spec fn all_printable(text: Seq<char>) -> bool {
    forall|i: int| 0 <= i < text.len() ==> is_printable(#[trigger] text[i])
}

/// The texts that are idempotency keys: one to fifty printable characters.
pub open spec fn is_valid_key(text: Seq<char>) -> bool {
    &&& 1 <= text.len() <= MAX_KEY_LENGTH
    &&& all_printable(text)
}

/// Why a text was refused as an idempotency key.
#[derive(Clone, Copy, Debug, PartialEq, Eq, Structural)]
pub enum KeyError {
    /// The text has no characters.
    Empty,
    /// The text has more than fifty characters.
    TooLong,
    /// The text is short enough but holds a control character.
    NotPrintable,
}

/// The reason for which `text` is refused, or `None` where it is a key.
/// Emptiness is reported first, then length, then content.
pub open spec fn key_rejection(text: Seq<char>) -> Option<KeyError> {
    if text.len() == 0 {
        Some(KeyError::Empty)
    } else if text.len() > MAX_KEY_LENGTH {
        Some(KeyError::TooLong)
    } else if !all_printable(text) {
        Some(KeyError::NotPrintable)
    } else {
        None
    }
}

/// The texts that are accepted are the valid ones: a text is a key exactly
/// when there is no reason to refuse it.
pub proof fn law_accepted_iff_valid(text: Seq<char>)
    ensures
        is_valid_key(text) <==> key_rejection(text) is None,
{
}

/// The sentence that tells the submitter why the key was refused.
pub open spec fn rejection_message(reason: KeyError) -> Seq<char> {
    match reason {
        KeyError::Empty => "The idempotency key cannot be empty"@,
        KeyError::TooLong => "The idempotency key must be at most 50 characters long"@,
        KeyError::NotPrintable => "The idempotency key must consist of printable characters"@,
    }
}

impl KeyError {
    /// The sentence shown to the submitter.
    pub fn message(&self) -> (text: &'static str)
        ensures
            text@ == rejection_message(*self),
    {
        match self {
            KeyError::Empty => "The idempotency key cannot be empty",
            KeyError::TooLong => "The idempotency key must be at most 50 characters long",
            KeyError::NotPrintable => "The idempotency key must consist of printable characters",
        }
    }
}

/// A validated idempotency key. Two keys are the same key when their texts
/// are equal, character for character.
#[derive(Debug)]
pub struct IdempotencyKey {
    text: String,
}

impl View for IdempotencyKey {
    type V = Seq<char>;

    closed spec fn view(&self) -> Seq<char> {
        self.text@
    }
}

/// Whether `c` is printable, computed.
pub fn char_is_printable(c: char) -> (printable: bool)
    ensures
        printable == is_printable(c),
{
    let code: u32 = c as u32;
    !(code <= 0x1f || (0x7f <= code && code <= 0x9f))
}

/// Whether every character of `text` is printable, computed.
pub fn text_is_printable(text: &str) -> (printable: bool)
    ensures
        printable == all_printable(text@),
{
    let n: usize = text.unicode_len();
    let mut i: usize = 0;
    while i < n
        invariant
            n == text@.len(),
            i <= n,
            forall|j: int| 0 <= j < i ==> is_printable(#[trigger] text@[j]),
        decreases n - i,
    {
        if !char_is_printable(text.get_char(i)) {
            return false;
        }
        i += 1;
    }
    true
}

impl IdempotencyKey {
    #[verifier::type_invariant]
    spec fn well_formed(self) -> bool {
        is_valid_key(self.text@)
    }

    /// Accepts `raw` exactly when it has one to fifty characters, all of them
    /// printable, and keeps the text unchanged.
    pub fn parse(raw: String) -> (parsed: Result<IdempotencyKey, KeyError>)
        ensures
            match parsed {
                Ok(key) => key_rejection(raw@) is None && key@ == raw@,
                Err(reason) => key_rejection(raw@) == Some(reason),
            },
    {
        let n: usize = raw.as_str().unicode_len();
        if n == 0 {
            Err(KeyError::Empty)
        } else if n > MAX_KEY_LENGTH {
            Err(KeyError::TooLong)
        } else if !text_is_printable(raw.as_str()) {
            Err(KeyError::NotPrintable)
        } else {
            Ok(IdempotencyKey { text: raw })
        }
    }

    /// The key's text.
    pub fn as_str(&self) -> (text: &str)
        ensures
            text@ == self@,
            is_valid_key(text@),
    {
        proof {
            use_type_invariant(self);
        }
        self.text.as_str()
    }

    pub(crate) fn as_string(&self) -> (text: &String)
        ensures
            text@ == self@,
            is_valid_key(text@),
    {
        proof {
            use_type_invariant(self);
        }
        &self.text
    }

    /// Gives the text back.
    pub fn into_string(self) -> (text: String)
        ensures
            text@ == self@,
            is_valid_key(text@),
    {
        proof {
            use_type_invariant(&self);
        }
        self.text
    }

    /// Exact equality of the two texts.
    pub fn same_key(&self, other: &IdempotencyKey) -> (same: bool)
        ensures
            same == (self@ == other@),
    {
        self.text == other.text
    }

    /// A second handle on the same key.
    pub fn duplicate(&self) -> (copy: IdempotencyKey)
        ensures
            copy@ == self@,
    {
        proof {
            use_type_invariant(self);
        }
        IdempotencyKey { text: self.text.clone() }
    }
}

} // verus!
