//! The HTTP-shaped result of a command: what is handed back to the submitter
//! the first time, and replayed byte for byte on every duplicate.

use vstd::prelude::*;
use vstd::string::*;

verus! {

/// One header of a response: its name and the bytes of its value.
#[derive(Debug, PartialEq, Eq)]
pub struct HeaderPair {
    pub name: String,
    pub value: Vec<u8>,
}

/// A status code, the headers in the order they were set, and the body.
#[derive(Debug, PartialEq, Eq)]
pub struct Response {
    pub status_code: u16,
    pub headers: Vec<HeaderPair>,
    pub body: Vec<u8>,
}

/// What a header is, as a value.
pub struct HeaderView {
    pub name: Seq<char>,
    pub value: Seq<u8>,
}

/// What a response is, as a value. Two responses with the same view are
/// byte-identical.
pub struct ResponseView {
    pub status_code: u16,
    pub headers: Seq<HeaderView>,
    pub body: Seq<u8>,
}

impl View for HeaderPair {
    type V = HeaderView;

    open spec fn view(&self) -> HeaderView {
        HeaderView { name: self.name@, value: self.value@ }
    }
}

/// The headers of a response, one view per header, in order.
pub open spec fn headers_view(headers: Seq<HeaderPair>) -> Seq<HeaderView> {
    headers.map_values(|h: HeaderPair| h@)
}

impl View for Response {
    type V = ResponseView;

    open spec fn view(&self) -> ResponseView {
        ResponseView {
            status_code: self.status_code,
            headers: headers_view(self.headers@),
            body: self.body@,
        }
    }
}

/// The status of a redirect that tells the browser to fetch another page.
pub const SEE_OTHER: u16 = 303;

/// The status of a request that was malformed.
pub const BAD_REQUEST: u16 = 400;

/// The status of a request that lacked valid credentials.
pub const UNAUTHORIZED: u16 = 401;

/// The status of a request that failed for no fault of the submitter.
pub const INTERNAL_SERVER_ERROR: u16 = 500;

/// The response with status `status_code`, no headers and `body`.
pub open spec fn plain_response(status_code: u16, body: Seq<u8>) -> ResponseView {
    ResponseView { status_code, headers: Seq::empty(), body }
}

/// The redirect to `location`: status 303 and a `Location` header that holds
/// the UTF-8 bytes of `location`.
pub open spec fn see_other_response(location: Seq<char>) -> ResponseView {
    ResponseView {
        status_code: SEE_OTHER,
        headers: seq![HeaderView { name: "Location"@, value: vstd::utf8::encode_utf8(location) }],
        body: Seq::empty(),
    }
}

/// A copy of `bytes`.
fn copy_bytes(bytes: &Vec<u8>) -> (copy: Vec<u8>)
    ensures
        copy@ == bytes@,
{
    let mut copy: Vec<u8> = Vec::new();
    let mut i: usize = 0;
    while i < bytes.len()
        invariant
            i <= bytes.len(),
            copy@ == bytes@.subrange(0, i as int),
        decreases bytes.len() - i,
    {
        copy.push(bytes[i]);
        i += 1;
        assert(copy@ =~= bytes@.subrange(0, i as int));
    }
    assert(bytes@.subrange(0, bytes.len() as int) =~= bytes@);
    copy
}

impl HeaderPair {
    /// A copy of this header.
    pub fn duplicate(&self) -> (copy: HeaderPair)
        ensures
            copy@ == self@,
    {
        HeaderPair { name: self.name.clone(), value: copy_bytes(&self.value) }
    }
}

impl Response {
    /// The response with status `status_code`, no headers and `body`.
    pub fn new(status_code: u16, body: Vec<u8>) -> (response: Response)
        ensures
            response@ == plain_response(status_code, body@),
    {
        let response = Response { status_code, headers: Vec::new(), body };
        assert(response@.headers =~= Seq::empty());
        response
    }

    /// The redirect to `location`.
    pub fn see_other(location: &str) -> (response: Response)
        ensures
            response@ == see_other_response(location@),
    {
        let mut headers: Vec<HeaderPair> = Vec::new();
        headers.push(
            HeaderPair { name: String::from_str("Location"), value: location.as_bytes_vec() },
        );
        let response = Response { status_code: SEE_OTHER, headers, body: Vec::new() };
        assert(response@.headers =~= see_other_response(location@).headers);
        assert(response@.body =~= Seq::empty());
        response
    }

    /// Status 400 with `message` as the body.
    pub fn bad_request(message: &str) -> (response: Response)
        ensures
            response@ == plain_response(BAD_REQUEST, vstd::utf8::encode_utf8(message@)),
    {
        Response::new(BAD_REQUEST, message.as_bytes_vec())
    }

    /// Status 500 with `message` as the body.
    pub fn internal_error(message: &str) -> (response: Response)
        ensures
            response@ == plain_response(INTERNAL_SERVER_ERROR, vstd::utf8::encode_utf8(message@)),
    {
        Response::new(INTERNAL_SERVER_ERROR, message.as_bytes_vec())
    }

    /// A byte-identical copy of this response.
    pub fn duplicate(&self) -> (copy: Response)
        ensures
            copy@ == self@,
    {
        let mut headers: Vec<HeaderPair> = Vec::new();
        let mut i: usize = 0;
        while i < self.headers.len()
            invariant
                i <= self.headers.len(),
                headers@.len() == i,
                forall|j: int| 0 <= j < i ==> (#[trigger] headers@[j])@ == self.headers@[j]@,
            decreases self.headers.len() - i,
        {
            headers.push(self.headers[i].duplicate());
            i += 1;
        }
        let copy = Response { status_code: self.status_code, headers, body: copy_bytes(&self.body) };
        assert(copy@.headers =~= self@.headers);
        copy
    }

    /// Whether the two responses are byte-identical.
    pub fn same_as(&self, other: &Response) -> (same: bool)
        ensures
            same == (self@ == other@),
    {
        if self.status_code != other.status_code || self.headers.len() != other.headers.len()
            || !bytes_equal(&self.body, &other.body) {
            proof {
                if self@ == other@ {
                    assert(self@.headers.len() == other@.headers.len());
                }
            }
            return false;
        }
        let mut i: usize = 0;
        while i < self.headers.len()
            invariant
                i <= self.headers.len(),
                self.headers.len() == other.headers.len(),
                forall|j: int| 0 <= j < i ==> (#[trigger] self.headers@[j])@ == other.headers@[j]@,
            decreases self.headers.len() - i,
        {
            if !(self.headers[i].name == other.headers[i].name) || !bytes_equal(
                &self.headers[i].value,
                &other.headers[i].value,
            ) {
                proof {
                    if self@ == other@ {
                        assert(self@.headers[i as int] == other@.headers[i as int]);
                    }
                }
                return false;
            }
            i += 1;
        }
        assert(self@.headers =~= other@.headers);
        true
    }
}

/// Whether the two byte strings are equal.
fn bytes_equal(a: &Vec<u8>, b: &Vec<u8>) -> (same: bool)
    ensures
        same == (a@ == b@),
{
    if a.len() != b.len() {
        return false;
    }
    let mut i: usize = 0;
    while i < a.len()
        invariant
            i <= a.len(),
            a.len() == b.len(),
            forall|j: int| 0 <= j < i ==> a@[j] == b@[j],
        decreases a.len() - i,
    {
        if a[i] != b[i] {
            return false;
        }
        i += 1;
    }
    assert(a@ =~= b@);
    true
}

} // verus!
