//! What is decided about a request before it goes out and about a response
//! when it comes back. Sending and receiving themselves happen elsewhere.

use vstd::prelude::*;
use crate::app::{BodyContentType, Request, Response, ResponseView};
use crate::chars::to_chars;

verus! {

/// What a request carries as its body.
#[derive(Clone, Copy, Debug, PartialEq, Eq, Structural)]
pub enum Payload {
    Nothing,
    Text,
    Form,
}

/// `s` without the whitespace at its start and at its end, as `str::trim`
/// takes it off.
pub uninterp spec fn trimmed(s: Seq<char>) -> Seq<char>;

/// `str::trim`: the slice of `s` between its leading and its trailing
/// whitespace.
#[verifier::external_body]
fn trim(s: &str) -> (r: &str)
    ensures
        r@ == trimmed(s@),
{
    s.trim()
}

/// `s` in lower case, as `str::to_lowercase` writes it.
pub uninterp spec fn lowercased(s: Seq<char>) -> Seq<char>;

/// `str::to_lowercase`: the lower case equivalent of `s`, as a new string.
#[verifier::external_body]
fn to_lowercase(s: &str) -> (r: String)
    ensures
        r@ == lowercased(s@),
{
    s.to_lowercase()
}

/// `needle` occurs in `haystack`, as a run of neighbours.
pub open spec fn occurs_in(needle: Seq<char>, haystack: Seq<char>) -> bool {
    exists|i: int|
        0 <= i && i + needle.len() <= haystack.len() && #[trigger] haystack.subrange(
            i,
            i + needle.len(),
        ) == needle
}

/// Whether `needle` stands in `haystack` at the place `at`.
fn stands_at(haystack: &Vec<char>, needle: &Vec<char>, at: usize) -> (r: bool)
    requires
        at + needle.len() <= haystack.len(),
    ensures
        r == (haystack@.subrange(at as int, at + needle.len()) == needle@),
{
    let ghost part = haystack@.subrange(at as int, at + needle.len());
    let mut k: usize = 0;
    while k < needle.len()
        invariant
            k <= needle.len(),
            at + needle.len() <= haystack.len(),
            part == haystack@.subrange(at as int, at + needle.len()),
            forall|j: int| 0 <= j < k ==> part[j] == needle@[j],
        decreases needle.len() - k,
    {
        if haystack[at + k] != needle[k] {
            assert(part[k as int] != needle@[k as int]);
            return false;
        }
        k += 1;
    }
    assert(part =~= needle@);
    true
}

/// Whether `needle` occurs in `haystack`.
pub fn contains(haystack: &str, needle: &str) -> (r: bool)
    ensures
        r == occurs_in(needle@, haystack@),
{
    let text = to_chars(haystack);
    let wanted = to_chars(needle);
    if wanted.len() > text.len() {
        return false;
    }
    if wanted.len() == 0 {
        assert(haystack@.subrange(0int, 0int + needle@.len()) =~= needle@);
        return true;
    }
    let last = text.len() - wanted.len();
    let mut at: usize = 0;
    while at <= last
        invariant
            at <= last + 1,
            last == text.len() - wanted.len(),
            0 < wanted.len() <= text.len(),
            text@ == haystack@,
            wanted@ == needle@,
            forall|i: int|
                0 <= i < at ==> #[trigger] text@.subrange(i, i + wanted.len()) != wanted@,
        decreases last + 1 - at,
    {
        if stands_at(&text, &wanted, at) {
            return true;
        }
        at += 1;
    }
    false
}

/// What a request of the given kind of body carries, where `body_is_empty`
/// says that its text is empty once trimmed: a text that is all whitespace
/// is not sent.
pub open spec fn payload_of(kind: BodyContentType, body_is_empty: bool) -> Payload {
    match kind {
        BodyContentType::Text(_) => if body_is_empty {
            Payload::Nothing
        } else {
            Payload::Text
        },
        BodyContentType::Form => Payload::Form,
    }
}

/// What a request of the given kind of body carries, where `body_is_empty`
/// says that its text is empty once trimmed.
pub fn payload_for(kind: BodyContentType, body_is_empty: bool) -> (r: Payload)
    ensures
        r == payload_of(kind, body_is_empty),
{
    match kind {
        BodyContentType::Text(_) => if body_is_empty {
            Payload::Nothing
        } else {
            Payload::Text
        },
        BodyContentType::Form => Payload::Form,
    }
}

/// What `request` carries as its body.
pub fn payload(request: &Request) -> (r: Payload)
    ensures
        r == payload_of(request@.body_content_type, trimmed(request@.body).len() == 0),
{
    let body = trim(request.body.as_str());
    payload_for(request.body_content_type, body.is_empty())
}

/// The content type under which a response is kept, where `lowered` is what
/// its header said, in lower case, and `is_json` says whether JSON is named
/// in it: JSON is kept under its plain name, whatever else the header said.
pub open spec fn kept_content_type(lowered: Seq<char>, is_json: bool) -> Seq<char> {
    if is_json {
        "application/json"@
    } else {
        lowered
    }
}

/// The content type under which a response is kept, where `lowered` is what
/// its header said, in lower case, and `is_json` says whether JSON is named
/// in it.
pub fn content_type_for(lowered: String, is_json: bool) -> (r: String)
    ensures
        r@ == kept_content_type(lowered@, is_json),
{
    if is_json {
        "application/json".to_owned()
    } else {
        lowered
    }
}

/// Whether a response whose content type header says `header` holds JSON:
/// whether the header, in lower case, names it.
pub fn is_json(header: &str) -> (r: bool)
    ensures
        r == occurs_in("application/json"@, lowercased(header@)),
{
    let lowered = to_lowercase(header);
    contains(lowered.as_str(), "application/json")
}

/// The content type under which a response is kept whose content type
/// header says `header`.
pub fn content_type_of(header: &str) -> (r: String)
    ensures
        r@ == kept_content_type(
            lowercased(header@),
            occurs_in("application/json"@, lowercased(header@)),
        ),
{
    let lowered = to_lowercase(header);
    let json = contains(lowered.as_str(), "application/json");
    content_type_for(lowered, json)
}

/// The response with the given status and text, kept under the content type
/// that its header `header` gives.
pub fn response_of(status_code: u16, header: &str, text: String) -> (r: Response)
    ensures
        r@ == (ResponseView {
            status_code,
            content_type: kept_content_type(
                lowercased(header@),
                occurs_in("application/json"@, lowercased(header@)),
            ),
            text: text@,
        }),
{
    Response { status_code, content_type: content_type_of(header), text }
}

} // verus!
