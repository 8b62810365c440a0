//! What a request's headers say about where it came from.
//!
//! The headers stay in the header map of the `http` crate, as `axum` hands
//! it out. Two calls into that crate are taken on trust, each with the
//! contract written above it; the rest is proved from these.

use axum::http::header::ToStrError;
use axum::http::{HeaderMap, HeaderValue};
use vstd::prelude::*;

verus! {

/// The header map of the `http` crate. Nothing inside it is seen from here.
#[verifier::external_type_specification]
#[verifier::external_body]
#[verifier::reject_recursive_types(T)]
pub struct ExHeaderMap<T>(HeaderMap<T>);

/// One header value of the `http` crate. Nothing inside it is seen from here.
#[verifier::external_type_specification]
#[verifier::external_body]
pub struct ExHeaderValue(HeaderValue);

/// The error of `HeaderValue::to_str`. It carries nothing.
#[verifier::external_type_specification]
#[verifier::external_body]
pub struct ExToStrError(ToStrError);

/// What a header map holds: under each header name, written in lower case,
/// the bytes of the values that were put there, the first of them first. A
/// name under which nothing was put is no key of it.
pub uninterp spec fn held(headers: HeaderMap<HeaderValue>) -> Map<Seq<char>, Seq<Seq<u8>>>;

/// The bytes that a header value holds.
pub uninterp spec fn value_bytes(value: HeaderValue) -> Seq<u8>;

/// Whether `name` is a header name that the header map takes as it stands:
/// up to 64 lower-case letters, digits and hyphens, and at least one.
pub open spec fn is_plain_name(name: Seq<char>) -> bool {
    &&& 0 < name.len() <= 64
    &&& forall|i: int|
        0 <= i < name.len() ==> {
            let c = #[trigger] name[i];
            ('a' <= c && c <= 'z') || ('0' <= c && c <= '9') || c == '-'
        }
}

/// The header that a proxy sets to the address it received the request from.
pub open spec fn forwarded_header() -> Seq<char> {
    "x-forwarded-for"@
}

/// Whether a byte is a visible ASCII character, a space or a tab.
pub open spec fn is_visible_ascii(byte: u8) -> bool {
    (32 <= byte && byte < 127) || byte == 9
}

/// ASCII bytes as text, byte for character.
pub open spec fn ascii_text(bytes: Seq<u8>) -> Seq<char> {
    Seq::new(bytes.len(), |i: int| bytes[i] as char)
}

/// The text of a header value: there is one exactly when every byte of the
/// value is visible ASCII, a space or a tab.
pub open spec fn text_of(bytes: Seq<u8>) -> Option<Seq<char>> {
    if forall|i: int| 0 <= i < bytes.len() ==> is_visible_ascii(#[trigger] bytes[i]) {
        Some(ascii_text(bytes))
    } else {
        None
    }
}

/// The bytes of the first value that the headers hold under `name`.
pub open spec fn first_value(headers: HeaderMap<HeaderValue>, name: Seq<char>) -> Option<
    Seq<u8>,
> {
    if held(headers).contains_key(name) && held(headers)[name].len() > 0 {
        Some(held(headers)[name][0])
    } else {
        None
    }
}

/// The forwarded address that the headers carry: the text of the first
/// `x-forwarded-for` value, if there is such a value and it is text.
pub open spec fn forwarded_address(headers: HeaderMap<HeaderValue>) -> Option<Seq<char>> {
    match first_value(headers, forwarded_header()) {
        Some(bytes) => text_of(bytes),
        None => None,
    }
}

/// `HeaderMap::get` of the `http` crate, called with a string as the key.
/// Taken on trust, for a name that the map takes as it stands: the call
/// finds a value exactly when the map holds one under the name, and what it
/// finds is the first of them.
#[verifier::external_body]
fn lookup<'a>(headers: &'a HeaderMap<HeaderValue>, name: &str) -> (found: Option<&'a HeaderValue>)
    requires
        is_plain_name(name@),
    ensures
        match found {
            Some(value) => held(*headers).contains_key(name@) && held(*headers)[name@].len() > 0
                && held(*headers)[name@][0] == value_bytes(*value),
            None => !held(*headers).contains_key(name@),
        },
{
    headers.get(name)
}

/// `HeaderValue::to_str` of the `http` crate. Taken on trust: the call gives
/// a string exactly when every byte of the value is visible ASCII (32 to 126)
/// or a tab, and the string then holds these bytes as its characters.
#[verifier::external_body]
fn as_text<'a>(value: &'a HeaderValue) -> (text: Result<&'a str, ToStrError>)
    ensures
        match text {
            Ok(text) => text_of(value_bytes(*value)) == Some(text@),
            Err(_) => text_of(value_bytes(*value)) is None,
        },
{
    value.to_str()
}

/// The forwarded address of a request, where its headers carry one.
pub fn forwarded_for(headers: &HeaderMap<HeaderValue>) -> (address: Option<String>)
    ensures
        match address {
            Some(address) => forwarded_address(*headers) == Some(address@),
            None => forwarded_address(*headers) is None,
        },
{
    proof {
        reveal_strlit("x-forwarded-for");
    }
    match lookup(headers, "x-forwarded-for") {
        Some(value) => match as_text(value) {
            Ok(text) => Some(text.to_owned()),
            Err(_) => None,
        },
        None => None,
    }
}

/// The IP that a request is answered for: the forwarded address where the
/// request carries one, the address of the peer otherwise.
pub fn client_ip(forwarded_for: Option<String>, peer: String) -> (ip: String)
    ensures
        ip == match forwarded_for {
            Some(address) => address,
            None => peer,
        },
{
    match forwarded_for {
        Some(address) => address,
        None => peer,
    }
}

/// The IP that a request with these headers, from this peer, is answered for.
pub fn request_ip(headers: &HeaderMap<HeaderValue>, peer: String) -> (ip: String)
    ensures
        ip@ == match forwarded_address(*headers) {
            Some(address) => address,
            None => peer@,
        },
{
    client_ip(forwarded_for(headers), peer)
}

} // verus!
