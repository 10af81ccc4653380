//! Header extraction. The proxy streams header frames as flat lists of
//! key/value pairs, pseudo-headers included; this module turns such a list
//! into a neutral request or response value, consuming the pseudo-headers
//! and hiding them from the plugin-visible header list.

use vstd::prelude::*;
use core::str::FromStr;
use crate::tags::str_eq;

verus! {

/// A parsed request as the plugins see it: the pseudo-header fields made
/// explicit, the remaining headers in arrival order, and a body marker.
#[derive(Clone, Debug)]
pub struct HttpRequest {
    pub method: String,
    pub path: String,
    pub scheme: String,
    pub authority: String,
    pub headers: Vec<(String, String)>,
    pub end_of_stream: bool,
}

/// A parsed response: its status pseudo-header and the remaining headers.
#[derive(Clone, Debug)]
pub struct HttpResponse {
    pub status: String,
    pub headers: Vec<(String, String)>,
    pub end_of_stream: bool,
}

/// Why a header frame could not be turned into a request or response.
#[derive(Clone, Debug)]
pub enum ExtractError {
    /// A required pseudo-header was absent; carries the missing name.
    MissingPseudoHeader(String),
    /// The method token is not a valid HTTP method.
    MalformedMethod,
}

/// The value of the first header with the given name, if any.
pub open spec fn spec_header_lookup(hs: Seq<(String, String)>, name: Seq<char>) -> Option<
    Seq<char>,
>
    decreases hs.len(),
{
    if hs.len() == 0 {
        None
    } else if hs[0].0@ == name {
        Some(hs[0].1@)
    } else {
        spec_header_lookup(hs.skip(1), name)
    }
}

/// A pseudo-header key: one that begins with a colon.
pub open spec fn is_pseudo(k: Seq<char>) -> bool {
    k.len() > 0 && k[0] == ':'
}

/// The headers of a frame with the pseudo-headers removed, order kept.
pub open spec fn spec_visible_headers(hs: Seq<(String, String)>) -> Seq<(String, String)>
    decreases hs.len(),
{
    if hs.len() == 0 {
        hs
    } else {
        let rest = spec_visible_headers(hs.drop_last());
        if is_pseudo(hs.last().0@) {
            rest
        } else {
            rest.push(hs.last())
        }
    }
}

/// A character http accepts in a method token: the RFC token characters.
pub open spec fn is_method_char(c: char) -> bool {
    c == '!' || c == '#' || c == '$' || c == '%' || c == '&' || c == '\'' || c == '*' || c == '+'
        || c == '-' || c == '.' || c == '^' || c == '_' || c == '`' || c == '|' || c == '~' || (
    '0' as u32 <= c as u32 && c as u32 <= '9' as u32) || ('A' as u32 <= c as u32 && c as u32
        <= 'Z' as u32) || ('a' as u32 <= c as u32 && c as u32 <= 'z' as u32)
}

/// A token http's method parser accepts: non-empty and all token
/// characters.
pub open spec fn spec_method_token(s: Seq<char>) -> bool {
    s.len() > 0 && forall|i: int| 0 <= i < s.len() ==> is_method_char(s[i])
}

/// Relies on http::Method::from_str, which accepts exactly the non-empty
/// tokens whose bytes are all in http's method-character table; those are
/// the ASCII token characters, so the byte test and the character test
/// agree.
#[verifier::external_body]
fn method_token_parses(s: &str) -> (r: bool)
    ensures
        r == spec_method_token(s@),
{
    http::Method::from_str(s).is_ok()
}

/// Looks a header name up in a frame's header list, returning the value
/// of its first occurrence.
pub fn get_header_value(hs: &Vec<(String, String)>, name: &str) -> (r: Option<String>)
    ensures
        match r {
            Some(v) => spec_header_lookup(hs@, name@) == Some(v@),
            None => spec_header_lookup(hs@, name@) is None,
        },
{
    let mut i: usize = 0;
    proof {
        assert(hs@.skip(0) =~= hs@);
    }
    loop
        invariant
            0 <= i <= hs@.len(),
            spec_header_lookup(hs@, name@) == spec_header_lookup(
                hs@.skip(i as int),
                name@,
            ),
        decreases hs@.len() - i,
    {
        if i >= hs.len() {
            return None;
        }
        proof {
            assert(hs@.skip(i as int)[0] == hs@[i as int]);
        }
        if str_eq(hs[i].0.as_str(), name) {
            return Some(hs[i].1.clone());
        }
        proof {
            assert(hs@.skip(i as int).skip(1) =~= hs@.skip(i + 1));
        }
        i += 1;
    }
}

/// Whether a header key is a pseudo-header key.
fn is_pseudo_key(k: &String) -> (r: bool)
    ensures
        r == is_pseudo(k@),
{
    let len = k.as_str().unicode_len();
    if len == 0 {
        false
    } else {
        k.as_str().get_char(0) == ':'
    }
}

/// Copies the non-pseudo headers of a frame, in order.
fn visible_headers(hs: &Vec<(String, String)>) -> (r: Vec<(String, String)>)
    ensures
        r@ == spec_visible_headers(hs@),
{
    let mut out: Vec<(String, String)> = Vec::new();
    let mut i: usize = 0;
    while i < hs.len()
        invariant
            0 <= i <= hs@.len(),
            out@ == spec_visible_headers(hs@.take(i as int)),
        decreases hs@.len() - i,
    {
        proof {
            assert(hs@.take(i + 1).drop_last() =~= hs@.take(i as int));
            assert(hs@.take(i + 1).last() == hs@[i as int]);
        }
        if !is_pseudo_key(&hs[i].0) {
            out.push((hs[i].0.clone(), hs[i].1.clone()));
        }
        i += 1;
    }
    proof {
        assert(hs@.take(hs@.len() as int) =~= hs@);
    }
    out
}

/// Whether extracting a request from this header list succeeds: all four
/// request pseudo-headers present and a well-formed method token.
pub open spec fn spec_request_extractable(hs: Seq<(String, String)>) -> bool {
    spec_header_lookup(hs, ":authority"@) is Some && spec_header_lookup(hs, ":scheme"@) is Some
        && spec_header_lookup(hs, ":method"@) is Some && spec_method_token(
        spec_header_lookup(hs, ":method"@).unwrap(),
    ) && spec_header_lookup(hs, ":path"@) is Some
}

/// Turns a request header frame into a neutral request value. The
/// pseudo-headers must all be present and the method must be a valid
/// token; they populate the request and are dropped from its header list.
pub fn extract_request(hs: &Vec<(String, String)>, end_of_stream: bool) -> (r: Result<
    HttpRequest,
    ExtractError,
>)
    ensures
        r is Ok <==> spec_request_extractable(hs@),
        match r {
            Ok(req) => {
                &&& Some(req.method@) == spec_header_lookup(hs@, ":method"@)
                &&& Some(req.path@) == spec_header_lookup(hs@, ":path"@)
                &&& Some(req.scheme@) == spec_header_lookup(hs@, ":scheme"@)
                &&& Some(req.authority@) == spec_header_lookup(hs@, ":authority"@)
                &&& req.headers@ == spec_visible_headers(hs@)
                &&& req.end_of_stream == end_of_stream
            },
            Err(ExtractError::MissingPseudoHeader(n)) => {
                ||| (n@ == ":authority"@ && spec_header_lookup(hs@, ":authority"@) is None)
                ||| (n@ == ":scheme"@ && spec_header_lookup(hs@, ":authority"@) is Some
                    && spec_header_lookup(hs@, ":scheme"@) is None)
                ||| (n@ == ":method"@ && spec_header_lookup(hs@, ":authority"@) is Some
                    && spec_header_lookup(hs@, ":scheme"@) is Some && spec_header_lookup(
                    hs@,
                    ":method"@,
                ) is None)
                ||| (n@ == ":path"@ && spec_header_lookup(hs@, ":authority"@) is Some
                    && spec_header_lookup(hs@, ":scheme"@) is Some && spec_header_lookup(
                    hs@,
                    ":method"@,
                ) is Some && spec_method_token(spec_header_lookup(hs@, ":method"@).unwrap())
                    && spec_header_lookup(hs@, ":path"@) is None)
            },
            Err(ExtractError::MalformedMethod) => spec_header_lookup(hs@, ":method"@) is Some
                && !spec_method_token(spec_header_lookup(hs@, ":method"@).unwrap()),
        },
{
    let authority = match get_header_value(hs, ":authority") {
        Some(v) => v,
        None => {
            return Err(ExtractError::MissingPseudoHeader(":authority".to_owned()));
        },
    };
    let scheme = match get_header_value(hs, ":scheme") {
        Some(v) => v,
        None => {
            return Err(ExtractError::MissingPseudoHeader(":scheme".to_owned()));
        },
    };
    let method = match get_header_value(hs, ":method") {
        Some(v) => v,
        None => {
            return Err(ExtractError::MissingPseudoHeader(":method".to_owned()));
        },
    };
    if !method_token_parses(method.as_str()) {
        return Err(ExtractError::MalformedMethod);
    }
    let path = match get_header_value(hs, ":path") {
        Some(v) => v,
        None => {
            return Err(ExtractError::MissingPseudoHeader(":path".to_owned()));
        },
    };
    Ok(
        HttpRequest {
            method,
            path,
            scheme,
            authority,
            headers: visible_headers(hs),
            end_of_stream,
        },
    )
}

/// Whether extracting a response from this header list succeeds: the
/// status pseudo-header is present.
pub open spec fn spec_response_extractable(hs: Seq<(String, String)>) -> bool {
    spec_header_lookup(hs, ":status"@) is Some
}

/// Turns a response header frame into a neutral response value.
pub fn extract_response(hs: &Vec<(String, String)>, end_of_stream: bool) -> (r: Result<
    HttpResponse,
    ExtractError,
>)
    ensures
        r is Ok <==> spec_response_extractable(hs@),
        match r {
            Ok(resp) => {
                &&& Some(resp.status@) == spec_header_lookup(hs@, ":status"@)
                &&& resp.headers@ == spec_visible_headers(hs@)
                &&& resp.end_of_stream == end_of_stream
            },
            Err(ExtractError::MissingPseudoHeader(n)) => n@ == ":status"@ && spec_header_lookup(
                hs@,
                ":status"@,
            ) is None,
            Err(ExtractError::MalformedMethod) => false,
        },
{
    let status = match get_header_value(hs, ":status") {
        Some(v) => v,
        None => {
            return Err(ExtractError::MissingPseudoHeader(":status".to_owned()));
        },
    };
    Ok(HttpResponse { status, headers: visible_headers(hs), end_of_stream })
}

}
