//! Which requests the local server accepts: only those addressed to a
//! loopback host, and, for requests that change state, only those from the
//! trusted frontend (or with no `Origin` at all).
use vstd::prelude::*;

use crate::error::{AppError, AppErrorView};
use crate::text::{chars_of, str_eq, string_from_range};

verus! {

/// The origins of the frontend that may send state-changing requests.
pub open spec fn trusted_origin_spec(origin: Seq<char>) -> bool {
    origin == "http://localhost:3000"@ || origin == "http://127.0.0.1:3000"@
}

/// Whether `origin` is the trusted frontend.
pub fn is_trusted_frontend_origin(origin: &str) -> (b: bool)
    ensures
        b == trusted_origin_spec(origin@),
{
    str_eq(origin, "http://localhost:3000") || str_eq(origin, "http://127.0.0.1:3000")
}

/// The index of the first `c` in `s` at or after `i`, or `s.len()`.
pub open spec fn char_index_from(s: Seq<char>, c: char, i: int) -> int
    decreases s.len() - i,
{
    if i >= s.len() {
        s.len() as int
    } else if s[i] == c {
        i
    } else {
        char_index_from(s, c, i + 1)
    }
}

proof fn lemma_char_index_from(s: Seq<char>, c: char, i: int)
    requires
        0 <= i <= s.len(),
    ensures
        i <= char_index_from(s, c, i) <= s.len(),
    decreases s.len() - i,
{
    if i < s.len() && s[i] != c {
        lemma_char_index_from(s, c, i + 1);
    }
}

fn find_char(s: &Vec<char>, c: char, from: usize) -> (i: usize)
    requires
        from <= s.len(),
    ensures
        i == char_index_from(s@, c, from as int),
{
    let mut i = from;
    while i < s.len() && s[i] != c
        invariant
            from <= i <= s.len(),
            char_index_from(s@, c, from as int) == char_index_from(s@, c, i as int),
        decreases s.len() - i,
    {
        i += 1;
    }
    i
}

/// The host name of a `Host` header: inside the brackets of `[address]…`
/// when there is a closing bracket, and otherwise what comes before the
/// first `:`.
pub open spec fn host_name(host: Seq<char>) -> Seq<char> {
    if host.len() > 0 && host[0] == '[' && char_index_from(host, ']', 1) < host.len() {
        host.subrange(1, char_index_from(host, ']', 1))
    } else {
        host.take(char_index_from(host, ':', 0))
    }
}

pub open spec fn loopback_host_spec(host: Seq<char>) -> bool {
    let name = host_name(host);
    name == "localhost"@ || name == "127.0.0.1"@ || name == "::1"@
}

/// Whether a `Host` header names the local machine.
pub fn is_loopback_host(host: &str) -> (b: bool)
    ensures
        b == loopback_host_spec(host@),
{
    let chars = chars_of(host);
    let name = if chars.len() > 0 && chars[0] == '[' && find_char(&chars, ']', 1) < chars.len() {
        let close = find_char(&chars, ']', 1);
        proof {
            lemma_char_index_from(chars@, ']', 1);
        }
        string_from_range(&chars, 1, close)
    } else {
        let colon = find_char(&chars, ':', 0);
        proof {
            lemma_char_index_from(chars@, ':', 0);
        }
        string_from_range(&chars, 0, colon)
    };
    str_eq(name.as_str(), "localhost") || str_eq(name.as_str(), "127.0.0.1") || str_eq(
        name.as_str(),
        "::1",
    )
}

/// The method of an HTTP request.
#[derive(Debug, Clone, PartialEq, Eq)]
pub enum HttpMethod {
    Get,
    Head,
    Post,
    Put,
    Delete,
    Connect,
    Options,
    Trace,
    Patch,
    Extension(String),
}

pub open spec fn side_effect_spec(method: HttpMethod) -> bool {
    method is Post || method is Put || method is Patch || method is Delete
}

/// Whether requests with this method may change state.
pub fn method_has_side_effect(method: &HttpMethod) -> (b: bool)
    ensures
        b == side_effect_spec(*method),
{
    match method {
        HttpMethod::Post | HttpMethod::Put | HttpMethod::Patch | HttpMethod::Delete => true,
        _ => false,
    }
}

/// A request header as the server can read it: missing, present but not
/// visible ASCII text, or text.
#[derive(Debug, Clone, PartialEq, Eq)]
pub enum HeaderText {
    Absent,
    Unreadable,
    Text(String),
}

/// Whether a state-changing request's `Origin` is acceptable: no origin, or
/// the trusted frontend.
pub open spec fn origin_trusted_spec(origin: HeaderText) -> bool {
    match origin {
        HeaderText::Absent => true,
        HeaderText::Unreadable => false,
        HeaderText::Text(o) => trusted_origin_spec(o@),
    }
}

/// Which requests are served: a `Host` that can be read and is not empty
/// must name the local machine, and a state-changing request must come
/// from a trusted origin.
pub open spec fn local_request_spec(host: HeaderText, method: HttpMethod, origin: HeaderText) -> Result<(), AppErrorView> {
    let h = match host {
        HeaderText::Text(s) => s@,
        _ => seq![],
    };
    if h.len() > 0 && !loopback_host_spec(h) {
        Err(AppErrorView::BadRequest("invalid host header"@))
    } else if side_effect_spec(method) && !origin_trusted_spec(origin) {
        Err(AppErrorView::BadRequest("invalid origin header"@))
    } else {
        Ok(())
    }
}

/// The `Origin` header matters only for requests that change state: for
/// any other method the answer is the same whatever the origin.
pub proof fn lemma_origin_matters_only_for_changes(
    host: HeaderText,
    method: HttpMethod,
    a: HeaderText,
    b: HeaderText,
)
    requires
        !side_effect_spec(method),
    ensures
        local_request_spec(host, method, a) == local_request_spec(host, method, b),
{
}

/// A request addressed to the local machine is refused only when it
/// changes state and comes from an origin that is there but unreadable or
/// not the trusted frontend; one addressed elsewhere is always refused.
pub proof fn lemma_who_is_refused(host: String, method: HttpMethod, origin: HeaderText)
    ensures
        host@.len() > 0 && !loopback_host_spec(host@) ==> local_request_spec(
            HeaderText::Text(host),
            method,
            origin,
        ) is Err,
        loopback_host_spec(host@) ==> (local_request_spec(HeaderText::Text(host), method, origin) is Err
            <==> side_effect_spec(method) && !origin_trusted_spec(origin)),
        origin_trusted_spec(HeaderText::Absent),
        !origin_trusted_spec(HeaderText::Unreadable),
{
}

/// A `Host` of `localhost`, `127.0.0.1` or `[::1]`, with or without a port,
/// names the local machine.
pub proof fn lemma_loopback_hosts(port: Seq<char>)
    ensures
        loopback_host_spec("localhost"@),
        loopback_host_spec("localhost:"@ + port),
        loopback_host_spec("127.0.0.1:"@ + port),
        loopback_host_spec("[::1]"@ + port),
{
    reveal_strlit("localhost");
    reveal_strlit("localhost:");
    reveal_strlit("127.0.0.1");
    reveal_strlit("127.0.0.1:");
    reveal_strlit("::1");
    reveal_strlit("[::1]");
    let h1 = "localhost:"@ + port;
    reveal_with_fuel(char_index_from, 12);
    assert(h1.take(9) =~= "localhost"@);
    let h2 = "127.0.0.1:"@ + port;
    assert(h2.take(9) =~= "127.0.0.1"@);
    let h3 = "[::1]"@ + port;
    assert(h3.subrange(1, 4) =~= "::1"@);
    assert("localhost"@.take(9) =~= "localhost"@);
}

pub open spec fn unit_result_view(r: Result<(), AppError>) -> Result<(), AppErrorView> {
    match r {
        Ok(()) => Ok(()),
        Err(e) => Err(e@),
    }
}

/// Decides whether a request is served (see `local_request_spec`).
pub fn validate_local_request(host: &HeaderText, method: &HttpMethod, origin: &HeaderText) -> (r: Result<(), AppError>)
    ensures
        unit_result_view(r) == local_request_spec(*host, *method, *origin),
{
    let host_text: &str = match host {
        HeaderText::Text(s) => s.as_str(),
        _ => "",
    };
    proof {
        reveal_strlit("");
    }
    if chars_of(host_text).len() > 0 && !is_loopback_host(host_text) {
        return Err(AppError::bad_request("invalid host header".to_owned()));
    }
    if method_has_side_effect(method) {
        let trusted = match origin {
            HeaderText::Absent => true,
            HeaderText::Unreadable => false,
            HeaderText::Text(o) => is_trusted_frontend_origin(o.as_str()),
        };
        if !trusted {
            return Err(AppError::bad_request("invalid origin header".to_owned()));
        }
    }
    Ok(())
}

} // verus!
