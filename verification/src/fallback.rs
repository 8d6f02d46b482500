//! Requests that are for no tunnel: they go on to another server, so that this
//! one looks like it.

use vstd::prelude::*;
use crate::failure::Failure;
use crate::http::{content_length, header, is_chunked, names_chunked, HttpError, HttpRequest};
use crate::num::{explain_unsigned, unsigned_fault, unsigned_value};
use crate::text::{
    begins_with, cat, cat3, eq_ignore_case, lower, opt_view, same, same_ignoring_case, starts_with,
};
use crate::textmap::TextMap;
use crate::urls::{
    join_url, joined_url, parse_url, retarget_url, retargeted_url, split_url, url_target, url_text,
};

verus! {

/// The headers of a request that are not passed on.
pub open spec fn drops_request_header(name: Seq<char>) -> bool {
    ||| same_ignoring_case(name, "host"@)
    ||| same_ignoring_case(name, "connection"@)
    ||| same_ignoring_case(name, "content-length"@)
    ||| same_ignoring_case(name, "transfer-encoding"@)
    ||| same_ignoring_case(name, "proxy-connection"@)
    ||| same_ignoring_case(name, "keep-alive"@)
    ||| same_ignoring_case(name, "upgrade"@)
}

/// The headers of a response that are not passed on.
pub open spec fn drops_response_header(name: Seq<char>) -> bool {
    ||| same_ignoring_case(name, "connection"@)
    ||| same_ignoring_case(name, "content-length"@)
    ||| same_ignoring_case(name, "transfer-encoding"@)
    ||| same_ignoring_case(name, "keep-alive"@)
}

/// Whether a header of a request is not passed on.
pub fn should_skip_request_header(name: &str) -> (r: bool)
    ensures
        r == drops_request_header(name@),
{
    eq_ignore_case(name, "host") || eq_ignore_case(name, "connection") || eq_ignore_case(
        name,
        "content-length",
    ) || eq_ignore_case(name, "transfer-encoding") || eq_ignore_case(name, "proxy-connection")
        || eq_ignore_case(name, "keep-alive") || eq_ignore_case(name, "upgrade")
}

/// Whether a header of a response is not passed on.
pub fn should_skip_response_header(name: &str) -> (r: bool)
    ensures
        r == drops_response_header(name@),
{
    eq_ignore_case(name, "connection") || eq_ignore_case(name, "content-length") || eq_ignore_case(
        name,
        "transfer-encoding",
    ) || eq_ignore_case(name, "keep-alive")
}

/// The headers of a request that are passed on, in their order.
pub fn forwarded_request_headers(headers: &TextMap) -> (r: Vec<(String, String)>)
    ensures
        r@ == headers.listed().filter(|h: (String, String)| !drops_request_header(h.0@)),
{
    let all = headers.entries();
    let ghost keep = |h: (String, String)| !drops_request_header(h.0@);
    let mut out: Vec<(String, String)> = Vec::new();
    let mut i: usize = 0;
    proof {
        reveal(Seq::filter);
        assert(all@.take(0) =~= Seq::<(String, String)>::empty());
    }
    while i < all.len()
        invariant
            i <= all@.len(),
            keep == |h: (String, String)| !drops_request_header(h.0@),
            out@ == all@.take(i as int).filter(keep),
        decreases all@.len() - i,
    {
        proof {
            reveal(Seq::filter);
            assert(all@.take(i + 1).drop_last() =~= all@.take(i as int));
            assert(all@.take(i + 1).last() == all@[i as int]);
        }
        if !should_skip_request_header(all[i].0.as_str()) {
            out.push((all[i].0.clone(), all[i].1.clone()));
        }
        i = i + 1;
    }
    assert(all@.take(i as int) =~= all@);
    out
}

/// The headers of a response that are passed on, in their order.
pub fn forwarded_response_headers(headers: &Vec<(String, String)>) -> (r: Vec<(String, String)>)
    ensures
        r@ == headers@.filter(|h: (String, String)| !drops_response_header(h.0@)),
{
    let ghost keep = |h: (String, String)| !drops_response_header(h.0@);
    let mut out: Vec<(String, String)> = Vec::new();
    let mut i: usize = 0;
    proof {
        reveal(Seq::filter);
        assert(headers@.take(0) =~= Seq::<(String, String)>::empty());
    }
    while i < headers.len()
        invariant
            i <= headers@.len(),
            keep == |h: (String, String)| !drops_response_header(h.0@),
            out@ == headers@.take(i as int).filter(keep),
        decreases headers@.len() - i,
    {
        proof {
            reveal(Seq::filter);
            assert(headers@.take(i + 1).drop_last() =~= headers@.take(i as int));
            assert(headers@.take(i + 1).last() == headers@[i as int]);
        }
        if !should_skip_response_header(headers[i].0.as_str()) {
            out.push((headers[i].0.clone(), headers[i].1.clone()));
        }
        i = i + 1;
    }
    assert(headers@.take(i as int) =~= headers@);
    out
}

/// What is wrong with a text as the method of a request, if anything is.
pub uninterp spec fn method_fault(text: Seq<char>) -> Option<Seq<char>>;

/// What is wrong with a text as the name of a header, if anything is.
pub uninterp spec fn header_name_fault(text: Seq<char>) -> Option<Seq<char>>;

/// What is wrong with a text as the value of a header, if anything is.
pub uninterp spec fn header_value_fault(text: Seq<char>) -> Option<Seq<char>>;

/// `reqwest::Method::from_bytes` tells whether a text can be a method; the
/// result is the text of its error.
#[verifier::external_body]
fn refuse_method(text: &str) -> (r: Option<String>)
    ensures
        opt_view(r) == method_fault(text@),
{
    reqwest::Method::from_bytes(text.as_bytes()).err().map(|e| e.to_string())
}

/// `reqwest::header::HeaderName::from_bytes` tells whether a text can be the name
/// of a header; the result is the text of its error.
#[verifier::external_body]
fn refuse_header_name(text: &str) -> (r: Option<String>)
    ensures
        opt_view(r) == header_name_fault(text@),
{
    reqwest::header::HeaderName::from_bytes(text.as_bytes()).err().map(|e| e.to_string())
}

/// `reqwest::header::HeaderValue::from_str` tells whether a text can be the value
/// of a header; the result is the text of its error.
#[verifier::external_body]
fn refuse_header_value(text: &str) -> (r: Option<String>)
    ensures
        opt_view(r) == header_value_fault(text@),
{
    reqwest::header::HeaderValue::from_str(text).err().map(|e| e.to_string())
}

/// Fails unless a request can be passed on with a method.
pub fn check_method(method: &str) -> (r: Result<(), Failure>)
    ensures
        match (r, method_fault(method@)) {
            (Ok(_), None) => true,
            (Err(e), Some(cause)) => e@ == seq!["invalid request method"@, cause],
            _ => false,
        },
{
    match refuse_method(method) {
        None => Ok(()),
        Some(cause) => Err(Failure::caused("invalid request method", cause.as_str())),
    }
}

/// What is wrong with a header, if anything is.
pub open spec fn header_fault(name: Seq<char>, value: Seq<char>) -> Option<Seq<Seq<char>>> {
    match (header_name_fault(name), header_value_fault(value)) {
        (Some(cause), _) => Some(seq!["invalid header name"@, cause]),
        (None, Some(cause)) => Some(seq!["invalid header value"@, cause]),
        (None, None) => None,
    }
}

/// What is wrong with the first header that cannot be passed on, if there is one.
pub open spec fn headers_fault(headers: Seq<(String, String)>) -> Option<Seq<Seq<char>>>
    decreases headers.len(),
{
    if headers.len() == 0 {
        None
    } else {
        match header_fault(headers[0].0@, headers[0].1@) {
            Some(f) => Some(f),
            None => headers_fault(headers.skip(1)),
        }
    }
}

/// Fails unless a request can be passed on with headers.
pub fn check_headers(headers: &Vec<(String, String)>) -> (r: Result<(), Failure>)
    ensures
        match (r, headers_fault(headers@)) {
            (Ok(_), None) => true,
            (Err(e), Some(f)) => e@ == f,
            _ => false,
        },
{
    let mut i: usize = 0;
    assert(headers@.skip(0) =~= headers@);
    while i < headers.len()
        invariant
            i <= headers@.len(),
            headers_fault(headers@) == headers_fault(headers@.skip(i as int)),
        decreases headers@.len() - i,
    {
        assert(headers@.skip(i as int)[0] == headers@[i as int]);
        assert(headers@.skip(i as int).skip(1) =~= headers@.skip(i + 1));
        if let Some(cause) = refuse_header_name(headers[i].0.as_str()) {
            return Err(Failure::caused("invalid header name", cause.as_str()));
        }
        if let Some(cause) = refuse_header_value(headers[i].1.as_str()) {
            return Err(Failure::caused("invalid header value", cause.as_str()));
        }
        i = i + 1;
    }
    Ok(())
}

/// The server that requests go on to.
#[derive(Debug)]
pub struct Fallback {
    pub label: String,
    pub base_url: String,
    pub max_body_size: usize,
}

/// The URL of the request to the other server, for what the first line of the
/// request asks for.
pub open spec fn request_url(label: Seq<char>, base: Seq<char>, target: Seq<char>) -> Result<
    Seq<char>,
    Seq<Seq<char>>,
> {
    if target == "*"@ {
        Ok(base)
    } else if begins_with(target, "/"@) {
        match joined_url(base, target) {
            Ok(u) => Ok(u),
            Err(e) => Err(seq!["failed to join "@ + label + " URL with "@ + target, e]),
        }
    } else {
        match url_target(target) {
            Some((path, query)) => match retargeted_url(base, path, query) {
                Ok(u) => Ok(u),
                Err(e) => Err(seq!["failed to build root "@ + label + " request URL"@, e]),
            },
            None => match joined_url(base, "/"@) {
                Ok(u) => Ok(u),
                Err(e) => Err(seq!["failed to build root "@ + label + " request URL"@, e]),
            },
        }
    }
}

/// How many bytes the body of a request has that goes on, or why it does not.
pub open spec fn forwarded_length(headers: Map<Seq<char>, Seq<char>>, label: Seq<char>) -> Result<
    int,
    Seq<Seq<char>>,
> {
    let coding = lower("transfer-encoding"@);
    let length = lower("content-length"@);
    if headers.contains_key(coding) && names_chunked(headers[coding]) {
        Err(seq!["chunked request bodies are not supported for "@ + label])
    } else if !headers.contains_key(length) {
        Ok(0)
    } else {
        match unsigned_value(headers[length], usize::MAX as int) {
            Some(n) => Ok(n),
            None => Err(
                seq![
                    HttpError::InvalidContentLength.text(),
                    unsigned_fault(headers[length], usize::MAX as int),
                ],
            ),
        }
    }
}

impl Fallback {
    /// The server at a URL.
    pub fn new(label: &str, base_url: &str, max_body_size: usize) -> (r: Result<Self, Failure>)
        ensures
            match (r, url_text(base_url@)) {
                (Ok(f), Ok(u)) => f.label@ == label@ && f.base_url@ == u && f.max_body_size
                    == max_body_size,
                (Err(e), Err(cause)) => e@ == seq!["invalid fallback URL"@, cause],
                _ => false,
            },
    {
        match parse_url(base_url) {
            Ok(u) => Ok(Fallback { label: label.to_owned(), base_url: u, max_body_size }),
            Err(cause) => Err(Failure::caused("invalid fallback URL", cause.as_str())),
        }
    }

    /// How many bytes the body of a request has that goes on.
    pub fn body_length(&self, request: &HttpRequest) -> (r: Result<usize, Failure>)
        ensures
            match (r, forwarded_length(request.headers@, self.label@)) {
                (Ok(n), Ok(m)) => n == m,
                (Err(e), Err(f)) => e@ == f,
                _ => false,
            },
    {
        if is_chunked(&request.headers) {
            return Err(
                Failure::new(
                    cat(
                        "chunked request bodies are not supported for ",
                        self.label.as_str(),
                    ).as_str(),
                ),
            );
        }
        match content_length(&request.headers) {
            Ok(Some(n)) => Ok(n),
            Ok(None) => Ok(0),
            Err(e) => {
                let length = match header(&request.headers, "content-length") {
                    Some(length) => length,
                    None => "",
                };
                Err(
                    Failure::caused(
                        e.message().as_str(),
                        explain_unsigned(length, usize::MAX as u64).as_str(),
                    ),
                )
            },
        }
    }

    /// The URL of the request to the other server.
    pub fn request_url(&self, request_target: &str) -> (r: Result<String, Failure>)
        ensures
            match (r, request_url(self.label@, self.base_url@, request_target@)) {
                (Ok(u), Ok(v)) => u@ == v,
                (Err(e), Err(f)) => e@ == f,
                _ => false,
            },
    {
        let base = self.base_url.as_str();
        if same(request_target, "*") {
            return Ok(base.to_owned());
        }
        if starts_with(request_target, "/") {
            return match join_url(base, request_target) {
                Ok(u) => Ok(u),
                Err(cause) => Err(
                    Failure::caused(
                        cat(
                            cat3("failed to join ", self.label.as_str(), " URL with ").as_str(),
                            request_target,
                        ).as_str(),
                        cause.as_str(),
                    ),
                ),
            };
        }
        let url = match split_url(request_target) {
            Some((path, query)) => retarget_url(
                base,
                path.as_str(),
                match &query {
                    Some(q) => Some(q.as_str()),
                    None => None,
                },
            ),
            None => join_url(base, "/"),
        };
        match url {
            Ok(u) => Ok(u),
            Err(cause) => Err(
                Failure::caused(
                    cat3("failed to build root ", self.label.as_str(), " request URL").as_str(),
                    cause.as_str(),
                ),
            ),
        }
    }
}

// ---------------------------------------------------------------------------
// Laws

/// A header of a request goes on just where it is not one of the connection, and
/// with its value; nothing is added, and the order stays.
pub proof fn request_headers_go_on(
    headers: &TextMap,
    r: Vec<(String, String)>,
    h: (String, String),
    name: &str,
    skipped: bool,
)
    requires
        call_ensures(forwarded_request_headers, (headers,), r),
        name@ == h.0@,
        call_ensures(should_skip_request_header, (name,), skipped),
    ensures
        skipped <==> same_ignoring_case(name@, "host"@) || same_ignoring_case(name@, "connection"@)
            || same_ignoring_case(name@, "content-length"@) || same_ignoring_case(
            name@,
            "transfer-encoding"@,
        ) || same_ignoring_case(name@, "proxy-connection"@) || same_ignoring_case(
            name@,
            "keep-alive"@,
        ) || same_ignoring_case(name@, "upgrade"@),
        r@.contains(h) <==> headers.listed().contains(h) && !skipped,
        r@.len() <= headers.listed().len(),
{
    let keep = |x: (String, String)| !drops_request_header(x.0@);
    lemma_filtered(headers.listed(), keep, h);
}

/// A header of a response goes on just where it is not one of the connection, and
/// with its value; nothing is added, and the order stays.
pub proof fn response_headers_go_on(
    headers: &Vec<(String, String)>,
    r: Vec<(String, String)>,
    h: (String, String),
    name: &str,
    skipped: bool,
)
    requires
        call_ensures(forwarded_response_headers, (headers,), r),
        name@ == h.0@,
        call_ensures(should_skip_response_header, (name,), skipped),
    ensures
        skipped <==> same_ignoring_case(name@, "connection"@) || same_ignoring_case(
            name@,
            "content-length"@,
        ) || same_ignoring_case(name@, "transfer-encoding"@) || same_ignoring_case(
            name@,
            "keep-alive"@,
        ),
        r@.contains(h) <==> headers@.contains(h) && !skipped,
        r@.len() <= headers@.len(),
{
    let keep = |x: (String, String)| !drops_response_header(x.0@);
    lemma_filtered(headers@, keep, h);
}

proof fn lemma_filtered(
    s: Seq<(String, String)>,
    keep: spec_fn((String, String)) -> bool,
    h: (String, String),
)
    ensures
        s.filter(keep).contains(h) <==> s.contains(h) && keep(h),
        s.filter(keep).len() <= s.len(),
{
    s.lemma_filter_len(keep);
    if s.filter(keep).contains(h) {
        let i = choose|i: int| 0 <= i < s.filter(keep).len() && s.filter(keep)[i] == h;
        s.lemma_filter_pred(keep, i);
        s.lemma_filter_contains_rev(keep, h);
    }
    if s.contains(h) && keep(h) {
        let i = choose|i: int| 0 <= i < s.len() && s[i] == h;
        s.lemma_filter_contains(keep, i);
    }
}

/// The body of a request goes on with the length that its header announces, none
/// without one, and not at all where it comes in chunks.
pub proof fn bodies_go_on_by_their_length(
    fallback: &Fallback,
    request: &HttpRequest,
    chunked: bool,
    length: Result<Option<usize>, HttpError>,
    r: Result<usize, Failure>,
)
    requires
        call_ensures(is_chunked, (&request.headers,), chunked),
        call_ensures(content_length, (&request.headers,), length),
        call_ensures(Fallback::body_length, (fallback, request), r),
    ensures
        r is Ok <==> !chunked && length is Ok,
        r matches Ok(n) ==> (length matches Ok(Some(m)) ==> n == m) && (length matches Ok(None) ==> n
            == 0),
{
}

/// A request for a path goes to that path at the other server, one for everything to
/// the server itself, and one that names another host keeps its path and question
/// only.
pub proof fn requests_go_to_the_other_server(
    label: &str,
    url: &str,
    max_body_size: usize,
    made: Result<Fallback, Failure>,
    target: &str,
    r: Result<String, Failure>,
    text: Seq<char>,
)
    requires
        call_ensures(Fallback::new, (label, url, max_body_size), made),
        made matches Ok(f) ==> call_ensures(Fallback::request_url, (&f, target), r),
    ensures
        made is Ok <==> url_text(url@) is Ok,
        made matches Ok(f) ==> f.max_body_size == max_body_size && f.label@ == label@ && f.base_url@
            == url_text(url@)->Ok_0,
        made matches Ok(f) ==> {
            &&& target@ == "*"@ ==> (r matches Ok(u) && u@ == f.base_url@)
            &&& target@ == seq!['/'] + text ==> (r is Ok <==> joined_url(f.base_url@, target@) is Ok)
                && (r matches Ok(u) ==> Ok::<Seq<char>, Seq<char>>(u@) == joined_url(
                f.base_url@,
                target@,
            ))
            &&& target@ != "*"@ && (target@.len() == 0 || target@[0] != '/') ==> match url_target(
                target@,
            ) {
                Some((path, query)) => (r is Ok <==> retargeted_url(f.base_url@, path, query) is Ok)
                    && (r matches Ok(u) ==> Ok::<Seq<char>, Seq<char>>(u@) == retargeted_url(
                    f.base_url@,
                    path,
                    query,
                )),
                None => r matches Ok(u) ==> Ok::<Seq<char>, Seq<char>>(u@) == joined_url(
                    f.base_url@,
                    "/"@,
                ),
            }
        },
{
    reveal_strlit("*");
    reveal_strlit("/");
    let star = "*"@;
    let slash = "/"@;
    assert(slash =~= seq!['/']);
    assert(star[0] == '*');
    if target@.len() > 0 {
        assert(target@.take(1)[0] == target@[0]);
        if target@[0] == '/' {
            assert(target@.take(1) =~= slash);
        } else {
            assert(target@.take(1) != slash) by {
                if target@.take(1) == slash {
                    assert(slash[0] == '/');
                }
            }
        }
    }
    if target@ == seq!['/'] + text {
        assert(target@[0] == '/');
    }
}

/// A request goes on only with a method and headers that a request can have, and
/// what is told of a header that cannot be is told of the first such header.
pub proof fn malformed_requests_do_not_go_on(
    method: &str,
    m: Result<(), Failure>,
    headers: &Vec<(String, String)>,
    r: Result<(), Failure>,
)
    requires
        call_ensures(check_method, (method,), m),
        call_ensures(check_headers, (headers,), r),
    ensures
        m is Ok <==> method_fault(method@) is None,
        r is Ok <==> forall|i: int|
            0 <= i < headers@.len() ==> header_name_fault((#[trigger] headers@[i]).0@) is None
                && header_value_fault(headers@[i].1@) is None,
{
    lemma_headers_fault(headers@);
}

proof fn lemma_headers_fault(headers: Seq<(String, String)>)
    ensures
        headers_fault(headers) is None <==> forall|i: int|
            0 <= i < headers.len() ==> header_name_fault((#[trigger] headers[i]).0@) is None
                && header_value_fault(headers[i].1@) is None,
    decreases headers.len(),
{
    if headers.len() > 0 {
        lemma_headers_fault(headers.skip(1));
        assert(forall|i: int| 0 <= i < headers.skip(1).len() ==> headers.skip(1)[i] == headers[i + 1]);
        assert(forall|i: int| 0 < i < headers.len() ==> #[trigger] headers[i] == headers.skip(1)[i - 1]);
    }
}

} // verus!
