//! The HTTP/1 messages that open a tunnel, and the answers to them.

use vstd::prelude::*;
use crate::bytes::{extend, slice_of};
use crate::failure::Failure;
use crate::num::{
    decimal, decimal_is_digits, decimal_reads_back, explain_unsigned, parse_unsigned, to_decimal,
    unsigned_fault, unsigned_value,
};
use crate::text::{
    begins_with, bytes_of, contains, eq_ignore_case, find_from, finishes_with, is_digit,
    is_whitespace, is_word, join,
    joined, lemma_find_after, lemma_find_from, lemma_first_word, lemma_no_char, lemma_split_after,
    lemma_trimmed_after_space, lemma_trimmed_same, lemma_utf8_reads_back, lemma_word_then, lower,
    occurs_at, opt_view, read_utf8, same, same_ignoring_case, split, split_first, split_on,
    split_once, starts_with, to_bytes, to_lower, trim, trimmed, utf8, utf8_fault, utf8_text, views,
    words, words_of,
};
use crate::textmap::TextMap;

verus! {

/// A request without its body.
#[derive(Debug)]
pub struct HttpRequest {
    pub method: String,
    pub path: String,
    pub version: String,
    /// Header values by their names in lower case.
    pub headers: TextMap,
}

/// What the head of a tunnel request says about its body.
#[derive(Debug, Clone, Copy, PartialEq, Eq, Structural)]
pub struct TunnelRequestHead {
    pub content_length: Option<usize>,
    pub chunked: bool,
}

/// What the body of a tunnel request says.
#[derive(Debug)]
pub struct TunnelPayload {
    pub target: String,
    pub timestamp: i64,
    pub nonce: String,
    pub signature: String,
}

/// Why a message was not accepted.
#[derive(Debug, Clone, Copy, PartialEq, Eq, Structural)]
pub enum HttpError {
    RequestNotUtf8,
    ResponseNotUtf8,
    MissingMethod,
    MissingPath,
    MissingVersion,
    TooManyFields,
    MalformedHeader,
    InvalidContentLength,
    MissingResponseVersion,
    MissingStatus,
    InvalidStatus,
    HeadClosed,
    HeadTooLarge(usize),
    BodyTooLarge(usize),
    PrefixTooLong,
}

impl HttpError {
    /// The text of the error.
    pub open spec fn text(self) -> Seq<char> {
        match self {
            HttpError::RequestNotUtf8 => "request is not valid UTF-8"@,
            HttpError::ResponseNotUtf8 => "response is not valid UTF-8"@,
            HttpError::MissingMethod => "missing request method"@,
            HttpError::MissingPath => "missing request path"@,
            HttpError::MissingVersion => "missing request version"@,
            HttpError::TooManyFields => "request line contains too many fields"@,
            HttpError::MalformedHeader => "malformed header line without colon"@,
            HttpError::InvalidContentLength => "invalid content-length header"@,
            HttpError::MissingResponseVersion => "missing response version"@,
            HttpError::MissingStatus => "missing response status"@,
            HttpError::InvalidStatus => "invalid response status"@,
            HttpError::HeadClosed => "connection closed before HTTP head completed"@,
            HttpError::HeadTooLarge(n) => "HTTP head exceeded "@ + decimal(n as nat) + " bytes"@,
            HttpError::BodyTooLarge(n) => "HTTP body exceeded "@ + decimal(n as nat) + " bytes"@,
            HttpError::PrefixTooLong => "HTTP body prefix exceeded declared content-length"@,
        }
    }

    /// The text of the error.
    pub fn message(&self) -> (r: String)
        ensures
            r@ == self.text(),
    {
        match self {
            HttpError::RequestNotUtf8 => "request is not valid UTF-8".to_owned(),
            HttpError::ResponseNotUtf8 => "response is not valid UTF-8".to_owned(),
            HttpError::MissingMethod => "missing request method".to_owned(),
            HttpError::MissingPath => "missing request path".to_owned(),
            HttpError::MissingVersion => "missing request version".to_owned(),
            HttpError::TooManyFields => "request line contains too many fields".to_owned(),
            HttpError::MalformedHeader => "malformed header line without colon".to_owned(),
            HttpError::InvalidContentLength => "invalid content-length header".to_owned(),
            HttpError::MissingResponseVersion => "missing response version".to_owned(),
            HttpError::MissingStatus => "missing response status".to_owned(),
            HttpError::InvalidStatus => "invalid response status".to_owned(),
            HttpError::HeadClosed => "connection closed before HTTP head completed".to_owned(),
            HttpError::HeadTooLarge(n) => {
                let mut s: String = "HTTP head exceeded ".to_owned();
                s.append(to_decimal(*n as u64).as_str());
                s.append(" bytes");
                s
            },
            HttpError::BodyTooLarge(n) => {
                let mut s: String = "HTTP body exceeded ".to_owned();
                s.append(to_decimal(*n as u64).as_str());
                s.append(" bytes");
                s
            },
            HttpError::PrefixTooLong => "HTTP body prefix exceeded declared content-length".to_owned(),
        }
    }
}

// ---------------------------------------------------------------------------
// Reading a head and a body

/// How many bytes are read at once.
pub const HEAD_READ_CHUNK: usize = 1024;

/// Whether the empty line that ends a head stands at position `i`.
pub open spec fn blank_line_at(b: Seq<u8>, i: int) -> bool {
    &&& 0 <= i
    &&& i + 4 <= b.len()
    &&& b[i] == 13 && b[i + 1] == 10 && b[i + 2] == 13 && b[i + 3] == 10
}

/// `end` is the length of the shortest beginning of `b` that ends in an empty line.
pub open spec fn head_ends(b: Seq<u8>, end: int) -> bool {
    blank_line_at(b, end - 4) && forall|j: int| 0 <= j < end - 4 ==> !blank_line_at(b, j)
}

/// Whether `b` holds no whole head.
pub open spec fn no_head(b: Seq<u8>) -> bool {
    forall|j: int| !blank_line_at(b, j)
}

/// The length of the head at the start of `buf`, the empty line included.
pub fn find_header_end(buf: &[u8]) -> (r: Option<usize>)
    ensures
        match r {
            Some(end) => head_ends(buf@, end as int),
            None => no_head(buf@),
        },
{
    let n: usize = buf.len();
    let mut i: usize = 0;
    while i < n && n - i >= 4
        invariant
            i <= n == buf@.len(),
            forall|j: int| 0 <= j < i ==> !blank_line_at(buf@, j),
        decreases n - i,
    {
        if buf[i] == 13 && buf[i + 1] == 10 && buf[i + 2] == 13 && buf[i + 3] == 10 {
            assert(blank_line_at(buf@, i as int));
            return Some(i + 4);
        }
        i = i + 1;
    }
    None
}

/// How many bytes to read next, if the head may still grow.
pub fn head_chunk_len(have: usize, max_bytes: usize) -> (r: Option<usize>)
    ensures
        match r {
            Some(n) => have < max_bytes && n > 0 && n == (if max_bytes - have < HEAD_READ_CHUNK {
                max_bytes - have
            } else {
                HEAD_READ_CHUNK as int
            }),
            None => have >= max_bytes,
        },
{
    if have >= max_bytes {
        None
    } else if max_bytes - have < HEAD_READ_CHUNK {
        Some(max_bytes - have)
    } else {
        Some(HEAD_READ_CHUNK)
    }
}

/// What came of a read while the head was incomplete.
#[derive(Debug)]
pub enum HeadRead {
    /// The head is not complete yet.
    More(Vec<u8>),
    /// The head, and the bytes of the body that came with it.
    Complete(Vec<u8>, Vec<u8>),
}

/// Takes in what a read of at most `head_chunk_len` bytes gave; `chunk` is
/// empty when the peer has closed.
pub fn read_head(mut buf: Vec<u8>, chunk: &[u8], max_bytes: usize) -> (r: Result<HeadRead, HttpError>)
    requires
        no_head(buf@),
        buf@.len() < max_bytes,
        chunk@.len() <= max_bytes - buf@.len(),
    ensures
        match r {
            Ok(HeadRead::Complete(head, body)) => chunk@.len() > 0 && head@ + body@ == buf@ + chunk@
                && head_ends(buf@ + chunk@, head@.len() as int),
            Ok(HeadRead::More(all)) => chunk@.len() > 0 && all@ == buf@ + chunk@ && no_head(all@)
                && all@.len() < max_bytes,
            Err(e) => {
                ||| chunk@.len() == 0 && e == HttpError::HeadClosed
                ||| chunk@.len() > 0 && no_head(buf@ + chunk@) && buf@.len() + chunk@.len()
                    == max_bytes && e == HttpError::HeadTooLarge(max_bytes)
            },
        },
{
    if chunk.len() == 0 {
        return Err(HttpError::HeadClosed);
    }
    let ghost all = buf@ + chunk@;
    extend(&mut buf, chunk);
    match find_header_end(buf.as_slice()) {
        Some(end) => {
            let body = buf.split_off(end);
            assert(buf@ + body@ =~= all);
            Ok(HeadRead::Complete(buf, body))
        },
        None => {
            if buf.len() >= max_bytes {
                Err(HttpError::HeadTooLarge(max_bytes))
            } else {
                Ok(HeadRead::More(buf))
            }
        },
    }
}

/// A body of known length, as far as it has arrived.
#[derive(Debug)]
pub enum BodyRead {
    /// That many bytes are still to come.
    Missing(usize),
    Complete(Vec<u8>),
}

/// Puts a body together from the bytes that came with the head and those that
/// were read after it.
pub fn read_body(prefix: &[u8], more: &[u8], length: usize, max_bytes: usize) -> (r: Result<
    BodyRead,
    HttpError,
>)
    ensures
        match r {
            Err(e) => {
                ||| length > max_bytes && e == HttpError::BodyTooLarge(max_bytes)
                ||| length <= max_bytes && prefix@.len() > length && e == HttpError::PrefixTooLong
            },
            Ok(BodyRead::Missing(n)) => length <= max_bytes && n > 0 && prefix@.len() + more@.len()
                + n == length,
            Ok(BodyRead::Complete(body)) => length <= max_bytes && prefix@.len() <= length
                <= prefix@.len() + more@.len() && body@ == (prefix@ + more@).take(length as int),
        },
{
    if length > max_bytes {
        return Err(HttpError::BodyTooLarge(max_bytes));
    }
    if prefix.len() > length {
        return Err(HttpError::PrefixTooLong);
    }
    let wanted: usize = length - prefix.len();
    if more.len() < wanted {
        return Ok(BodyRead::Missing(wanted - more.len()));
    }
    let mut body: Vec<u8> = Vec::new();
    extend(&mut body, prefix);
    let tail = slice_of(more, 0, wanted);
    extend(&mut body, tail.as_slice());
    assert(body@ =~= (prefix@ + more@).take(length as int));
    Ok(BodyRead::Complete(body))
}

// ---------------------------------------------------------------------------
// Parsing

/// The line break of HTTP.
pub open spec fn crlf() -> Seq<char> {
    seq!['\r', '\n']
}

/// The lines of a head.
pub open spec fn head_lines(text: Seq<char>) -> Seq<Seq<char>> {
    split(text, crlf())
}

/// The words of the first line of a head.
pub open spec fn start_words(text: Seq<char>) -> Seq<Seq<char>> {
    words_of(head_lines(text)[0])
}

/// What is wrong with the number of words in a request line.
pub open spec fn request_line_error(n: nat) -> Option<HttpError> {
    if n == 0 {
        Some(HttpError::MissingMethod)
    } else if n == 1 {
        Some(HttpError::MissingPath)
    } else if n == 2 {
        Some(HttpError::MissingVersion)
    } else if n > 3 {
        Some(HttpError::TooManyFields)
    } else {
        None
    }
}

/// The name and the value in a header line.
pub open spec fn header_line(line: Seq<char>) -> Option<(Seq<char>, Seq<char>)> {
    match split_first(line, seq![':']) {
        Some((name, value)) => Some((trimmed(name), trimmed(value))),
        None => None,
    }
}

/// The headers in `lines` up to the first empty line, added to `acc`; a later
/// header takes the place of an earlier one of the same name. `None` if a line
/// has no colon.
pub open spec fn headers_into(
    acc: Map<Seq<char>, Seq<char>>,
    lines: Seq<Seq<char>>,
) -> Option<Map<Seq<char>, Seq<char>>>
    decreases lines.len(),
{
    if lines.len() == 0 || lines[0].len() == 0 {
        Some(acc)
    } else {
        match header_line(lines[0]) {
            Some((name, value)) => headers_into(acc.insert(lower(name), value), lines.skip(1)),
            None => None,
        }
    }
}

/// The headers in `lines` up to the first empty line.
pub open spec fn headers_of(lines: Seq<Seq<char>>) -> Option<Map<Seq<char>, Seq<char>>> {
    headers_into(Map::empty(), lines)
}

fn crlf_text() -> (r: String)
    ensures
        r@ == crlf(),
{
    let mut s: String = String::new();
    s.push('\r');
    s.push('\n');
    assert(s@ =~= crlf());
    s
}

fn split_header(line: &str) -> (r: Option<(String, String)>)
    ensures
        crate::text::pair_view(r) == header_line(line@),
{
    proof {
        reveal_strlit(":");
        assert(":"@ =~= seq![':']);
    }
    match split_once(line, ":") {
        Some((name, value)) => Some((trim(name.as_str()), trim(value.as_str()))),
        None => None,
    }
}

/// Reads header lines up to the first empty one.
pub fn parse_headers(lines: &Vec<String>, from: usize) -> (r: Result<TextMap, HttpError>)
    requires
        from <= lines@.len(),
    ensures
        match r {
            Ok(h) => headers_of(views(lines@).skip(from as int)) == Some(h@),
            Err(e) => headers_of(views(lines@).skip(from as int)) is None && e
                == HttpError::MalformedHeader,
        },
{
    let mut headers = TextMap::new();
    let mut i: usize = from;
    let ghost all = views(lines@);
    while i < lines.len()
        invariant
            from <= i <= lines@.len(),
            all == views(lines@),
            headers_of(all.skip(from as int)) == headers_into(headers@, all.skip(i as int)),
        decreases lines@.len() - i,
    {
        assert(all.skip(i as int)[0] == lines@[i as int]@);
        if lines[i].as_str().is_empty() {
            return Ok(headers);
        }
        assert(all.skip(i as int).skip(1) =~= all.skip(i + 1));
        match split_header(lines[i].as_str()) {
            Some((name, value)) => {
                headers.insert(to_lower(name.as_str()), value);
            },
            None => {
                return Err(HttpError::MalformedHeader);
            },
        }
        i = i + 1;
    }
    Ok(headers)
}

/// What `parse_request` makes of a head.
pub open spec fn request_error(bytes: Seq<u8>) -> Option<HttpError> {
    match utf8(bytes) {
        None => Some(HttpError::RequestNotUtf8),
        Some(text) => match request_line_error(start_words(text).len()) {
            Some(e) => Some(e),
            None => if headers_of(head_lines(text).skip(1)) is None {
                Some(HttpError::MalformedHeader)
            } else {
                None
            },
        },
    }
}

fn head_text(bytes: &[u8]) -> (r: Option<(Vec<String>, Vec<String>)>)
    ensures
        match r {
            Some((lines, start)) => utf8(bytes@) is Some && views(lines@) == head_lines(
                utf8(bytes@)->0,
            ) && lines@.len() > 0 && views(start@) == start_words(utf8(bytes@)->0),
            None => utf8(bytes@) is None,
        },
{
    match utf8_text(bytes) {
        Some(text) => {
            let sep = crlf_text();
            let lines = split_on(text.as_str(), sep.as_str());
            let start = words(lines[0].as_str());
            assert(views(lines@)[0] == lines@[0]@);
            Some((lines, start))
        },
        None => None,
    }
}

/// Reads the head of a request: its request line and its headers.
pub fn parse_request(bytes: &[u8]) -> (r: Result<HttpRequest, HttpError>)
    ensures
        match r {
            Ok(q) => request_error(bytes@) is None && {
                let text = utf8(bytes@)->0;
                &&& q.method@ == start_words(text)[0]
                &&& q.path@ == start_words(text)[1]
                &&& q.version@ == start_words(text)[2]
                &&& Some(q.headers@) == headers_of(head_lines(text).skip(1))
            },
            Err(e) => request_error(bytes@) == Some(e),
        },
{
    match head_text(bytes) {
        None => Err(HttpError::RequestNotUtf8),
        Some((lines, start)) => {
            assert(views(start@).len() == start@.len());
            if start.len() == 0 {
                return Err(HttpError::MissingMethod);
            }
            if start.len() == 1 {
                return Err(HttpError::MissingPath);
            }
            if start.len() == 2 {
                return Err(HttpError::MissingVersion);
            }
            if start.len() > 3 {
                return Err(HttpError::TooManyFields);
            }
            match parse_headers(&lines, 1) {
                Ok(headers) => {
                    assert(views(start@)[0] == start@[0]@);
                    assert(views(start@)[1] == start@[1]@);
                    assert(views(start@)[2] == start@[2]@);
                    Ok(
                        HttpRequest {
                            method: start[0].clone(),
                            path: start[1].clone(),
                            version: start[2].clone(),
                            headers,
                        },
                    )
                },
                Err(e) => Err(e),
            }
        },
    }
}

/// The first line of a response.
pub open spec fn status_line(text: Seq<char>) -> Seq<char> {
    match split_first(text, crlf()) {
        Some((line, _)) => line,
        None => text,
    }
}

/// What is wrong with a response.
pub open spec fn response_error(bytes: Seq<u8>) -> Option<HttpError> {
    match utf8(bytes) {
        None => Some(HttpError::ResponseNotUtf8),
        Some(text) => {
            let w = words_of(status_line(text));
            if w.len() == 0 {
                Some(HttpError::MissingResponseVersion)
            } else if w.len() == 1 {
                Some(HttpError::MissingStatus)
            } else if unsigned_value(w[1], u16::MAX as int) is None {
                Some(HttpError::InvalidStatus)
            } else {
                None
            }
        },
    }
}

/// Reads the first line of a response: whether it is HTTP/1, the status and
/// the reason.
pub fn parse_tunnel_response(bytes: &[u8]) -> (r: Result<(bool, u16, String), HttpError>)
    ensures
        match r {
            Ok((http1, status, reason)) => response_error(bytes@) is None && {
                let w = words_of(status_line(utf8(bytes@)->0));
                &&& http1 == begins_with(w[0], "HTTP/1."@)
                &&& unsigned_value(w[1], u16::MAX as int) == Some(status as int)
                &&& reason@ == joined(w.skip(2), " "@)
            },
            Err(e) => response_error(bytes@) == Some(e),
        },
{
    let text = match utf8_text(bytes) {
        Some(t) => t,
        None => {
            return Err(HttpError::ResponseNotUtf8);
        },
    };
    let sep = crlf_text();
    let start = match split_once(text.as_str(), sep.as_str()) {
        Some((line, _)) => line,
        None => text,
    };
    let parts = words(start.as_str());
    assert(views(parts@).len() == parts@.len());
    if parts.len() == 0 {
        return Err(HttpError::MissingResponseVersion);
    }
    if parts.len() == 1 {
        return Err(HttpError::MissingStatus);
    }
    assert(views(parts@)[0] == parts@[0]@);
    assert(views(parts@)[1] == parts@[1]@);
    match parse_unsigned(parts[1].as_str(), u16::MAX as u64) {
        Some(status) => {
            let reason = join(&parts, 2, " ");
            Ok((starts_with(parts[0].as_str(), "HTTP/1."), status as u16, reason))
        },
        None => Err(HttpError::InvalidStatus),
    }
}

/// Whether a transfer coding list names `chunked`.
pub open spec fn names_chunked(value: Seq<char>) -> bool {
    let parts = split(value, seq![',']);
    exists|i: int|
        0 <= i < parts.len() && same_ignoring_case(trimmed(#[trigger] parts[i]), "chunked"@)
}

fn lists_chunked(value: &str) -> (r: bool)
    ensures
        r == names_chunked(value@),
{
    proof {
        reveal_strlit(",");
        assert(","@ =~= seq![',']);
    }
    let parts = split_on(value, ",");
    let ghost all = split(value@, seq![',']);
    let mut i: usize = 0;
    while i < parts.len()
        invariant
            i <= parts@.len(),
            all == views(parts@),
            all == split(value@, seq![',']),
            forall|j: int| 0 <= j < i ==> !same_ignoring_case(trimmed(#[trigger] all[j]), "chunked"@),
        decreases parts@.len() - i,
    {
        assert(all[i as int] == parts@[i as int]@);
        if eq_ignore_case(trim(parts[i].as_str()).as_str(), "chunked") {
            return true;
        }
        i = i + 1;
    }
    false
}

/// What the header lines of a tunnel request say about its body, starting from
/// what earlier lines said; `None` when a line is not acceptable.
pub open spec fn tunnel_headers(
    head: TunnelRequestHead,
    lines: Seq<Seq<char>>,
) -> Result<TunnelRequestHead, HttpError>
    decreases lines.len(),
{
    if lines.len() == 0 || lines[0].len() == 0 {
        Ok(head)
    } else {
        match header_line(lines[0]) {
            None => Err(HttpError::MalformedHeader),
            Some((name, value)) => if same_ignoring_case(name, "content-length"@) {
                match unsigned_value(value, usize::MAX as int) {
                    None => Err(HttpError::InvalidContentLength),
                    Some(n) => tunnel_headers(
                        (TunnelRequestHead { content_length: Some(n as usize), ..head }),
                        lines.skip(1),
                    ),
                }
            } else if same_ignoring_case(name, "transfer-encoding"@) {
                tunnel_headers(
                    (TunnelRequestHead { chunked: names_chunked(value), ..head }),
                    lines.skip(1),
                )
            } else {
                tunnel_headers(head, lines.skip(1))
            },
        }
    }
}

/// A head that says nothing about the body.
pub open spec fn silent_head() -> TunnelRequestHead {
    TunnelRequestHead { content_length: None, chunked: false }
}

/// What `parse_tunnel_request_head` makes of a head.
pub open spec fn tunnel_head(bytes: Seq<u8>, path: Seq<char>) -> Result<
    Option<TunnelRequestHead>,
    HttpError,
> {
    match utf8(bytes) {
        None => Err(HttpError::RequestNotUtf8),
        Some(text) => {
            let w = start_words(text);
            match request_line_error(w.len()) {
                Some(e) => Err(e),
                None => if !begins_with(w[2], "HTTP/1."@) || w[0] != "POST"@ || w[1] != path {
                    Ok(None)
                } else {
                    match tunnel_headers(silent_head(), head_lines(text).skip(1)) {
                        Ok(head) => Ok(Some(head)),
                        Err(e) => Err(e),
                    }
                },
            }
        },
    }
}

/// Reads the head of a request for a tunnel at `path`; other requests give `None`.
pub fn parse_tunnel_request_head(bytes: &[u8], path: &str) -> (r: Result<
    Option<TunnelRequestHead>,
    HttpError,
>)
    ensures
        r == tunnel_head(bytes@, path@),
{
    let (lines, start) = match head_text(bytes) {
        None => {
            return Err(HttpError::RequestNotUtf8);
        },
        Some(p) => p,
    };
    let ghost text = utf8(bytes@)->0;
    assert(views(start@).len() == start@.len());
    if start.len() == 0 {
        return Err(HttpError::MissingMethod);
    }
    if start.len() == 1 {
        return Err(HttpError::MissingPath);
    }
    if start.len() == 2 {
        return Err(HttpError::MissingVersion);
    }
    if start.len() > 3 {
        return Err(HttpError::TooManyFields);
    }
    assert(views(start@)[0] == start@[0]@);
    assert(views(start@)[1] == start@[1]@);
    assert(views(start@)[2] == start@[2]@);
    if !starts_with(start[2].as_str(), "HTTP/1.") || !same(start[0].as_str(), "POST") || !same(
        start[1].as_str(),
        path,
    ) {
        return Ok(None);
    }
    let mut head = TunnelRequestHead { content_length: None, chunked: false };
    let mut i: usize = 1;
    let ghost all = head_lines(text);
    while i < lines.len()
        invariant
            1 <= i <= lines@.len(),
            all == views(lines@),
            all == head_lines(text),
            tunnel_headers(silent_head(), all.skip(1)) == tunnel_headers(head, all.skip(i as int)),
            tunnel_head(bytes@, path@) == (match tunnel_headers(silent_head(), all.skip(1)) {
                Ok(head) => Ok(Some(head)),
                Err(e) => Err(e),
            }),
        decreases lines@.len() - i,
    {
        assert(all.skip(i as int)[0] == lines@[i as int]@);
        if lines[i].as_str().is_empty() {
            return Ok(Some(head));
        }
        assert(all.skip(i as int).skip(1) =~= all.skip(i + 1));
        match split_header(lines[i].as_str()) {
            None => {
                return Err(HttpError::MalformedHeader);
            },
            Some((name, value)) => {
                if eq_ignore_case(name.as_str(), "content-length") {
                    match parse_unsigned(value.as_str(), usize::MAX as u64) {
                        Some(n) => {
                            head.content_length = Some(n as usize);
                        },
                        None => {
                            return Err(HttpError::InvalidContentLength);
                        },
                    }
                } else if eq_ignore_case(name.as_str(), "transfer-encoding") {
                    head.chunked = lists_chunked(value.as_str());
                }
            },
        }
        i = i + 1;
    }
    Ok(Some(head))
}

// ---------------------------------------------------------------------------
// Telling what is wrong

/// The value of the first header line that announces a length and is no number.
pub open spec fn bad_length(lines: Seq<Seq<char>>) -> Option<Seq<char>>
    decreases lines.len(),
{
    if lines.len() == 0 {
        None
    } else {
        match header_line(lines[0]) {
            Some((name, value)) => if same_ignoring_case(name, "content-length"@) && unsigned_value(
                value,
                usize::MAX as int,
            ) is None {
                Some(value)
            } else {
                bad_length(lines.skip(1))
            },
            None => bad_length(lines.skip(1)),
        }
    }
}

/// What is told of a request that was not accepted: the error, and its cause
/// where it has one.
pub open spec fn request_fault(bytes: Seq<u8>, e: HttpError) -> Seq<Seq<char>> {
    match (e, utf8(bytes)) {
        (HttpError::RequestNotUtf8, None) => seq![e.text(), utf8_fault(bytes)],
        (HttpError::InvalidContentLength, Some(text)) => match bad_length(
            head_lines(text).skip(1),
        ) {
            Some(value) => seq![e.text(), unsigned_fault(value, usize::MAX as int)],
            None => seq![e.text()],
        },
        _ => seq![e.text()],
    }
}

/// What is told of a response that was not accepted: the error, and its cause
/// where it has one.
pub open spec fn response_fault(bytes: Seq<u8>, e: HttpError) -> Seq<Seq<char>> {
    match (e, utf8(bytes)) {
        (HttpError::ResponseNotUtf8, None) => seq![e.text(), utf8_fault(bytes)],
        (HttpError::InvalidStatus, Some(text)) => if words_of(status_line(text)).len() >= 2 {
            seq![e.text(), unsigned_fault(words_of(status_line(text))[1], u16::MAX as int)]
        } else {
            seq![e.text()]
        },
        _ => seq![e.text()],
    }
}

/// A tunnel request whose announced length is no number names that length.
pub proof fn a_refused_length_is_named(head: TunnelRequestHead, lines: Seq<Seq<char>>)
    requires
        tunnel_headers(head, lines) == Err::<TunnelRequestHead, HttpError>(
            HttpError::InvalidContentLength,
        ),
    ensures
        bad_length(lines) matches Some(value) && unsigned_value(value, usize::MAX as int) is None,
    decreases lines.len(),
{
    if lines.len() > 0 && lines[0].len() > 0 {
        if let Some((name, value)) = header_line(lines[0]) {
            if same_ignoring_case(name, "content-length"@) {
                if let Some(n) = unsigned_value(value, usize::MAX as int) {
                    a_refused_length_is_named(
                        (TunnelRequestHead { content_length: Some(n as usize), ..head }),
                        lines.skip(1),
                    );
                }
            } else if same_ignoring_case(name, "transfer-encoding"@) {
                a_refused_length_is_named(
                    (TunnelRequestHead { chunked: names_chunked(value), ..head }),
                    lines.skip(1),
                );
            } else {
                a_refused_length_is_named(head, lines.skip(1));
            }
        }
    }
}

fn find_bad_length(lines: &Vec<String>) -> (r: Option<String>)
    requires
        lines@.len() > 0,
    ensures
        opt_view(r) == bad_length(views(lines@).skip(1)),
{
    let ghost all = views(lines@);
    let mut i: usize = 1;
    while i < lines.len()
        invariant
            1 <= i <= lines@.len(),
            all == views(lines@),
            bad_length(all.skip(1)) == bad_length(all.skip(i as int)),
        decreases lines@.len() - i,
    {
        assert(all.skip(i as int)[0] == lines@[i as int]@);
        assert(all.skip(i as int).skip(1) =~= all.skip(i + 1));
        if let Some((name, value)) = split_header(lines[i].as_str()) {
            if eq_ignore_case(name.as_str(), "content-length") {
                if parse_unsigned(value.as_str(), usize::MAX as u64).is_none() {
                    return Some(value);
                }
            }
        }
        i = i + 1;
    }
    None
}

/// Tells why a request was not accepted.
pub fn explain_request(bytes: &[u8], e: HttpError) -> (r: Failure)
    ensures
        r@ == request_fault(bytes@, e),
{
    let message = e.message();
    match e {
        HttpError::RequestNotUtf8 => match read_utf8(bytes) {
            Err(cause) => Failure::caused(message.as_str(), cause.as_str()),
            Ok(_) => Failure::new(message.as_str()),
        },
        HttpError::InvalidContentLength => match head_text(bytes) {
            Some((lines, _)) => match find_bad_length(&lines) {
                Some(value) => Failure::caused(
                    message.as_str(),
                    explain_unsigned(value.as_str(), usize::MAX as u64).as_str(),
                ),
                None => Failure::new(message.as_str()),
            },
            None => Failure::new(message.as_str()),
        },
        _ => Failure::new(message.as_str()),
    }
}

/// Tells why a response was not accepted.
pub fn explain_response(bytes: &[u8], e: HttpError) -> (r: Failure)
    ensures
        r@ == response_fault(bytes@, e),
{
    let message = e.message();
    match e {
        HttpError::ResponseNotUtf8 => match read_utf8(bytes) {
            Err(cause) => Failure::caused(message.as_str(), cause.as_str()),
            Ok(_) => Failure::new(message.as_str()),
        },
        HttpError::InvalidStatus => match utf8_text(bytes) {
            Some(text) => {
                let sep = crlf_text();
                let start = match split_once(text.as_str(), sep.as_str()) {
                    Some((line, _)) => line,
                    None => text,
                };
                let parts = words(start.as_str());
                assert(views(parts@).len() == parts@.len());
                if parts.len() >= 2 {
                    assert(views(parts@)[1] == parts@[1]@);
                    Failure::caused(
                        message.as_str(),
                        explain_unsigned(parts[1].as_str(), u16::MAX as u64).as_str(),
                    )
                } else {
                    Failure::new(message.as_str())
                }
            },
            None => Failure::new(message.as_str()),
        },
        _ => Failure::new(message.as_str()),
    }
}

// ---------------------------------------------------------------------------
// Building

/// The head of a tunnel request whose body has `body_len` bytes.
pub open spec fn tunnel_request_head_text(
    host: Seq<char>,
    path: Seq<char>,
    user_agent: Seq<char>,
    body_len: nat,
) -> Seq<char> {
    "POST "@ + path + " HTTP/1.1\r\nHost: "@ + host + "\r\nUser-Agent: "@ + user_agent
        + "\r\nAccept: application/json, text/plain, */*\r\nContent-Type: application/json\r\nContent-Length: "@
        + decimal(body_len) + "\r\nConnection: keep-alive\r\n\r\n"@
}

/// A tunnel request with the given body.
pub fn build_tunnel_request(host: &str, path: &str, body: &[u8], user_agent: &str) -> (r: Vec<u8>)
    ensures
        r@ == bytes_of(tunnel_request_head_text(host@, path@, user_agent@, body@.len())) + body@,
{
    let mut head: String = "POST ".to_owned();
    head.append(path);
    head.append(" HTTP/1.1\r\nHost: ");
    head.append(host);
    head.append("\r\nUser-Agent: ");
    head.append(user_agent);
    head.append(
        "\r\nAccept: application/json, text/plain, */*\r\nContent-Type: application/json\r\nContent-Length: ",
    );
    head.append(to_decimal(body.len() as u64).as_str());
    head.append("\r\nConnection: keep-alive\r\n\r\n");
    let mut request = to_bytes(head.as_str());
    extend(&mut request, body);
    request
}

/// A response without a body on a connection that stays open.
pub open spec fn empty_response_text(status: nat, reason: Seq<char>) -> Seq<char> {
    "HTTP/1.1 "@ + decimal(status) + " "@ + reason
        + "\r\nContent-Length: 0\r\nConnection: keep-alive\r\n\r\n"@
}

/// A response without a body on a connection that stays open.
pub fn empty_response(status: u16, reason: &str) -> (r: Vec<u8>)
    ensures
        r@ == bytes_of(empty_response_text(status as nat, reason@)),
{
    let mut s: String = "HTTP/1.1 ".to_owned();
    s.append(to_decimal(status as u64).as_str());
    s.append(" ");
    s.append(reason);
    s.append("\r\nContent-Length: 0\r\nConnection: keep-alive\r\n\r\n");
    to_bytes(s.as_str())
}

/// The answer to a tunnel request that was accepted.
pub fn build_tunnel_established() -> (r: Vec<u8>)
    ensures
        r@ == bytes_of(empty_response_text(200, "Connection Established"@)),
{
    empty_response(200, "Connection Established")
}

/// A plain text response that ends the connection.
pub open spec fn error_response_text(status: nat, reason: Seq<char>, body: Seq<char>) -> Seq<char> {
    "HTTP/1.1 "@ + decimal(status) + " "@ + reason
        + "\r\nContent-Type: text/plain; charset=utf-8\r\nContent-Length: "@ + decimal(
        bytes_of(body).len(),
    ) + "\r\nConnection: close\r\n\r\n"@ + body
}

/// A plain text response that ends the connection.
pub fn build_error_response(status: u16, reason: &str, body: &str) -> (r: Vec<u8>)
    ensures
        r@ == bytes_of(error_response_text(status as nat, reason@, body@)),
{
    let mut s: String = "HTTP/1.1 ".to_owned();
    s.append(to_decimal(status as u64).as_str());
    s.append(" ");
    s.append(reason);
    s.append("\r\nContent-Type: text/plain; charset=utf-8\r\nContent-Length: ");
    let len: usize = to_bytes(body).len();
    s.append(to_decimal(len as u64).as_str());
    s.append("\r\nConnection: close\r\n\r\n");
    s.append(body);
    to_bytes(s.as_str())
}

/// Whether a list of headers has one of that name.
pub open spec fn names_header(headers: Seq<(String, String)>, name: Seq<char>) -> bool {
    exists|i: int| 0 <= i < headers.len() && same_ignoring_case((#[trigger] headers[i]).0@, name)
}

/// The lines of a list of headers.
pub open spec fn header_lines_text(headers: Seq<(String, String)>) -> Seq<char>
    decreases headers.len(),
{
    if headers.len() == 0 {
        seq![]
    } else {
        header_lines_text(headers.drop_last()) + headers.last().0@ + ": "@ + headers.last().1@
            + "\r\n"@
    }
}

/// The head of a response: the given headers, and the length of the body and
/// the end of the connection where they do not say so themselves.
pub open spec fn response_head_text(
    status: nat,
    reason: Seq<char>,
    headers: Seq<(String, String)>,
    body_len: nat,
) -> Seq<char> {
    "HTTP/1.1 "@ + decimal(status) + " "@ + reason + "\r\n"@ + header_lines_text(headers) + (
    if names_header(headers, "content-length"@) {
        ""@
    } else {
        "Content-Length: "@ + decimal(body_len) + "\r\n"@
    }) + (if names_header(headers, "connection"@) {
        ""@
    } else {
        "Connection: close\r\n"@
    }) + "\r\n"@
}

/// A response with the given headers and body.
pub fn build_response(
    status: u16,
    reason: &str,
    headers: &Vec<(String, String)>,
    body: &[u8],
) -> (r: Vec<u8>)
    ensures
        r@ == bytes_of(response_head_text(status as nat, reason@, headers@, body@.len())) + body@,
{
    let mut head: String = "HTTP/1.1 ".to_owned();
    head.append(to_decimal(status as u64).as_str());
    head.append(" ");
    head.append(reason);
    head.append("\r\n");
    let ghost line = head@;
    let mut has_content_length: bool = false;
    let mut has_connection: bool = false;
    let mut listed: String = String::new();
    let mut i: usize = 0;
    while i < headers.len()
        invariant
            i <= headers@.len(),
            listed@ == header_lines_text(headers@.take(i as int)),
            has_content_length == names_header(headers@.take(i as int), "content-length"@),
            has_connection == names_header(headers@.take(i as int), "connection"@),
        decreases headers@.len() - i,
    {
        let ghost before = headers@.take(i as int);
        let ghost now = headers@.take(i + 1);
        assert(now.drop_last() =~= before);
        assert(now.last() == headers@[i as int]);
        assert forall|name: Seq<char>| names_header(now, name) == (names_header(before, name)
            || same_ignoring_case(headers@[i as int].0@, name)) by {
            if names_header(before, name) {
                let k = choose|k: int|
                    0 <= k < before.len() && same_ignoring_case((#[trigger] before[k]).0@, name);
                assert(now[k] == before[k]);
            }
            if same_ignoring_case(headers@[i as int].0@, name) {
                assert(now[i as int].0@ == headers@[i as int].0@);
            }
            if names_header(now, name) {
                let k = choose|k: int|
                    0 <= k < now.len() && same_ignoring_case((#[trigger] now[k]).0@, name);
                if k < i {
                    assert(before[k] == now[k]);
                }
            }
        }
        if eq_ignore_case(headers[i].0.as_str(), "content-length") {
            has_content_length = true;
        }
        if eq_ignore_case(headers[i].0.as_str(), "connection") {
            has_connection = true;
        }
        listed.append(headers[i].0.as_str());
        listed.append(": ");
        listed.append(headers[i].1.as_str());
        listed.append("\r\n");
        i = i + 1;
    }
    assert(headers@.take(i as int) =~= headers@);
    head.append(listed.as_str());
    let mut length: String = "".to_owned();
    if !has_content_length {
        length = "Content-Length: ".to_owned();
        length.append(to_decimal(body.len() as u64).as_str());
        length.append("\r\n");
    }
    head.append(length.as_str());
    let mut connection: String = "".to_owned();
    if !has_connection {
        connection = "Connection: close\r\n".to_owned();
    }
    head.append(connection.as_str());
    head.append("\r\n");
    let mut response = to_bytes(head.as_str());
    extend(&mut response, body);
    response
}

// ---------------------------------------------------------------------------
// Headers of a parsed request

/// The value of a header; names are compared without regard to case.
pub fn header<'a>(headers: &'a TextMap, name: &str) -> (r: Option<&'a str>)
    ensures
        match r {
            Some(v) => headers@.contains_key(lower(name@)) && v@ == headers@[lower(name@)],
            None => !headers@.contains_key(lower(name@)),
        },
{
    headers.get(to_lower(name).as_str())
}

/// The declared length of the body.
pub fn content_length(headers: &TextMap) -> (r: Result<Option<usize>, HttpError>)
    ensures
        ({
            let name = lower("content-length"@);
            match r {
                Ok(None) => !headers@.contains_key(name),
                Ok(Some(n)) => headers@.contains_key(name) && unsigned_value(
                    headers@[name],
                    usize::MAX as int,
                ) == Some(n as int),
                Err(e) => headers@.contains_key(name) && unsigned_value(
                    headers@[name],
                    usize::MAX as int,
                ) is None && e == HttpError::InvalidContentLength,
            }
        }),
{
    match header(headers, "content-length") {
        Some(length) => match parse_unsigned(length, usize::MAX as u64) {
            Some(n) => Ok(Some(n as usize)),
            None => Err(HttpError::InvalidContentLength),
        },
        None => Ok(None),
    }
}

/// The length of the body that the head of a response announces, if it does.
pub open spec fn announced_length(head: Seq<u8>) -> Option<int> {
    match utf8(head) {
        None => None,
        Some(text) => match headers_of(head_lines(text).skip(1)) {
            None => None,
            Some(h) => if h.contains_key(lower("content-length"@)) {
                unsigned_value(h[lower("content-length"@)], usize::MAX as int)
            } else {
                None
            },
        },
    }
}

/// The length of the body that the head of a response announces, if it does.
pub fn response_length(head: &[u8]) -> (r: Option<usize>)
    ensures
        match (r, announced_length(head@)) {
            (Some(n), Some(m)) => n == m,
            (None, None) => true,
            _ => false,
        },
{
    match head_text(head) {
        None => None,
        Some((lines, _)) => match parse_headers(&lines, 1) {
            Err(_) => None,
            Ok(headers) => match content_length(&headers) {
                Ok(length) => length,
                Err(_) => None,
            },
        },
    }
}

/// What the body of a refusal tells, if it tells anything.
pub open spec fn told_by(body: Seq<u8>) -> Option<Seq<char>> {
    match utf8(body) {
        Some(text) => if trimmed(text).len() > 0 {
            Some(trimmed(text))
        } else {
            None
        },
        None => None,
    }
}

/// What the body of a refusal tells, if it tells anything.
pub fn refusal_detail(body: &[u8]) -> (r: Option<String>)
    ensures
        opt_view(r) == told_by(body@),
{
    match utf8_text(body) {
        None => None,
        Some(text) => {
            let told = trim(text.as_str());
            if told.as_str().is_empty() {
                None
            } else {
                Some(told)
            }
        },
    }
}

/// Whether the body comes in chunks.
pub fn is_chunked(headers: &TextMap) -> (r: bool)
    ensures
        r == (headers@.contains_key(lower("transfer-encoding"@)) && names_chunked(
            headers@[lower("transfer-encoding"@)],
        )),
{
    match header(headers, "transfer-encoding") {
        Some(value) => lists_chunked(value),
        None => false,
    }
}

// ---------------------------------------------------------------------------
// Laws

/// A line without a line break, followed by one, is the first line.
pub(crate) proof fn lemma_line(a: Seq<char>, rest: Seq<char>)
    requires
        !contains(a, crlf()),
    ensures
        split(a + crlf() + rest, crlf()) == seq![a] + split(rest, crlf()),
        split_first(a + crlf() + rest, crlf()) == Some((a, rest)),
{
    let s = a + crlf() + rest;
    assert forall|j: int| 0 <= j < a.len() implies !occurs_at(s, crlf(), j) by {
        if occurs_at(s, crlf(), j) {
            let sub = s.subrange(j, j + 2);
            assert(sub[0] == s[j]);
            assert(sub[1] == s[j + 1]);
            if j + 1 < a.len() {
                assert(a.subrange(j, j + 2) =~= crlf());
                assert(occurs_at(a, crlf(), j));
            } else {
                assert(s[j + 1] == '\r');
            }
        }
    }
    lemma_split_after(a, crlf(), rest);
    lemma_find_after(a, crlf(), rest);
}

/// Text without a carriage return holds no line break.
pub(crate) proof fn lemma_no_cr(a: Seq<char>)
    requires
        forall|i: int| 0 <= i < a.len() ==> #[trigger] a[i] != '\r',
    ensures
        !contains(a, crlf()),
{
    assert forall|j: int| !occurs_at(a, crlf(), j) by {
        if occurs_at(a, crlf(), j) {
            assert(a.subrange(j, j + 2)[0] == a[j]);
        }
    }
}

/// A line break does not arise where text without one follows text that does
/// not end in a carriage return.
pub(crate) proof fn lemma_no_crlf_join(a: Seq<char>, b: Seq<char>)
    requires
        forall|i: int| 0 <= i < a.len() ==> #[trigger] a[i] != '\r',
        !contains(b, crlf()),
    ensures
        !contains(a + b, crlf()),
{
    assert forall|j: int| !occurs_at(a + b, crlf(), j) by {
        if occurs_at(a + b, crlf(), j) {
            let sub = (a + b).subrange(j, j + 2);
            assert(sub[0] == (a + b)[j]);
            assert(sub[1] == (a + b)[j + 1]);
            if j < a.len() {
                assert((a + b)[j] == a[j]);
            } else {
                assert(b.subrange(j - a.len(), j - a.len() + 2) =~= crlf());
                assert(occurs_at(b, crlf(), j - a.len()));
            }
        }
    }
}

/// The status line of a response.
pub open spec fn status_line_text(status: nat, reason: Seq<char>) -> Seq<char> {
    "HTTP/1.1 "@ + decimal(status) + " "@ + reason
}

proof fn lemma_decimal_is_word(n: nat)
    ensures
        is_word(decimal(n)),
        forall|i: int| 0 <= i < decimal(n).len() ==> #[trigger] decimal(n)[i] != '\r',
{
    decimal_is_digits(n);
    let s = decimal(n);
    assert forall|i: int| 0 <= i < s.len() implies !is_whitespace(#[trigger] s[i]) by {
        assert(is_digit(s[i]));
    }
    assert forall|i: int| 0 <= i < s.len() implies #[trigger] s[i] != '\r' by {
        assert(is_digit(s[i]));
    }
}

/// The client reads the status and the reason that the server wrote, whatever
/// the headers and the body are: runs of white space in the reason come back
/// as one space.
pub proof fn response_reads_back(status: u16, reason: Seq<char>, rest: Seq<char>)
    requires
        !contains(reason, crlf()),
    ensures
        ({
            let b = bytes_of(status_line_text(status as nat, reason) + crlf() + rest);
            let w = words_of(status_line(utf8(b)->0));
            &&& response_error(b) is None
            &&& begins_with(w[0], "HTTP/1."@)
            &&& unsigned_value(w[1], u16::MAX as int) == Some(status as int)
            &&& joined(w.skip(2), " "@) == joined(words_of(reason), " "@)
        }),
{
    let line = status_line_text(status as nat, reason);
    let text = line + crlf() + rest;
    lemma_utf8_reads_back(text);
    lemma_decimal_is_word(status as nat);
    reveal_strlit("HTTP/1.1 ");
    reveal_strlit(" ");
    reveal_strlit("HTTP/1.");
    let v = seq!['H', 'T', 'T', 'P', '/', '1', '.', '1'];
    assert("HTTP/1.1 "@ =~= v + seq![' ']);
    assert(" "@ =~= seq![' ']);
    let head = "HTTP/1.1 "@ + decimal(status as nat) + " "@;
    assert forall|i: int| 0 <= i < head.len() implies #[trigger] head[i] != '\r' by {
        let d = decimal(status as nat);
        if 9 <= i < 9 + d.len() {
            assert(head[i] == d[i - 9]);
        }
    }
    lemma_no_crlf_join(head, reason);
    assert(line =~= head + reason);
    lemma_line(line, rest);
    assert(status_line(text) == line);
    let tail = decimal(status as nat) + seq![' '] + reason;
    assert(line =~= v + seq![' '] + tail);
    assert(is_word(v));
    lemma_word_then(v, tail);
    lemma_word_then(decimal(status as nat), reason);
    let w = words_of(line);
    assert(w =~= seq![v] + (seq![decimal(status as nat)] + words_of(reason)));
    assert(w.skip(2) =~= words_of(reason));
    assert(v.take(7) =~= "HTTP/1."@);
    decimal_reads_back(status as nat, u16::MAX as int);
}

/// Every response that the library builds has the form that
/// `response_reads_back` speaks of.
pub proof fn responses_start_with_a_status_line(
    status: u16,
    reason: Seq<char>,
    body: Seq<char>,
    headers: Seq<(String, String)>,
    body_len: nat,
)
    ensures
        exists|rest: Seq<char>|
            empty_response_text(status as nat, reason) == status_line_text(status as nat, reason)
                + crlf() + rest,
        exists|rest: Seq<char>|
            error_response_text(status as nat, reason, body) == status_line_text(
                status as nat,
                reason,
            ) + crlf() + rest,
        exists|rest: Seq<char>|
            response_head_text(status as nat, reason, headers, body_len) == status_line_text(
                status as nat,
                reason,
            ) + crlf() + rest,
{
    let line = status_line_text(status as nat, reason);
    reveal_strlit("\r\n");
    assert("\r\n"@ =~= crlf());
    let e = "\r\nContent-Length: 0\r\nConnection: keep-alive\r\n\r\n"@;
    reveal_strlit("\r\nContent-Length: 0\r\nConnection: keep-alive\r\n\r\n");
    assert(e =~= crlf() + e.skip(2));
    assert(empty_response_text(status as nat, reason) =~= line + crlf() + e.skip(2));
    let p = "\r\nContent-Type: text/plain; charset=utf-8\r\nContent-Length: "@;
    reveal_strlit("\r\nContent-Type: text/plain; charset=utf-8\r\nContent-Length: ");
    assert(p =~= crlf() + p.skip(2));
    let tail = p.skip(2) + decimal(bytes_of(body).len()) + "\r\nConnection: close\r\n\r\n"@ + body;
    assert(error_response_text(status as nat, reason, body) =~= line + crlf() + tail);
    let full = response_head_text(status as nat, reason, headers, body_len);
    let n = (line + crlf()).len() as int;
    assert(full =~= line + crlf() + full.skip(n));
}

pub(crate) proof fn lemma_header_line(name: Seq<char>, value: Seq<char>)
    requires
        name.len() > 0,
        !is_whitespace(name[0]),
        !is_whitespace(name.last()),
        forall|i: int| 0 <= i < name.len() ==> #[trigger] name[i] != ':',
    ensures
        header_line(name + seq![':'] + (seq![' '] + value)) == Some((name, trimmed(value))),
{
    lemma_no_char(name, ':', seq![' '] + value);
    lemma_find_after(name, seq![':'], seq![' '] + value);
    lemma_trimmed_same(name);
    lemma_trimmed_after_space(value);
}

/// A header that says nothing about the body is passed over.
proof fn lemma_other_header(
    head: TunnelRequestHead,
    name: Seq<char>,
    value: Seq<char>,
    lines: Seq<Seq<char>>,
)
    requires
        name.len() > 0,
        name.len() != 14,
        name.len() != 17,
        !is_whitespace(name[0]),
        !is_whitespace(name.last()),
        forall|i: int| 0 <= i < name.len() ==> #[trigger] name[i] != ':',
    ensures
        tunnel_headers(head, seq![name + seq![':'] + (seq![' '] + value)] + lines)
            == tunnel_headers(head, lines),
{
    let line = name + seq![':'] + (seq![' '] + value);
    let all = seq![line] + lines;
    lemma_header_line(name, value);
    reveal_strlit("content-length");
    reveal_strlit("transfer-encoding");
    assert(lower(name).len() == name.len());
    assert(lower("content-length"@).len() == 14);
    assert(lower("transfer-encoding"@).len() == 17);
    assert(all[0] == line);
    assert(all.skip(1) =~= lines);
}

/// The lines of a tunnel request behind the request line.
pub open spec fn request_header_lines(
    host: Seq<char>,
    user_agent: Seq<char>,
    length: Seq<char>,
) -> Seq<Seq<char>> {
    let sp = seq![' '];
    let colon = seq![':'];
    seq![
        seq!['H', 'o', 's', 't'] + colon + (sp + host),
        seq!['U', 's', 'e', 'r', '-', 'A', 'g', 'e', 'n', 't'] + colon + (sp + user_agent),
        seq!['A', 'c', 'c', 'e', 'p', 't'] + colon + (sp + "application/json, text/plain, */*"@),
        "Content-Type"@ + colon + (sp + "application/json"@),
        "Content-Length"@ + colon + (sp + length),
        "Connection"@ + colon + (sp + "keep-alive"@),
        seq![],
        seq![],
    ]
}

/// The lines of a tunnel request.
#[verifier::spinoff_prover]
#[verifier::rlimit(40)]
proof fn lemma_request_lines(
    host: Seq<char>,
    path: Seq<char>,
    user_agent: Seq<char>,
    length: Seq<char>,
    text: Seq<char>,
)
    requires
        is_word(path),
        !contains(host, crlf()),
        !contains(user_agent, crlf()),
        forall|i: int| 0 <= i < length.len() ==> #[trigger] length[i] != '\r',
        text == "POST "@ + path + " HTTP/1.1\r\nHost: "@ + host + "\r\nUser-Agent: "@ + user_agent
            + "\r\nAccept: application/json, text/plain, */*\r\nContent-Type: application/json\r\nContent-Length: "@
            + length + "\r\nConnection: keep-alive\r\n\r\n"@,
    ensures
        head_lines(text) == seq![
            seq!['P', 'O', 'S', 'T'] + seq![' '] + path + (seq![' '] + seq![
                'H',
                'T',
                'T',
                'P',
                '/',
                '1',
                '.',
                '1',
            ]),
        ] + request_header_lines(host, user_agent, length),
{
    let h = request_header_lines(host, user_agent, length);
    let sp = seq![' '];
    let colon = seq![':'];
    let l0 = seq!['P', 'O', 'S', 'T'] + sp + path + (sp + seq![
        'H',
        'T',
        'T',
        'P',
        '/',
        '1',
        '.',
        '1',
    ]);
    let none = Seq::<char>::empty();
    let r6 = none + crlf() + none;
    let r5 = h[5] + crlf() + r6;
    let r4 = h[4] + crlf() + r5;
    let r3 = h[3] + crlf() + r4;
    let r2 = h[2] + crlf() + r3;
    let r1 = h[1] + crlf() + r2;
    let r0 = h[0] + crlf() + r1;
    lemma_request_pieces(host, path, user_agent, length);
    assert(text == l0 + crlf() + r0);
    assert(!contains(l0, crlf())) by {
        assert forall|i: int| 0 <= i < l0.len() implies #[trigger] l0[i] != '\r' by {
            if 5 <= i < 5 + path.len() {
                assert(l0[i] == path[i - 5]);
                assert(!is_whitespace(path[i - 5]));
            }
        }
        lemma_no_cr(l0);
    }
    assert(!contains(h[0], crlf())) by {
        let p = seq!['H', 'o', 's', 't'] + colon + sp;
        lemma_no_crlf_join(p, host);
        assert(h[0] =~= p + host);
    }
    assert(!contains(h[1], crlf())) by {
        let p = seq!['U', 's', 'e', 'r', '-', 'A', 'g', 'e', 'n', 't'] + colon + sp;
        lemma_no_crlf_join(p, user_agent);
        assert(h[1] =~= p + user_agent);
    }
    assert(!contains(h[2], crlf())) by {
        reveal_strlit("application/json, text/plain, */*");
        lemma_no_cr(h[2]);
    }
    assert(!contains(h[3], crlf())) by {
        reveal_strlit("Content-Type");
        reveal_strlit("application/json");
        lemma_no_cr(h[3]);
    }
    assert(!contains(h[4], crlf())) by {
        reveal_strlit("Content-Length");
        assert forall|i: int| 0 <= i < h[4].len() implies #[trigger] h[4][i] != '\r' by {
            if 16 <= i {
                assert(h[4][i] == length[i - 16]);
            }
        }
        lemma_no_cr(h[4]);
    }
    assert(!contains(h[5], crlf())) by {
        reveal_strlit("Connection");
        reveal_strlit("keep-alive");
        lemma_no_cr(h[5]);
    }
    assert(!contains(none, crlf())) by {
        lemma_no_cr(none);
    }
    lemma_line(l0, r0);
    lemma_line(h[0], r1);
    lemma_line(h[1], r2);
    lemma_line(h[2], r3);
    lemma_line(h[3], r4);
    lemma_line(h[4], r5);
    lemma_line(h[5], r6);
    lemma_line(none, none);
    lemma_find_from(none, crlf(), 0);
    assert(split(none, crlf()) =~= seq![none]);
    assert(split(text, crlf()) == seq![l0] + (seq![h[0]] + (seq![h[1]] + (seq![h[2]] + (seq![h[3]]
        + (seq![h[4]] + (seq![h[5]] + (seq![none] + seq![none]))))))));
    assert(split(text, crlf()) =~= seq![l0] + h);
}

/// The server finds in a tunnel request the path that the client asked for and
/// the length of the body that the client sent.
pub proof fn tunnel_request_reads_back(
    host: Seq<char>,
    path: Seq<char>,
    user_agent: Seq<char>,
    body_len: usize,
)
    requires
        is_word(path),
        !contains(host, crlf()),
        !contains(user_agent, crlf()),
    ensures
        tunnel_head(
            bytes_of(tunnel_request_head_text(host, path, user_agent, body_len as nat)),
            path,
        ) == Ok::<_, HttpError>(
            Some(TunnelRequestHead { content_length: Some(body_len), chunked: false }),
        ),
{
    let text = tunnel_request_head_text(host, path, user_agent, body_len as nat);
    let v_len = decimal(body_len as nat);
    lemma_utf8_reads_back(text);
    lemma_decimal_is_word(body_len as nat);
    lemma_request_lines(host, path, user_agent, v_len, text);
    let post = seq!['P', 'O', 'S', 'T'];
    let version = seq!['H', 'T', 'T', 'P', '/', '1', '.', '1'];
    let sp = seq![' '];
    let none = Seq::<char>::empty();
    let l0 = post + sp + path + (sp + version);
    let t0 = request_header_lines(host, user_agent, v_len);
    let lines = head_lines(text);
    assert(lines[0] == l0);
    assert(lines.skip(1) =~= t0);
    assert(words_of(l0) =~= seq![post, path, version]) by {
        assert(l0 =~= post + sp + (path + sp + version));
        assert(is_word(post));
        assert(is_word(version));
        lemma_word_then(post, path + sp + version);
        lemma_word_then(path, version);
        assert(version + none =~= version);
        lemma_first_word(version, none);
        assert(words_of(none) =~= Seq::<Seq<char>>::empty());
    }
    reveal_strlit("POST");
    reveal_strlit("HTTP/1.");
    assert(version.take(7) =~= "HTTP/1."@);
    assert("POST"@ =~= post);
    lemma_request_headers(host, user_agent, body_len);
}

/// What the header lines of a tunnel request say.
proof fn lemma_request_headers(host: Seq<char>, user_agent: Seq<char>, body_len: usize)
    ensures
        tunnel_headers(
            silent_head(),
            request_header_lines(host, user_agent, decimal(body_len as nat)),
        ) == Ok::<TunnelRequestHead, HttpError>(
            TunnelRequestHead { content_length: Some(body_len), chunked: false },
        ),
{
    reveal_strlit("Content-Length");
    reveal_strlit("Content-Type");
    reveal_strlit("Connection");
    reveal_strlit("content-length");
    let v_len = decimal(body_len as nat);
    lemma_decimal_is_word(body_len as nat);
    let t0 = request_header_lines(host, user_agent, v_len);
    let t1 = t0.skip(1);
    let t2 = t0.skip(2);
    let t3 = t0.skip(3);
    let t4 = t0.skip(4);
    let t5 = t0.skip(5);
    let t6 = t0.skip(6);
    assert(t0 =~= seq![t0[0]] + t1);
    assert(t1 =~= seq![t0[1]] + t2);
    assert(t2 =~= seq![t0[2]] + t3);
    assert(t3 =~= seq![t0[3]] + t4);
    assert(t4.skip(1) =~= t5);
    assert(t5 =~= seq![t0[5]] + t6);
    let h = silent_head();
    lemma_other_header(h, seq!['H', 'o', 's', 't'], host, t1);
    lemma_other_header(
        h,
        seq!['U', 's', 'e', 'r', '-', 'A', 'g', 'e', 'n', 't'],
        user_agent,
        t2,
    );
    lemma_other_header(
        h,
        seq!['A', 'c', 'c', 'e', 'p', 't'],
        "application/json, text/plain, */*"@,
        t3,
    );
    lemma_other_header(h, "Content-Type"@, "application/json"@, t4);
    lemma_header_line("Content-Length"@, v_len);
    lemma_trimmed_same(v_len);
    assert(lower("Content-Length"@) =~= lower("content-length"@));
    decimal_reads_back(body_len as nat, usize::MAX as int);
    let h2 = TunnelRequestHead { content_length: Some(body_len), chunked: false };
    assert(t4[0] == t0[4]);
    assert(tunnel_headers(h, t4) == tunnel_headers(h2, t5));
    lemma_other_header(h2, "Connection"@, "keep-alive"@, t6);
    assert(t6[0].len() == 0);
}

/// A tunnel request head, cut into its lines.
proof fn lemma_request_pieces(
    host: Seq<char>,
    path: Seq<char>,
    user_agent: Seq<char>,
    length: Seq<char>,
)
    ensures
        "POST "@ + path + " HTTP/1.1\r\nHost: "@ + host + "\r\nUser-Agent: "@ + user_agent
            + "\r\nAccept: application/json, text/plain, */*\r\nContent-Type: application/json\r\nContent-Length: "@
            + length + "\r\nConnection: keep-alive\r\n\r\n"@ == (seq!['P', 'O', 'S', 'T']
            + seq![' '] + path + (seq![' '] + seq!['H', 'T', 'T', 'P', '/', '1', '.', '1']))
            + crlf() + ((seq!['H', 'o', 's', 't'] + seq![':'] + (seq![' '] + host)) + crlf() + ((
        seq!['U', 's', 'e', 'r', '-', 'A', 'g', 'e', 'n', 't'] + seq![':'] + (seq![' ']
            + user_agent)) + crlf() + ((seq!['A', 'c', 'c', 'e', 'p', 't'] + seq![':'] + (seq![' ']
            + "application/json, text/plain, */*"@)) + crlf() + (("Content-Type"@ + seq![':'] + (
        seq![' '] + "application/json"@)) + crlf() + (("Content-Length"@ + seq![':'] + (seq![' ']
            + length)) + crlf() + (("Connection"@ + seq![':'] + (seq![' '] + "keep-alive"@))
            + crlf() + (Seq::<char>::empty() + crlf() + Seq::<char>::empty()))))))),
{
    reveal_strlit("POST ");
    reveal_strlit(" HTTP/1.1\r\nHost: ");
    reveal_strlit("\r\nUser-Agent: ");
    reveal_strlit(
        "\r\nAccept: application/json, text/plain, */*\r\nContent-Type: application/json\r\nContent-Length: ",
    );
    reveal_strlit("\r\nConnection: keep-alive\r\n\r\n");
    reveal_strlit("application/json, text/plain, */*");
    reveal_strlit("application/json");
    reveal_strlit("Content-Length");
    reveal_strlit("Content-Type");
    reveal_strlit("Connection");
    reveal_strlit("keep-alive");
    let sp = seq![' '];
    let colon = seq![':'];
    assert("POST "@ =~= seq!['P', 'O', 'S', 'T'] + sp);
    assert(" HTTP/1.1\r\nHost: "@ =~= sp + seq!['H', 'T', 'T', 'P', '/', '1', '.', '1'] + crlf()
        + seq!['H', 'o', 's', 't'] + colon + sp);
    assert("\r\nUser-Agent: "@ =~= crlf() + seq!['U', 's', 'e', 'r', '-', 'A', 'g', 'e', 'n', 't']
        + colon + sp);
    assert("\r\nAccept: application/json, text/plain, */*\r\nContent-Type: application/json\r\nContent-Length: "@
        =~= crlf() + seq!['A', 'c', 'c', 'e', 'p', 't'] + colon + sp
        + "application/json, text/plain, */*"@ + crlf() + "Content-Type"@ + colon + sp
        + "application/json"@ + crlf() + "Content-Length"@ + colon + sp);
    assert("\r\nConnection: keep-alive\r\n\r\n"@ =~= crlf() + "Connection"@ + colon + sp
        + "keep-alive"@ + crlf() + crlf());
}

/// A head ends at its first empty line, and what stands behind it belongs to the
/// body; without an empty line more is read, as long as the head may still grow.
pub proof fn heads_end_at_the_first_empty_line(
    buf: Vec<u8>,
    chunk: &[u8],
    max_bytes: usize,
    at: int,
    r: Result<HeadRead, HttpError>,
    found: Option<usize>,
)
    requires
        forall|j: int|
            0 <= j && j + 4 <= buf@.len() ==> !(#[trigger] buf@[j] == 13 && buf@[j + 1] == 10 && buf@[j
                + 2] == 13 && buf@[j + 3] == 10),
        buf@.len() < max_bytes,
        0 < chunk@.len() <= max_bytes - buf@.len(),
        0 <= at <= (buf@ + chunk@).len(),
        forall|j: int|
            0 <= j < at && j + 4 <= (buf@ + chunk@).len() ==> !(#[trigger] (buf@ + chunk@)[j] == 13 && (buf@
                + chunk@)[j + 1] == 10 && (buf@ + chunk@)[j + 2] == 13 && (buf@ + chunk@)[j + 3] == 10),
        call_ensures(read_head, (buf, chunk, max_bytes), r),
    ensures
        at + 4 <= (buf@ + chunk@).len() && (buf@ + chunk@).subrange(at, at + 4) == seq![
            13u8,
            10,
            13,
            10,
        ] ==> (r matches Ok(HeadRead::Complete(head, body)) && head@ == (buf@ + chunk@).take(at + 4)
            && body@ == (buf@ + chunk@).skip(at + 4)),
        at + 4 > (buf@ + chunk@).len() && buf@.len() + chunk@.len() < max_bytes ==> (r matches Ok(
            HeadRead::More(all),
        ) && all@ == buf@ + chunk@),
        at + 4 > (buf@ + chunk@).len() && buf@.len() + chunk@.len() == max_bytes ==> r is Err,
{
    let all = buf@ + chunk@;
    if at + 4 <= all.len() && all.subrange(at, at + 4) == seq![13u8, 10, 13, 10] {
        let s = all.subrange(at, at + 4);
        assert(s[0] == all[at] && s[1] == all[at + 1] && s[2] == all[at + 2] && s[3] == all[at + 3]);
        assert(blank_line_at(all, at));
        if let Ok(HeadRead::Complete(head, body)) = r {
            let end = head@.len() as int;
            assert(end - 4 == at) by {
                if end - 4 < at {
                    assert(blank_line_at(all, end - 4));
                }
                if at < end - 4 {
                    assert(!blank_line_at(all, at));
                }
            }
            assert(head@ =~= (head@ + body@).take(end));
            assert(body@ =~= (head@ + body@).skip(end));
        }
    }
    if at + 4 > all.len() {
        assert(no_head(all)) by {
            assert forall|j: int| !blank_line_at(all, j) by {
                if blank_line_at(all, j) {
                    assert(all[j] == 13);
                }
            }
        }
    }
}

/// A body is made of as many bytes as its head announces, those that came with the
/// head first; while some are missing they are waited for, and one that may not be so
/// long is refused.
pub proof fn bodies_are_as_long_as_announced(
    prefix: &[u8],
    more: &[u8],
    length: usize,
    max_bytes: usize,
    r: Result<BodyRead, HttpError>,
)
    requires
        call_ensures(read_body, (prefix, more, length, max_bytes), r),
    ensures
        r is Err <==> length > max_bytes || prefix@.len() > length,
        length <= max_bytes && prefix@.len() + more@.len() == length ==> (r matches Ok(
            BodyRead::Complete(b),
        ) && b@ == prefix@ + more@),
        length <= max_bytes && prefix@.len() <= length < prefix@.len() + more@.len() ==> (r matches Ok(
            BodyRead::Complete(b),
        ) && b@.len() == length && b@ == (prefix@ + more@).take(length as int)),
        length <= max_bytes && prefix@.len() + more@.len() < length ==> (r matches Ok(
            BodyRead::Missing(n),
        ) && n == length - prefix@.len() - more@.len()),
{
    assert((prefix@ + more@).take((prefix@ + more@).len() as int) =~= prefix@ + more@);
}

/// A head that may still grow is read on, within its limit; one that may not is not.
pub proof fn heads_are_read_within_their_limit(have: usize, max_bytes: usize, r: Option<usize>)
    requires
        call_ensures(head_chunk_len, (have, max_bytes), r),
    ensures
        r is Some <==> have < max_bytes,
        r matches Some(n) ==> 0 < n <= 1024 && have + n <= max_bytes && (n == 1024 || have + n
            == max_bytes),
{
}

proof fn lemma_headers_added(acc: Map<Seq<char>, Seq<char>>, lines: Seq<Seq<char>>)
    ensures
        headers_into(acc, lines) is Some <==> headers_of(lines) is Some,
        headers_into(acc, lines) is Some ==> headers_into(acc, lines)->0
            == acc.union_prefer_right(headers_of(lines)->0),
    decreases lines.len(),
{
    let none = Map::<Seq<char>, Seq<char>>::empty();
    if lines.len() == 0 || lines[0].len() == 0 {
        assert(acc.union_prefer_right(none) =~= acc);
    } else {
        match header_line(lines[0]) {
            Some((name, value)) => {
                let k = lower(name);
                lemma_headers_added(acc.insert(k, value), lines.skip(1));
                lemma_headers_added(none.insert(k, value), lines.skip(1));
                if headers_of(lines.skip(1)) is Some {
                    let m = headers_of(lines.skip(1))->0;
                    assert(acc.insert(k, value).union_prefer_right(m)
                        =~= acc.union_prefer_right(none.insert(k, value).union_prefer_right(m)));
                }
            },
            None => {},
        }
    }
}

/// A header line adds its header to those of the lines behind it, unless one of them
/// has the same name; a line without a colon spoils them all, and the lines behind an
/// empty one are not looked at.
pub proof fn header_lines_add_up(
    lines: &Vec<String>,
    from: usize,
    next: usize,
    name: Seq<char>,
    value: Seq<char>,
    r: Result<TextMap, HttpError>,
    rest: Result<TextMap, HttpError>,
)
    requires
        from < lines@.len(),
        forall|i: int| 0 <= i < name.len() ==> #[trigger] name[i] != ':',
        call_ensures(parse_headers, (lines, from), r),
        next == from + 1,
        call_ensures(parse_headers, (lines, next), rest),
    ensures
        lines@[from as int]@.len() == 0 ==> (r matches Ok(h) && h@ == Map::<
            Seq<char>,
            Seq<char>,
        >::empty()),
        lines@[from as int]@ == name + seq![':'] + value ==> (r is Ok <==> rest is Ok) && (
        r matches Ok(h) ==> h@ == (Map::<Seq<char>, Seq<char>>::empty().insert(
            lower(trimmed(name)),
            trimmed(value),
        )).union_prefer_right((rest->Ok_0)@)),
        lines@[from as int]@.len() > 0 && !lines@[from as int]@.contains(':') ==> r is Err,
{
    let all = views(lines@).skip(from as int);
    let line = lines@[from as int]@;
    assert(all[0] == line);
    assert(all.skip(1) =~= views(lines@).skip(from + 1));
    if line == name + seq![':'] + value {
        lemma_no_char(name, ':', value);
        lemma_find_after(name, seq![':'], value);
        assert(header_line(line) == Some((trimmed(name), trimmed(value))));
        let first = Map::<Seq<char>, Seq<char>>::empty().insert(
            lower(trimmed(name)),
            trimmed(value),
        );
        lemma_headers_added(first, all.skip(1));
        assert(headers_of(all) == headers_into(first, all.skip(1)));
    }
    if line.len() > 0 && !line.contains(':') {
        if let Some((a, b)) = split_first(line, seq![':']) {
            lemma_find_from(line, seq![':'], 0);
            let i = find_from(line, seq![':'], 0)->0;
            assert(line.subrange(i, i + 1) == seq![':']);
            assert(line.subrange(i, i + 1)[0] == line[i]);
            assert(line.contains(line[i]));
        }
    }
}

/// The request line gives the method, the path and the version, whatever headers
/// follow; a line of fewer or of more words is refused.
pub proof fn request_lines_are_understood(
    method: Seq<char>,
    path: Seq<char>,
    version: Seq<char>,
    rest: Seq<char>,
    bytes: &[u8],
    r: Result<HttpRequest, HttpError>,
)
    requires
        is_word(method),
        is_word(path),
        is_word(version),
        bytes@ == bytes_of(
            method + seq![' '] + (path + seq![' '] + version) + seq!['\r', '\n'] + rest,
        ),
        call_ensures(parse_request, (bytes,), r),
    ensures
        r matches Ok(q) ==> q.method@ == method && q.path@ == path && q.version@ == version,
        r is Err ==> r == Err::<HttpRequest, HttpError>(HttpError::MalformedHeader),
{
    let line = method + seq![' '] + (path + seq![' '] + version);
    let text = line + crlf() + rest;
    lemma_utf8_reads_back(text);
    assert forall|i: int| 0 <= i < line.len() implies #[trigger] line[i] != '\r' by {
        let c = line[i];
        if i < method.len() {
            assert(c == method[i]);
        } else if i > method.len() && i < method.len() + 1 + path.len() {
            assert(c == path[i - method.len() - 1]);
        } else if i > method.len() + 1 + path.len() {
            assert(c == version[i - method.len() - path.len() - 2]);
        }
        assert(is_whitespace('\r'));
    }
    lemma_no_cr(line);
    lemma_line(line, rest);
    assert(head_lines(text)[0] == line);
    lemma_word_then(method, path + seq![' '] + version);
    lemma_word_then(path, version);
    let none = Seq::<char>::empty();
    assert(version + none =~= version);
    lemma_first_word(version, none);
    assert(words_of(none) =~= Seq::<Seq<char>>::empty());
    assert(words_of(line) =~= seq![method, path, version]);
}

/// A header is found by its name in any case, the length of a body is the number
/// that its header writes, and a body comes in chunks only where a header says so.
pub proof fn headers_are_found_by_name(
    headers: &TextMap,
    a: &str,
    b: &str,
    by_a: Option<&str>,
    by_b: Option<&str>,
    n: usize,
    length_text: Option<&str>,
    length: Result<Option<usize>, HttpError>,
    coding: Option<&str>,
    chunked: bool,
)
    requires
        lower(a@) == lower(b@),
        call_ensures(header, (headers, a), by_a),
        call_ensures(header, (headers, b), by_b),
        call_ensures(header, (headers, "content-length"), length_text),
        call_ensures(content_length, (headers,), length),
        call_ensures(header, (headers, "transfer-encoding"), coding),
        call_ensures(is_chunked, (headers,), chunked),
    ensures
        by_a is Some <==> by_b is Some,
        by_a matches Some(s) ==> s@ == (by_b->0)@ && headers@.contains_value(s@),
        headers@.contains_key(lower(a@)) <==> by_a is Some,
        length_text is None <==> length == Ok::<Option<usize>, HttpError>(None),
        length_text matches Some(s) ==> s@ == decimal(n as nat) ==> length == Ok::<
            Option<usize>,
            HttpError,
        >(Some(n)),
        coding is None ==> !chunked,
{
    if by_a is Some {
        assert(headers@[lower(a@)] == (by_a->0)@);
        assert(headers@.contains_value(headers@[lower(a@)]));
    }
    crate::num::decimal_reads_back(n as nat, usize::MAX as int);
}

/// What a server answers is read by the client: its status, and that it is HTTP/1.
pub proof fn answers_tell_their_status(
    status: u16,
    reason: &str,
    body: &str,
    headers: &Vec<(String, String)>,
    error: Vec<u8>,
    empty: Vec<u8>,
    a: &[u8],
    b: &[u8],
    r: Result<(bool, u16, String), HttpError>,
    s: Result<(bool, u16, String), HttpError>,
)
    requires
        !contains(reason@, seq!['\r', '\n']),
        call_ensures(build_error_response, (status, reason, body), error),
        call_ensures(empty_response, (status, reason), empty),
        a@ == error@,
        b@ == empty@,
        call_ensures(parse_tunnel_response, (a,), r),
        call_ensures(parse_tunnel_response, (b,), s),
    ensures
        r matches Ok((http1, n, told)) && http1 && n == status && told@ == joined(
            words_of(reason@),
            " "@,
        ),
        s matches Ok((http1, n, told)) && http1 && n == status && told@ == joined(
            words_of(reason@),
            " "@,
        ),
{
    crate::server::lemma_answer_status(status, reason@, body@);
    let none = Seq::<(String, String)>::empty();
    responses_start_with_a_status_line(status, reason@, body@, none, 0);
    let line = status_line_text(status as nat, reason@);
    let x = choose|rest: Seq<char>|
        empty_response_text(status as nat, reason@) == line + crlf() + rest;
    let y = choose|rest: Seq<char>|
        error_response_text(status as nat, reason@, body@) == line + crlf() + rest;
    response_reads_back(status, reason@, x);
    response_reads_back(status, reason@, y);
}

/// A response carries its body behind its head, whose first line is the status and
/// the reason, and which ends with an empty line.
pub proof fn responses_carry_their_body(
    status: u16,
    reason: &str,
    headers: &Vec<(String, String)>,
    body: &[u8],
    r: Vec<u8>,
)
    requires
        call_ensures(build_response, (status, reason, headers, body), r),
    ensures
        exists|head: Seq<char>|
            r@ == #[trigger] bytes_of(head) + body@ && begins_with(
                head,
                "HTTP/1.1 "@ + decimal(status as nat) + " "@ + reason@ + "\r\n"@,
            ) && finishes_with(head, "\r\n"@),
{
    let head = response_head_text(status as nat, reason@, headers@, body@.len());
    let start = "HTTP/1.1 "@ + decimal(status as nat) + " "@ + reason@ + "\r\n"@;
    let end = "\r\n"@;
    assert(head.take(start.len() as int) =~= start);
    assert(head.skip(head.len() - end.len()) =~= end);
    assert(r@ == bytes_of(head) + body@);
}

/// A refusal tells what its body says, without white space around it, and nothing
/// where the body is blank or no text.
pub proof fn refusals_tell_their_body(body: &[u8], text: Seq<char>, r: Option<String>)
    requires
        call_ensures(refusal_detail, (body,), r),
    ensures
        body@ == bytes_of(text) ==> (r is None <==> trimmed(text).len() == 0) && (r matches Some(t)
            ==> t@ == trimmed(text)),
        utf8(body@) is None ==> r is None,
{
    lemma_utf8_reads_back(text);
}

/// A body comes in chunks just where one of the codings that its header lists is that
/// one, in any case.
pub proof fn chunked_bodies_are_noticed(
    headers: &TextMap,
    value: &str,
    coding: Option<&str>,
    pieces: Vec<String>,
    k: int,
    piece: &str,
    cut: String,
    chunked: bool,
)
    requires
        call_ensures(header, (headers, "transfer-encoding"), coding),
        coding matches Some(c) && c@ == value@,
        call_ensures(split_on, (value, ","), pieces),
        0 <= k < pieces@.len(),
        piece@ == pieces@[k]@,
        call_ensures(trim, (piece,), cut),
        call_ensures(is_chunked, (headers,), chunked),
    ensures
        same_ignoring_case(cut@, "chunked"@) ==> chunked,
        pieces@.len() == 1 ==> (chunked <==> same_ignoring_case(cut@, "chunked"@)),
{
    reveal_strlit(",");
    assert(","@ =~= seq![',']);
    let parts = split(value@, seq![',']);
    assert(views(pieces@)[k] == pieces@[k]@);
    assert(parts[k] == piece@);
}

/// What the header lines say of the body, kept apart and in a map.
proof fn lemma_same_heads(
    head: TunnelRequestHead,
    acc: Map<Seq<char>, Seq<char>>,
    lines: Seq<Seq<char>>,
)
    requires
        tunnel_headers(head, lines) is Ok,
        head.chunked <==> acc.contains_key(lower("transfer-encoding"@)) && names_chunked(
            acc[lower("transfer-encoding"@)],
        ),
        head.content_length is None <==> !acc.contains_key(lower("content-length"@)),
        head.content_length matches Some(n) ==> unsigned_value(
            acc[lower("content-length"@)],
            usize::MAX as int,
        ) == Some(n as int),
        lower("transfer-encoding"@) != lower("content-length"@),
    ensures
        headers_into(acc, lines) is Some,
        ({
            let h = tunnel_headers(head, lines)->Ok_0;
            let m = headers_into(acc, lines)->0;
            &&& h.chunked <==> m.contains_key(lower("transfer-encoding"@)) && names_chunked(
                m[lower("transfer-encoding"@)],
            )
            &&& h.content_length is None <==> !m.contains_key(lower("content-length"@))
            &&& h.content_length matches Some(n) ==> unsigned_value(
                m[lower("content-length"@)],
                usize::MAX as int,
            ) == Some(n as int)
        }),
    decreases lines.len(),
{
    if lines.len() > 0 && lines[0].len() > 0 {
        if let Some((name, value)) = header_line(lines[0]) {
            let next = acc.insert(lower(name), value);
            let rest = lines.skip(1);
            if same_ignoring_case(name, "content-length"@) {
                let n = unsigned_value(value, usize::MAX as int)->0;
                crate::num::lemma_unsigned_not_negative(value, usize::MAX as int);
                lemma_same_heads(
                    (TunnelRequestHead { content_length: Some(n as usize), ..head }),
                    next,
                    rest,
                );
            } else if same_ignoring_case(name, "transfer-encoding"@) {
                lemma_same_heads(
                    (TunnelRequestHead { chunked: names_chunked(value), ..head }),
                    next,
                    rest,
                );
            } else {
                lemma_same_heads(head, next, rest);
            }
        }
    }
}

/// A request for a tunnel is one that posts to its path; what its head says of the body
/// is what the headers say.
#[verifier::spinoff_prover]
#[verifier::rlimit(50)]
pub proof fn tunnel_requests_are_requests(
    bytes: &[u8],
    path: &str,
    request: Result<HttpRequest, HttpError>,
    length: Result<Option<usize>, HttpError>,
    chunked: bool,
    r: Result<Option<TunnelRequestHead>, HttpError>,
)
    requires
        call_ensures(parse_request, (bytes,), request),
        request matches Ok(q) ==> call_ensures(content_length, (&q.headers,), length)
            && call_ensures(is_chunked, (&q.headers,), chunked),
        call_ensures(parse_tunnel_request_head, (bytes, path), r),
    ensures
        r matches Ok(Some(h)) ==> (request matches Ok(q) && q.method@ == "POST"@ && q.path@ == path@
            && begins_with(q.version@, "HTTP/1."@)) && length == Ok::<Option<usize>, HttpError>(
            h.content_length,
        ) && chunked == h.chunked,
        request matches Ok(q) ==> (!(q.method@ == "POST"@ && q.path@ == path@ && begins_with(
            q.version@,
            "HTTP/1."@,
        )) ==> r == Ok::<Option<TunnelRequestHead>, HttpError>(None)),
{
    reveal_strlit("content-length");
    reveal_strlit("transfer-encoding");
    assert("content-length"@.len() == 14 && "transfer-encoding"@.len() == 17);
    assert(lower("content-length"@).len() == 14);
    assert(lower("transfer-encoding"@).len() == 17);
    if let Ok(Some(h)) = r {
        let lines = head_lines(utf8(bytes@)->0).skip(1);
        lemma_same_heads(silent_head(), Map::empty(), lines);
    }
}

/// The header lines of an answer that ends the connection.
#[verifier::spinoff_prover]
#[verifier::rlimit(50)]
proof fn lemma_error_headers(length: Seq<char>, rest: Seq<Seq<char>>, lines: Seq<Seq<char>>)
    requires
        is_word(length),
        lines == seq![
            "Content-Type"@ + seq![':'] + (seq![' '] + "text/plain; charset=utf-8"@),
            "Content-Length"@ + seq![':'] + (seq![' '] + length),
            "Connection"@ + seq![':'] + (seq![' '] + "close"@),
            Seq::<char>::empty(),
        ] + rest,
    ensures
        headers_of(lines) matches Some(m) && m.contains_key(lower("content-length"@)) && m[lower(
            "content-length"@,
        )] == length,
{
    reveal_strlit("Content-Type");
    reveal_strlit("Content-Length");
    reveal_strlit("Connection");
    reveal_strlit("content-length");
    lemma_plain_name("Content-Type"@);
    lemma_plain_name("Content-Length"@);
    lemma_plain_name("Connection"@);
    lemma_header_line("Content-Type"@, "text/plain; charset=utf-8"@);
    lemma_header_line("Content-Length"@, length);
    lemma_header_line("Connection"@, "close"@);
    lemma_trimmed_same(length);
    let l1 = lines.skip(1);
    let l2 = l1.skip(1);
    let l3 = l2.skip(1);
    assert(l1[0] == lines[1] && l2[0] == lines[2] && l3[0] == lines[3]);
    let m0 = Map::<Seq<char>, Seq<char>>::empty();
    let m1 = m0.insert(lower("Content-Type"@), trimmed("text/plain; charset=utf-8"@));
    let m2 = m1.insert(lower("Content-Length"@), length);
    let m3 = m2.insert(lower("Connection"@), trimmed("close"@));
    assert(headers_into(m3, l3) == Some(m3));
    assert(headers_into(m2, l2) == headers_into(m3, l3));
    assert(headers_into(m1, l1) == headers_into(m2, l2));
    assert(headers_into(m0, lines) == headers_into(m1, l1));
    assert(lower("Content-Length"@) =~= lower("content-length"@));
    assert(lower("Content-Length"@).len() == 14);
    assert(lower("Connection"@).len() == 10);
}

proof fn lemma_plain_name(name: Seq<char>)
    requires
        name == "Content-Type"@ || name == "Content-Length"@ || name == "Connection"@,
    ensures
        name.len() > 0,
        !is_whitespace(name[0]),
        !is_whitespace(name.last()),
        forall|i: int| 0 <= i < name.len() ==> #[trigger] name[i] != ':' && name[i] != '\r',
{
    reveal_strlit("Content-Type");
    reveal_strlit("Content-Length");
    reveal_strlit("Connection");
    assert forall|i: int| 0 <= i < name.len() implies #[trigger] name[i] != ':' && name[i] != '\r' by {
        assert(name.len() <= 14);
        assert(i == 0 || i == 1 || i == 2 || i == 3 || i == 4 || i == 5 || i == 6 || i == 7 || i == 8
            || i == 9 || i == 10 || i == 11 || i == 12 || i == 13);
    }
}

/// An answer that ends the connection is cut into its lines.
#[verifier::spinoff_prover]
#[verifier::rlimit(50)]
proof fn lemma_error_lines(status: nat, reason: Seq<char>, body: Seq<char>)
    requires
        !contains(status_line_text(status, reason), crlf()),
    ensures
        head_lines(error_response_text(status, reason, body)).skip(1) == seq![
            "Content-Type"@ + seq![':'] + (seq![' '] + "text/plain; charset=utf-8"@),
            "Content-Length"@ + seq![':'] + (seq![' '] + decimal(bytes_of(body).len())),
            "Connection"@ + seq![':'] + (seq![' '] + "close"@),
            Seq::<char>::empty(),
        ] + split(body, crlf()),
{
    let n = decimal(bytes_of(body).len());
    let s = status_line_text(status, reason);
    let ct = "Content-Type"@ + seq![':'] + (seq![' '] + "text/plain; charset=utf-8"@);
    let cl = "Content-Length"@ + seq![':'] + (seq![' '] + n);
    let co = "Connection"@ + seq![':'] + (seq![' '] + "close"@);
    let none = Seq::<char>::empty();
    reveal_strlit("Content-Type");
    reveal_strlit("Content-Length");
    reveal_strlit("Connection");
    reveal_strlit("close");
    reveal_strlit("text/plain; charset=utf-8");
    reveal_strlit("\r\nContent-Type: text/plain; charset=utf-8\r\nContent-Length: ");
    reveal_strlit("\r\nConnection: close\r\n\r\n");
    let a = "\r\nContent-Type: text/plain; charset=utf-8\r\nContent-Length: "@;
    let z = "\r\nConnection: close\r\n\r\n"@;
    let cut = "Content-Length"@ + seq![':'] + seq![' '];
    assert(a =~= crlf() + ct + crlf() + cut);
    assert(z =~= crlf() + co + crlf() + crlf());
    assert(cut + n =~= cl);
    let r4 = none + crlf() + body;
    let r3 = co + crlf() + r4;
    let r2 = cl + crlf() + r3;
    let r1 = ct + crlf() + r2;
    let text = error_response_text(status, reason, body);
    assert(text == s + a + n + z + body);
    assert(s + a + n + z + body =~= s + crlf() + r1);
    lemma_plain_name("Content-Type"@);
    lemma_plain_name("Content-Length"@);
    lemma_plain_name("Connection"@);
    lemma_decimal_is_word(bytes_of(body).len());
    assert(is_whitespace('\r'));
    assert forall|i: int| 0 <= i < ct.len() implies #[trigger] ct[i] != '\r' by {
        if i < 12 {
            assert(ct[i] == "Content-Type"@[i]);
        } else if i >= 14 {
            let t = "text/plain; charset=utf-8"@;
            assert(ct[i] == t[i - 14]);
            assert(t.len() == 25);
            lemma_plain_type(i - 14);
        }
    }
    assert forall|i: int| 0 <= i < cl.len() implies #[trigger] cl[i] != '\r' by {
        if i < 14 {
            assert(cl[i] == "Content-Length"@[i]);
        } else if i >= 16 {
            assert(cl[i] == n[i - 16]);
        }
    }
    assert forall|i: int| 0 <= i < co.len() implies #[trigger] co[i] != '\r' by {
        if i < 10 {
            assert(co[i] == "Connection"@[i]);
        } else if i >= 12 {
            assert(co[i] == "close"@[i - 12]);
            assert(i == 12 || i == 13 || i == 14 || i == 15 || i == 16);
        }
    }
    lemma_no_cr(ct);
    lemma_no_cr(cl);
    lemma_no_cr(co);
    lemma_no_cr(none);
    lemma_line(s, r1);
    lemma_line(ct, r2);
    lemma_line(cl, r3);
    lemma_line(co, r4);
    lemma_line(none, body);
    let tail = split(body, crlf());
    assert((seq![s] + (seq![ct] + (seq![cl] + (seq![co] + (seq![none] + tail))))).skip(1) =~= seq![
        ct,
        cl,
        co,
        none,
    ] + tail);
}

proof fn lemma_plain_type(i: int)
    requires
        0 <= i < 25,
    ensures
        "text/plain; charset=utf-8"@[i] != '\r',
{
    reveal_strlit("text/plain; charset=utf-8");
    assert(i == 0 || i == 1 || i == 2 || i == 3 || i == 4 || i == 5 || i == 6 || i == 7 || i == 8 || i
        == 9 || i == 10 || i == 11 || i == 12 || i == 13 || i == 14 || i == 15 || i == 16 || i == 17
        || i == 18 || i == 19 || i == 20 || i == 21 || i == 22 || i == 23 || i == 24);
}

/// An answer that ends the connection announces the length of its body, and carries it
/// at its end.
#[verifier::spinoff_prover]
#[verifier::rlimit(50)]
pub proof fn answers_announce_their_body(
    status: u16,
    reason: &str,
    body: &str,
    r: Vec<u8>,
    head: &[u8],
    length: Option<usize>,
)
    requires
        forall|i: int| 0 <= i < reason@.len() ==> #[trigger] reason@[i] != '\r',
        call_ensures(build_error_response, (status, reason, body), r),
        head@ == r@,
        bytes_of(body@).len() <= usize::MAX,
        call_ensures(response_length, (head,), length),
    ensures
        length matches Some(n) && n == bytes_of(body@).len(),
{
    let text = error_response_text(status as nat, reason@, body@);
    let n = decimal(bytes_of(body@).len());
    lemma_utf8_reads_back(text);
    lemma_decimal_is_word(bytes_of(body@).len());
    lemma_decimal_is_word(status as nat);
    decimal_reads_back(bytes_of(body@).len(), usize::MAX as int);
    let s = status_line_text(status as nat, reason@);
    reveal_strlit("HTTP/1.1 ");
    reveal_strlit(" ");
    let v = "HTTP/1.1 "@;
    let d = decimal(status as nat);
    assert(is_whitespace('\r'));
    assert forall|i: int| 0 <= i < s.len() implies #[trigger] s[i] != '\r' by {
        let k = d.len() as int;
        if i < 9 {
            assert(s[i] == v[i]);
            assert(i == 0 || i == 1 || i == 2 || i == 3 || i == 4 || i == 5 || i == 6 || i == 7 || i
                == 8);
        } else if i < 9 + k {
            assert(s[i] == d[i - 9]);
        } else if i == 9 + k {
            assert(s[i] == " "@[0]);
        } else {
            assert(s[i] == reason@[i - 10 - k]);
        }
    }
    lemma_no_cr(s);
    lemma_error_lines(status as nat, reason@, body@);
    lemma_error_headers(n, split(body@, crlf()), head_lines(text).skip(1));
}

} // verus!
