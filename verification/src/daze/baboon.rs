//! The baboon protocol: a handshake that looks like a request to a web server.

use vstd::prelude::*;
use crate::auth::{bytes_view, drawn};
use crate::bytes::{extend, same_bytes, slice_of};
use crate::crypto::{
    generator_random, hex_decode, hex_encode, hex_of, hex_reads_back, is_hex, md5_digest, md5_of,
    sha256_of, unhexed,
};
use crate::daze::wire::salt;
use crate::failure::Failure;
use crate::http::{
    build_error_response, crlf, error_response_text, explain_request, explain_response, head_lines,
    header, headers_into, headers_of, lemma_header_line, lemma_line, lemma_no_cr,
    lemma_no_crlf_join, parse_request, parse_tunnel_response, request_error, request_fault,
    start_words, HttpRequest,
};
use crate::mux::session::response_parts;
use crate::num::{decimal, to_decimal};
use crate::proxy::auth::{auth_failure_body, auth_failure_hint};
use crate::text::{
    bytes_of, cat, cat3, contains, is_whitespace, is_word, lemma_find_from, lemma_first_word,
    lemma_trimmed_same, lemma_utf8_reads_back, lemma_word_then, lower, opt_view, same, split,
    to_bytes, trimmed, utf8, words_of,
};

verus! {

/// The path of the handshake.
pub open spec fn sync_path() -> Seq<char> {
    "/sync"@
}

/// What proves that a client knows the password, for 16 random bytes.
pub open spec fn proof_bytes(random: Seq<u8>, password: Seq<char>) -> Seq<u8> {
    random + md5_of(random + sha256_of(bytes_of(password)).take(16))
}

/// Whether the text of an authorization proves that a client knows the password.
pub open spec fn authorizes(text: Seq<char>, password: Seq<char>) -> bool {
    let b = bytes_of(text);
    &&& is_hex(b)
    &&& unhexed(b).len() == 32
    &&& unhexed(b) == proof_bytes(unhexed(b).take(16), password)
}

/// The text of the request that a client sends.
pub open spec fn request_text(random: Seq<u8>, password: Seq<char>, server: Seq<char>) -> Seq<char> {
    "POST /sync HTTP/1.1\r\nHost: "@ + server + "\r\nAuthorization: "@ + hex_of(
        proof_bytes(random, password),
    ) + "\r\nContent-Length: 0\r\nConnection: keep-alive\r\n\r\n"@
}

fn proof_digest(random: &[u8], password: &str) -> (r: Vec<u8>)
    ensures
        r@ == md5_of(random@ + sha256_of(bytes_of(password@)).take(16)),
        r@.len() == 16,
{
    let key = salt(password);
    let mut input: Vec<u8> = Vec::new();
    extend(&mut input, random);
    extend(&mut input, slice_of(key.as_slice(), 0, 16).as_slice());
    assert(input@ =~= random@ + sha256_of(bytes_of(password@)).take(16));
    md5_digest(input.as_slice())
}

/// The request that a client sends with the given random bytes. The server
/// takes its authorization for a proof that the client knows the password, and
/// accepts the client.
pub fn baboon_request(random: &[u8], password: &str, server: &str) -> (r: String)
    ensures
        r@ == request_text(random@, password@, server@),
        random@.len() == 16 ==> authorizes(
            hex_of(proof_bytes(random@, password@)),
            password@,
        ),
        random@.len() == 16 && !contains(server@, crlf()) ==> accepts_sync(
            bytes_of(r@),
            password@,
        ),
{
    let mut auth: Vec<u8> = Vec::new();
    extend(&mut auth, random);
    extend(&mut auth, proof_digest(random, password).as_slice());
    assert(auth@ =~= proof_bytes(random@, password@));
    proof {
        hex_reads_back(auth@);
        if random@.len() == 16 {
            assert(auth@.take(16) =~= random@);
            if !contains(server@, crlf()) {
                lemma_request_accepted(random@, password@, server@);
            }
        }
    }
    cat3(
        cat3("POST /sync HTTP/1.1\r\nHost: ", server, "\r\nAuthorization: ").as_str(),
        hex_encode(auth.as_slice()).as_str(),
        "\r\nContent-Length: 0\r\nConnection: keep-alive\r\n\r\n",
    )
}

/// The text of the request that a client sends, for what the source of random
/// bytes gave: without them there is none.
pub open spec fn request_with(
    random: Result<Seq<u8>, Seq<char>>,
    password: Seq<char>,
    server: Seq<char>,
) -> Option<Seq<char>> {
    match random {
        Ok(b) => Some(request_text(b, password, server)),
        Err(_) => None,
    }
}

/// The request that a client sends, for what the source of random bytes gave.
pub fn baboon_request_with(random: Result<Vec<u8>, String>, password: &str, server: &str) -> (r:
    Option<String>)
    ensures
        opt_view(r) == request_with(bytes_view(random), password@, server@),
        random matches Ok(b) ==> (b@.len() == 16 && !contains(server@, crlf()) ==> accepts_sync(
            bytes_of(r->0@),
            password@,
        )),
{
    match random {
        Ok(b) => Some(baboon_request(b.as_slice(), password, server)),
        Err(_) => None,
    }
}

/// The request that a client sends, with 16 fresh random bytes. There is none only
/// where no random bytes can be had. The server accepts the client that sends it.
pub fn build_baboon_request(password: &str, server: &str) -> (r: Option<String>)
    ensures
        exists|random: Result<Seq<u8>, Seq<char>>|
            drawn(random, 16) && opt_view(r) == #[trigger] request_with(
                random,
                password@,
                server@,
            ),
        r matches Some(s) ==> (!contains(server@, crlf()) ==> accepts_sync(
            bytes_of(s@),
            password@,
        )),
{
    let random = generator_random(16);
    let ghost b = bytes_view(random);
    let r = baboon_request_with(random, password, server);
    assert(drawn(b, 16) && opt_view(r) == request_with(b, password@, server@));
    r
}

/// The value of the authorization header, if there is one.
pub open spec fn authorization(headers: Map<Seq<char>, Seq<char>>) -> Option<Seq<char>> {
    if headers.contains_key(lower("authorization"@)) {
        Some(headers[lower("authorization"@)])
    } else {
        None
    }
}

/// Whether a request proves that the client knows the password.
pub fn validate_baboon_request(request: &HttpRequest, password: &str) -> (r: bool)
    ensures
        r == match authorization(request.headers@) {
            Some(text) => authorizes(text, password@),
            None => false,
        },
{
    match header(&request.headers, "authorization") {
        None => false,
        Some(text) => match hex_decode(to_bytes(text).as_slice()) {
            None => false,
            Some(auth) => {
                if auth.len() != 32 {
                    return false;
                }
                let random = slice_of(auth.as_slice(), 0, 16);
                let digest = proof_digest(random.as_slice(), password);
                let rest = slice_of(auth.as_slice(), 16, 32);
                proof {
                    assert(random@ =~= auth@.take(16));
                    assert(auth@ =~= random@ + rest@);
                    if rest@ == digest@ {
                        assert(auth@ =~= proof_bytes(auth@.take(16), password@));
                    }
                    if auth@ == proof_bytes(auth@.take(16), password@) {
                        assert(rest@ =~= proof_bytes(random@, password@).skip(16));
                        assert(proof_bytes(random@, password@).skip(16) =~= digest@);
                    }
                }
                same_bytes(rest.as_slice(), digest.as_slice())
            },
        },
    }
}

/// What a server does about the head of a request.
#[derive(Debug)]
pub enum SyncPlan {
    /// Send the bytes, then go on with the handshake.
    Accept(Vec<u8>),
    /// Send the bytes, then fail.
    Fail(Vec<u8>, Failure),
    /// Pass the request on to another server.
    ServePublic(HttpRequest),
}

/// The answer that accepts a client.
pub open spec fn sync_answer() -> Seq<char> {
    "HTTP/1.1 200 OK\r\nContent-Length: 0\r\nContent-Type: text/plain; charset=utf-8\r\nConnection: keep-alive\r\n\r\n"@
}

/// Whether a head asks for the handshake.
pub open spec fn asks_for_sync(head: Seq<u8>) -> bool {
    let w = start_words(utf8(head)->0);
    w[0] == "POST"@ && w[1] == sync_path()
}

/// Whether the head of a request gets a client accepted.
pub open spec fn accepts_sync(head: Seq<u8>, password: Seq<char>) -> bool {
    let headers = headers_of(head_lines(utf8(head)->0).skip(1))->0;
    &&& request_error(head) is None
    &&& asks_for_sync(head)
    &&& authorization(headers) is Some
    &&& authorizes(authorization(headers)->0, password)
}

/// What a server does about the head of a request: the handshake needs a
/// proof, and any other request is passed on.
pub fn handle_server_request(head: &[u8], password: &str) -> (r: SyncPlan)
    ensures
        match request_error(head@) {
            Some(e) => {
                &&& r matches SyncPlan::Fail(b, f)
                &&& b@ == bytes_of(error_response_text(404, "Not Found"@, "not found\n"@))
                &&& f@ == seq!["invalid baboon request"@] + request_fault(head@, e)
            },
            None => {
                let headers = headers_of(head_lines(utf8(head@)->0).skip(1))->0;
                if !asks_for_sync(head@) {
                    let words = start_words(utf8(head@)->0);
                    &&& r matches SyncPlan::ServePublic(q)
                    &&& q.method@ == words[0]
                    &&& q.path@ == words[1]
                    &&& q.version@ == words[2]
                    &&& q.headers@ == headers
                } else if accepts_sync(head@, password@) {
                    r matches SyncPlan::Accept(b) && b@ == bytes_of(sync_answer())
                } else {
                    &&& r matches SyncPlan::Fail(b, f)
                    &&& b@ == bytes_of(
                        error_response_text(
                            401,
                            "Unauthorized"@,
                            crate::proxy::auth::failure_body(),
                        ),
                    )
                    &&& f@ == seq![
                        "daze-baboon authentication failed; "@ + crate::proxy::auth::failure_hint(),
                    ]
                }
            },
        },
{
    match parse_request(head) {
        Err(e) => {
            let f = explain_request(head, e).context("invalid baboon request");
            SyncPlan::Fail(build_error_response(404, "Not Found", "not found\n"), f)
        },
        Ok(request) => {
            if !(same(request.method.as_str(), "POST") && same(request.path.as_str(), "/sync")) {
                return SyncPlan::ServePublic(request);
            }
            if !validate_baboon_request(&request, password) {
                return SyncPlan::Fail(
                    build_error_response(401, "Unauthorized", auth_failure_body()),
                    Failure::new(
                        cat("daze-baboon authentication failed; ", auth_failure_hint()).as_str(),
                    ),
                );
            }
            SyncPlan::Accept(
                to_bytes(
                    "HTTP/1.1 200 OK\r\nContent-Length: 0\r\nContent-Type: text/plain; charset=utf-8\r\nConnection: keep-alive\r\n\r\n",
                ),
            )
        },
    }
}

/// Why the answer of a server, with what its body tells, does not accept the
/// client; the second is whether the application is told first.
pub open spec fn sync_refusal(head: Seq<u8>, detail: Option<Seq<char>>) -> Option<
    (Seq<Seq<char>>, bool),
> {
    match response_parts(head) {
        Err(e) => Some((seq!["invalid baboon response"@] + e, false)),
        Ok((http1, status, reason)) => if http1 && status == 200 {
            None
        } else {
            let text = "daze-baboon server refused sync with status "@ + decimal(status as nat)
                + " "@ + reason;
            Some(
                (
                    match detail {
                        Some(d) => seq![text + ": "@ + d],
                        None => seq![text],
                    },
                    true,
                ),
            )
        },
    }
}

/// Why the answer of a server does not accept the client, and whether the
/// application is told first.
pub fn check_sync_answer(head: &[u8], detail: &Option<String>) -> (r: Option<(Failure, bool)>)
    ensures
        match (r, sync_refusal(head@, opt_view(*detail))) {
            (None, None) => true,
            (Some((f, told)), Some((g, t))) => f@ == g && told == t,
            _ => false,
        },
{
    match parse_tunnel_response(head) {
        Err(e) => {
            Some((explain_response(head, e).context("invalid baboon response"), false))
        },
        Ok((http1, status, reason)) => {
            if http1 && status == 200 {
                return None;
            }
            let text = cat(
                cat3(
                    "daze-baboon server refused sync with status ",
                    to_decimal(status as u64).as_str(),
                    " ",
                ).as_str(),
                reason.as_str(),
            );
            match detail {
                Some(d) => Some(
                    (Failure::new(cat3(text.as_str(), ": ", d.as_str()).as_str()), true),
                ),
                None => Some((Failure::new(text.as_str()), true)),
            }
        },
    }
}

// ---------------------------------------------------------------------------
// Requests are accepted

/// The lines of a request behind the first.
pub open spec fn sync_header_lines(server: Seq<char>, proof_text: Seq<char>) -> Seq<Seq<char>> {
    let sp = seq![' '];
    let colon = seq![':'];
    seq![
        "Host"@ + colon + (sp + server),
        "Authorization"@ + colon + (sp + proof_text),
        "Content-Length"@ + colon + (sp + "0"@),
        "Connection"@ + colon + (sp + "keep-alive"@),
        seq![],
        seq![],
    ]
}

/// The text of a request, line by line.
proof fn lemma_sync_pieces(server: Seq<char>, proof_text: Seq<char>)
    ensures
        "POST /sync HTTP/1.1\r\nHost: "@ + server + "\r\nAuthorization: "@ + proof_text
            + "\r\nContent-Length: 0\r\nConnection: keep-alive\r\n\r\n"@
            == "POST /sync HTTP/1.1"@ + crlf() + (("Host"@ + seq![':'] + (seq![' '] + server))
            + crlf() + (("Authorization"@ + seq![':'] + (seq![' '] + proof_text)) + crlf() + ((
        "Content-Length"@ + seq![':'] + (seq![' '] + "0"@)) + crlf() + (("Connection"@ + seq![':']
            + (seq![' '] + "keep-alive"@)) + crlf() + (Seq::<char>::empty() + crlf()
            + Seq::<char>::empty()))))),
{
    reveal_strlit("POST /sync HTTP/1.1\r\nHost: ");
    reveal_strlit("\r\nAuthorization: ");
    reveal_strlit("\r\nContent-Length: 0\r\nConnection: keep-alive\r\n\r\n");
    reveal_strlit("POST /sync HTTP/1.1");
    reveal_strlit("Host");
    reveal_strlit("Authorization");
    reveal_strlit("Content-Length");
    reveal_strlit("0");
    reveal_strlit("Connection");
    reveal_strlit("keep-alive");
    let sp = seq![' '];
    let colon = seq![':'];
    let none = Seq::<char>::empty();
    assert("POST /sync HTTP/1.1\r\nHost: "@ =~= "POST /sync HTTP/1.1"@ + crlf() + ("Host"@ + colon
        + sp));
    assert("\r\nAuthorization: "@ =~= crlf() + ("Authorization"@ + colon + sp));
    assert("\r\nContent-Length: 0\r\nConnection: keep-alive\r\n\r\n"@ =~= crlf() + ((
    "Content-Length"@ + colon + (sp + "0"@)) + crlf() + (("Connection"@ + colon + (sp
        + "keep-alive"@)) + crlf() + (none + crlf() + none))));
    let tail = ("Content-Length"@ + colon + (sp + "0"@)) + crlf() + (("Connection"@ + colon + (sp
        + "keep-alive"@)) + crlf() + (none + crlf() + none));
    assert("POST /sync HTTP/1.1"@ + crlf() + ("Host"@ + colon + sp) + server + (crlf() + (
    "Authorization"@ + colon + sp)) + proof_text + (crlf() + tail) =~= "POST /sync HTTP/1.1"@
        + crlf() + (("Host"@ + colon + (sp + server)) + crlf() + (("Authorization"@ + colon + (sp
        + proof_text)) + crlf() + tail)));
}

/// The lines of a request.
proof fn lemma_sync_lines(server: Seq<char>, proof_text: Seq<char>, text: Seq<char>)
    requires
        !contains(server, crlf()),
        forall|i: int| 0 <= i < proof_text.len() ==> #[trigger] proof_text[i] != '\r',
        text == "POST /sync HTTP/1.1\r\nHost: "@ + server + "\r\nAuthorization: "@ + proof_text
            + "\r\nContent-Length: 0\r\nConnection: keep-alive\r\n\r\n"@,
    ensures
        head_lines(text) == seq!["POST /sync HTTP/1.1"@] + sync_header_lines(server, proof_text),
{
    reveal_strlit("POST /sync HTTP/1.1");
    reveal_strlit("Host");
    reveal_strlit("Authorization");
    reveal_strlit("Content-Length");
    reveal_strlit("0");
    reveal_strlit("Connection");
    reveal_strlit("keep-alive");
    let h = sync_header_lines(server, proof_text);
    let l0 = "POST /sync HTTP/1.1"@;
    let none = Seq::<char>::empty();
    let r4 = none + crlf() + none;
    let r3 = h[3] + crlf() + r4;
    let r2 = h[2] + crlf() + r3;
    let r1 = h[1] + crlf() + r2;
    let r0 = h[0] + crlf() + r1;
    lemma_sync_pieces(server, proof_text);
    assert(text == l0 + crlf() + r0);
    lemma_no_cr(l0);
    assert(!contains(h[0], crlf())) by {
        let p = "Host"@ + seq![':'] + seq![' '];
        lemma_no_crlf_join(p, server);
        assert(h[0] =~= p + server);
    }
    assert(!contains(h[1], crlf())) by {
        let p = "Authorization"@ + seq![':'] + seq![' '];
        lemma_no_cr(proof_text);
        lemma_no_crlf_join(p, proof_text);
        assert(h[1] =~= p + proof_text);
    }
    lemma_no_cr(h[2]);
    lemma_no_cr(h[3]);
    lemma_no_cr(none);
    lemma_line(l0, r0);
    lemma_line(h[0], r1);
    lemma_line(h[1], r2);
    lemma_line(h[2], r3);
    lemma_line(h[3], r4);
    lemma_line(none, none);
    lemma_find_from(none, crlf(), 0);
    assert(split(none, crlf()) =~= seq![none]);
    assert(split(text, crlf()) =~= seq![l0] + h);
}

/// A header line adds its header to those before it.
proof fn lemma_header_added(
    acc: Map<Seq<char>, Seq<char>>,
    name: Seq<char>,
    value: Seq<char>,
    lines: Seq<Seq<char>>,
)
    requires
        name.len() > 0,
        !is_whitespace(name[0]),
        !is_whitespace(name.last()),
        forall|i: int| 0 <= i < name.len() ==> #[trigger] name[i] != ':',
        lines.len() > 0,
        lines[0] == name + seq![':'] + (seq![' '] + value),
    ensures
        headers_into(acc, lines) == headers_into(
            acc.insert(lower(name), trimmed(value)),
            lines.skip(1),
        ),
{
    lemma_header_line(name, value);
}

/// The authorization that the header lines of a request give.
proof fn lemma_sync_headers(server: Seq<char>, proof_text: Seq<char>)
    requires
        is_word(proof_text),
    ensures
        headers_of(sync_header_lines(server, proof_text)) is Some,
        authorization(headers_of(sync_header_lines(server, proof_text))->0) == Some(proof_text),
{
    reveal_strlit("Host");
    reveal_strlit("Authorization");
    reveal_strlit("authorization");
    reveal_strlit("Content-Length");
    reveal_strlit("Connection");
    let t = sync_header_lines(server, proof_text);
    let m0 = Map::<Seq<char>, Seq<char>>::empty();
    let m1 = m0.insert(lower("Host"@), trimmed(server));
    let m2 = m1.insert(lower("Authorization"@), trimmed(proof_text));
    let m3 = m2.insert(lower("Content-Length"@), trimmed("0"@));
    let m4 = m3.insert(lower("Connection"@), trimmed("keep-alive"@));
    lemma_header_added(m0, "Host"@, server, t);
    lemma_header_added(m1, "Authorization"@, proof_text, t.skip(1));
    lemma_header_added(m2, "Content-Length"@, "0"@, t.skip(1).skip(1));
    lemma_header_added(m3, "Connection"@, "keep-alive"@, t.skip(1).skip(1).skip(1));
    assert(t.skip(1).skip(1).skip(1).skip(1)[0].len() == 0);
    assert(headers_of(t) == Some(m4));
    assert(lower("Authorization"@) =~= lower("authorization"@));
    assert(lower("Authorization"@).len() == 13);
    assert(lower("Content-Length"@).len() == 14);
    assert(lower("Connection"@).len() == 10);
    lemma_trimmed_same(proof_text);
}

/// A request whose proof authorizes the client gets the client accepted.
proof fn lemma_request_accepted(random: Seq<u8>, password: Seq<char>, server: Seq<char>)
    requires
        authorizes(hex_of(proof_bytes(random, password)), password),
        !contains(server, crlf()),
    ensures
        accepts_sync(bytes_of(request_text(random, password, server)), password),
{
    let auth = proof_bytes(random, password);
    let proof_text = hex_of(auth);
    let text = request_text(random, password, server);
    lemma_utf8_reads_back(text);
    assert forall|i: int| 0 <= i < proof_text.len() implies !is_whitespace(
        #[trigger] proof_text[i],
    ) && proof_text[i] != '\r' by {}
    lemma_sync_lines(server, proof_text, text);
    let lines = head_lines(text);
    assert(lines.skip(1) =~= sync_header_lines(server, proof_text));
    lemma_sync_headers(server, proof_text);
    let post = "POST"@;
    let sync = "/sync"@;
    let version = "HTTP/1.1"@;
    reveal_strlit("POST");
    reveal_strlit("/sync");
    reveal_strlit("HTTP/1.1");
    reveal_strlit("POST /sync HTTP/1.1");
    let none = Seq::<char>::empty();
    assert(words_of(lines[0]) =~= seq![post, sync, version]) by {
        assert(lines[0] =~= post + seq![' '] + (sync + seq![' '] + version));
        lemma_word_then(post, sync + seq![' '] + version);
        lemma_word_then(sync, version);
        assert(version + none =~= version);
        lemma_first_word(version, none);
        assert(words_of(none) =~= Seq::<Seq<char>>::empty());
    }
}

// ---------------------------------------------------------------------------
// Laws

/// The request of a client is accepted by a server with the same password, and the
/// client takes the answer of that server for success.
pub proof fn requests_open_the_handshake(
    random: &[u8],
    password: &str,
    server: &str,
    request: String,
    head: &[u8],
    plan: SyncPlan,
    answer: &[u8],
    detail: &Option<String>,
    refused: Option<(Failure, bool)>,
)
    requires
        random@.len() == 16,
        !contains(server@, crlf()),
        call_ensures(baboon_request, (random, password, server), request),
        head@ == bytes_of(request@),
        call_ensures(handle_server_request, (head, password), plan),
        plan matches SyncPlan::Accept(b) ==> answer@ == b@,
        call_ensures(check_sync_answer, (answer, detail), refused),
    ensures
        plan is Accept,
        refused is None,
{
    let line = crate::http::status_line_text(200, "OK"@);
    let rest =
        "Content-Length: 0\r\nContent-Type: text/plain; charset=utf-8\r\nConnection: keep-alive\r\n\r\n"@;
    reveal_strlit("OK");
    reveal_strlit("HTTP/1.1 ");
    reveal_strlit(" ");
    reveal_strlit(
        "Content-Length: 0\r\nContent-Type: text/plain; charset=utf-8\r\nConnection: keep-alive\r\n\r\n",
    );
    reveal_strlit(
        "HTTP/1.1 200 OK\r\nContent-Length: 0\r\nContent-Type: text/plain; charset=utf-8\r\nConnection: keep-alive\r\n\r\n",
    );
    reveal_with_fuel(decimal, 4);
    assert(decimal(200) =~= seq!['2', '0', '0']);
    assert(sync_answer() =~= line + crlf() + rest);
    crate::http::response_reads_back(200, "OK"@, rest);
}

/// Only a request that proves that the client knows the password opens the
/// handshake; one to another place is passed on as it came, and what is refused is
/// told to the application of the client.
pub proof fn only_proofs_open_the_handshake(
    head: &[u8],
    password: &str,
    request: Result<HttpRequest, crate::http::HttpError>,
    proven: bool,
    plan: SyncPlan,
    answer: &[u8],
    detail: &Option<String>,
    refused: Option<(Failure, bool)>,
)
    requires
        call_ensures(parse_request, (head,), request),
        request matches Ok(q) ==> call_ensures(validate_baboon_request, (&q, password), proven),
        call_ensures(handle_server_request, (head, password), plan),
        plan matches SyncPlan::Fail(b, _) ==> answer@ == b@,
        call_ensures(check_sync_answer, (answer, detail), refused),
    ensures
        plan is Accept <==> (request matches Ok(q) && q.method@ == "POST"@ && q.path@ == "/sync"@
            && proven),
        plan is ServePublic <==> (request matches Ok(q) && !(q.method@ == "POST"@ && q.path@
            == "/sync"@)),
        plan matches SyncPlan::ServePublic(p) ==> (request matches Ok(q) && p.method@ == q.method@
            && p.path@ == q.path@ && p.version@ == q.version@ && p.headers@ == q.headers@),
        plan is Fail ==> (refused matches Some((_, told)) && told),
{
    reveal_strlit("Not Found");
    reveal_strlit("Unauthorized");
    crate::server::lemma_answer_status(404, "Not Found"@, "not found\n"@);
    crate::server::lemma_answer_status(401, "Unauthorized"@, crate::proxy::auth::failure_body());
}

/// The application is told of a refusal just where the server answered in HTTP; a
/// client is accepted just where the answer is HTTP/1 with the status 200.
pub proof fn answers_accept_with_success_only(
    head: &[u8],
    detail: &Option<String>,
    read: Result<(bool, u16, String), crate::http::HttpError>,
    r: Option<(Failure, bool)>,
)
    requires
        call_ensures(parse_tunnel_response, (head,), read),
        call_ensures(check_sync_answer, (head, detail), r),
    ensures
        r is None <==> (read matches Ok((http1, status, _)) && http1 && status == 200),
        r matches Some((_, told)) ==> (told <==> read is Ok),
{
}

/// Without random bytes there is no request; with them it is the one that they make.
pub proof fn requests_need_random_bytes(
    random: Vec<u8>,
    bytes: &[u8],
    cause: String,
    password: &str,
    server: &str,
    own: String,
    r: Option<String>,
    none: Option<String>,
)
    requires
        bytes@ == random@,
        call_ensures(baboon_request, (bytes, password, server), own),
        call_ensures(
            baboon_request_with,
            (Ok::<Vec<u8>, String>(random), password, server),
            r,
        ),
        call_ensures(
            baboon_request_with,
            (Err::<Vec<u8>, String>(cause), password, server),
            none,
        ),
    ensures
        r matches Some(s) && s@ == own@,
        none is None,
{
}

} // verus!
