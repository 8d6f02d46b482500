//! Endpoints, and the names and roots that TLS needs.

use vstd::prelude::*;
use rustls::pki_types::pem::PemObject;
use rustls::pki_types::PrivateKeyDer;
use crate::failure::{outcome, Failure};
use crate::ip::{ip_value, parse_ip, IpAddr};
use crate::num::{decimal, explain_unsigned, parse_unsigned, unsigned_fault, unsigned_value};
use crate::text::{
    after_prefix, cat, lemma_cut, lemma_starts, opt_view, rsplit_once, split_first, split_last,
    split_once, strip_prefix,
};

verus! {

/// The host and port of an endpoint.
pub open spec fn endpoint_parts(endpoint: Seq<char>) -> Result<(Seq<char>, int), Seq<Seq<char>>> {
    match after_prefix(endpoint, "["@) {
        Some(rest) => match split_first(rest, "]"@) {
            None => Err(seq!["invalid bracketed IPv6 endpoint"@]),
            Some((host, tail)) => match after_prefix(tail, ":"@) {
                None => Err(seq!["missing port after bracketed IPv6 endpoint"@]),
                Some(port) => match unsigned_value(port, 65535) {
                    None => Err(seq!["invalid port number"@, unsigned_fault(port, 65535)]),
                    Some(p) => Ok((host, p)),
                },
            },
        },
        None => match split_last(endpoint, ':') {
            None => Err(seq!["endpoint must look like host:port"@]),
            Some((host, port)) => match unsigned_value(port, 65535) {
                None => Err(seq!["invalid port number"@, unsigned_fault(port, 65535)]),
                Some(p) => Ok((host, p)),
            },
        },
    }
}

/// The host and port of an endpoint.
pub fn split_host_port(endpoint: &str) -> (r: Result<(String, u16), Failure>)
    ensures
        match (r, endpoint_parts(endpoint@)) {
            (Ok((h, p)), Ok((host, port))) => h@ == host && p == port,
            (Err(e), Err(f)) => e@ == f,
            _ => false,
        },
{
    let (host, port) = match strip_prefix(endpoint, "[") {
        Some(rest) => {
            proof {
                reveal_strlit("]");
            }
            match split_once(rest.as_str(), "]") {
                None => {
                    return Err(Failure::new("invalid bracketed IPv6 endpoint"));
                },
                Some((host, tail)) => match strip_prefix(tail.as_str(), ":") {
                    None => {
                        return Err(Failure::new("missing port after bracketed IPv6 endpoint"));
                    },
                    Some(port) => (host, port),
                },
            }
        },
        None => match rsplit_once(endpoint, ':') {
            None => {
                return Err(Failure::new("endpoint must look like host:port"));
            },
            Some(pair) => pair,
        },
    };
    match parse_unsigned(port.as_str(), 65535) {
        Some(p) => Ok((host, p as u16)),
        None => {
            let fault = Failure::new(explain_unsigned(port.as_str(), 65535).as_str());
            let e = fault.context("invalid port number");
            assert(e@ =~= seq!["invalid port number"@, unsigned_fault(port@, 65535)]);
            Err(e)
        },
    }
}

/// Why a text cannot be the name of a TLS server, if so.
pub uninterp spec fn server_name_fault(name: Seq<char>) -> Option<Seq<char>>;

/// `rustls::pki_types::ServerName::try_from` accepts the well-formed names of
/// servers, and says why another is none.
#[verifier::external_body]
fn check_server_name(name: &str) -> (r: Option<String>)
    ensures
        opt_view(r) == server_name_fault(name@),
{
    rustls::pki_types::ServerName::try_from(name).err().map(|e| e.to_string())
}

/// The name of a TLS server.
#[derive(Debug)]
pub enum TlsName {
    Address(IpAddr),
    Name(String),
}

/// The name of a TLS server: an address or a host name.
pub fn server_name(host: &str) -> (r: Result<TlsName, Failure>)
    ensures
        match ip_value(host@) {
            Some(ip) => r == Ok::<TlsName, Failure>(TlsName::Address(ip)),
            None => match server_name_fault(host@) {
                None => r matches Ok(TlsName::Name(n)) && n@ == host@,
                Some(cause) => r matches Err(e) && e@ == seq!["invalid TLS server name"@, cause],
            },
        },
{
    match parse_ip(host) {
        Some(ip) => Ok(TlsName::Address(ip)),
        None => {
            match check_server_name(host) {
                None => Ok(TlsName::Name(host.to_owned())),
                Some(cause) => {
                    let e = Failure::new(cause.as_str()).context("invalid TLS server name");
                    assert(e@ =~= seq!["invalid TLS server name"@, cause@]);
                    Err(e)
                },
            }
        },
    }
}

/// Fails where a client would trust no certificate at all: there are no native
/// ones, and none is given.
pub fn check_native_roots(added: usize, ca_given: bool) -> (r: Result<(), Failure>)
    ensures
        match outcome(r) {
            Ok(_) => added > 0 || ca_given,
            Err(e) => added == 0 && !ca_given && e
                == seq!["failed to load native root certificates and no --ca-cert was provided"@],
        },
{
    if added == 0 && !ca_given {
        return Err(
            Failure::new("failed to load native root certificates and no --ca-cert was provided"),
        );
    }
    Ok(())
}

/// Fails where the file of a client holds no certificate that can be used.
pub fn check_given_roots(added: usize, path: &str) -> (r: Result<(), Failure>)
    ensures
        match outcome(r) {
            Ok(_) => added > 0,
            Err(e) => added == 0 && e == seq!["no usable certificates found in "@ + path@],
        },
{
    if added == 0 {
        return Err(Failure::new(cat("no usable certificates found in ", path).as_str()));
    }
    Ok(())
}

// ---------------------------------------------------------------------------
// PEM files

/// The certificates that a PEM file holds, or why it cannot be read.
pub uninterp spec fn pem_certs(pem: Seq<u8>) -> Result<Seq<Seq<u8>>, Seq<char>>;

/// The first private key that a PEM file holds, if it holds any, or why it cannot
/// be read.
pub uninterp spec fn pem_key(pem: Seq<u8>) -> Result<Option<(KeyKind, Seq<u8>)>, Seq<char>>;

/// How the bytes of a private key are laid out.
#[derive(Clone, Copy, Debug, PartialEq, Eq, Structural)]
pub enum KeyKind {
    Pkcs1,
    Sec1,
    Pkcs8,
    Other,
}

/// The bytes in a list.
pub open spec fn byte_lists(v: Seq<Vec<u8>>) -> Seq<Seq<u8>> {
    v.map_values(|b: Vec<u8>| b@)
}

/// `pem_slice_iter` of `rustls::pki_types::CertificateDer` gives the certificates
/// of a PEM file one by one. The first that cannot be read ends it with the text of
/// the error.
#[verifier::external_body]
fn read_certs(pem: &[u8]) -> (r: Result<Vec<Vec<u8>>, String>)
    ensures
        match r {
            Ok(c) => pem_certs(pem@) == Ok::<Seq<Seq<u8>>, Seq<char>>(byte_lists(c@)),
            Err(e) => pem_certs(pem@) == Err::<Seq<Seq<u8>>, Seq<char>>(e@),
        },
{
    rustls::pki_types::CertificateDer::pem_slice_iter(pem)
        .map(|item| item.map(|der| der.as_ref().to_vec()).map_err(|e| e.to_string()))
        .collect()
}

/// `from_pem_slice` of `rustls::pki_types::PrivateKeyDer` gives the first private
/// key of a PEM file. That there is none is one of its errors; another comes with
/// its text.
#[verifier::external_body]
fn read_key(pem: &[u8]) -> (r: Result<Option<(KeyKind, Vec<u8>)>, String>)
    ensures
        match r {
            Ok(Some((kind, b))) => pem_key(pem@) == Ok::<Option<(KeyKind, Seq<u8>)>, Seq<char>>(
                Some((kind, b@)),
            ),
            Ok(None) => pem_key(pem@) == Ok::<Option<(KeyKind, Seq<u8>)>, Seq<char>>(None),
            Err(e) => pem_key(pem@) == Err::<Option<(KeyKind, Seq<u8>)>, Seq<char>>(e@),
        },
{
    match rustls::pki_types::PrivateKeyDer::from_pem_slice(pem) {
        Ok(PrivateKeyDer::Pkcs1(key)) => Ok(Some((KeyKind::Pkcs1, key.secret_pkcs1_der().to_vec()))),
        Ok(PrivateKeyDer::Sec1(key)) => Ok(Some((KeyKind::Sec1, key.secret_sec1_der().to_vec()))),
        Ok(PrivateKeyDer::Pkcs8(key)) => Ok(Some((KeyKind::Pkcs8, key.secret_pkcs8_der().to_vec()))),
        Ok(key) => Ok(Some((KeyKind::Other, key.secret_der().to_vec()))),
        Err(rustls::pki_types::pem::Error::NoItemsFound) => Ok(None),
        Err(e) => Err(e.to_string()),
    }
}

/// The certificates that a PEM file holds.
pub fn parse_certs(pem: &[u8], path: &str) -> (r: Result<Vec<Vec<u8>>, Failure>)
    ensures
        match (r, pem_certs(pem@)) {
            (Ok(c), Ok(s)) => byte_lists(c@) == s,
            (Err(e), Err(cause)) => e@ == seq![
                "failed to parse certificates from "@ + path@,
                cause,
            ],
            _ => false,
        },
{
    match read_certs(pem) {
        Ok(certs) => Ok(certs),
        Err(cause) => {
            let e = Failure::new(cause.as_str()).context(
                cat("failed to parse certificates from ", path).as_str(),
            );
            assert(e@ =~= seq!["failed to parse certificates from "@ + path@, cause@]);
            Err(e)
        },
    }
}

/// The private key that a PEM file holds.
pub fn parse_private_key(pem: &[u8], path: &str) -> (r: Result<(KeyKind, Vec<u8>), Failure>)
    ensures
        match (r, pem_key(pem@)) {
            (Ok((kind, b)), Ok(Some((k, s)))) => kind == k && b@ == s,
            (Err(e), Ok(None)) => e@ == seq!["no private key found in PEM file"@],
            (Err(e), Err(cause)) => e@ == seq![
                "failed to parse private key from "@ + path@,
                cause,
            ],
            _ => false,
        },
{
    match read_key(pem) {
        Ok(Some(key)) => Ok(key),
        Ok(None) => Err(Failure::new("no private key found in PEM file")),
        Err(cause) => {
            let e = Failure::new(cause.as_str()).context(
                cat("failed to parse private key from ", path).as_str(),
            );
            assert(e@ =~= seq!["failed to parse private key from "@ + path@, cause@]);
            Err(e)
        },
    }
}

// ---------------------------------------------------------------------------
// Laws

/// An endpoint is read as its host and its port, a host in brackets without them;
/// without a colon it is none.
pub proof fn endpoints_are_read(
    host: Seq<char>,
    port: u16,
    plain: &str,
    bracketed: &str,
    r: Result<(String, u16), Failure>,
    s: Result<(String, u16), Failure>,
)
    requires
        host.len() == 0 || host[0] != '[',
        plain@ == host + seq![':'] + decimal(port as nat) || (plain@ == host && !host.contains(':')),
        bracketed@ == seq!['['] + (host + seq![']'] + (seq![':'] + decimal(port as nat))),
        call_ensures(split_host_port, (plain,), r),
        call_ensures(split_host_port, (bracketed,), s),
    ensures
        plain@ == host && !host.contains(':') ==> r is Err,
        plain@ == host + seq![':'] + decimal(port as nat) ==> (r matches Ok((h, p)) && h@ == host && p
            == port),
        !host.contains(']') ==> (s matches Ok((h, p)) && h@ == host && p == port),
{
    reveal_strlit("[");
    reveal_strlit("]");
    reveal_strlit(":");
    assert("["@ =~= seq!['[']);
    assert("]"@ =~= seq![']']);
    assert(":"@ =~= seq![':']);
    let digits = decimal(port as nat);
    crate::num::decimal_reads_back(port as nat, 65535);
    crate::num::decimal_is_digits(port as nat);
    lemma_starts(plain@, '[');
    lemma_starts(bracketed@, '[');
    lemma_cut(host, ':', digits);
    let tail = seq![':'] + digits;
    let inner = host + seq![']'] + tail;
    assert(bracketed@.skip(1) =~= inner);
    if !host.contains(']') {
        assert forall|i: int| 0 <= i < host.len() implies #[trigger] host[i] != ']' by {
            assert(host.contains(host[i]));
        }
    }
    lemma_cut(host, ']', tail);
    lemma_starts(tail, ':');
    assert(tail.skip(1) =~= digits);
    assert(inner.len() > 0);
    if plain@ == host + seq![':'] + digits {
        if host.len() > 0 {
            assert(plain@[0] == host[0]);
        } else {
            assert(plain@[0] == ':');
        }
    }
}

/// An address is its own server name, and any other text just where it can be a
/// name; it is kept as it is.
pub proof fn servers_are_named_as_given(
    host: &str,
    ip: Option<IpAddr>,
    r: Result<TlsName, Failure>,
)
    requires
        call_ensures(parse_ip, (host,), ip),
        call_ensures(server_name, (host,), r),
    ensures
        ip matches Some(a) ==> r == Ok::<TlsName, Failure>(TlsName::Address(a)),
        ip is None ==> (r is Ok <==> server_name_fault(host@) is None) && (r matches Ok(n) ==> (
        n matches TlsName::Name(t) && t@ == host@)),
{
}

/// A client needs something to trust: certificates of the system or of its own, and
/// where it names a file, one in there.
pub proof fn clients_trust_something(
    added: usize,
    ca_given: bool,
    path: &str,
    native: Result<(), Failure>,
    own: Result<(), Failure>,
)
    requires
        call_ensures(check_native_roots, (added, ca_given), native),
        call_ensures(check_given_roots, (added, path), own),
    ensures
        native is Ok <==> added > 0 || ca_given,
        own is Ok <==> added > 0,
{
}

/// Certificates and keys come out of their files as they stand there, in order, and
/// a file without a key is refused.
pub proof fn certificates_and_keys_are_read(
    pem: &[u8],
    path: &str,
    certs: Result<Vec<Vec<u8>>, Failure>,
    key: Result<(KeyKind, Vec<u8>), Failure>,
    i: int,
)
    requires
        call_ensures(parse_certs, (pem, path), certs),
        call_ensures(parse_private_key, (pem, path), key),
    ensures
        certs is Ok <==> pem_certs(pem@) is Ok,
        certs matches Ok(c) ==> c@.len() == (pem_certs(pem@)->Ok_0).len() && (0 <= i < c@.len()
            ==> c@[i]@ == (pem_certs(pem@)->Ok_0)[i]),
        key is Ok <==> (pem_key(pem@) matches Ok(Some(_))),
        key matches Ok((kind, b)) ==> pem_key(pem@) == Ok::<
            Option<(KeyKind, Seq<u8>)>,
            Seq<char>,
        >(Some((kind, b@))),
{
    if let Ok(c) = certs {
        assert(byte_lists(c@).len() == c@.len());
    }
}

} // verus!
