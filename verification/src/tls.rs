//! Where the server's certificate comes from, and how it is kept on disk.
//!
//! The server keeps one self-signed certificate and its private key in two
//! files, as PEM. It loads them when both are there, and otherwise makes a
//! new pair and saves it. A client trusts the certificate that it finds in
//! that file, and asks for the host that its address names. Making the pair,
//! reading and writing the files and the handshake itself are the caller's;
//! which way to go, the way from DER to PEM and back, and the host of an
//! address are decided here.

use vstd::prelude::*;
use vstd::std_specs::iter::IteratorSpec;
use vstd::string::StrSliceExecFns;

verus! {

broadcast use vstd::string::group_string_axioms;

/// The file that holds the certificate.
pub const CERT_PATH: &'static str = "server.crt";

/// The file that holds the private key.
pub const KEY_PATH: &'static str = "server.key";

/// The PEM tag of a certificate.
pub const CERTIFICATE_TAG: &'static str = "CERTIFICATE";

/// The PEM tag of a private key.
pub const PRIVATE_KEY_TAG: &'static str = "PRIVATE KEY";

/// Where the certificate and the key are taken from.
#[derive(Debug, Clone, Copy, PartialEq, Eq, Structural)]
pub enum CertSource {
    /// Both files are there: load the pair.
    Stored,
    /// A file is missing: make a new pair and save it.
    Fresh,
}

/// The PEM text that the crate `pem` writes for a tag and some contents.
pub uninterp spec fn pem_text(tag: Seq<char>, contents: Seq<u8>) -> Seq<char>;

/// The contents of the first PEM block that the crate `pem` finds in a text,
/// if it finds one that is sound.
pub uninterp spec fn pem_contents(text: Seq<char>) -> Option<Seq<u8>>;

/// The error of the crate `pem`, as an opaque value.
#[verifier::external_type_specification]
#[verifier::external_body]
pub struct ExPemError(pem::PemError);

/// `pem::encode`, on a block made by `pem::Pem::new` from the tag and the
/// contents, without headers: the text depends on the two alone, and has a
/// name. Believed, not proved.
#[verifier::external_body]
fn encode_pem(tag: &str, contents: &[u8]) -> (text: String)
    ensures
        text@ == pem_text(tag@, contents@),
{
    pem::encode(&pem::Pem::new(tag, contents))
}

/// `pem::parse`, followed by `pem::Pem::into_contents`: the contents of the
/// first block of the text, or the parser's error. Whether there is a sound
/// block, and what it holds, depends on the text alone, and has a name.
/// Believed, not proved.
#[verifier::external_body]
fn parse_pem(text: &str) -> (contents: Result<Vec<u8>, pem::PemError>)
    ensures
        match contents {
            Ok(bytes) => pem_contents(text@) == Some(bytes@),
            Err(_) => pem_contents(text@) is None,
        },
{
    pem::parse(text).map(pem::Pem::into_contents)
}

/// What `pem::PemError` shows as its message. Nothing is claimed of it.
#[verifier::external_body]
fn describe(error: &pem::PemError) -> String {
    format!("{error}")
}

/// Decides where the certificate and the key are taken from: from the files
/// if both are there, else from a new pair.
pub fn cert_source(cert_found: bool, key_found: bool) -> (source: CertSource)
    ensures
        source == if cert_found && key_found {
            CertSource::Stored
        } else {
            CertSource::Fresh
        },
{
    if cert_found && key_found {
        CertSource::Stored
    } else {
        CertSource::Fresh
    }
}

/// The text to save a certificate as, given its DER.
pub fn certificate_pem(der: &[u8]) -> (text: String)
    ensures
        text@ == pem_text(CERTIFICATE_TAG@, der@),
{
    encode_pem(CERTIFICATE_TAG, der)
}

/// The text to save a private key as, given its DER.
pub fn private_key_pem(der: &[u8]) -> (text: String)
    ensures
        text@ == pem_text(PRIVATE_KEY_TAG@, der@),
{
    encode_pem(PRIVATE_KEY_TAG, der)
}

/// The DER that a stored text holds: the contents of its first PEM block,
/// whatever the tag. A text without a sound block is refused, with what the
/// parser said of it.
pub fn der_of_pem(text: &str) -> (der: Result<Vec<u8>, String>)
    ensures
        match der {
            Ok(bytes) => pem_contents(text@) == Some(bytes@),
            Err(_) => pem_contents(text@) is None,
        },
{
    match parse_pem(text) {
        Ok(bytes) => Ok(bytes),
        Err(error) => Err(describe(&error)),
    }
}

/// The host in an address of the form `host:port`: what stands before the
/// first colon. It is the name that a client checks the server's certificate
/// against. An address without a colon has no host.
pub fn host_of(addr: &str) -> (host: Option<&str>)
    ensures
        match host {
            Some(name) => {
                &&& name@.len() < addr@.len()
                &&& name@ == addr@.take(name@.len() as int)
                &&& addr@[name@.len() as int] == ':'
                &&& !name@.contains(':')
            },
            None => !addr@.contains(':'),
        },
{
    proof {
        crate::command::lemma_chars_fit_in_bytes(addr@);
    }
    let bytes = addr.as_bytes().len();
    let mut rest = addr.chars();
    let mut i: usize = 0;
    loop
        invariant
            rest.obeys_prophetic_iter_laws(),
            rest.remaining() == addr@.skip(i as int),
            addr@.len() <= bytes,
            i <= addr@.len(),
            forall|j: int| 0 <= j < i ==> addr@[j] != ':',
        decreases addr@.len() - i,
    {
        match rest.next() {
            None => {
                assert(addr@.skip(i as int).len() == 0);
                return None;
            },
            Some(c) => {
                assert(c == addr@[i as int]);
                if c == ':' {
                    let name = addr.substring_char(0, i);
                    assert(name@ =~= addr@.take(i as int));
                    return Some(name);
                }
                i = i + 1;
            },
        }
    }
}

} // verus!
