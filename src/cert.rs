//! Reading the certificate handed to the runtime.
use vstd::prelude::*;

verus! {

/// Why a certificate could not be used.
#[derive(Clone, Debug)]
pub enum CertificateError {
    /// The file could not be read: the path, the cause.
    Read(String, String),
    /// The file is neither PEM nor DER.
    UnknownCertFormat,
}

/// The contents of the PEM block in `buf`, if `buf` reads as PEM.
pub uninterp spec fn pem_contents_of(buf: Seq<u8>) -> Option<Seq<u8>>;

/// Relies on `pem::parse`: whether the bytes read as a PEM block, and its
/// contents, depend on the bytes alone.
#[verifier::external_body]
fn pem_contents(buf: &[u8]) -> (r: Option<Vec<u8>>)
    ensures
        r is Some == pem_contents_of(buf@) is Some,
        r is Some ==> r->Some_0@ == pem_contents_of(buf@)->Some_0,
{
    match pem::parse(buf) {
        Ok(block) => Some(block.into_contents()),
        Err(_) => None,
    }
}

/// The DER bytes of a certificate file holding `buf`, given what reading it
/// as PEM gave: the PEM contents if it was PEM, else the bytes as they are.
pub fn der_from(buf: Vec<u8>, pem: Option<Vec<u8>>) -> (r: Vec<u8>)
    ensures
        r@ == (match pem {
            Some(c) => c@,
            None => buf@,
        }),
{
    match pem {
        Some(contents) => contents,
        None => buf,
    }
}

/// The DER bytes of a certificate file holding `buf`: PEM is tried first,
/// then the bytes are taken as DER.
pub fn parse_ssl_cert(buf: Vec<u8>) -> (r: Vec<u8>)
    ensures
        r@ == (match pem_contents_of(buf@) {
            Some(c) => c,
            None => buf@,
        }),
{
    let pem = pem_contents(buf.as_slice());
    der_from(buf, pem)
}

} // verus!
