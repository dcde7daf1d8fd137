//! What the library takes on trust from webpki, ring, rustls and the clock:
//! the verdicts on certificates, the handling of private keys, and the time.
//! The verdicts are named here and computed there.

use ring::error::KeyRejected;
use ring::signature::EcdsaKeyPair;
use std::sync::Arc;
use std::time::SystemTime;
use vstd::prelude::*;
use webpki::trust_anchor_util::cert_der_as_trust_anchor;
use webpki::{
    EndEntityCert, TLSServerTrustAnchors, Time, ECDSA_P256_SHA256, ECDSA_P256_SHA384,
    ECDSA_P384_SHA256, ECDSA_P384_SHA384, ED25519, RSA_PKCS1_2048_8192_SHA256,
    RSA_PKCS1_2048_8192_SHA384, RSA_PKCS1_2048_8192_SHA512, RSA_PKCS1_3072_8192_SHA384,
    RSA_PSS_2048_8192_SHA256_LEGACY_KEY, RSA_PSS_2048_8192_SHA384_LEGACY_KEY,
    RSA_PSS_2048_8192_SHA512_LEGACY_KEY,
};

verus! {

/// An ECDSA key pair of ring. Nothing of it is visible here.
#[verifier::external_type_specification]
#[verifier::external_body]
pub struct ExEcdsaKeyPair(EcdsaKeyPair);

/// ring's reason for refusing a key. Nothing of it is visible here.
#[verifier::external_type_specification]
#[verifier::external_body]
pub struct ExKeyRejected(KeyRejected);

/// A point in time of the system clock. Nothing of it is visible here.
#[verifier::external_type_specification]
#[verifier::external_body]
pub struct ExSystemTime(SystemTime);

/// Whether webpki finds the DNS name `name` among the names that the
/// certificate `leaf` is valid for.
///
/// The certificate must parse as an end-entity certificate, `name` must be a
/// valid DNS name, and one of the certificate's subject alternative names must
/// match it.
pub uninterp spec fn leaf_names(leaf: Seq<u8>, name: Seq<u8>) -> bool;

/// Whether webpki can take the certificate `der` for a trust anchor.
pub uninterp spec fn is_trust_anchor(der: Seq<u8>) -> bool;

/// What webpki says of a certificate chain, leaf first, at the time `now`
/// (seconds since the Unix epoch), given the certificates in `roots` as trust
/// anchors: `None` if a path from the leaf to one of the anchors verifies for a
/// TLS server, else the number of webpki's error, counted from 0 in the order
/// in which `webpki::Error` declares them.
pub uninterp spec fn chain_fault(roots: Seq<Seq<u8>>, chain: Seq<Seq<u8>>, now: u64) -> Option<u8>;

/// The certificates that rustls finds in a PEM text, in their order; `None`
/// where the base64 of one of them does not decode.
pub uninterp spec fn pem_certificates(text: Seq<char>) -> Option<Seq<Seq<u8>>>;

/// The public key of the ECDSA P-256 key pair that ring reads from a PKCS#8
/// document, as the uncompressed point that the document holds; `None` where
/// ring does not read such a key pair from the document.
pub uninterp spec fn pkcs8_public_key(document: Seq<u8>) -> Option<Seq<u8>>;

/// The bytes of each item.
pub open spec fn views(items: Seq<Vec<u8>>) -> Seq<Seq<u8>> {
    Seq::new(items.len(), |i: int| items[i]@)
}

/// Asks webpki whether the certificate `leaf` is valid for the DNS name `name`
/// (`webpki::EndEntityCert::from`, then `verify_is_valid_for_dns_name`). A
/// name that webpki does not take for a DNS name is valid for no certificate.
#[verifier::external_body]
pub(crate) fn leaf_is_valid_for(leaf: &[u8], name: &[u8]) -> (valid: bool)
    ensures
        valid == leaf_names(leaf@, name@),
{
    match webpki::DNSNameRef::try_from_ascii(name) {
        Ok(name) => EndEntityCert::from(leaf).and_then(
            |cert| cert.verify_is_valid_for_dns_name(name),
        ).is_ok(),
        Err(_) => false,
    }
}

/// Asks webpki whether it can read the certificate `der` as a trust anchor
/// (`webpki::trust_anchor_util::cert_der_as_trust_anchor`).
#[verifier::external_body]
pub(crate) fn can_anchor(der: &[u8]) -> (ok: bool)
    ensures
        ok == is_trust_anchor(der@),
{
    cert_der_as_trust_anchor(der).is_ok()
}

/// Has webpki verify the chain, leaf first, against the trust anchors `roots`
/// at the time `now`, for use by a TLS server
/// (`webpki::EndEntityCert::verify_is_valid_tls_server_cert`). No signature
/// algorithm is chosen here: webpki is handed all twelve that it has, in the
/// order in which rustls hands them to it. The result is
/// `None` where the chain verifies, else the number of webpki's error. A root
/// that cannot be read as a trust anchor fails the verification with the error
/// of reading it. Without a trust anchor no chain verifies: webpki builds a
/// path only up to one of the anchors that it was given.
#[verifier::external_body]
pub(crate) fn verify_chain(roots: &Vec<Vec<u8>>, chain: &Vec<Vec<u8>>, now: u64) -> (fault: Option<
    u8,
>)
    requires
        chain@.len() > 0,
    ensures
        fault == chain_fault(views(roots@), views(chain@), now),
        views(roots@).len() == 0 ==> fault is Some,
{
    let anchors: Result<Vec<_>, _> = roots.iter().map(|r| cert_der_as_trust_anchor(r)).collect();
    let rest: Vec<&[u8]> = chain[1..].iter().map(|c| c.as_slice()).collect();
    let algs = [
        &ECDSA_P256_SHA256, &ECDSA_P256_SHA384, &ECDSA_P384_SHA256, &ECDSA_P384_SHA384,
        &ED25519, &RSA_PSS_2048_8192_SHA256_LEGACY_KEY, &RSA_PSS_2048_8192_SHA384_LEGACY_KEY,
        &RSA_PSS_2048_8192_SHA512_LEGACY_KEY, &RSA_PKCS1_2048_8192_SHA256,
        &RSA_PKCS1_2048_8192_SHA384, &RSA_PKCS1_2048_8192_SHA512,
        &RSA_PKCS1_3072_8192_SHA384,
    ];
    let time = Time::from_seconds_since_unix_epoch(now);
    let verified = anchors.and_then(|a| EndEntityCert::from(&chain[0])?
        .verify_is_valid_tls_server_cert(&algs, &TLSServerTrustAnchors(&a), &rest, time));
    verified.err().map(|e| e as u8)
}

/// Has rustls find the certificates in a PEM text
/// (`rustls::internal::pemfile::certs`).
#[verifier::external_body]
pub(crate) fn read_pem_certificates(text: &str) -> (found: Option<Vec<Vec<u8>>>)
    ensures
        match found {
            Some(ders) => pem_certificates(text@) == Some(views(ders@)),
            None => pem_certificates(text@) is None,
        },
{
    let mut reader = std::io::Cursor::new(text.as_bytes());
    match rustls::internal::pemfile::certs(&mut reader) {
        Ok(certs) => Some(certs.into_iter().map(|cert| cert.0).collect()),
        Err(()) => None,
    }
}

/// An ECDSA P-256 key pair that signs with SHA-256 and writes its signatures
/// in ASN.1, together with its public key. Only `key_pair_from_pkcs8` makes
/// one, so every value is such a pair.
#[derive(Debug)]
pub struct SigningPair {
    pair: EcdsaKeyPair,
    public: Vec<u8>,
}

impl SigningPair {
    /// The public key, as an uncompressed point.
    pub closed spec fn public_key_bytes(&self) -> Seq<u8> {
        self.public@
    }

    /// The public key, as an uncompressed point.
    pub fn public_key(&self) -> (bytes: &[u8])
        ensures
            bytes@ == self.public_key_bytes(),
    {
        self.public.as_slice()
    }
}

/// Whether `bytes` has the shape of an ASN.1 signature of ECDSA on the curve
/// P-256: a sequence of two integers, each of 1 to 33 bytes, and nothing
/// behind them.
pub open spec fn is_p256_signature(bytes: Seq<u8>) -> bool {
    &&& 8 <= bytes.len() <= 72
    &&& bytes[0] == 0x30
    &&& bytes[1] + 2 == bytes.len()
    &&& bytes[2] == 0x02
    &&& 1 <= bytes[3] <= 33
    &&& 6 + bytes[3] <= bytes.len()
    &&& bytes[4 + bytes[3]] == 0x02
    &&& 1 <= bytes[5 + bytes[3]] <= 33
    &&& 6 + bytes[3] + bytes[5 + bytes[3]] == bytes.len()
}

/// Has ring read an ECDSA P-256 key pair from a PKCS#8 document
/// (`ring::signature::EcdsaKeyPair::from_pkcs8`, for signing with SHA-256 and
/// ASN.1 signatures), and hands it out with its public key
/// (`ring::signature::KeyPair::public_key`).
///
/// ring draws on the system's random numbers while making the key pair, which
/// may fail, so success is not promised of any document. What is claimed is
/// read off ring's reading of the document, which comes first and draws on
/// nothing else: a key pair is only made of a document that ring reads, and
/// its public key is the one that the document holds.
#[verifier::external_body]
pub(crate) fn key_pair_from_pkcs8(pkcs8: &[u8]) -> (read: Result<SigningPair, KeyRejected>)
    ensures
        read matches Ok(found) ==> pkcs8_public_key(pkcs8@) == Some(found.public_key_bytes()),
{
    match EcdsaKeyPair::from_pkcs8(&ring::signature::ECDSA_P256_SHA256_ASN1_SIGNING, pkcs8) {
        Ok(pair) => {
            let public = ring::signature::KeyPair::public_key(&pair).as_ref().to_vec();
            Ok(SigningPair { pair, public })
        },
        Err(reason) => Err(reason),
    }
}

/// Has ring sign `message` with a random nonce
/// (`ring::signature::EcdsaKeyPair::sign`). The signature differs from call
/// to call, and ring may fail to make one. What is claimed of a signature is
/// the shape in which ring writes each one of such a pair: the sequence tag,
/// the length of what follows, and two integers of at most 33 bytes.
#[verifier::external_body]
pub(crate) fn sign_with(pair: &SigningPair, message: &[u8]) -> (made: Option<Vec<u8>>)
    ensures
        made matches Some(signature) ==> is_p256_signature(signature@),
{
    let rng = ring::rand::SystemRandom::new();
    match pair.pair.sign(&rng, message) {
        Ok(signature) => Some(signature.as_ref().to_vec()),
        Err(_) => None,
    }
}

/// ring's words for why it refused a key (`KeyRejected`'s `Display`).
#[verifier::external_body]
pub(crate) fn rejection_text(reason: &KeyRejected) -> String {
    format!("{}", reason)
}

/// Another handle on the same value (`Arc::clone`).
#[verifier::external_body]
pub(crate) fn share<T>(handle: &Arc<T>) -> (shared: Arc<T>)
    ensures
        shared == *handle,
{
    Arc::clone(handle)
}

/// The time of the system clock (`SystemTime::now`).
#[verifier::external_body]
pub(crate) fn clock_now() -> SystemTime {
    SystemTime::now()
}

/// The whole seconds from the Unix epoch to `time`
/// (`SystemTime::duration_since`); `None` for a time before the epoch.
#[verifier::external_body]
pub(crate) fn unix_seconds(time: &SystemTime) -> Option<u64> {
    match time.duration_since(std::time::UNIX_EPOCH) {
        Ok(since) => Some(since.as_secs()),
        Err(_) => None,
    }
}

} // verus!
