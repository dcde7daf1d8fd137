//! What a TLS engine needs to know to shake hands for the local workload: the
//! roots it trusts, the certificate chain and key it presents, and the
//! decisions it asks for while a handshake runs.

use crate::trust::{
    is_p256_signature, key_pair_from_pkcs8, leaf_is_valid_for, leaf_names, pkcs8_public_key,
    rejection_text, share, sign_with, views, SigningPair,
};
use ring::error::KeyRejected;
use std::sync::Arc;
use vstd::prelude::*;

verus! {

/// The signature scheme that the workload's key signs with: ECDSA with the
/// curve P-256 and SHA-256.
pub const SIGNATURE_SCHEME: u16 = 0x0403;

/// The signature algorithm of that scheme: ECDSA.
pub const SIGNATURE_ALGORITHM: u8 = 3;

/// TLS 1.2.
pub const TLS_1_2: u16 = 0x0303;

/// TLS 1.3.
pub const TLS_1_3: u16 = 0x0304;

/// A copy of each item, in the same order.
pub fn copy_all(items: &Vec<Vec<u8>>) -> (out: Vec<Vec<u8>>)
    ensures
        views(out@) == views(items@),
{
    let mut out: Vec<Vec<u8>> = Vec::with_capacity(items.len());
    let mut i: usize = 0;
    while i < items.len()
        invariant
            i <= items.len(),
            out@.len() == i,
            forall|j: int| 0 <= j < i ==> (#[trigger] out@[j])@ == items@[j]@,
        decreases items.len() - i,
    {
        out.push(crate::name::copy_bytes(items[i].as_slice()));
        i += 1;
    }
    assert(views(out@) =~= views(items@));
    out
}

/// Whether `wanted` is among `offered`.
pub fn offers(offered: &[u16], wanted: u16) -> (found: bool)
    ensures
        found == offered@.contains(wanted),
{
    let mut i: usize = 0;
    while i < offered.len()
        invariant
            i <= offered.len(),
            forall|j: int| 0 <= j < i ==> offered@[j] != wanted,
        decreases offered.len() - i,
    {
        if offered[i] == wanted {
            return true;
        }
        i += 1;
    }
    false
}

/// The reason why a private key was refused: ring's reason, and its words.
pub struct Error {
    cause: KeyRejected,
    words: String,
}

impl Error {
    /// ring's reason.
    pub closed spec fn reason(&self) -> KeyRejected {
        self.cause
    }

    /// The words in which ring gave its reason when the key was refused.
    pub closed spec fn words(&self) -> Seq<char> {
        self.words@
    }

    /// The reason in words.
    pub fn message(&self) -> (text: String)
        ensures
            text@ == self.words(),
    {
        self.words.clone()
    }
}

/// A private signing key: an ECDSA P-256 key pair. It can be shared, and
/// nothing but its public key can be read out of it.
#[derive(Debug)]
pub struct Key {
    pair: Arc<SigningPair>,
}

impl Key {
    /// Reads a key from a PKCS#8 document. A document from which ring reads no
    /// ECDSA P-256 key pair is refused, and a key that is made is the one that
    /// the document holds. That a key is made is not promised of any document:
    /// the system must supply random numbers for it.
    pub fn from_pkcs8(b: &[u8]) -> (made: Result<Key, Error>)
        ensures
            made matches Ok(key) ==> pkcs8_public_key(b@) == Some(key.public_key_bytes()),
            pkcs8_public_key(b@) is None ==> made is Err,
    {
        Key::from_parsed(key_pair_from_pkcs8(b))
    }

    /// The key of the pair that ring read, or the reason for which ring
    /// refused.
    pub fn from_parsed(parsed: Result<SigningPair, KeyRejected>) -> (made: Result<Key, Error>)
        ensures
            match parsed {
                Ok(found) => made matches Ok(key) && key.pair() == found,
                Err(reason) => made matches Err(error) && error.reason() == reason,
            },
    {
        match parsed {
            Ok(pair) => Ok(Key { pair: Arc::new(pair) }),
            Err(reason) => {
                let words = rejection_text(&reason);
                Err(Error { cause: reason, words })
            },
        }
    }

    /// The key pair behind the handle.
    pub closed spec fn pair(&self) -> SigningPair {
        *self.pair
    }

    /// The public key, as an uncompressed point.
    pub open spec fn public_key_bytes(&self) -> Seq<u8> {
        self.pair().public_key_bytes()
    }

    /// The public key, as an uncompressed point.
    pub fn public_key(&self) -> (bytes: &[u8])
        ensures
            bytes@ == self.public_key_bytes(),
    {
        self.pair.public_key()
    }

    /// Another handle on the same key.
    pub fn share(&self) -> (shared: Key)
        ensures
            shared == *self,
    {
        Key { pair: share(&self.pair) }
    }
}

impl Clone for Key {
    /// Another handle on the same key.
    fn clone(&self) -> (copy: Self)
        ensures
            copy == *self,
    {
        self.share()
    }
}

/// A signature could not be made.
#[derive(Clone, Copy, Debug, PartialEq, Eq, Structural)]
pub struct SigningFailed;

/// A key that signs with one scheme, chosen once a peer has said which
/// schemes it accepts.
pub struct Signer {
    key: Key,
}

impl Signer {
    /// Signs `message`. The signature holds a random nonce and differs from
    /// call to call, and the system may fail to supply the nonce. A signature
    /// that is made is an ASN.1 signature of ECDSA on the curve P-256.
    pub fn sign(&self, message: &[u8]) -> (signature: Result<Vec<u8>, SigningFailed>)
        ensures
            signature matches Ok(bytes) ==> is_p256_signature(bytes@),
    {
        Signer::signed(sign_with(&self.key.pair, message))
    }

    /// The signature that ring made, or the failure to make one.
    pub fn signed(made: Option<Vec<u8>>) -> (signature: Result<Vec<u8>, SigningFailed>)
        ensures
            match made {
                Some(bytes) => signature == Ok::<Vec<u8>, SigningFailed>(bytes),
                None => signature is Err,
            },
    {
        match made {
            Some(signature) => Ok(signature),
            None => Err(SigningFailed),
        }
    }

    /// The scheme that the signatures follow.
    pub fn get_scheme(&self) -> (scheme: u16)
        ensures
            scheme == SIGNATURE_SCHEME,
    {
        SIGNATURE_SCHEME
    }

    /// The key that signs.
    pub closed spec fn key(&self) -> Key {
        self.key
    }
}

/// A private key bound to the handshake: it signs if the peer accepts its
/// scheme, and declines otherwise.
pub struct SigningKey {
    key: Key,
}

impl SigningKey {
    /// Binds `key`.
    pub fn new(key: Key) -> (bound: SigningKey)
        ensures
            bound.key() == key,
    {
        SigningKey { key }
    }

    /// The key that is bound.
    pub closed spec fn key(&self) -> Key {
        self.key
    }

    /// A signer, if the peer offers `SIGNATURE_SCHEME`; none if it does not.
    pub fn choose_scheme(&self, offered: &[u16]) -> (signer: Option<Signer>)
        ensures
            signer is Some <==> offered@.contains(SIGNATURE_SCHEME),
            signer matches Some(s) ==> s.key() == self.key(),
    {
        if offers(offered, SIGNATURE_SCHEME) {
            Some(Signer { key: self.key.share() })
        } else {
            None
        }
    }

    /// The algorithm of the key.
    pub fn algorithm(&self) -> (algorithm: u8)
        ensures
            algorithm == SIGNATURE_ALGORITHM,
    {
        SIGNATURE_ALGORITHM
    }

    /// Another handle on the same key.
    pub fn share(&self) -> (shared: SigningKey)
        ensures
            shared == *self,
    {
        SigningKey { key: self.key.share() }
    }
}

/// A certificate chain, leaf first, with the key that proves its possession.
pub struct CertifiedKey {
    pub cert: Vec<Vec<u8>>,
    pub key: SigningKey,
}

/// `CertifiedKey` over plain values.
pub struct CertifiedKeyView {
    pub cert: Seq<Seq<u8>>,
    pub key: Key,
}

impl View for CertifiedKey {
    type V = CertifiedKeyView;

    open spec fn view(&self) -> CertifiedKeyView {
        CertifiedKeyView { cert: views(self.cert@), key: self.key.key() }
    }
}

impl CertifiedKey {
    /// A copy that shares the key.
    pub fn share(&self) -> (shared: CertifiedKey)
        ensures
            shared@ == self@,
    {
        CertifiedKey { cert: copy_all(&self.cert), key: self.key.share() }
    }
}

impl Clone for CertifiedKey {
    /// A copy that shares the key.
    fn clone(&self) -> (copy: Self)
        ensures
            copy@ == self@,
    {
        self.share()
    }
}

/// Decides, while a handshake runs, whether the workload's certificate is
/// presented.
pub struct CertResolver(pub CertifiedKey);

impl Clone for CertResolver {
    /// A resolver that presents the same.
    fn clone(&self) -> (copy: Self)
        ensures
            copy.0@ == self.0@,
    {
        CertResolver(self.0.share())
    }
}

impl CertResolver {
    /// The certificate and key, if the peer accepts signatures of
    /// `SIGNATURE_SCHEME`; nothing if it does not.
    pub fn resolve_(&self, sigschemes: &[u16]) -> (resolved: Option<CertifiedKey>)
        ensures
            resolved is Some <==> sigschemes@.contains(SIGNATURE_SCHEME),
            resolved matches Some(found) ==> found@ == self.0@,
    {
        if !offers(sigschemes, SIGNATURE_SCHEME) {
            return None;
        }
        Some(self.0.share())
    }

    /// What is presented to a server that asks for a client certificate. The
    /// issuers that the server would accept are not looked at.
    pub fn resolve_client(&self, acceptable_issuers: &[Vec<u8>], sigschemes: &[u16]) -> (resolved:
        Option<CertifiedKey>)
        ensures
            resolved is Some <==> sigschemes@.contains(SIGNATURE_SCHEME),
            resolved matches Some(found) ==> found@ == self.0@,
    {
        self.resolve_(sigschemes)
    }

    /// Whether there is a certificate to present to servers: always.
    pub fn has_certs(&self) -> (has: bool)
        ensures
            has,
    {
        true
    }

    /// Whether the certificate is presented to a client that asks for the
    /// server named `server_name`, given the name as the client wrote it.
    pub open spec fn serves(&self, server_name: Option<Seq<u8>>, sigschemes: Seq<u16>) -> bool {
        &&& server_name matches Some(name)
        &&& self.0.cert@.len() > 0
        &&& leaf_names(self.0.cert@[0]@, name)
        &&& sigschemes.contains(SIGNATURE_SCHEME)
    }

    /// What is presented to a client: the certificate and key, if the client
    /// names a server, the certificate is valid for that name, and the client
    /// accepts signatures of `SIGNATURE_SCHEME`; nothing otherwise. The name
    /// is taken as the client wrote it, and judged as webpki judges it.
    pub fn resolve_server(&self, server_name: Option<&[u8]>, sigschemes: &[u16]) -> (resolved:
        Option<CertifiedKey>)
        ensures
            resolved is Some <==> self.serves(
                match server_name {
                    Some(name) => Some(name@),
                    None => None,
                },
                sigschemes@,
            ),
            resolved matches Some(found) ==> found@ == self.0@,
    {
        let name = match server_name {
            Some(name) => name,
            None => { return None; },
        };
        if self.0.cert.len() == 0 {
            return None;
        }
        if !leaf_is_valid_for(self.0.cert[0].as_slice(), name) {
            return None;
        }
        self.resolve_(sigschemes)
    }
}

/// Whether a server asks its clients for a certificate.
#[derive(Copy, Clone, Debug, PartialEq, Eq, Structural)]
pub enum ClientAuth {
    /// No certificate is asked for.
    NotRequested,
    /// A certificate is asked for; a client without one is accepted too.
    Requested,
}

/// What a TLS client is configured with.
pub struct ClientConfig {
    protocols: Vec<Vec<u8>>,
    roots: Vec<Vec<u8>>,
    identity: Option<CertResolver>,
    enable_tickets: bool,
}

/// `ClientConfig` over plain values: the application protocols offered, the
/// roots that servers are verified against, the certificate presented to
/// servers, and whether session tickets are taken, so that a session can be
/// resumed.
pub struct ClientConfigView {
    pub protocols: Seq<Seq<u8>>,
    pub roots: Seq<Seq<u8>>,
    pub identity: Option<CertifiedKeyView>,
    pub enable_tickets: bool,
}

impl View for ClientConfig {
    type V = ClientConfigView;

    closed spec fn view(&self) -> ClientConfigView {
        ClientConfigView {
            protocols: views(self.protocols@),
            roots: views(self.roots@),
            identity: match self.identity {
                Some(resolver) => Some(resolver.0@),
                None => None,
            },
            enable_tickets: self.enable_tickets,
        }
    }
}

impl Clone for ClientConfig {
    /// A configuration that holds the same, and shares the key.
    fn clone(&self) -> (copy: Self)
        ensures
            copy@ == self@,
    {
        let identity = match &self.identity {
            Some(resolver) => Some(resolver.clone()),
            None => None,
        };
        ClientConfig {
            protocols: copy_all(&self.protocols),
            roots: copy_all(&self.roots),
            identity,
            enable_tickets: self.enable_tickets,
        }
    }
}

impl ClientConfig {
    /// A configuration that offers `protocols`, trusts no root and presents no
    /// certificate. Nothing else is set: session tickets are taken, as a TLS
    /// engine does unless it is told otherwise.
    pub fn new(protocols: Vec<Vec<u8>>) -> (config: ClientConfig)
        ensures
            config@ == (ClientConfigView {
                protocols: views(protocols@),
                roots: Seq::empty(),
                identity: None,
                enable_tickets: true,
            }),
    {
        let config = ClientConfig {
            protocols,
            roots: Vec::new(),
            identity: None,
            enable_tickets: true,
        };
        assert(views(config.roots@) =~= Seq::empty());
        config
    }

    /// A configuration that offers no protocol, trusts no root and presents no
    /// certificate: every handshake with it fails.
    pub fn empty() -> (config: ClientConfig)
        ensures
            config@ == (ClientConfigView {
                protocols: Seq::empty(),
                roots: Seq::empty(),
                identity: None,
                enable_tickets: true,
            }),
    {
        let config = ClientConfig::new(Vec::new());
        assert(config@.protocols =~= Seq::empty());
        config
    }

    /// A configuration that trusts `roots`, presents `identity`, and takes
    /// session tickets as `enable_tickets` says.
    pub fn with_identity(
        roots: Vec<Vec<u8>>,
        identity: Option<CertResolver>,
        enable_tickets: bool,
    ) -> (config: ClientConfig)
        ensures
            config@ == (ClientConfigView {
                protocols: Seq::empty(),
                roots: views(roots@),
                identity: match identity {
                    Some(resolver) => Some(resolver.0@),
                    None => None,
                },
                enable_tickets,
            }),
    {
        let config = ClientConfig { protocols: Vec::new(), roots, identity, enable_tickets };
        assert(views(config.protocols@) =~= Seq::empty());
        config
    }

    /// Replaces the application protocols that are offered.
    pub fn set_protocols(&mut self, protocols: Vec<Vec<u8>>)
        ensures
            final(self)@ == (ClientConfigView { protocols: views(protocols@), ..old(self)@ }),
    {
        self.protocols = protocols;
    }

    /// The application protocols that are offered, in the order of preference.
    pub fn protocols(&self) -> (protocols: &Vec<Vec<u8>>)
        ensures
            views(protocols@) == self@.protocols,
    {
        &self.protocols
    }

    /// The roots that servers are verified against.
    pub fn roots(&self) -> (roots: &Vec<Vec<u8>>)
        ensures
            views(roots@) == self@.roots,
    {
        &self.roots
    }

    /// Whether session tickets are taken. Where they are not, no session is
    /// resumed.
    pub fn enable_tickets(&self) -> (enabled: bool)
        ensures
            enabled == self@.enable_tickets,
    {
        self.enable_tickets
    }

    /// What decides on the certificate presented to servers, if there is one.
    pub fn identity(&self) -> (identity: &Option<CertResolver>)
        ensures
            match *identity {
                Some(resolver) => self@.identity == Some(resolver.0@),
                None => self@.identity is None,
            },
    {
        &self.identity
    }
}

/// What a TLS server is configured with.
pub struct ServerConfig {
    alpn_protocols: Vec<Vec<u8>>,
    roots: Vec<Vec<u8>>,
    identity: Option<CertResolver>,
    client_auth: ClientAuth,
    versions: Vec<u16>,
}

/// `ServerConfig` over plain values: the application protocols accepted, the
/// roots that client certificates are verified against, the certificate
/// presented to clients, whether clients are asked for a certificate, and the
/// TLS versions spoken.
pub struct ServerConfigView {
    pub alpn_protocols: Seq<Seq<u8>>,
    pub roots: Seq<Seq<u8>>,
    pub identity: Option<CertifiedKeyView>,
    pub client_auth: ClientAuth,
    pub versions: Seq<u16>,
}

impl View for ServerConfig {
    type V = ServerConfigView;

    closed spec fn view(&self) -> ServerConfigView {
        ServerConfigView {
            alpn_protocols: views(self.alpn_protocols@),
            roots: views(self.roots@),
            identity: match self.identity {
                Some(resolver) => Some(resolver.0@),
                None => None,
            },
            client_auth: self.client_auth,
            versions: self.versions@,
        }
    }
}

/// The TLS versions that a server speaks.
pub fn tls_versions() -> (versions: Vec<u16>)
    ensures
        versions@ == seq![TLS_1_2, TLS_1_3],
{
    let mut versions: Vec<u16> = Vec::new();
    versions.push(TLS_1_2);
    versions.push(TLS_1_3);
    assert(versions@ =~= seq![TLS_1_2, TLS_1_3]);
    versions
}

/// A server configuration that fails to shake hands on every connection.
pub fn empty_config() -> (config: ServerConfig)
    ensures
        config@ == (ServerConfigView {
            alpn_protocols: Seq::empty(),
            roots: Seq::empty(),
            identity: None,
            client_auth: ClientAuth::NotRequested,
            versions: seq![TLS_1_2, TLS_1_3],
        }),
{
    ServerConfig::empty()
}

impl Clone for ServerConfig {
    /// A configuration that holds the same, and shares the key.
    fn clone(&self) -> (copy: Self)
        ensures
            copy@ == self@,
    {
        let identity = match &self.identity {
            Some(resolver) => Some(resolver.clone()),
            None => None,
        };
        ServerConfig {
            alpn_protocols: copy_all(&self.alpn_protocols),
            roots: copy_all(&self.roots),
            identity,
            client_auth: self.client_auth,
            versions: self.versions.clone(),
        }
    }
}

impl ServerConfig {
    /// A configuration that accepts `alpn_protocols`, presents no certificate
    /// and asks for none.
    pub fn new(alpn_protocols: Vec<Vec<u8>>) -> (config: ServerConfig)
        ensures
            config@ == (ServerConfigView {
                alpn_protocols: views(alpn_protocols@),
                roots: Seq::empty(),
                identity: None,
                client_auth: ClientAuth::NotRequested,
                versions: seq![TLS_1_2, TLS_1_3],
            }),
    {
        let config = ServerConfig {
            alpn_protocols,
            roots: Vec::new(),
            identity: None,
            client_auth: ClientAuth::NotRequested,
            versions: tls_versions(),
        };
        assert(views(config.roots@) =~= Seq::empty());
        config
    }

    /// A configuration that fails to shake hands on every connection: it has
    /// no certificate to present.
    pub fn empty() -> (config: ServerConfig)
        ensures
            config@ == (ServerConfigView {
                alpn_protocols: Seq::empty(),
                roots: Seq::empty(),
                identity: None,
                client_auth: ClientAuth::NotRequested,
                versions: seq![TLS_1_2, TLS_1_3],
            }),
    {
        let config = ServerConfig::new(Vec::new());
        assert(config@.alpn_protocols =~= Seq::empty());
        config
    }

    /// A configuration that presents `identity` and asks clients for a
    /// certificate issued under one of `roots`, accepting those without.
    pub fn with_identity(roots: Vec<Vec<u8>>, identity: CertResolver) -> (config: ServerConfig)
        ensures
            config@ == (ServerConfigView {
                alpn_protocols: Seq::empty(),
                roots: views(roots@),
                identity: Some(identity.0@),
                client_auth: ClientAuth::Requested,
                versions: seq![TLS_1_2, TLS_1_3],
            }),
    {
        let config = ServerConfig {
            alpn_protocols: Vec::new(),
            roots,
            identity: Some(identity),
            client_auth: ClientAuth::Requested,
            versions: tls_versions(),
        };
        assert(views(config.alpn_protocols@) =~= Seq::empty());
        config
    }

    /// Adds an application protocol, after those that are accepted already.
    pub fn add_protocols(&mut self, protocols: Vec<u8>)
        ensures
            final(self)@ == (ServerConfigView {
                alpn_protocols: old(self)@.alpn_protocols.push(protocols@),
                ..old(self)@
            }),
    {
        self.alpn_protocols.push(protocols);
        assert(views(self.alpn_protocols@) =~= views(old(self).alpn_protocols@).push(protocols@));
    }

    /// The application protocols that are accepted, in the order of
    /// preference.
    pub fn alpn_protocols(&self) -> (protocols: &Vec<Vec<u8>>)
        ensures
            views(protocols@) == self@.alpn_protocols,
    {
        &self.alpn_protocols
    }

    /// The roots that client certificates are verified against.
    pub fn roots(&self) -> (roots: &Vec<Vec<u8>>)
        ensures
            views(roots@) == self@.roots,
    {
        &self.roots
    }

    /// What decides on the certificate presented to clients, if there is one.
    pub fn identity(&self) -> (identity: &Option<CertResolver>)
        ensures
            match *identity {
                Some(resolver) => self@.identity == Some(resolver.0@),
                None => self@.identity is None,
            },
    {
        &self.identity
    }

    /// Whether clients are asked for a certificate.
    pub fn client_auth(&self) -> (auth: ClientAuth)
        ensures
            auth == self@.client_auth,
    {
        self.client_auth
    }

    /// The TLS versions spoken.
    pub fn versions(&self) -> (versions: &Vec<u16>)
        ensures
            versions@ == self@.versions,
    {
        &self.versions
    }
}

} // verus!
