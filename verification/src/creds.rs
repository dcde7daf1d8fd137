//! The workload's credentials: the certificate that was issued to it, the
//! roots that it trusts, and the certified bundle that the two give together
//! with the private key.

use crate::config::{
    copy_all, CertResolver, CertifiedKey, CertifiedKeyView, ClientAuth, ClientConfig,
    ClientConfigView, Key, ServerConfig, ServerConfigView, SigningKey, TLS_1_2, TLS_1_3,
};
use crate::name::{copy_bytes, LocalId, Name};
use crate::pem::{
    certificate_blocks, chars_of, cut, find_blocks, is_whole, lemma_blocks_of_joined_texts,
};
use crate::trust::{
    can_anchor, chain_fault, clock_now, is_trust_anchor, leaf_is_valid_for, leaf_names,
    pem_certificates, read_pem_certificates, unix_seconds, verify_chain,
    views,
};
use std::time::SystemTime;
use vstd::prelude::*;
use vstd::string::StrSliceExecFns;

verus! {

/// webpki's error for an encoding that is not valid DER.
pub const FAULT_BAD_DER: u8 = 0;

/// webpki's error for a time that is not validly encoded.
pub const FAULT_BAD_DER_TIME: u8 = 1;

/// webpki's error for a certificate that has expired.
pub const FAULT_CERT_EXPIRED: u8 = 3;

/// webpki's error for a certificate that is not valid yet.
pub const FAULT_CERT_NOT_VALID_YET: u8 = 5;

/// webpki's error for an extension whose value is invalid.
pub const FAULT_EXTENSION_VALUE_INVALID: u8 = 7;

/// webpki's error for a chain that leads to no trust anchor.
pub const FAULT_UNKNOWN_ISSUER: u8 = 14;

/// webpki's error for a certificate that is not of version 3.
pub const FAULT_UNSUPPORTED_CERT_VERSION: u8 = 15;

/// webpki's error for a critical extension that it does not know.
pub const FAULT_UNSUPPORTED_CRITICAL_EXTENSION: u8 = 16;

/// webpki's error for a signature algorithm that does not go with the key.
pub const FAULT_UNSUPPORTED_SIGNATURE_ALGORITHM_FOR_PUBLIC_KEY: u8 = 17;

/// webpki's error for a signature algorithm that is not accepted.
pub const FAULT_UNSUPPORTED_SIGNATURE_ALGORITHM: u8 = 18;

/// Why a certificate could not be looked at, before any question of trust.
#[derive(Clone, Copy, Debug, PartialEq, Eq, Structural)]
pub enum GeneralError {
    /// Something in the chain or among the roots is not validly encoded;
    /// webpki's error has this number.
    Malformed(u8),
    /// The chain uses a version, an extension or an algorithm that is not
    /// supported; webpki's error has this number.
    Unsupported(u8),
    /// The system clock reads a time before the Unix epoch.
    NoCurrentTime,
}

/// Why a certificate was not certified.
#[derive(Debug)]
pub enum InvalidCrt {
    /// The leaf certificate is not valid for this identity.
    SubjectAltName(Name),
    /// The chain does not verify against the trust anchors; webpki's error has
    /// this number.
    Verify(u8),
    /// The chain could not be looked at.
    General(GeneralError),
}

impl Clone for InvalidCrt {
    /// The same failure once more.
    fn clone(&self) -> (copy: Self)
        ensures
            copy@ == self@,
    {
        match self {
            InvalidCrt::SubjectAltName(name) => InvalidCrt::SubjectAltName(name.clone()),
            InvalidCrt::Verify(fault) => InvalidCrt::Verify(*fault),
            InvalidCrt::General(error) => InvalidCrt::General(*error),
        }
    }
}

/// `InvalidCrt` over plain values.
pub enum InvalidCrtView {
    SubjectAltName(Seq<u8>),
    Verify(u8),
    General(GeneralError),
}

impl View for InvalidCrt {
    type V = InvalidCrtView;

    open spec fn view(&self) -> InvalidCrtView {
        match *self {
            InvalidCrt::SubjectAltName(name) => InvalidCrtView::SubjectAltName(name@),
            InvalidCrt::Verify(fault) => InvalidCrtView::Verify(fault),
            InvalidCrt::General(error) => InvalidCrtView::General(error),
        }
    }
}

/// Whether webpki's error of this number says that something is not validly
/// encoded.
pub open spec fn is_malformed(fault: u8) -> bool {
    fault == FAULT_BAD_DER || fault == FAULT_BAD_DER_TIME || fault == FAULT_EXTENSION_VALUE_INVALID
}

/// Whether webpki's error of this number says that something is not supported.
pub open spec fn is_unsupported(fault: u8) -> bool {
    FAULT_UNSUPPORTED_CERT_VERSION <= fault <= FAULT_UNSUPPORTED_SIGNATURE_ALGORITHM
}

/// The failure that webpki's error of this number stands for: a general one
/// where the chain could not be looked at, else a failure to verify.
pub open spec fn chain_failure(fault: u8) -> InvalidCrtView {
    if is_malformed(fault) {
        InvalidCrtView::General(GeneralError::Malformed(fault))
    } else if is_unsupported(fault) {
        InvalidCrtView::General(GeneralError::Unsupported(fault))
    } else {
        InvalidCrtView::Verify(fault)
    }
}

/// Tells the failure that webpki's error of this number stands for.
pub fn classify_fault(fault: u8) -> (failure: InvalidCrt)
    ensures
        failure@ == chain_failure(fault),
{
    if fault == FAULT_BAD_DER || fault == FAULT_BAD_DER_TIME || fault
        == FAULT_EXTENSION_VALUE_INVALID {
        InvalidCrt::General(GeneralError::Malformed(fault))
    } else if FAULT_UNSUPPORTED_CERT_VERSION <= fault && fault
        <= FAULT_UNSUPPORTED_SIGNATURE_ALGORITHM {
        InvalidCrt::General(GeneralError::Unsupported(fault))
    } else {
        InvalidCrt::Verify(fault)
    }
}

/// A DER-encoded X.509 certificate signing request. It is not empty.
#[derive(Debug)]
pub struct Csr {
    der: Vec<u8>,
}

impl View for Csr {
    type V = Seq<u8>;

    closed spec fn view(&self) -> Seq<u8> {
        self.der@
    }
}

impl Csr {
    #[verifier::type_invariant]
    closed spec fn well_formed(&self) -> bool {
        self.der@.len() > 0
    }

    /// A request made of `der`, unless `der` is empty.
    pub fn from_der(der: Vec<u8>) -> (csr: Option<Csr>)
        ensures
            csr is Some <==> der@.len() > 0,
            csr matches Some(c) ==> c@ == der@,
    {
        if der.len() == 0 {
            return None;
        }
        Some(Csr { der })
    }

    /// The bytes of the request, of which there is at least one.
    pub fn to_vec(&self) -> (der: Vec<u8>)
        ensures
            der@ == self@,
            der@.len() > 0,
    {
        proof {
            use_type_invariant(self);
        }
        crate::name::copy_bytes(self.der.as_slice())
    }
}

impl Clone for Csr {
    /// A request of the same bytes.
    fn clone(&self) -> (copy: Self)
        ensures
            copy@ == self@,
    {
        Csr { der: self.to_vec() }
    }
}

/// A token could not be used.
#[derive(Clone, Copy, Debug, PartialEq, Eq, Structural)]
pub enum TokenError {
    /// The token is empty.
    Empty,
}

/// The place of the token that proves the workload's identity to the
/// authority that issues its certificate. Reading it is the caller's part;
/// what it holds is judged here.
#[derive(Debug)]
pub struct TokenSource {
    path: String,
}

impl TokenSource {
    /// The place `p`, given what it holds now: refused if that is empty.
    pub fn if_nonempty_file(p: String, contents: &[u8]) -> (source: Result<TokenSource, TokenError>)
        ensures
            source is Ok <==> contents@.len() > 0,
            source matches Ok(s) ==> s.path() == p,
    {
        let ts = TokenSource { path: p };
        match ts.load(contents) {
            Ok(_) => Ok(ts),
            Err(e) => Err(e),
        }
    }

    /// The token that was read from this place: `contents`, unless it is
    /// empty.
    pub fn load(&self, contents: &[u8]) -> (token: Result<Vec<u8>, TokenError>)
        ensures
            token is Ok <==> contents@.len() > 0,
            token matches Ok(t) ==> t@ == contents@,
    {
        if contents.len() == 0 {
            return Err(TokenError::Empty);
        }
        Ok(crate::name::copy_bytes(contents))
    }

    /// The place as it was given.
    pub closed spec fn path(&self) -> String {
        self.path
    }

    /// The place as it was given.
    pub fn as_path(&self) -> (path: &String)
        ensures
            *path == self.path(),
    {
        &self.path
    }
}

impl Clone for TokenSource {
    /// The same place once more.
    fn clone(&self) -> (copy: Self)
        ensures
            copy.path() == self.path(),
    {
        TokenSource { path: self.path.clone() }
    }
}

/// A certificate that was issued to the workload and has not been verified:
/// the identity that it is meant for, the chain with the leaf first, and the
/// time at which it expires.
#[derive(Debug)]
pub struct Crt {
    id: LocalId,
    expiry: SystemTime,
    chain: Vec<Vec<u8>>,
}

/// `Crt` over plain values.
pub struct CrtView {
    pub id: Seq<u8>,
    pub expiry: SystemTime,
    pub chain: Seq<Seq<u8>>,
}

impl View for Crt {
    type V = CrtView;

    closed spec fn view(&self) -> CrtView {
        CrtView { id: self.id.0@, expiry: self.expiry, chain: views(self.chain@) }
    }
}

impl Crt {
    #[verifier::type_invariant]
    closed spec fn well_formed(&self) -> bool {
        self.chain@.len() > 0
    }

    /// The certificate `leaf` for `id`, with the certificates that lead from
    /// it towards a root, in that order.
    pub fn new(id: LocalId, leaf: Vec<u8>, intermediates: Vec<Vec<u8>>, expiry: SystemTime) -> (crt:
        Crt)
        ensures
            crt@ == (CrtView {
                id: id.0@,
                expiry,
                chain: seq![leaf@] + views(intermediates@),
            }),
    {
        let mut chain: Vec<Vec<u8>> = Vec::new();
        let mut rest = intermediates;
        chain.push(leaf);
        chain.append(&mut rest);
        assert(views(chain@) =~= seq![leaf@] + views(intermediates@));
        Crt { id, expiry, chain }
    }

    /// The name that the certificate is meant for.
    pub fn name(&self) -> (name: &Name)
        ensures
            name@ == self@.id,
    {
        &self.id.0
    }

    /// The identity that the certificate is meant for.
    pub fn id(&self) -> (id: &LocalId)
        ensures
            id.0@ == self@.id,
    {
        &self.id
    }
}

impl Clone for Crt {
    /// The same certificate once more, for the same identity.
    fn clone(&self) -> (copy: Self)
        ensures
            copy@ == self@,
    {
        proof {
            use_type_invariant(self);
        }
        let chain = copy_all(&self.chain);
        assert(chain@.len() == views(chain@).len());
        assert(self.chain@.len() == views(self.chain@).len());
        Crt { id: self.id.clone(), expiry: self.expiry, chain }
    }
}

/// The certificates, among `ders`, that can serve as trust anchors.
pub open spec fn anchors_among(ders: Seq<Seq<u8>>) -> Seq<Seq<u8>> {
    ders.filter(|der: Seq<u8>| is_trust_anchor(der))
}

/// The trust anchors that one certificate block gives: those among its
/// certificates, and none where the block does not decode.
pub open spec fn block_anchors(block: Seq<char>) -> Seq<Seq<u8>> {
    match pem_certificates(block) {
        Some(ders) => anchors_among(ders),
        None => Seq::empty(),
    }
}

/// The trust anchors that the blocks give, block after block.
pub open spec fn anchors_in(blocks: Seq<Seq<char>>) -> Seq<Seq<u8>>
    decreases blocks.len(),
{
    if blocks.len() == 0 {
        Seq::empty()
    } else {
        anchors_in(blocks.drop_last()) + block_anchors(blocks.last())
    }
}

/// The trust anchors that a PEM text gives, in their order: those of each of
/// its certificate blocks that decodes. A block that does not decode, or holds
/// what cannot serve as a trust anchor, takes nothing from the others.
pub open spec fn usable_anchors(text: Seq<char>) -> Seq<Seq<u8>> {
    anchors_in(certificate_blocks(text))
}

/// The roots that certificates are verified against. They do not change.
pub struct TrustAnchors {
    roots: Vec<Vec<u8>>,
    enable_tickets: bool,
}

impl View for TrustAnchors {
    type V = Seq<Seq<u8>>;

    closed spec fn view(&self) -> Seq<Seq<u8>> {
        views(self.roots@)
    }
}

impl Clone for TrustAnchors {
    /// The same roots once more.
    fn clone(&self) -> (copy: Self)
        ensures
            copy@ == self@,
            copy.takes_tickets() == self.takes_tickets(),
    {
        proof {
            use_type_invariant(self);
        }
        let roots = copy_all(&self.roots);
        assert(roots@.len() == views(roots@).len());
        assert(self.roots@.len() == views(self.roots@).len());
        assert forall|i: int| 0 <= i < roots@.len() implies is_trust_anchor(
            #[trigger] roots@[i]@,
        ) by {
            assert(roots@[i]@ == views(roots@)[i]);
            assert(self.roots@[i]@ == views(self.roots@)[i]);
        }
        TrustAnchors { roots, enable_tickets: self.enable_tickets }
    }
}

/// `CrtKey` over plain values.
pub struct CrtKeyView {
    pub id: Seq<u8>,
    pub expiry: SystemTime,
    pub client_config: ClientConfigView,
    pub server_config: ServerConfigView,
}

/// The bundle that certifying gives: the certificate's identity and expiry, a
/// client configuration that presents the chain with the key, verifies
/// servers against the roots and resumes no session, and a server
/// configuration that presents the
/// same, asks clients for a certificate without insisting on one, verifies
/// what they present against the roots, and speaks TLS 1.2 and 1.3.
pub open spec fn bundle(roots: Seq<Seq<u8>>, key: Key, crt: CrtView) -> CrtKeyView {
    let presented = CertifiedKeyView { cert: crt.chain, key };
    CrtKeyView {
        id: crt.id,
        expiry: crt.expiry,
        client_config: ClientConfigView {
            protocols: Seq::empty(),
            roots,
            identity: Some(presented),
            enable_tickets: false,
        },
        server_config: ServerConfigView {
            alpn_protocols: Seq::empty(),
            roots,
            identity: Some(presented),
            client_auth: ClientAuth::Requested,
            versions: seq![TLS_1_2, TLS_1_3],
        },
    }
}

/// What certifying `crt` with `key` against `roots` comes to when the clock
/// reads `now`, in seconds since the Unix epoch, or reads nothing usable.
///
/// First the leaf must be valid for the identity. Then the time must be
/// known. Then the chain must verify against the roots at that time.
pub open spec fn certified(roots: Seq<Seq<u8>>, key: Key, crt: CrtView, now: Option<u64>) -> Result<
    CrtKeyView,
    InvalidCrtView,
> {
    if !leaf_names(crt.chain[0], crt.id) {
        Err(InvalidCrtView::SubjectAltName(crt.id))
    } else {
        match now {
            None => Err(InvalidCrtView::General(GeneralError::NoCurrentTime)),
            Some(now) => match chain_fault(roots, crt.chain, now) {
                Some(fault) => Err(chain_failure(fault)),
                None => Ok(bundle(roots, key, crt)),
            },
        }
    }
}

/// A certified credential: a certificate that was verified against the trust
/// anchors, bound to its key, with what a TLS client and a TLS server need to
/// present it. It does not change.
pub struct CrtKey {
    id: LocalId,
    expiry: SystemTime,
    client_config: ClientConfig,
    server_config: ServerConfig,
}

impl View for CrtKey {
    type V = CrtKeyView;

    closed spec fn view(&self) -> CrtKeyView {
        CrtKeyView {
            id: self.id.0@,
            expiry: self.expiry,
            client_config: self.client_config@,
            server_config: self.server_config@,
        }
    }
}

impl Clone for CrtKey {
    /// The same credential once more, sharing the key.
    fn clone(&self) -> (copy: Self)
        ensures
            copy@ == self@,
    {
        CrtKey {
            id: self.id.clone(),
            expiry: self.expiry,
            client_config: self.client_config.clone(),
            server_config: self.server_config.clone(),
        }
    }
}

/// The outcome of certifying over plain values.
pub open spec fn outcome_view(outcome: Result<CrtKey, InvalidCrt>) -> Result<
    CrtKeyView,
    InvalidCrtView,
> {
    match outcome {
        Ok(bundle) => Ok(bundle@),
        Err(error) => Err(error@),
    }
}

impl CrtKey {
    /// The name that was certified.
    pub fn name(&self) -> (name: &Name)
        ensures
            name@ == self@.id,
    {
        &self.id.0
    }

    /// The time at which the certificate expires. It is for whoever schedules
    /// the renewal: the bundle itself does not act on it.
    pub fn expiry(&self) -> (expiry: SystemTime)
        ensures
            expiry == self@.expiry,
    {
        self.expiry
    }

    /// The identity that was certified.
    pub fn id(&self) -> (id: &LocalId)
        ensures
            id.0@ == self@.id,
    {
        &self.id
    }

    /// What a TLS client needs to present this credential.
    pub fn client_config(&self) -> (config: &ClientConfig)
        ensures
            config@ == self@.client_config,
    {
        &self.client_config
    }

    /// What a TLS server needs to present this credential.
    pub fn server_config(&self) -> (config: &ServerConfig)
        ensures
            config@ == self@.server_config,
    {
        &self.server_config
    }
}

/// Adds to `roots` the certificates, among `ders`, that can serve as trust
/// anchors, in their order.
fn keep_anchors(ders: &Vec<Vec<u8>>, roots: &mut Vec<Vec<u8>>)
    requires
        forall|j: int| 0 <= j < old(roots)@.len() ==> is_trust_anchor(#[trigger] old(roots)@[j]@),
    ensures
        views(final(roots)@) == views(old(roots)@) + anchors_among(views(ders@)),
        forall|j: int|
            0 <= j < final(roots)@.len() ==> is_trust_anchor(#[trigger] final(roots)@[j]@),
{
    let ghost all = views(ders@);
    let ghost first = views(roots@);
    let ghost usable = |der: Seq<u8>| is_trust_anchor(der);
    let mut i: usize = 0;
    proof {
        reveal(Seq::filter);
        assert(all.take(0) =~= Seq::empty());
        assert(first + all.take(0).filter(usable) =~= first);
    }
    while i < ders.len()
        invariant
            i <= ders.len(),
            all == views(ders@),
            usable == (|der: Seq<u8>| is_trust_anchor(der)),
            views(roots@) == first + all.take(i as int).filter(usable),
            forall|j: int| 0 <= j < roots@.len() ==> is_trust_anchor(#[trigger] roots@[j]@),
        decreases ders.len() - i,
    {
        let ghost before = views(roots@);
        let keep = can_anchor(ders[i].as_slice());
        if keep {
            roots.push(copy_bytes(ders[i].as_slice()));
        }
        proof {
            reveal(Seq::filter);
            let next = all.take(i + 1);
            assert(next.drop_last() =~= all.take(i as int));
            assert(next.last() == ders@[i as int]@);
            if keep {
                assert(views(roots@) =~= before.push(ders@[i as int]@));
                assert(first + all.take(i as int).filter(usable).push(ders@[i as int]@)
                    =~= before.push(ders@[i as int]@));
            } else {
                assert(views(roots@) =~= before);
            }
        }
        i += 1;
    }
    proof {
        assert(all.take(ders@.len() as int) =~= all);
    }
}

impl TrustAnchors {
    #[verifier::type_invariant]
    closed spec fn well_formed(&self) -> bool {
        &&& forall|i: int|
            0 <= i < self.roots@.len() ==> is_trust_anchor(#[trigger] self.roots@[i]@)
        &&& self.enable_tickets ==> self.roots@.len() == 0
    }

    /// Whether a client that verifies servers against these roots takes
    /// session tickets. It does not where there is a root: roots that were
    /// loaded come with session resumption switched off.
    pub closed spec fn takes_tickets(&self) -> bool {
        self.enable_tickets
    }

    /// No root at all, and nothing else set.
    pub fn empty() -> (anchors: TrustAnchors)
        ensures
            anchors@ == Seq::<Seq<u8>>::empty(),
            anchors.takes_tickets(),
    {
        let anchors = TrustAnchors { roots: Vec::new(), enable_tickets: true };
        assert(anchors@ =~= Seq::<Seq<u8>>::empty());
        anchors
    }

    /// The trust anchors in a PEM text of certificates. The text is taken
    /// block by block: a block that does not decode is passed over, and so is
    /// a certificate that cannot serve as a trust anchor. A text that holds no
    /// usable one gives nothing. Roots that are loaded come with session
    /// resumption switched off.
    pub fn from_pem(s: &str) -> (anchors: Option<TrustAnchors>)
        ensures
            anchors is None <==> usable_anchors(s@).len() == 0,
            anchors matches Some(found) ==> found@ == usable_anchors(s@),
            anchors matches Some(found) ==> !found.takes_tickets(),
    {
        let text = chars_of(s);
        let ranges = find_blocks(&text);
        let ghost blocks = certificate_blocks(s@);
        let mut roots: Vec<Vec<u8>> = Vec::new();
        let mut k: usize = 0;
        proof {
            assert(blocks.take(0) =~= Seq::empty());
            assert(views(roots@) =~= Seq::empty());
        }
        while k < ranges.len()
            invariant
                k <= ranges.len(),
                text@ == s@,
                blocks == cut(text@, ranges@),
                forall|j: int|
                    0 <= j < ranges@.len() ==> (#[trigger] ranges@[j]).0 <= ranges@[j].1
                        <= text@.len(),
                views(roots@) == anchors_in(blocks.take(k as int)),
                forall|j: int| 0 <= j < roots@.len() ==> is_trust_anchor(#[trigger] roots@[j]@),
            decreases ranges.len() - k,
        {
            let ghost before = views(roots@);
            let (from, to) = ranges[k];
            let block = s.substring_char(from, to);
            match read_pem_certificates(block) {
                Some(ders) => {
                    keep_anchors(&ders, &mut roots);
                },
                None => {
                    assert(before + Seq::<Seq<u8>>::empty() =~= before);
                },
            }
            proof {
                let next = blocks.take(k + 1);
                assert(next.drop_last() =~= blocks.take(k as int));
                assert(next.last() == block@);
            }
            k += 1;
        }
        proof {
            assert(blocks.take(ranges@.len() as int) =~= blocks);
        }
        if roots.len() == 0 {
            return None;
        }
        Some(TrustAnchors { roots, enable_tickets: false })
    }

    /// What a TLS client needs to verify servers against these roots, without
    /// a certificate of its own.
    pub fn client_config(&self) -> (config: ClientConfig)
        ensures
            config@ == (ClientConfigView {
                protocols: Seq::empty(),
                roots: self@,
                identity: None,
                enable_tickets: self.takes_tickets(),
            }),
            self@.len() > 0 ==> !config@.enable_tickets,
    {
        proof {
            use_type_invariant(self);
        }
        ClientConfig::with_identity(copy_all(&self.roots), None, self.enable_tickets)
    }

    /// Certifies `crt` with `key` as of the time `now`, in seconds since the
    /// Unix epoch. Without a root nothing is certified.
    pub fn certify_at(&self, key: Key, crt: Crt, now: u64) -> (outcome: Result<CrtKey, InvalidCrt>)
        ensures
            outcome_view(outcome) == certified(self@, key, crt@, Some(now)),
            self@.len() == 0 ==> outcome is Err,
    {
        self.certify_with(key, crt, Some(now))
    }

    /// Certifies `crt` with `key` as of now: the leaf must be valid for the
    /// certificate's identity, whatever the clock reads, and the chain must
    /// verify against these roots at the time that the clock reads. Without a
    /// root nothing is certified.
    pub fn certify(&self, key: Key, crt: Crt) -> (outcome: Result<CrtKey, InvalidCrt>)
        ensures
            exists|now: Option<u64>| outcome_view(outcome) == #[trigger] certified(
                self@,
                key,
                crt@,
                now,
            ),
            !leaf_names(crt@.chain[0], crt@.id) ==> outcome_view(outcome) == Err::<
                CrtKeyView,
                InvalidCrtView,
            >(InvalidCrtView::SubjectAltName(crt@.id)),
            outcome matches Ok(made) ==> made@ == bundle(self@, key, crt@) && leaf_names(
                crt@.chain[0],
                crt@.id,
            ),
            self@.len() == 0 ==> outcome is Err,
    {
        let t = clock_now();
        let now = unix_seconds(&t);
        self.certify_with(key, crt, now)
    }

    /// Certifies `crt` with `key`, given what the clock reads.
    fn certify_with(&self, key: Key, crt: Crt, now: Option<u64>) -> (outcome: Result<
        CrtKey,
        InvalidCrt,
    >)
        ensures
            outcome_view(outcome) == certified(self@, key, crt@, now),
            self@.len() == 0 ==> outcome is Err,
    {
        proof {
            use_type_invariant(&crt);
            use_type_invariant(self);
        }
        let Crt { id, expiry, chain } = crt;
        if !leaf_is_valid_for(chain[0].as_slice(), id.0.as_bytes()) {
            return Err(InvalidCrt::SubjectAltName(id.0));
        }
        let now = match now {
            Some(now) => now,
            None => { return Err(InvalidCrt::General(GeneralError::NoCurrentTime)); },
        };
        match verify_chain(&self.roots, &chain, now) {
            Some(fault) => { return Err(classify_fault(fault)); },
            None => {},
        }
        let signing = SigningKey::new(key);
        let for_client = CertResolver(CertifiedKey { cert: copy_all(&chain), key: signing.share() });
        let for_server = CertResolver(CertifiedKey { cert: chain, key: signing });
        let client_config = ClientConfig::with_identity(
            copy_all(&self.roots),
            Some(for_client),
            self.enable_tickets,
        );
        let server_config = ServerConfig::with_identity(copy_all(&self.roots), for_server);
        Ok(CrtKey { id, expiry, client_config, server_config })
    }
}

/// A certificate whose leaf is valid for its identity and whose chain verifies
/// against the roots is certified, and the bundle has the certificate's name
/// and its expiry.
pub proof fn lemma_valid_is_certified(roots: Seq<Seq<u8>>, key: Key, crt: CrtView, now: u64)
    requires
        crt.chain.len() > 0,
        leaf_names(crt.chain[0], crt.id),
        chain_fault(roots, crt.chain, now) is None,
    ensures
        certified(roots, key, crt, Some(now)) matches Ok(bundle) && bundle.id == crt.id
            && bundle.expiry == crt.expiry,
{
}

/// A certificate whose leaf is not valid for its identity is refused for that,
/// whether its chain verifies or not and whatever the clock reads.
pub proof fn lemma_wrong_name_is_refused(
    roots: Seq<Seq<u8>>,
    key: Key,
    crt: CrtView,
    now: Option<u64>,
)
    requires
        crt.chain.len() > 0,
        !leaf_names(crt.chain[0], crt.id),
    ensures
        certified(roots, key, crt, now) == Err::<CrtKeyView, InvalidCrtView>(
            InvalidCrtView::SubjectAltName(crt.id),
        ),
{
}

/// Certifying again gives the same again: two bundles for the same roots, key
/// and certificate are equal, whenever each was made.
pub proof fn lemma_certified_again(
    roots: Seq<Seq<u8>>,
    key: Key,
    crt: CrtView,
    first: Option<u64>,
    second: Option<u64>,
)
    requires
        crt.chain.len() > 0,
        certified(roots, key, crt, first) is Ok,
        certified(roots, key, crt, second) is Ok,
    ensures
        certified(roots, key, crt, first) == certified(roots, key, crt, second),
{
}

/// A certificate whose chain leads to no trust anchor fails to verify, and the
/// failure carries webpki's error for that.
pub proof fn lemma_untrusted_is_refused(roots: Seq<Seq<u8>>, key: Key, crt: CrtView, now: u64)
    requires
        crt.chain.len() > 0,
        leaf_names(crt.chain[0], crt.id),
        chain_fault(roots, crt.chain, now) == Some(FAULT_UNKNOWN_ISSUER),
    ensures
        certified(roots, key, crt, Some(now)) == Err::<CrtKeyView, InvalidCrtView>(
            InvalidCrtView::Verify(FAULT_UNKNOWN_ISSUER),
        ),
{
}

/// A certificate whose leaf is valid for its identity and whose chain verifies
/// at no time is refused whatever the clock reads, and never for its name:
/// where the clock reads a time the failure is the chain's at that time, and
/// where it reads none the failure is the clock's.
pub proof fn lemma_untrusted_whatever_the_clock(
    roots: Seq<Seq<u8>>,
    key: Key,
    crt: CrtView,
    reading: Option<u64>,
)
    requires
        crt.chain.len() > 0,
        leaf_names(crt.chain[0], crt.id),
        forall|now: u64| (#[trigger] chain_fault(roots, crt.chain, now)) is Some,
    ensures
        certified(roots, key, crt, reading) == Err::<CrtKeyView, InvalidCrtView>(
            match reading {
                Some(now) => chain_failure(chain_fault(roots, crt.chain, now).unwrap()),
                None => InvalidCrtView::General(GeneralError::NoCurrentTime),
            },
        ),
{
}

/// The trust anchors of blocks that follow one another are those of the
/// first blocks, then those of the blocks behind them.
pub proof fn lemma_anchors_in_order(first: Seq<Seq<char>>, second: Seq<Seq<char>>)
    ensures
        anchors_in(first + second) == anchors_in(first) + anchors_in(second),
    decreases second.len(),
{
    if second.len() == 0 {
        assert(first + second =~= first);
        assert(anchors_in(first) + Seq::<Seq<u8>>::empty() =~= anchors_in(first));
    } else {
        let last = block_anchors(second.last());
        assert((first + second).drop_last() =~= first + second.drop_last());
        assert((first + second).last() == second.last());
        lemma_anchors_in_order(first, second.drop_last());
        assert((anchors_in(first) + anchors_in(second.drop_last())) + last =~= anchors_in(first) + (
        anchors_in(second.drop_last()) + last));
    }
}

/// Two texts written one after the other give the trust anchors of the first
/// and then those of the second, where the first ends with a line and leaves
/// no block open.
pub proof fn lemma_anchors_of_joined_texts(first: Seq<char>, second: Seq<char>)
    requires
        is_whole(first),
    ensures
        usable_anchors(first + second) == usable_anchors(first) + usable_anchors(second),
{
    lemma_blocks_of_joined_texts(first, second);
    lemma_anchors_in_order(certificate_blocks(first), certificate_blocks(second));
}

/// An entry that gives no trust anchor, because it does not decode or holds
/// no usable certificate, neither adds to what the text around it gives nor
/// takes from it, whether it stands before that text or behind it.
pub proof fn lemma_useless_entry_is_passed_over(good: Seq<char>, bad: Seq<char>)
    requires
        usable_anchors(bad).len() == 0,
    ensures
        is_whole(bad) ==> usable_anchors(bad + good) == usable_anchors(good),
        is_whole(good) ==> usable_anchors(good + bad) == usable_anchors(good),
{
    if is_whole(bad) {
        lemma_anchors_of_joined_texts(bad, good);
        assert(usable_anchors(bad) + usable_anchors(good) =~= usable_anchors(good));
    }
    if is_whole(good) {
        lemma_anchors_of_joined_texts(good, bad);
        assert(usable_anchors(good) + usable_anchors(bad) =~= usable_anchors(good));
    }
}

} // verus!
