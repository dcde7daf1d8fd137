//! What a finished handshake says about the connection: who the peer is, and
//! which application protocol was agreed on.

use crate::detect::{NegotiatedProtocol, ServerTls, ServerTlsView};
use crate::name::{lower, name_accepts, ClientId, Name};
use vstd::prelude::*;

verus! {

/// The handshake failed. The connection is lost, and the handshake is not
/// tried again.
#[derive(Debug)]
pub struct HandshakeError {
    message: String,
}

impl HandshakeError {
    /// A failure that the TLS engine described as `message`.
    pub fn new(message: String) -> (error: HandshakeError)
        ensures
            error.message() == message,
    {
        HandshakeError { message }
    }

    /// The TLS engine's description of the failure.
    pub closed spec fn message(&self) -> String {
        self.message
    }

    /// The TLS engine's description of the failure.
    pub fn as_message(&self) -> (message: &String)
        ensures
            *message == self.message(),
    {
        &self.message
    }
}

/// What the TLS engine reports of a handshake that it has completed as a
/// server: the first DNS name among the subject alternative names of the
/// peer's certificate, if the peer presented a certificate with one, and the
/// application protocol that was agreed on, if any.
#[derive(Debug)]
pub struct Handshake {
    pub peer_name: Option<Vec<u8>>,
    pub negotiated_protocol: Option<Vec<u8>>,
}

/// Whether a name in a certificate stands for many names: it starts with `*`.
pub open spec fn is_wildcard(presented: Seq<u8>) -> bool {
    presented.len() > 0 && presented[0] == 0x2a
}

/// The identity that a peer has by the name in its certificate: the name in
/// lower case, if it is a usable name. A wildcard is the name of nobody.
pub open spec fn peer_identity(presented: Option<Seq<u8>>) -> Option<Seq<u8>> {
    match presented {
        Some(name) => if !is_wildcard(name) && name_accepts(name) {
            Some(lower(name))
        } else {
            None
        },
        None => None,
    }
}

/// The bytes of what may be there.
pub open spec fn optional_bytes(bytes: Option<Vec<u8>>) -> Option<Seq<u8>> {
    match bytes {
        Some(b) => Some(b@),
        None => None,
    }
}

/// The name of what may be there.
pub open spec fn optional_id(id: Option<ClientId>) -> Option<Seq<u8>> {
    match id {
        Some(id) => Some(id.0@),
        None => None,
    }
}

/// The identity of a peer whose certificate presents `presented` as its first
/// DNS name. A peer without a certificate has none, and neither has one whose
/// certificate names a wildcard or something that is no usable name.
pub fn client_identity(presented: Option<&[u8]>) -> (id: Option<ClientId>)
    ensures
        optional_id(id) == peer_identity(
            match presented {
                Some(name) => Some(name@),
                None => None,
            },
        ),
{
    let name = match presented {
        Some(name) => name,
        None => { return None; },
    };
    if name.len() > 0 && name[0] == 0x2a {
        return None;
    }
    match Name::from_bytes(name) {
        Ok(name) => Some(ClientId(name)),
        Err(_) => None,
    }
}

/// How a connection is described once its handshake has ended: as established
/// TLS with the peer's identity and the protocol agreed on, or not at all,
/// where the handshake failed.
pub fn established(handshake: Result<Handshake, HandshakeError>) -> (tls: Result<
    ServerTls,
    HandshakeError,
>)
    ensures
        match handshake {
            Ok(done) => tls matches Ok(found) && found@ == (ServerTlsView::Established {
                client_id: peer_identity(optional_bytes(done.peer_name)),
                negotiated_protocol: optional_bytes(done.negotiated_protocol),
            }),
            Err(error) => tls matches Err(e) && e == error,
        },
{
    match handshake {
        Ok(done) => {
            let Handshake { peer_name, negotiated_protocol } = done;
            let client_id = match &peer_name {
                Some(name) => client_identity(Some(name.as_slice())),
                None => client_identity(None),
            };
            let negotiated_protocol = match negotiated_protocol {
                Some(p) => Some(NegotiatedProtocol(p)),
                None => None,
            };
            Ok(ServerTls::Established { client_id, negotiated_protocol })
        },
        Err(error) => Err(error),
    }
}

} // verus!
