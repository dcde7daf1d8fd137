//! Reading the server name out of the first bytes of a TLS connection.
//!
//! Only as much of a ClientHello is read as it takes to reach the
//! `server_name` extension. Each layer (record, handshake message, ClientHello
//! body, extension list, extension) declares its own length; an inner layer
//! that does not fit inside the outer one makes the input no ClientHello, and
//! only a record that has not arrived in full leaves the question open.

use crate::name::{lower, name_accepts, Name, ServerId};
use vstd::prelude::*;

verus! {

/// The record type of handshake messages.
pub const CONTENT_TYPE_HANDSHAKE: u8 = 22;

/// The handshake type of a ClientHello.
pub const HANDSHAKE_TYPE_CLIENT_HELLO: u8 = 1;

/// The extension type of `server_name`.
pub const EXTENSION_SERVER_NAME: u16 = 0;

/// The name type of a host name inside `server_name`.
pub const NAME_TYPE_HOST_NAME: u8 = 0;

/// The longest record body that is still taken for a ClientHello.
pub const MAX_RECORD_LENGTH: usize = 8192;

/// The bytes of a record before its body: type, version and length.
pub const RECORD_HEADER_LENGTH: usize = 5;

/// The input ended before the first record did.
#[derive(Clone, Copy, Debug, PartialEq, Eq, Structural)]
pub struct Incomplete;

/// What the first bytes of a connection say about the server name.
pub enum Sni {
    /// The first record has not arrived in full, and nothing seen so far rules
    /// a ClientHello out.
    Incomplete,
    /// This is no ClientHello that names a server.
    NoMatch,
    /// A ClientHello whose `server_name` extension holds these bytes.
    HostName(Seq<u8>),
}

/// The big-endian 16-bit number at `at`.
pub open spec fn be16(s: Seq<u8>, at: int) -> int {
    s[at] as int * 256 + s[at + 1] as int
}

/// The contents of the vector that starts at `at` with a 16-bit length, if all
/// of it lies inside `s`.
pub open spec fn vec16(s: Seq<u8>, at: int) -> Option<Seq<u8>> {
    if 0 <= at && at + 2 <= s.len() && at + 2 + be16(s, at) <= s.len() {
        Some(s.subrange(at + 2, at + 2 + be16(s, at)))
    } else {
        None
    }
}

/// The contents of the vector that starts at `at` with an 8-bit length, if all
/// of it lies inside `s`.
pub open spec fn vec8(s: Seq<u8>, at: int) -> Option<Seq<u8>> {
    if 0 <= at && at + 1 <= s.len() && at + 1 + s[at] as int <= s.len() {
        Some(s.subrange(at + 1, at + 1 + s[at] as int))
    } else {
        None
    }
}

/// The body of the ClientHello with which the record starts: handshake type 1
/// and a 24-bit length whose first byte is 0.
pub open spec fn hello_body(record: Seq<u8>) -> Option<Seq<u8>> {
    if record.len() >= 2 && record[0] == HANDSHAKE_TYPE_CLIENT_HELLO && record[1] == 0 {
        vec16(record, 2)
    } else {
        None
    }
}

/// The extension list of a ClientHello body: what follows version 3.3, the 32
/// random bytes, the session id, the cipher suites and the compression
/// methods.
pub open spec fn hello_extensions(hello: Seq<u8>) -> Option<Seq<u8>> {
    if hello.len() >= 34 && hello[0] == 3 && hello[1] == 3 {
        match vec8(hello, 34) {
            Some(session) => match vec16(hello, 35 + session.len() as int) {
                Some(suites) => match vec8(hello, 37 + session.len() as int + suites.len() as int) {
                    Some(methods) => vec16(
                        hello,
                        38 + session.len() as int + suites.len() as int + methods.len() as int,
                    ),
                    None => None,
                },
                None => None,
            },
            None => None,
        }
    } else {
        None
    }
}

/// The data of the first `server_name` extension at or after `at`. Extensions
/// of other types are passed over; one that does not fit ends the search.
pub open spec fn server_name_extension(exts: Seq<u8>, at: int) -> Option<Seq<u8>>
    decreases exts.len() - at,
{
    if at < 0 || at + 4 > exts.len() {
        None
    } else {
        match vec16(exts, at + 2) {
            None => None,
            Some(data) => if be16(exts, at) == EXTENSION_SERVER_NAME {
                Some(data)
            } else {
                server_name_extension(exts, at + 4 + data.len() as int)
            },
        }
    }
}

/// The host name in the data of a `server_name` extension: the list must start
/// with an entry of type `host_name`.
pub open spec fn host_name(data: Seq<u8>) -> Option<Seq<u8>> {
    match vec16(data, 0) {
        Some(list) => if list.len() >= 1 && list[0] == NAME_TYPE_HOST_NAME {
            vec16(list, 1)
        } else {
            None
        },
        None => None,
    }
}

/// The host name that a complete record body asks for, if it is a ClientHello
/// with a `server_name` extension.
pub open spec fn record_host_name(record: Seq<u8>) -> Option<Seq<u8>> {
    match hello_body(record) {
        Some(hello) => match hello_extensions(hello) {
            Some(exts) => match server_name_extension(exts, 0) {
                Some(data) => host_name(data),
                None => None,
            },
            None => None,
        },
        None => None,
    }
}

/// What `input` says about the server name.
///
/// The record header must read: type 22, major version 3, minor version 1 or
/// 3, and a length of at most `MAX_RECORD_LENGTH`. A byte that contradicts
/// this decides at once; otherwise the whole record is waited for.
pub open spec fn sni_of(input: Seq<u8>) -> Sni {
    if input.len() < 1 {
        Sni::Incomplete
    } else if input[0] != CONTENT_TYPE_HANDSHAKE {
        Sni::NoMatch
    } else if input.len() < 2 {
        Sni::Incomplete
    } else if input[1] != 3 {
        Sni::NoMatch
    } else if input.len() < 3 {
        Sni::Incomplete
    } else if input[2] != 1 && input[2] != 3 {
        Sni::NoMatch
    } else if input.len() < 5 {
        Sni::Incomplete
    } else if be16(input, 3) > MAX_RECORD_LENGTH {
        Sni::NoMatch
    } else if input.len() < 5 + be16(input, 3) {
        Sni::Incomplete
    } else {
        match record_host_name(input.subrange(5, 5 + be16(input, 3))) {
            Some(name) => Sni::HostName(name),
            None => Sni::NoMatch,
        }
    }
}

/// Reads the big-endian 16-bit number at `at`.
fn read_u16(s: &[u8], at: usize) -> (n: usize)
    requires
        at + 2 <= s@.len(),
    ensures
        n == be16(s@, at as int),
        n <= 0xffff,
{
    let hi: usize = s[at] as usize;
    let lo: usize = s[at + 1] as usize;
    hi * 256 + lo
}

/// Reads the vector with a 16-bit length at `at`.
fn read_vec16(s: &[u8], at: usize) -> (v: Option<&[u8]>)
    ensures
        match v {
            Some(v) => vec16(s@, at as int) == Some(v@),
            None => vec16(s@, at as int) is None,
        },
{
    if s.len() < 2 || at > s.len() - 2 {
        return None;
    }
    let n = read_u16(s, at);
    if n > s.len() - 2 - at {
        return None;
    }
    Some(&s[at + 2..at + 2 + n])
}

/// Reads the vector with an 8-bit length at `at`.
fn read_vec8(s: &[u8], at: usize) -> (v: Option<&[u8]>)
    ensures
        match v {
            Some(v) => vec8(s@, at as int) == Some(v@),
            None => vec8(s@, at as int) is None,
        },
{
    if s.len() < 1 || at > s.len() - 1 {
        return None;
    }
    let n: usize = s[at] as usize;
    if n > s.len() - 1 - at {
        return None;
    }
    Some(&s[at + 1..at + 1 + n])
}

/// Finds the body of the ClientHello at the start of a record.
fn read_hello_body(record: &[u8]) -> (v: Option<&[u8]>)
    ensures
        match v {
            Some(v) => hello_body(record@) == Some(v@),
            None => hello_body(record@) is None,
        },
{
    if record.len() < 2 || record[0] != HANDSHAKE_TYPE_CLIENT_HELLO || record[1] != 0 {
        return None;
    }
    read_vec16(record, 2)
}

/// Finds the extension list of a ClientHello body.
fn read_hello_extensions(hello: &[u8]) -> (v: Option<&[u8]>)
    ensures
        match v {
            Some(v) => hello_extensions(hello@) == Some(v@),
            None => hello_extensions(hello@) is None,
        },
{
    if hello.len() < 34 || hello[0] != 3 || hello[1] != 3 {
        return None;
    }
    let session = match read_vec8(hello, 34) {
        Some(v) => v,
        None => { return None; },
    };
    let at: usize = 35 + session.len();
    let suites = match read_vec16(hello, at) {
        Some(v) => v,
        None => { return None; },
    };
    let at: usize = at + 2 + suites.len();
    let methods = match read_vec8(hello, at) {
        Some(v) => v,
        None => { return None; },
    };
    let at: usize = at + 1 + methods.len();
    read_vec16(hello, at)
}

/// Finds the data of the first `server_name` extension.
fn read_server_name_extension(exts: &[u8]) -> (v: Option<&[u8]>)
    ensures
        match v {
            Some(v) => server_name_extension(exts@, 0) == Some(v@),
            None => server_name_extension(exts@, 0) is None,
        },
{
    let mut at: usize = 0;
    while exts.len() >= 4 && at <= exts.len() - 4
        invariant
            at <= exts@.len(),
            server_name_extension(exts@, 0) == server_name_extension(exts@, at as int),
        decreases exts@.len() - at,
    {
        let kind = read_u16(exts, at);
        let data = match read_vec16(exts, at + 2) {
            Some(v) => v,
            None => { return None; },
        };
        if kind == 0 {
            return Some(data);
        }
        at = at + 4 + data.len();
    }
    None
}

/// Finds the host name in the data of a `server_name` extension.
fn read_host_name(data: &[u8]) -> (v: Option<&[u8]>)
    ensures
        match v {
            Some(v) => host_name(data@) == Some(v@),
            None => host_name(data@) is None,
        },
{
    let list = match read_vec16(data, 0) {
        Some(v) => v,
        None => { return None; },
    };
    if list.len() < 1 || list[0] != NAME_TYPE_HOST_NAME {
        return None;
    }
    read_vec16(list, 1)
}

/// Finds the host name that a complete record body asks for.
fn read_record_host_name(record: &[u8]) -> (v: Option<&[u8]>)
    ensures
        match v {
            Some(v) => record_host_name(record@) == Some(v@),
            None => record_host_name(record@) is None,
        },
{
    let hello = match read_hello_body(record) {
        Some(v) => v,
        None => { return None; },
    };
    let exts = match read_hello_extensions(hello) {
        Some(v) => v,
        None => { return None; },
    };
    let data = match read_server_name_extension(exts) {
        Some(v) => v,
        None => { return None; },
    };
    read_host_name(data)
}

/// Extracts the bytes of the requested server name from the start of a
/// connection, without judging whether they are a usable name.
///
/// `Err(Incomplete)` asks for more input, `Ok(None)` says that this is no
/// ClientHello naming a server, and `Ok(Some(bytes))` hands out the host name
/// as it was sent.
pub fn extract_sni(input: &[u8]) -> (found: Result<Option<&[u8]>, Incomplete>)
    ensures
        match found {
            Err(_) => sni_of(input@) is Incomplete,
            Ok(None) => sni_of(input@) is NoMatch,
            Ok(Some(bytes)) => sni_of(input@) == Sni::HostName(bytes@),
        },
{
    let len = input.len();
    if len < 1 {
        return Err(Incomplete);
    }
    if input[0] != CONTENT_TYPE_HANDSHAKE {
        return Ok(None);
    }
    if len < 2 {
        return Err(Incomplete);
    }
    if input[1] != 3 {
        return Ok(None);
    }
    if len < 3 {
        return Err(Incomplete);
    }
    if input[2] != 1 && input[2] != 3 {
        return Ok(None);
    }
    if len < RECORD_HEADER_LENGTH {
        return Err(Incomplete);
    }
    let n = read_u16(input, 3);
    if n > MAX_RECORD_LENGTH {
        return Ok(None);
    }
    if len - RECORD_HEADER_LENGTH < n {
        return Err(Incomplete);
    }
    Ok(read_record_host_name(&input[RECORD_HEADER_LENGTH..RECORD_HEADER_LENGTH + n]))
}

/// The server identity that the start of a connection asks for.
///
/// `Err(Incomplete)` asks for more input. `Ok(Some(id))` is given for a
/// ClientHello whose `server_name` is a usable name, which `id` holds in lower
/// case. Everything else is `Ok(None)`.
pub fn parse_sni(input: &[u8]) -> (parsed: Result<Option<ServerId>, Incomplete>)
    ensures
        match sni_of(input@) {
            Sni::Incomplete => parsed is Err,
            Sni::NoMatch => parsed matches Ok(None),
            Sni::HostName(h) => if name_accepts(h) {
                parsed matches Ok(Some(id)) && id.0@ == lower(h)
            } else {
                parsed matches Ok(None)
            },
        },
{
    match extract_sni(input) {
        Err(e) => Err(e),
        Ok(None) => Ok(None),
        Ok(Some(bytes)) => match Name::from_bytes(bytes) {
            Ok(name) => Ok(Some(ServerId(name))),
            Err(_) => Ok(None),
        },
    }
}

/// Once the input decides, more input changes nothing: every extension of a
/// decided input decides alike.
pub proof fn lemma_decided_prefix(short: Seq<u8>, long: Seq<u8>)
    requires
        short.is_prefix_of(long),
        !(sni_of(short) is Incomplete),
    ensures
        sni_of(long) == sni_of(short),
{
    assert(forall|i: int| 0 <= i < short.len() ==> short[i] == long[i]);
    if short.len() >= 5 && be16(short, 3) <= MAX_RECORD_LENGTH && short.len() >= 5 + be16(
        short,
        3,
    ) {
        assert(be16(long, 3) == be16(short, 3));
        assert(long.subrange(5, 5 + be16(long, 3)) =~= short.subrange(5, 5 + be16(short, 3)));
    }
}

/// Before the first record is complete, a well-formed header leaves the
/// question open: no proper prefix of such a record decides.
pub proof fn lemma_partial_record_is_incomplete(input: Seq<u8>, cut: int)
    requires
        sni_of(input) is HostName,
        0 <= cut < 5 + be16(input, 3),
        cut <= input.len(),
    ensures
        sni_of(input.take(cut)) is Incomplete,
{
    let short = input.take(cut);
    assert(forall|i: int| 0 <= i < short.len() ==> short[i] == input[i]);
    if cut >= 5 {
        assert(be16(short, 3) == be16(input, 3));
    }
}

} // verus!
