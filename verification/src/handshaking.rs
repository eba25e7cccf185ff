//! The handshake: the first packet of a connection.

use crate::network_client::{read_spec, rest_spec, NetworkClient, NetworkClientView, StreamRead};
use crate::wire::{
    get_string, get_string_spec, get_u16, get_u16_spec, get_varint, get_varint_spec, read_base,
    read_base_spec, NetError,
};
use vstd::prelude::*;
use vstd::utf8::encode_utf8;

verus! {

/// The first stage that a client cannot ask for.
pub const STAGES: u32 = 3;

/// What a handshake says, as it stands in the packet.
pub struct HandshakeView {
    /// Protocol version of the client.
    pub version: u32,
    /// Address that the client connected to, in UTF-8.
    pub address: Seq<u8>,
    /// Port that the client connected to.
    pub port: u16,
    /// Stage that the client asks for.
    pub next_state: u32,
    /// Index behind the handshake.
    pub end: int,
}

/// The handshake at the start of `bytes`: length and kind of the packet,
/// then version, address, port and the stage asked for.
pub open spec fn handshake_spec(bytes: Seq<u8>) -> Option<HandshakeView> {
    match read_base_spec(bytes, 0) {
        Some((_, _, at_version)) => match get_varint_spec(bytes, at_version) {
            Some((version, at_address)) => match get_string_spec(bytes, at_address) {
                Some((address, at_port)) => match get_u16_spec(bytes, at_port) {
                    Some((port, at_state)) => match get_varint_spec(bytes, at_state) {
                        Some((next_state, end)) => Some(
                            HandshakeView { version, address, port, next_state, end },
                        ),
                        None => None,
                    },
                    None => None,
                },
                None => None,
            },
            None => None,
        },
        None => None,
    }
}

/// Reads the handshake at the start of `bytes` and gives version, address,
/// port and the stage asked for, with the index behind them.
pub fn parse_handshake(bytes: &[u8]) -> (r: Result<((u32, String, u16, u32), usize), NetError>)
    ensures
        match handshake_spec(bytes@) {
            Some(h) => match r {
                Ok(((version, address, port, next_state), end)) => {
                    &&& version == h.version
                    &&& encode_utf8(address@) == h.address
                    &&& port == h.port
                    &&& next_state == h.next_state
                    &&& end == h.end
                    &&& end <= bytes@.len()
                },
                Err(_) => false,
            },
            None => r.is_err() && r.unwrap_err() == NetError::Malformed,
        },
{
    let (_, _, at_version) = match read_base(bytes, 0) {
        Ok(read) => read,
        Err(e) => {
            return Err(e);
        },
    };
    let (version, at_address) = match get_varint(bytes, at_version) {
        Ok(read) => read,
        Err(e) => {
            return Err(e);
        },
    };
    let (address, at_port) = match get_string(bytes, at_address) {
        Ok(read) => read,
        Err(e) => {
            return Err(e);
        },
    };
    let (port, at_state) = match get_u16(bytes, at_port) {
        Ok(read) => read,
        Err(e) => {
            return Err(e);
        },
    };
    let (next_state, end) = match get_varint(bytes, at_state) {
        Ok(read) => read,
        Err(e) => {
            return Err(e);
        },
    };
    Ok(((version, address, port, next_state), end))
}

/// What reading a handshake comes to, for a connection that holds the
/// unused bytes `unused` and whose stream gave `fresh`: the handshake or
/// the error, and the bytes that the connection holds afterwards. Bytes
/// behind a handshake are kept; after an error none are.
pub open spec fn read_handshake_spec(unused: Option<Seq<u8>>, fresh: Option<StreamRead>) -> (
    Result<HandshakeView, NetError>,
    Option<Seq<u8>>,
) {
    match read_spec(unused, fresh) {
        Ok((true, bytes)) => match handshake_spec(bytes) {
            Some(h) => if h.next_state >= STAGES {
                (Err(NetError::InvalidClient), None)
            } else {
                (Ok(h), rest_spec(bytes, h.end))
            },
            None => (Err(NetError::Malformed), None),
        },
        _ => (Err(NetError::HandshakeUnread), None),
    }
}

/// Reads the handshake of a connection and gives version, address, port
/// and the stage asked for.
pub fn read_handshake_packet(client: &mut NetworkClient, fresh: Option<StreamRead>) -> (r: Result<
    (u32, String, u16, u32),
    NetError,
>)
    requires
        old(client)@.unused.is_some() ==> fresh.is_none(),
    ensures
        final(client)@ == (NetworkClientView {
            unused: read_handshake_spec(old(client)@.unused, fresh).1,
            ..old(client)@
        }),
        match read_handshake_spec(old(client)@.unused, fresh).0 {
            Ok(h) => match r {
                Ok((version, address, port, next_state)) => {
                    &&& version == h.version
                    &&& encode_utf8(address@) == h.address
                    &&& port == h.port
                    &&& next_state == h.next_state
                },
                Err(_) => false,
            },
            Err(e) => r.is_err() && r.unwrap_err() == e,
        },
{
    let bytes: Vec<u8> = match client.read(fresh) {
        Ok((true, bytes)) => bytes,
        _ => {
            return Err(NetError::HandshakeUnread);
        },
    };
    let (handshake, end) = match parse_handshake(bytes.as_slice()) {
        Ok(parsed) => parsed,
        Err(e) => {
            return Err(e);
        },
    };
    if handshake.3 >= STAGES {
        return Err(NetError::InvalidClient);
    }
    client.keep_rest(bytes, end);
    Ok(handshake)
}

} // verus!
