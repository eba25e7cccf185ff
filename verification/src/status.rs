//! The status stage of a connection: the server list ping and the
//! ping-pong exchange.

use crate::config::PROTOCOL_VERSION;
use crate::network_client::{read_spec, rest_spec, NetworkClient, NetworkClientView, StreamRead};
use crate::wire::{
    create_packet, get_i64, get_i64_spec, get_varint_spec, i64_bytes, packet_bytes, read_base,
    read_base_spec, string_bytes, write_i64, write_string, NetError,
};
use vstd::prelude::*;
use vstd::string::StringSliceAdditionalSpecFns;

verus! {

/// Kind of the packet that asks for, and that carries, the server list
/// ping.
pub const LIST_PING: u32 = 0;

/// Kind of the packet that carries a ping, and of the one that answers it.
pub const PING: u32 = 1;

/// Players that the server announces room for.
pub const MAX_PLAYERS: u32 = 10;

/// A chat message, as it is shown to a player.
pub struct ChatMessage {
    /// The text, with its formatting codes.
    pub text: String,
}

impl ChatMessage {
    /// The message with the text `text`.
    pub fn str(text: &str) -> (message: ChatMessage)
        ensures
            message.text@ == text@,
    {
        ChatMessage { text: text.to_owned() }
    }
}

/// Answer to a server list ping.
pub struct ListPingResponse {
    /// What the server runs.
    pub version: ListPingResponseVersion,
    /// Who plays on it.
    pub players: ListPingResponsePlayers,
    /// The line that describes the server in a list.
    pub description: ChatMessage,
}

/// The version part of a [`ListPingResponse`].
pub struct ListPingResponseVersion {
    /// Name of the server software.
    pub name: String,
    /// Protocol version that the server speaks.
    pub protocol: u32,
}

/// The players part of a [`ListPingResponse`].
pub struct ListPingResponsePlayers {
    /// How many players fit.
    pub max: u32,
    /// How many players are connected.
    pub online: u32,
    /// Some of the connected players.
    pub sample: Vec<ListPingResponsePlayerSample>,
}

/// One player in the sample of a [`ListPingResponsePlayers`].
pub struct ListPingResponsePlayerSample {
    /// The player's name.
    pub name: String,
    /// The player's identifier.
    pub id: String,
}

impl ListPingResponse {
    /// What this server answers to a server list ping: its name and
    /// protocol version, room for ten players of whom none is connected,
    /// and a greeting.
    pub fn standard() -> (response: ListPingResponse)
        ensures
            response.version.name@ == "ULE"@,
            response.version.protocol == PROTOCOL_VERSION,
            response.players.max == MAX_PLAYERS,
            response.players.online == 0,
            response.players.sample@.len() == 0,
            response.description.text@ == "&a&lHello!"@,
    {
        ListPingResponse {
            version: ListPingResponseVersion { name: "ULE".to_owned(), protocol: PROTOCOL_VERSION },
            players: ListPingResponsePlayers { max: MAX_PLAYERS, online: 0, sample: Vec::new() },
            description: ChatMessage::str("&a&lHello!"),
        }
    }
}

/// The packet that answers a server list ping with the document `json`:
/// a packet of kind [`LIST_PING`] around the document as a string.
pub open spec fn list_ping_bytes(json: Seq<u8>) -> Seq<u8> {
    packet_bytes(string_bytes(json), LIST_PING)
}

/// Builds the packet that answers a server list ping with the document
/// `json`, unless the document is too long for a packet.
pub fn create_server_list_ping_response(json: &str) -> (r: Result<Vec<u8>, NetError>)
    ensures
        string_bytes(json.spec_bytes()).len() + 1 <= u32::MAX ==> r.is_ok() && r.unwrap()@
            == list_ping_bytes(json.spec_bytes()),
        string_bytes(json.spec_bytes()).len() + 1 > u32::MAX ==> r.is_err() && r.unwrap_err()
            == NetError::TooLong,
{
    let mut bytes: Vec<u8> = Vec::new();
    proof {
        crate::wire::law_varint_round_trip_32(
            Seq::empty(),
            json.spec_bytes().len() as u32,
            Seq::empty(),
        );
        assert(crate::wire::varint_bytes(LIST_PING as int).len() == 1);
    }
    match write_string(&mut bytes, json) {
        Ok(()) => {},
        Err(e) => {
            return Err(e);
        },
    }
    assert(bytes@ =~= string_bytes(json.spec_bytes()));
    create_packet(bytes.as_slice(), LIST_PING)
}

/// What the server owes a client after a status packet.
#[derive(Clone, Copy, Debug, PartialEq, Eq, Structural)]
pub enum StatusReply {
    /// The answer to a server list ping.
    ListPing,
    /// The answer to a ping that carried this number.
    Pong(i64),
    /// Nothing: the packet was of a kind that is not answered.
    Nothing,
}

/// The bytes that answer a ping which carried `value`: the kind of the
/// packet in one byte, then the number.
pub open spec fn pong_bytes(value: i64) -> Seq<u8> {
    seq![PING as u8] + i64_bytes(value)
}

/// Builds the bytes that answer a ping which carried `value`.
pub fn create_pong(value: i64) -> (bytes: Vec<u8>)
    ensures
        bytes@ == pong_bytes(value),
{
    let mut bytes: Vec<u8> = Vec::new();
    bytes.push(PING as u8);
    assert(bytes@ =~= seq![PING as u8]);
    write_i64(&mut bytes, value);
    bytes
}

/// The status packet at the start of `bytes`: what it asks for, and the
/// index behind it. A ping carries a 64-bit number behind its kind.
pub open spec fn status_spec(bytes: Seq<u8>) -> Option<(StatusReply, int)> {
    match read_base_spec(bytes, 0) {
        Some((_, id, end)) => if id == LIST_PING {
            Some((StatusReply::ListPing, end))
        } else if id == PING {
            match get_i64_spec(bytes, end) {
                Some((value, behind)) => Some((StatusReply::Pong(value), behind)),
                None => None,
            }
        } else {
            Some((StatusReply::Nothing, end))
        },
        None => None,
    }
}

/// Reads the status packet at the start of `bytes` and gives what it asks
/// for, with the index behind it.
pub fn parse_status(bytes: &[u8]) -> (r: Result<(StatusReply, usize), NetError>)
    ensures
        match status_spec(bytes@) {
            Some((reply, end)) => match r {
                Ok((answer, behind)) => answer == reply && behind == end && end <= bytes@.len(),
                Err(_) => false,
            },
            None => r.is_err() && r.unwrap_err() == NetError::Malformed,
        },
{
    let (_, id, end) = match read_base(bytes, 0) {
        Ok(read) => read,
        Err(e) => {
            return Err(e);
        },
    };
    if id == LIST_PING {
        Ok((StatusReply::ListPing, end))
    } else if id == PING {
        match get_i64(bytes, end) {
            Ok((value, behind)) => Ok((StatusReply::Pong(value), behind)),
            Err(e) => Err(e),
        }
    } else {
        Ok((StatusReply::Nothing, end))
    }
}

/// What reading a status packet comes to, for a connection that holds the
/// unused bytes `unused` and whose stream gave `fresh`: what is owed to the
/// client or the error, and the bytes that the connection holds afterwards.
/// Bytes behind the packet are kept; after an error none are.
pub open spec fn read_status_spec(unused: Option<Seq<u8>>, fresh: Option<StreamRead>) -> (
    Result<StatusReply, NetError>,
    Option<Seq<u8>>,
) {
    match read_spec(unused, fresh) {
        Ok((true, bytes)) => match status_spec(bytes) {
            Some((reply, end)) => (Ok(reply), rest_spec(bytes, end)),
            None => (Err(NetError::Malformed), None),
        },
        _ => (Err(NetError::StatusUnread), None),
    }
}

/// Reads a status packet of a connection and says what is owed to the
/// client.
pub fn read_status_packet(client: &mut NetworkClient, fresh: Option<StreamRead>) -> (r: Result<
    StatusReply,
    NetError,
>)
    requires
        old(client)@.unused.is_some() ==> fresh.is_none(),
    ensures
        final(client)@ == (NetworkClientView {
            unused: read_status_spec(old(client)@.unused, fresh).1,
            ..old(client)@
        }),
        r == read_status_spec(old(client)@.unused, fresh).0,
{
    let bytes: Vec<u8> = match client.read(fresh) {
        Ok((true, bytes)) => bytes,
        _ => {
            return Err(NetError::StatusUnread);
        },
    };
    let (reply, end) = match parse_status(bytes.as_slice()) {
        Ok(parsed) => parsed,
        Err(e) => {
            return Err(e);
        },
    };
    client.keep_rest(bytes, end);
    Ok(reply)
}

/// The answer to a ping carries the very bytes that the ping carried.
pub proof fn law_pong_echoes_the_ping(bytes: Seq<u8>, value: i64, end: int)
    requires
        status_spec(bytes) == Some((StatusReply::Pong(value), end)),
    ensures
        8 <= end <= bytes.len(),
        pong_bytes(value) == seq![PING as u8] + bytes.subrange(end - 8, end),
{
    let at = read_base_spec(bytes, 0).unwrap().2;
    crate::wire::lemma_varint_bounds(bytes, 0, 5);
    crate::wire::lemma_varint_bounds(bytes, get_varint_spec(bytes, 0).unwrap().1, 5);
    crate::wire::law_i64_bytes_of_read(bytes, at);
}

} // verus!
