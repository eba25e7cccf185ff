//! What the server keeps for each connection, and how what a connection
//! delivers is taken in.

use crate::wire::NetError;
use vstd::prelude::*;

verus! {

/// Stage of the protocol that a connection is in.
#[derive(Clone, Copy, Debug, PartialEq, Eq, Structural)]
pub enum ConnectionType {
    /// Nothing was received yet; a handshake is expected.
    HANDSHAKING,
    /// The client asks about the server.
    STATUS,
}

/// What an attempt to read from a connection's stream came to.
pub enum StreamRead {
    /// The bytes that were read; none at all when the connection was closed.
    Data(Vec<u8>),
    /// Nothing is there to be read at the moment.
    WouldBlock,
    /// The stream could not be read.
    Failed,
}

/// The state of one connection.
pub struct NetworkClient {
    /// The stage that the connection is in.
    pub conn_type: ConnectionType,
    /// Bytes that were received and not used up yet.
    pub unused_buffer: Option<Vec<u8>>,
}

/// Mathematical content of a [`NetworkClient`].
pub struct NetworkClientView {
    /// The stage that the connection is in.
    pub conn_type: ConnectionType,
    /// Bytes that were received and not used up yet.
    pub unused: Option<Seq<u8>>,
}

impl View for NetworkClient {
    type V = NetworkClientView;

    open spec fn view(&self) -> NetworkClientView {
        NetworkClientView {
            conn_type: self.conn_type,
            unused: match self.unused_buffer {
                Some(buffer) => Some(buffer@),
                None => None,
            },
        }
    }
}

/// What [`NetworkClient::read`] yields for a connection that holds the
/// unused bytes `unused` and whose stream, where it was read, gave
/// `fresh`: whether there is data, and the data. Unused bytes come first;
/// a stream that was not read, has nothing at the moment or was closed
/// yields no data.
pub open spec fn read_spec(unused: Option<Seq<u8>>, fresh: Option<StreamRead>) -> Result<
    (bool, Seq<u8>),
    NetError,
> {
    match unused {
        Some(bytes) => Ok((true, bytes)),
        None => match fresh {
            Some(StreamRead::Data(bytes)) => Ok((bytes@.len() > 0, bytes@)),
            Some(StreamRead::WouldBlock) => Ok((false, Seq::empty())),
            Some(StreamRead::Failed) => Err(NetError::ReadFailed),
            None => Ok((false, Seq::empty())),
        },
    }
}

impl NetworkClient {
    /// The state of a connection that was just accepted.
    pub fn new() -> (client: NetworkClient)
        ensures
            client@ == (NetworkClientView {
                conn_type: ConnectionType::HANDSHAKING,
                unused: None,
            }),
    {
        NetworkClient { conn_type: ConnectionType::HANDSHAKING, unused_buffer: None }
    }

    /// Whether the next [`NetworkClient::read`] needs the stream to be read:
    /// it does where no unused bytes are held.
    pub fn wants_stream(&self) -> (wanted: bool)
        ensures
            wanted == self@.unused.is_none(),
    {
        self.unused_buffer.is_none()
    }

    /// Takes in the next bytes of the connection: the unused bytes, where
    /// some are held, and otherwise what the stream gave. The stream is to
    /// be read only where [`NetworkClient::wants_stream`] says so.
    pub fn read(&mut self, fresh: Option<StreamRead>) -> (r: Result<(bool, Vec<u8>), NetError>)
        requires
            old(self)@.unused.is_some() ==> fresh.is_none(),
        ensures
            final(self)@ == (NetworkClientView { unused: None, ..old(self)@ }),
            match read_spec(old(self)@.unused, fresh) {
                Ok((ok, bytes)) => match r {
                    Ok((o, b)) => o == ok && b@ == bytes,
                    Err(_) => false,
                },
                Err(e) => r.is_err() && r.unwrap_err() == e,
            },
    {
        if let Some(buffer) = self.unused_buffer.take() {
            return Ok((true, buffer));
        }
        match fresh {
            Some(StreamRead::Data(bytes)) => Ok((bytes.len() > 0, bytes)),
            Some(StreamRead::WouldBlock) => Ok((false, Vec::new())),
            Some(StreamRead::Failed) => Err(NetError::ReadFailed),
            None => Ok((false, Vec::new())),
        }
    }

    /// Keeps `buffer` as the bytes to be used by the next read.
    pub fn return_unused(&mut self, buffer: Vec<u8>)
        requires
            old(self)@.unused.is_none(),
        ensures
            final(self)@ == (NetworkClientView { unused: Some(buffer@), ..old(self)@ }),
    {
        self.unused_buffer = Some(buffer);
    }

    /// Keeps what follows index `end` in `bytes` as the bytes to be used by
    /// the next read, if anything follows.
    pub fn keep_rest(&mut self, bytes: Vec<u8>, end: usize)
        requires
            old(self)@.unused.is_none(),
            end <= bytes@.len(),
        ensures
            final(self)@ == (NetworkClientView {
                unused: rest_spec(bytes@, end as int),
                ..old(self)@
            }),
    {
        let mut bytes = bytes;
        let rest = bytes.split_off(end);
        if rest.len() > 0 {
            self.return_unused(rest);
        }
    }
}

/// What of `bytes` is left for the next read when the bytes before `end`
/// were used: the bytes from `end` on, if there are any.
pub open spec fn rest_spec(bytes: Seq<u8>, end: int) -> Option<Seq<u8>> {
    if end < bytes.len() {
        Some(bytes.subrange(end, bytes.len() as int))
    } else {
        None
    }
}

} // verus!
