//! What the server does when a connection has something for it.

use crate::handshaking::{read_handshake_packet, read_handshake_spec};
use crate::network_client::{ConnectionType, NetworkClient, NetworkClientView, StreamRead};
use crate::status::{read_status_packet, read_status_spec, StatusReply};
use crate::wire::NetError;
use vstd::prelude::*;

verus! {

/// Handles a connection that is due to send its handshake, and says whether
/// the connection is to be dropped.
///
/// A connection that is not readable is left alone. One whose handshake
/// cannot be read is dropped. Any other moves on to the status stage.
pub fn handshaking(
    conn: &mut NetworkClient,
    readable: bool,
    fresh: Option<StreamRead>,
) -> (r: Result<bool, NetError>)
    requires
        old(conn)@.unused.is_some() ==> fresh.is_none(),
    ensures
        !readable ==> r == Ok::<bool, NetError>(false) && final(conn)@ == old(conn)@,
        readable ==> final(conn)@.unused == read_handshake_spec(old(conn)@.unused, fresh).1,
        readable && read_handshake_spec(old(conn)@.unused, fresh).0.is_err() ==> r == Ok::<
            bool,
            NetError,
        >(true) && final(conn)@.conn_type == old(conn)@.conn_type,
        readable && read_handshake_spec(old(conn)@.unused, fresh).0.is_ok() ==> r == Ok::<
            bool,
            NetError,
        >(false) && final(conn)@.conn_type == ConnectionType::STATUS,
{
    if !readable {
        return Ok(false);
    }
    match read_handshake_packet(conn, fresh) {
        Ok(_) => {
            conn.conn_type = ConnectionType::STATUS;
            Ok(false)
        },
        Err(_) => Ok(true),
    }
}

/// Handles a connection in the status stage, and says whether the
/// connection is to be dropped and what is owed to the client.
///
/// A connection that is not both readable and writable is left alone. One
/// whose packet cannot be read is dropped.
pub fn status_handler(
    conn: &mut NetworkClient,
    readable: bool,
    writable: bool,
    fresh: Option<StreamRead>,
) -> (r: Result<(bool, StatusReply), NetError>)
    requires
        old(conn)@.unused.is_some() ==> fresh.is_none(),
    ensures
        !(readable && writable) ==> r == Ok::<(bool, StatusReply), NetError>(
            (false, StatusReply::Nothing),
        ) && final(conn)@ == old(conn)@,
        readable && writable ==> final(conn)@ == (NetworkClientView {
            unused: read_status_spec(old(conn)@.unused, fresh).1,
            ..old(conn)@
        }) && r == Ok::<(bool, StatusReply), NetError>(
            match read_status_spec(old(conn)@.unused, fresh).0 {
                Ok(reply) => (false, reply),
                Err(_) => (true, StatusReply::Nothing),
            },
        ),
{
    if !readable || !writable {
        return Ok((false, StatusReply::Nothing));
    }
    match read_status_packet(conn, fresh) {
        Ok(reply) => Ok((false, reply)),
        Err(_) => Ok((true, StatusReply::Nothing)),
    }
}

} // verus!
