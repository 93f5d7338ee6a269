//! The answer to a request for the list of users: who the server is, and how
//! many subscribers each transport holds.

use vstd::prelude::*;
use crate::hub::Hub;

verus! {

/// The sender of a message that the server itself writes.
#[derive(Debug)]
pub struct SenderInfo {
    pub id: String,
    pub role: String,
}

/// One user of the room and the transport it is connected by.
#[derive(Debug)]
pub struct UserInfo {
    pub id: String,
    pub role: String,
    pub connection: String,
}

/// Subscriber counts per transport.
#[derive(Clone, Copy, Debug, PartialEq, Eq, Structural)]
pub struct ConnectionsCount {
    pub ws: usize,
    pub sse: usize,
    pub lp: usize,
}

/// The payload of a user list.
#[derive(Debug)]
pub struct UserListPayload {
    pub users: Vec<UserInfo>,
    pub counts: ConnectionsCount,
}

/// A user list, framed as a message of the room protocol.
#[derive(Debug)]
pub struct UserListMessage {
    pub room_id: String,
    pub sender: SenderInfo,
    pub msg_command: String,
    pub payload: UserListPayload,
}

/// The user list of the room `room_id`, sent by the server, with the
/// hub's current counts. The users themselves are not tracked, so the list
/// of them is empty.
pub fn build_user_list(hub: &Hub, room_id: String) -> (m: UserListMessage)
    ensures
        m.room_id == room_id,
        m.sender.id@ == "server"@,
        m.sender.role@ == "server"@,
        m.msg_command@ == "GET_USER_LIST"@,
        m.payload.users@.len() == 0,
        m.payload.counts.ws == hub@.push.len(),
        m.payload.counts.sse == hub@.stream.len(),
        m.payload.counts.lp == hub@.poll.len(),
{
    let c = hub.counts();
    UserListMessage {
        room_id,
        sender: SenderInfo { id: String::from_str("server"), role: String::from_str("server") },
        msg_command: String::from_str("GET_USER_LIST"),
        payload: UserListPayload {
            users: Vec::new(),
            counts: ConnectionsCount { ws: c.push, sse: c.stream, lp: c.poll },
        },
    }
}

} // verus!
