//! What a host connection does with the text its peer sends.

use crate::room::{ConnId, RoomId, USER_HOST};
use crate::server::Command;
use vstd::prelude::*;

verus! {

/// A text frame of the host that names one client: an envelope with a
/// `type` and a `client_id`.
#[derive(Debug)]
pub struct ClientMessage {
    pub kind: String,
    pub client_id: ConnId,
}

/// The command for a text frame of the host of `room`. `target` is the
/// frame read as a [`ClientMessage`], where it can be read as one: then the
/// frame goes to that client alone. Any other frame is broadcast to every
/// client. The text goes out as it came in.
pub fn host_command_handler(room: RoomId, target: Option<ClientMessage>, msg: String) -> (cmd: Command)
    ensures
        cmd == match target {
            Some(message) => Command::Send { room, conn: message.client_id, msg },
            None => Command::Update { room, msg, user_type: USER_HOST },
        },
{
    match target {
        Some(message) => Command::Send { room, conn: message.client_id, msg },
        None => Command::Update { room, msg, user_type: USER_HOST },
    }
}

} // verus!
