//! What a client connection does with the text its peer sends.

use crate::room::{RoomId, USER_CLIENT};
use crate::server::Command;
use vstd::prelude::*;

verus! {

/// The command for a text frame of a client in `room`: a client always
/// broadcasts, which reaches the host.
pub fn client_command_handler(room: RoomId, msg: String) -> (cmd: Command)
    ensures
        cmd == (Command::Update { room, msg, user_type: USER_CLIENT }),
{
    Command::Update { room, msg, user_type: USER_CLIENT }
}

} // verus!
