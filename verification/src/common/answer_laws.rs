//! How cluster commands are answered.

use vstd::prelude::*;

use crate::common::reply::Reply;
use crate::context::CommandResult;
use crate::frame::Status;
use crate::types::error::ZclError;

verus! {

/// The command was answered under `command` with `bytes`, at the front of a buffer that is
/// left with `body`; where the buffer had no room for them, the command failed.
pub open spec fn replied(
    command: u8,
    bytes: Seq<u8>,
    before: Seq<u8>,
    body: Seq<u8>,
    r: Result<CommandResult, ZclError>,
) -> bool {
    if bytes.len() <= before.len() {
        &&& r matches Ok(CommandResult::Payload { command_id, len })
        &&& command_id.0 == command
        &&& len == bytes.len()
        &&& body.take(bytes.len() as int) == bytes
    } else {
        r == Err::<CommandResult, ZclError>(ZclError::BufferTooSmall)
    }
}

/// The command was answered with the status of byte `code` alone.
pub open spec fn told(
    code: u8,
    before: Seq<u8>,
    body: Seq<u8>,
    r: Result<CommandResult, ZclError>,
) -> bool {
    &&& r matches Ok(CommandResult::DefaultResponse(status))
    &&& status.code() == code
    &&& body == before
}

/// The command's payload was too short, and nothing was answered.
pub open spec fn too_short(
    before: Seq<u8>,
    body: Seq<u8>,
    r: Result<CommandResult, ZclError>,
) -> bool {
    body == before && r == Err::<CommandResult, ZclError>(ZclError::InsufficientBytes)
}

/// A reply stands at the front of the buffer, under its command.
pub proof fn law_reply_is_put_in_front(
    command: u8,
    bytes: Seq<u8>,
    before: Seq<u8>,
    body: Seq<u8>,
    r: Result<CommandResult, ZclError>,
)
    requires
        before.len() <= usize::MAX,
        Reply::is(command, bytes, before, body, r),
    ensures
        replied(command, bytes, before, body, r),
{
    if bytes.len() <= before.len() {
        assert(body.take(bytes.len() as int) =~= bytes);
    }
}

/// A status with a group is the status byte and the group, lower byte first.
pub proof fn law_status_and_group_layout(status: Status, low: u8, high: u8)
    ensures
        Reply::group(status, (low + 256 * high) as u16) == seq![status.code(), low, high],
{
    assert(Reply::group(status, (low + 256 * high) as u16) =~= seq![status.code(), low, high]);
}

} // verus!
