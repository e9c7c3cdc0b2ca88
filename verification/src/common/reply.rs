//! Replies to cluster commands.

use vstd::prelude::*;

use crate::bytes::high_byte;
use crate::bytes::low_byte;
use crate::bytes::Le;
use crate::context::CommandResult;
use crate::frame::Status;
use crate::types::error::ZclError;
use crate::types::ids::CommandId;

verus! {

/// Specification functions of replies.
pub struct Reply;

impl Reply {
    /// Result `r` is the reply `bytes` under command `command`, put to the front of a
    /// buffer that held `before` and left with `body`; or the error of a buffer that
    /// cannot hold it.
    pub open spec fn is(
        command: u8,
        bytes: Seq<u8>,
        before: Seq<u8>,
        body: Seq<u8>,
        r: Result<CommandResult, ZclError>,
    ) -> bool {
        if bytes.len() > before.len() {
            Self::failed(before, body, r, ZclError::BufferTooSmall)
        } else {
            &&& r == Ok::<CommandResult, ZclError>(
                CommandResult::Payload {
                    command_id: CommandId(command),
                    len: bytes.len() as usize,
                },
            )
            &&& body == bytes + before.skip(bytes.len() as int)
        }
    }

    /// The command is answered with a status only, and nothing is put into the
    /// buffer.
    pub open spec fn status(
        before: Seq<u8>,
        body: Seq<u8>,
        r: Result<CommandResult, ZclError>,
        status: Status,
    ) -> bool {
        body == before && r == Ok::<CommandResult, ZclError>(
            CommandResult::DefaultResponse(status),
        )
    }

    /// The command failed, and nothing is put into the buffer.
    pub open spec fn failed(
        before: Seq<u8>,
        body: Seq<u8>,
        r: Result<CommandResult, ZclError>,
        error: ZclError,
    ) -> bool {
        body == before && r == Err::<CommandResult, ZclError>(error)
    }

    /// A status and a group.
    pub open spec fn group(status: Status, group_id: u16) -> Seq<u8> {
        seq![status.code()] + Le::u16(group_id)
    }
}

/// Reply under `command` with a status and a group.
pub fn write_status_and_group(command: u8, status: Status, group_id: u16, buf: &mut [u8]) -> (r:
    Result<CommandResult, ZclError>)
    ensures
        final(buf)@.len() == old(buf)@.len(),
        Reply::is(command, Reply::group(status, group_id), old(buf)@, final(buf)@, r),
        r matches Ok(result) ==> result.leaves(old(buf)@, final(buf)@),
{
    if buf.len() < 3 {
        return Err(ZclError::BufferTooSmall);
    }
    buf[0] = status.as_u8();
    buf[1] = low_byte(group_id);
    buf[2] = high_byte(group_id);
    assert(buf@ =~= Reply::group(status, group_id) + old(buf)@.skip(3));
    Ok(CommandResult::Payload { command_id: CommandId(command), len: 3 })
}

} // verus!
