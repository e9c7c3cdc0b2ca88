//! What an on/off server does with each command, attribute and snapshot.

use vstd::prelude::*;

use crate::cluster_server::ClusterServer;
use crate::context::CommandResult;
use crate::context::DispatchContext;
use crate::lighting::on_off::OnOffServer;
use crate::lighting::on_off::OnOffState;
use crate::types::error::AttrError;
use crate::types::error::ZclError;
use crate::types::ids::AttributeId;
use crate::types::ids::CommandId;
use crate::types::ids::TypeId;

verus! {

/// Off switches off, on switches on and toggle switches over; each makes a report of the
/// switch pending, leaves the rest as it was and succeeds. No other command is supported.
pub proof fn law_commands_switch(
    pre: OnOffServer,
    id: u8,
    payload: Seq<u8>,
    ctx: DispatchContext,
    before: Seq<u8>,
    post: OnOffServer,
    body: Seq<u8>,
    r: Result<CommandResult, ZclError>,
    k: int,
)
    requires
        pre.reporting@.distinct(),
        OnOffServer::handled(pre, CommandId(id), payload, ctx, before, post, body, r),
    ensures
        id == 0x00 ==> !post.on_off,
        id == 0x01 ==> post.on_off,
        id == 0x02 ==> post.on_off != pre.on_off,
        id > 0x02 ==> post.on_off == pre.on_off && post.reporting@ == pre.reporting@,
        post.global_scene_control == pre.global_scene_control,
        post.on_time == pre.on_time,
        post.off_wait_time == pre.off_wait_time,
        id <= 0x02 ==> crate::common::answer_laws::told(0x00, before, body, r),
        id > 0x02 ==> crate::common::answer_laws::told(0x81, before, body, r),
        id <= 0x02 && 0 <= k < pre.reporting@.entries.len() && pre.reporting@.entries[k].attr_id
            == AttributeId(0) ==> k < post.reporting@.entries.len()
            && post.reporting@.entries[k].pending,
{
    if 0 <= k < pre.reporting@.entries.len() {
        crate::reporting_laws::law_only_the_update_becomes_pending(
            pre.reporting@,
            AttributeId(0),
            k,
        );
    }
}

/// What each attribute reads as.
pub proof fn law_attributes_show_the_state(s: OnOffServer, cap: nat)
    requires
        cap >= 2,
    ensures
        crate::types::value_laws::reads(s.attr(AttributeId(0x0000), cap), 0x10, 1, if s.on_off {
            1
        } else {
            0
        }),
        crate::types::value_laws::reads(
            s.attr(AttributeId(0x4000), cap),
            0x10,
            1,
            if s.global_scene_control {
                1
            } else {
                0
            },
        ),
        s.on_time != 0xffff ==> crate::types::value_laws::reads(
            s.attr(AttributeId(0x4001), cap),
            0x21,
            2,
            s.on_time as int,
        ),
        s.off_wait_time != 0xffff ==> crate::types::value_laws::reads(
            s.attr(AttributeId(0x4002), cap),
            0x21,
            2,
            s.off_wait_time as int,
        ),
        crate::types::value_laws::reads(s.attr(AttributeId(0xFFFD), cap), 0x21, 2, 2),
        forall|id: u16|
            id != 0x0000 && !(0x4000 <= id <= 0x4002) && id != 0xFFFD
                ==> crate::types::value_laws::missing(#[trigger] s.attr(AttributeId(id), cap)),
{
}

/// Of the attributes only the two times can be written, as 16-bit numbers; a write sets
/// its attribute and nothing else.
pub proof fn law_times_can_be_written(
    pre: OnOffServer,
    id: u16,
    t: TypeId,
    data: Seq<u8>,
    post: OnOffServer,
    r: Result<(), AttrError>,
)
    requires
        OnOffServer::wrote(pre, AttributeId(id), t, data, post, r),
    ensures
        r is Ok <==> (id == 0x4001 || id == 0x4002) && t.code() == 0x21 && data.len() >= 2,
        id == 0x0000 || id == 0x4000 || id == 0xFFFD ==> r == Err::<(), AttrError>(
            AttrError::ReadOnly,
        ),
        id != 0x0000 && !(0x4000 <= id <= 0x4002) && id != 0xFFFD ==> r == Err::<(), AttrError>(
            AttrError::UnsupportedAttribute,
        ),
        (id == 0x4001 || id == 0x4002) && t.code() != 0x21 ==> r == Err::<(), AttrError>(
            AttrError::InvalidDataType,
        ),
        (id == 0x4001 || id == 0x4002) && t.code() == 0x21 && data.len() < 2 ==> r == Err::<
            (),
            AttrError,
        >(AttrError::InvalidValue),
        post.on_off == pre.on_off,
        post.global_scene_control == pre.global_scene_control,
        post.reporting@ == pre.reporting@,
        post.on_time == if r is Ok && id == 0x4001 {
            data[0] + 256 * data[1]
        } else {
            pre.on_time as int
        },
        post.off_wait_time == if r is Ok && id == 0x4002 {
            data[0] + 256 * data[1]
        } else {
            pre.off_wait_time as int
        },
{
}

/// A write passes the check if it would be taken, but for its length.
pub proof fn law_check_of_a_write(s: OnOffServer, id: u16, t: TypeId, data: Seq<u8>)
    ensures
        s.write_check(AttributeId(id), t, data) is Ok <==> (id == 0x4001 || id == 0x4002)
            && t.code() == 0x21,
{
}

/// A snapshot is six bytes: the switch, the scene control and the two times.
pub proof fn law_snapshot_layout(s: OnOffServer, cap: nat)
    ensures
        cap < 6 ==> s.snapshot_bytes(cap).len() == 0,
        cap >= 6 ==> {
            let b = s.snapshot_bytes(cap);
            &&& b.len() == 6
            &&& b[0] == if s.on_off {
                1int
            } else {
                0
            }
            &&& b[1] == if s.global_scene_control {
                1int
            } else {
                0
            }
            &&& b[2] + 256 * b[3] == s.on_time
            &&& b[4] + 256 * b[5] == s.off_wait_time
        },
{
}

/// Restoring sets what the six bytes hold; fewer bytes change nothing.
pub proof fn law_restoring_sets_the_state(pre: OnOffServer, data: Seq<u8>, post: OnOffServer)
    requires
        OnOffServer::restored(pre, data, post),
    ensures
        data.len() < 6 ==> post@ == pre@,
        data.len() >= 6 ==> {
            &&& post.on_off <==> data[0] != 0
            &&& post.global_scene_control <==> data[1] != 0
            &&& post.on_time == data[2] + 256 * data[3]
            &&& post.off_wait_time == data[4] + 256 * data[5]
            &&& post.reporting@ == pre.reporting@
        },
{
}

/// A new server is switched as asked, and nothing of it is reported.
pub proof fn law_new_server(on: bool, id: AttributeId)
    ensures
        OnOffState::initial(on).on_off == on,
        OnOffState::initial(on).global_scene_control,
        OnOffState::initial(on).on_time == 0,
        OnOffState::initial(on).off_wait_time == 0,
        !OnOffState::initial(on).reporting.has(id),
{
}

/// The attributes and commands that discovery lists.
pub proof fn law_discovered()
    ensures
        ({
            let list = OnOffServer::attribute_infos();
            &&& list.len() == 5
            &&& crate::types::value_laws::entry(list[0], 0x0000, 0x10, false, true)
            &&& crate::types::value_laws::entry(list[1], 0x4000, 0x10, false, false)
            &&& crate::types::value_laws::entry(list[2], 0x4001, 0x21, true, false)
            &&& crate::types::value_laws::entry(list[3], 0x4002, 0x21, true, false)
            &&& crate::types::value_laws::entry(list[4], 0xFFFD, 0x21, false, false)
        }),
        OnOffServer::received_ids() == seq![CommandId(0), CommandId(1), CommandId(2)],
        OnOffServer::generated_ids().len() == 0,
{
}

} // verus!
