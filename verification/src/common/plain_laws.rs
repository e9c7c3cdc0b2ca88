//! What the clusters without commands show, and what they take: basic, power configuration
//! and time.

use vstd::prelude::*;

use crate::cluster_server::ClusterServer;
use crate::common::basic::BasicServer;
use crate::common::power_config::PowerConfigServer;
use crate::common::power_config::PowerState;
use crate::common::time::TimeServer;
use crate::context::CommandResult;
use crate::context::DispatchContext;
use crate::types::codec::ReadSpec;
use crate::types::error::AttrError;
use crate::types::error::ZclError;
use crate::types::ids::AttributeId;
use crate::types::ids::CommandId;
use crate::types::ids::TypeId;

verus! {

/// What each attribute of the time cluster reads as.
pub proof fn law_time_shows(s: TimeServer, cap: nat)
    requires
        cap >= 4,
    ensures
        s.time != 0xffff_ffff ==> crate::types::value_laws::reads(
            s.attr(AttributeId(0x0000), cap),
            0x23,
            4,
            s.time as int,
        ),
        crate::types::value_laws::reads(
            s.attr(AttributeId(0x0001), cap),
            0x18,
            1,
            s.time_status as int,
        ),
        s.time_zone != i32::MIN ==> crate::types::value_laws::reads(
            s.attr(AttributeId(0x0002), cap),
            0x2b,
            4,
            s.time_zone as int,
        ),
        crate::types::value_laws::reads(s.attr(AttributeId(0xFFFD), cap), 0x21, 2, 2),
        forall|id: u16|
            id > 0x0002 && id != 0xFFFD ==> crate::types::value_laws::missing(
                #[trigger] s.attr(AttributeId(id), cap),
            ),
        TimeServer::attribute_infos().len() == 4,
        crate::types::value_laws::entry(TimeServer::attribute_infos()[0], 0x0000, 0x23, true, false),
        crate::types::value_laws::entry(TimeServer::attribute_infos()[1], 0x0001, 0x18, true, false),
        crate::types::value_laws::entry(TimeServer::attribute_infos()[2], 0x0002, 0x2b, true, false),
        crate::types::value_laws::entry(
            TimeServer::attribute_infos()[3],
            0xFFFD,
            0x21,
            false,
            false,
        ),
{
}

/// The time is taken as a 32-bit number, its status as a bitmap and the zone as a signed
/// 32-bit number, each in exactly its bytes. A write sets its attribute and nothing else.
pub proof fn law_time_can_be_written(
    pre: TimeServer,
    id: u16,
    t: TypeId,
    d: Seq<u8>,
    post: TimeServer,
    r: Result<(), AttrError>,
)
    requires
        TimeServer::wrote(pre, AttributeId(id), t, d, post, r),
    ensures
        r is Ok <==> {
            ||| id == 0x0000 && t.code() == 0x23 && d.len() == 4
                && crate::types::value_laws::little(d) != 0xffff_ffff
            ||| id == 0x0001 && t.code() == 0x18 && d.len() == 1
            ||| id == 0x0002 && t.code() == 0x2b && d.len() == 4
                && crate::types::value_laws::little(d) != 0x8000_0000
        },
        r is Err ==> post == pre,
        id == 0xFFFD ==> r == Err::<(), AttrError>(AttrError::ReadOnly),
        id > 0x0002 && id != 0xFFFD ==> r == Err::<(), AttrError>(AttrError::UnsupportedAttribute),
        id == 0x0000 && t.code() != 0x23 || id == 0x0001 && t.code() != 0x18 || id == 0x0002
            && t.code() != 0x2b ==> r == Err::<(), AttrError>(AttrError::InvalidDataType),
        post.time == if r is Ok && id == 0x0000 {
            crate::types::value_laws::little(d)
        } else {
            pre.time as int
        },
        post.time_status == if r is Ok && id == 0x0001 {
            d[0]
        } else {
            pre.time_status
        },
        r is Ok && id == 0x0002 ==> post.time_zone == if crate::types::value_laws::little(d)
            < 0x8000_0000 {
            crate::types::value_laws::little(d)
        } else {
            crate::types::value_laws::little(d) - 0x1_0000_0000
        },
        id != 0x0002 ==> post.time_zone == pre.time_zone,
        r == pre.write_check(AttributeId(id), t, d),
{
}

/// A byte reads as itself, and 0xff as "unknown", which is the same byte.
pub open spec fn shows_byte(read: ReadSpec, v: u8) -> bool {
    crate::types::value_laws::reads(read, 0x20, 1, v as int)
}

/// What each attribute of the power configuration cluster reads as.
pub proof fn law_power_shows(s: PowerConfigServer, cap: nat)
    requires
        cap >= 2,
    ensures
        s.mains_voltage != 0xffff ==> crate::types::value_laws::reads(
            s.attr(AttributeId(0x0000), cap),
            0x21,
            2,
            s.mains_voltage as int,
        ),
        shows_byte(s.attr(AttributeId(0x0020), cap), s.battery_voltage),
        shows_byte(s.attr(AttributeId(0x0021), cap), s.battery_percentage_remaining),
        crate::types::value_laws::reads(s.attr(AttributeId(0xFFFD), cap), 0x21, 2, 2),
        forall|id: u16|
            id != 0x0000 && id != 0x0020 && id != 0x0021 && id != 0xFFFD
                ==> crate::types::value_laws::missing(#[trigger] s.attr(AttributeId(id), cap)),
        PowerState::initial().mains_voltage == 0,
        PowerState::initial().battery_voltage == 0xff,
        PowerState::initial().battery_percentage_remaining == 0xff,
{
}

/// What discovery lists of the power configuration cluster: only the remaining battery is
/// reportable, and nothing is writable.
pub proof fn law_power_discovered()
    ensures
        ({
            let list = PowerConfigServer::attribute_infos();
            &&& list.len() == 4
            &&& crate::types::value_laws::entry(list[0], 0x0000, 0x21, false, false)
            &&& crate::types::value_laws::entry(list[1], 0x0020, 0x20, false, false)
            &&& crate::types::value_laws::entry(list[2], 0x0021, 0x20, false, true)
            &&& crate::types::value_laws::entry(list[3], 0xFFFD, 0x21, false, false)
        }),
{
}

/// The power configuration can only be read.
pub proof fn law_power_is_only_read(
    pre: PowerConfigServer,
    id: u16,
    t: TypeId,
    data: Seq<u8>,
    post: PowerConfigServer,
    r: Result<(), AttrError>,
)
    requires
        PowerConfigServer::wrote(pre, AttributeId(id), t, data, post, r),
    ensures
        post@ == pre@,
        r == Err::<(), AttrError>(
            if id == 0x0000 || id == 0x0020 || id == 0x0021 || id == 0xFFFD {
                AttrError::ReadOnly
            } else {
                AttrError::UnsupportedAttribute
            },
        ),
{
}

/// What was read is the text, with its length in front; one of more than 254 bytes is not
/// handed out.
pub open spec fn shows_text(read: ReadSpec, text: Seq<u8>) -> bool {
    if text.len() <= 254 {
        read matches Ok((t, b)) && t.code() == 0x42 && b == seq![text.len() as u8] + text
    } else {
        read == Err::<(TypeId, Seq<u8>), AttrError>(AttrError::Codec(ZclError::InvalidLength))
    }
}

/// What each attribute of the basic cluster reads as.
pub proof fn law_basic_shows(s: BasicServer, cap: nat)
    requires
        cap >= 255,
    ensures
        s@.zcl_version != 0xff ==> crate::types::value_laws::reads(
            s.attr(AttributeId(0x0000), cap),
            0x20,
            1,
            s@.zcl_version as int,
        ),
        shows_text(
            s.attr(AttributeId(0x0004), cap),
            vstd::utf8::encode_utf8(s@.manufacturer_name),
        ),
        shows_text(
            s.attr(AttributeId(0x0005), cap),
            vstd::utf8::encode_utf8(s@.model_identifier),
        ),
        s@.power_source != 0xff ==> crate::types::value_laws::reads(
            s.attr(AttributeId(0x0007), cap),
            0x20,
            1,
            s@.power_source as int,
        ),
        crate::types::value_laws::reads(
            s.attr(AttributeId(0x0012), cap),
            0x10,
            1,
            if s@.device_enabled {
                1
            } else {
                0
            },
        ),
        forall|id: u16|
            id != 0x0000 && id != 0x0004 && id != 0x0005 && id != 0x0007 && id != 0x0012
                ==> crate::types::value_laws::missing(#[trigger] s.attr(AttributeId(id), cap)),
        BasicServer::attribute_infos().len() == 5,
        crate::types::value_laws::entry(
            BasicServer::attribute_infos()[0],
            0x0000,
            0x20,
            false,
            false,
        ),
        crate::types::value_laws::entry(
            BasicServer::attribute_infos()[1],
            0x0004,
            0x42,
            false,
            false,
        ),
        crate::types::value_laws::entry(
            BasicServer::attribute_infos()[2],
            0x0005,
            0x42,
            false,
            false,
        ),
        crate::types::value_laws::entry(
            BasicServer::attribute_infos()[3],
            0x0007,
            0x20,
            false,
            false,
        ),
        crate::types::value_laws::entry(
            BasicServer::attribute_infos()[4],
            0x0012,
            0x10,
            true,
            false,
        ),
{
}

/// Of the basic cluster only whether the device is enabled can be written: one byte, 0 or 1.
pub proof fn law_enabling_can_be_written(
    pre: BasicServer,
    id: u16,
    t: TypeId,
    d: Seq<u8>,
    post: BasicServer,
    r: Result<(), AttrError>,
)
    requires
        BasicServer::wrote(pre, AttributeId(id), t, d, post, r),
    ensures
        r is Ok <==> id == 0x0012 && t.code() == 0x10 && d.len() == 1 && d[0] <= 1,
        r is Ok ==> (post@.device_enabled <==> d[0] == 1),
        r is Err ==> post@ == pre@,
        post@.zcl_version == pre@.zcl_version,
        post@.manufacturer_name == pre@.manufacturer_name,
        post@.model_identifier == pre@.model_identifier,
        post@.power_source == pre@.power_source,
        id == 0x0000 || id == 0x0004 || id == 0x0005 || id == 0x0007 ==> r == Err::<(), AttrError>(
            AttrError::ReadOnly,
        ),
        id == 0x0012 && t.code() != 0x10 ==> r == Err::<(), AttrError>(AttrError::InvalidDataType),
        id != 0x0000 && id != 0x0004 && id != 0x0005 && id != 0x0007 && id != 0x0012 ==> r == Err::<
            (),
            AttrError,
        >(AttrError::UnsupportedAttribute),
        r == pre.write_check(AttributeId(id), t, d),
{
}

/// None of these clusters supports a command.
pub proof fn law_no_commands(
    id: u8,
    p: Seq<u8>,
    ctx: DispatchContext,
    before: Seq<u8>,
    body: Seq<u8>,
    r: Result<CommandResult, ZclError>,
    time: (TimeServer, TimeServer),
    power: (PowerConfigServer, PowerConfigServer),
    basic: (BasicServer, BasicServer),
)
    ensures
        TimeServer::handled(time.0, CommandId(id), p, ctx, before, time.1, body, r) ==> time.1
            == time.0 && crate::common::answer_laws::told(0x81, before, body, r),
        PowerConfigServer::handled(power.0, CommandId(id), p, ctx, before, power.1, body, r)
            ==> power.1@ == power.0@ && crate::common::answer_laws::told(0x81, before, body, r),
        BasicServer::handled(basic.0, CommandId(id), p, ctx, before, basic.1, body, r) ==> basic.1@
            == basic.0@ && crate::common::answer_laws::told(0x81, before, body, r),
{
}

} // verus!
