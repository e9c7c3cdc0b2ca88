//! What the measurement clusters show, and what they take.

use vstd::prelude::*;

use crate::cluster_server::ClusterServer;
use crate::context::CommandResult;
use crate::context::DispatchContext;
use crate::measurement::electrical::ElectricalMeasurementServer;
use crate::measurement::electrical::ElectricalState;
use crate::measurement::illuminance::IlluminanceMeasurementServer;
use crate::measurement::illuminance::IlluminanceState;
use crate::measurement::occupancy::OccupancySensingServer;
use crate::measurement::occupancy::OccupancyState;
use crate::measurement::server::MeasurementServer;
use crate::measurement::server::MeasurementState;
use crate::types::codec::ReadSpec;
use crate::types::enums::LightSensorType;
use crate::types::enums::OccupancySensorType;
use crate::types::error::AttrError;
use crate::types::error::ZclError;
use crate::types::ids::AttributeId;
use crate::types::ids::CommandId;
use crate::types::ids::TypeId;

verus! {

/// What was read is a signed 16-bit number, or -32768 where there is none.
pub open spec fn shows_signed(read: ReadSpec, v: Option<i16>) -> bool {
    match v {
        Some(x) => x != i16::MIN ==> crate::types::value_laws::reads(read, 0x29, 2, x as int),
        None => crate::types::value_laws::reads(read, 0x29, 2, -0x8000),
    }
}

/// What was read is an unsigned 16-bit number, or 0xffff where there is none.
pub open spec fn shows_unsigned(read: ReadSpec, v: Option<u16>) -> bool {
    match v {
        Some(x) => x != 0xffff ==> crate::types::value_laws::reads(read, 0x21, 2, x as int),
        None => crate::types::value_laws::reads(read, 0x21, 2, 0xffff),
    }
}

/// What each attribute of a cluster with signed measurements reads as.
pub proof fn law_signed_measurements_show<const CLUSTER: u16>(
    s: MeasurementServer<i16, CLUSTER>,
    cap: nat,
)
    requires
        cap >= 2,
    ensures
        shows_signed(s.attr(AttributeId(0x0000), cap), s@.measured),
        shows_signed(s.attr(AttributeId(0x0001), cap), s@.min),
        shows_signed(s.attr(AttributeId(0x0002), cap), s@.max),
        shows_unsigned(s.attr(AttributeId(0x0003), cap), Some(s@.tolerance)),
        crate::types::value_laws::reads(s.attr(AttributeId(0xFFFD), cap), 0x21, 2, 1),
        forall|id: u16|
            id > 0x0003 && id != 0xFFFD ==> crate::types::value_laws::missing(
                #[trigger] s.attr(AttributeId(id), cap),
            ),
{
}

/// What each attribute of a cluster with unsigned measurements reads as.
pub proof fn law_unsigned_measurements_show<const CLUSTER: u16>(
    s: MeasurementServer<u16, CLUSTER>,
    cap: nat,
)
    requires
        cap >= 2,
    ensures
        shows_unsigned(s.attr(AttributeId(0x0000), cap), s@.measured),
        shows_unsigned(s.attr(AttributeId(0x0001), cap), s@.min),
        shows_unsigned(s.attr(AttributeId(0x0002), cap), s@.max),
        shows_unsigned(s.attr(AttributeId(0x0003), cap), Some(s@.tolerance)),
        crate::types::value_laws::reads(s.attr(AttributeId(0xFFFD), cap), 0x21, 2, 1),
        forall|id: u16|
            id > 0x0003 && id != 0xFFFD ==> crate::types::value_laws::missing(
                #[trigger] s.attr(AttributeId(id), cap),
            ),
{
}

/// What discovery lists of the measurement clusters.
pub proof fn law_measurements_discovered<const CLUSTER: u16>()
    ensures
        ({
            let list = MeasurementServer::<i16, CLUSTER>::attribute_infos();
            &&& list.len() == 5
            &&& crate::types::value_laws::entry(list[0], 0x0000, 0x29, false, true)
            &&& crate::types::value_laws::entry(list[1], 0x0001, 0x29, false, false)
            &&& crate::types::value_laws::entry(list[2], 0x0002, 0x29, false, false)
            &&& crate::types::value_laws::entry(list[3], 0x0003, 0x21, false, false)
            &&& crate::types::value_laws::entry(list[4], 0xFFFD, 0x21, false, false)
        }),
        ({
            let list = MeasurementServer::<u16, CLUSTER>::attribute_infos();
            &&& list.len() == 5
            &&& crate::types::value_laws::entry(list[0], 0x0000, 0x21, false, true)
            &&& crate::types::value_laws::entry(list[1], 0x0001, 0x21, false, false)
            &&& crate::types::value_laws::entry(list[2], 0x0002, 0x21, false, false)
            &&& crate::types::value_laws::entry(list[3], 0x0003, 0x21, false, false)
            &&& crate::types::value_laws::entry(list[4], 0xFFFD, 0x21, false, false)
        }),
{
}

/// A measured value is taken exactly if it is not below a lower bound and not above an
/// upper bound that are known, and these do not cross; a value that is taken makes a report
/// of it pending, and one that is not changes nothing.
pub proof fn law_measured_value_stays_in_bounds(
    pre: MeasurementState<i16>,
    v: Option<i16>,
    post: MeasurementState<i16>,
    r: Result<(), AttrError>,
    k: int,
)
    requires
        pre.reporting.distinct(),
        pre.set(pre.with_measured(v), post, r),
    ensures
        r is Ok <==> !(v is Some && pre.min is Some && v->0 < pre.min->0) && !(v is Some
            && pre.max is Some && v->0 > pre.max->0) && !(pre.min is Some && pre.max is Some
            && pre.min->0 > pre.max->0),
        r is Err ==> r == Err::<(), AttrError>(AttrError::InvalidValue) && post == pre,
        r is Ok ==> post.measured == v && post.min == pre.min && post.max == pre.max
            && post.tolerance == pre.tolerance,
        r is Ok && 0 <= k < pre.reporting.entries.len() && pre.reporting.entries[k].attr_id
            == AttributeId(0) ==> post.reporting.entries[k].pending,
{
    if 0 <= k < pre.reporting.entries.len() {
        crate::reporting_laws::law_only_the_update_becomes_pending(
            pre.reporting,
            AttributeId(0),
            k,
        );
    }
}

/// The same of an unsigned measurement.
pub proof fn law_unsigned_value_stays_in_bounds(
    pre: MeasurementState<u16>,
    v: Option<u16>,
    post: MeasurementState<u16>,
    r: Result<(), AttrError>,
)
    requires
        pre.set(pre.with_measured(v), post, r),
    ensures
        r is Ok <==> !(v is Some && pre.min is Some && v->0 < pre.min->0) && !(v is Some
            && pre.max is Some && v->0 > pre.max->0) && !(pre.min is Some && pre.max is Some
            && pre.min->0 > pre.max->0),
        r is Err ==> post == pre,
        r is Ok ==> post.measured == v && post.min == pre.min && post.max == pre.max
            && post.tolerance == pre.tolerance,
{
}

/// In a snapshot each value is a byte that says whether it is known and two bytes, in the
/// order measured value, lower bound, upper bound; the tolerance follows.
pub proof fn law_signed_snapshot_layout<const CLUSTER: u16>(
    s: MeasurementServer<i16, CLUSTER>,
    cap: nat,
)
    ensures
        cap < 11 ==> s.snapshot_bytes(cap).len() == 0,
        cap >= 11 ==> {
            let b = s.snapshot_bytes(cap);
            &&& b.len() == 11
            &&& holds_signed(b, 0, s@.measured)
            &&& holds_signed(b, 3, s@.min)
            &&& holds_signed(b, 6, s@.max)
            &&& b[9] + 256 * b[10] == s@.tolerance
        },
{
}

/// Three bytes of a snapshot hold a signed number, or none.
pub open spec fn holds_signed(b: Seq<u8>, at: int, v: Option<i16>) -> bool {
    match v {
        Some(x) => b[at] == 1 && b[at + 1] + 256 * b[at + 2] == if x < 0 {
            x + 65536
        } else {
            x as int
        },
        None => b[at] == 0 && b[at + 1] == 0 && b[at + 2] == 0,
    }
}

/// Restoring sets the values that eleven bytes hold; fewer bytes change nothing.
pub proof fn law_restoring_sets_the_measurements<const CLUSTER: u16>(
    pre: MeasurementServer<i16, CLUSTER>,
    data: Seq<u8>,
    post: MeasurementServer<i16, CLUSTER>,
)
    requires
        MeasurementServer::<i16, CLUSTER>::restored(pre, data, post),
    ensures
        data.len() < 11 ==> post@ == pre@,
        data.len() >= 11 ==> {
            &&& restores_signed(data, 0, post@.measured)
            &&& restores_signed(data, 3, post@.min)
            &&& restores_signed(data, 6, post@.max)
            &&& post@.tolerance == data[9] + 256 * data[10]
            &&& post@.reporting == pre@.reporting
        },
{
}

/// The value that three bytes of a snapshot hold.
pub open spec fn restores_signed(b: Seq<u8>, at: int, v: Option<i16>) -> bool {
    let raw = b[at + 1] + 256 * b[at + 2];
    if b[at] == 0 {
        v is None
    } else {
        v is Some && v->0 == if raw >= 32768 {
            raw - 65536
        } else {
            raw
        }
    }
}

/// What each attribute of the illuminance cluster reads as.
pub proof fn law_illuminance_shows(s: IlluminanceMeasurementServer, cap: nat)
    requires
        cap >= 2,
    ensures
        shows_unsigned(s.attr(AttributeId(0x0000), cap), s.measured_value),
        shows_unsigned(s.attr(AttributeId(0x0001), cap), s.min_measured_value),
        shows_unsigned(s.attr(AttributeId(0x0002), cap), s.max_measured_value),
        shows_unsigned(s.attr(AttributeId(0x0003), cap), Some(s.tolerance)),
        crate::types::value_laws::reads(
            s.attr(AttributeId(0x0004), cap),
            0x30,
            1,
            match s.light_sensor_type {
                None => 0xff,
                Some(LightSensorType::Photodiode) => 0,
                Some(LightSensorType::Cmos) => 1,
            },
        ),
        crate::types::value_laws::reads(s.attr(AttributeId(0xFFFD), cap), 0x21, 2, 1),
        forall|id: u16|
            id > 0x0004 && id != 0xFFFD ==> crate::types::value_laws::missing(
                #[trigger] s.attr(AttributeId(id), cap),
            ),
        IlluminanceState::initial().measured is None,
        IlluminanceState::initial().min is None,
        IlluminanceState::initial().max is None,
        IlluminanceState::initial().tolerance == 0,
        IlluminanceState::initial().sensor is None,
{
}

/// What discovery lists of the illuminance cluster.
pub proof fn law_illuminance_discovered()
    ensures
        ({
            let list = IlluminanceMeasurementServer::attribute_infos();
            &&& list.len() == 6
            &&& crate::types::value_laws::entry(list[0], 0x0000, 0x21, false, true)
            &&& crate::types::value_laws::entry(list[1], 0x0001, 0x21, false, false)
            &&& crate::types::value_laws::entry(list[2], 0x0002, 0x21, false, false)
            &&& crate::types::value_laws::entry(list[3], 0x0003, 0x21, false, false)
            &&& crate::types::value_laws::entry(list[4], 0x0004, 0x30, false, false)
            &&& crate::types::value_laws::entry(list[5], 0xFFFD, 0x21, false, false)
        }),
{
}

/// What each attribute of the occupancy cluster reads as.
pub proof fn law_occupancy_shows(s: OccupancySensingServer, cap: nat)
    requires
        cap >= 2,
    ensures
        crate::types::value_laws::reads(s.attr(AttributeId(0x0000), cap), 0x18, 1, if s@.occupied {
            1
        } else {
            0
        }),
        crate::types::value_laws::reads(
            s.attr(AttributeId(0x0001), cap),
            0x30,
            1,
            match s@.sensor {
                OccupancySensorType::Pir => 0,
                OccupancySensorType::Ultrasonic => 1,
                OccupancySensorType::PirAndUltrasonic => 2,
                OccupancySensorType::PhysicalContact => 3,
            },
        ),
        crate::types::value_laws::reads(
            s.attr(AttributeId(0x0002), cap),
            0x18,
            1,
            s@.sensor_bitmap as int,
        ),
        crate::types::value_laws::reads(s.attr(AttributeId(0xFFFD), cap), 0x21, 2, 1),
        forall|id: u16|
            id > 0x0002 && id != 0xFFFD ==> crate::types::value_laws::missing(
                #[trigger] s.attr(AttributeId(id), cap),
            ),
        OccupancySensingServer::attribute_infos().len() == 4,
        crate::types::value_laws::entry(
            OccupancySensingServer::attribute_infos()[0],
            0x0000,
            0x18,
            false,
            true,
        ),
        crate::types::value_laws::entry(
            OccupancySensingServer::attribute_infos()[1],
            0x0001,
            0x30,
            false,
            false,
        ),
        crate::types::value_laws::entry(
            OccupancySensingServer::attribute_infos()[2],
            0x0002,
            0x18,
            false,
            false,
        ),
        crate::types::value_laws::entry(
            OccupancySensingServer::attribute_infos()[3],
            0xFFFD,
            0x21,
            false,
            false,
        ),
{
}

/// An observation sets the occupancy. A report of it becomes pending if the occupancy
/// changed; else nothing does.
pub proof fn law_observation_is_kept(s: OccupancyState, occupied: bool, k: int)
    requires
        s.reporting.distinct(),
        0 <= k < s.reporting.entries.len(),
        s.reporting.entries[k].attr_id == AttributeId(0),
    ensures
        s.observed(occupied).occupied == occupied,
        s.observed(occupied).sensor == s.sensor,
        s.observed(occupied).sensor_bitmap == s.sensor_bitmap,
        s.observed(s.occupied) == s,
        s.observed(!s.occupied).reporting.entries[k].pending,
{
    crate::reporting_laws::law_only_the_update_becomes_pending(s.reporting, AttributeId(0), k);
}

/// A new occupancy server is unoccupied, and keeps the lowest three bits of the bitmap.
pub proof fn law_new_occupancy(sensor: OccupancySensorType, bitmap: u8)
    ensures
        !OccupancyState::initial(sensor, bitmap).occupied,
        OccupancyState::initial(sensor, bitmap).sensor == sensor,
        OccupancyState::initial(sensor, bitmap).sensor_bitmap == bitmap % 8,
{
    assert(bitmap & 0x07 == bitmap % 8) by (bit_vector);
}

/// What each attribute of the electrical cluster reads as.
pub proof fn law_electrical_shows(s: ElectricalMeasurementServer, cap: nat)
    requires
        cap >= 4,
    ensures
        crate::types::value_laws::reads(
            s.attr(AttributeId(0x0000), cap),
            0x1b,
            4,
            s@.measurement_type as int,
        ),
        shows_unsigned(s.attr(AttributeId(0x0505), cap), s@.rms_voltage),
        shows_unsigned(s.attr(AttributeId(0x0508), cap), s@.rms_current),
        shows_signed(s.attr(AttributeId(0x050B), cap), s@.active_power),
        s@.power_factor is None ==> crate::types::value_laws::reads(
            s.attr(AttributeId(0x0510), cap),
            0x28,
            1,
            -0x80,
        ),
        s@.power_factor is Some && s@.power_factor->0 != i8::MIN
            ==> crate::types::value_laws::reads(
            s.attr(AttributeId(0x0510), cap),
            0x28,
            1,
            s@.power_factor->0 as int,
        ),
        crate::types::value_laws::reads(s.attr(AttributeId(0xFFFD), cap), 0x21, 2, 1),
        forall|id: u16|
            id != 0x0000 && id != 0x0505 && id != 0x0508 && id != 0x050B && id != 0x0510 && id
                != 0xFFFD ==> crate::types::value_laws::missing(
                #[trigger] s.attr(AttributeId(id), cap),
            ),
{
}

/// What discovery lists of the electrical cluster.
pub proof fn law_electrical_discovered()
    ensures
        ({
            let list = ElectricalMeasurementServer::attribute_infos();
            &&& list.len() == 6
            &&& crate::types::value_laws::entry(list[0], 0x0000, 0x1b, false, false)
            &&& crate::types::value_laws::entry(list[1], 0x0505, 0x21, false, false)
            &&& crate::types::value_laws::entry(list[2], 0x0508, 0x21, false, false)
            &&& crate::types::value_laws::entry(list[3], 0x050B, 0x29, false, true)
            &&& crate::types::value_laws::entry(list[4], 0x0510, 0x28, false, false)
            &&& crate::types::value_laws::entry(list[5], 0xFFFD, 0x21, false, false)
        }),
{
}

/// Nothing is known of a new electrical server but that it measures active power; and the
/// patterns for "unknown" set a reading to unknown, while any other number is kept.
pub proof fn law_electrical_readings(u: u16, s: i16, b: i8)
    ensures
        ElectricalState::initial().measurement_type == 8,
        ElectricalState::initial().rms_voltage is None,
        ElectricalState::initial().rms_current is None,
        ElectricalState::initial().active_power is None,
        ElectricalState::initial().power_factor is None,
        u < 0xffff ==> ElectricalState::known_u16(Some(u)) == Some(u),
        ElectricalState::known_u16(Some(0xffff)) is None,
        ElectricalState::known_u16(None) is None,
        s > -0x8000 ==> ElectricalState::known_i16(Some(s)) == Some(s),
        ElectricalState::known_i16(Some(i16::MIN)) is None,
        ElectricalState::known_i16(None) is None,
        b > -0x80 ==> ElectricalState::known_i8(Some(b)) == Some(b),
        ElectricalState::known_i8(Some(i8::MIN)) is None,
        ElectricalState::known_i8(None) is None,
{
}

/// Measurements can only be read: a write of an attribute that is there is refused as
/// read-only, one of another as unsupported, and no command is supported.
pub proof fn law_measurements_are_only_read<const CLUSTER: u16>(
    pre: MeasurementServer<i16, CLUSTER>,
    id: u16,
    t: TypeId,
    data: Seq<u8>,
    post: MeasurementServer<i16, CLUSTER>,
    r: Result<(), AttrError>,
)
    requires
        MeasurementServer::<i16, CLUSTER>::wrote(pre, AttributeId(id), t, data, post, r),
    ensures
        post@ == pre@,
        id <= 0x0003 || id == 0xFFFD ==> r == Err::<(), AttrError>(AttrError::ReadOnly),
        id > 0x0003 && id != 0xFFFD ==> r == Err::<(), AttrError>(AttrError::UnsupportedAttribute),
        r == pre.write_check(AttributeId(id), t, data),
{
}

/// The same of illuminance, occupancy and electrical measurement.
pub proof fn law_other_measurements_are_only_read(
    light: (IlluminanceMeasurementServer, IlluminanceMeasurementServer, Result<(), AttrError>),
    presence: (OccupancySensingServer, OccupancySensingServer, Result<(), AttrError>),
    power: (ElectricalMeasurementServer, ElectricalMeasurementServer, Result<(), AttrError>),
    id: u16,
    t: TypeId,
    data: Seq<u8>,
)
    requires
        IlluminanceMeasurementServer::wrote(light.0, AttributeId(id), t, data, light.1, light.2),
        OccupancySensingServer::wrote(
            presence.0,
            AttributeId(id),
            t,
            data,
            presence.1,
            presence.2,
        ),
        ElectricalMeasurementServer::wrote(power.0, AttributeId(id), t, data, power.1, power.2),
    ensures
        light.1@ == light.0@,
        light.2 == Err::<(), AttrError>(if id <= 0x0004 || id == 0xFFFD {
            AttrError::ReadOnly
        } else {
            AttrError::UnsupportedAttribute
        }),
        presence.1@ == presence.0@,
        presence.2 == Err::<(), AttrError>(if id <= 0x0002 || id == 0xFFFD {
            AttrError::ReadOnly
        } else {
            AttrError::UnsupportedAttribute
        }),
        power.1@ == power.0@,
        power.2 == Err::<(), AttrError>(
            if id == 0x0000 || id == 0x0505 || id == 0x0508 || id == 0x050B || id == 0x0510 || id
                == 0xFFFD {
                AttrError::ReadOnly
            } else {
                AttrError::UnsupportedAttribute
            },
        ),
{
}

/// No measurement cluster supports a command.
pub proof fn law_measurements_take_no_commands<const CLUSTER: u16>(
    pre: MeasurementServer<i16, CLUSTER>,
    id: u8,
    p: Seq<u8>,
    ctx: DispatchContext,
    before: Seq<u8>,
    post: MeasurementServer<i16, CLUSTER>,
    body: Seq<u8>,
    r: Result<CommandResult, ZclError>,
)
    requires
        MeasurementServer::<i16, CLUSTER>::handled(
            pre,
            CommandId(id),
            p,
            ctx,
            before,
            post,
            body,
            r,
        ),
    ensures
        post@ == pre@,
        crate::common::answer_laws::told(0x81, before, body, r),
{
}

/// The same of the other measurement clusters.
pub proof fn law_other_measurements_take_no_commands<const CLUSTER: u16>(
    id: u8,
    p: Seq<u8>,
    ctx: DispatchContext,
    before: Seq<u8>,
    body: Seq<u8>,
    r: Result<CommandResult, ZclError>,
    flow: (MeasurementServer<u16, CLUSTER>, MeasurementServer<u16, CLUSTER>),
    light: (IlluminanceMeasurementServer, IlluminanceMeasurementServer),
    presence: (OccupancySensingServer, OccupancySensingServer),
    power: (ElectricalMeasurementServer, ElectricalMeasurementServer),
)
    ensures
        MeasurementServer::<u16, CLUSTER>::handled(
            flow.0,
            CommandId(id),
            p,
            ctx,
            before,
            flow.1,
            body,
            r,
        ) ==> flow.1@ == flow.0@ && crate::common::answer_laws::told(0x81, before, body, r),
        IlluminanceMeasurementServer::handled(
            light.0,
            CommandId(id),
            p,
            ctx,
            before,
            light.1,
            body,
            r,
        ) ==> light.1@ == light.0@ && crate::common::answer_laws::told(0x81, before, body, r),
        OccupancySensingServer::handled(
            presence.0,
            CommandId(id),
            p,
            ctx,
            before,
            presence.1,
            body,
            r,
        ) ==> presence.1@ == presence.0@ && crate::common::answer_laws::told(
            0x81,
            before,
            body,
            r,
        ),
        ElectricalMeasurementServer::handled(
            power.0,
            CommandId(id),
            p,
            ctx,
            before,
            power.1,
            body,
            r,
        ) ==> power.1@ == power.0@ && crate::common::answer_laws::told(0x81, before, body, r),
{
}

} // verus!
