//! What writes and commands of the thermostat cluster come to, over the bytes that are
//! written and read.

use vstd::prelude::*;

use crate::cluster_server::ClusterServer;
use crate::context::CommandResult;
use crate::context::DispatchContext;
use crate::frame::Status;
use crate::hvac::thermostat::ThermostatServer;
use crate::types::enums::ThermostatControlSequence;
use crate::types::enums::ThermostatSystemMode;
use crate::types::error::AttrError;
use crate::types::error::ZclError;
use crate::types::ids::AttributeId;
use crate::types::ids::CommandId;
use crate::types::ids::TypeId;

verus! {

/// A system that only cools (control sequences 0 and 1) can be off and cool; one that
/// only heats (2 and 3) can be off, heat, and heat in an emergency; one that does both
/// (4 and 5) can do all of these, and choose by itself. The modes are 0 off, 1 auto, 3
/// cool, 4 heat, 5 emergency heating.
pub open spec fn can_run(sequence: u8, mode: u8) -> bool {
    ||| sequence <= 5 && mode == 0
    ||| (sequence == 4 || sequence == 5) && mode == 1
    ||| (sequence == 0 || sequence == 1 || sequence == 4 || sequence == 5) && mode == 3
    ||| 2 <= sequence <= 5 && (mode == 4 || mode == 5)
}

/// The system modes that a thermostat takes are those that its control sequence can
/// run. What it takes is read back, and what it does not take changes nothing.
pub proof fn law_system_mode_follows_the_control_sequence(
    pre: ThermostatServer,
    sequence: u8,
    mode: u8,
    post: ThermostatServer,
    r: Result<(), AttrError>,
    cap: nat,
)
    requires
        cap >= 1,
        pre.attr(AttributeId(0x001B), cap) == Ok::<(TypeId, Seq<u8>), AttrError>(
            (TypeId::Enum8, seq![sequence]),
        ),
        ThermostatServer::wrote(
            pre,
            AttributeId(0x001C),
            TypeId::Enum8,
            seq![mode],
            post,
            r,
        ),
    ensures
        sequence <= 5,
        r is Ok <==> can_run(sequence, mode),
        r is Ok ==> post.attr(AttributeId(0x001C), cap) == Ok::<(TypeId, Seq<u8>), AttrError>(
            (TypeId::Enum8, seq![mode]),
        ) && post.attr(AttributeId(0x001B), cap) == pre.attr(AttributeId(0x001B), cap),
        r is Err ==> post@ == pre@ && r->Err_0 == AttrError::InvalidValue,
        pre.write_check(AttributeId(0x001C), TypeId::Enum8, seq![mode]) == r,
{
    assert(seq![pre.control_sequence.raw()][0] == seq![sequence][0]);
    assert(seq![mode][0] == mode);
}

/// The control sequences that a thermostat takes are those that can run its system
/// mode. What it takes is read back, and what it does not take changes nothing.
pub proof fn law_control_sequence_follows_the_system_mode(
    pre: ThermostatServer,
    mode: u8,
    sequence: u8,
    post: ThermostatServer,
    r: Result<(), AttrError>,
    cap: nat,
)
    requires
        cap >= 1,
        pre.attr(AttributeId(0x001C), cap) == Ok::<(TypeId, Seq<u8>), AttrError>(
            (TypeId::Enum8, seq![mode]),
        ),
        ThermostatServer::wrote(
            pre,
            AttributeId(0x001B),
            TypeId::Enum8,
            seq![sequence],
            post,
            r,
        ),
    ensures
        r is Ok <==> can_run(sequence, mode),
        r is Ok ==> post.attr(AttributeId(0x001B), cap) == Ok::<(TypeId, Seq<u8>), AttrError>(
            (TypeId::Enum8, seq![sequence]),
        ) && post.attr(AttributeId(0x001C), cap) == pre.attr(AttributeId(0x001C), cap),
        r is Err ==> post@ == pre@ && r->Err_0 == AttrError::InvalidValue,
        pre.write_check(AttributeId(0x001B), TypeId::Enum8, seq![sequence]) == r,
{
    assert(seq![pre.system_mode.raw()][0] == seq![mode][0]);
    assert(seq![sequence][0] == sequence);
}

/// A setpoint takes any two bytes but those of the value that is set aside for "none".
/// Attribute 0x0011 is the cooling setpoint, and 0x0012 the heating setpoint.
pub proof fn law_setpoint_is_taken(
    pre: ThermostatServer,
    id: AttributeId,
    low: u8,
    high: u8,
    post: ThermostatServer,
    r: Result<(), AttrError>,
)
    requires
        id.0 == 0x0011 || id.0 == 0x0012,
        ThermostatServer::wrote(pre, id, TypeId::Int16, seq![low, high], post, r),
    ensures
        ({
            let bits = low + 256 * high;
            let value = if bits >= 32768 {
                bits - 65536
            } else {
                bits
            };
            &&& r is Err <==> bits == 0x8000
            &&& r is Err ==> post@ == pre@
            &&& r is Ok && id.0 == 0x0011 ==> post.occupied_cooling_setpoint == value
                && post.occupied_heating_setpoint == pre.occupied_heating_setpoint
            &&& r is Ok && id.0 == 0x0012 ==> post.occupied_heating_setpoint == value
                && post.occupied_cooling_setpoint == pre.occupied_cooling_setpoint
        }),
{
    assert(seq![low, high][0] == low && seq![low, high][1] == high);
}

/// A value of another type, of another length, or for an attribute that is read-only or
/// not there, is refused.
pub proof fn law_other_writes_are_refused(
    pre: ThermostatServer,
    id: AttributeId,
    type_id: TypeId,
    data: Seq<u8>,
    post: ThermostatServer,
    r: Result<(), AttrError>,
)
    requires
        ThermostatServer::wrote(pre, id, type_id, data, post, r),
    ensures
        (id.0 == 0x0011 || id.0 == 0x0012) && (type_id != TypeId::Int16 || data.len() != 2) ==> r
            is Err && post@ == pre@,
        (id.0 == 0x001B || id.0 == 0x001C) && (type_id != TypeId::Enum8 || data.len() != 1) ==> r
            is Err && post@ == pre@,
        id.0 == 0x0000 || id.0 == 0xFFFD ==> r == Err::<(), AttrError>(AttrError::ReadOnly) && post@
            == pre@,
        id.0 != 0x0000 && id.0 != 0x0011 && id.0 != 0x0012 && id.0 != 0x001B && id.0 != 0x001C
            && id.0 != 0xFFFD ==> r == Err::<(), AttrError>(AttrError::UnsupportedAttribute)
            && post@ == pre@,
        r == pre.write_check(id, type_id, data),
{
}

/// `after` is `before` moved by `tenths` tenths of a degree, as far as 16 bits go.
pub open spec fn moved_by(before: i16, tenths: int, after: i16) -> bool {
    let aim = before + 10 * tenths;
    &&& -32768 <= aim <= 32767 ==> after == aim
    &&& aim > 32767 ==> after == 32767
    &&& aim < -32768 ==> after == -32768
}

/// Raising or lowering moves the heating setpoint for mode 0, the cooling setpoint for
/// mode 1, and both for mode 2, by a signed number of tenths of a degree, where a setpoint
/// is in hundredths. Nothing else changes.
pub proof fn law_setpoints_move_by_the_amount(
    pre: ThermostatServer,
    p: Seq<u8>,
    ctx: DispatchContext,
    before: Seq<u8>,
    post: ThermostatServer,
    body: Seq<u8>,
    r: Result<CommandResult, ZclError>,
)
    requires
        p.len() >= 2,
        ThermostatServer::handled(pre, CommandId(0x00), p, ctx, before, post, body, r),
    ensures
        ({
            let tenths = if p[1] >= 128 {
                p[1] - 256
            } else {
                p[1] as int
            };
            &&& p[0] == 0 || p[0] == 2 ==> moved_by(
                pre.occupied_heating_setpoint,
                tenths,
                post.occupied_heating_setpoint,
            )
            &&& p[0] == 1 || p[0] == 2 ==> moved_by(
                pre.occupied_cooling_setpoint,
                tenths,
                post.occupied_cooling_setpoint,
            )
        }),
        p[0] == 1 ==> post.occupied_heating_setpoint == pre.occupied_heating_setpoint,
        p[0] == 0 ==> post.occupied_cooling_setpoint == pre.occupied_cooling_setpoint,
        p[0] <= 2 ==> r == Ok::<CommandResult, ZclError>(
            CommandResult::DefaultResponse(Status::Success),
        ),
        p[0] > 2 ==> post@ == pre@ && r == Ok::<CommandResult, ZclError>(
            CommandResult::DefaultResponse(Status::InvalidField),
        ),
        post.control_sequence == pre.control_sequence,
        post.system_mode == pre.system_mode,
        post.local_temperature == pre.local_temperature,
{
}

/// Lowering by an amount undoes raising by it, where no limit was met.
pub proof fn law_lowering_undoes_raising(
    pre: ThermostatServer,
    mode: u8,
    up: u8,
    down: u8,
    ctx: DispatchContext,
    before: Seq<u8>,
    mid: ThermostatServer,
    end: ThermostatServer,
    r: Result<CommandResult, ZclError>,
    s: Result<CommandResult, ZclError>,
)
    requires
        mode <= 2,
        0 < up < 128,
        up + down == 256,
        pre.occupied_heating_setpoint + 10 * up <= 32767,
        pre.occupied_cooling_setpoint + 10 * up <= 32767,
        ThermostatServer::handled(
            pre,
            CommandId(0x00),
            seq![mode, up],
            ctx,
            before,
            mid,
            before,
            r,
        ),
        ThermostatServer::handled(
            mid,
            CommandId(0x00),
            seq![mode, down],
            ctx,
            before,
            end,
            before,
            s,
        ),
    ensures
        end.occupied_heating_setpoint == pre.occupied_heating_setpoint,
        end.occupied_cooling_setpoint == pre.occupied_cooling_setpoint,
        mid.occupied_heating_setpoint > pre.occupied_heating_setpoint
            || mid.occupied_cooling_setpoint > pre.occupied_cooling_setpoint,
{
}

/// The attributes show the state: local temperature, setpoints, control sequence, mode.
pub proof fn law_attributes_show_the_state(s: ThermostatServer, cap: nat)
    requires
        cap >= 2,
    ensures
        s.local_temperature is None ==> s.attr(AttributeId(0x0000), cap) == Ok::<
            (TypeId, Seq<u8>),
            AttrError,
        >((TypeId::Int16, seq![0x00u8, 0x80u8])),
        s.local_temperature matches Some(v) && v != i16::MIN ==> shows_i16(
            s,
            0x0000,
            s.local_temperature->0,
            cap,
        ),
        s.occupied_cooling_setpoint != i16::MIN ==> shows_i16(
            s,
            0x0011,
            s.occupied_cooling_setpoint,
            cap,
        ),
        s.occupied_heating_setpoint != i16::MIN ==> shows_i16(
            s,
            0x0012,
            s.occupied_heating_setpoint,
            cap,
        ),
        s.attr(AttributeId(0xFFFD), cap) == Ok::<(TypeId, Seq<u8>), AttrError>(
            (TypeId::Uint16, seq![3u8, 0u8]),
        ),
{
}

/// The attribute reads as `v`, two bytes with the lower one first.
pub open spec fn shows_i16(s: ThermostatServer, id: u16, v: i16, cap: nat) -> bool {
    s.attr(AttributeId(id), cap) matches Ok((type_id, bytes)) && {
        &&& type_id == TypeId::Int16
        &&& bytes.len() == 2
        &&& bytes[0] + 256 * bytes[1] == v || bytes[0] + 256 * bytes[1] == v + 65536
    }
}

/// The bytes of the control sequences and of the system modes.
pub proof fn law_bytes_of_sequences_and_modes()
    ensures
        ThermostatControlSequence::of(0) == Some(ThermostatControlSequence::CoolingOnly),
        ThermostatControlSequence::of(1) == Some(ThermostatControlSequence::CoolingWithReheat),
        ThermostatControlSequence::of(2) == Some(ThermostatControlSequence::HeatingOnly),
        ThermostatControlSequence::of(3) == Some(ThermostatControlSequence::HeatingWithReheat),
        ThermostatControlSequence::of(4) == Some(ThermostatControlSequence::CoolingAndHeating),
        ThermostatControlSequence::of(5) == Some(
            ThermostatControlSequence::CoolingAndHeatingWithReheat,
        ),
        ThermostatSystemMode::of(0) == Some(ThermostatSystemMode::Off),
        ThermostatSystemMode::of(1) == Some(ThermostatSystemMode::Auto),
        ThermostatSystemMode::of(3) == Some(ThermostatSystemMode::Cool),
        ThermostatSystemMode::of(4) == Some(ThermostatSystemMode::Heat),
        ThermostatSystemMode::of(5) == Some(ThermostatSystemMode::EmergencyHeating),
        ThermostatSystemMode::of(6) == Some(ThermostatSystemMode::Precooling),
        ThermostatSystemMode::of(7) == Some(ThermostatSystemMode::FanOnly),
        ThermostatSystemMode::of(8) == Some(ThermostatSystemMode::Dry),
        ThermostatSystemMode::of(9) == Some(ThermostatSystemMode::Sleep),
{
}

/// A snapshot holds the cooling setpoint, the heating setpoint, the control sequence and
/// the mode, in six bytes.
pub proof fn law_snapshot_layout(s: ThermostatServer, cap: nat)
    ensures
        cap < 6 ==> s.snapshot_bytes(cap).len() == 0,
        cap >= 6 ==> {
            let b = s.snapshot_bytes(cap);
            let cooling = b[0] + 256 * b[1];
            let heating = b[2] + 256 * b[3];
            &&& b.len() == 6
            &&& cooling == s.occupied_cooling_setpoint || cooling == s.occupied_cooling_setpoint
                + 65536
            &&& heating == s.occupied_heating_setpoint || heating == s.occupied_heating_setpoint
                + 65536
            &&& ThermostatControlSequence::of(b[4]) == Some(s.control_sequence)
            &&& ThermostatSystemMode::of(b[5]) == Some(s.system_mode)
        },
{
}

/// Restoring sets the two setpoints, and the control sequence and system mode where their
/// bytes are known; fewer than six bytes change nothing.
pub proof fn law_restoring_sets_the_state(
    pre: ThermostatServer,
    data: Seq<u8>,
    post: ThermostatServer,
)
    requires
        ThermostatServer::restored(pre, data, post),
    ensures
        data.len() < 6 ==> post@ == pre@,
        data.len() >= 6 ==> {
            let cooling = data[0] + 256 * data[1];
            let heating = data[2] + 256 * data[3];
            &&& post.occupied_cooling_setpoint == if cooling < 32768 {
                cooling
            } else {
                cooling - 65536
            }
            &&& post.occupied_heating_setpoint == if heating < 32768 {
                heating
            } else {
                heating - 65536
            }
            &&& ThermostatControlSequence::of(data[4]) matches Some(v) ==> post.control_sequence
                == v
            &&& data[4] > 5 ==> post.control_sequence == pre.control_sequence
            &&& ThermostatSystemMode::of(data[5]) matches Some(v) ==> post.system_mode == v
            &&& ThermostatSystemMode::of(data[5]) is None ==> post.system_mode == pre.system_mode
            &&& post.local_temperature == pre.local_temperature
            &&& post.reporting@ == pre.reporting@
        },
{
}

/// The attributes of the cluster: which can be written, and which reported.
pub proof fn law_discovered_attributes()
    ensures
        ({
            let list = ThermostatServer::attribute_infos();
            &&& list.len() == 6
            &&& list[0].id.0 == 0x0000 && list[0].type_id == TypeId::Int16
                && list[0].access.reportable && !list[0].access.writable
            &&& list[1].id.0 == 0x0011 && list[1].type_id == TypeId::Int16 && list[1].access.writable
            &&& list[2].id.0 == 0x0012 && list[2].type_id == TypeId::Int16 && list[2].access.writable
            &&& list[3].id.0 == 0x001B && list[3].type_id == TypeId::Enum8 && list[3].access.writable
            &&& list[4].id.0 == 0x001C && list[4].type_id == TypeId::Enum8 && list[4].access.writable
            &&& list[5].id.0 == 0xFFFD && list[5].type_id == TypeId::Uint16
                && !list[5].access.writable
        }),
{
}

} // verus!
