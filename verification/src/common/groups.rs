//! The groups cluster.

use vstd::prelude::*;

use crate::cluster_server::ClusterServer;
use crate::context::ClusterReportReady;
use crate::context::ClusterTick;
use crate::context::CommandResult;
use crate::context::ConfigureReportingRecord;
use crate::context::DispatchContext;
use crate::context::DispatchEffects;
use crate::context::ReportDeliveryResult;
use crate::context::ReportToken;
use crate::context::ReportingDiagnostics;
use crate::frame::Status;
use crate::reporting::ReportPayloadWriter;
use crate::types::codec::encode_attr;
use crate::types::codec::AttrValue;
use crate::types::codec::ReadSpec;
use crate::types::descriptors::AttrInfo;
use crate::types::error::AttrError;
use crate::types::error::ZclError;
use crate::types::ids::AttributeId;
use crate::types::ids::CommandId;
use crate::types::ids::TypeId;
use crate::bytes::copy_at;
use crate::bytes::high_byte;
use crate::bytes::low_byte;
use crate::bytes::read_u16;
use crate::bytes::Le;
use crate::common::reply::write_status_and_group;
use crate::common::reply::Reply;
use crate::context::GroupEffect;

verus! {

/// One entry of the group membership table.
#[derive(Clone, Copy, Debug, PartialEq, Eq)]
pub struct GroupEntry {
    pub id: u16,
    /// Group name set by the coordinator after each join. Not persistent.
    pub name: [u8; 16],
    pub name_len: u8,
}

/// A group and its name.
#[verifier::ext_equal]
pub struct GroupState {
    pub id: u16,
    pub name: Seq<u8>,
}

impl View for GroupEntry {
    type V = GroupState;

    open spec fn view(&self) -> GroupState {
        GroupState { id: self.id, name: self.name@.take(self.name_len as int) }
    }
}

impl GroupEntry {
    /// The name is padded with zeros.
    pub open spec fn wf(self) -> bool {
        &&& self.name_len <= 16
        &&& forall|k: int| self.name_len <= k < 16 ==> #[trigger] self.name@[k] == 0
    }

    pub fn name_bytes(&self) -> (name: &[u8])
        requires
            self.wf(),
        ensures
            name@ == self@.name,
    {
        &self.name[0..self.name_len as usize]
    }

    fn named(id: u16, name: &[u8]) -> (entry: Self)
        requires
            name@.len() <= 16,
        ensures
            entry.wf(),
            entry@ == (GroupState { id, name: name@ }),
    {
        let mut padded: [u8; 16] = [0, 0, 0, 0, 0, 0, 0, 0, 0, 0, 0, 0, 0, 0, 0, 0];
        let mut i: usize = 0;
        while i < name.len()
            invariant
                i <= name@.len() <= 16,
                padded@.take(i as int) == name@.take(i as int),
                forall|k: int| i <= k < 16 ==> #[trigger] padded@[k] == 0,
            decreases name@.len() - i,
        {
            let ghost before = padded@;
            padded[i] = name[i];
            assert(padded@.take(i + 1) =~= before.take(i as int).push(name@[i as int]));
            assert(name@.take(i + 1) =~= name@.take(i as int).push(name@[i as int]));
            i = i + 1;
        }
        assert(name@.take(i as int) =~= name@);
        GroupEntry { id, name: padded, name_len: name.len() as u8 }
    }
}

/// Groups, cluster 0x0004, with a table of up to `N` memberships.
///
/// Set `identifying` to mirror the identify server, so that adding a group while
/// identifying works.
pub struct GroupsServer<const N: usize> {
    /// Attribute 0x0000. Bit 7: names are stored.
    pub name_support: u8,
    /// The device is identifying itself. Set by the application.
    pub identifying: bool,
    pub groups: Vec<GroupEntry>,
    pub pending_effect: GroupEffect,
}

/// The state of a groups server.
#[verifier::ext_equal]
pub struct GroupsState {
    pub name_support: u8,
    pub identifying: bool,
    pub groups: Seq<GroupState>,
    pub pending: GroupEffect,
}

impl<const N: usize> View for GroupsServer<N> {
    type V = GroupsState;

    open spec fn view(&self) -> GroupsState {
        GroupsState {
            name_support: self.name_support,
            identifying: self.identifying,
            groups: self.groups@.map_values(|e: GroupEntry| e@),
            pending: self.pending_effect,
        }
    }
}

impl GroupsState {
    /// No group is entered twice, and group 0 never.
    pub open spec fn valid(self) -> bool {
        &&& forall|i: int, j: int|
            0 <= i < j < self.groups.len() ==> (#[trigger] self.groups[i]).id != (
            #[trigger] self.groups[j]).id
        &&& forall|i: int| 0 <= i < self.groups.len() ==> (#[trigger] self.groups[i]).id != 0
    }

    pub open spec fn is_slot(self, id: u16, i: int) -> bool {
        0 <= i < self.groups.len() && self.groups[i].id == id
    }

    /// The device is in the group.
    pub open spec fn has(self, id: u16) -> bool {
        exists|i: int| self.is_slot(id, i)
    }

    pub open spec fn slot(self, id: u16) -> int {
        choose|i: int| self.is_slot(id, i)
    }

    /// Room for further groups in a table of `n`, as far as a byte holds it.
    pub open spec fn room(self, n: nat) -> u8 {
        if n - self.groups.len() > 255 {
            255
        } else {
            (n - self.groups.len()) as u8
        }
    }

    /// The attribute's value.
    pub open spec fn value(self, id: AttributeId) -> Option<AttrValue> {
        match id.0 {
            0x0000 => Some(AttrValue::Bitmap8(self.name_support)),
            0xFFFD => Some(AttrValue::Uint16(3)),
            _ => None,
        }
    }

    /// The state and status after joining a group in a table of `n`. Joining
    /// again succeeds and keeps the name.
    pub open spec fn joined(self, n: nat, id: u16, name: Seq<u8>) -> (Self, Status) {
        if id == 0 || name.len() > 16 {
            (self, Status::InvalidField)
        } else if self.has(id) {
            (GroupsState { pending: GroupEffect::Added(id), ..self }, Status::Success)
        } else if self.groups.len() >= n {
            (self, Status::InsufficientSpace)
        } else {
            (
                GroupsState {
                    groups: self.groups.push(GroupState { id, name }),
                    pending: GroupEffect::Added(id),
                    ..self
                },
                Status::Success,
            )
        }
    }

    /// The state and status after leaving a group. The last group of the table
    /// takes its place.
    pub open spec fn left(self, id: u16) -> (Self, Status) {
        if self.has(id) {
            (
                GroupsState {
                    groups: self.groups.update(self.slot(id), self.groups.last()).drop_last(),
                    pending: GroupEffect::Removed(id),
                    ..self
                },
                Status::Success,
            )
        } else {
            (self, Status::NotFound)
        }
    }

    /// The state after leaving all groups.
    pub open spec fn left_all(self) -> Self {
        GroupsState { groups: Seq::empty(), pending: GroupEffect::AllRemoved, ..self }
    }

    /// The group and name that an add command carries.
    pub open spec fn parsed(p: Seq<u8>) -> Option<(u16, Seq<u8>)> {
        if p.len() < 3 || p.len() < 3 + p[2] {
            None
        } else {
            Some((Le::u16_at(p, 0), p.subrange(3, 3 + p[2])))
        }
    }

    /// The reply to a view command.
    pub open spec fn view_reply(self, id: u16) -> Seq<u8> {
        if self.has(id) {
            let name = self.groups[self.slot(id)].name;
            Reply::group(Status::Success, id) + seq![name.len() as u8] + name
        } else {
            Reply::group(Status::NotFound, id) + seq![0u8]
        }
    }

    /// The identifiers of the first `k` groups of the table.
    pub open spec fn ids(self, k: nat) -> Seq<u16> {
        Seq::new(k, |i: int| self.groups[i].id)
    }

    /// Of the first `k` identifiers in `p`, those of groups that the device is in.
    pub open spec fn asked(self, p: Seq<u8>, k: nat) -> Seq<u16>
        decreases k,
    {
        if k == 0 {
            Seq::empty()
        } else {
            let id = Le::u16_at(p, 2 * (k - 1));
            let before = self.asked(p, (k - 1) as nat);
            if self.has(id) {
                before.push(id)
            } else {
                before
            }
        }
    }

    /// The groups that answer a membership command: all of them where it lists
    /// none, else those of the listed ones that the device is in.
    pub open spec fn answer(self, p: Seq<u8>) -> Seq<u16> {
        if p[0] == 0 {
            self.ids(self.groups.len())
        } else {
            self.asked(p.skip(1), ((p.len() - 1) / 2) as nat)
        }
    }

    pub open spec fn id_bytes(ids: Seq<u16>) -> Seq<u8>
        decreases ids.len(),
    {
        if ids.len() == 0 {
            Seq::empty()
        } else {
            Self::id_bytes(ids.drop_last()) + Le::u16(ids.last())
        }
    }

    /// The reply to a membership command in a table of `n`.
    pub open spec fn members_reply(self, n: nat, p: Seq<u8>) -> Seq<u8> {
        seq![self.room(n), self.answer(p).len() as u8] + Self::id_bytes(self.answer(p))
    }

    /// How many identifiers fit into `cap` bytes behind the two counters, and can be
    /// counted.
    pub open spec fn fitting(cap: nat) -> nat {
        if cap >= 2 + 2 * 255 {
            255
        } else {
            ((cap - 2) / 2) as nat
        }
    }

    /// A buffer that held `before` and is too small for the reply to a membership
    /// command: the room and the identifiers that fit are put into it.
    pub open spec fn members_cut(self, n: nat, p: Seq<u8>, before: Seq<u8>) -> Seq<u8> {
        if before.len() < 2 {
            before
        } else {
            let k = Self::fitting(before.len());
            seq![self.room(n), before[1]] + Self::id_bytes(self.answer(p).take(k as int))
                + before.skip((2 + 2 * k) as int)
        }
    }

    /// A command took this state to `post` with result `r`, and a
    /// buffer from `before` to `body`.
    pub open spec fn handled(
        self,
        n: nat,
        id: CommandId,
        p: Seq<u8>,
        before: Seq<u8>,
        post: Self,
        body: Seq<u8>,
        r: Result<CommandResult, ZclError>,
    ) -> bool {
        match id.0 {
            0x00 => match Self::parsed(p) {
                None => post == self && Reply::failed(before, body, r, ZclError::InsufficientBytes),
                Some((group, name)) => {
                    let (next, status) = self.joined(n, group, name);
                    post == next && Reply::is(0x00, Reply::group(status, group), before, body, r)
                },
            },
            0x01 => post == self && if p.len() < 2 {
                Reply::failed(before, body, r, ZclError::InsufficientBytes)
            } else {
                Reply::is(0x01, self.view_reply(Le::u16_at(p, 0)), before, body, r)
            },
            0x02 => post == self && if p.len() < 1 || p.len() < 1 + p[0] * 2 {
                Reply::failed(before, body, r, ZclError::InsufficientBytes)
            } else if self.answer(p).len() > 255 || self.members_reply(n, p).len() > before.len() {
                r == Err::<CommandResult, ZclError>(ZclError::BufferTooSmall) && body
                    == self.members_cut(n, p, before)
            } else {
                Reply::is(0x02, self.members_reply(n, p), before, body, r)
            },
            0x03 => if p.len() < 2 {
                post == self && Reply::failed(before, body, r, ZclError::InsufficientBytes)
            } else {
                let (next, status) = self.left(Le::u16_at(p, 0));
                post == next && Reply::is(
                    0x03,
                    Reply::group(status, Le::u16_at(p, 0)),
                    before,
                    body,
                    r,
                )
            },
            0x04 => post == self.left_all() && Reply::status(before, body, r, Status::Success),
            0x05 => {
                &&& post == match Self::parsed(p) {
                    Some((group, name)) if self.identifying => self.joined(n, group, name).0,
                    _ => self,
                }
                &&& Reply::status(before, body, r, Status::Success)
            },
            _ => post == self && Reply::status(before, body, r, Status::UnsupCommand),
        }
    }
}

proof fn lemma_id_bytes_len(ids: Seq<u16>)
    ensures
        GroupsState::id_bytes(ids).len() == 2 * ids.len(),
    decreases ids.len(),
{
    if ids.len() > 0 {
        lemma_id_bytes_len(ids.drop_last());
    }
}

/// Asking for more identifiers continues the answer.
proof fn lemma_asked_grows(s: GroupsState, p: Seq<u8>, a: nat, b: nat)
    requires
        a <= b,
    ensures
        s.asked(p, a).len() <= s.asked(p, b).len(),
        s.asked(p, b).take(s.asked(p, a).len() as int) == s.asked(p, a),
    decreases b,
{
    if a < b {
        lemma_asked_grows(s, p, a, (b - 1) as nat);
        let shorter = s.asked(p, (b - 1) as nat);
        assert(s.asked(p, b).take(s.asked(p, a).len() as int) =~= shorter.take(
            s.asked(p, a).len() as int,
        ));
    } else {
        assert(s.asked(p, b).take(s.asked(p, a).len() as int) =~= s.asked(p, a));
    }
}

/// `buf` is `before` with the identifiers `ids` behind the two counters.
spec fn holds_ids(before: Seq<u8>, buf: Seq<u8>, ids: Seq<u16>) -> bool {
    &&& 2 + 2 * ids.len() <= before.len()
    &&& buf == before.take(2) + GroupsState::id_bytes(ids) + before.skip((2 + 2 * ids.len()) as int)
}

/// Store the identifier of one more group behind the two counters and `count`
/// identifiers.
fn put_id(
    buf: &mut [u8],
    count: u8,
    id: u16,
    Ghost(before): Ghost<Seq<u8>>,
    Ghost(ids): Ghost<Seq<u16>>,
) -> (r: Result<u8, ZclError>)
    requires
        ids.len() == count,
        holds_ids(before, old(buf)@, ids),
    ensures
        final(buf)@.len() == before.len(),
        match r {
            Ok(next) => {
                &&& next == count + 1
                &&& holds_ids(before, final(buf)@, ids.push(id))
            },
            Err(e) => {
                &&& e == ZclError::BufferTooSmall
                &&& final(buf)@ == old(buf)@
                &&& count == GroupsState::fitting(before.len())
            },
        },
{
    proof {
        lemma_id_bytes_len(ids);
        lemma_id_bytes_len(ids.push(id));
        assert(ids.push(id).drop_last() =~= ids);
    }
    let off: usize = 2 + count as usize * 2;
    if count == 255 || buf.len() - off < 2 {
        return Err(ZclError::BufferTooSmall);
    }
    buf[off] = low_byte(id);
    buf[off + 1] = high_byte(id);
    assert(buf@ =~= before.take(2) + GroupsState::id_bytes(ids.push(id)) + before.skip(off + 2));
    Ok(count + 1)
}

impl<const N: usize> GroupsServer<N> {
    pub fn new(name_support: u8) -> (server: Self)
        ensures
            server.wf(),
            server@ == (GroupsState {
                name_support: name_support | 0x80,
                identifying: false,
                groups: Seq::empty(),
                pending: GroupEffect::Nothing,
            }),
    {
        let server = GroupsServer {
            name_support: name_support | 0x80,
            identifying: false,
            groups: Vec::new(),
            pending_effect: GroupEffect::Nothing,
        };
        assert(server@.groups =~= Seq::empty());
        server
    }

    pub fn is_member(&self, group_id: u16) -> (yes: bool)
        requires
            self.wf(),
        ensures
            yes == self@.has(group_id),
    {
        self.find_index(group_id).is_some()
    }

    pub fn group_count(&self) -> (count: usize)
        ensures
            count == self@.groups.len(),
    {
        self.groups.len()
    }

    pub fn capacity_remaining(&self) -> (room: u8)
        requires
            self.wf(),
        ensures
            room == self@.room(N as nat),
    {
        let room: usize = N - self.groups.len();
        if room > 255 {
            255
        } else {
            room as u8
        }
    }

    pub fn groups(&self) -> (groups: &[GroupEntry])
        ensures
            groups@ == self.groups@,
            groups@.map_values(|e: GroupEntry| e@) == self@.groups,
            self.wf() ==> forall|i: int| 0 <= i < groups@.len() ==> (#[trigger] groups@[i]).wf(),
    {
        self.groups.as_slice()
    }

    fn find_index(&self, group_id: u16) -> (found: Option<usize>)
        requires
            self.wf(),
        ensures
            match found {
                Some(i) => self@.has(group_id) && i == self@.slot(group_id) && i
                    < self.groups@.len(),
                None => !self@.has(group_id),
            },
    {
        let mut i: usize = 0;
        while i < self.groups.len()
            invariant
                self.wf(),
                i <= self.groups@.len(),
                forall|k: int| 0 <= k < i ==> !#[trigger] self@.is_slot(group_id, k),
            decreases self.groups@.len() - i,
        {
            assert(self@.groups[i as int] == self.groups@[i as int]@);
            if self.groups[i].id == group_id {
                proof {
                    assert(self@.is_slot(group_id, i as int));
                    assert(self@.is_slot(group_id, self@.slot(group_id)));
                }
                return Some(i);
            }
            i = i + 1;
        }
        assert forall|k: int| !self@.is_slot(group_id, k) by {}
        None
    }

    fn add(&mut self, group_id: u16, name: &[u8]) -> (status: Status)
        requires
            old(self).wf(),
        ensures
            final(self).wf(),
            (final(self)@, status) == old(self)@.joined(N as nat, group_id, name@),
    {
        let ghost before = self@;
        if group_id == 0x0000 || name.len() > 16 {
            return Status::InvalidField;
        }
        if self.find_index(group_id).is_none() {
            if self.groups.len() >= N {
                return Status::InsufficientSpace;
            }
            self.groups.push(GroupEntry::named(group_id, name));
            proof {
                assert(self@.groups =~= before.groups.push(
                    GroupState { id: group_id, name: name@ },
                ));
                assert forall|k: int| 0 <= k < before.groups.len() implies (
                #[trigger] before.groups[k]).id != group_id by {
                    assert(!before.is_slot(group_id, k));
                }
            }
        }
        let ghost groups = self@.groups;
        self.pending_effect = GroupEffect::Added(group_id);
        assert(self@.groups =~= groups);
        Status::Success
    }

    fn remove(&mut self, group_id: u16) -> (status: Status)
        requires
            old(self).wf(),
        ensures
            final(self).wf(),
            (final(self)@, status) == old(self)@.left(group_id),
    {
        let ghost before = self@;
        match self.find_index(group_id) {
            Some(i) => {
                let _gone = self.groups.swap_remove(i);
                self.pending_effect = GroupEffect::Removed(group_id);
                assert(self@.groups =~= before.groups.update(
                    i as int,
                    before.groups.last(),
                ).drop_last());
                Status::Success
            },
            None => Status::NotFound,
        }
    }

    fn remove_all(&mut self)
        requires
            old(self).wf(),
        ensures
            final(self).wf(),
            final(self)@ == old(self)@.left_all(),
    {
        self.groups.clear();
        self.pending_effect = GroupEffect::AllRemoved;
        assert(self@.groups =~= Seq::empty());
    }

    /// Show a group.
    fn show(&self, group_id: u16, buf: &mut [u8]) -> (r: Result<CommandResult, ZclError>)
        requires
            self.wf(),
        ensures
            final(buf)@.len() == old(buf)@.len(),
            Reply::is(0x01, self@.view_reply(group_id), old(buf)@, final(buf)@, r),
            r matches Ok(result) ==> result.leaves(old(buf)@, final(buf)@),
    {
        match self.find_index(group_id) {
            Some(i) => {
                let e = &self.groups[i];
                assert(self@.groups[i as int] == e@);
                let name_len: usize = e.name_len as usize;
                let needed: usize = 4 + name_len;
                if buf.len() < needed {
                    return Err(ZclError::BufferTooSmall);
                }
                buf[0] = Status::Success.as_u8();
                buf[1] = low_byte(group_id);
                buf[2] = high_byte(group_id);
                buf[3] = e.name_len;
                copy_at(buf, 4, e.name_bytes());
                assert(buf@ =~= self@.view_reply(group_id) + old(buf)@.skip(needed as int));
                Ok(CommandResult::Payload { command_id: CommandId::new(0x01), len: needed })
            },
            None => {
                if buf.len() < 4 {
                    return Err(ZclError::BufferTooSmall);
                }
                buf[0] = Status::NotFound.as_u8();
                buf[1] = low_byte(group_id);
                buf[2] = high_byte(group_id);
                buf[3] = 0;
                assert(buf@ =~= self@.view_reply(group_id) + old(buf)@.skip(4));
                Ok(CommandResult::Payload { command_id: CommandId::new(0x01), len: 4 })
            },
        }
    }

    /// Store the identifiers of all groups behind the two counters.
    #[verifier::loop_isolation(false)]
    fn put_all(&self, buf: &mut [u8]) -> (r: Result<u8, ZclError>)
        requires
            self.wf(),
            old(buf)@.len() >= 2,
        ensures
            final(buf)@.len() == old(buf)@.len(),
            ({
                let ids = self@.ids(self@.groups.len());
                match r {
                    Ok(n) => n == ids.len() && holds_ids(old(buf)@, final(buf)@, ids),
                    Err(e) => {
                        let k = GroupsState::fitting(old(buf)@.len());
                        &&& e == ZclError::BufferTooSmall
                        &&& k < ids.len()
                        &&& holds_ids(old(buf)@, final(buf)@, ids.take(k as int))
                    },
                }
            }),
    {
        let ghost before = buf@;
        let mut count: u8 = 0;
        let mut i: usize = 0;
        assert(holds_ids(before, buf@, self@.ids(0))) by {
            assert(self@.ids(0) =~= Seq::empty());
            assert(buf@ =~= before.take(2) + Seq::<u8>::empty() + before.skip(2));
        }
        while i < self.groups.len()
            invariant
                i <= self.groups@.len(),
                count == i,
                holds_ids(before, buf@, self@.ids(i as nat)),
            decreases self.groups@.len() - i,
        {
            assert(self@.groups[i as int] == self.groups@[i as int]@);
            let id: u16 = self.groups[i].id;
            assert(self@.ids((i + 1) as nat) =~= self@.ids(i as nat).push(id));
            match put_id(buf, count, id, Ghost(before), Ghost(self@.ids(i as nat))) {
                Ok(next) => {
                    count = next;
                },
                Err(e) => {
                    assert(self@.ids(self@.groups.len()).take(i as int) =~= self@.ids(i as nat));
                    return Err(e);
                },
            }
            i = i + 1;
        }
        proof {
            lemma_id_bytes_len(self@.ids(i as nat));
        }
        Ok(count)
    }

    /// Store the requested identifiers of groups that the device is in behind the
    /// two counters.
    #[verifier::loop_isolation(false)]
    fn put_asked(&self, requested: &[u8], buf: &mut [u8]) -> (r: Result<u8, ZclError>)
        requires
            self.wf(),
            old(buf)@.len() >= 2,
        ensures
            final(buf)@.len() == old(buf)@.len(),
            ({
                let ids = self@.asked(requested@, requested@.len() / 2);
                match r {
                    Ok(n) => n == ids.len() && holds_ids(old(buf)@, final(buf)@, ids),
                    Err(e) => {
                        let k = GroupsState::fitting(old(buf)@.len());
                        &&& e == ZclError::BufferTooSmall
                        &&& k < ids.len()
                        &&& holds_ids(old(buf)@, final(buf)@, ids.take(k as int))
                    },
                }
            }),
    {
        let ghost before = buf@;
        let pairs: usize = requested.len() / 2;
        let mut count: u8 = 0;
        let mut k: usize = 0;
        assert(holds_ids(before, buf@, self@.asked(requested@, 0))) by {
            assert(buf@ =~= before.take(2) + Seq::<u8>::empty() + before.skip(2));
        }
        while k < pairs
            invariant
                k <= pairs,
                count == self@.asked(requested@, k as nat).len(),
                holds_ids(before, buf@, self@.asked(requested@, k as nat)),
            decreases pairs - k,
        {
            let id: u16 = read_u16(requested, 2 * k);
            if self.is_member(id) {
                match put_id(
                    buf,
                    count,
                    id,
                    Ghost(before),
                    Ghost(self@.asked(requested@, k as nat)),
                ) {
                    Ok(next) => {
                        count = next;
                    },
                    Err(e) => {
                        proof {
                            lemma_asked_grows(self@, requested@, k as nat, pairs as nat);
                            lemma_asked_grows(self@, requested@, (k + 1) as nat, pairs as nat);
                        }
                        return Err(e);
                    },
                }
            }
            k = k + 1;
        }
        proof {
            lemma_id_bytes_len(self@.asked(requested@, k as nat));
        }
        Ok(count)
    }

    /// List the groups that the device is in.
    fn membership(&self, payload: &[u8], buf: &mut [u8]) -> (r: Result<CommandResult, ZclError>)
        requires
            self.wf(),
        ensures
            final(buf)@.len() == old(buf)@.len(),
            self@.handled(
                N as nat,
                CommandId(0x02),
                payload@,
                old(buf)@,
                self@,
                final(buf)@,
                r,
            ),
            r matches Ok(result) ==> result.leaves(old(buf)@, final(buf)@),
    {
        if payload.len() == 0 {
            return Err(ZclError::InsufficientBytes);
        }
        let listed: usize = payload[0] as usize;
        if payload.len() < 1 + listed * 2 {
            return Err(ZclError::InsufficientBytes);
        }
        if buf.len() < 2 {
            return Err(ZclError::BufferTooSmall);
        }
        let ghost before = buf@;
        buf[0] = self.capacity_remaining();
        let ghost counted = buf@;
        let total: usize = payload.len();
        let requested = &payload[1..total];
        let ghost ids = self@.answer(payload@);
        proof {
            assert(requested@ =~= payload@.skip(1));
            lemma_id_bytes_len(ids);
        }
        let stored: Result<u8, ZclError> = if listed == 0 {
            self.put_all(buf)
        } else {
            self.put_asked(requested, buf)
        };
        match stored {
            Ok(count) => {
                buf[1] = count;
                let len: usize = 2 + count as usize * 2;
                assert(buf@ =~= self@.members_reply(N as nat, payload@) + before.skip(len as int));
                Ok(CommandResult::Payload { command_id: CommandId::new(0x02), len })
            },
            Err(e) => {
                proof {
                    let k = GroupsState::fitting(before.len());
                    lemma_id_bytes_len(ids.take(k as int));
                    assert(buf@ =~= self@.members_cut(N as nat, payload@, before));
                }
                Err(e)
            },
        }
    }
}

impl<const N: usize> Default for GroupsServer<N> {
    fn default() -> (server: Self)
        ensures
            server.wf(),
            server@.name_support == 0u8 | 0x80u8,
            !server@.identifying,
            server@.groups.len() == 0,
            server@.pending == GroupEffect::Nothing,
    {
        Self::new(0x00)
    }
}

fn parse_group_and_name(payload: &[u8]) -> (fields: Option<(u16, &[u8])>)
    ensures
        match fields {
            Some((id, name)) => GroupsState::parsed(payload@) == Some((id, name@)),
            None => GroupsState::parsed(payload@) is None,
        },
{
    if payload.len() < 3 {
        return None;
    }
    let end: usize = 3 + payload[2] as usize;
    if payload.len() < end {
        return None;
    }
    Some((read_u16(payload, 0), &payload[3..end]))
}

impl<const N: usize> ClusterServer for GroupsServer<N> {
    const CLUSTER_ID: u16 = 0x0004;

    open spec fn wf(&self) -> bool {
        &&& self.groups@.len() <= N
        &&& self@.valid()
        &&& forall|i: int| 0 <= i < self.groups@.len() ==> (#[trigger] self.groups@[i]).wf()
    }

    open spec fn attr(&self, id: AttributeId, cap: nat) -> ReadSpec {
        match self@.value(id) {
            Some(v) => v.read(cap),
            None => Err(AttrError::UnsupportedAttribute),
        }
    }

    open spec fn write_check(&self, id: AttributeId, type_id: TypeId, data: Seq<u8>) -> Result<
        (),
        AttrError,
    > {
        if self@.value(id) is None {
            Err(AttrError::UnsupportedAttribute)
        } else {
            Err(AttrError::ReadOnly)
        }
    }

    open spec fn wrote(
        pre: Self,
        id: AttributeId,
        type_id: TypeId,
        data: Seq<u8>,
        post: Self,
        r: Result<(), AttrError>,
    ) -> bool {
        post@ == pre@ && r == pre.write_check(id, type_id, data)
    }

    open spec fn handled(
        pre: Self,
        id: CommandId,
        payload: Seq<u8>,
        ctx: DispatchContext,
        before: Seq<u8>,
        post: Self,
        body: Seq<u8>,
        r: Result<CommandResult, ZclError>,
    ) -> bool {
        pre@.handled(N as nat, id, payload, before, post@, body, r)
    }

    open spec fn drained(pre: Self, post: Self, r: DispatchEffects) -> bool {
        &&& post@ == (GroupsState { pending: GroupEffect::Nothing, ..pre@ })
        &&& r == (DispatchEffects { group: pre@.pending, ..DispatchEffects::nothing() })
    }

    open spec fn attribute_infos() -> Seq<AttrInfo> {
        seq![
            AttrInfo::ro(0x0000, TypeId::Bitmap8),
            AttrInfo::ro(0xFFFD, TypeId::Uint16),
        ]
    }

    fn read_attribute(&self, id: AttributeId, buf: &mut [u8]) -> (r: Result<
        (TypeId, usize),
        AttrError,
    >) {
        match id.0 {
            0x0000 => encode_attr(AttrValue::Bitmap8(self.name_support), buf),
            0xFFFD => encode_attr(AttrValue::Uint16(3), buf),
            _ => Err(AttrError::UnsupportedAttribute),
        }
    }

    fn check_write_attribute(&self, id: AttributeId, type_id: TypeId, data: &[u8]) -> (r: Result<
        (),
        AttrError,
    >) {
        match id.0 {
            0x0000 | 0xFFFD => Err(AttrError::ReadOnly),
            _ => Err(AttrError::UnsupportedAttribute),
        }
    }

    fn write_attribute(&mut self, id: AttributeId, type_id: TypeId, data: &[u8]) -> (r: Result<
        (),
        AttrError,
    >) {
        self.check_write_attribute(id, type_id, data)
    }

    fn handle_command(
        &mut self,
        id: CommandId,
        payload: &[u8],
        ctx: DispatchContext,
        buf: &mut [u8],
    ) -> (r: Result<CommandResult, ZclError>) {
        match id.0 {
            0x00 => match parse_group_and_name(payload) {
                None => Err(ZclError::InsufficientBytes),
                Some((group_id, name)) => {
                    let status: Status = self.add(group_id, name);
                    write_status_and_group(0x00, status, group_id, buf)
                },
            },
            0x01 => {
                if payload.len() < 2 {
                    return Err(ZclError::InsufficientBytes);
                }
                self.show(read_u16(payload, 0), buf)
            },
            0x02 => self.membership(payload, buf),
            0x03 => {
                if payload.len() < 2 {
                    return Err(ZclError::InsufficientBytes);
                }
                let group_id: u16 = read_u16(payload, 0);
                let status: Status = self.remove(group_id);
                write_status_and_group(0x03, status, group_id, buf)
            },
            0x04 => {
                self.remove_all();
                Ok(CommandResult::DefaultResponse(Status::Success))
            },
            0x05 => {
                if self.identifying {
                    if let Some((group_id, name)) = parse_group_and_name(payload) {
                        let _status: Status = self.add(group_id, name);
                    }
                }
                Ok(CommandResult::DefaultResponse(Status::Success))
            },
            _ => Ok(CommandResult::DefaultResponse(Status::UnsupCommand)),
        }
    }

    fn tick(&mut self, now_ms: u32) -> (r: ClusterTick) {
        ClusterTick::idle()
    }

    fn take_dispatch_effects(&mut self) -> (r: DispatchEffects) {
        let mut effects: DispatchEffects = DispatchEffects::none();
        effects.group = self.pending_effect;
        self.pending_effect = GroupEffect::Nothing;
        assert(self@.groups =~= old(self)@.groups);
        effects
    }

    fn snapshot(&self, buf: &mut [u8]) -> (n: usize) {
        assert(buf@ =~= Seq::<u8>::empty() + buf@.skip(0));
        0
    }

    fn restore_snapshot(&mut self, buf: &[u8]) {
    }

    fn configure_reporting(
        &mut self,
        record: ConfigureReportingRecord<'_>,
        ctx: DispatchContext,
    ) -> (r: Status) {
        Status::UnreportableAttribute
    }

    fn collect_reports(&mut self, now_ms: u32, out: &mut ReportPayloadWriter<'_>) -> (r: Result<
        Option<ClusterReportReady>,
        ZclError,
    >) {
        Ok(None)
    }

    fn report_delivery_result(
        &mut self,
        token: ReportToken,
        result: ReportDeliveryResult,
        now_ms: u32,
    ) {
    }

    fn take_reporting_diagnostics(&mut self) -> (r: ReportingDiagnostics) {
        ReportingDiagnostics::none()
    }

    fn read_reporting_config(&self, attr_id: AttributeId, direction: u8, buf: &mut [u8]) -> (n:
        usize) {
        crate::reporting::write_not_found(attr_id, direction, buf)
    }

    fn attribute_list() -> (list: Vec<AttrInfo>) {
        vec![
            AttrInfo::read_only(0x0000, TypeId::Bitmap8),
            AttrInfo::read_only(0xFFFD, TypeId::Uint16),
        ]
    }

    fn commands_received() -> (list: Vec<CommandId>) {
        Vec::new()
    }

    fn commands_generated() -> (list: Vec<CommandId>) {
        Vec::new()
    }
}

/// After joining a group successfully the device is in it, in the groups that it
/// was in before, and in no others.
pub proof fn law_joined_group_is_a_membership(s: GroupsState, n: nat, id: u16, name: Seq<u8>)
    requires
        s.joined(n, id, name).1 == Status::Success,
    ensures
        forall|g: u16| #[trigger] s.joined(n, id, name).0.has(g) <==> g == id || s.has(g),
        s.valid() ==> s.joined(n, id, name).0.valid(),
{
    let t = s.joined(n, id, name).0;
    assert forall|g: u16| #[trigger] t.has(g) <==> g == id || s.has(g) by {
        if s.has(g) {
            assert(s.is_slot(g, s.slot(g)));
            assert(t.is_slot(g, s.slot(g)));
        }
        if g == id && !s.has(id) {
            assert(t.is_slot(id, s.groups.len() as int));
        }
        if t.has(g) {
            assert(t.is_slot(g, t.slot(g)));
            if t.slot(g) < s.groups.len() {
                assert(s.is_slot(g, t.slot(g)));
            }
        }
    }
    if s.valid() && !s.has(id) {
        assert forall|k: int| 0 <= k < s.groups.len() implies (#[trigger] s.groups[k]).id != id by {
            assert(!s.is_slot(id, k));
        }
    }
}

/// After leaving a group the device is not in it, and in every other group that it
/// was in before.
pub proof fn law_left_group_is_no_membership(s: GroupsState, id: u16)
    requires
        s.valid(),
    ensures
        forall|g: u16| #[trigger] s.left(id).0.has(g) <==> g != id && s.has(g),
{
    let t = s.left(id).0;
    assert forall|g: u16| #[trigger] t.has(g) <==> g != id && s.has(g) by {
        if s.has(id) {
            let at = s.slot(id);
            let last = s.groups.len() - 1;
            assert(s.is_slot(id, at));
            if t.has(g) {
                let k = t.slot(g);
                assert(t.is_slot(g, k));
                if k == at {
                    assert(s.is_slot(g, last));
                } else {
                    assert(s.is_slot(g, k));
                }
            }
            if g != id && s.has(g) {
                let k = s.slot(g);
                assert(s.is_slot(g, k));
                if k == last {
                    assert(t.is_slot(g, at));
                } else {
                    assert(t.is_slot(g, k));
                }
            }
        }
    }
}

/// After leaving all groups the device is in none.
pub proof fn law_left_all_groups(s: GroupsState, id: u16)
    ensures
        !s.left_all().has(id),
{
}

/// A group that was joined anew is shown with the name given.
pub proof fn law_joined_group_is_shown(s: GroupsState, n: nat, id: u16, name: Seq<u8>)
    requires
        !s.has(id),
        s.joined(n, id, name).1 == Status::Success,
    ensures
        s.joined(n, id, name).0.view_reply(id) == Reply::group(Status::Success, id) + seq![
            name.len() as u8,
        ] + name,
{
    let t = s.joined(n, id, name).0;
    assert(t.is_slot(id, s.groups.len() as int));
    assert(t.is_slot(id, t.slot(id)));
    if t.slot(id) < s.groups.len() {
        assert(s.is_slot(id, t.slot(id)));
    }
}

/// A membership reply names only groups that the device is in.
pub proof fn law_membership_is_truthful(s: GroupsState, p: Seq<u8>, i: int)
    requires
        p.len() > 0,
        0 <= i < s.answer(p).len(),
    ensures
        s.has(s.answer(p)[i]),
{
    if p[0] == 0 {
        assert(s.is_slot(s.answer(p)[i], i));
    } else {
        lemma_asked_has(s, p.skip(1), ((p.len() - 1) / 2) as nat, i);
    }
}

proof fn lemma_asked_has(s: GroupsState, p: Seq<u8>, k: nat, i: int)
    requires
        0 <= i < s.asked(p, k).len(),
    ensures
        s.has(s.asked(p, k)[i]),
    decreases k,
{
    if i < s.asked(p, (k - 1) as nat).len() {
        lemma_asked_has(s, p, (k - 1) as nat, i);
    }
}

/// No attribute can be written from the network: every write is refused and changes
/// nothing.
pub proof fn law_attributes_are_read_only<const N: usize>(
    pre: GroupsServer<N>,
    id: AttributeId,
    type_id: TypeId,
    data: Seq<u8>,
    post: GroupsServer<N>,
    r: Result<(), AttrError>,
)
    requires
        GroupsServer::<N>::wrote(pre, id, type_id, data, post, r),
    ensures
        r is Err,
        post@ == pre@,
{
}

/// What is shown of a group fixes its name's padding too: two that show the same are the
/// same in every byte.
pub proof fn law_entries_that_show_the_same_are_the_same(a: GroupEntry, b: GroupEntry)
    requires
        a.wf(),
        b.wf(),
        a@ == b@,
    ensures
        a.id == b.id,
        a.name_len == b.name_len,
        a.name@ == b.name@,
{
    assert(a.name@.len() == 16 && b.name@.len() == 16);
    assert(a@.name.len() == a.name_len && b@.name.len() == b.name_len);
    assert forall|k: int| 0 <= k < 16 implies a.name@[k] == b.name@[k] by {
        if k < a.name_len {
            assert(a@.name[k] == a.name@[k] && b@.name[k] == b.name@[k]);
        } else {
            assert(a.name@[k] == 0 && b.name@[k] == 0);
        }
    }
    assert(a.name@ =~= b.name@);
}

} // verus!
