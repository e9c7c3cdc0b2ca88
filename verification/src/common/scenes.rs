//! The scenes cluster.

use vstd::prelude::*;

use crate::cluster_server::ClusterServer;
use crate::context::ClusterReportReady;
use crate::context::ClusterTick;
use crate::context::CommandResult;
use crate::context::ConfigureReportingRecord;
use crate::context::DispatchContext;
use crate::context::DispatchEffects;
use crate::context::ReportDeliveryResult;
use crate::context::ReportToken;
use crate::context::ReportingDiagnostics;
use crate::frame::Status;
use crate::reporting::ReportPayloadWriter;
use crate::types::codec::encode_attr;
use crate::types::codec::AttrValue;
use crate::types::codec::ReadSpec;
use crate::types::descriptors::AttrInfo;
use crate::types::error::AttrError;
use crate::types::error::ZclError;
use crate::types::ids::AttributeId;
use crate::types::ids::CommandId;
use crate::types::ids::TypeId;
use vstd::slice::slice_to_vec;

use crate::bytes::copy_at;
use crate::bytes::high_byte;
use crate::bytes::low_byte;
use crate::bytes::read_u16;
use crate::bytes::Le;
use crate::common::reply::write_status_and_group;
use crate::common::reply::Reply;

verus! {

/// One entry of the scene table, with up to `EXTENSION_BYTES` bytes of extension
/// field sets.
#[derive(Clone, Debug, PartialEq, Eq)]
pub struct SceneEntry<const EXTENSION_BYTES: usize> {
    pub group_id: u16,
    pub scene_id: u8,
    pub transition_time: u16,
    pub name: [u8; 16],
    pub name_len: u8,
    pub extension_bytes: Vec<u8>,
}

/// A scene.
#[verifier::ext_equal]
pub struct SceneState {
    pub group_id: u16,
    pub scene_id: u8,
    pub transition_time: u16,
    pub name: Seq<u8>,
    pub extension: Seq<u8>,
}

impl<const EXTENSION_BYTES: usize> View for SceneEntry<EXTENSION_BYTES> {
    type V = SceneState;

    open spec fn view(&self) -> SceneState {
        SceneState {
            group_id: self.group_id,
            scene_id: self.scene_id,
            transition_time: self.transition_time,
            name: self.name@.take(self.name_len as int),
            extension: self.extension_bytes@,
        }
    }
}

impl<const EXTENSION_BYTES: usize> SceneEntry<EXTENSION_BYTES> {
    /// The name is padded with zeros.
    pub open spec fn wf(self) -> bool {
        &&& self.name_len <= 16
        &&& forall|k: int| self.name_len <= k < 16 ==> #[trigger] self.name@[k] == 0
        &&& self.extension_bytes@.len() <= EXTENSION_BYTES
    }

    pub fn name_bytes(&self) -> (name: &[u8])
        requires
            self.wf(),
        ensures
            name@ == self@.name,
    {
        &self.name[0..self.name_len as usize]
    }

    pub fn extension_bytes(&self) -> (bytes: &[u8])
        ensures
            bytes@ == self@.extension,
    {
        self.extension_bytes.as_slice()
    }

    /// An entry with the name and extension field sets given.
    fn filled(
        group_id: u16,
        scene_id: u8,
        transition_time: u16,
        name: &[u8],
        extension_bytes: &[u8],
    ) -> (entry: Self)
        requires
            name@.len() <= 16,
            extension_bytes@.len() <= EXTENSION_BYTES,
        ensures
            entry.wf(),
            entry@ == (SceneState {
                group_id,
                scene_id,
                transition_time,
                name: name@,
                extension: extension_bytes@,
            }),
    {
        let mut padded: [u8; 16] = [0, 0, 0, 0, 0, 0, 0, 0, 0, 0, 0, 0, 0, 0, 0, 0];
        let mut i: usize = 0;
        while i < name.len()
            invariant
                i <= name@.len() <= 16,
                padded@.take(i as int) == name@.take(i as int),
                forall|k: int| i <= k < 16 ==> #[trigger] padded@[k] == 0,
            decreases name@.len() - i,
        {
            let ghost before = padded@;
            padded[i] = name[i];
            assert(padded@.take(i + 1) =~= before.take(i as int).push(name@[i as int]));
            assert(name@.take(i + 1) =~= name@.take(i as int).push(name@[i as int]));
            i = i + 1;
        }
        assert(name@.take(i as int) =~= name@);
        SceneEntry {
            group_id,
            scene_id,
            transition_time,
            name: padded,
            name_len: name.len() as u8,
            extension_bytes: slice_to_vec(extension_bytes),
        }
    }
}

/// Scenes, cluster 0x0005, with a table of up to `N` scenes.
///
/// Poll `last_recalled_scene` after each recall and use `last_recalled_entry` or
/// `last_recalled_extension_bytes` to apply stored extension field sets.
pub struct ScenesServer<const N: usize, const EXTENSION_BYTES: usize> {
    /// Attribute 0x0004. Bit 7: names stored.
    pub name_support: u8,
    /// Attribute 0x0001.
    pub current_scene: u8,
    /// Attribute 0x0002.
    pub current_group: u16,
    /// Attribute 0x0003.
    pub scene_valid: bool,
    pub scenes: Vec<SceneEntry<EXTENSION_BYTES>>,
    pub last_recalled: Option<(u16, u8)>,
}

/// The state of a scenes server.
#[verifier::ext_equal]
pub struct ScenesState {
    pub name_support: u8,
    pub current_scene: u8,
    pub current_group: u16,
    pub scene_valid: bool,
    pub scenes: Seq<SceneState>,
    pub last_recalled: Option<(u16, u8)>,
}

impl<const N: usize, const EXTENSION_BYTES: usize> View for ScenesServer<N, EXTENSION_BYTES> {
    type V = ScenesState;

    open spec fn view(&self) -> ScenesState {
        ScenesState {
            name_support: self.name_support,
            current_scene: self.current_scene,
            current_group: self.current_group,
            scene_valid: self.scene_valid,
            scenes: self.scenes@.map_values(|e: SceneEntry<EXTENSION_BYTES>| e@),
            last_recalled: self.last_recalled,
        }
    }
}

impl ScenesState {
    /// No two scenes share group and scene identifier.
    pub open spec fn distinct(self) -> bool {
        forall|i: int, j: int|
            0 <= i < j < self.scenes.len() ==> (#[trigger] self.scenes[i]).group_id != (
            #[trigger] self.scenes[j]).group_id || self.scenes[i].scene_id
                != self.scenes[j].scene_id
    }

    pub open spec fn is_slot(self, group_id: u16, scene_id: u8, i: int) -> bool {
        0 <= i < self.scenes.len() && self.scenes[i].group_id == group_id
            && self.scenes[i].scene_id == scene_id
    }

    pub open spec fn has(self, group_id: u16, scene_id: u8) -> bool {
        exists|i: int| self.is_slot(group_id, scene_id, i)
    }

    /// Where the scene stands in the table.
    pub open spec fn slot(self, group_id: u16, scene_id: u8) -> int {
        choose|i: int| self.is_slot(group_id, scene_id, i)
    }

    pub open spec fn scene(self, group_id: u16, scene_id: u8) -> SceneState {
        self.scenes[self.slot(group_id, scene_id)]
    }

    /// The number of scenes, as far as a byte holds it.
    pub open spec fn count(self) -> u8 {
        if self.scenes.len() > 255 {
            255
        } else {
            self.scenes.len() as u8
        }
    }

    /// Room for further scenes in a table of `n`, as far as a byte holds it.
    pub open spec fn room(self, n: nat) -> u8 {
        if n - self.scenes.len() > 255 {
            255
        } else {
            (n - self.scenes.len()) as u8
        }
    }

    /// The attribute's value.
    pub open spec fn value(self, id: AttributeId) -> Option<AttrValue> {
        match id.0 {
            0x0000 => Some(AttrValue::Uint8(self.count())),
            0x0001 => Some(AttrValue::Uint8(self.current_scene)),
            0x0002 => Some(AttrValue::Uint16(self.current_group)),
            0x0003 => Some(AttrValue::Boolean(self.scene_valid)),
            0x0004 => Some(AttrValue::Bitmap8(self.name_support)),
            0xFFFD => Some(AttrValue::Uint16(1)),
            _ => None,
        }
    }

    /// The state and status after adding a scene, or replacing the one with the
    /// same identifiers, in a table of `n` with up to `ext` extension bytes.
    pub open spec fn added(self, n: nat, ext: nat, scene: SceneState) -> (Self, Status) {
        if scene.name.len() > 16 || scene.extension.len() > ext {
            (self, Status::InvalidField)
        } else if self.has(scene.group_id, scene.scene_id) {
            (
                ScenesState {
                    scenes: self.scenes.update(self.slot(scene.group_id, scene.scene_id), scene),
                    ..self
                },
                Status::Success,
            )
        } else if self.scenes.len() >= n {
            (self, Status::InsufficientSpace)
        } else {
            (ScenesState { scenes: self.scenes.push(scene), ..self }, Status::Success)
        }
    }

    /// The state and status after removing a scene. The last scene of the table
    /// takes its place.
    pub open spec fn removed(self, group_id: u16, scene_id: u8) -> (Self, Status) {
        if self.has(group_id, scene_id) {
            let i = self.slot(group_id, scene_id);
            (
                ScenesState {
                    scenes: self.scenes.update(i, self.scenes.last()).drop_last(),
                    scene_valid: self.scene_valid && !(self.current_group == group_id
                        && self.current_scene == scene_id),
                    ..self
                },
                Status::Success,
            )
        } else {
            (self, Status::NotFound)
        }
    }

    /// The state without the group's scenes.
    pub open spec fn cleared(self, group_id: u16) -> Self {
        ScenesState {
            scenes: self.scenes.filter(|s: SceneState| s.group_id != group_id),
            scene_valid: self.scene_valid && self.current_group != group_id,
            ..self
        }
    }

    /// The state with the scene as the current one.
    pub open spec fn current(self, group_id: u16, scene_id: u8) -> Self {
        ScenesState {
            current_scene: scene_id,
            current_group: group_id,
            scene_valid: true,
            ..self
        }
    }

    /// The state and status after storing a scene without name or extension.
    pub open spec fn stored(self, n: nat, ext: nat, group_id: u16, scene_id: u8) -> (Self, Status) {
        let (s, status) = self.added(
            n,
            ext,
            SceneState {
                group_id,
                scene_id,
                transition_time: 0,
                name: Seq::empty(),
                extension: Seq::empty(),
            },
        );
        if status == Status::Success {
            (s.current(group_id, scene_id), status)
        } else {
            (s, status)
        }
    }

    /// The state and status after recalling a scene.
    pub open spec fn recalled(self, group_id: u16, scene_id: u8) -> (Self, Status) {
        if self.has(group_id, scene_id) {
            (
                ScenesState {
                    last_recalled: Some((group_id, scene_id)),
                    ..self.current(group_id, scene_id)
                },
                Status::Success,
            )
        } else {
            (ScenesState { last_recalled: None, ..self }, Status::NotFound)
        }
    }

    /// The identifiers of the group's scenes, in table order.
    pub open spec fn members(self, group_id: u16) -> Seq<u8> {
        Self::members_of(self.scenes, group_id)
    }

    pub open spec fn members_of(scenes: Seq<SceneState>, group_id: u16) -> Seq<u8>
        decreases scenes.len(),
    {
        if scenes.len() == 0 {
            Seq::empty()
        } else {
            let before = Self::members_of(scenes.drop_last(), group_id);
            if scenes.last().group_id == group_id {
                before.push(scenes.last().scene_id)
            } else {
                before
            }
        }
    }

    /// The scene that an add command carries.
    pub open spec fn parsed(p: Seq<u8>) -> Option<SceneState> {
        if p.len() < 6 || p.len() < 6 + p[5] {
            None
        } else {
            Some(
                SceneState {
                    group_id: Le::u16_at(p, 0),
                    scene_id: p[2],
                    transition_time: Le::u16_at(p, 3),
                    name: p.subrange(6, 6 + p[5]),
                    extension: p.skip(6 + p[5]),
                },
            )
        }
    }

    /// A status with a scene's identifiers.
    pub open spec fn status_reply(status: Status, group_id: u16, scene_id: u8) -> Seq<u8> {
        Reply::group(status, group_id) + seq![scene_id]
    }

    /// The reply to a view command.
    pub open spec fn view_reply(self, group_id: u16, scene_id: u8) -> Seq<u8> {
        if self.has(group_id, scene_id) {
            let s = self.scene(group_id, scene_id);
            Self::status_reply(Status::Success, group_id, scene_id) + Le::u16(s.transition_time)
                + seq![s.name.len() as u8] + s.name + s.extension
        } else {
            Self::status_reply(Status::NotFound, group_id, scene_id) + seq![0u8, 0u8, 0u8]
        }
    }

    /// The reply to a membership command in a table of `n`.
    pub open spec fn members_reply(self, n: nat, group_id: u16) -> Seq<u8> {
        seq![Status::Success.code(), self.room(n)] + Le::u16(group_id) + seq![
            self.members(group_id).len() as u8,
        ] + self.members(group_id)
    }

    /// A command took this state to `post` with result `r`, and a
    /// buffer from `before` to `body`.
    pub open spec fn handled(
        self,
        n: nat,
        ext: nat,
        id: CommandId,
        p: Seq<u8>,
        before: Seq<u8>,
        post: Self,
        body: Seq<u8>,
        r: Result<CommandResult, ZclError>,
    ) -> bool {
        let g = Le::u16_at(p, 0);
        let s = p[2];
        if id.0 > 0x06 {
            post == self && Reply::status(before, body, r, Status::UnsupCommand)
        } else if p.len() < 2 || (p.len() < 3 && id.0 != 0x03 && id.0 != 0x06) || (id.0 == 0x00
            && Self::parsed(p) is None) {
            post == self && Reply::failed(before, body, r, ZclError::InsufficientBytes)
        } else {
            match id.0 {
                0x00 => {
                    let (next, status) = self.added(n, ext, Self::parsed(p)->0);
                    post == next && Reply::is(0x00, Self::status_reply(status, g, s), before, body, r)
                },
                0x01 => post == self && Reply::is(0x01, self.view_reply(g, s), before, body, r),
                0x02 => {
                    let (next, status) = self.removed(g, s);
                    post == next && Reply::is(0x02, Self::status_reply(status, g, s), before, body, r)
                },
                0x03 => post == self.cleared(g) && Reply::is(
                    0x03,
                    Reply::group(Status::Success, g),
                    before,
                    body,
                    r,
                ),
                0x04 => {
                    let (next, status) = self.stored(n, ext, g, s);
                    post == next && Reply::is(0x04, Self::status_reply(status, g, s), before, body, r)
                },
                0x05 => {
                    let (next, status) = self.recalled(g, s);
                    post == next && Reply::status(before, body, r, status)
                },
                _ => post == self && self.listed(n, g, before, body, r),
            }
        }
    }

    /// A membership command was answered with `r`, and took the buffer from `before`
    /// to `body`. Where the reply is too large, the scenes that fit are put into the
    /// buffer.
    pub open spec fn listed(
        self,
        n: nat,
        group_id: u16,
        before: Seq<u8>,
        body: Seq<u8>,
        r: Result<CommandResult, ZclError>,
    ) -> bool {
        let members = self.members(group_id);
        if members.len() > 255 || self.members_reply(n, group_id).len() > before.len() {
            &&& r == Err::<CommandResult, ZclError>(ZclError::BufferTooSmall)
            &&& body == if before.len() < 5 {
                before
            } else {
                let k = Self::fitting(before.len());
                before.take(5) + members.take(k as int) + before.skip((5 + k) as int)
            }
        } else {
            Reply::is(0x06, self.members_reply(n, group_id), before, body, r)
        }
    }

    /// How many scenes fit into `cap` bytes behind the five of a membership reply, and
    /// can be counted.
    pub open spec fn fitting(cap: nat) -> nat {
        if cap >= 5 + 255 {
            255
        } else {
            (cap - 5) as nat
        }
    }
}

/// A longer table continues the list of the group's scenes.
proof fn lemma_members_grow(scenes: Seq<SceneState>, group_id: u16, i: int)
    requires
        0 <= i <= scenes.len(),
    ensures
        ({
            let some = ScenesState::members_of(scenes.take(i), group_id);
            let all = ScenesState::members_of(scenes, group_id);
            some.len() <= all.len() && all.take(some.len() as int) == some
        }),
    decreases scenes.len(),
{
    let some = ScenesState::members_of(scenes.take(i), group_id);
    let all = ScenesState::members_of(scenes, group_id);
    if i < scenes.len() {
        let shorter = ScenesState::members_of(scenes.drop_last(), group_id);
        lemma_members_grow(scenes.drop_last(), group_id, i);
        assert(scenes.drop_last().take(i) =~= scenes.take(i));
        assert(all.take(some.len() as int) =~= shorter.take(some.len() as int));
    } else {
        assert(scenes.take(i) =~= scenes);
        assert(all.take(some.len() as int) =~= some);
    }
}

impl<const N: usize, const EXTENSION_BYTES: usize> ScenesServer<N, EXTENSION_BYTES> {
    pub fn new(name_support: u8) -> (server: Self)
        ensures
            server.wf(),
            server@ == (ScenesState {
                name_support,
                current_scene: 0,
                current_group: 0,
                scene_valid: false,
                scenes: Seq::empty(),
                last_recalled: None,
            }),
    {
        let server = ScenesServer {
            name_support,
            current_scene: 0,
            current_group: 0,
            scene_valid: false,
            scenes: Vec::new(),
            last_recalled: None,
        };
        assert(server@.scenes =~= Seq::empty());
        server
    }

    pub fn scene_count(&self) -> (count: u8)
        ensures
            count == self@.count(),
    {
        if self.scenes.len() > 255 {
            255
        } else {
            self.scenes.len() as u8
        }
    }

    pub fn capacity_remaining(&self) -> (room: u8)
        requires
            self.wf(),
        ensures
            room == self@.room(N as nat),
    {
        let room: usize = N - self.scenes.len();
        if room > 255 {
            255
        } else {
            room as u8
        }
    }

    pub fn scenes(&self) -> (scenes: &[SceneEntry<EXTENSION_BYTES>])
        ensures
            scenes@ == self.scenes@,
            scenes@.map_values(|e: SceneEntry<EXTENSION_BYTES>| e@) == self@.scenes,
            self.wf() ==> forall|i: int| 0 <= i < scenes@.len() ==> (#[trigger] scenes@[i]).wf(),
    {
        self.scenes.as_slice()
    }

    /// Returns the (`group_id`, `scene_id`) of the last recalled scene, if any.
    /// Cleared by the next recall.
    pub fn last_recalled_scene(&self) -> (ids: Option<(u16, u8)>)
        ensures
            ids == self@.last_recalled,
    {
        self.last_recalled
    }

    /// Returns the entry for the last recalled scene, if any.
    pub fn last_recalled_entry(&self) -> (entry: Option<&SceneEntry<EXTENSION_BYTES>>)
        requires
            self.wf(),
        ensures
            match self@.last_recalled {
                Some((group_id, scene_id)) if self@.has(group_id, scene_id) => entry matches Some(e)
                    && e@ == self@.scene(group_id, scene_id) && e.wf(),
                _ => entry is None,
            },
    {
        match self.last_recalled {
            Some((group_id, scene_id)) => match self.find_index(group_id, scene_id) {
                Some(i) => Some(&self.scenes[i]),
                None => None,
            },
            None => None,
        }
    }

    /// Returns extension-field-set bytes for the last recalled scene, if any.
    pub fn last_recalled_extension_bytes(&self) -> (bytes: Option<&[u8]>)
        requires
            self.wf(),
        ensures
            match self@.last_recalled {
                Some((group_id, scene_id)) if self@.has(group_id, scene_id) => bytes matches Some(b)
                    && b@ == self@.scene(group_id, scene_id).extension,
                _ => bytes is None,
            },
    {
        match self.last_recalled_entry() {
            Some(e) => Some(e.extension_bytes()),
            None => None,
        }
    }

    /// Clear the marker of the last recall after the application has handled it.
    pub fn consume_recall(&mut self)
        ensures
            old(self).wf() ==> final(self).wf(),
            final(self)@ == (ScenesState { last_recalled: None, ..old(self)@ }),
    {
        self.last_recalled = None;
    }

    fn find_index(&self, group_id: u16, scene_id: u8) -> (found: Option<usize>)
        requires
            self.wf(),
        ensures
            match found {
                Some(i) => self@.has(group_id, scene_id) && i == self@.slot(group_id, scene_id) && i
                    < self.scenes@.len(),
                None => !self@.has(group_id, scene_id),
            },
    {
        let mut i: usize = 0;
        while i < self.scenes.len()
            invariant
                self.wf(),
                i <= self.scenes@.len(),
                forall|k: int| 0 <= k < i ==> !#[trigger] self@.is_slot(group_id, scene_id, k),
            decreases self.scenes@.len() - i,
        {
            assert(self@.scenes[i as int] == self.scenes@[i as int]@);
            if self.scenes[i].group_id == group_id && self.scenes[i].scene_id == scene_id {
                proof {
                    assert(self@.is_slot(group_id, scene_id, i as int));
                    let k = self@.slot(group_id, scene_id);
                    assert(self@.is_slot(group_id, scene_id, k));
                    assert(k == i);
                }
                return Some(i);
            }
            i = i + 1;
        }
        assert forall|k: int| !self@.is_slot(group_id, scene_id, k) by {}
        None
    }

    fn upsert(
        &mut self,
        group_id: u16,
        scene_id: u8,
        transition_time: u16,
        name: &[u8],
        extension_bytes: &[u8],
    ) -> (status: Status)
        requires
            old(self).wf(),
        ensures
            final(self).wf(),
            (final(self)@, status) == old(self)@.added(
                N as nat,
                EXTENSION_BYTES as nat,
                SceneState {
                    group_id,
                    scene_id,
                    transition_time,
                    name: name@,
                    extension: extension_bytes@,
                },
            ),
    {
        if name.len() > 16 || extension_bytes.len() > EXTENSION_BYTES {
            return Status::InvalidField;
        }
        let entry: SceneEntry<EXTENSION_BYTES> = SceneEntry::filled(
            group_id,
            scene_id,
            transition_time,
            name,
            extension_bytes,
        );
        let ghost scene = entry@;
        let ghost before = old(self)@;
        match self.find_index(group_id, scene_id) {
            Some(i) => {
                self.scenes.set(i, entry);
                proof {
                    assert(before.is_slot(group_id, scene_id, i as int));
                    assert(self@.scenes =~= before.scenes.update(i as int, scene));
                }
                Status::Success
            },
            None => {
                if self.scenes.len() >= N {
                    return Status::InsufficientSpace;
                }
                self.scenes.push(entry);
                proof {
                    assert(self@.scenes =~= before.scenes.push(scene));
                    assert forall|k: int| 0 <= k < before.scenes.len() implies (
                    #[trigger] before.scenes[k]).group_id != group_id || before.scenes[k].scene_id
                        != scene_id by {
                        assert(!before.is_slot(group_id, scene_id, k));
                    }
                }
                Status::Success
            },
        }
    }

    fn remove(&mut self, group_id: u16, scene_id: u8) -> (status: Status)
        requires
            old(self).wf(),
        ensures
            final(self).wf(),
            (final(self)@, status) == old(self)@.removed(group_id, scene_id),
    {
        let ghost before = self@;
        match self.find_index(group_id, scene_id) {
            Some(i) => {
                let _gone = self.scenes.swap_remove(i);
                assert(self@.scenes =~= before.scenes.update(
                    i as int,
                    before.scenes.last(),
                ).drop_last());
                self.invalidate_if_current(group_id, scene_id);
                Status::Success
            },
            None => Status::NotFound,
        }
    }

    fn invalidate_if_current(&mut self, group_id: u16, scene_id: u8)
        ensures
            old(self).wf() ==> final(self).wf(),
            final(self).scenes == old(self).scenes,
            final(self)@ == (ScenesState {
                scene_valid: old(self)@.scene_valid && !(old(self)@.current_group == group_id
                    && old(self)@.current_scene == scene_id),
                ..old(self)@
            }),
    {
        if self.current_group == group_id && self.current_scene == scene_id {
            self.scene_valid = false;
        }
    }

    #[verifier::loop_isolation(false)]
    fn remove_for_group(&mut self, group_id: u16)
        requires
            old(self).wf(),
        ensures
            final(self).wf(),
            final(self)@ == (ScenesState {
                scenes: old(self)@.scenes.filter(|s: SceneState| s.group_id != group_id),
                ..old(self)@
            }),
    {
        let ghost before = self@.scenes;
        let ghost keep = |s: SceneState| s.group_id != group_id;
        let ghost mut seen: int = 0;
        let mut i: usize = 0;
        assert(before.take(0).filter(keep) =~= Seq::empty()) by {
            reveal(Seq::filter);
        }
        assert(self@.scenes.take(0) =~= Seq::empty());
        assert(self@.scenes.skip(0) =~= before.skip(0));
        while i < self.scenes.len()
            invariant
                self.wf(),
                i <= self.scenes@.len(),
                0 <= seen <= before.len(),
                self@.scenes.take(i as int) == before.take(seen).filter(keep),
                self@.scenes.skip(i as int) == before.skip(seen),
                self@ == (ScenesState { scenes: self@.scenes, ..old(self)@ }),
            decreases self.scenes@.len() - i,
        {
            let ghost now = self@.scenes;
            proof {
                assert(now[i as int] == self.scenes@[i as int]@);
                assert(now.skip(i as int)[0] == before.skip(seen)[0]);
                assert(before.take(seen + 1).drop_last() =~= before.take(seen));
                assert(before.take(seen + 1).last() == before[seen]);
                reveal(Seq::filter);
            }
            if self.scenes[i].group_id == group_id {
                let _gone = self.scenes.remove(i);
                proof {
                    assert(self@.scenes =~= now.remove(i as int));
                    assert(self@.scenes.take(i as int) =~= now.take(i as int));
                    assert(self@.scenes.skip(i as int) =~= now.skip(i as int).skip(1));
                    assert(before.skip(seen).skip(1) =~= before.skip(seen + 1));
                }
            } else {
                i = i + 1;
                proof {
                    assert(now.take(i as int) =~= now.take(i - 1).push(now[i - 1]));
                    assert(now.skip(i as int) =~= now.skip(i - 1).skip(1));
                    assert(before.skip(seen).skip(1) =~= before.skip(seen + 1));
                }
            }
            proof {
                seen = seen + 1;
            }
        }
        proof {
            assert(self@.scenes.take(i as int) =~= self@.scenes);
            assert(self@.scenes.skip(i as int).len() == 0);
            assert(before.take(seen) =~= before);
        }
    }

    /// Remove the group's scenes.
    fn clear(&mut self, group_id: u16)
        requires
            old(self).wf(),
        ensures
            final(self).wf(),
            final(self)@ == old(self)@.cleared(group_id),
    {
        self.remove_for_group(group_id);
        let ghost kept = self@.scenes;
        if self.current_group == group_id {
            self.scene_valid = false;
        }
        assert(self@.scenes =~= kept);
    }

    /// Make the scene the current one.
    fn make_current(&mut self, group_id: u16, scene_id: u8)
        requires
            old(self).wf(),
        ensures
            final(self).wf(),
            final(self)@ == old(self)@.current(group_id, scene_id),
    {
        self.current_scene = scene_id;
        self.current_group = group_id;
        self.scene_valid = true;
    }

    fn store(&mut self, group_id: u16, scene_id: u8) -> (status: Status)
        requires
            old(self).wf(),
        ensures
            final(self).wf(),
            (final(self)@, status) == old(self)@.stored(
                N as nat,
                EXTENSION_BYTES as nat,
                group_id,
                scene_id,
            ),
    {
        let nothing: [u8; 0] = [];
        assert(nothing@ =~= Seq::empty());
        let status: Status = self.upsert(group_id, scene_id, 0, &nothing, &nothing);
        if status == Status::Success {
            self.make_current(group_id, scene_id);
        }
        status
    }

    fn recall(&mut self, group_id: u16, scene_id: u8) -> (status: Status)
        requires
            old(self).wf(),
        ensures
            final(self).wf(),
            (final(self)@, status) == old(self)@.recalled(group_id, scene_id),
    {
        let status: Status = if self.find_index(group_id, scene_id).is_some() {
            self.make_current(group_id, scene_id);
            self.last_recalled = Some((group_id, scene_id));
            Status::Success
        } else {
            self.last_recalled = None;
            Status::NotFound
        };
        assert(self@.scenes =~= old(self)@.scenes);
        status
    }

    /// Group, scene, transition time, name, extension field sets.
    fn add(&mut self, payload: &[u8], buf: &mut [u8]) -> (r: Result<CommandResult, ZclError>)
        requires
            old(self).wf(),
        ensures
            final(self).wf(),
            final(buf)@.len() == old(buf)@.len(),
            old(self)@.handled(
                N as nat,
                EXTENSION_BYTES as nat,
                CommandId(0x00),
                payload@,
                old(buf)@,
                final(self)@,
                final(buf)@,
                r,
            ),
            r matches Ok(result) ==> result.leaves(old(buf)@, final(buf)@),
    {
        match parse_add_scene(payload) {
            None => Err(ZclError::InsufficientBytes),
            Some((group_id, scene_id, transition_time, name, extension_bytes)) => {
                let status: Status = self.upsert(
                    group_id,
                    scene_id,
                    transition_time,
                    name,
                    extension_bytes,
                );
                write_status_group_scene(0x00, status, group_id, scene_id, buf)
            },
        }
    }

    /// Show a scene.
    fn show(&self, group_id: u16, scene_id: u8, buf: &mut [u8]) -> (r: Result<
        CommandResult,
        ZclError,
    >)
        requires
            self.wf(),
        ensures
            final(buf)@.len() == old(buf)@.len(),
            Reply::is(
                0x01,
                self@.view_reply(group_id, scene_id),
                old(buf)@,
                final(buf)@,
                r,
            ),
            r matches Ok(result) ==> result.leaves(old(buf)@, final(buf)@),
    {
        match self.find_index(group_id, scene_id) {
            Some(i) => {
                let e = &self.scenes[i];
                assert(self@.scenes[i as int] == e@);
                let name_len: usize = e.name_len as usize;
                let room: usize = buf.len();
                if room < 7 || room - 7 < name_len || room - 7 - name_len
                    < e.extension_bytes.len() {
                    return Err(ZclError::BufferTooSmall);
                }
                let needed: usize = 7 + name_len + e.extension_bytes.len();
                buf[0] = Status::Success.as_u8();
                buf[1] = low_byte(group_id);
                buf[2] = high_byte(group_id);
                buf[3] = scene_id;
                buf[4] = low_byte(e.transition_time);
                buf[5] = high_byte(e.transition_time);
                buf[6] = e.name_len;
                let ghost front = ScenesState::status_reply(Status::Success, group_id, scene_id)
                    + Le::u16(e.transition_time) + seq![e.name_len];
                let ghost before = old(buf)@;
                assert(buf@ =~= front + before.skip(7));
                copy_at(buf, 7, e.name_bytes());
                assert(buf@ =~= front + e@.name + before.skip(7 + name_len));
                copy_at(buf, 7 + name_len, e.extension_bytes.as_slice());
                assert(buf@ =~= front + e@.name + e@.extension + before.skip(needed as int));
                assert(self@.view_reply(group_id, scene_id) == front + e@.name + e@.extension);
                Ok(CommandResult::Payload { command_id: CommandId::new(0x01), len: needed })
            },
            None => {
                if buf.len() < 7 {
                    return Err(ZclError::BufferTooSmall);
                }
                buf[0] = Status::NotFound.as_u8();
                buf[1] = low_byte(group_id);
                buf[2] = high_byte(group_id);
                buf[3] = scene_id;
                buf[4] = 0;
                buf[5] = 0;
                buf[6] = 0;
                assert(buf@ =~= self@.view_reply(group_id, scene_id) + old(buf)@.skip(7));
                Ok(CommandResult::Payload { command_id: CommandId::new(0x01), len: 7 })
            },
        }
    }

    /// List a group's scenes.
    #[verifier::loop_isolation(false)]
    fn membership(&self, group_id: u16, buf: &mut [u8]) -> (r: Result<CommandResult, ZclError>)
        requires
            self.wf(),
        ensures
            final(buf)@.len() == old(buf)@.len(),
            self@.listed(N as nat, group_id, old(buf)@, final(buf)@, r),
            r matches Ok(result) ==> result.leaves(old(buf)@, final(buf)@),
    {
        let total: usize = buf.len();
        if total < 5 {
            return Err(ZclError::BufferTooSmall);
        }
        let ghost before = buf@;
        let ghost all = self@.scenes;
        let mut count: u8 = 0;
        let mut i: usize = 0;
        assert(all.take(0) =~= Seq::empty());
        assert(buf@ =~= before.take(5) + Seq::<u8>::empty() + before.skip(5));
        while i < self.scenes.len()
            invariant
                i <= self.scenes@.len(),
                buf@.len() == total,
                5 + count <= total,
                count == ScenesState::members_of(all.take(i as int), group_id).len(),
                buf@ == before.take(5) + ScenesState::members_of(all.take(i as int), group_id)
                    + before.skip(5 + count),
            decreases self.scenes@.len() - i,
        {
            let ghost some = ScenesState::members_of(all.take(i as int), group_id);
            proof {
                assert(all[i as int] == self.scenes@[i as int]@);
                assert(all.take(i + 1).drop_last() =~= all.take(i as int));
            }
            if self.scenes[i].group_id == group_id {
                let off: usize = 5 + count as usize;
                if off >= total || count == 255 {
                    proof {
                        lemma_members_grow(all, group_id, i as int);
                        lemma_members_grow(all, group_id, i + 1);
                    }
                    return Err(ZclError::BufferTooSmall);
                }
                buf[off] = self.scenes[i].scene_id;
                count = count + 1;
                assert(buf@ =~= before.take(5) + some.push(all[i as int].scene_id) + before.skip(
                    5 + count,
                ));
            }
            i = i + 1;
        }
        assert(all.take(i as int) =~= all);
        let len: usize = 5 + count as usize;
        buf[0] = Status::Success.as_u8();
        buf[1] = self.capacity_remaining();
        buf[2] = low_byte(group_id);
        buf[3] = high_byte(group_id);
        buf[4] = count;
        assert(buf@ =~= self@.members_reply(N as nat, group_id) + before.skip(len as int));
        Ok(CommandResult::Payload { command_id: CommandId::new(0x06), len })
    }
}

impl<const N: usize, const EXTENSION_BYTES: usize> Default for ScenesServer<N, EXTENSION_BYTES> {
    fn default() -> (server: Self)
        ensures
            server.wf(),
            server@.name_support == 0 && server@.scenes.len() == 0 && !server@.scene_valid,
            server@.current_scene == 0 && server@.current_group == 0,
            server@.last_recalled is None,
    {
        Self::new(0x00)
    }
}

fn parse_add_scene(payload: &[u8]) -> (fields: Option<(u16, u8, u16, &[u8], &[u8])>)
    ensures
        match fields {
            Some((group_id, scene_id, transition_time, name, extension)) => ScenesState::parsed(
                payload@,
            ) == Some(
                SceneState {
                    group_id,
                    scene_id,
                    transition_time,
                    name: name@,
                    extension: extension@,
                },
            ),
            None => ScenesState::parsed(payload@) is None,
        },
{
    if payload.len() < 6 {
        return None;
    }
    let total: usize = payload.len();
    let extension_start: usize = 6 + payload[5] as usize;
    if total < extension_start {
        return None;
    }
    assert(payload@.subrange(extension_start as int, total as int) =~= payload@.skip(
        extension_start as int,
    ));
    Some(
        (
            read_u16(payload, 0),
            payload[2],
            read_u16(payload, 3),
            &payload[6..extension_start],
            &payload[extension_start..total],
        ),
    )
}

/// Reply under `command` with a status and a scene's identifiers.
fn write_status_group_scene(
    command: u8,
    status: Status,
    group_id: u16,
    scene_id: u8,
    buf: &mut [u8],
) -> (r: Result<CommandResult, ZclError>)
    ensures
        final(buf)@.len() == old(buf)@.len(),
        Reply::is(
            command,
            ScenesState::status_reply(status, group_id, scene_id),
            old(buf)@,
            final(buf)@,
            r,
        ),
        r matches Ok(result) ==> result.leaves(old(buf)@, final(buf)@),
{
    if buf.len() < 4 {
        return Err(ZclError::BufferTooSmall);
    }
    buf[0] = status.as_u8();
    buf[1] = low_byte(group_id);
    buf[2] = high_byte(group_id);
    buf[3] = scene_id;
    assert(buf@ =~= ScenesState::status_reply(status, group_id, scene_id) + old(buf)@.skip(4));
    Ok(CommandResult::Payload { command_id: CommandId(command), len: 4 })
}

impl<const N: usize, const EXTENSION_BYTES: usize> ClusterServer for ScenesServer<
    N,
    EXTENSION_BYTES,
> {
    const CLUSTER_ID: u16 = 0x0005;

    open spec fn wf(&self) -> bool {
        &&& self.scenes@.len() <= N
        &&& self@.distinct()
        &&& forall|i: int| 0 <= i < self.scenes@.len() ==> (#[trigger] self.scenes@[i]).wf()
    }

    open spec fn attr(&self, id: AttributeId, cap: nat) -> ReadSpec {
        match self@.value(id) {
            Some(v) => v.read(cap),
            None => Err(AttrError::UnsupportedAttribute),
        }
    }

    open spec fn write_check(&self, id: AttributeId, type_id: TypeId, data: Seq<u8>) -> Result<
        (),
        AttrError,
    > {
        if self@.value(id) is None {
            Err(AttrError::UnsupportedAttribute)
        } else {
            Err(AttrError::ReadOnly)
        }
    }

    open spec fn wrote(
        pre: Self,
        id: AttributeId,
        type_id: TypeId,
        data: Seq<u8>,
        post: Self,
        r: Result<(), AttrError>,
    ) -> bool {
        post@ == pre@ && r == pre.write_check(id, type_id, data)
    }

    open spec fn handled(
        pre: Self,
        id: CommandId,
        payload: Seq<u8>,
        ctx: DispatchContext,
        before: Seq<u8>,
        post: Self,
        body: Seq<u8>,
        r: Result<CommandResult, ZclError>,
    ) -> bool {
        pre@.handled(N as nat, EXTENSION_BYTES as nat, id, payload, before, post@, body, r)
    }

    open spec fn attribute_infos() -> Seq<AttrInfo> {
        seq![
            AttrInfo::ro(0x0000, TypeId::Uint8),
            AttrInfo::ro(0x0001, TypeId::Uint8),
            AttrInfo::ro(0x0002, TypeId::Uint16),
            AttrInfo::ro(0x0003, TypeId::Boolean),
            AttrInfo::ro(0x0004, TypeId::Bitmap8),
            AttrInfo::ro(0xFFFD, TypeId::Uint16),
        ]
    }

    fn read_attribute(&self, id: AttributeId, buf: &mut [u8]) -> (r: Result<
        (TypeId, usize),
        AttrError,
    >) {
        match id.0 {
            0x0000 => encode_attr(AttrValue::Uint8(self.scene_count()), buf),
            0x0001 => encode_attr(AttrValue::Uint8(self.current_scene), buf),
            0x0002 => encode_attr(AttrValue::Uint16(self.current_group), buf),
            0x0003 => encode_attr(AttrValue::Boolean(self.scene_valid), buf),
            0x0004 => encode_attr(AttrValue::Bitmap8(self.name_support), buf),
            0xFFFD => encode_attr(AttrValue::Uint16(1), buf),
            _ => Err(AttrError::UnsupportedAttribute),
        }
    }

    fn check_write_attribute(&self, id: AttributeId, type_id: TypeId, data: &[u8]) -> (r: Result<
        (),
        AttrError,
    >) {
        match id.0 {
            0x0000..=0x0004 | 0xFFFD => Err(AttrError::ReadOnly),
            _ => Err(AttrError::UnsupportedAttribute),
        }
    }

    fn write_attribute(&mut self, id: AttributeId, type_id: TypeId, data: &[u8]) -> (r: Result<
        (),
        AttrError,
    >) {
        self.check_write_attribute(id, type_id, data)
    }

    fn handle_command(
        &mut self,
        id: CommandId,
        payload: &[u8],
        ctx: DispatchContext,
        buf: &mut [u8],
    ) -> (r: Result<CommandResult, ZclError>) {
        if id.0 > 0x06 {
            return Ok(CommandResult::DefaultResponse(Status::UnsupCommand));
        }
        if payload.len() < 2 {
            return Err(ZclError::InsufficientBytes);
        }
        let group_id: u16 = read_u16(payload, 0);
        if id.0 == 0x03 {
            self.clear(group_id);
            return write_status_and_group(0x03, Status::Success, group_id, buf);
        }
        if id.0 == 0x06 {
            return self.membership(group_id, buf);
        }
        if payload.len() < 3 {
            return Err(ZclError::InsufficientBytes);
        }
        let scene_id: u8 = payload[2];
        match id.0 {
            0x00 => self.add(payload, buf),
            0x01 => self.show(group_id, scene_id, buf),
            0x02 => {
                let status: Status = self.remove(group_id, scene_id);
                write_status_group_scene(0x02, status, group_id, scene_id, buf)
            },
            0x04 => {
                let status: Status = self.store(group_id, scene_id);
                write_status_group_scene(0x04, status, group_id, scene_id, buf)
            },
            _ => Ok(CommandResult::DefaultResponse(self.recall(group_id, scene_id))),
        }
    }

    fn tick(&mut self, now_ms: u32) -> (r: ClusterTick) {
        ClusterTick::idle()
    }

    fn take_dispatch_effects(&mut self) -> (r: DispatchEffects) {
        DispatchEffects::none()
    }

    fn snapshot(&self, buf: &mut [u8]) -> (n: usize) {
        assert(buf@ =~= Seq::<u8>::empty() + buf@.skip(0));
        0
    }

    fn restore_snapshot(&mut self, buf: &[u8]) {
    }

    fn configure_reporting(
        &mut self,
        record: ConfigureReportingRecord<'_>,
        ctx: DispatchContext,
    ) -> (r: Status) {
        Status::UnreportableAttribute
    }

    fn collect_reports(&mut self, now_ms: u32, out: &mut ReportPayloadWriter<'_>) -> (r: Result<
        Option<ClusterReportReady>,
        ZclError,
    >) {
        Ok(None)
    }

    fn report_delivery_result(
        &mut self,
        token: ReportToken,
        result: ReportDeliveryResult,
        now_ms: u32,
    ) {
    }

    fn take_reporting_diagnostics(&mut self) -> (r: ReportingDiagnostics) {
        ReportingDiagnostics::none()
    }

    fn read_reporting_config(&self, attr_id: AttributeId, direction: u8, buf: &mut [u8]) -> (n:
        usize) {
        crate::reporting::write_not_found(attr_id, direction, buf)
    }

    fn attribute_list() -> (list: Vec<AttrInfo>) {
        vec![
            AttrInfo::read_only(0x0000, TypeId::Uint8),
            AttrInfo::read_only(0x0001, TypeId::Uint8),
            AttrInfo::read_only(0x0002, TypeId::Uint16),
            AttrInfo::read_only(0x0003, TypeId::Boolean),
            AttrInfo::read_only(0x0004, TypeId::Bitmap8),
            AttrInfo::read_only(0xFFFD, TypeId::Uint16),
        ]
    }

    fn commands_received() -> (list: Vec<CommandId>) {
        Vec::new()
    }

    fn commands_generated() -> (list: Vec<CommandId>) {
        Vec::new()
    }
}

/// A scene that was added is shown as it was given, and no other scene is shown
/// otherwise than before.
pub proof fn law_added_scene_is_shown(s: ScenesState, n: nat, ext: nat, scene: SceneState)
    requires
        s.distinct(),
        s.added(n, ext, scene).1 == Status::Success,
    ensures
        s.added(n, ext, scene).0.has(scene.group_id, scene.scene_id),
        s.added(n, ext, scene).0.scene(scene.group_id, scene.scene_id) == scene,
        s.added(n, ext, scene).0.distinct(),
        forall|g: u16, i: u8|
            g != scene.group_id || i != scene.scene_id ==> #[trigger] s.added(
                n,
                ext,
                scene,
            ).0.view_reply(g, i) == s.view_reply(g, i),
{
    let t = s.added(n, ext, scene).0;
    let g0 = scene.group_id;
    let i0 = scene.scene_id;
    let at = if s.has(g0, i0) {
        s.slot(g0, i0)
    } else {
        s.scenes.len() as int
    };
    if s.has(g0, i0) {
        assert(s.is_slot(g0, i0, at));
    } else {
        assert forall|k: int| 0 <= k < s.scenes.len() implies (#[trigger] s.scenes[k]).group_id
            != g0 || s.scenes[k].scene_id != i0 by {
            assert(!s.is_slot(g0, i0, k));
        }
    }
    assert(t.distinct());
    assert(t.is_slot(g0, i0, at));
    assert(t.is_slot(g0, i0, t.slot(g0, i0)));
    assert(t.slot(g0, i0) == at);
    assert forall|g: u16, i: u8| g != g0 || i != i0 implies #[trigger] t.view_reply(g, i)
        == s.view_reply(g, i) by {
        if s.has(g, i) {
            let k = s.slot(g, i);
            assert(s.is_slot(g, i, k));
            assert(t.is_slot(g, i, k));
            assert(t.is_slot(g, i, t.slot(g, i)));
            assert(t.slot(g, i) == k);
        } else {
            assert forall|k: int| !t.is_slot(g, i, k) by {
                assert(!s.is_slot(g, i, k));
            }
        }
    }
}

/// A scene that was removed is gone.
pub proof fn law_removed_scene_is_gone(s: ScenesState, group_id: u16, scene_id: u8)
    requires
        s.distinct(),
    ensures
        !s.removed(group_id, scene_id).0.has(group_id, scene_id),
{
    let t = s.removed(group_id, scene_id).0;
    if s.has(group_id, scene_id) {
        let at = s.slot(group_id, scene_id);
        assert(s.is_slot(group_id, scene_id, at));
        assert forall|k: int| !t.is_slot(group_id, scene_id, k) by {
            if 0 <= k < t.scenes.len() {
                if k == at {
                    assert(t.scenes[k] == s.scenes[s.scenes.len() - 1]);
                } else {
                    assert(t.scenes[k] == s.scenes[k]);
                }
            }
        }
    }
}

/// After a group was cleared it has no scene, and no scene of it is valid.
pub proof fn law_cleared_group_is_empty(s: ScenesState, group_id: u16, scene_id: u8)
    ensures
        !s.cleared(group_id).has(group_id, scene_id),
        s.cleared(group_id).current_group == group_id ==> !s.cleared(group_id).scene_valid,
{
    let keep = |x: SceneState| x.group_id != group_id;
    let t = s.cleared(group_id);
    assert forall|k: int| !t.is_slot(group_id, scene_id, k) by {
        if 0 <= k < t.scenes.len() {
            s.scenes.lemma_filter_pred(keep, k);
        }
    }
}

/// A scene that was stored can be recalled, and is then the current one.
pub proof fn law_stored_scene_is_recalled(
    s: ScenesState,
    n: nat,
    ext: nat,
    group_id: u16,
    scene_id: u8,
)
    requires
        s.distinct(),
        s.stored(n, ext, group_id, scene_id).1 == Status::Success,
    ensures
        ({
            let (t, status) = s.stored(n, ext, group_id, scene_id).0.recalled(group_id, scene_id);
            status == Status::Success && t.scene_valid && t.current_group == group_id
                && t.current_scene == scene_id && t.last_recalled == Some((group_id, scene_id))
        }),
{
    let scene = SceneState {
        group_id,
        scene_id,
        transition_time: 0,
        name: Seq::empty(),
        extension: Seq::empty(),
    };
    law_added_scene_is_shown(s, n, ext, scene);
    let added = s.added(n, ext, scene).0;
    let stored = s.stored(n, ext, group_id, scene_id).0;
    assert(added.is_slot(group_id, scene_id, added.slot(group_id, scene_id)));
    assert(stored.is_slot(group_id, scene_id, added.slot(group_id, scene_id)));
}

/// No attribute can be written from the network: every write is refused and changes
/// nothing.
pub proof fn law_attributes_are_read_only<const N: usize, const EXTENSION_BYTES: usize>(
    pre: ScenesServer<N, EXTENSION_BYTES>,
    id: AttributeId,
    type_id: TypeId,
    data: Seq<u8>,
    post: ScenesServer<N, EXTENSION_BYTES>,
    r: Result<(), AttrError>,
)
    requires
        ScenesServer::<N, EXTENSION_BYTES>::wrote(pre, id, type_id, data, post, r),
    ensures
        r is Err,
        post@ == pre@,
{
}

/// What is shown of a scene fixes its name's padding too: two that show the same are the
/// same in every byte.
pub proof fn law_entries_that_show_the_same_are_the_same<const EXTENSION_BYTES: usize>(
    a: SceneEntry<EXTENSION_BYTES>,
    b: SceneEntry<EXTENSION_BYTES>,
)
    requires
        a.wf(),
        b.wf(),
        a@ == b@,
    ensures
        a.group_id == b.group_id,
        a.scene_id == b.scene_id,
        a.transition_time == b.transition_time,
        a.extension_bytes@ == b.extension_bytes@,
        a.name_len == b.name_len,
        a.name@ == b.name@,
{
    assert(a.name@.len() == 16 && b.name@.len() == 16);
    assert(a@.name.len() == a.name_len && b@.name.len() == b.name_len);
    assert forall|k: int| 0 <= k < 16 implies a.name@[k] == b.name@[k] by {
        if k < a.name_len {
            assert(a@.name[k] == a.name@[k] && b@.name[k] == b.name@[k]);
        } else {
            assert(a.name@[k] == 0 && b.name@[k] == 0);
        }
    }
    assert(a.name@ =~= b.name@);
}

} // verus!
