//! What a scenes server does with each command, from the bytes of the command to the bytes
//! of the reply.

use vstd::prelude::*;

use crate::bytes::Le;
use crate::cluster_server::ClusterServer;
use crate::common::scenes::SceneState;
use crate::common::scenes::ScenesServer;
use crate::common::scenes::ScenesState;
use crate::context::CommandResult;
use crate::context::DispatchContext;
use crate::frame::Status;
use crate::types::error::AttrError;
use crate::types::error::ZclError;
use crate::types::ids::AttributeId;
use crate::types::ids::CommandId;
use crate::types::ids::TypeId;

verus! {

/// The table has this scene of this group.
pub open spec fn in_table(scenes: Seq<SceneState>, group: int, scene: int) -> bool {
    exists|k: int|
        0 <= k < scenes.len() && (#[trigger] scenes[k]).group_id == group && scenes[k].scene_id
            == scene
}

proof fn lemma_in_table(s: ScenesState, group: u16, scene: u8)
    ensures
        s.has(group, scene) == in_table(s.scenes, group as int, scene as int),
        s.has(group, scene) ==> s.is_slot(group, scene, s.slot(group, scene)),
{
    if s.has(group, scene) {
        assert(s.is_slot(group, scene, s.slot(group, scene)));
    }
    if in_table(s.scenes, group as int, scene as int) {
        let k = choose|k: int|
            0 <= k < s.scenes.len() && (#[trigger] s.scenes[k]).group_id == group
                && s.scenes[k].scene_id == scene;
        assert(s.is_slot(group, scene, k));
    }
}

/// Where distinct scenes stand in the table, each stands once.
proof fn lemma_one_place(s: ScenesState, group: u16, scene: u8, k: int)
    requires
        s.distinct(),
        s.is_slot(group, scene, k),
    ensures
        s.has(group, scene),
        s.slot(group, scene) == k,
{
    assert(s.is_slot(group, scene, s.slot(group, scene)));
}

/// Scene `x` was entered in a table of at most `n` scenes with at most `ext` extension bytes:
/// refused if its name or extension is too long; put in the place of a scene with the same
/// identifiers; or else put behind the others, if there is room.
pub open spec fn enters(
    pre: ScenesState,
    n: int,
    ext: int,
    x: SceneState,
    post: ScenesState,
    status: u8,
) -> bool {
    if x.name.len() > 16 || x.extension.len() > ext {
        status == 0x85 && post.scenes == pre.scenes
    } else if in_table(pre.scenes, x.group_id as int, x.scene_id as int) {
        &&& status == 0x00
        &&& post.scenes.len() == pre.scenes.len()
        &&& forall|k: int|
            0 <= k < pre.scenes.len() ==> #[trigger] post.scenes[k] == if pre.scenes[k].group_id
                == x.group_id && pre.scenes[k].scene_id == x.scene_id {
                x
            } else {
                pre.scenes[k]
            }
    } else if pre.scenes.len() >= n {
        status == 0x89 && post.scenes == pre.scenes
    } else {
        &&& status == 0x00
        &&& post.scenes.len() == pre.scenes.len() + 1
        &&& post.scenes[pre.scenes.len() as int] == x
        &&& forall|k: int|
            0 <= k < pre.scenes.len() ==> #[trigger] post.scenes[k] == pre.scenes[k]
    }
}

proof fn lemma_added(pre: ScenesState, n: nat, ext: nat, x: SceneState)
    requires
        pre.distinct(),
    ensures
        enters(
            pre,
            n as int,
            ext as int,
            x,
            pre.added(n, ext, x).0,
            pre.added(n, ext, x).1.code(),
        ),
{
    lemma_in_table(pre, x.group_id, x.scene_id);
    let post = pre.added(n, ext, x).0;
    if pre.has(x.group_id, x.scene_id) {
        assert forall|k: int|
            0 <= k < pre.scenes.len() && pre.scenes[k].group_id == x.group_id
                && pre.scenes[k].scene_id == x.scene_id implies k == pre.slot(
            x.group_id,
            x.scene_id,
        ) by {
            assert(pre.is_slot(x.group_id, x.scene_id, k));
            lemma_one_place(pre, x.group_id, x.scene_id, k);
        }
    }
}

proof fn lemma_reply_layout(status: Status, low: u8, high: u8, scene: u8)
    ensures
        ScenesState::status_reply(status, (low + 256 * high) as u16, scene) == seq![
            status.code(),
            low,
            high,
            scene,
        ],
{
    assert(ScenesState::status_reply(status, (low + 256 * high) as u16, scene) =~= seq![
        status.code(),
        low,
        high,
        scene,
    ]);
}

/// Adding a scene: group, scene, transition time, name with its length in front, and
/// extension field sets to the end. The reply is the status, the group and the scene.
pub proof fn law_add_scene<const N: usize, const EXTENSION_BYTES: usize>(
    pre: ScenesServer<N, EXTENSION_BYTES>,
    low: u8,
    high: u8,
    scene: u8,
    time_low: u8,
    time_high: u8,
    name: Seq<u8>,
    extension: Seq<u8>,
    ctx: DispatchContext,
    before: Seq<u8>,
    post: ScenesServer<N, EXTENSION_BYTES>,
    body: Seq<u8>,
    r: Result<CommandResult, ZclError>,
    x: SceneState,
)
    requires
        before.len() <= usize::MAX,
        pre@.distinct(),
        name.len() <= 255,
        x.group_id == low + 256 * high,
        x.scene_id == scene,
        x.transition_time == time_low + 256 * time_high,
        x.name == name,
        x.extension == extension,
        ScenesServer::<N, EXTENSION_BYTES>::handled(
            pre,
            CommandId(0x00),
            seq![low, high, scene, time_low, time_high, name.len() as u8] + name + extension,
            ctx,
            before,
            post,
            body,
            r,
        ),
    ensures
        post.current_scene == pre.current_scene,
        post.current_group == pre.current_group,
        post.scene_valid == pre.scene_valid,
        post.name_support == pre.name_support,
        post.last_recalled == pre.last_recalled,
        exists|status: u8| #[trigger]
            enters(pre@, N as int, EXTENSION_BYTES as int, x, post@, status)
                && crate::common::answer_laws::replied(
                0x00,
                seq![status, low, high, scene],
                before,
                body,
                r,
            ),
{
    let p = seq![low, high, scene, time_low, time_high, name.len() as u8] + name + extension;
    assert(p.subrange(6, 6 + name.len() as int) =~= name);
    assert(p.skip(6 + name.len() as int) =~= extension);
    assert(ScenesState::parsed(p) == Some(x));
    lemma_added(pre@, N as nat, EXTENSION_BYTES as nat, x);
    let status = pre@.added(N as nat, EXTENSION_BYTES as nat, x).1;
    lemma_reply_layout(status, low, high, scene);
    crate::common::answer_laws::law_reply_is_put_in_front(
        0x00,
        seq![status.code(), low, high, scene],
        before,
        body,
        r,
    );
    assert(enters(pre@, N as int, EXTENSION_BYTES as int, x, post@, status.code()));
}

/// Viewing a scene is answered with success, its identifiers, transition time, name and
/// extension, or with "not found", the identifiers and zeros.
pub proof fn law_view_scene<const N: usize, const EXTENSION_BYTES: usize>(
    pre: ScenesServer<N, EXTENSION_BYTES>,
    low: u8,
    high: u8,
    scene: u8,
    rest: Seq<u8>,
    ctx: DispatchContext,
    before: Seq<u8>,
    post: ScenesServer<N, EXTENSION_BYTES>,
    body: Seq<u8>,
    r: Result<CommandResult, ZclError>,
    k: int,
)
    requires
        before.len() <= usize::MAX,
        pre@.distinct(),
        ScenesServer::<N, EXTENSION_BYTES>::handled(
            pre,
            CommandId(0x01),
            seq![low, high, scene] + rest,
            ctx,
            before,
            post,
            body,
            r,
        ),
    ensures
        post@ == pre@,
        0 <= k < pre@.scenes.len() && pre@.scenes[k].group_id == low + 256 * high
            && pre@.scenes[k].scene_id == scene ==> {
            let x = pre@.scenes[k];
            crate::common::answer_laws::replied(
                0x01,
                seq![
                    0x00u8,
                    low,
                    high,
                    scene,
                    (x.transition_time % 256) as u8,
                    (x.transition_time / 256) as u8,
                    x.name.len() as u8,
                ] + x.name + x.extension,
                before,
                body,
                r,
            )
        },
        !in_table(pre@.scenes, low + 256 * high, scene as int)
            ==> crate::common::answer_laws::replied(
            0x01,
            seq![0x8bu8, low, high, scene, 0x00u8, 0x00u8, 0x00u8],
            before,
            body,
            r,
        ),
{
    let g = (low + 256 * high) as u16;
    assert(Le::u16_at(seq![low, high, scene] + rest, 0) == g);
    lemma_in_table(pre@, g, scene);
    let reply = pre@.view_reply(g, scene);
    crate::common::answer_laws::law_reply_is_put_in_front(0x01, reply, before, body, r);
    lemma_reply_layout(Status::Success, low, high, scene);
    lemma_reply_layout(Status::NotFound, low, high, scene);
    if 0 <= k < pre@.scenes.len() && pre@.scenes[k].group_id == g && pre@.scenes[k].scene_id
        == scene {
        let x = pre@.scenes[k];
        assert(pre@.is_slot(g, scene, k));
        lemma_one_place(pre@, g, scene, k);
        assert(reply =~= seq![
            0x00u8,
            low,
            high,
            scene,
            (x.transition_time % 256) as u8,
            (x.transition_time / 256) as u8,
            x.name.len() as u8,
        ] + x.name + x.extension);
    }
    if !in_table(pre@.scenes, g as int, scene as int) {
        assert(reply =~= seq![0x8bu8, low, high, scene, 0x00u8, 0x00u8, 0x00u8]);
    }
}

/// Removing a scene takes it out of the table and nothing else. If it was the current one,
/// the current scene is no longer valid.
pub proof fn law_remove_scene<const N: usize, const EXTENSION_BYTES: usize>(
    pre: ScenesServer<N, EXTENSION_BYTES>,
    low: u8,
    high: u8,
    scene: u8,
    rest: Seq<u8>,
    ctx: DispatchContext,
    before: Seq<u8>,
    post: ScenesServer<N, EXTENSION_BYTES>,
    body: Seq<u8>,
    r: Result<CommandResult, ZclError>,
    k: int,
)
    requires
        before.len() <= usize::MAX,
        pre@.distinct(),
        0 <= k < pre@.scenes.len(),
        ScenesServer::<N, EXTENSION_BYTES>::handled(
            pre,
            CommandId(0x02),
            seq![low, high, scene] + rest,
            ctx,
            before,
            post,
            body,
            r,
        ),
    ensures
        ({
            let g = low + 256 * high;
            if in_table(pre@.scenes, g, scene as int) {
                &&& post@.scenes.len() == pre@.scenes.len() - 1
                &&& !in_table(post@.scenes, g, scene as int)
                &&& (pre@.scenes[k].group_id != g || pre@.scenes[k].scene_id != scene)
                    ==> post@.scenes.contains(pre@.scenes[k])
                &&& post.scene_valid <==> pre.scene_valid && !(pre.current_group == g
                    && pre.current_scene == scene)
                &&& post.current_group == pre.current_group
                &&& post.current_scene == pre.current_scene
                &&& post.last_recalled == pre.last_recalled
                &&& crate::common::answer_laws::replied(
                    0x02,
                    seq![0x00u8, low, high, scene],
                    before,
                    body,
                    r,
                )
            } else {
                &&& post@ == pre@
                &&& crate::common::answer_laws::replied(
                    0x02,
                    seq![0x8bu8, low, high, scene],
                    before,
                    body,
                    r,
                )
            }
        }),
{
    let g = (low + 256 * high) as u16;
    assert(Le::u16_at(seq![low, high, scene] + rest, 0) == g);
    lemma_in_table(pre@, g, scene);
    let status = pre@.removed(g, scene).1;
    lemma_reply_layout(status, low, high, scene);
    crate::common::answer_laws::law_reply_is_put_in_front(
        0x02,
        seq![status.code(), low, high, scene],
        before,
        body,
        r,
    );
    if pre@.has(g, scene) {
        let at = pre@.slot(g, scene);
        let last = pre@.scenes.len() - 1;
        crate::common::scenes::law_removed_scene_is_gone(pre@, g, scene);
        lemma_in_table(post@, g, scene);
        if pre@.scenes[k].group_id != g || pre@.scenes[k].scene_id != scene {
            if k == last {
                assert(post@.scenes[at] == pre@.scenes[k]);
            } else {
                assert(post@.scenes[k] == pre@.scenes[k]);
            }
        }
    }
}

/// Removing a group's scenes leaves exactly the scenes of other groups. If the current
/// scene was of the group, it is no longer valid.
pub proof fn law_remove_all_scenes<const N: usize, const EXTENSION_BYTES: usize>(
    pre: ScenesServer<N, EXTENSION_BYTES>,
    low: u8,
    high: u8,
    rest: Seq<u8>,
    ctx: DispatchContext,
    before: Seq<u8>,
    post: ScenesServer<N, EXTENSION_BYTES>,
    body: Seq<u8>,
    r: Result<CommandResult, ZclError>,
    x: SceneState,
)
    requires
        before.len() <= usize::MAX,
        ScenesServer::<N, EXTENSION_BYTES>::handled(
            pre,
            CommandId(0x03),
            seq![low, high] + rest,
            ctx,
            before,
            post,
            body,
            r,
        ),
    ensures
        post@.scenes.contains(x) <==> pre@.scenes.contains(x) && x.group_id != low + 256 * high,
        post.scene_valid <==> pre.scene_valid && pre.current_group != low + 256 * high,
        post.current_group == pre.current_group,
        post.current_scene == pre.current_scene,
        post.last_recalled == pre.last_recalled,
        crate::common::answer_laws::replied(0x03, seq![0x00u8, low, high], before, body, r),
{
    let g = (low + 256 * high) as u16;
    assert(Le::u16_at(seq![low, high] + rest, 0) == g);
    crate::common::answer_laws::law_status_and_group_layout(Status::Success, low, high);
    crate::common::answer_laws::law_reply_is_put_in_front(
        0x03,
        seq![0x00u8, low, high],
        before,
        body,
        r,
    );
    let keep = |y: SceneState| y.group_id != g;
    assert(post@.scenes == pre@.scenes.filter(keep));
    if post@.scenes.contains(x) {
        let k = choose|k: int| 0 <= k < post@.scenes.len() && post@.scenes[k] == x;
        pre@.scenes.lemma_filter_pred(keep, k);
        pre@.scenes.lemma_filter_contains_rev(keep, x);
    }
    if pre@.scenes.contains(x) && x.group_id != g {
        let k = choose|k: int| 0 <= k < pre@.scenes.len() && pre@.scenes[k] == x;
        pre@.scenes.lemma_filter_contains(keep, k);
    }
}

/// Storing a scene enters it with no transition time, name or extension, and makes it the
/// current one.
pub proof fn law_store_scene<const N: usize, const EXTENSION_BYTES: usize>(
    pre: ScenesServer<N, EXTENSION_BYTES>,
    low: u8,
    high: u8,
    scene: u8,
    rest: Seq<u8>,
    ctx: DispatchContext,
    before: Seq<u8>,
    post: ScenesServer<N, EXTENSION_BYTES>,
    body: Seq<u8>,
    r: Result<CommandResult, ZclError>,
    x: SceneState,
)
    requires
        before.len() <= usize::MAX,
        pre@.distinct(),
        x.group_id == low + 256 * high,
        x.scene_id == scene,
        x.transition_time == 0,
        x.name.len() == 0,
        x.extension.len() == 0,
        ScenesServer::<N, EXTENSION_BYTES>::handled(
            pre,
            CommandId(0x04),
            seq![low, high, scene] + rest,
            ctx,
            before,
            post,
            body,
            r,
        ),
    ensures
        post.last_recalled == pre.last_recalled,
        post.name_support == pre.name_support,
        exists|status: u8| #[trigger]
            enters(pre@, N as int, EXTENSION_BYTES as int, x, post@, status) && {
                &&& crate::common::answer_laws::replied(
                    0x04,
                    seq![status, low, high, scene],
                    before,
                    body,
                    r,
                )
                &&& if status == 0x00 {
                    post.scene_valid && post.current_group == low + 256 * high && post.current_scene
                        == scene
                } else {
                    post.scene_valid == pre.scene_valid && post.current_group == pre.current_group
                        && post.current_scene == pre.current_scene
                }
            },
{
    let g = (low + 256 * high) as u16;
    assert(Le::u16_at(seq![low, high, scene] + rest, 0) == g);
    let plain = SceneState {
        group_id: g,
        scene_id: scene,
        transition_time: 0,
        name: Seq::empty(),
        extension: Seq::empty(),
    };
    assert(x =~= plain);
    lemma_added(pre@, N as nat, EXTENSION_BYTES as nat, x);
    let status = pre@.added(N as nat, EXTENSION_BYTES as nat, x).1;
    lemma_reply_layout(status, low, high, scene);
    crate::common::answer_laws::law_reply_is_put_in_front(
        0x04,
        seq![status.code(), low, high, scene],
        before,
        body,
        r,
    );
    assert(enters(pre@, N as int, EXTENSION_BYTES as int, x, post@, status.code()));
}

/// Recalling a scene of the table makes it the current one and the one last recalled;
/// recalling another only forgets the one last recalled.
pub proof fn law_recall_scene<const N: usize, const EXTENSION_BYTES: usize>(
    pre: ScenesServer<N, EXTENSION_BYTES>,
    low: u8,
    high: u8,
    scene: u8,
    rest: Seq<u8>,
    ctx: DispatchContext,
    before: Seq<u8>,
    post: ScenesServer<N, EXTENSION_BYTES>,
    body: Seq<u8>,
    r: Result<CommandResult, ZclError>,
)
    requires
        ScenesServer::<N, EXTENSION_BYTES>::handled(
            pre,
            CommandId(0x05),
            seq![low, high, scene] + rest,
            ctx,
            before,
            post,
            body,
            r,
        ),
    ensures
        post@.scenes == pre@.scenes,
        in_table(pre@.scenes, low + 256 * high, scene as int) ==> {
            &&& post.scene_valid
            &&& post.current_group == low + 256 * high
            &&& post.current_scene == scene
            &&& post.last_recalled == Some(((low + 256 * high) as u16, scene))
            &&& crate::common::answer_laws::told(0x00, before, body, r)
        },
        !in_table(pre@.scenes, low + 256 * high, scene as int) ==> {
            &&& post.scene_valid == pre.scene_valid
            &&& post.current_group == pre.current_group
            &&& post.current_scene == pre.current_scene
            &&& post.last_recalled is None
            &&& crate::common::answer_laws::told(0x8b, before, body, r)
        },
{
    let g = (low + 256 * high) as u16;
    assert(Le::u16_at(seq![low, high, scene] + rest, 0) == g);
    lemma_in_table(pre@, g, scene);
}

proof fn lemma_members(scenes: Seq<SceneState>, group: u16, scene: u8)
    ensures
        ScenesState::members_of(scenes, group).contains(scene) <==> in_table(
            scenes,
            group as int,
            scene as int,
        ),
        ScenesState::members_of(scenes, group).len() <= scenes.len(),
    decreases scenes.len(),
{
    if scenes.len() > 0 {
        let short = scenes.drop_last();
        let some = ScenesState::members_of(short, group);
        let all = ScenesState::members_of(scenes, group);
        lemma_members(short, group, scene);
        if some.contains(scene) {
            let at = choose|at: int| 0 <= at < some.len() && some[at] == scene;
            assert(all[at] == scene);
        }
        if in_table(short, group as int, scene as int) {
            let k = choose|k: int|
                0 <= k < short.len() && (#[trigger] short[k]).group_id == group && short[k].scene_id
                    == scene;
            assert(scenes[k] == short[k]);
        }
        if scenes.last().group_id == group && scenes.last().scene_id == scene {
            assert(all[some.len() as int] == scene);
            assert(scenes[scenes.len() - 1].group_id == group);
        }
        if all.contains(scene) {
            let at = choose|at: int| 0 <= at < all.len() && all[at] == scene;
            if at < some.len() {
                assert(some[at] == scene);
            }
        }
        if in_table(scenes, group as int, scene as int) {
            let k = choose|k: int|
                0 <= k < scenes.len() && (#[trigger] scenes[k]).group_id == group
                    && scenes[k].scene_id == scene;
            if k < short.len() {
                assert(short[k] == scenes[k]);
            }
        }
    }
}

/// A membership reply names exactly the group's scenes.
pub proof fn law_membership_names_the_scenes(s: ScenesState, group: u16, scene: u8)
    ensures
        s.members(group).contains(scene) <==> in_table(s.scenes, group as int, scene as int),
        s.members(group).len() <= s.scenes.len(),
{
    lemma_members(s.scenes, group, scene);
}

/// A membership command is answered with success, the room that is left, the group, the
/// number of its scenes and the scenes.
pub proof fn law_membership_command<const N: usize, const EXTENSION_BYTES: usize>(
    pre: ScenesServer<N, EXTENSION_BYTES>,
    low: u8,
    high: u8,
    rest: Seq<u8>,
    ctx: DispatchContext,
    before: Seq<u8>,
    post: ScenesServer<N, EXTENSION_BYTES>,
    body: Seq<u8>,
    r: Result<CommandResult, ZclError>,
)
    requires
        before.len() <= usize::MAX,
        pre@.scenes.len() <= N,
        ScenesServer::<N, EXTENSION_BYTES>::handled(
            pre,
            CommandId(0x06),
            seq![low, high] + rest,
            ctx,
            before,
            post,
            body,
            r,
        ),
    ensures
        post@ == pre@,
        ({
            let members = pre@.members((low + 256 * high) as u16);
            let room = if N - pre@.scenes.len() < 255 {
                N - pre@.scenes.len()
            } else {
                255
            };
            if members.len() <= 255 {
                crate::common::answer_laws::replied(
                    0x06,
                    seq![0x00u8, room as u8, low, high, members.len() as u8] + members,
                    before,
                    body,
                    r,
                )
            } else {
                r == Err::<CommandResult, ZclError>(ZclError::BufferTooSmall)
            }
        }),
{
    let g = (low + 256 * high) as u16;
    assert(Le::u16_at(seq![low, high] + rest, 0) == g);
    let members = pre@.members(g);
    let reply = pre@.members_reply(N as nat, g);
    assert(reply =~= seq![0x00u8, pre@.room(N as nat), low, high, members.len() as u8] + members);
    if members.len() <= 255 && reply.len() <= before.len() {
        crate::common::answer_laws::law_reply_is_put_in_front(0x06, reply, before, body, r);
    }
}

/// Commands with a payload that is too short fail, and others are not supported; neither
/// changes anything.
pub proof fn law_broken_commands_change_nothing<const N: usize, const EXTENSION_BYTES: usize>(
    pre: ScenesServer<N, EXTENSION_BYTES>,
    id: u8,
    p: Seq<u8>,
    ctx: DispatchContext,
    before: Seq<u8>,
    post: ScenesServer<N, EXTENSION_BYTES>,
    body: Seq<u8>,
    r: Result<CommandResult, ZclError>,
)
    requires
        ScenesServer::<N, EXTENSION_BYTES>::handled(
            pre,
            CommandId(id),
            p,
            ctx,
            before,
            post,
            body,
            r,
        ),
    ensures
        id == 0x00 && (p.len() < 6 || p.len() < 6 + p[5]) ==> post@ == pre@
            && crate::common::answer_laws::too_short(before, body, r),
        (id == 0x03 || id == 0x06) && p.len() < 2 ==> post@ == pre@
            && crate::common::answer_laws::too_short(before, body, r),
        (id == 0x01 || id == 0x02 || id == 0x04 || id == 0x05) && p.len() < 3 ==> post@ == pre@
            && crate::common::answer_laws::too_short(before, body, r),
        id > 0x06 ==> post@ == pre@ && crate::common::answer_laws::told(0x81, before, body, r),
{
}

/// What each attribute reads as.
pub proof fn law_attributes_show_the_state<const N: usize, const EXTENSION_BYTES: usize>(
    s: ScenesServer<N, EXTENSION_BYTES>,
    cap: nat,
)
    requires
        cap >= 2,
    ensures
        s@.scenes.len() < 255 ==> crate::types::value_laws::reads(
            s.attr(AttributeId(0x0000), cap),
            0x20,
            1,
            s@.scenes.len() as int,
        ),
        s.current_scene != 0xff ==> crate::types::value_laws::reads(
            s.attr(AttributeId(0x0001), cap),
            0x20,
            1,
            s.current_scene as int,
        ),
        s.current_group != 0xffff ==> crate::types::value_laws::reads(
            s.attr(AttributeId(0x0002), cap),
            0x21,
            2,
            s.current_group as int,
        ),
        crate::types::value_laws::reads(s.attr(AttributeId(0x0003), cap), 0x10, 1, if s.scene_valid {
            1
        } else {
            0
        }),
        crate::types::value_laws::reads(
            s.attr(AttributeId(0x0004), cap),
            0x18,
            1,
            s.name_support as int,
        ),
        crate::types::value_laws::reads(s.attr(AttributeId(0xFFFD), cap), 0x21, 2, 1),
        forall|id: u16|
            id > 0x0004 && id != 0xFFFD ==> crate::types::value_laws::missing(
                #[trigger] s.attr(AttributeId(id), cap),
            ),
{
}

/// The attributes that discovery lists.
pub proof fn law_discovered<const N: usize, const EXTENSION_BYTES: usize>()
    ensures
        ({
            let list = ScenesServer::<N, EXTENSION_BYTES>::attribute_infos();
            &&& list.len() == 6
            &&& crate::types::value_laws::entry(list[0], 0x0000, 0x20, false, false)
            &&& crate::types::value_laws::entry(list[1], 0x0001, 0x20, false, false)
            &&& crate::types::value_laws::entry(list[2], 0x0002, 0x21, false, false)
            &&& crate::types::value_laws::entry(list[3], 0x0003, 0x10, false, false)
            &&& crate::types::value_laws::entry(list[4], 0x0004, 0x18, false, false)
            &&& crate::types::value_laws::entry(list[5], 0xFFFD, 0x21, false, false)
        }),
{
}

/// The attributes can only be read: a write of one that is there is refused as read-only,
/// and of another as unsupported.
pub proof fn law_attributes_are_only_read<const N: usize, const EXTENSION_BYTES: usize>(
    pre: ScenesServer<N, EXTENSION_BYTES>,
    id: u16,
    t: TypeId,
    data: Seq<u8>,
    post: ScenesServer<N, EXTENSION_BYTES>,
    r: Result<(), AttrError>,
)
    requires
        ScenesServer::<N, EXTENSION_BYTES>::wrote(pre, AttributeId(id), t, data, post, r),
    ensures
        post@ == pre@,
        r == Err::<(), AttrError>(if id <= 0x0004 || id == 0xFFFD {
            AttrError::ReadOnly
        } else {
            AttrError::UnsupportedAttribute
        }),
        r == pre.write_check(AttributeId(id), t, data),
{
}

/// A membership reply that does not fit leaves the scenes that do in the buffer, behind five
/// bytes that stay, and the rest of it as it was.
pub proof fn law_membership_reply_that_does_not_fit<const N: usize, const EXTENSION_BYTES: usize>(
    pre: ScenesServer<N, EXTENSION_BYTES>,
    low: u8,
    high: u8,
    rest: Seq<u8>,
    ctx: DispatchContext,
    before: Seq<u8>,
    post: ScenesServer<N, EXTENSION_BYTES>,
    body: Seq<u8>,
    r: Result<CommandResult, ZclError>,
    i: int,
)
    requires
        before.len() >= 5,
        pre@.members((low + 256 * high) as u16).len() > 255 || 5 + pre@.members(
            (low + 256 * high) as u16,
        ).len() > before.len(),
        ScenesServer::<N, EXTENSION_BYTES>::handled(
            pre,
            CommandId(0x06),
            seq![low, high] + rest,
            ctx,
            before,
            post,
            body,
            r,
        ),
    ensures
        r == Err::<CommandResult, ZclError>(ZclError::BufferTooSmall),
        body.len() == before.len(),
        0 <= i < 5 ==> body[i] == before[i],
        5 <= i < 260 && i < before.len() ==> body[i] == pre@.members((low + 256 * high) as u16)[i
            - 5],
        260 <= i < before.len() ==> body[i] == before[i],
{
    let g = (low + 256 * high) as u16;
    assert(Le::u16_at(seq![low, high] + rest, 0) == g);
    assert(pre@.members_reply(N as nat, g).len() == 5 + pre@.members(g).len());
}

} // verus!
