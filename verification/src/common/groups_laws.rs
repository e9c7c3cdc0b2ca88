//! What a groups server does with each command, from the bytes of the command to the bytes
//! of the reply.

use vstd::prelude::*;

use crate::bytes::Le;
use crate::cluster_server::ClusterServer;
use crate::common::groups::GroupState;
use crate::common::groups::GroupsServer;
use crate::common::groups::GroupsState;
use crate::context::CommandResult;
use crate::context::DispatchContext;
use crate::context::DispatchEffects;
use crate::context::GroupEffect;
use crate::types::error::AttrError;
use crate::types::error::ZclError;
use crate::types::ids::AttributeId;
use crate::types::ids::CommandId;
use crate::types::ids::TypeId;

verus! {

/// The table has a group with this identifier.
pub open spec fn in_group(groups: Seq<GroupState>, id: int) -> bool {
    exists|k: int| 0 <= k < groups.len() && (#[trigger] groups[k]).id == id
}

proof fn lemma_in_group(s: GroupsState, id: u16)
    ensures
        s.has(id) == in_group(s.groups, id as int),
        s.has(id) ==> 0 <= s.slot(id) < s.groups.len() && s.groups[s.slot(id)].id == id,
{
    if s.has(id) {
        assert(s.is_slot(id, s.slot(id)));
    }
    if in_group(s.groups, id as int) {
        let k = choose|k: int| 0 <= k < s.groups.len() && (#[trigger] s.groups[k]).id == id;
        assert(s.is_slot(id, k));
    }
}

/// Group `id` was asked for under `name`: what becomes of a table of at most `n` groups, and
/// the status of it. Group 0 and names of more than sixteen bytes are refused; a group that
/// the device is in already is kept as it is; a full table takes no more.
pub open spec fn joins(
    pre: GroupsState,
    n: int,
    id: int,
    name: Seq<u8>,
    post: GroupsState,
    status: u8,
) -> bool {
    &&& post.name_support == pre.name_support
    &&& post.identifying == pre.identifying
    &&& if id == 0 || name.len() > 16 {
        status == 0x85 && post.groups == pre.groups && post.pending == pre.pending
    } else if in_group(pre.groups, id) {
        status == 0x00 && post.groups == pre.groups && post.pending == GroupEffect::Added(id as u16)
    } else if pre.groups.len() >= n {
        status == 0x89 && post.groups == pre.groups && post.pending == pre.pending
    } else {
        &&& status == 0x00
        &&& post.groups.len() == pre.groups.len() + 1
        &&& post.groups.take(pre.groups.len() as int) == pre.groups
        &&& post.groups[pre.groups.len() as int].id == id
        &&& post.groups[pre.groups.len() as int].name == name
        &&& post.pending == GroupEffect::Added(id as u16)
    }
}

proof fn lemma_joined(pre: GroupsState, n: nat, id: u16, name: Seq<u8>)
    ensures
        joins(
            pre,
            n as int,
            id as int,
            name,
            pre.joined(n, id, name).0,
            pre.joined(n, id, name).1.code(),
        ),
{
    lemma_in_group(pre, id);
    let post = pre.joined(n, id, name).0;
    if post.groups.len() > pre.groups.len() {
        assert(post.groups.take(pre.groups.len() as int) =~= pre.groups);
    }
}

proof fn lemma_add_parsed(low: u8, high: u8, name: Seq<u8>, rest: Seq<u8>)
    requires
        name.len() <= 255,
    ensures
        GroupsState::parsed(seq![low, high, name.len() as u8] + name + rest) == Some(
            ((low + 256 * high) as u16, name),
        ),
{
    let p = seq![low, high, name.len() as u8] + name + rest;
    assert(p.subrange(3, 3 + name.len() as int) =~= name);
}

/// Adding a group: the group, lower byte first, and the name with its length in front. The
/// reply is the status and the group.
pub proof fn law_add_group<const N: usize>(
    pre: GroupsServer<N>,
    low: u8,
    high: u8,
    name: Seq<u8>,
    rest: Seq<u8>,
    ctx: DispatchContext,
    before: Seq<u8>,
    post: GroupsServer<N>,
    body: Seq<u8>,
    r: Result<CommandResult, ZclError>,
)
    requires
        before.len() <= usize::MAX,
        name.len() <= 255,
        GroupsServer::<N>::handled(
            pre,
            CommandId(0x00),
            seq![low, high, name.len() as u8] + name + rest,
            ctx,
            before,
            post,
            body,
            r,
        ),
    ensures
        exists|status: u8| #[trigger]
            joins(pre@, N as int, low + 256 * high, name, post@, status)
                && crate::common::answer_laws::replied(
                0x00,
                seq![status, low, high],
                before,
                body,
                r,
            ),
{
    let id = (low + 256 * high) as u16;
    lemma_add_parsed(low, high, name, rest);
    lemma_joined(pre@, N as nat, id, name);
    let status = pre@.joined(N as nat, id, name).1;
    crate::common::answer_laws::law_status_and_group_layout(status, low, high);
    crate::common::answer_laws::law_reply_is_put_in_front(
        0x00,
        seq![status.code(), low, high],
        before,
        body,
        r,
    );
    assert(joins(pre@, N as int, low + 256 * high, name, post@, status.code()));
}

/// Adding a group if identifying does what adding does while the device identifies itself,
/// and else nothing. It is answered with success either way.
pub proof fn law_add_group_if_identifying<const N: usize>(
    pre: GroupsServer<N>,
    low: u8,
    high: u8,
    name: Seq<u8>,
    rest: Seq<u8>,
    ctx: DispatchContext,
    before: Seq<u8>,
    post: GroupsServer<N>,
    body: Seq<u8>,
    r: Result<CommandResult, ZclError>,
)
    requires
        name.len() <= 255,
        GroupsServer::<N>::handled(
            pre,
            CommandId(0x05),
            seq![low, high, name.len() as u8] + name + rest,
            ctx,
            before,
            post,
            body,
            r,
        ),
    ensures
        crate::common::answer_laws::told(0x00, before, body, r),
        pre.identifying ==> exists|status: u8| #[trigger]
            joins(pre@, N as int, low + 256 * high, name, post@, status),
        !pre.identifying ==> post@ == pre@,
{
    let id = (low + 256 * high) as u16;
    lemma_add_parsed(low, high, name, rest);
    lemma_joined(pre@, N as nat, id, name);
    if pre.identifying {
        let status = pre@.joined(N as nat, id, name).1;
        assert(joins(pre@, N as int, low + 256 * high, name, post@, status.code()));
    }
}

/// Viewing a group is answered with success, the group and its name, or with "not found",
/// the group and an empty name.
pub proof fn law_view_group<const N: usize>(
    pre: GroupsServer<N>,
    low: u8,
    high: u8,
    rest: Seq<u8>,
    ctx: DispatchContext,
    before: Seq<u8>,
    post: GroupsServer<N>,
    body: Seq<u8>,
    r: Result<CommandResult, ZclError>,
    k: int,
)
    requires
        before.len() <= usize::MAX,
        pre@.valid(),
        GroupsServer::<N>::handled(
            pre,
            CommandId(0x01),
            seq![low, high] + rest,
            ctx,
            before,
            post,
            body,
            r,
        ),
    ensures
        post@ == pre@,
        0 <= k < pre@.groups.len() && pre@.groups[k].id == low + 256 * high
            ==> crate::common::answer_laws::replied(
            0x01,
            seq![0x00u8, low, high, pre@.groups[k].name.len() as u8] + pre@.groups[k].name,
            before,
            body,
            r,
        ),
        !in_group(pre@.groups, low + 256 * high) ==> crate::common::answer_laws::replied(
            0x01,
            seq![0x8bu8, low, high, 0x00u8],
            before,
            body,
            r,
        ),
{
    let id = (low + 256 * high) as u16;
    assert(Le::u16_at(seq![low, high] + rest, 0) == id);
    lemma_in_group(pre@, id);
    crate::common::answer_laws::law_reply_is_put_in_front(
        0x01,
        pre@.view_reply(id),
        before,
        body,
        r,
    );
    if 0 <= k < pre@.groups.len() && pre@.groups[k].id == id {
        let name = pre@.groups[k].name;
        assert(pre@.is_slot(id, k));
        assert(pre@.slot(id) == k);
        assert(pre@.view_reply(id) =~= seq![0x00u8, low, high, name.len() as u8] + name);
    }
    if !in_group(pre@.groups, id as int) {
        assert(pre@.view_reply(id) =~= seq![0x8bu8, low, high, 0x00u8]);
    }
}

proof fn lemma_id_bytes(ids: Seq<u16>, i: int)
    requires
        0 <= i < ids.len(),
    ensures
        GroupsState::id_bytes(ids).len() == 2 * ids.len(),
        GroupsState::id_bytes(ids)[2 * i] + 256 * GroupsState::id_bytes(ids)[2 * i + 1] == ids[i],
    decreases ids.len(),
{
    if ids.len() > 1 {
        lemma_id_bytes(ids.drop_last(), if i < ids.len() - 1 {
            i
        } else {
            0
        });
    } else {
        assert(GroupsState::id_bytes(ids.drop_last()).len() == 0);
    }
}

/// A membership reply holds the room that is left, the number of groups, and the groups
/// one after the other, each with the lower byte first.
pub proof fn law_membership_reply_layout(s: GroupsState, n: nat, p: Seq<u8>, i: int)
    requires
        s.groups.len() <= n,
        0 <= i < s.answer(p).len() <= 255,
    ensures
        ({
            let reply = s.members_reply(n, p);
            &&& reply.len() == 2 + 2 * s.answer(p).len()
            &&& reply[0] == if n - s.groups.len() < 255 {
                n - s.groups.len()
            } else {
                255
            }
            &&& reply[1] == s.answer(p).len()
            &&& reply[2 + 2 * i] + 256 * reply[3 + 2 * i] == s.answer(p)[i]
        }),
{
    lemma_id_bytes(s.answer(p), i);
}

/// Asked for no group in particular, the device names all its groups, in table order.
pub proof fn law_all_memberships(s: GroupsState, p: Seq<u8>, i: int)
    requires
        p.len() >= 1,
        p[0] == 0,
    ensures
        s.answer(p).len() == s.groups.len(),
        0 <= i < s.groups.len() ==> s.answer(p)[i] == s.groups[i].id,
{
}

proof fn lemma_asked(s: GroupsState, q: Seq<u8>, k: nat, id: u16)
    requires
        2 * k <= q.len(),
    ensures
        s.asked(q, k).contains(id) <==> in_group(s.groups, id as int) && exists|j: int|
            0 <= j < k && #[trigger] q[2 * j] + 256 * q[2 * j + 1] == id,
        s.asked(q, k).len() <= k,
    decreases k,
{
    lemma_in_group(s, id);
    if k > 0 {
        lemma_asked(s, q, (k - 1) as nat, id);
        let last = Le::u16_at(q, 2 * (k - 1));
        let short = s.asked(q, (k - 1) as nat);
        let all = s.asked(q, k);
        lemma_in_group(s, last);
        if short.contains(id) {
            let at = choose|at: int| 0 <= at < short.len() && short[at] == id;
            assert(all[at] == id);
        }
        if s.has(last) && last == id {
            assert(all[short.len() as int] == id);
        }
        if all.contains(id) {
            let at = choose|at: int| 0 <= at < all.len() && all[at] == id;
            if at < short.len() {
                assert(short[at] == id);
            } else {
                let j = k - 1;
                assert(q[2 * j] + 256 * q[2 * j + 1] == id);
            }
        }
        if in_group(s.groups, id as int) && exists|j: int|
            0 <= j < k && #[trigger] q[2 * j] + 256 * q[2 * j + 1] == id {
            let j = choose|j: int| 0 <= j < k && #[trigger] q[2 * j] + 256 * q[2 * j + 1] == id;
            if j < k - 1 {
                assert(short.contains(id));
            } else {
                assert(last == id);
            }
        }
    }
}

/// Asked for groups by identifier, the device names exactly those of them that it is in.
pub proof fn law_asked_memberships(s: GroupsState, count: u8, list: Seq<u8>, id: u16)
    requires
        count > 0,
        list.len() == 2 * count,
    ensures
        s.answer(seq![count] + list).contains(id) <==> in_group(s.groups, id as int) && exists|
            j: int,
        |
            0 <= j < count && #[trigger] list[2 * j] + 256 * list[2 * j + 1] == id,
        s.answer(seq![count] + list).len() <= count,
{
    let p = seq![count] + list;
    assert(p.skip(1) =~= list);
    lemma_asked(s, list, count as nat, id);
}

/// A membership command is answered with the membership reply and changes nothing.
pub proof fn law_membership_command<const N: usize>(
    pre: GroupsServer<N>,
    p: Seq<u8>,
    ctx: DispatchContext,
    before: Seq<u8>,
    post: GroupsServer<N>,
    body: Seq<u8>,
    r: Result<CommandResult, ZclError>,
)
    requires
        before.len() <= usize::MAX,
        GroupsServer::<N>::handled(pre, CommandId(0x02), p, ctx, before, post, body, r),
    ensures
        post@ == pre@,
        p.len() == 0 || p.len() < 1 + 2 * p[0] ==> crate::common::answer_laws::too_short(
            before,
            body,
            r,
        ),
        p.len() > 0 && p.len() >= 1 + 2 * p[0] && pre@.answer(p).len() <= 255
            ==> crate::common::answer_laws::replied(
            0x02,
            pre@.members_reply(N as nat, p),
            before,
            body,
            r,
        ),
        p.len() > 0 && p.len() >= 1 + 2 * p[0] && pre@.answer(p).len() > 255 ==> r == Err::<
            CommandResult,
            ZclError,
        >(ZclError::BufferTooSmall),
{
    let reply = pre@.members_reply(N as nat, p);
    if p.len() > 0 && p.len() >= 1 + 2 * p[0] && pre@.answer(p).len() <= 255 && reply.len()
        <= before.len() {
        crate::common::answer_laws::law_reply_is_put_in_front(0x02, reply, before, body, r);
    }
}

/// Removing a group takes it out of the table and nothing else; the reply is the status and
/// the group.
pub proof fn law_remove_group<const N: usize>(
    pre: GroupsServer<N>,
    low: u8,
    high: u8,
    rest: Seq<u8>,
    ctx: DispatchContext,
    before: Seq<u8>,
    post: GroupsServer<N>,
    body: Seq<u8>,
    r: Result<CommandResult, ZclError>,
    k: int,
)
    requires
        before.len() <= usize::MAX,
        pre@.valid(),
        0 <= k < pre@.groups.len(),
        GroupsServer::<N>::handled(
            pre,
            CommandId(0x03),
            seq![low, high] + rest,
            ctx,
            before,
            post,
            body,
            r,
        ),
    ensures
        ({
            let id = low + 256 * high;
            if in_group(pre@.groups, id) {
                &&& post@.groups.len() == pre@.groups.len() - 1
                &&& !in_group(post@.groups, id)
                &&& pre@.groups[k].id != id ==> post@.groups.contains(pre@.groups[k])
                &&& post.pending_effect == GroupEffect::Removed(id as u16)
                &&& post.name_support == pre.name_support
                &&& post.identifying == pre.identifying
                &&& crate::common::answer_laws::replied(
                    0x03,
                    seq![0x00u8, low, high],
                    before,
                    body,
                    r,
                )
            } else {
                &&& post@ == pre@
                &&& crate::common::answer_laws::replied(
                    0x03,
                    seq![0x8bu8, low, high],
                    before,
                    body,
                    r,
                )
            }
        }),
{
    let id = (low + 256 * high) as u16;
    let p = seq![low, high] + rest;
    assert(Le::u16_at(p, 0) == id);
    lemma_in_group(pre@, id);
    let status = pre@.left(id).1;
    crate::common::answer_laws::law_status_and_group_layout(status, low, high);
    crate::common::answer_laws::law_reply_is_put_in_front(
        0x03,
        seq![status.code(), low, high],
        before,
        body,
        r,
    );
    if pre@.has(id) {
        let at = pre@.slot(id);
        let last = pre@.groups.len() - 1;
        crate::common::groups::law_left_group_is_no_membership(pre@, id);
        lemma_in_group(post@, id);
        if pre@.groups[k].id != id {
            if k == last {
                assert(post@.groups[at] == pre@.groups[k]);
            } else {
                assert(post@.groups[k] == pre@.groups[k]);
            }
        }
    }
}

/// Removing all groups empties the table.
pub proof fn law_remove_all_groups<const N: usize>(
    pre: GroupsServer<N>,
    p: Seq<u8>,
    ctx: DispatchContext,
    before: Seq<u8>,
    post: GroupsServer<N>,
    body: Seq<u8>,
    r: Result<CommandResult, ZclError>,
)
    requires
        GroupsServer::<N>::handled(pre, CommandId(0x04), p, ctx, before, post, body, r),
    ensures
        post@.groups.len() == 0,
        post.pending_effect == GroupEffect::AllRemoved,
        post.name_support == pre.name_support,
        post.identifying == pre.identifying,
        crate::common::answer_laws::told(0x00, before, body, r),
{
}

/// Commands with a payload that is too short fail, and others are not supported; neither
/// changes anything.
pub proof fn law_broken_commands_change_nothing<const N: usize>(
    pre: GroupsServer<N>,
    id: u8,
    p: Seq<u8>,
    ctx: DispatchContext,
    before: Seq<u8>,
    post: GroupsServer<N>,
    body: Seq<u8>,
    r: Result<CommandResult, ZclError>,
)
    requires
        GroupsServer::<N>::handled(pre, CommandId(id), p, ctx, before, post, body, r),
    ensures
        id == 0x00 && (p.len() < 3 || p.len() < 3 + p[2]) ==> post@ == pre@
            && crate::common::answer_laws::too_short(before, body, r),
        (id == 0x01 || id == 0x03) && p.len() < 2 ==> post@ == pre@
            && crate::common::answer_laws::too_short(before, body, r),
        id == 0x05 && (p.len() < 3 || p.len() < 3 + p[2]) ==> post@ == pre@
            && crate::common::answer_laws::told(0x00, before, body, r),
        id > 0x05 ==> post@ == pre@ && crate::common::answer_laws::told(0x81, before, body, r),
{
}

/// An effect is handed out once.
pub proof fn law_effect_is_handed_out_once<const N: usize>(
    pre: GroupsServer<N>,
    post: GroupsServer<N>,
    r: DispatchEffects,
)
    requires
        GroupsServer::<N>::drained(pre, post, r),
    ensures
        r.group == pre.pending_effect,
        r.configure_reporting is None,
        post.pending_effect == GroupEffect::Nothing,
        post@.groups == pre@.groups,
        post.name_support == pre.name_support,
        post.identifying == pre.identifying,
{
}

/// What each attribute reads as, and what discovery lists.
pub proof fn law_attributes_show_the_state<const N: usize>(s: GroupsServer<N>, cap: nat)
    requires
        cap >= 2,
    ensures
        crate::types::value_laws::reads(
            s.attr(AttributeId(0x0000), cap),
            0x18,
            1,
            s.name_support as int,
        ),
        crate::types::value_laws::reads(s.attr(AttributeId(0xFFFD), cap), 0x21, 2, 3),
        forall|id: u16|
            id != 0x0000 && id != 0xFFFD ==> crate::types::value_laws::missing(
                #[trigger] s.attr(AttributeId(id), cap),
            ),
        GroupsServer::<N>::attribute_infos().len() == 2,
        crate::types::value_laws::entry(
            GroupsServer::<N>::attribute_infos()[0],
            0x0000,
            0x18,
            false,
            false,
        ),
        crate::types::value_laws::entry(
            GroupsServer::<N>::attribute_infos()[1],
            0xFFFD,
            0x21,
            false,
            false,
        ),
{
}

/// The attributes can only be read: a write of one that is there is refused as read-only,
/// and of another as unsupported.
pub proof fn law_attributes_are_only_read<const N: usize>(
    pre: GroupsServer<N>,
    id: u16,
    t: TypeId,
    data: Seq<u8>,
    post: GroupsServer<N>,
    r: Result<(), AttrError>,
)
    requires
        GroupsServer::<N>::wrote(pre, AttributeId(id), t, data, post, r),
    ensures
        post@ == pre@,
        r == Err::<(), AttrError>(if id == 0x0000 || id == 0xFFFD {
            AttrError::ReadOnly
        } else {
            AttrError::UnsupportedAttribute
        }),
        r == pre.write_check(AttributeId(id), t, data),
{
}

/// A membership reply that does not fit leaves the room and the groups that do in the
/// buffer, and the rest of it as it was.
pub proof fn law_membership_reply_that_does_not_fit<const N: usize>(
    pre: GroupsServer<N>,
    p: Seq<u8>,
    ctx: DispatchContext,
    before: Seq<u8>,
    post: GroupsServer<N>,
    body: Seq<u8>,
    r: Result<CommandResult, ZclError>,
    i: int,
)
    requires
        pre@.groups.len() <= N,
        p.len() > 0,
        p.len() >= 1 + 2 * p[0],
        before.len() >= 2,
        pre@.answer(p).len() > 255 || 2 + 2 * pre@.answer(p).len() > before.len(),
        GroupsServer::<N>::handled(pre, CommandId(0x02), p, ctx, before, post, body, r),
    ensures
        r == Err::<CommandResult, ZclError>(ZclError::BufferTooSmall),
        body.len() == before.len(),
        body[0] == if N - pre@.groups.len() < 255 {
            N - pre@.groups.len()
        } else {
            255
        },
        body[1] == before[1],
        0 <= i < 255 && 4 + 2 * i <= before.len() ==> body[2 + 2 * i] + 256 * body[3 + 2 * i]
            == pre@.answer(p)[i],
        512 <= i < before.len() ==> body[i] == before[i],
        2 <= i < before.len() && i == before.len() - 1 && before.len() % 2 == 1 ==> body[i]
            == before[i],
{
    let answer = pre@.answer(p);
    let k = GroupsState::fitting(before.len());
    let shown = answer.take(k as int);
    if answer.len() > 0 {
        lemma_id_bytes(answer, 0);
    } else {
        assert(GroupsState::id_bytes(answer).len() == 0);
    }
    if k > 0 {
        lemma_id_bytes(shown, if 0 <= i < k {
            i
        } else {
            0
        });
    } else {
        assert(GroupsState::id_bytes(shown).len() == 0);
    }
}

} // verus!
