//! The tables of a node: bindings, group memberships and link keys.

use vstd::prelude::*;

use crate::bdb::types::ApsGroup;
use crate::bdb::types::BindingEntry;
use crate::bdb::types::DeviceKeyPairDescriptor;
use crate::bdb::types::IeeeAddress;
use crate::bdb::types::KeyAttribute;
use crate::bdb::types::LinkKeyType;
use crate::bdb::types::MAX_BINDING_TABLE_ENTRIES;
use crate::bdb::types::MAX_GROUP_TABLE_ENTRIES;
use crate::bdb::types::MAX_LINK_KEYS;
use crate::bounded::binding_slice;
use crate::bounded::drop_binding;
use crate::bounded::no_bindings;
use crate::bounded::push_binding;

verus! {

/// Specification functions of tables of distinct entries.
pub struct Entries;

impl Entries {
    /// The table with room for `cap` entries after adding `e`: unchanged where `e`
    /// is an entry already, or where it is full.
    pub open spec fn added<T>(table: Seq<T>, e: T, cap: nat) -> Seq<T> {
        if table.contains(e) || table.len() >= cap {
            table
        } else {
            table.push(e)
        }
    }

    /// Holds of every entry but `e`.
    pub open spec fn other_than<T>(e: T) -> spec_fn(T) -> bool {
        |x: T| x != e
    }

    /// The table without `e`.
    pub open spec fn removed<T>(table: Seq<T>, e: T) -> Seq<T> {
        table.filter(Self::other_than(e))
    }
}

/// The bindings of a node. None occurs twice.
pub struct BindingTable {
    entries: heapless::Vec<BindingEntry, MAX_BINDING_TABLE_ENTRIES>,
}

impl View for BindingTable {
    type V = Seq<BindingEntry>;

    closed spec fn view(&self) -> Seq<BindingEntry> {
        crate::bounded::binding_items(self.entries)
    }
}

impl BindingTable {
    pub open spec fn wf(&self) -> bool {
        &&& self@.len() <= MAX_BINDING_TABLE_ENTRIES
        &&& self@.no_duplicates()
    }

    pub fn new() -> (table: Self)
        ensures
            table.wf(),
            table@ == Seq::<BindingEntry>::empty(),
    {
        BindingTable { entries: no_bindings() }
    }

    /// The bindings, in the order in which they were made.
    pub fn as_slice(&self) -> (entries: &[BindingEntry])
        ensures
            entries@ == self@,
    {
        binding_slice(&self.entries)
    }

    pub fn contains(&self, entry: &BindingEntry) -> (found: bool)
        ensures
            found == self@.contains(*entry),
    {
        let entries: &[BindingEntry] = self.as_slice();
        let mut i: usize = 0;
        while i < entries.len()
            invariant
                i <= entries@.len(),
                entries@ == self@,
                forall|k: int| 0 <= k < i ==> entries@[k] != *entry,
            decreases entries@.len() - i,
        {
            if entries[i] == *entry {
                assert(self@[i as int] == *entry);
                return true;
            }
            i = i + 1;
        }
        false
    }

    /// Add a binding. It stays once where it is there already.
    ///
    /// Returns `Err(())` when the table is full.
    pub fn bind(&mut self, entry: BindingEntry) -> (r: Result<(), ()>)
        requires
            old(self).wf(),
        ensures
            final(self).wf(),
            final(self)@ == Entries::added(old(self)@, entry, MAX_BINDING_TABLE_ENTRIES as nat),
            r == if old(self)@.contains(entry) || old(self)@.len() < MAX_BINDING_TABLE_ENTRIES {
                Ok::<(), ()>(())
            } else {
                Err(())
            },
            r is Ok <==> final(self)@.contains(entry),
    {
        if self.contains(&entry) {
            return Ok(());
        }
        match push_binding(&mut self.entries, entry) {
            Ok(()) => {
                assert(self@.last() == entry);
                Ok(())
            },
            Err(_) => Err(()),
        }
    }

    /// Remove a binding. Nothing changes where it does not exist.
    pub fn unbind(&mut self, entry: &BindingEntry)
        requires
            old(self).wf(),
        ensures
            final(self).wf(),
            final(self)@ == Entries::removed(old(self)@, *entry),
    {
        drop_binding(&mut self.entries, entry);
        proof {
            lemma_filtered(old(self)@, Entries::other_than(*entry));
        }
    }
}

/// The group memberships of a node's endpoints. None occurs twice.
pub struct GroupTable {
    entries: Vec<ApsGroup>,
}

impl View for GroupTable {
    type V = Seq<ApsGroup>;

    closed spec fn view(&self) -> Seq<ApsGroup> {
        self.entries@
    }
}

impl GroupTable {
    pub open spec fn wf(&self) -> bool {
        &&& self@.len() <= MAX_GROUP_TABLE_ENTRIES
        &&& self@.no_duplicates()
    }

    /// Holds of the memberships of other endpoints.
    pub open spec fn of_others(endpoint: u8) -> spec_fn(ApsGroup) -> bool {
        |g: ApsGroup| g.endpoint != endpoint
    }

    pub fn new() -> (table: Self)
        ensures
            table.wf(),
            table@ == Seq::<ApsGroup>::empty(),
    {
        GroupTable { entries: Vec::new() }
    }

    /// The memberships, in the order in which they were entered.
    pub fn as_slice(&self) -> (entries: &[ApsGroup])
        ensures
            entries@ == self@,
    {
        self.entries.as_slice()
    }

    /// Enter a membership. Nothing changes where it is there already, or where the
    /// table is full.
    pub fn add(&mut self, group_id: u16, endpoint: u8)
        requires
            old(self).wf(),
        ensures
            final(self).wf(),
            final(self)@ == Entries::added(
                old(self)@,
                ApsGroup { group_address: group_id, endpoint },
                MAX_GROUP_TABLE_ENTRIES as nat,
            ),
    {
        let entry = ApsGroup { group_address: group_id, endpoint };
        let mut i: usize = 0;
        while i < self.entries.len()
            invariant
                i <= self.entries@.len(),
                *self == *old(self),
                self.wf(),
                entry == (ApsGroup { group_address: group_id, endpoint }),
                forall|k: int| 0 <= k < i ==> self.entries@[k] != entry,
            decreases self.entries@.len() - i,
        {
            if self.entries[i] == entry {
                assert(self@[i as int] == entry);
                return;
            }
            i = i + 1;
        }
        if self.entries.len() < MAX_GROUP_TABLE_ENTRIES {
            self.entries.push(entry);
        }
    }

    /// Remove a membership. Nothing changes where it is not there.
    pub fn remove(&mut self, group_id: u16, endpoint: u8)
        requires
            old(self).wf(),
        ensures
            final(self).wf(),
            final(self)@ == Entries::removed(
                old(self)@,
                ApsGroup { group_address: group_id, endpoint },
            ),
    {
        let entry = ApsGroup { group_address: group_id, endpoint };
        let ghost keep = Entries::other_than(entry);
        let mut kept: Vec<ApsGroup> = Vec::new();
        let mut i: usize = 0;
        proof {
            reveal(Seq::filter);
        }
        while i < self.entries.len()
            invariant
                i <= self.entries@.len(),
                *self == *old(self),
                keep == Entries::other_than(entry),
                kept@ == self.entries@.take(i as int).filter(keep),
            decreases self.entries@.len() - i,
        {
            proof {
                reveal(Seq::filter);
                assert(self.entries@.take(i + 1).drop_last() =~= self.entries@.take(i as int));
            }
            if self.entries[i] != entry {
                kept.push(self.entries[i]);
            }
            i = i + 1;
        }
        assert(self.entries@.take(i as int) =~= self.entries@);
        proof {
            lemma_filtered(self.entries@, keep);
        }
        self.entries = kept;
    }

    /// Remove every membership of an endpoint.
    pub fn remove_all(&mut self, endpoint: u8)
        requires
            old(self).wf(),
        ensures
            final(self).wf(),
            final(self)@ == old(self)@.filter(Self::of_others(endpoint)),
    {
        let ghost keep = Self::of_others(endpoint);
        let mut kept: Vec<ApsGroup> = Vec::new();
        let mut i: usize = 0;
        proof {
            reveal(Seq::filter);
        }
        while i < self.entries.len()
            invariant
                i <= self.entries@.len(),
                *self == *old(self),
                keep == Self::of_others(endpoint),
                kept@ == self.entries@.take(i as int).filter(keep),
            decreases self.entries@.len() - i,
        {
            proof {
                reveal(Seq::filter);
                assert(self.entries@.take(i + 1).drop_last() =~= self.entries@.take(i as int));
            }
            if self.entries[i].endpoint != endpoint {
                kept.push(self.entries[i]);
            }
            i = i + 1;
        }
        assert(self.entries@.take(i as int) =~= self.entries@);
        proof {
            lemma_filtered(self.entries@, keep);
        }
        self.entries = kept;
    }
}

/// The link keys that a node shares with others.
pub struct KeyTable {
    entries: Vec<DeviceKeyPairDescriptor>,
}

impl View for KeyTable {
    type V = Seq<DeviceKeyPairDescriptor>;

    closed spec fn view(&self) -> Seq<DeviceKeyPairDescriptor> {
        self.entries@
    }
}

impl KeyTable {
    pub open spec fn wf(&self) -> bool {
        self@.len() <= MAX_LINK_KEYS
    }

    /// Entry `i` is the first one for the node `address`.
    pub open spec fn is_first(
        table: Seq<DeviceKeyPairDescriptor>,
        address: IeeeAddress,
        i: int,
    ) -> bool {
        &&& 0 <= i < table.len()
        &&& table[i].device_address == address
        &&& forall|k: int| 0 <= k < i ==> (#[trigger] table[k]).device_address != address
    }

    /// There is a key for the node `address`.
    pub open spec fn has(table: Seq<DeviceKeyPairDescriptor>, address: IeeeAddress) -> bool {
        exists|i: int| #[trigger] Self::is_first(table, address, i)
    }

    /// The entry with a new key that is still to be verified.
    pub open spec fn renewed(
        entry: DeviceKeyPairDescriptor,
        key: [u8; 16],
    ) -> DeviceKeyPairDescriptor {
        DeviceKeyPairDescriptor {
            link_key: key,
            key_attributes: KeyAttribute::UnverifiedKey,
            outgoing_frame_counter: 0,
            incoming_frame_counter: 0,
            ..entry
        }
    }

    /// A first entry for the node `address`.
    pub open spec fn fresh(address: IeeeAddress, key: [u8; 16]) -> DeviceKeyPairDescriptor {
        DeviceKeyPairDescriptor {
            device_address: address,
            key_attributes: KeyAttribute::UnverifiedKey,
            link_key: key,
            outgoing_frame_counter: 0,
            incoming_frame_counter: 0,
            link_key_type: LinkKeyType::UniqueLinkKey,
        }
    }

    /// Installing `key` for the node `address` took the table to `post`, or failed
    /// for want of room.
    pub open spec fn installed(
        pre: Seq<DeviceKeyPairDescriptor>,
        address: IeeeAddress,
        key: [u8; 16],
        post: Seq<DeviceKeyPairDescriptor>,
        ok: bool,
    ) -> bool {
        if Self::has(pre, address) {
            ok && forall|i: int| #[trigger]
                Self::is_first(pre, address, i) ==> post == pre.update(
                    i,
                    Self::renewed(pre[i], key),
                )
        } else if pre.len() < MAX_LINK_KEYS {
            ok && post == pre.push(Self::fresh(address, key))
        } else {
            !ok && post == pre
        }
    }

    /// Confirming the key of the node `address` took the table to `post`.
    pub open spec fn confirmed(
        pre: Seq<DeviceKeyPairDescriptor>,
        address: IeeeAddress,
        post: Seq<DeviceKeyPairDescriptor>,
    ) -> bool {
        if Self::has(pre, address) {
            forall|i: int| #[trigger]
                Self::is_first(pre, address, i) ==> post == pre.update(
                    i,
                    DeviceKeyPairDescriptor {
                        key_attributes: KeyAttribute::VerifiedKey,
                        ..pre[i]
                    },
                )
        } else {
            post == pre
        }
    }

    pub fn new() -> (table: Self)
        ensures
            table.wf(),
            table@ == Seq::<DeviceKeyPairDescriptor>::empty(),
    {
        KeyTable { entries: Vec::new() }
    }

    pub fn as_slice(&self) -> (entries: &[DeviceKeyPairDescriptor])
        ensures
            entries@ == self@,
    {
        self.entries.as_slice()
    }

    fn find(&self, address: IeeeAddress) -> (found: Option<usize>)
        ensures
            match found {
                Some(i) => Self::is_first(self@, address, i as int),
                None => !Self::has(self@, address),
            },
    {
        let mut i: usize = 0;
        while i < self.entries.len()
            invariant
                i <= self.entries@.len(),
                forall|k: int|
                    0 <= k < i ==> (#[trigger] self.entries@[k]).device_address != address,
            decreases self.entries@.len() - i,
        {
            if self.entries[i].device_address == address {
                return Some(i);
            }
            i = i + 1;
        }
        None
    }

    /// Add an entry as it is, where there is room.
    pub fn push(&mut self, entry: DeviceKeyPairDescriptor) -> (ok: bool)
        requires
            old(self).wf(),
        ensures
            final(self).wf(),
            ok == (old(self)@.len() < MAX_LINK_KEYS),
            final(self)@ == if ok {
                old(self)@.push(entry)
            } else {
                old(self)@
            },
    {
        if self.entries.len() < MAX_LINK_KEYS {
            self.entries.push(entry);
            true
        } else {
            false
        }
    }

    /// Install a new key, still to be verified, for the node `address`. Fails where
    /// it is the node's first key and the table is full.
    pub fn install(&mut self, address: IeeeAddress, key: [u8; 16]) -> (ok: bool)
        requires
            old(self).wf(),
        ensures
            final(self).wf(),
            Self::installed(old(self)@, address, key, final(self)@, ok),
    {
        match self.find(address) {
            Some(i) => {
                let entry: DeviceKeyPairDescriptor = self.entries[i];
                self.entries.set(
                    i,
                    DeviceKeyPairDescriptor {
                        link_key: key,
                        key_attributes: KeyAttribute::UnverifiedKey,
                        outgoing_frame_counter: 0,
                        incoming_frame_counter: 0,
                        ..entry
                    },
                );
                proof {
                    lemma_one_first(old(self)@, address);
                }
                true
            },
            None => {
                if self.entries.len() >= MAX_LINK_KEYS {
                    return false;
                }
                self.entries.push(
                    DeviceKeyPairDescriptor {
                        device_address: address,
                        key_attributes: KeyAttribute::UnverifiedKey,
                        link_key: key,
                        outgoing_frame_counter: 0,
                        incoming_frame_counter: 0,
                        link_key_type: LinkKeyType::UniqueLinkKey,
                    },
                );
                true
            },
        }
    }

    /// Mark the key of the node `address` as verified.
    pub fn confirm(&mut self, address: IeeeAddress)
        requires
            old(self).wf(),
        ensures
            final(self).wf(),
            Self::confirmed(old(self)@, address, final(self)@),
    {
        if let Some(i) = self.find(address) {
            let entry: DeviceKeyPairDescriptor = self.entries[i];
            self.entries.set(
                i,
                DeviceKeyPairDescriptor { key_attributes: KeyAttribute::VerifiedKey, ..entry },
            );
            proof {
                lemma_one_first(old(self)@, address);
            }
        }
    }
}

/// At most one entry is the first one for a node.
proof fn lemma_one_first(table: Seq<DeviceKeyPairDescriptor>, address: IeeeAddress)
    ensures
        forall|i: int, k: int| #[trigger]
            KeyTable::is_first(table, address, i) && #[trigger] KeyTable::is_first(
                table,
                address,
                k,
            ) ==> i == k,
{
}

/// What passes a filter occurs no more often than before.
pub proof fn lemma_filtered<T>(table: Seq<T>, keep: spec_fn(T) -> bool)
    ensures
        table.filter(keep).len() <= table.len(),
        table.no_duplicates() ==> table.filter(keep).no_duplicates(),
        forall|e: T| #[trigger] table.filter(keep).contains(e) <==> table.contains(e) && keep(e),
    decreases table.len(),
{
    reveal(Seq::filter);
    if table.len() > 0 {
        let front = table.drop_last();
        let last = table.last();
        lemma_filtered(front, keep);
        let kept = front.filter(keep);
        if keep(last) {
            assert(table.filter(keep) == kept.push(last));
            if table.no_duplicates() {
                assert(!kept.contains(last)) by {
                    if kept.contains(last) {
                        assert(front.contains(last));
                        let i = choose|i: int| 0 <= i < front.len() && front[i] == last;
                        assert(table[i] == table[table.len() - 1]);
                    }
                }
                assert(front.no_duplicates());
                assert(kept.push(last).no_duplicates());
            }
        }
        assert forall|e: T| #[trigger] table.filter(keep).contains(e) implies table.contains(e)
            && keep(e) by {
            let i = choose|i: int|
                0 <= i < table.filter(keep).len() && table.filter(keep)[i] == e;
            if i < kept.len() {
                assert(kept[i] == e);
                assert(kept.contains(e));
                let k = choose|k: int| 0 <= k < front.len() && front[k] == e;
                assert(table[k] == e);
            } else {
                assert(table[table.len() - 1] == e);
            }
        }
        assert forall|e: T| table.contains(e) && keep(e) implies #[trigger] table.filter(
            keep,
        ).contains(e) by {
            let k = choose|k: int| 0 <= k < table.len() && table[k] == e;
            if k < front.len() {
                assert(front[k] == e);
                assert(kept.contains(e));
                let i = choose|i: int| 0 <= i < kept.len() && kept[i] == e;
                assert(table.filter(keep)[i] == e);
            } else {
                assert(table.filter(keep)[kept.len() as int] == e);
            }
        }
    }
}

/// A binding that was made twice is there once.
pub proof fn law_binding_twice_is_binding_once(table: Seq<BindingEntry>, e: BindingEntry, cap: nat)
    ensures
        Entries::added(Entries::added(table, e, cap), e, cap) == Entries::added(table, e, cap),
{
    if !table.contains(e) && table.len() < cap {
        assert(table.push(e).last() == e);
        assert(table.push(e).contains(e));
    }
}

/// A binding that was removed is gone, and every other one stays.
pub proof fn law_unbinding_removes_only_that(
    table: Seq<BindingEntry>,
    e: BindingEntry,
    other: BindingEntry,
)
    ensures
        !Entries::removed(table, e).contains(e),
        other != e ==> (Entries::removed(table, e).contains(other) <==> table.contains(other)),
{
    lemma_filtered(table, Entries::other_than(e));
}

/// Removing a new binding undoes making it.
pub proof fn law_unbinding_undoes_binding(table: Seq<BindingEntry>, e: BindingEntry, cap: nat)
    requires
        !table.contains(e),
    ensures
        Entries::removed(Entries::added(table, e, cap), e) == table,
{
    lemma_keeps_all(table, Entries::other_than(e));
    if table.len() < cap {
        reveal(Seq::filter);
        assert(table.push(e).drop_last() =~= table);
    }
}

/// A filter that every entry passes changes nothing.
proof fn lemma_keeps_all<T>(table: Seq<T>, keep: spec_fn(T) -> bool)
    requires
        forall|e: T| #[trigger] table.contains(e) ==> keep(e),
    ensures
        table.filter(keep) == table,
    decreases table.len(),
{
    reveal(Seq::filter);
    if table.len() > 0 {
        let front = table.drop_last();
        assert forall|e: T| #[trigger] front.contains(e) implies keep(e) by {
            let i = choose|i: int| 0 <= i < front.len() && front[i] == e;
            assert(table[i] == e);
            assert(table.contains(e));
        }
        lemma_keeps_all(front, keep);
        assert(table[table.len() - 1] == table.last());
        assert(table.contains(table.last()));
        assert(front.push(table.last()) =~= table);
    }
}

/// A membership that was entered twice is there once.
pub proof fn law_adding_twice_is_adding_once(table: Seq<ApsGroup>, g: ApsGroup, cap: nat)
    ensures
        Entries::added(Entries::added(table, g, cap), g, cap) == Entries::added(table, g, cap),
{
    if !table.contains(g) && table.len() < cap {
        assert(table.push(g).last() == g);
        assert(table.push(g).contains(g));
    }
}

/// A membership that was removed is gone, and every other one stays.
pub proof fn law_removing_removes_only_that(table: Seq<ApsGroup>, g: ApsGroup, other: ApsGroup)
    ensures
        !Entries::removed(table, g).contains(g),
        other != g ==> (Entries::removed(table, g).contains(other) <==> table.contains(other)),
{
    lemma_filtered(table, Entries::other_than(g));
}

/// After an endpoint's memberships were removed it has none, and every other
/// endpoint has what it had.
pub proof fn law_cleared_endpoint_is_in_no_group(table: Seq<ApsGroup>, endpoint: u8, g: ApsGroup)
    ensures
        table.filter(GroupTable::of_others(endpoint)).contains(g) <==> table.contains(g)
            && g.endpoint != endpoint,
{
    lemma_filtered(table, GroupTable::of_others(endpoint));
}

/// A key that was installed and then confirmed is the node's verified key, and the
/// keys of every other node stay as they were.
pub proof fn law_confirmed_key_is_verified(
    pre: Seq<DeviceKeyPairDescriptor>,
    address: IeeeAddress,
    key: [u8; 16],
    mid: Seq<DeviceKeyPairDescriptor>,
    post: Seq<DeviceKeyPairDescriptor>,
)
    requires
        KeyTable::installed(pre, address, key, mid, true),
        KeyTable::confirmed(mid, address, post),
    ensures
        exists|i: int| #[trigger]
            KeyTable::is_first(post, address, i) && post[i].link_key == key
                && post[i].key_attributes == KeyAttribute::VerifiedKey && (forall|k: int|
                0 <= k < pre.len() && k != i ==> #[trigger] post[k] == pre[k]),
{
    if KeyTable::has(pre, address) {
        let i = choose|i: int| #[trigger] KeyTable::is_first(pre, address, i);
        assert(KeyTable::is_first(mid, address, i));
        assert(KeyTable::is_first(post, address, i));
    } else {
        let i = pre.len() as int;
        assert forall|k: int| 0 <= k < i implies (#[trigger] mid[k]).device_address != address by {
            if pre[k].device_address == address {
                lemma_has_first(pre, address, k);
            }
        }
        assert(KeyTable::is_first(mid, address, i));
        assert(KeyTable::is_first(post, address, i));
    }
}

/// Where some entry is for the node, one of them is the first.
proof fn lemma_has_first(table: Seq<DeviceKeyPairDescriptor>, address: IeeeAddress, k: int)
    requires
        0 <= k < table.len(),
        table[k].device_address == address,
    ensures
        KeyTable::has(table, address),
    decreases k,
{
    if exists|j: int| 0 <= j < k && (#[trigger] table[j]).device_address == address {
        let j = choose|j: int| 0 <= j < k && (#[trigger] table[j]).device_address == address;
        lemma_has_first(table, address, j);
    } else {
        assert(KeyTable::is_first(table, address, k));
    }
}

} // verus!
