//! Key slots, and what is read off the pool of all slots: colliding keys
//! and aliases, the accounts in use, and the aliases in use.
//!
//! The pool is the primary slots followed by the recovery slots.

use vstd::prelude::*;
use std::collections::HashMap;
use crate::key::{ExtendedKey, ExtendedKeyView, KeyKind, check_key_network, key_suits_network};
use crate::network::Network;
use crate::path::{
    ChildNumber,
    Fingerprint,
    spec_child_index,
    spec_is_hardened,
    spec_next_account_index,
    spec_used_account,
    standard_path,
    used_account,
};

verus! {

/// One named place for a key in a set.
#[derive(Clone, Debug, PartialEq, Eq)]
pub struct DescriptorKey {
    /// The alias under which the key is shown.
    pub name: String,
    /// Whether the key suits the active network.
    pub valid: bool,
    pub key: Option<ExtendedKey>,
    /// Whether another slot holds the same key.
    pub duplicate_key: bool,
    /// Whether the alias also names a key of another device.
    pub duplicate_name: bool,
}

pub struct SlotView {
    pub name: Seq<char>,
    pub valid: bool,
    pub key: Option<ExtendedKeyView>,
    pub duplicate_key: bool,
    pub duplicate_name: bool,
}

impl View for DescriptorKey {
    type V = SlotView;

    open spec fn view(&self) -> SlotView {
        SlotView {
            name: self.name@,
            valid: self.valid,
            key: match self.key {
                Some(key) => Some(key@),
                None => None,
            },
            duplicate_key: self.duplicate_key,
            duplicate_name: self.duplicate_name,
        }
    }
}

impl Default for DescriptorKey {
    /// An empty slot: no alias, no key, no flag raised.
    fn default() -> (slot: DescriptorKey)
        ensures
            slot@ == empty_slot(),
    {
        DescriptorKey {
            name: String::new(),
            valid: true,
            key: None,
            duplicate_key: false,
            duplicate_name: false,
        }
    }
}

pub open spec fn empty_slot() -> SlotView {
    SlotView {
        name: Seq::empty(),
        valid: true,
        key: None,
        duplicate_key: false,
        duplicate_name: false,
    }
}

impl DescriptorKey {
    /// Sets the validity of a filled slot to whether its key suits the
    /// network. An empty slot stays as it is.
    pub fn check_network(&mut self, network: Network)
        ensures
            final(self)@ == (SlotView {
                valid: match old(self)@.key {
                    Some(key) => key_suits_network(key, network),
                    None => old(self).valid,
                },
                ..old(self)@
            }),
    {
        if let Some(key) = &self.key {
            self.valid = check_key_network(key, network);
        }
    }
}

/// The views of a run of slots.
pub open spec fn slot_views(slots: Seq<DescriptorKey>) -> Seq<SlotView> {
    Seq::new(slots.len(), |i: int| slots[i]@)
}

/// The pool: the primary slots, then the recovery slots.
pub open spec fn pool_of(primary: Seq<DescriptorKey>, recovery: Seq<DescriptorKey>) -> Seq<
    SlotView,
> {
    slot_views(primary) + slot_views(recovery)
}

pub open spec fn ref_views(slots: Seq<&DescriptorKey>) -> Seq<SlotView> {
    Seq::new(slots.len(), |i: int| slots[i]@)
}

/// Lists the slots of the pool in order.
pub fn gather<'a>(primary: &'a Vec<DescriptorKey>, recovery: &'a Vec<DescriptorKey>) -> (pool: Vec<
    &'a DescriptorKey,
>)
    ensures
        ref_views(pool@) == pool_of(primary@, recovery@),
        pool@.len() == primary@.len() + recovery@.len(),
{
    let mut pool: Vec<&'a DescriptorKey> = Vec::new();
    let mut i: usize = 0;
    while i < primary.len()
        invariant
            0 <= i <= primary@.len(),
            ref_views(pool@) == slot_views(primary@.take(i as int)),
            pool@.len() == i,
        decreases primary@.len() - i,
    {
        let ghost before = pool@;
        pool.push(&primary[i]);
        proof {
            assert forall|k: int| 0 <= k < i + 1 implies ref_views(pool@)[k] == slot_views(
                primary@.take(i + 1),
            )[k] by {
                if k < i {
                    assert(ref_views(before)[k] == slot_views(primary@.take(i as int))[k]);
                }
            }
            assert(ref_views(pool@) =~= slot_views(primary@.take(i + 1)));
        }
        i += 1;
    }
    proof {
        assert(primary@.take(primary@.len() as int) =~= primary@);
    }
    let mut j: usize = 0;
    while j < recovery.len()
        invariant
            0 <= j <= recovery@.len(),
            ref_views(pool@) == slot_views(primary@) + slot_views(recovery@.take(j as int)),
            pool@.len() == primary@.len() + j,
        decreases recovery@.len() - j,
    {
        let ghost before = pool@;
        pool.push(&recovery[j]);
        proof {
            let target = slot_views(primary@) + slot_views(recovery@.take(j + 1));
            assert forall|k: int| 0 <= k < primary@.len() + j + 1 implies ref_views(pool@)[k]
                == target[k] by {
                if k < primary@.len() + j {
                    assert(ref_views(before)[k] == (slot_views(primary@) + slot_views(
                        recovery@.take(j as int),
                    ))[k]);
                }
            }
            assert(ref_views(pool@) =~= target);
        }
        j += 1;
    }
    proof {
        assert(recovery@.take(recovery@.len() as int) =~= recovery@);
    }
    pool
}

/// Whether an alias names keys of two different devices: two filled slots
/// of the pool carry it, with different fingerprints.
pub open spec fn alias_collides(pool: Seq<SlotView>, name: Seq<char>) -> bool {
    exists|i: int, j: int|
        0 <= i < pool.len() && 0 <= j < pool.len() && carries(pool, i, name) && carries(
            pool,
            j,
            name,
        ) && (#[trigger] pool[i]).key->0.fingerprint != (#[trigger] pool[j]).key->0.fingerprint
}

/// Whether slot `i` of the pool is filled and carries the alias.
pub open spec fn carries(pool: Seq<SlotView>, i: int, name: Seq<char>) -> bool {
    pool[i].key is Some && pool[i].name == name
}

/// Whether a key stands in two slots of the pool.
pub open spec fn key_collides(pool: Seq<SlotView>, key: ExtendedKeyView) -> bool {
    exists|i: int, j: int|
        0 <= i < j < pool.len() && (#[trigger] pool[i]).key == Some(key) && (#[trigger] pool[j]).key
            == Some(key)
}

/// The pool with its duplicate flags set: on every slot, whether its alias
/// collides; on every filled slot, whether its key collides.
pub open spec fn flagged(pool: Seq<SlotView>) -> Seq<SlotView> {
    Seq::new(
        pool.len(),
        |i: int|
            SlotView {
                duplicate_name: alias_collides(pool, pool[i].name),
                duplicate_key: match pool[i].key {
                    Some(key) => key_collides(pool, key),
                    None => pool[i].duplicate_key,
                },
                ..pool[i]
            },
    )
}

/// Whether a filled slot of the pool carries the alias with another
/// fingerprint than the given one.
pub open spec fn alias_with_other_fingerprint(
    pool: Seq<SlotView>,
    name: Seq<char>,
    fingerprint: Fingerprint,
) -> bool {
    exists|j: int|
        0 <= j < pool.len() && carries(pool, j, name) && (#[trigger] pool[j]).key->0.fingerprint
            != fingerprint
}

fn has_alias_with_other_fingerprint(
    pool: &Vec<&DescriptorKey>,
    name: &String,
    fingerprint: Fingerprint,
) -> (found: bool)
    ensures
        found == alias_with_other_fingerprint(ref_views(pool@), name@, fingerprint),
{
    let mut j: usize = 0;
    while j < pool.len()
        invariant
            0 <= j <= pool@.len(),
            forall|k: int|
                0 <= k < j ==> !(carries(ref_views(pool@), k, name@) && (#[trigger] ref_views(
                    pool@,
                )[k]).key->0.fingerprint != fingerprint),
        decreases pool@.len() - j,
    {
        let slot = pool[j];
        proof {
            assert(ref_views(pool@)[j as int] == slot@);
        }
        if let Some(key) = &slot.key {
            if slot.name == *name && key.fingerprint != fingerprint {
                return true;
            }
        }
        j += 1;
    }
    false
}

/// Whether the alias collides in the pool.
pub fn has_colliding_alias(pool: &Vec<&DescriptorKey>, name: &String) -> (found: bool)
    ensures
        found == alias_collides(ref_views(pool@), name@),
{
    let ghost views = ref_views(pool@);
    let mut i: usize = 0;
    while i < pool.len()
        invariant
            0 <= i <= pool@.len(),
            views == ref_views(pool@),
            forall|k: int, j: int|
                0 <= k < i && 0 <= j < views.len() ==> !(carries(views, k, name@) && carries(
                    views,
                    j,
                    name@,
                ) && (#[trigger] views[k]).key->0.fingerprint != (#[trigger] views[j]).key->0.fingerprint),
        decreases pool@.len() - i,
    {
        let slot = pool[i];
        proof {
            assert(views[i as int] == slot@);
        }
        if let Some(key) = &slot.key {
            if slot.name == *name {
                if has_alias_with_other_fingerprint(pool, name, key.fingerprint) {
                    proof {
                        let j = choose|j: int|
                            0 <= j < views.len() && carries(views, j, name@) && (
                            #[trigger] views[j]).key->0.fingerprint != key.fingerprint;
                        assert(carries(views, i as int, name@) && carries(views, j, name@)
                            && views[i as int].key->0.fingerprint != views[j].key->0.fingerprint);
                    }
                    return true;
                }
            }
        }
        i += 1;
    }
    false
}

/// Whether the key stands in two slots of the pool.
pub fn has_colliding_key(pool: &Vec<&DescriptorKey>, key: &ExtendedKey) -> (found: bool)
    ensures
        found == key_collides(ref_views(pool@), key@),
{
    let ghost views = ref_views(pool@);
    let mut first: Option<usize> = None;
    let mut i: usize = 0;
    while i < pool.len()
        invariant
            0 <= i <= pool@.len(),
            views == ref_views(pool@),
            match first {
                Some(f) => f < i && views[f as int].key == Some(key@) && forall|k: int|
                    0 <= k < i && k != f ==> (#[trigger] views[k]).key != Some(key@),
                None => forall|k: int| 0 <= k < i ==> (#[trigger] views[k]).key != Some(key@),
            },
        decreases pool@.len() - i,
    {
        let slot = pool[i];
        proof {
            assert(views[i as int] == slot@);
        }
        if let Some(held) = &slot.key {
            if held.same_as(key) {
                match first {
                    Some(f) => {
                        proof {
                            assert(views[f as int].key == Some(key@) && views[i as int].key
                                == Some(key@));
                        }
                        return true;
                    },
                    None => {
                        first = Some(i);
                    },
                }
            }
        }
        i += 1;
    }
    proof {
        if key_collides(views, key@) {
            let (a, b) = choose|a: int, b: int|
                0 <= a < b < views.len() && (#[trigger] views[a]).key == Some(key@) && (
                #[trigger] views[b]).key == Some(key@);
            assert(false);
        }
    }
    false
}

/// The duplicate flags that slot `i` of the pool is due.
pub open spec fn due_flags(pool: Seq<SlotView>, i: int) -> (bool, bool) {
    (
        alias_collides(pool, pool[i].name),
        match pool[i].key {
            Some(key) => key_collides(pool, key),
            None => pool[i].duplicate_key,
        },
    )
}

fn compute_flags(pool: &Vec<&DescriptorKey>) -> (flags: Vec<(bool, bool)>)
    ensures
        flags@.len() == pool@.len(),
        forall|i: int| 0 <= i < flags@.len() ==> flags@[i] == due_flags(ref_views(pool@), i),
{
    let ghost views = ref_views(pool@);
    let mut flags: Vec<(bool, bool)> = Vec::new();
    let mut i: usize = 0;
    while i < pool.len()
        invariant
            0 <= i <= pool@.len(),
            views == ref_views(pool@),
            flags@.len() == i,
            forall|k: int| 0 <= k < i ==> flags@[k] == due_flags(views, k),
        decreases pool@.len() - i,
    {
        let slot = pool[i];
        proof {
            assert(views[i as int] == slot@);
        }
        let name_flag = has_colliding_alias(pool, &slot.name);
        let key_flag = match &slot.key {
            Some(key) => has_colliding_key(pool, key),
            None => slot.duplicate_key,
        };
        flags.push((name_flag, key_flag));
        i += 1;
    }
    flags
}

fn set_flags(slots: &mut Vec<DescriptorKey>, flags: &Vec<(bool, bool)>, offset: usize)
    requires
        offset + old(slots)@.len() <= flags@.len(),
    ensures
        final(slots)@.len() == old(slots)@.len(),
        forall|i: int|
            0 <= i < old(slots)@.len() ==> (#[trigger] final(slots)@[i])@ == (SlotView {
                duplicate_name: flags@[offset + i].0,
                duplicate_key: flags@[offset + i].1,
                ..old(slots)@[i]@
            }),
{
    let total = flags.len();
    let mut i: usize = 0;
    while i < slots.len()
        invariant
            0 <= i <= slots@.len(),
            slots@.len() == old(slots)@.len(),
            offset + slots@.len() <= flags@.len(),
            total == flags@.len(),
            forall|k: int|
                0 <= k < i ==> (#[trigger] slots@[k])@ == (SlotView {
                    duplicate_name: flags@[offset + k].0,
                    duplicate_key: flags@[offset + k].1,
                    ..old(slots)@[k]@
                }),
            forall|k: int| i <= k < slots@.len() ==> slots@[k] == old(slots)@[k],
        decreases slots@.len() - i,
    {
        let (name_flag, key_flag) = flags[offset + i];
        slots[i].duplicate_name = name_flag;
        slots[i].duplicate_key = key_flag;
        i += 1;
    }
}

/// Sets the duplicate flags of every slot from the pool as it stands.
pub fn check_for_duplicate(primary: &mut Vec<DescriptorKey>, recovery: &mut Vec<DescriptorKey>)
    ensures
        final(primary)@.len() == old(primary)@.len(),
        final(recovery)@.len() == old(recovery)@.len(),
        pool_of(final(primary)@, final(recovery)@) == flagged(
            pool_of(old(primary)@, old(recovery)@),
        ),
{
    let ghost pool = pool_of(primary@, recovery@);
    let flags = compute_flags(&gather(primary, recovery));
    let offset = primary.len();
    set_flags(primary, &flags, 0);
    set_flags(recovery, &flags, offset);
    proof {
        let after = pool_of(primary@, recovery@);
        assert forall|k: int| 0 <= k < pool.len() implies after[k] == flagged(pool)[k] by {
            if k < offset {
                assert(after[k] == primary@[k]@);
                assert(pool[k] == old(primary)@[k]@);
            } else {
                assert(after[k] == recovery@[k - offset]@);
                assert(pool[k] == old(recovery)@[k - offset]@);
            }
        }
        assert(after =~= flagged(pool));
    }
}

/// A run of slots in which every key of the device with this fingerprint
/// goes by the given alias.
pub open spec fn renamed(slots: Seq<SlotView>, name: Seq<char>, fingerprint: Fingerprint) -> Seq<
    SlotView,
> {
    Seq::new(
        slots.len(),
        |i: int|
            if slots[i].key is Some && slots[i].key->0.fingerprint == fingerprint {
                SlotView { name: name, ..slots[i] }
            } else {
                slots[i]
            },
    )
}

/// Gives the alias to every slot that holds a key of the device with this
/// fingerprint, so that one device goes by one name.
pub fn edit_alias_for_key_with_same_fingerprint(
    slots: &mut Vec<DescriptorKey>,
    name: &String,
    fingerprint: Fingerprint,
)
    ensures
        final(slots)@.len() == old(slots)@.len(),
        slot_views(final(slots)@) == renamed(slot_views(old(slots)@), name@, fingerprint),
{
    let mut i: usize = 0;
    while i < slots.len()
        invariant
            0 <= i <= slots@.len(),
            slots@.len() == old(slots)@.len(),
            forall|k: int|
                0 <= k < i ==> (#[trigger] slots@[k])@ == renamed(
                    slot_views(old(slots)@),
                    name@,
                    fingerprint,
                )[k],
            forall|k: int| i <= k < slots@.len() ==> slots@[k] == old(slots)@[k],
        decreases slots@.len() - i,
    {
        let same_device = match &slots[i].key {
            Some(key) => key.fingerprint == fingerprint,
            None => false,
        };
        if same_device {
            slots[i].name = name.clone();
        }
        i += 1;
    }
    proof {
        assert(slot_views(slots@) =~= renamed(slot_views(old(slots)@), name@, fingerprint));
    }
}

/// The device and the account that the key of a slot spends from: those of
/// an extended key whose origin follows the standard policy scheme.
pub open spec fn slot_account(slot: SlotView) -> Option<(Fingerprint, ChildNumber)> {
    match slot.key {
        Some(key) => if key.kind == KeyKind::XPub && key.origin is Some && spec_used_account(
            key.origin->0,
        ) is Some {
            Some((key.fingerprint, spec_used_account(key.origin->0)->0))
        } else {
            None
        },
        None => None,
    }
}

/// The highest account that the keys of a device use in a run of slots.
pub open spec fn highest_account(slots: Seq<SlotView>, fingerprint: Fingerprint) -> Option<
    ChildNumber,
>
    decreases slots.len(),
{
    if slots.len() == 0 {
        None
    } else {
        let before = highest_account(slots.drop_last(), fingerprint);
        match slot_account(slots.last()) {
            Some((device, account)) => if device == fingerprint && (before is None || before->0
                < account) {
                Some(account)
            } else {
                before
            },
            None => before,
        }
    }
}

/// The highest account in use, per device.
pub fn fingerprint_account_index_mappping(pool: &Vec<&DescriptorKey>) -> (mapping: HashMap<
    Fingerprint,
    ChildNumber,
>)
    ensures
        forall|fingerprint: Fingerprint|
            crate::path::map_get(mapping@, fingerprint) == #[trigger] highest_account(
                ref_views(pool@),
                fingerprint,
            ),
{
    let ghost views = ref_views(pool@);
    let mut mapping: HashMap<Fingerprint, ChildNumber> = HashMap::new();
    let mut i: usize = 0;
    while i < pool.len()
        invariant
            0 <= i <= pool@.len(),
            views == ref_views(pool@),
            forall|fingerprint: Fingerprint|
                crate::path::map_get(mapping@, fingerprint) == #[trigger] highest_account(
                    views.take(i as int),
                    fingerprint,
                ),
        decreases pool@.len() - i,
    {
        let slot = pool[i];
        let ghost before = mapping@;
        proof {
            assert(views[i as int] == slot@);
            assert(views.take(i + 1).drop_last() =~= views.take(i as int));
            assert(views.take(i + 1).last() == slot@);
        }
        if let Some(key) = &slot.key {
            if key.kind == KeyKind::XPub {
                if let Some(path) = &key.origin {
                    if let Some(account) = used_account(path) {
                        let higher = match mapping.get(&key.fingerprint) {
                            Some(previous) => account > *previous,
                            None => true,
                        };
                        if higher {
                            mapping.insert(key.fingerprint, account);
                        }
                    }
                }
            }
        }
        proof {
            assert forall|fingerprint: Fingerprint|
                crate::path::map_get(mapping@, fingerprint) == #[trigger] highest_account(
                    views.take(i + 1),
                    fingerprint,
                ) by {
                assert(crate::path::map_get(before, fingerprint) == highest_account(
                    views.take(i as int),
                    fingerprint,
                ));
            }
        }
        i += 1;
    }
    proof {
        assert(views.take(pool@.len() as int) =~= views);
    }
    mapping
}

/// The alias that a device goes by in a run of slots: that of the last
/// filled slot with its fingerprint.
pub open spec fn alias_of(slots: Seq<SlotView>, fingerprint: Fingerprint) -> Option<Seq<char>>
    decreases slots.len(),
{
    if slots.len() == 0 {
        None
    } else if slots.last().key is Some && slots.last().key->0.fingerprint == fingerprint {
        Some(slots.last().name)
    } else {
        alias_of(slots.drop_last(), fingerprint)
    }
}

pub open spec fn alias_get(aliases: Map<Fingerprint, String>, fingerprint: Fingerprint) -> Option<
    Seq<char>,
> {
    if aliases.contains_key(fingerprint) {
        Some(aliases[fingerprint]@)
    } else {
        None
    }
}

/// The aliases in use, per device.
pub fn keys_aliases(pool: &Vec<&DescriptorKey>) -> (aliases: HashMap<Fingerprint, String>)
    ensures
        forall|fingerprint: Fingerprint|
            alias_get(aliases@, fingerprint) == #[trigger] alias_of(
                ref_views(pool@),
                fingerprint,
            ),
{
    let ghost views = ref_views(pool@);
    let mut aliases: HashMap<Fingerprint, String> = HashMap::new();
    let mut i: usize = 0;
    while i < pool.len()
        invariant
            0 <= i <= pool@.len(),
            views == ref_views(pool@),
            forall|fingerprint: Fingerprint|
                alias_get(aliases@, fingerprint) == #[trigger] alias_of(
                    views.take(i as int),
                    fingerprint,
                ),
        decreases pool@.len() - i,
    {
        let slot = pool[i];
        let ghost before = aliases@;
        proof {
            assert(views[i as int] == slot@);
            assert(views.take(i + 1).drop_last() =~= views.take(i as int));
            assert(views.take(i + 1).last() == slot@);
        }
        if let Some(key) = &slot.key {
            aliases.insert(key.fingerprint, slot.name.clone());
        }
        proof {
            assert forall|fingerprint: Fingerprint|
                alias_get(aliases@, fingerprint) == #[trigger] alias_of(
                    views.take(i + 1),
                    fingerprint,
                ) by {
                assert(alias_get(before, fingerprint) == alias_of(
                    views.take(i as int),
                    fingerprint,
                ));
            }
        }
        i += 1;
    }
    proof {
        assert(views.take(pool@.len() as int) =~= views);
    }
    aliases
}

/// Whether two pools hold the same aliases and keys, slot by slot.
pub open spec fn same_content(p: Seq<SlotView>, q: Seq<SlotView>) -> bool {
    p.len() == q.len() && forall|i: int|
        0 <= i < p.len() ==> (#[trigger] p[i]).name == q[i].name && p[i].key == q[i].key
}

/// Whether the duplicate flags of the filled slots say what holds of the
/// pool as it stands.
pub open spec fn flags_current(pool: Seq<SlotView>) -> bool {
    forall|i: int|
        0 <= i < pool.len() && (#[trigger] pool[i]).key is Some ==> pool[i].duplicate_name
            == alias_collides(pool, pool[i].name) && pool[i].duplicate_key == key_collides(
            pool,
            pool[i].key->0,
        )
}

/// Collisions are a matter of aliases and keys alone.
pub proof fn lemma_collisions_of_same_content(
    p: Seq<SlotView>,
    q: Seq<SlotView>,
    name: Seq<char>,
    key: ExtendedKeyView,
)
    requires
        same_content(p, q),
    ensures
        alias_collides(p, name) == alias_collides(q, name),
        key_collides(p, key) == key_collides(q, key),
{
    if alias_collides(p, name) {
        let (i, j) = choose|i: int, j: int|
            0 <= i < p.len() && 0 <= j < p.len() && carries(p, i, name) && carries(p, j, name) && (
            #[trigger] p[i]).key->0.fingerprint != (#[trigger] p[j]).key->0.fingerprint;
        assert(carries(q, i, name) && carries(q, j, name) && q[i].key->0.fingerprint
            != q[j].key->0.fingerprint);
    }
    if alias_collides(q, name) {
        let (i, j) = choose|i: int, j: int|
            0 <= i < q.len() && 0 <= j < q.len() && carries(q, i, name) && carries(q, j, name) && (
            #[trigger] q[i]).key->0.fingerprint != (#[trigger] q[j]).key->0.fingerprint;
        assert(carries(p, i, name) && carries(p, j, name) && p[i].key->0.fingerprint
            != p[j].key->0.fingerprint);
    }
    if key_collides(p, key) {
        let (i, j) = choose|i: int, j: int|
            0 <= i < j < p.len() && (#[trigger] p[i]).key == Some(key) && (#[trigger] p[j]).key
                == Some(key);
        assert(q[i].key == Some(key) && q[j].key == Some(key));
    }
    if key_collides(q, key) {
        let (i, j) = choose|i: int, j: int|
            0 <= i < j < q.len() && (#[trigger] q[i]).key == Some(key) && (#[trigger] q[j]).key
                == Some(key);
        assert(p[i].key == Some(key) && p[j].key == Some(key));
    }
}

/// Setting the flags of a pool makes them current, and touches nothing
/// else.
pub proof fn lemma_flagged_is_current(pool: Seq<SlotView>)
    ensures
        flags_current(flagged(pool)),
        same_content(pool, flagged(pool)),
        forall|i: int| 0 <= i < pool.len() ==> (#[trigger] flagged(pool)[i]).valid == pool[i].valid,
{
    let after = flagged(pool);
    assert(same_content(pool, after));
    assert forall|i: int| 0 <= i < after.len() && (#[trigger] after[i]).key is Some implies after[i].duplicate_name
        == alias_collides(after, after[i].name) && after[i].duplicate_key == key_collides(
        after,
        after[i].key->0,
    ) by {
        lemma_collisions_of_same_content(pool, after, pool[i].name, pool[i].key->0);
    }
}

/// Flags that are current stay so while aliases, keys and flags stay.
pub proof fn lemma_current_flags_kept(p: Seq<SlotView>, q: Seq<SlotView>)
    requires
        flags_current(p),
        same_content(p, q),
        forall|i: int|
            0 <= i < p.len() ==> (#[trigger] p[i]).duplicate_name == q[i].duplicate_name
                && p[i].duplicate_key == q[i].duplicate_key,
    ensures
        flags_current(q),
{
    assert forall|i: int| 0 <= i < q.len() && (#[trigger] q[i]).key is Some implies q[i].duplicate_name
        == alias_collides(q, q[i].name) && q[i].duplicate_key == key_collides(q, q[i].key->0) by {
        assert(p[i].key is Some);
        lemma_collisions_of_same_content(p, q, p[i].name, p[i].key->0);
    }
}

/// A run of slots whose filled ones are marked valid exactly when their key
/// suits the network.
pub open spec fn revalidated(slots: Seq<SlotView>, network: Network) -> Seq<SlotView> {
    Seq::new(
        slots.len(),
        |i: int|
            SlotView {
                valid: match slots[i].key {
                    Some(key) => key_suits_network(key, network),
                    None => slots[i].valid,
                },
                ..slots[i]
            },
    )
}

/// Whether every filled slot is marked valid exactly when its key suits
/// the network.
pub open spec fn validity_current(slots: Seq<SlotView>, network: Network) -> bool {
    forall|i: int|
        0 <= i < slots.len() && (#[trigger] slots[i]).key is Some ==> slots[i].valid
            == key_suits_network(slots[i].key->0, network)
}

/// Checks every slot of a set against the network.
pub fn check_network_of(slots: &mut Vec<DescriptorKey>, network: Network)
    ensures
        final(slots)@.len() == old(slots)@.len(),
        slot_views(final(slots)@) == revalidated(slot_views(old(slots)@), network),
{
    let mut i: usize = 0;
    while i < slots.len()
        invariant
            0 <= i <= slots@.len(),
            slots@.len() == old(slots)@.len(),
            forall|k: int|
                0 <= k < i ==> (#[trigger] slots@[k])@ == revalidated(
                    slot_views(old(slots)@),
                    network,
                )[k],
            forall|k: int| i <= k < slots@.len() ==> slots@[k] == old(slots)@[k],
        decreases slots@.len() - i,
    {
        slots[i].check_network(network);
        i += 1;
    }
    proof {
        assert(slot_views(slots@) =~= revalidated(slot_views(old(slots)@), network));
    }
}

/// Whether the key of slot `i` spends from an account of the device.
pub open spec fn uses_device(slots: Seq<SlotView>, i: int, fingerprint: Fingerprint) -> bool {
    slot_account(slots[i]) is Some && slot_account(slots[i]).unwrap().0 == fingerprint
}

/// The highest account of a device is an account that one of its keys
/// uses, and none of its keys uses a higher one; there is none exactly when
/// no key of the device uses an account.
pub proof fn lemma_highest_account_is_highest(slots: Seq<SlotView>, fingerprint: Fingerprint)
    ensures
        match highest_account(slots, fingerprint) {
            Some(account) => (exists|i: int|
                0 <= i < slots.len() && slot_account(#[trigger] slots[i]) == Some(
                    (fingerprint, account),
                )) && forall|i: int|
                0 <= i < slots.len() && #[trigger] uses_device(slots, i, fingerprint)
                    ==> slot_account(slots[i]).unwrap().1 <= account,
            None => forall|i: int|
                0 <= i < slots.len() ==> !#[trigger] uses_device(slots, i, fingerprint),
        },
    decreases slots.len(),
{
    if slots.len() > 0 {
        let rest = slots.drop_last();
        lemma_highest_account_is_highest(rest, fingerprint);
        let last = slots.len() - 1;
        assert forall|i: int| 0 <= i < rest.len() implies rest[i] == slots[i] by {}
        match highest_account(slots, fingerprint) {
            Some(account) => {
                if highest_account(rest, fingerprint) == Some(account) {
                    let w = choose|i: int|
                        0 <= i < rest.len() && slot_account(#[trigger] rest[i]) == Some(
                            (fingerprint, account),
                        );
                    assert(slot_account(slots[w]) == Some((fingerprint, account)));
                } else {
                    assert(slot_account(slots[last]) == Some((fingerprint, account)));
                }
                assert forall|i: int|
                    0 <= i < slots.len() && #[trigger] uses_device(
                        slots,
                        i,
                        fingerprint,
                    ) implies slot_account(slots[i]).unwrap().1 <= account by {
                    if i < last {
                        assert(uses_device(rest, i, fingerprint));
                    }
                }
            },
            None => {
                assert forall|i: int| 0 <= i < slots.len() implies !#[trigger] uses_device(
                    slots,
                    i,
                    fingerprint,
                ) by {
                    if i < last {
                        assert(!uses_device(rest, i, fingerprint));
                    }
                }
            },
        }
    }
}

/// An account that a key of the device uses, and above which no key of the
/// device goes, is the highest account of the device.
pub proof fn lemma_account_above_all_is_highest(
    slots: Seq<SlotView>,
    fingerprint: Fingerprint,
    account: ChildNumber,
    at: int,
)
    requires
        0 <= at < slots.len(),
        slot_account(slots[at]) == Some((fingerprint, account)),
        forall|i: int|
            0 <= i < slots.len() && #[trigger] uses_device(slots, i, fingerprint) ==> slot_account(
                slots[i],
            ).unwrap().1 <= account,
    ensures
        highest_account(slots, fingerprint) == Some(account),
{
    lemma_highest_account_is_highest(slots, fingerprint);
    assert(uses_device(slots, at, fingerprint));
    match highest_account(slots, fingerprint) {
        Some(highest) => {
            let w = choose|i: int|
                0 <= i < slots.len() && slot_account(#[trigger] slots[i]) == Some(
                    (fingerprint, highest),
                );
            assert(uses_device(slots, w, fingerprint));
        },
        None => {},
    }
}

/// Keys that are allocated to one device one after the other get strictly
/// increasing hardened accounts: 0', 1', 2' and so on.
///
/// Once a slot of the pool holds the key that was derived for a device at
/// the account allocated to it, that account is the highest one of the
/// device. The account allocated next is therefore the hardened one whose
/// index is greater by one; the first account of a device without keys is
/// 0'.
pub proof fn lemma_allocation_increases(
    pool: Seq<SlotView>,
    at: int,
    slot: SlotView,
    fingerprint: Fingerprint,
    network: Network,
)
    requires
        0 <= at < pool.len(),
        spec_next_account_index(highest_account(pool, fingerprint)) is Some,
        slot.key is Some,
        slot.key->0.kind == KeyKind::XPub,
        slot.key->0.fingerprint == fingerprint,
        slot.key->0.origin == Some(
            standard_path(
                network,
                spec_next_account_index(highest_account(pool, fingerprint))->0,
            ),
        ),
    ensures
        ({
            let first = spec_next_account_index(highest_account(pool, fingerprint))->0;
            let second = spec_next_account_index(
                highest_account(pool.update(at, slot), fingerprint),
            );
            &&& spec_is_hardened(first)
            &&& highest_account(pool, fingerprint) is None ==> spec_child_index(first) == 0
            &&& highest_account(pool.update(at, slot), fingerprint) == Some(first)
            &&& second is Some ==> spec_is_hardened(second->0) && spec_child_index(second->0)
                == spec_child_index(first) + 1
        }),
{
    let first = spec_next_account_index(highest_account(pool, fingerprint))->0;
    let after = pool.update(at, slot);
    lemma_highest_account_is_highest(pool, fingerprint);
    assert(standard_path(network, first)[2] == first);
    assert(slot_account(after[at]) == Some((fingerprint, first)));
    assert forall|i: int|
        0 <= i < after.len() && #[trigger] uses_device(
            after,
            i,
            fingerprint,
        ) implies slot_account(after[i]).unwrap().1 <= first by {
        if i != at {
            assert(after[i] == pool[i]);
            assert(uses_device(pool, i, fingerprint));
        }
    }
    lemma_account_above_all_is_highest(after, fingerprint, first, at);
}

/// Of two filled slots of a pool whose flags are current: if they hold the
/// same key, both are flagged for it; if they carry the same alias for
/// keys of different devices, both are flagged for that.
pub proof fn lemma_duplicates_are_flagged(pool: Seq<SlotView>, i: int, j: int)
    requires
        flags_current(pool),
        0 <= i < pool.len(),
        0 <= j < pool.len(),
        i != j,
        pool[i].key is Some,
        pool[j].key is Some,
    ensures
        pool[i].key == pool[j].key ==> pool[i].duplicate_key && pool[j].duplicate_key,
        pool[i].name == pool[j].name && pool[i].key->0.fingerprint != pool[j].key->0.fingerprint
            ==> pool[i].duplicate_name && pool[j].duplicate_name,
{
    if pool[i].key == pool[j].key {
        let key = pool[i].key->0;
        if i < j {
            assert(pool[i].key == Some(key) && pool[j].key == Some(key));
        } else {
            assert(pool[j].key == Some(key) && pool[i].key == Some(key));
        }
        assert(key_collides(pool, key));
    }
    if pool[i].name == pool[j].name && pool[i].key->0.fingerprint != pool[j].key->0.fingerprint {
        let name = pool[i].name;
        assert(carries(pool, i, name) && carries(pool, j, name));
        assert(alias_collides(pool, name));
    }
}

/// A filled slot of a pool whose flags are current is not flagged for its
/// alias if every filled slot that carries the alias holds a key of the same
/// device, and is not flagged for its key if no other slot holds that key.
pub proof fn lemma_flags_are_earned(pool: Seq<SlotView>, i: int)
    requires
        flags_current(pool),
        0 <= i < pool.len(),
        pool[i].key is Some,
    ensures
        (forall|j: int|
            0 <= j < pool.len() && carries(pool, j, pool[i].name) ==> (
            #[trigger] pool[j]).key->0.fingerprint == pool[i].key->0.fingerprint)
            ==> !pool[i].duplicate_name,
        (forall|j: int| 0 <= j < pool.len() && j != i ==> (#[trigger] pool[j]).key != pool[i].key)
            ==> !pool[i].duplicate_key,
{
    let name = pool[i].name;
    let key = pool[i].key->0;
    if forall|j: int|
        0 <= j < pool.len() && carries(pool, j, name) ==> (#[trigger] pool[j]).key->0.fingerprint
            == key.fingerprint {
        if alias_collides(pool, name) {
            let (a, b) = choose|a: int, b: int|
                0 <= a < pool.len() && 0 <= b < pool.len() && carries(pool, a, name) && carries(
                    pool,
                    b,
                    name,
                ) && (#[trigger] pool[a]).key->0.fingerprint != (#[trigger] pool[b]).key->0.fingerprint;
            assert(false);
        }
    }
    if forall|j: int| 0 <= j < pool.len() && j != i ==> (#[trigger] pool[j]).key != pool[i].key {
        if key_collides(pool, key) {
            let (a, b) = choose|a: int, b: int|
                0 <= a < b < pool.len() && (#[trigger] pool[a]).key == Some(key) && (
                #[trigger] pool[b]).key == Some(key);
            assert(false);
        }
    }
}

} // verus!
