//! The step that defines the policy: two sets of key slots with their
//! thresholds, and the timelock behind which the recovery set may spend.

use vstd::prelude::*;
use std::collections::HashMap;
use crate::command::Command;
use crate::context::{Context, KeySetting};
use crate::edit::{EditXpubModal, EditXpubModalView};
use crate::form::{Value, ValueView};
use crate::key::{ExtendedKey, ExtendedKeyView, check_key_network, key_suits_network};
use crate::message::{DefineDescriptor as Event, DefineKey, Message};
use crate::network::Network;
use crate::path::{ChildNumber, Fingerprint, map_get};
use crate::policy::{
    AssemblyError,
    AssemblyErrorView,
    PolicyPath,
    PolicyPathView,
    PolicyRequest,
    PolicyRequestView,
    collect_policy_keys,
    compile,
    device_aliases,
    lemma_names_device_of_parts,
    names_device,
    outcome_view,
    policy_keys,
    policy_texts,
    push_device_aliases,
    setting_views,
    spec_compile,
    text_views,
};
use crate::signer::Signer;
use crate::slot::{
    DescriptorKey,
    SlotView,
    alias_get,
    alias_of,
    check_for_duplicate,
    check_network_of,
    edit_alias_for_key_with_same_fingerprint,
    empty_slot,
    fingerprint_account_index_mappping,
    flagged,
    flags_current,
    gather,
    highest_account,
    keys_aliases,
    lemma_current_flags_kept,
    lemma_flagged_is_current,
    pool_of,
    renamed,
    revalidated,
    slot_views,
    validity_current,
};
use crate::text::{parse_u16, spec_parse_u16};

verus! {

/// The state of the step.
pub struct DefineDescriptor {
    pub network: Network,
    /// Whether the data directory is free for a wallet of the network.
    pub network_valid: bool,
    /// Whether a data directory is known.
    pub data_dir_set: bool,
    /// The slots of the primary set.
    pub spending_keys: Vec<DescriptorKey>,
    pub spending_threshold: usize,
    /// The slots of the recovery set.
    pub recovery_keys: Vec<DescriptorKey>,
    pub recovery_threshold: usize,
    /// The timelock field.
    pub sequence: Value,
    /// The import that is open, if one is.
    pub modal: Option<EditXpubModal>,
    pub signer: Signer,
    /// The message of the policy error that the last assembly ended in.
    pub error: Option<String>,
}

pub struct DefineDescriptorView {
    pub network: Network,
    pub network_valid: bool,
    pub data_dir_set: bool,
    pub spending_keys: Seq<SlotView>,
    pub spending_threshold: usize,
    pub recovery_keys: Seq<SlotView>,
    pub recovery_threshold: usize,
    pub sequence: ValueView,
    pub modal: Option<EditXpubModalView>,
    pub signer: Signer,
    pub error: Option<Seq<char>>,
}

impl View for DefineDescriptor {
    type V = DefineDescriptorView;

    open spec fn view(&self) -> DefineDescriptorView {
        DefineDescriptorView {
            network: self.network,
            network_valid: self.network_valid,
            data_dir_set: self.data_dir_set,
            spending_keys: slot_views(self.spending_keys@),
            spending_threshold: self.spending_threshold,
            recovery_keys: slot_views(self.recovery_keys@),
            recovery_threshold: self.recovery_threshold,
            sequence: self.sequence@,
            modal: match self.modal {
                Some(modal) => Some(modal@),
                None => None,
            },
            signer: self.signer,
            error: match self.error {
                Some(error) => Some(error@),
                None => None,
            },
        }
    }
}

/// Whether a threshold suits a set of `slots` slots: at most their number,
/// and at least one unless there is no slot.
pub open spec fn threshold_fits(threshold: usize, slots: nat) -> bool {
    threshold <= slots && (slots > 0 ==> threshold >= 1)
}

/// A slot that took an alias and a key, on a network.
pub open spec fn filled(slot: SlotView, name: Seq<char>, key: ExtendedKeyView, network: Network) -> SlotView {
    SlotView { name: name, key: Some(key), valid: key_suits_network(key, network), ..slot }
}

impl DefineDescriptorView {
    /// The pool: the primary slots, then the recovery slots.
    pub open spec fn pool(self) -> Seq<SlotView> {
        self.spending_keys + self.recovery_keys
    }

    /// The invariant of the step: each threshold fits its set, each filled
    /// slot is marked valid exactly when its key suits the network, and the
    /// duplicate flags of the filled slots are current.
    pub open spec fn wf(self) -> bool {
        &&& threshold_fits(self.spending_threshold, self.spending_keys.len())
        &&& threshold_fits(self.recovery_threshold, self.recovery_keys.len())
        &&& validity_current(self.spending_keys, self.network)
        &&& validity_current(self.recovery_keys, self.network)
        &&& flags_current(self.pool())
    }

    /// The slots of one set.
    pub open spec fn set(self, is_recovery: bool) -> Seq<SlotView> {
        if is_recovery {
            self.recovery_keys
        } else {
            self.spending_keys
        }
    }

    pub open spec fn threshold(self, is_recovery: bool) -> usize {
        if is_recovery {
            self.recovery_threshold
        } else {
            self.spending_threshold
        }
    }

    /// The state with other slots and another threshold for one set.
    pub open spec fn with_set(self, is_recovery: bool, slots: Seq<SlotView>, threshold: usize) -> Self {
        if is_recovery {
            DefineDescriptorView { recovery_keys: slots, recovery_threshold: threshold, ..self }
        } else {
            DefineDescriptorView { spending_keys: slots, spending_threshold: threshold, ..self }
        }
    }

    /// The state with the duplicate flags of its slots set anew.
    pub open spec fn rechecked(self) -> Self {
        let pool = flagged(self.pool());
        DefineDescriptorView {
            spending_keys: pool.take(self.spending_keys.len() as int),
            recovery_keys: pool.skip(self.spending_keys.len() as int),
            ..self
        }
    }

    /// The state after a network was chosen: the software signer encodes
    /// its keys for it, and every slot is checked against it. Whether the
    /// network is free is only taken note of once a data directory is known.
    pub open spec fn on_network(self, network: Network, taken: bool) -> Self {
        DefineDescriptorView {
            network: network,
            network_valid: if self.data_dir_set {
                !taken
            } else {
                self.network_valid
            },
            spending_keys: revalidated(self.spending_keys, network),
            recovery_keys: revalidated(self.recovery_keys, network),
            signer: self.signer.on_network(network),
            ..self
        }
    }

    /// The state after a threshold was edited: a value that does not fit
    /// the set is not taken.
    pub open spec fn on_threshold(self, is_recovery: bool, value: usize) -> Self {
        if threshold_fits(value, self.set(is_recovery).len()) {
            self.with_set(is_recovery, self.set(is_recovery), value)
        } else {
            self
        }
    }

    /// The state after the timelock field was edited: the text is taken if
    /// it is empty or a 16-bit unsigned integer.
    pub open spec fn on_sequence(self, text: Seq<char>) -> Self {
        DefineDescriptorView {
            sequence: ValueView {
                value: if text.len() == 0 || spec_parse_u16(text) is Some {
                    text
                } else {
                    self.sequence.value
                },
                valid: true,
            },
            ..self
        }
    }

    /// The state after a slot was added to a set: the set ends with an
    /// empty slot, and its threshold grew by one, as far as the slots go.
    pub open spec fn on_add(self, is_recovery: bool) -> Self {
        self.with_set(
            is_recovery,
            self.set(is_recovery).push(empty_slot()),
            if self.threshold(is_recovery) <= self.set(is_recovery).len() {
                (self.threshold(is_recovery) + 1) as usize
            } else {
                self.threshold(is_recovery)
            },
        ).rechecked()
    }

    /// The state after an import was confirmed: every slot that holds a key
    /// of the same device takes the alias, the slot at place `i` of the set
    /// takes the alias and the key, and the import is closed.
    pub open spec fn on_edited(
        self,
        is_recovery: bool,
        i: usize,
        name: Seq<char>,
        key: ExtendedKeyView,
    ) -> Self {
        let named = DefineDescriptorView {
            spending_keys: renamed(self.spending_keys, name, key.fingerprint),
            recovery_keys: renamed(self.recovery_keys, name, key.fingerprint),
            modal: None,
            ..self
        };
        let slots = named.set(is_recovery);
        if i < slots.len() {
            named.with_set(
                is_recovery,
                slots.update(i as int, filled(slots[i as int], name, key, self.network)),
                self.threshold(is_recovery),
            ).rechecked()
        } else {
            named.rechecked()
        }
    }

    /// The state after the slot at place `i` of a set was removed: the
    /// threshold of the set comes down by one if it would exceed the slots
    /// that are left. A place outside the set changes nothing.
    pub open spec fn on_delete(self, is_recovery: bool, i: usize) -> Self {
        let slots = self.set(is_recovery);
        if i < slots.len() {
            let threshold = self.threshold(is_recovery);
            self.with_set(
                is_recovery,
                slots.remove(i as int),
                if threshold > slots.len() - 1 {
                    (threshold - 1) as usize
                } else {
                    threshold
                },
            ).rechecked()
        } else {
            self
        }
    }
}

/// Setting the flags anew restores the part of the invariant that speaks of
/// them, and keeps the rest.
pub proof fn lemma_rechecked_is_wf(state: DefineDescriptorView)
    requires
        threshold_fits(state.spending_threshold, state.spending_keys.len()),
        threshold_fits(state.recovery_threshold, state.recovery_keys.len()),
        validity_current(state.spending_keys, state.network),
        validity_current(state.recovery_keys, state.network),
    ensures
        state.rechecked().wf(),
        state.rechecked().spending_keys.len() == state.spending_keys.len(),
        state.rechecked().recovery_keys.len() == state.recovery_keys.len(),
{
    let pool = state.pool();
    let after = state.rechecked();
    let n = state.spending_keys.len() as int;
    lemma_flagged_is_current(pool);
    assert(after.pool() =~= flagged(pool));
    assert forall|i: int| 0 <= i < after.spending_keys.len() && (
    #[trigger] after.spending_keys[i]).key is Some implies after.spending_keys[i].valid
        == key_suits_network(after.spending_keys[i].key->0, after.network) by {
        assert(after.spending_keys[i] == flagged(pool)[i]);
        assert(pool[i] == state.spending_keys[i]);
    }
    assert forall|i: int| 0 <= i < after.recovery_keys.len() && (
    #[trigger] after.recovery_keys[i]).key is Some implies after.recovery_keys[i].valid
        == key_suits_network(after.recovery_keys[i].key->0, after.network) by {
        assert(after.recovery_keys[i] == flagged(pool)[i + n]);
        assert(pool[i + n] == state.recovery_keys[i]);
    }
}

impl DefineDescriptor {
    /// The step at its start: one empty slot in each set, each threshold at
    /// one, an empty timelock field, on the production network.
    pub fn new(signer: Signer) -> (step: DefineDescriptor)
        ensures
            step@ == (DefineDescriptorView {
                network: Network::Bitcoin,
                network_valid: true,
                data_dir_set: false,
                spending_keys: seq![empty_slot()],
                spending_threshold: 1,
                recovery_keys: seq![empty_slot()],
                recovery_threshold: 1,
                sequence: ValueView { value: Seq::empty(), valid: true },
                modal: None,
                signer: signer,
                error: None,
            }),
            step@.wf(),
    {
        let mut spending_keys: Vec<DescriptorKey> = Vec::new();
        spending_keys.push(DescriptorKey::default());
        let mut recovery_keys: Vec<DescriptorKey> = Vec::new();
        recovery_keys.push(DescriptorKey::default());
        let step = DefineDescriptor {
            network: Network::Bitcoin,
            data_dir_set: false,
            network_valid: true,
            spending_keys,
            spending_threshold: 1,
            recovery_keys,
            recovery_threshold: 1,
            sequence: Value::default(),
            modal: None,
            signer,
            error: None,
        };
        proof {
            assert(step@.spending_keys =~= seq![empty_slot()]);
            assert(step@.recovery_keys =~= seq![empty_slot()]);
        }
        step
    }

    /// Whether the form is filled in far enough to try an assembly: both
    /// sets have a slot, the timelock field is not empty, and every slot of
    /// the primary set holds a key.
    pub fn valid(&self) -> (valid: bool)
        ensures
            valid == (self@.spending_keys.len() > 0 && self@.recovery_keys.len() > 0
                && self@.sequence.value.len() > 0 && forall|i: int|
                0 <= i < self@.spending_keys.len() ==> (#[trigger] self@.spending_keys[i]).key
                    is Some),
    {
        if self.spending_keys.len() == 0 || self.recovery_keys.len() == 0
            || self.sequence.value.as_str().unicode_len() == 0 {
            return false;
        }
        let mut i: usize = 0;
        while i < self.spending_keys.len()
            invariant
                0 <= i <= self.spending_keys@.len(),
                forall|k: int| 0 <= k < i ==> (#[trigger] self@.spending_keys[k]).key is Some,
            decreases self.spending_keys@.len() - i,
        {
            if self.spending_keys[i].key.is_none() {
                proof {
                    assert(self@.spending_keys[i as int].key is None);
                }
                return false;
            }
            i += 1;
        }
        true
    }

    /// Moves the step to a network: the software signer encodes its keys
    /// for it, and every slot is checked against it.
    pub fn set_network(&mut self, network: Network, taken: bool)
        ensures
            final(self)@ == old(self)@.on_network(network, taken),
            old(self)@.wf() ==> final(self)@.wf(),
    {
        self.network = network;
        self.signer.set_network(network);
        if self.data_dir_set {
            self.network_valid = !taken;
        }
        check_network_of(&mut self.spending_keys, network);
        check_network_of(&mut self.recovery_keys, network);
        proof {
            if old(self)@.wf() {
                let p = old(self)@.pool();
                let q = self@.pool();
                assert forall|i: int| 0 <= i < p.len() implies (#[trigger] p[i]).name == q[i].name
                    && p[i].key == q[i].key && p[i].duplicate_name == q[i].duplicate_name
                    && p[i].duplicate_key == q[i].duplicate_key by {
                    if i < old(self)@.spending_keys.len() {
                        assert(q[i] == revalidated(old(self)@.spending_keys, network)[i]);
                    } else {
                        assert(q[i] == revalidated(old(self)@.recovery_keys, network)[i
                            - old(self)@.spending_keys.len()]);
                    }
                }
                lemma_current_flags_kept(p, q);
            }
        }
    }

    /// Sets the threshold of a set, if the value fits the set.
    pub fn set_threshold(&mut self, is_recovery: bool, value: usize)
        ensures
            final(self)@ == old(self)@.on_threshold(is_recovery, value),
            old(self)@.wf() ==> final(self)@.wf(),
    {
        let slots = if is_recovery {
            self.recovery_keys.len()
        } else {
            self.spending_keys.len()
        };
        if value <= slots && (slots == 0 || value >= 1) {
            if is_recovery {
                self.recovery_threshold = value;
            } else {
                self.spending_threshold = value;
            }
        }
    }

    /// Takes an edit of the timelock field.
    pub fn edit_sequence(&mut self, text: String)
        ensures
            final(self)@ == old(self)@.on_sequence(text@),
            old(self)@.wf() ==> final(self)@.wf(),
    {
        self.sequence.valid = true;
        if text.as_str().unicode_len() == 0 || parse_u16(text.as_str()).is_some() {
            self.sequence.value = text;
        }
    }

    /// Sets the duplicate flags of every slot from the pool as it stands.
    pub fn check_for_duplicate(&mut self)
        ensures
            final(self)@ == old(self)@.rechecked(),
    {
        check_for_duplicate(&mut self.spending_keys, &mut self.recovery_keys);
        proof {
            let pool = flagged(old(self)@.pool());
            let n = old(self)@.spending_keys.len() as int;
            assert(pool_of(self.spending_keys@, self.recovery_keys@) == pool);
            assert(self@.spending_keys =~= pool.take(n)) by {
                assert forall|i: int| 0 <= i < n implies self@.spending_keys[i] == pool[i] by {
                    assert(pool_of(self.spending_keys@, self.recovery_keys@)[i]
                        == self@.spending_keys[i]);
                }
            }
            assert(self@.recovery_keys =~= pool.skip(n)) by {
                assert forall|i: int| 0 <= i < self@.recovery_keys.len() implies self@.recovery_keys[i]
                    == pool[i + n] by {
                    assert(pool_of(self.spending_keys@, self.recovery_keys@)[i + n]
                        == self@.recovery_keys[i]);
                }
            }
        }
    }

    /// Adds an empty slot to a set, and raises the threshold of the set.
    pub fn add_key(&mut self, is_recovery: bool)
        ensures
            final(self)@ == old(self)@.on_add(is_recovery),
            old(self)@.wf() ==> final(self)@.wf(),
    {
        if is_recovery {
            self.recovery_keys.push(DescriptorKey::default());
            if self.recovery_threshold < self.recovery_keys.len() {
                self.recovery_threshold += 1;
            }
        } else {
            self.spending_keys.push(DescriptorKey::default());
            if self.spending_threshold < self.spending_keys.len() {
                self.spending_threshold += 1;
            }
        }
        proof {
            let grown = old(self)@.with_set(
                is_recovery,
                old(self)@.set(is_recovery).push(empty_slot()),
                if old(self)@.threshold(is_recovery) <= old(self)@.set(is_recovery).len() {
                    (old(self)@.threshold(is_recovery) + 1) as usize
                } else {
                    old(self)@.threshold(is_recovery)
                },
            );
            assert(self@.spending_keys =~= grown.spending_keys);
            assert(self@.recovery_keys =~= grown.recovery_keys);
            assert(self@ == grown);
            if old(self)@.wf() {
                lemma_rechecked_is_wf(grown);
            }
        }
        self.check_for_duplicate();
    }

    /// Gives every slot that holds a key of the device the alias.
    pub fn edit_alias_for_key_with_same_fingerprint(&mut self, name: &String, fingerprint: Fingerprint)
        ensures
            final(self)@ == (DefineDescriptorView {
                spending_keys: renamed(old(self)@.spending_keys, name@, fingerprint),
                recovery_keys: renamed(old(self)@.recovery_keys, name@, fingerprint),
                ..old(self)@
            }),
    {
        edit_alias_for_key_with_same_fingerprint(&mut self.spending_keys, name, fingerprint);
        edit_alias_for_key_with_same_fingerprint(&mut self.recovery_keys, name, fingerprint);
    }

    /// Puts a confirmed import into its slot.
    pub fn set_key(&mut self, is_recovery: bool, i: usize, name: String, key: ExtendedKey)
        ensures
            final(self)@ == old(self)@.on_edited(is_recovery, i, name@, key@),
            old(self)@.wf() ==> final(self)@.wf(),
    {
        self.edit_alias_for_key_with_same_fingerprint(&name, key.fingerprint);
        let valid = check_key_network(&key, self.network);
        let ghost named = DefineDescriptorView { modal: None, ..self@ };
        let ghost fresh = filled(named.set(is_recovery)[i as int], name@, key@, self.network);
        if is_recovery {
            if i < self.recovery_keys.len() {
                self.recovery_keys[i].name = name;
                self.recovery_keys[i].key = Some(key);
                self.recovery_keys[i].valid = valid;
                proof {
                    assert(self@.recovery_keys =~= named.recovery_keys.update(i as int, fresh));
                    assert(self@.spending_keys =~= named.spending_keys);
                }
            }
        } else {
            if i < self.spending_keys.len() {
                self.spending_keys[i].name = name;
                self.spending_keys[i].key = Some(key);
                self.spending_keys[i].valid = valid;
                proof {
                    assert(self@.spending_keys =~= named.spending_keys.update(i as int, fresh));
                    assert(self@.recovery_keys =~= named.recovery_keys);
                }
            }
        }
        self.modal = None;
        proof {
            if old(self)@.wf() {
                lemma_rechecked_is_wf(self@);
            }
        }
        self.check_for_duplicate();
    }

    /// Removes a slot from a set.
    pub fn delete_key(&mut self, is_recovery: bool, i: usize)
        ensures
            final(self)@ == old(self)@.on_delete(is_recovery, i),
            old(self)@.wf() ==> final(self)@.wf(),
    {
        if is_recovery {
            if i >= self.recovery_keys.len() {
                return ;
            }
            self.recovery_keys.remove(i);
            if self.recovery_threshold > self.recovery_keys.len() {
                self.recovery_threshold -= 1;
            }
            proof {
                assert(self@.recovery_keys =~= old(self)@.recovery_keys.remove(i as int));
                assert(self@.spending_keys =~= old(self)@.spending_keys);
            }
        } else {
            if i >= self.spending_keys.len() {
                return ;
            }
            self.spending_keys.remove(i);
            if self.spending_threshold > self.spending_keys.len() {
                self.spending_threshold -= 1;
            }
            proof {
                assert(self@.spending_keys =~= old(self)@.spending_keys.remove(i as int));
                assert(self@.recovery_keys =~= old(self)@.recovery_keys);
            }
        }
        proof {
            if old(self)@.wf() {
                lemma_rechecked_is_wf(self@);
            }
        }
        self.check_for_duplicate();
    }
}

/// Whether `modal` is a newly opened import for the slot at place `i` of a
/// set: it starts from the alias and the key of the slot, and knows the
/// accounts and the aliases in use in the pool.
pub open spec fn opens(
    state: DefineDescriptorView,
    is_recovery: bool,
    i: usize,
    modal: EditXpubModalView,
) -> bool {
    let slot = state.set(is_recovery)[i as int];
    &&& modal == (EditXpubModalView {
        is_recovery: is_recovery,
        key_index: i,
        network: state.network,
        error: None,
        processing: false,
        keys_aliases: modal.keys_aliases,
        account_indexes: modal.account_indexes,
        form_name: ValueView { value: slot.name, valid: true },
        form_xpub: ValueView {
            value: match slot.key {
                Some(key) => key.text,
                None => Seq::empty(),
            },
            valid: true,
        },
        edit_name: false,
        chosen_hw: None,
        hws: Seq::empty(),
        chosen_signer: match slot.key {
            Some(key) => key.fingerprint == state.signer.spec_fingerprint(),
            None => false,
        },
    })
    &&& forall|fingerprint: Fingerprint|
        alias_get(modal.keys_aliases, fingerprint) == #[trigger] alias_of(
            state.pool(),
            fingerprint,
        )
    &&& forall|fingerprint: Fingerprint|
        map_get(modal.account_indexes, fingerprint) == #[trigger] highest_account(
            state.pool(),
            fingerprint,
        )
}

/// Whether `post` and `command` are what the open import, if there is one,
/// makes of an event that the step hands on to it.
pub open spec fn handed_on(
    pre: DefineDescriptorView,
    message: Message,
    post: DefineDescriptorView,
    command: Command,
) -> bool {
    match pre.modal {
        Some(modal) => post.modal is Some && post == (DefineDescriptorView {
            modal: post.modal,
            ..pre
        }) && EditXpubModal::updated(modal, message, pre.signer, post.modal->0, command),
        None => post == pre && command is Nothing,
    }
}

/// Whether `post` and `command` are what an event makes of the state `pre`.
/// Every event clears the error of the last assembly first.
pub open spec fn updated(
    pre: DefineDescriptorView,
    message: Message,
    post: DefineDescriptorView,
    command: Command,
) -> bool {
    let pre = DefineDescriptorView { error: None, ..pre };
    match message {
        Message::Close => post == (DefineDescriptorView { modal: None, ..pre }) && command
            is Nothing,
        Message::Network(network, taken) => post == pre.on_network(network, taken) && command
            is Nothing,
        Message::DefineDescriptor(Event::ThresholdEdited(is_recovery, value)) => post
            == pre.on_threshold(is_recovery, value) && command is Nothing,
        Message::DefineDescriptor(Event::SequenceEdited(text)) => post == pre.on_sequence(text@)
            && command is Nothing,
        Message::DefineDescriptor(Event::AddKey(is_recovery)) => post == pre.on_add(is_recovery)
            && command is Nothing,
        Message::DefineDescriptor(Event::Key(_, _, DefineKey::Clipboard(key))) => post == pre && (
        match command {
            Command::Perform(Message::Clibpboard(text)) => text@ == key@,
            _ => false,
        }),
        Message::DefineDescriptor(Event::Key(is_recovery, i, DefineKey::Edited(name, key))) => post
            == pre.on_edited(is_recovery, i, name@, key@) && command is Nothing,
        Message::DefineDescriptor(Event::Key(is_recovery, i, DefineKey::Edit)) => if i
            < pre.set(is_recovery).len() {
            post.modal is Some && post == (DefineDescriptorView { modal: post.modal, ..pre })
                && opens(pre, is_recovery, i, post.modal->0) && command is ListHardwareWallets
        } else {
            post == pre && command is Nothing
        },
        Message::DefineDescriptor(Event::Key(is_recovery, i, DefineKey::Delete)) => post
            == pre.on_delete(is_recovery, i) && command is Nothing,
        _ => handed_on(pre, message, post, command),
    }
}

impl DefineDescriptor {
    /// The highest account in use, per device.
    pub fn fingerprint_account_index_mappping(&self) -> (mapping: HashMap<
        Fingerprint,
        ChildNumber,
    >)
        ensures
            forall|fingerprint: Fingerprint|
                map_get(mapping@, fingerprint) == #[trigger] highest_account(
                    self@.pool(),
                    fingerprint,
                ),
    {
        let pool = gather(&self.spending_keys, &self.recovery_keys);
        fingerprint_account_index_mappping(&pool)
    }

    /// The aliases in use, per device.
    pub fn keys_aliases(&self) -> (aliases: HashMap<Fingerprint, String>)
        ensures
            forall|fingerprint: Fingerprint|
                alias_get(aliases@, fingerprint) == #[trigger] alias_of(
                    self@.pool(),
                    fingerprint,
                ),
    {
        let pool = gather(&self.spending_keys, &self.recovery_keys);
        keys_aliases(&pool)
    }

    /// Opens the import for the slot at place `i` of a set. Does nothing for
    /// a place outside the set.
    pub fn edit_key(&mut self, is_recovery: bool, i: usize) -> (command: Command)
        ensures
            if i < old(self)@.set(is_recovery).len() {
                final(self)@.modal is Some && final(self)@ == (DefineDescriptorView {
                    modal: final(self)@.modal,
                    ..old(self)@
                }) && opens(old(self)@, is_recovery, i, final(self)@.modal->0) && command
                    is ListHardwareWallets
            } else {
                final(self)@ == old(self)@ && command is Nothing
            },
    {
        let slots = if is_recovery {
            &self.recovery_keys
        } else {
            &self.spending_keys
        };
        if i >= slots.len() {
            return Command::Nothing;
        }
        let slot = &slots[i];
        proof {
            assert(old(self)@.set(is_recovery)[i as int] == slot@);
        }
        let modal = EditXpubModal::new(
            slot.name.clone(),
            slot.key.as_ref(),
            i,
            is_recovery,
            self.network,
            self.fingerprint_account_index_mappping(),
            self.keys_aliases(),
            &self.signer,
        );
        let command = modal.load();
        self.modal = Some(modal);
        command
    }

    /// Takes an event and says what is to be done.
    pub fn update(&mut self, message: Message) -> (command: Command)
        ensures
            updated(old(self)@, message, final(self)@, command),
            old(self)@.wf() ==> final(self)@.wf(),
    {
        self.error = None;
        match message {
            Message::Close => {
                self.modal = None;
            },
            Message::Network(network, taken) => {
                self.set_network(network, taken);
            },
            Message::DefineDescriptor(Event::ThresholdEdited(is_recovery, value)) => {
                self.set_threshold(is_recovery, value);
            },
            Message::DefineDescriptor(Event::SequenceEdited(text)) => {
                self.edit_sequence(text);
            },
            Message::DefineDescriptor(Event::AddKey(is_recovery)) => {
                self.add_key(is_recovery);
            },
            Message::DefineDescriptor(Event::Key(_, _, DefineKey::Clipboard(key))) => {
                return Command::Perform(Message::Clibpboard(key));
            },
            Message::DefineDescriptor(Event::Key(is_recovery, i, DefineKey::Edited(name, key))) => {
                self.set_key(is_recovery, i, name, key);
            },
            Message::DefineDescriptor(Event::Key(is_recovery, i, DefineKey::Edit)) => {
                return self.edit_key(is_recovery, i);
            },
            Message::DefineDescriptor(Event::Key(is_recovery, i, DefineKey::Delete)) => {
                self.delete_key(is_recovery, i);
            },
            message => {
                if let Some(modal) = &mut self.modal {
                    return modal.update(message, &self.signer);
                }
            },
        }
        Command::Nothing
    }

    /// What a click outside of the open import amounts to: the import is
    /// closed, unless a device is at work for it.
    pub fn on_blur(&self) -> (message: Option<Message>)
        ensures
            message == (match self@.modal {
                Some(modal) => if modal.processing {
                    None
                } else {
                    Some(Message::Close)
                },
                None => None,
            }),
    {
        match &self.modal {
            Some(modal) => if modal.processing() {
                None
            } else {
                Some(Message::Close)
            },
            None => None,
        }
    }

    /// Takes the network of the context, now that the data directory is
    /// known. The flag tells whether that directory already holds a wallet
    /// for the network.
    pub fn load_context(&mut self, ctx: &Context, taken: bool)
        ensures
            final(self)@ == (DefineDescriptorView { data_dir_set: true, ..old(self)@ }).on_network(
                ctx.network,
                taken,
            ),
            old(self)@.wf() ==> final(self)@.wf(),
    {
        self.data_dir_set = true;
        self.set_network(ctx.network, taken);
    }
}

/// Whether a threshold suits the keys that enter a path: a path of one key
/// has no threshold, a path of several needs one between one and their
/// number.
pub open spec fn keys_fit(threshold: usize, keys: nat) -> bool {
    keys == 1 || 1 <= threshold <= keys
}

/// The path that a set makes of the keys it gives: one key signs alone,
/// several sign under the threshold of the set.
pub open spec fn path_of(keys: Seq<Seq<char>>, threshold: usize) -> PolicyPathView {
    if keys.len() == 1 {
        PolicyPathView::Single(keys[0])
    } else {
        PolicyPathView::Multi(threshold, keys)
    }
}

impl DefineDescriptorView {
    /// Why the form is refused before any policy is made of it, if it is:
    /// the network is taken, the timelock field holds no 16-bit unsigned
    /// integer, a set has no key to give, a threshold exceeds the slots of
    /// its set, or a threshold does not suit the keys that its set gives.
    /// The first of them that holds is the one reported.
    pub open spec fn refusal(self) -> Option<AssemblyErrorView> {
        if !self.network_valid {
            Some(AssemblyErrorView::NetworkInvalid)
        } else if spec_parse_u16(self.sequence.value) is None {
            Some(AssemblyErrorView::InvalidTimelock)
        } else if policy_keys(self.spending_keys).len() == 0 || policy_keys(
            self.recovery_keys,
        ).len() == 0 {
            Some(AssemblyErrorView::EmptyKeySet)
        } else if self.spending_threshold > self.spending_keys.len() || self.recovery_threshold
            > self.recovery_keys.len() || !keys_fit(
            self.spending_threshold,
            policy_keys(self.spending_keys).len(),
        ) || !keys_fit(self.recovery_threshold, policy_keys(self.recovery_keys).len()) {
            Some(AssemblyErrorView::InvalidThreshold)
        } else {
            None
        }
    }

    /// The policy that the form asks for: the keys of each set in the order
    /// of their slots, each with the receive and change sub-paths, under
    /// the threshold of the set where there are several, and the timelock.
    pub open spec fn request(self) -> PolicyRequestView {
        PolicyRequestView {
            primary: path_of(policy_texts(self.spending_keys), self.spending_threshold),
            recovery: path_of(policy_texts(self.recovery_keys), self.recovery_threshold),
            timelock: spec_parse_u16(self.sequence.value)->0,
        }
    }

    /// What the assembly of the form comes to: the error for which the form
    /// is refused, or what the compilation of its policy comes to.
    pub open spec fn assembly(self) -> Result<Seq<char>, AssemblyErrorView> {
        match self.refusal() {
            Some(refusal) => Err(refusal),
            None => spec_compile(self.request()),
        }
    }

    /// The devices behind the keys of the policy, each with its alias:
    /// those of the primary set, then those of the recovery set.
    pub open spec fn device_aliases(self) -> Seq<(Fingerprint, Seq<char>)> {
        device_aliases(self.spending_keys) + device_aliases(self.recovery_keys)
    }

    /// Whether the software signer holds a key of the policy.
    pub open spec fn signer_is_used(self) -> bool {
        names_device(self.device_aliases(), self.signer.spec_fingerprint())
    }

    /// The state after an assembly ended in `outcome`: a descriptor leaves
    /// the state as it is, the refusal of a field of the form too, and any
    /// other error is kept as the message to show.
    pub open spec fn concluded(self, outcome: Result<Seq<char>, AssemblyErrorView>) -> Self {
        match outcome {
            Ok(_) => self,
            Err(error) => if error.is_validation() {
                self
            } else {
                DefineDescriptorView { error: Some(error.message()), ..self }
            },
        }
    }

    /// The state after the form was assembled: the timelock field is marked
    /// valid exactly when it holds a 16-bit unsigned integer, and the
    /// assembly is concluded.
    pub open spec fn applied(self) -> Self {
        (DefineDescriptorView {
            sequence: ValueView {
                valid: spec_parse_u16(self.sequence.value) is Some,
                ..self.sequence
            },
            ..self
        }).concluded(self.assembly())
    }
}

/// A policy that was assembled.
#[derive(Clone, Debug, PartialEq, Eq)]
pub struct Assembled {
    /// The descriptor, as text.
    pub descriptor: String,
    /// The devices behind the keys of the policy, each with its alias.
    pub keys: Vec<KeySetting>,
    /// Whether the software signer holds a key of the policy.
    pub signer_is_used: bool,
}

/// Whether `outcome` is the outcome of assembling the state: the descriptor
/// that the assembly comes to, with the devices of the policy and the part
/// of the software signer, or the error that it comes to.
pub open spec fn assembled(state: DefineDescriptorView, outcome: Result<Assembled, AssemblyError>) -> bool {
    match state.assembly() {
        Ok(text) => outcome is Ok && outcome->Ok_0.descriptor@ == text && setting_views(
            outcome->Ok_0.keys@,
        ) == state.device_aliases() && outcome->Ok_0.signer_is_used == state.signer_is_used(),
        Err(error) => outcome is Err && outcome->Err_0@ == error,
    }
}

fn make_path(keys: Vec<String>, threshold: usize) -> (path: PolicyPath)
    ensures
        path@ == path_of(text_views(keys@), threshold),
{
    if keys.len() == 1 {
        let mut keys = keys;
        match keys.pop() {
            Some(key) => PolicyPath::Single(key),
            None => PolicyPath::Multi(threshold, keys),
        }
    } else {
        PolicyPath::Multi(threshold, keys)
    }
}

impl DefineDescriptor {
    /// Says which policy the form asks for, or why the form is refused.
    pub fn request(&self) -> (request: Result<PolicyRequest, AssemblyError>)
        ensures
            match self@.refusal() {
                Some(refusal) => request is Err && request->Err_0@ == refusal,
                None => request is Ok && request->Ok_0@ == self@.request(),
            },
    {
        if !self.network_valid {
            return Err(AssemblyError::NetworkInvalid);
        }
        let timelock = match parse_u16(self.sequence.value.as_str()) {
            Some(timelock) => timelock,
            None => {
                return Err(AssemblyError::InvalidTimelock);
            },
        };
        let primary = collect_policy_keys(&self.spending_keys);
        let recovery = collect_policy_keys(&self.recovery_keys);
        if primary.len() == 0 || recovery.len() == 0 {
            return Err(AssemblyError::EmptyKeySet);
        }
        if self.spending_threshold > self.spending_keys.len() || self.recovery_threshold
            > self.recovery_keys.len() {
            return Err(AssemblyError::InvalidThreshold);
        }
        if primary.len() != 1 && !(1 <= self.spending_threshold && self.spending_threshold
            <= primary.len()) {
            return Err(AssemblyError::InvalidThreshold);
        }
        if recovery.len() != 1 && !(1 <= self.recovery_threshold && self.recovery_threshold
            <= recovery.len()) {
            return Err(AssemblyError::InvalidThreshold);
        }
        Ok(
            PolicyRequest {
                primary: make_path(primary, self.spending_threshold),
                recovery: make_path(recovery, self.recovery_threshold),
                timelock,
            },
        )
    }

    /// Lists the devices behind the keys of the policy, and tells whether
    /// the software signer is one of them.
    pub fn policy_devices(&self) -> (devices: (Vec<KeySetting>, bool))
        ensures
            setting_views(devices.0@) == self@.device_aliases(),
            devices.1 == self@.signer_is_used(),
    {
        let mut keys: Vec<KeySetting> = Vec::new();
        let fingerprint = self.signer.fingerprint();
        let in_primary = push_device_aliases(&mut keys, &self.spending_keys, fingerprint);
        let in_recovery = push_device_aliases(&mut keys, &self.recovery_keys, fingerprint);
        proof {
            lemma_names_device_of_parts(
                device_aliases(self@.spending_keys),
                device_aliases(self@.recovery_keys),
                fingerprint,
            );
            assert(setting_views(Seq::<KeySetting>::empty()) =~= Seq::empty());
            assert(setting_views(keys@) =~= self@.device_aliases());
        }
        (keys, in_primary || in_recovery)
    }

    /// Has the policy of the form compiled, unless the form is refused.
    pub fn compile(&self) -> (outcome: Result<String, AssemblyError>)
        ensures
            outcome_view(outcome) == self@.assembly(),
            outcome is Ok ==> self@.request().timelock != 0,
    {
        match self.request() {
            Ok(request) => compile(&request),
            Err(refusal) => Err(refusal),
        }
    }

    /// Assembles the policy of the form into a descriptor.
    ///
    /// The form is refused, and nothing is compiled, when the network is
    /// taken, the timelock field holds no 16-bit unsigned integer, a set has
    /// no key to give, or a threshold exceeds the slots of its set or does
    /// not suit the keys that the set gives. What passes is handed to the
    /// wallet library: a key that the descriptor library does not read
    /// makes an invalid key, a policy that the wallet library refuses makes
    /// a policy error with its message, and anything else makes the
    /// descriptor that the wallet library compiles.
    pub fn assemble(&self) -> (outcome: Result<Assembled, AssemblyError>)
        ensures
            assembled(self@, outcome),
    {
        match self.compile() {
            Ok(descriptor) => {
                let (keys, signer_is_used) = self.policy_devices();
                Ok(Assembled { descriptor, keys, signer_is_used })
            },
            Err(error) => Err(error),
        }
    }

    /// Ends an assembly: a descriptor goes to the context, together with
    /// the note that the software signer holds a key of it if it does; an
    /// error of the policy is kept as the message to show.
    pub fn conclude(
        &mut self,
        ctx: &mut Context,
        outcome: Result<String, AssemblyError>,
        signer_is_used: bool,
    ) -> (committed: bool)
        ensures
            committed == outcome is Ok,
            final(self)@ == old(self)@.concluded(outcome_view(outcome)),
            final(ctx).network == old(ctx).network,
            final(ctx).keys == old(ctx).keys,
            final(ctx).hws == old(ctx).hws,
            match outcome {
                Ok(descriptor) => final(ctx).descriptor is Some && final(ctx).descriptor->0@
                    == descriptor@ && final(ctx).signer_is_used == (old(ctx).signer_is_used
                    || signer_is_used),
                Err(_) => final(ctx).descriptor == old(ctx).descriptor && final(ctx).signer_is_used
                    == old(ctx).signer_is_used,
            },
    {
        match outcome {
            Ok(descriptor) => {
                ctx.descriptor = Some(descriptor);
                if signer_is_used {
                    ctx.signer_is_used = true;
                }
                true
            },
            Err(error) => {
                if !error.is_validation() {
                    self.error = Some(error.message());
                }
                false
            },
        }
    }

    /// Hands the outcome of the step to the context: the network and the
    /// devices of the policy in any case, the descriptor if the assembly
    /// comes to one. Tells whether it did.
    pub fn apply(&mut self, ctx: &mut Context) -> (committed: bool)
        ensures
            committed == old(self)@.assembly() is Ok,
            final(self)@ == old(self)@.applied(),
            final(ctx).network == old(self).network,
            setting_views(final(ctx).keys@) == old(self)@.device_aliases(),
            final(ctx).hws == old(ctx).hws,
            match old(self)@.assembly() {
                Ok(text) => final(ctx).descriptor is Some && final(ctx).descriptor->0@ == text
                    && final(ctx).signer_is_used == (old(ctx).signer_is_used || old(
                    self,
                )@.signer_is_used()),
                Err(_) => final(ctx).descriptor == old(ctx).descriptor && final(ctx).signer_is_used
                    == old(ctx).signer_is_used,
            },
            old(self)@.wf() ==> final(self)@.wf(),
    {
        ctx.network = self.network;
        let (keys, signer_is_used) = self.policy_devices();
        ctx.keys = keys;
        let outcome = self.compile();
        self.sequence.valid = parse_u16(self.sequence.value.as_str()).is_some();
        self.conclude(ctx, outcome, signer_is_used)
    }
}

/// The keys that a set gives to the policy depend on the keys of its slots
/// alone.
pub proof fn lemma_policy_keys_of_same_keys(a: Seq<SlotView>, b: Seq<SlotView>)
    requires
        a.len() == b.len(),
        forall|i: int| 0 <= i < a.len() ==> (#[trigger] a[i]).key == b[i].key,
    ensures
        policy_keys(a) == policy_keys(b),
    decreases a.len(),
{
    if a.len() > 0 {
        assert forall|i: int| 0 <= i < a.drop_last().len() implies (#[trigger] a.drop_last()[i]).key
            == b.drop_last()[i].key by {
            assert(a.drop_last()[i] == a[i]);
            assert(b.drop_last()[i] == b[i]);
        }
        lemma_policy_keys_of_same_keys(a.drop_last(), b.drop_last());
        assert(a.last().key == b.last().key) by {
            assert(a[a.len() - 1].key == b[a.len() - 1].key);
        }
    }
}

/// Assembly is a function of the form: two forms that agree on whether the
/// network is free, on the number that the timelock field holds, on the
/// number of slots of each set and the keys that each set gives, in their
/// order, and on the two thresholds come to the same descriptor, or to the
/// same error. Aliases, flags, the open import and the software signer
/// have no part in it.
pub proof fn lemma_same_form_same_descriptor(a: DefineDescriptorView, b: DefineDescriptorView)
    requires
        a.network_valid == b.network_valid,
        spec_parse_u16(a.sequence.value) == spec_parse_u16(b.sequence.value),
        a.spending_keys.len() == b.spending_keys.len(),
        a.recovery_keys.len() == b.recovery_keys.len(),
        policy_keys(a.spending_keys) == policy_keys(b.spending_keys),
        policy_keys(a.recovery_keys) == policy_keys(b.recovery_keys),
        a.spending_threshold == b.spending_threshold,
        a.recovery_threshold == b.recovery_threshold,
    ensures
        a.refusal() == b.refusal(),
        a.request() == b.request(),
        a.assembly() == b.assembly(),
{
}

/// Two forms whose slots hold the same keys, slot by slot, and which agree
/// on the thresholds, on the text of the timelock field and on whether the
/// network is free come to the same descriptor, or to the same error.
pub proof fn lemma_same_keys_same_descriptor(a: DefineDescriptorView, b: DefineDescriptorView)
    requires
        a.network_valid == b.network_valid,
        a.sequence.value == b.sequence.value,
        a.spending_keys.len() == b.spending_keys.len(),
        a.recovery_keys.len() == b.recovery_keys.len(),
        forall|i: int|
            0 <= i < a.spending_keys.len() ==> (#[trigger] a.spending_keys[i]).key
                == b.spending_keys[i].key,
        forall|i: int|
            0 <= i < a.recovery_keys.len() ==> (#[trigger] a.recovery_keys[i]).key
                == b.recovery_keys[i].key,
        a.spending_threshold == b.spending_threshold,
        a.recovery_threshold == b.recovery_threshold,
    ensures
        a.assembly() == b.assembly(),
{
    lemma_policy_keys_of_same_keys(a.spending_keys, b.spending_keys);
    lemma_policy_keys_of_same_keys(a.recovery_keys, b.recovery_keys);
    lemma_same_form_same_descriptor(a, b);
}

/// No assembly comes to a descriptor when a set has no key to give, when
/// the timelock field does not hold a 16-bit unsigned integer, or when a
/// threshold exceeds the slots of its set.
pub proof fn lemma_refused_form_has_no_descriptor(state: DefineDescriptorView)
    requires
        policy_keys(state.spending_keys).len() == 0 || policy_keys(state.recovery_keys).len() == 0
            || spec_parse_u16(state.sequence.value) is None || state.spending_threshold
            > state.spending_keys.len() || state.recovery_threshold > state.recovery_keys.len(),
    ensures
        state.assembly() is Err,
        state.refusal() is Some,
{
}

/// No assembly comes to a descriptor either when a set gives several keys
/// and its threshold is zero or exceeds their number.
pub proof fn lemma_unfit_policy_has_no_descriptor(state: DefineDescriptorView)
    requires
        (policy_keys(state.spending_keys).len() > 1 && !keys_fit(
            state.spending_threshold,
            policy_keys(state.spending_keys).len(),
        )) || (policy_keys(state.recovery_keys).len() > 1 && !keys_fit(
            state.recovery_threshold,
            policy_keys(state.recovery_keys).len(),
        )),
    ensures
        state.assembly() is Err,
{
}

} // verus!
