//! The import of one key into one slot.
//!
//! A key comes from a signing device, from the software signer, or from
//! text that is typed or pasted. Whichever way it comes, it ends up as the
//! text of the key field, and that text is what is read when the import is
//! confirmed.

use vstd::prelude::*;
use std::collections::HashMap;
use crate::command::{Command, XpubReply};
use crate::form::{Value, ValueView};
use crate::hw::{HardwareWallet, position, spec_position};
use crate::key::{ExtendedKey, ExtendedKeyView, KeyKind, parsed_key};
use crate::message::{DefineDescriptor, DefineKey, Error, Message};
use crate::network::Network;
use crate::path::{
    ChildNumber,
    Fingerprint,
    generate_derivation_path,
    map_get,
    next_account_index,
    spec_next_account_index,
    standard_path,
};
use crate::signer::Signer;
use crate::slot::alias_get;
use crate::text::{key_text, spec_key_text};

verus! {

/// The state of an import.
pub struct EditXpubModal {
    /// Whether the slot is one of the recovery set.
    pub is_recovery: bool,
    /// The place of the slot in its set.
    pub key_index: usize,
    pub network: Network,
    /// What the device that was asked last reported in place of a key.
    pub error: Option<Error>,
    /// Whether a device was asked for a key and has not answered yet.
    pub processing: bool,
    /// The aliases in use, per device.
    pub keys_aliases: HashMap<Fingerprint, String>,
    /// The highest account in use, per device.
    pub account_indexes: HashMap<Fingerprint, ChildNumber>,
    pub form_name: Value,
    pub form_xpub: Value,
    /// Whether the alias is open for editing.
    pub edit_name: bool,
    /// The place of the chosen device in the list.
    pub chosen_hw: Option<usize>,
    pub hws: Vec<HardwareWallet>,
    /// Whether the key is one of the software signer.
    pub chosen_signer: bool,
}

pub struct EditXpubModalView {
    pub is_recovery: bool,
    pub key_index: usize,
    pub network: Network,
    pub error: Option<Seq<char>>,
    pub processing: bool,
    pub keys_aliases: Map<Fingerprint, String>,
    pub account_indexes: Map<Fingerprint, ChildNumber>,
    pub form_name: ValueView,
    pub form_xpub: ValueView,
    pub edit_name: bool,
    pub chosen_hw: Option<usize>,
    pub hws: Seq<HardwareWallet>,
    pub chosen_signer: bool,
}

impl View for EditXpubModal {
    type V = EditXpubModalView;

    open spec fn view(&self) -> EditXpubModalView {
        EditXpubModalView {
            is_recovery: self.is_recovery,
            key_index: self.key_index,
            network: self.network,
            error: match self.error {
                Some(error) => Some(error.message@),
                None => None,
            },
            processing: self.processing,
            keys_aliases: self.keys_aliases@,
            account_indexes: self.account_indexes@,
            form_name: self.form_name@,
            form_xpub: self.form_xpub@,
            edit_name: self.edit_name,
            chosen_hw: self.chosen_hw,
            hws: self.hws@,
            chosen_signer: self.chosen_signer,
        }
    }
}

impl EditXpubModalView {
    /// The state once a key of the device with this fingerprint has come
    /// in: a device that already goes by an alias keeps it, and the alias is
    /// closed for editing; for a new device the alias is opened.
    pub open spec fn named_after(self, fingerprint: Fingerprint) -> EditXpubModalView {
        match alias_get(self.keys_aliases, fingerprint) {
            Some(alias) => EditXpubModalView {
                form_name: ValueView { value: alias, valid: true },
                edit_name: false,
                ..self
            },
            None => EditXpubModalView { edit_name: true, ..self },
        }
    }

    /// The device and the account that a choice of the device at place `i`
    /// asks a key for: none while a device is at work, for a place that is
    /// not in the list, for a device that is not supported, and for a device
    /// whose accounts are used up.
    pub open spec fn request_for(self, i: usize) -> Option<(Fingerprint, ChildNumber)> {
        if !self.processing && i < self.hws.len() {
            match self.hws[i as int] {
                HardwareWallet::Supported { fingerprint, .. } => match spec_next_account_index(
                    map_get(self.account_indexes, fingerprint),
                ) {
                    Some(account) => Some((fingerprint, account)),
                    None => None,
                },
                HardwareWallet::Unsupported { .. } => None,
            }
        } else {
            None
        }
    }

    /// The state after a device was chosen.
    pub open spec fn selected(self, i: usize) -> EditXpubModalView {
        if self.request_for(i) is Some {
            EditXpubModalView { chosen_hw: Some(i), processing: true, ..self }
        } else {
            self
        }
    }

    /// The state after the list of devices came in: the device of the key
    /// in the key field, if that text is a key, is the chosen one.
    pub open spec fn connected(self, hws: Seq<HardwareWallet>) -> EditXpubModalView {
        EditXpubModalView {
            hws: hws,
            chosen_hw: match parsed_key(self.form_xpub.value) {
                Some(key) => spec_position(hws, key.fingerprint),
                None => self.chosen_hw,
            },
            ..self
        }
    }

    /// The state after the software signer gave the extended key `xpub` for
    /// the account.
    pub open spec fn signed_by(
        self,
        fingerprint: Fingerprint,
        account: ChildNumber,
        xpub: Seq<char>,
    ) -> EditXpubModalView {
        let form_xpub = ValueView {
            value: spec_key_text(fingerprint, standard_path(self.network, account), xpub),
            valid: true,
        };
        match alias_get(self.keys_aliases, fingerprint) {
            Some(alias) => EditXpubModalView {
                chosen_hw: None,
                chosen_signer: true,
                form_xpub: form_xpub,
                form_name: ValueView { value: alias, valid: true },
                edit_name: false,
                ..self
            },
            None => EditXpubModalView {
                chosen_hw: None,
                chosen_signer: true,
                form_xpub: form_xpub,
                form_name: ValueView { value: Seq::empty(), valid: self.form_name.valid },
                edit_name: true,
                ..self
            },
        }
    }

    /// The state after the software signer was chosen: it gives the key of
    /// its next account, unless its accounts are used up.
    pub open spec fn signed(self, signer: Signer) -> EditXpubModalView {
        match spec_next_account_index(map_get(self.account_indexes, signer.spec_fingerprint())) {
            Some(account) => self.signed_by(
                signer.spec_fingerprint(),
                account,
                signer.spec_xpub_at(standard_path(self.network, account)),
            ),
            None => self,
        }
    }

    /// The state after a device answered.
    pub open spec fn imported(self, answer: Result<ExtendedKeyView, Seq<char>>) -> EditXpubModalView {
        match answer {
            Ok(key) => EditXpubModalView {
                processing: false,
                chosen_signer: false,
                form_xpub: ValueView { value: key.text, valid: true },
                error: None,
                ..self.named_after(key.fingerprint)
            },
            Err(message) => EditXpubModalView {
                processing: false,
                chosen_hw: None,
                error: Some(message),
                ..self
            },
        }
    }

    /// The state after the key field was edited: the field is valid if its
    /// text is an extended key with an origin, which is then taken as the
    /// key of a device would be.
    pub open spec fn typed(self, text: Seq<char>) -> EditXpubModalView {
        match parsed_key(text) {
            Some(key) => if key.kind == KeyKind::XPub && key.origin is Some {
                EditXpubModalView {
                    form_xpub: ValueView { value: text, valid: true },
                    ..self.named_after(key.fingerprint)
                }
            } else {
                EditXpubModalView { form_xpub: ValueView { value: text, valid: false }, ..self }
            },
            None => EditXpubModalView { form_xpub: ValueView { value: text, valid: false }, ..self },
        }
    }
}

pub open spec fn answer_view(answer: Result<ExtendedKey, Error>) -> Result<
    ExtendedKeyView,
    Seq<char>,
> {
    match answer {
        Ok(key) => Ok(key@),
        Err(error) => Err(error.message@),
    }
}

/// Whether a command asks the device at place `i` for the key of an account
/// on behalf of an import.
pub open spec fn asks_key(
    command: Command,
    i: usize,
    fingerprint: Fingerprint,
    path: Seq<ChildNumber>,
    reply: XpubReply,
) -> bool {
    match command {
        Command::GetExtendedPubkey { device, fingerprint: f, path: p, reply: r } => device == i && f
            == fingerprint && p@ == path && r == reply,
        _ => false,
    }
}

/// Whether a command delivers the confirmation of an import.
pub open spec fn confirms(
    command: Command,
    is_recovery: bool,
    key_index: usize,
    name: Seq<char>,
    key: ExtendedKeyView,
) -> bool {
    match command {
        Command::Perform(
            Message::DefineDescriptor(
                DefineDescriptor::Key(recovery, index, DefineKey::Edited(alias, imported)),
            ),
        ) => recovery == is_recovery && index == key_index && alias@ == name && imported@ == key,
        _ => false,
    }
}

impl EditXpubModal {
    /// Opens the import for a slot, with the alias and the key that the
    /// slot holds so far.
    pub fn new(
        name: String,
        key: Option<&ExtendedKey>,
        key_index: usize,
        is_recovery: bool,
        network: Network,
        account_indexes: HashMap<Fingerprint, ChildNumber>,
        keys_aliases: HashMap<Fingerprint, String>,
        signer: &Signer,
    ) -> (modal: EditXpubModal)
        ensures
            modal@ == (EditXpubModalView {
                is_recovery: is_recovery,
                key_index: key_index,
                network: network,
                error: None,
                processing: false,
                keys_aliases: keys_aliases@,
                account_indexes: account_indexes@,
                form_name: ValueView { value: name@, valid: true },
                form_xpub: ValueView {
                    value: match key {
                        Some(key) => key.text@,
                        None => Seq::empty(),
                    },
                    valid: true,
                },
                edit_name: false,
                chosen_hw: None,
                hws: Seq::empty(),
                chosen_signer: match key {
                    Some(key) => key.fingerprint == signer.spec_fingerprint(),
                    None => false,
                },
            }),
    {
        let (text, chosen_signer) = match key {
            Some(key) => (key.text.clone(), key.fingerprint == signer.fingerprint()),
            None => (String::new(), false),
        };
        EditXpubModal {
            form_name: Value { valid: true, value: name },
            form_xpub: Value { valid: true, value: text },
            keys_aliases,
            account_indexes,
            is_recovery,
            key_index,
            chosen_hw: None,
            processing: false,
            hws: Vec::new(),
            error: None,
            network,
            edit_name: false,
            chosen_signer,
        }
    }

    /// What is to be done when the import opens: list the devices.
    pub fn load(&self) -> (command: Command)
        ensures
            command is ListHardwareWallets,
    {
        Command::ListHardwareWallets
    }

    /// Whether a device is at work.
    pub fn processing(&self) -> (processing: bool)
        ensures
            processing == self.processing,
    {
        self.processing
    }

    fn name_after(&mut self, fingerprint: Fingerprint)
        ensures
            final(self)@ == old(self)@.named_after(fingerprint),
    {
        match self.keys_aliases.get(&fingerprint) {
            Some(alias) => {
                self.form_name.valid = true;
                self.form_name.value = alias.clone();
                self.edit_name = false;
            },
            None => {
                self.edit_name = true;
            },
        }
    }

    /// Chooses the device at place `i` and asks it for the key of its next
    /// account. Does nothing where no request is due.
    pub fn select(&mut self, i: usize) -> (command: Command)
        ensures
            final(self)@ == old(self)@.selected(i),
            match old(self)@.request_for(i) {
                Some((fingerprint, account)) => asks_key(
                    command,
                    i,
                    fingerprint,
                    standard_path(old(self).network, account),
                    XpubReply::Import,
                ),
                None => command is Nothing,
            },
    {
        if self.processing || i >= self.hws.len() {
            return Command::Nothing;
        }
        if let HardwareWallet::Supported { fingerprint, .. } = self.hws[i] {
            if let Some(account) = next_account_index(&self.account_indexes, fingerprint) {
                self.chosen_hw = Some(i);
                self.processing = true;
                return Command::GetExtendedPubkey {
                    device: i,
                    fingerprint,
                    path: generate_derivation_path(self.network, account),
                    reply: XpubReply::Import,
                };
            }
        }
        Command::Nothing
    }

    /// Takes the list of connected devices.
    pub fn connect(&mut self, hws: Vec<HardwareWallet>)
        ensures
            final(self)@ == old(self)@.connected(hws@),
    {
        self.hws = hws;
        if let Some(key) = ExtendedKey::parse(self.form_xpub.value.as_str()) {
            self.chosen_hw = position(&self.hws, key.fingerprint);
        }
    }

    /// Takes the extended key that the software signer gave for an account.
    pub fn sign(&mut self, fingerprint: Fingerprint, account: ChildNumber, xpub: &str)
        ensures
            final(self)@ == old(self)@.signed_by(fingerprint, account, xpub@),
    {
        self.chosen_hw = None;
        self.chosen_signer = true;
        self.form_xpub.valid = true;
        match self.keys_aliases.get(&fingerprint) {
            Some(alias) => {
                self.form_name.valid = true;
                self.form_name.value = alias.clone();
                self.edit_name = false;
            },
            None => {
                self.edit_name = true;
                self.form_name.value = String::new();
            },
        }
        let path = generate_derivation_path(self.network, account);
        self.form_xpub.value = key_text(fingerprint, &path, xpub);
    }

    /// Has the software signer give the key of its next account. Does
    /// nothing if its accounts are used up.
    pub fn use_hot_signer(&mut self, signer: &Signer)
        ensures
            final(self)@ == old(self)@.signed(*signer),
    {
        let fingerprint = signer.fingerprint();
        if let Some(account) = next_account_index(&self.account_indexes, fingerprint) {
            let path = generate_derivation_path(self.network, account);
            let xpub = signer.get_extended_pubkey(&path);
            self.sign(fingerprint, account, xpub.as_str());
        }
    }

    /// Takes the answer of the device that was asked for a key.
    pub fn import(&mut self, answer: Result<ExtendedKey, Error>)
        ensures
            final(self)@ == old(self)@.imported(answer_view(answer)),
    {
        self.processing = false;
        match answer {
            Ok(key) => {
                self.name_after(key.fingerprint);
                self.chosen_signer = false;
                self.form_xpub.valid = true;
                self.form_xpub.value = key.text;
                self.error = None;
            },
            Err(error) => {
                self.chosen_hw = None;
                self.error = Some(error);
            },
        }
    }

    /// Takes an edit of the key field.
    pub fn edit_xpub(&mut self, text: String)
        ensures
            final(self)@ == old(self)@.typed(text@),
    {
        let mut valid = false;
        if let Some(key) = ExtendedKey::parse(text.as_str()) {
            if key.kind == KeyKind::XPub && key.origin.is_some() {
                valid = true;
                self.name_after(key.fingerprint);
            }
        }
        self.form_xpub.valid = valid;
        self.form_xpub.value = text;
    }

    /// Confirms the import: if the text of the key field is a key, that key
    /// and the alias go to the slot. The state stays as it is.
    pub fn confirm(&self) -> (command: Command)
        ensures
            match parsed_key(self.form_xpub.value@) {
                Some(key) => confirms(
                    command,
                    self.is_recovery,
                    self.key_index,
                    self.form_name.value@,
                    key,
                ),
                None => command is Nothing,
            },
    {
        match ExtendedKey::parse(self.form_xpub.value.as_str()) {
            Some(key) => Command::Perform(
                Message::DefineDescriptor(
                    DefineDescriptor::Key(
                        self.is_recovery,
                        self.key_index,
                        DefineKey::Edited(self.form_name.value.clone(), key),
                    ),
                ),
            ),
            None => Command::Nothing,
        }
    }

    /// What an event makes of the state, with a software signer at hand.
    pub open spec fn spec_update(
        pre: EditXpubModalView,
        message: Message,
        signer: Signer,
    ) -> EditXpubModalView {
        match message {
            Message::Select(i) => pre.selected(i),
            Message::UseHotSigner => pre.signed(signer),
            Message::ConnectedHardwareWallets(hws) => pre.connected(hws@),
            Message::Reload => EditXpubModalView { hws: Seq::empty(), ..pre },
            Message::DefineDescriptor(DefineDescriptor::HWXpubImported(answer)) => pre.imported(
                answer_view(answer),
            ),
            Message::DefineDescriptor(DefineDescriptor::EditName) => EditXpubModalView {
                edit_name: true,
                ..pre
            },
            Message::DefineDescriptor(DefineDescriptor::NameEdited(name)) => EditXpubModalView {
                form_name: ValueView { value: name@, valid: true },
                ..pre
            },
            Message::DefineDescriptor(DefineDescriptor::XPubEdited(text)) => pre.typed(text@),
            _ => pre,
        }
    }

    /// Whether `post` and `command` are what an event makes of the state
    /// `pre`, with a software signer at hand.
    ///
    /// A device is asked for a key only by `Select`, and only where
    /// `request_for` names a request; the list of devices is asked for only
    /// by `Reload`; a confirmation is delivered only by `ConfirmXpub`, and
    /// only if the text of the key field is a key.
    pub open spec fn updated(
        pre: EditXpubModalView,
        message: Message,
        signer: Signer,
        post: EditXpubModalView,
        command: Command,
    ) -> bool {
        &&& post == Self::spec_update(pre, message, signer)
        &&& match message {
            Message::Select(i) => match pre.request_for(i) {
                Some((fingerprint, account)) => asks_key(
                    command,
                    i,
                    fingerprint,
                    standard_path(pre.network, account),
                    XpubReply::Import,
                ),
                None => command is Nothing,
            },
            Message::Reload => command is ListHardwareWallets,
            Message::DefineDescriptor(DefineDescriptor::ConfirmXpub) => match parsed_key(
                pre.form_xpub.value,
            ) {
                Some(key) => confirms(
                    command,
                    pre.is_recovery,
                    pre.key_index,
                    pre.form_name.value,
                    key,
                ),
                None => command is Nothing,
            },
            _ => command is Nothing,
        }
    }

    /// Takes an event and says what is to be done.
    pub fn update(&mut self, message: Message, signer: &Signer) -> (command: Command)
        ensures
            Self::updated(old(self)@, message, *signer, final(self)@, command),
    {
        match message {
            Message::Select(i) => {
                return self.select(i);
            },
            Message::ConnectedHardwareWallets(hws) => {
                self.connect(hws);
            },
            Message::Reload => {
                self.hws = Vec::new();
                return self.load();
            },
            Message::UseHotSigner => {
                self.use_hot_signer(signer);
            },
            Message::DefineDescriptor(DefineDescriptor::HWXpubImported(answer)) => {
                self.import(answer);
            },
            Message::DefineDescriptor(DefineDescriptor::EditName) => {
                self.edit_name = true;
            },
            Message::DefineDescriptor(DefineDescriptor::NameEdited(name)) => {
                self.form_name.valid = true;
                self.form_name.value = name;
            },
            Message::DefineDescriptor(DefineDescriptor::XPubEdited(text)) => {
                self.edit_xpub(text);
            },
            Message::DefineDescriptor(DefineDescriptor::ConfirmXpub) => {
                return self.confirm();
            },
            _ => {},
        }
        Command::Nothing
    }
}

/// What the step asks of whatever is open on top of it.
///
/// What is open need not wait for devices nor take events: unless it says
/// otherwise, no device is ever at work for it, and an event changes
/// nothing in it and gives nothing to do.
pub trait DescriptorKeyModal {
    /// Whether a device is at work, so that the step must not be left.
    fn processing(&self) -> (processing: bool)
        default_ensures
            !processing,
    {
        false
    }

    /// Takes an event and says what is to be done.
    fn update(&mut self, message: Message, signer: &Signer) -> (command: Command) where
        Self: Sized,

        default_ensures
            *final(self) == *old(self),
            command is Nothing,
    {
        Command::Nothing
    }
}

impl DescriptorKeyModal for EditXpubModal {
    fn processing(&self) -> (processing: bool)
        ensures
            processing == self.processing,
    {
        self.processing
    }

    fn update(&mut self, message: Message, signer: &Signer) -> (command: Command)
        ensures
            Self::updated(old(self)@, message, *signer, final(self)@, command),
    {
        EditXpubModal::update(self, message, signer)
    }
}

} // verus!
