//! The steps that follow the assembly: registering the descriptor on the
//! signing devices, and keeping a copy of it.

use vstd::prelude::*;
use std::collections::HashSet;
use crate::command::Command;
use crate::context::Context;
use crate::hw::{DeviceKind, HardwareWallet, position, spec_position};
use crate::message::{Error, Message};
use crate::path::Fingerprint;

verus! {

/// A device that registered the descriptor: its fingerprint, its kind, and
/// the token it acknowledged with, if it gives one.
pub type Registration = (Fingerprint, DeviceKind, Option<[u8; 32]>);

/// The state of the step that registers the descriptor.
pub struct RegisterDescriptor {
    /// The descriptor to register.
    pub descriptor: Option<String>,
    /// Whether a device was asked to register and has not answered yet.
    pub processing: bool,
    /// The place of the device that was asked.
    pub chosen_hw: Option<usize>,
    pub hws: Vec<HardwareWallet>,
    /// The devices that registered, in the order in which they did.
    pub hmacs: Vec<Registration>,
    /// The fingerprints of the devices that registered.
    pub registered: HashSet<Fingerprint>,
    pub error: Option<Error>,
    /// Whether the user says that the registration is done.
    pub done: bool,
}

pub struct RegisterDescriptorView {
    pub descriptor: Option<Seq<char>>,
    pub processing: bool,
    pub chosen_hw: Option<usize>,
    pub hws: Seq<HardwareWallet>,
    pub hmacs: Seq<Registration>,
    pub registered: Set<Fingerprint>,
    pub error: Option<Seq<char>>,
    pub done: bool,
}

impl View for RegisterDescriptor {
    type V = RegisterDescriptorView;

    open spec fn view(&self) -> RegisterDescriptorView {
        RegisterDescriptorView {
            descriptor: match self.descriptor {
                Some(descriptor) => Some(descriptor@),
                None => None,
            },
            processing: self.processing,
            chosen_hw: self.chosen_hw,
            hws: self.hws@,
            hmacs: self.hmacs@,
            registered: self.registered@,
            error: match self.error {
                Some(error) => Some(error.message@),
                None => None,
            },
            done: self.done,
        }
    }
}

/// Whether a device with this fingerprint is among those that registered.
pub open spec fn listed(hmacs: Seq<Registration>, fingerprint: Fingerprint) -> bool {
    exists|i: int| 0 <= i < hmacs.len() && (#[trigger] hmacs[i]).0 == fingerprint
}

/// The name under which the policy is registered on a device.
pub open spec fn wallet_name() -> Seq<char> {
    "Liana"@
}

impl RegisterDescriptorView {
    /// The invariant of the step: the registered fingerprints are those of
    /// the devices that registered.
    pub open spec fn wf(self) -> bool {
        forall|fingerprint: Fingerprint|
            self.registered.contains(fingerprint) <==> listed(self.hmacs, fingerprint)
    }

    /// The device that a choice of the device at place `i` asks to
    /// register: none while a device is at work, without a descriptor, for
    /// a place that is not in the list, for a device that is not supported,
    /// and for a device that has registered already.
    pub open spec fn request_for(self, i: usize) -> Option<Fingerprint> {
        if !self.processing && self.descriptor is Some && i < self.hws.len() {
            match self.hws[i as int] {
                HardwareWallet::Supported { fingerprint, .. } => if self.registered.contains(
                    fingerprint,
                ) {
                    None
                } else {
                    Some(fingerprint)
                },
                HardwareWallet::Unsupported { .. } => None,
            }
        } else {
            None
        }
    }

    /// The state after a device was chosen.
    pub open spec fn selected(self, i: usize) -> Self {
        if self.request_for(i) is Some {
            RegisterDescriptorView { chosen_hw: Some(i), processing: true, error: None, ..self }
        } else {
            self
        }
    }

    /// The state after a device answered. A device that registered joins
    /// the registered ones, if it is still in the list; an error is kept,
    /// and who has registered stays.
    pub open spec fn answered(
        self,
        answer: Result<(Fingerprint, Option<[u8; 32]>), Seq<char>>,
    ) -> Self {
        let idle = RegisterDescriptorView { processing: false, chosen_hw: None, ..self };
        match answer {
            Ok((fingerprint, token)) => match spec_position(self.hws, fingerprint) {
                Some(i) => RegisterDescriptorView {
                    registered: self.registered.insert(fingerprint),
                    hmacs: self.hmacs.push((fingerprint, self.hws[i as int].spec_kind(), token)),
                    ..idle
                },
                None => idle,
            },
            Err(message) => RegisterDescriptorView { error: Some(message), ..idle },
        }
    }

    /// What an event makes of the state.
    pub open spec fn spec_update(self, message: Message) -> Self {
        match message {
            Message::Select(i) => self.selected(i),
            Message::WalletRegistered(answer) => self.answered(
                match answer {
                    Ok(registered) => Ok(registered),
                    Err(error) => Err(error.message@),
                },
            ),
            Message::ConnectedHardwareWallets(hws) => RegisterDescriptorView { hws: hws@, ..self },
            Message::Reload => RegisterDescriptorView { hws: Seq::empty(), ..self },
            Message::UserActionDone(done) => RegisterDescriptorView { done: done, ..self },
            _ => self,
        }
    }
}

/// Whether a command asks the device at place `i` to register a descriptor
/// under the name of the wallet.
pub open spec fn asks_registration(
    command: Command,
    i: usize,
    fingerprint: Fingerprint,
    descriptor: Seq<char>,
) -> bool {
    match command {
        Command::RegisterWallet { device, fingerprint: f, name, descriptor: d } => device == i && f
            == fingerprint && name@ == wallet_name() && d@ == descriptor,
        _ => false,
    }
}

/// Whether `post` and `command` are what an event makes of the state `pre`.
///
/// A device is asked to register only by `Select`, and only where
/// `request_for` names one; the list of devices is asked for only by
/// `Reload`.
pub open spec fn updated(
    pre: RegisterDescriptorView,
    message: Message,
    post: RegisterDescriptorView,
    command: Command,
) -> bool {
    &&& post == pre.spec_update(message)
    &&& match message {
        Message::Select(i) => match pre.request_for(i) {
            Some(fingerprint) => asks_registration(command, i, fingerprint, pre.descriptor->0),
            None => command is Nothing,
        },
        Message::Reload => command is ListHardwareWallets,
        _ => command is Nothing,
    }
}

impl Default for RegisterDescriptor {
    /// The step at its start: no descriptor, no device, nothing registered.
    fn default() -> (step: RegisterDescriptor)
        ensures
            step@ == (RegisterDescriptorView {
                descriptor: None,
                processing: false,
                chosen_hw: None,
                hws: Seq::empty(),
                hmacs: Seq::empty(),
                registered: Set::empty(),
                error: None,
                done: false,
            }),
            step@.wf(),
    {
        RegisterDescriptor {
            descriptor: None,
            processing: false,
            chosen_hw: None,
            hws: Vec::new(),
            hmacs: Vec::new(),
            registered: HashSet::new(),
            error: None,
            done: false,
        }
    }
}

impl RegisterDescriptor {
    /// Takes the descriptor of the context.
    pub fn load_context(&mut self, ctx: &Context)
        ensures
            final(self)@ == (RegisterDescriptorView {
                descriptor: match ctx.descriptor {
                    Some(descriptor) => Some(descriptor@),
                    None => None,
                },
                ..old(self)@
            }),
    {
        self.descriptor = match &ctx.descriptor {
            Some(descriptor) => Some(descriptor.clone()),
            None => None,
        };
    }

    /// What is to be done when the step opens: list the devices.
    pub fn load(&self) -> (command: Command)
        ensures
            command is ListHardwareWallets,
    {
        Command::ListHardwareWallets
    }

    /// Chooses the device at place `i` and asks it to register the
    /// descriptor. Does nothing where no request is due.
    pub fn select(&mut self, i: usize) -> (command: Command)
        ensures
            final(self)@ == old(self)@.selected(i),
            match old(self)@.request_for(i) {
                Some(fingerprint) => asks_registration(
                    command,
                    i,
                    fingerprint,
                    old(self)@.descriptor->0,
                ),
                None => command is Nothing,
            },
    {
        if self.processing || i >= self.hws.len() {
            return Command::Nothing;
        }
        let descriptor = match &self.descriptor {
            Some(descriptor) => descriptor.clone(),
            None => {
                return Command::Nothing;
            },
        };
        if let HardwareWallet::Supported { fingerprint, .. } = self.hws[i] {
            if !self.registered.contains(&fingerprint) {
                self.chosen_hw = Some(i);
                self.processing = true;
                self.error = None;
                return Command::RegisterWallet {
                    device: i,
                    fingerprint,
                    name: "Liana".to_owned(),
                    descriptor,
                };
            }
        }
        Command::Nothing
    }

    /// Takes the answer of the device that was asked to register.
    pub fn registered(&mut self, answer: Result<(Fingerprint, Option<[u8; 32]>), Error>)
        ensures
            final(self)@ == old(self)@.answered(
                match answer {
                    Ok(registered) => Ok(registered),
                    Err(error) => Err(error.message@),
                },
            ),
            old(self)@.wf() ==> final(self)@.wf(),
    {
        self.processing = false;
        self.chosen_hw = None;
        match answer {
            Ok((fingerprint, token)) => {
                if let Some(i) = position(&self.hws, fingerprint) {
                    self.registered.insert(fingerprint);
                    self.hmacs.push((fingerprint, self.hws[i].kind(), token));
                    proof {
                        if old(self)@.wf() {
                            let before = old(self)@.hmacs;
                            let after = self@.hmacs;
                            assert(after[before.len() as int].0 == fingerprint);
                            assert forall|f: Fingerprint|
                                self@.registered.contains(f) <==> listed(after, f) by {
                                if listed(before, f) {
                                    let w = choose|w: int|
                                        0 <= w < before.len() && (#[trigger] before[w]).0 == f;
                                    assert(after[w].0 == f);
                                }
                                if listed(after, f) && f != fingerprint {
                                    let w = choose|w: int|
                                        0 <= w < after.len() && (#[trigger] after[w]).0 == f;
                                    assert(before[w].0 == f);
                                }
                            }
                        }
                    }
                }
            },
            Err(error) => {
                self.error = Some(error);
            },
        }
    }

    /// Takes an event and says what is to be done.
    pub fn update(&mut self, message: Message) -> (command: Command)
        ensures
            updated(old(self)@, message, final(self)@, command),
            old(self)@.wf() ==> final(self)@.wf(),
    {
        match message {
            Message::Select(i) => {
                return self.select(i);
            },
            Message::WalletRegistered(answer) => {
                self.registered(answer);
            },
            Message::ConnectedHardwareWallets(hws) => {
                self.hws = hws;
            },
            Message::Reload => {
                self.hws = Vec::new();
                return self.load();
            },
            Message::UserActionDone(done) => {
                self.done = done;
            },
            _ => {},
        }
        Command::Nothing
    }

    /// Hands the outcome of the step to the context: the devices that
    /// registered join its list, each with its kind first.
    pub fn apply(&self, ctx: &mut Context) -> (committed: bool)
        ensures
            committed,
            final(ctx).network == old(ctx).network,
            final(ctx).keys == old(ctx).keys,
            final(ctx).descriptor == old(ctx).descriptor,
            final(ctx).signer_is_used == old(ctx).signer_is_used,
            final(ctx).hws@ == old(ctx).hws@ + self.hmacs@.map_values(
                |r: Registration| (r.1, r.0, r.2),
            ),
    {
        let ghost listed = self.hmacs@.map_values(|r: Registration| (r.1, r.0, r.2));
        let mut i: usize = 0;
        while i < self.hmacs.len()
            invariant
                0 <= i <= self.hmacs@.len(),
                listed == self.hmacs@.map_values(|r: Registration| (r.1, r.0, r.2)),
                ctx.network == old(ctx).network,
                ctx.keys == old(ctx).keys,
                ctx.descriptor == old(ctx).descriptor,
                ctx.signer_is_used == old(ctx).signer_is_used,
                ctx.hws@ == old(ctx).hws@ + listed.take(i as int),
            decreases self.hmacs@.len() - i,
        {
            let (fingerprint, kind, token) = self.hmacs[i];
            ctx.hws.push((kind, fingerprint, token));
            proof {
                assert(listed.take(i + 1) =~= listed.take(i as int).push(listed[i as int]));
                assert(ctx.hws@ =~= old(ctx).hws@ + listed.take(i + 1));
            }
            i += 1;
        }
        proof {
            assert(listed.take(self.hmacs@.len() as int) =~= listed);
        }
        true
    }
}

/// Who has registered is touched by one event alone: the answer of a device
/// that registered. Choosing a device that has registered already asks
/// nothing of it and changes nothing, and the answer of a device that
/// failed leaves who has registered as it was.
pub proof fn lemma_registered_devices_stay(
    pre: RegisterDescriptorView,
    message: Message,
    post: RegisterDescriptorView,
    command: Command,
)
    requires
        updated(pre, message, post, command),
    ensures
        match message {
            Message::Select(i) => post.registered == pre.registered && post.hmacs == pre.hmacs && (
            i < pre.hws.len() && pre.hws[i as int].spec_fingerprint() is Some
                && pre.registered.contains(pre.hws[i as int].spec_fingerprint()->0) ==> post == pre
                && command is Nothing),
            Message::WalletRegistered(Err(_)) => post.registered == pre.registered && post.hmacs
                == pre.hmacs,
            Message::WalletRegistered(Ok(_)) => pre.registered.subset_of(post.registered)
                && pre.hmacs.is_prefix_of(post.hmacs),
            _ => post.registered == pre.registered && post.hmacs == pre.hmacs,
        },
        !(command is RegisterWallet) || message is Select,
{
}

/// The state of the step that shows the descriptor for safekeeping.
pub struct BackupDescriptor {
    /// Whether the user says that a copy was made.
    pub done: bool,
    pub descriptor: Option<String>,
}

impl Default for BackupDescriptor {
    fn default() -> (step: BackupDescriptor)
        ensures
            !step.done,
            step.descriptor is None,
    {
        BackupDescriptor { done: false, descriptor: None }
    }
}

impl BackupDescriptor {
    /// Takes an event. There is never anything to be done.
    pub fn update(&mut self, message: Message) -> (command: Command)
        ensures
            command is Nothing,
            final(self).descriptor == old(self).descriptor,
            final(self).done == (match message {
                Message::UserActionDone(done) => done,
                _ => old(self).done,
            }),
    {
        if let Message::UserActionDone(done) = message {
            self.done = done;
        }
        Command::Nothing
    }

    /// Takes the descriptor of the context.
    pub fn load_context(&mut self, ctx: &Context)
        ensures
            final(self).done == old(self).done,
            match ctx.descriptor {
                Some(descriptor) => final(self).descriptor is Some && final(self).descriptor->0@
                    == descriptor@,
                None => final(self).descriptor is None,
            },
    {
        self.descriptor = match &ctx.descriptor {
            Some(descriptor) => Some(descriptor.clone()),
            None => None,
        };
    }
}

} // verus!
