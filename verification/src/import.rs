//! The step that takes a descriptor written elsewhere.

use vstd::prelude::*;
use crate::command::Command;
use crate::context::Context;
use crate::form::{Value, ValueView};
use crate::message::{DefineDescriptor, Message};
use crate::network::Network;

verus! {

/// The state of the step.
pub struct ImportDescriptor {
    /// Whether the network may still be chosen in this step.
    pub change_network: bool,
    pub network: Network,
    /// Whether the data directory is free for a wallet of the network.
    pub network_valid: bool,
    /// Whether a data directory is known.
    pub data_dir_set: bool,
    /// The descriptor field.
    pub imported_descriptor: Value,
    pub error: Option<String>,
}

pub struct ImportDescriptorView {
    pub change_network: bool,
    pub network: Network,
    pub network_valid: bool,
    pub data_dir_set: bool,
    pub imported_descriptor: ValueView,
    pub error: Option<Seq<char>>,
}

impl View for ImportDescriptor {
    type V = ImportDescriptorView;

    open spec fn view(&self) -> ImportDescriptorView {
        ImportDescriptorView {
            change_network: self.change_network,
            network: self.network,
            network_valid: self.network_valid,
            data_dir_set: self.data_dir_set,
            imported_descriptor: self.imported_descriptor@,
            error: match self.error {
                Some(error) => Some(error@),
                None => None,
            },
        }
    }
}

impl ImportDescriptorView {
    /// What an event makes of the state. Whether a network is free is only
    /// taken note of once a data directory is known.
    pub open spec fn spec_update(self, message: Message) -> Self {
        match message {
            Message::Network(network, taken) => ImportDescriptorView {
                network: network,
                network_valid: if self.data_dir_set {
                    !taken
                } else {
                    self.network_valid
                },
                ..self
            },
            Message::DefineDescriptor(DefineDescriptor::ImportDescriptor(text)) => ImportDescriptorView {
                imported_descriptor: ValueView { value: text@, valid: true },
                ..self
            },
            _ => self,
        }
    }

    /// The state after the descriptor field was put to the wallet library:
    /// a field that is not empty is valid exactly when its text was read.
    pub open spec fn applied(self, read: bool) -> Self {
        if self.imported_descriptor.value.len() > 0 {
            ImportDescriptorView {
                imported_descriptor: ValueView { valid: read, ..self.imported_descriptor },
                ..self
            }
        } else {
            self
        }
    }
}

impl ImportDescriptor {
    /// The step at its start, on the production network.
    pub fn new(change_network: bool) -> (step: ImportDescriptor)
        ensures
            step@ == (ImportDescriptorView {
                change_network: change_network,
                network: Network::Bitcoin,
                network_valid: true,
                data_dir_set: false,
                imported_descriptor: ValueView { value: Seq::empty(), valid: true },
                error: None,
            }),
    {
        ImportDescriptor {
            change_network,
            network: Network::Bitcoin,
            network_valid: true,
            data_dir_set: false,
            imported_descriptor: Value::default(),
            error: None,
        }
    }

    /// Takes an event. There is never anything to be done.
    pub fn update(&mut self, message: Message) -> (command: Command)
        ensures
            final(self)@ == old(self)@.spec_update(message),
            command is Nothing,
    {
        match message {
            Message::Network(network, taken) => {
                self.network = network;
                if self.data_dir_set {
                    self.network_valid = !taken;
                }
            },
            Message::DefineDescriptor(DefineDescriptor::ImportDescriptor(text)) => {
                self.imported_descriptor.value = text;
                self.imported_descriptor.valid = true;
            },
            _ => {},
        }
        Command::Nothing
    }

    /// Takes the network of the context, now that the data directory is
    /// known. The flag tells whether that directory already holds a wallet
    /// for the network.
    pub fn load_context(&mut self, ctx: &Context, taken: bool)
        ensures
            final(self)@ == (ImportDescriptorView {
                network: ctx.network,
                data_dir_set: true,
                network_valid: !taken,
                ..old(self)@
            }),
    {
        self.network = ctx.network;
        self.data_dir_set = true;
        self.network_valid = !taken;
    }

    /// Hands the outcome of the step to the context. `descriptor` is what
    /// the wallet library made of the text of the descriptor field: the
    /// descriptor as it writes it, or nothing for a text that it does not
    /// read as the descriptor of a policy.
    ///
    /// The step comes to a descriptor exactly when the field is not empty
    /// and its text was read.
    pub fn apply(&mut self, ctx: &mut Context, descriptor: Option<String>) -> (committed: bool)
        ensures
            committed == (old(self)@.imported_descriptor.value.len() > 0 && descriptor is Some),
            final(self)@ == old(self)@.applied(descriptor is Some),
            final(ctx).network == old(self).network,
            final(ctx).keys == old(ctx).keys,
            final(ctx).hws == old(ctx).hws,
            final(ctx).signer_is_used == old(ctx).signer_is_used,
            committed ==> final(ctx).descriptor is Some && final(ctx).descriptor->0@
                == descriptor->0@,
            !committed ==> final(ctx).descriptor == old(ctx).descriptor,
    {
        ctx.network = self.network;
        if self.imported_descriptor.value.as_str().unicode_len() == 0 {
            return false;
        }
        match descriptor {
            Some(descriptor) => {
                self.imported_descriptor.valid = true;
                ctx.descriptor = Some(descriptor);
                true
            },
            None => {
                self.imported_descriptor.valid = false;
                false
            },
        }
    }
}

} // verus!
