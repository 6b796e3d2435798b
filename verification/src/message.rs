//! The events that the steps take.

use vstd::prelude::*;
use crate::hw::HardwareWallet;
use crate::key::ExtendedKey;
use crate::network::Network;
use crate::path::Fingerprint;

verus! {

/// What a signing device, or the way to it, reported in place of an answer.
#[derive(Clone, Debug, PartialEq, Eq)]
pub struct Error {
    pub message: String,
}

/// An event that concerns one key slot.
#[derive(Debug, PartialEq, Eq)]
pub enum DefineKey {
    /// The key is to be copied to the clipboard.
    Clipboard(String),
    /// The import into the slot was confirmed with this alias and key.
    Edited(String, ExtendedKey),
    /// The slot is to be edited.
    Edit,
    /// The slot is to be removed.
    Delete,
}

/// An event of the step that defines the policy. The flag that several of
/// them lead with tells the recovery set from the primary one.
#[derive(Debug, PartialEq, Eq)]
pub enum DefineDescriptor {
    ImportDescriptor(String),
    ThresholdEdited(bool, usize),
    SequenceEdited(String),
    AddKey(bool),
    Key(bool, usize, DefineKey),
    /// The answer of a device that was asked for a key.
    HWXpubImported(Result<ExtendedKey, Error>),
    XPubEdited(String),
    EditName,
    NameEdited(String),
    ConfirmXpub,
}

/// An event.
#[derive(Debug, PartialEq, Eq)]
pub enum Message {
    Clibpboard(String),
    Close,
    Reload,
    Select(usize),
    UseHotSigner,
    UserActionDone(bool),
    /// A network was chosen. The flag tells whether the data directory
    /// already holds a wallet for that network.
    Network(Network, bool),
    /// The list of connected devices.
    ConnectedHardwareWallets(Vec<HardwareWallet>),
    /// The answer of the device at this place that was asked for a key.
    ImportXpub(usize, Result<ExtendedKey, Error>),
    /// The answer of a device that was asked to register the policy: its
    /// fingerprint and the token it acknowledged with, if it gives one.
    WalletRegistered(Result<(Fingerprint, Option<[u8; 32]>), Error>),
    DefineDescriptor(DefineDescriptor),
}

} // verus!
