//! What a step asks its caller to do.

use vstd::prelude::*;
use crate::message::Message;
use crate::path::{ChildNumber, Fingerprint};

verus! {

/// Where the key that a device returns is to be reported.
#[derive(Clone, Copy, PartialEq, Eq, Structural, Debug)]
pub enum XpubReply {
    /// As `DefineDescriptor::HWXpubImported`.
    Import,
    /// As `Message::ImportXpub`, for the device at this place.
    Device(usize),
}

/// The work that an event gives rise to. The caller carries it out and
/// hands the outcome back as the event named.
#[derive(Debug, PartialEq, Eq)]
pub enum Command {
    /// Nothing to do.
    Nothing,
    /// List the connected devices; report as
    /// `Message::ConnectedHardwareWallets`.
    ListHardwareWallets,
    /// Ask the device at place `device` for its extended public key at
    /// `path`.
    GetExtendedPubkey { device: usize, fingerprint: Fingerprint, path: Vec<ChildNumber>, reply: XpubReply },
    /// Ask the device at place `device` to register the policy under the
    /// given name; report as `Message::WalletRegistered`.
    RegisterWallet { device: usize, fingerprint: Fingerprint, name: String, descriptor: String },
    /// Deliver the event.
    Perform(Message),
}

} // verus!
