//! Engine behind the set-up of a multisig-with-timelock wallet policy.
//!
//! The library keeps the two sets of key slots (primary and recovery), flags
//! colliding keys and aliases, allocates hardened account indices per signing
//! device, drives the import of one key, assembles the spending policy into a
//! descriptor and tracks on which devices that descriptor was registered.
//!
//! Everything that waits on a device or on the disk is left to the caller:
//! each `update` takes one event and returns the [`command::Command`] that
//! the caller has to carry out, whose outcome comes back as the next event.

pub mod network;
pub mod path;
pub mod text;
pub mod key;
pub mod slot;
pub mod signer;
pub mod form;
pub mod hw;
pub mod message;
pub mod command;
pub mod context;
pub mod policy;
pub mod edit;
pub mod define;
pub mod participate;
pub mod import;
pub mod register;
pub mod reply;
