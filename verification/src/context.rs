//! What the steps hand on to what follows them.

use vstd::prelude::*;
use crate::hw::DeviceKind;
use crate::network::Network;
use crate::path::Fingerprint;

verus! {

/// The alias of a device, kept with the wallet.
#[derive(Clone, Debug, PartialEq, Eq)]
pub struct KeySetting {
    pub master_fingerprint: Fingerprint,
    pub name: String,
}

/// The outcome of the steps so far.
#[derive(Clone, Debug, PartialEq, Eq)]
pub struct Context {
    pub network: Network,
    /// The aliases of the devices whose keys the policy uses.
    pub keys: Vec<KeySetting>,
    /// The descriptor of the policy, once there is one.
    pub descriptor: Option<String>,
    /// Whether the software signer holds a key of the policy, so that its
    /// key material has to be kept.
    pub signer_is_used: bool,
    /// The devices that registered the policy, each with the token it
    /// acknowledged with.
    pub hws: Vec<(DeviceKind, Fingerprint, Option<[u8; 32]>)>,
}

impl Context {
    /// The context at the start, for a network.
    pub fn new(network: Network) -> (ctx: Context)
        ensures
            ctx.network == network,
            ctx.keys@.len() == 0,
            ctx.descriptor is None,
            !ctx.signer_is_used,
            ctx.hws@.len() == 0,
    {
        Context {
            network,
            keys: Vec::new(),
            descriptor: None,
            signer_is_used: false,
            hws: Vec::new(),
        }
    }
}

} // verus!
