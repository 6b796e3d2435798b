//! The software signer: a key kept on this machine, which takes the place
//! of a signing device.
//!
//! A signer is its mnemonic and the network that it encodes its keys for.
//! Its fingerprint and its extended keys are functions of these, worked out
//! by the wallet library.

use vstd::prelude::*;
use std::str::FromStr;
use liana::miniscript::bitcoin::Network as KeyNetwork;
use liana::miniscript::bitcoin::bip32::DerivationPath;
use liana::miniscript::bitcoin::secp256k1::Secp256k1;
use liana::signer::HotSigner;
use crate::network::Network;
use crate::path::{ChildNumber, Fingerprint};

verus! {

/// The fingerprint of the master key of a mnemonic; none for a text that is
/// no mnemonic.
pub uninterp spec fn mnemonic_fingerprint(mnemonic: Seq<char>) -> Option<Fingerprint>;

/// The extended public key of a mnemonic at a path, encoded for a network,
/// as text; none for a text that is no mnemonic.
pub uninterp spec fn mnemonic_xpub(
    mnemonic: Seq<char>,
    network: Network,
    path: Seq<ChildNumber>,
) -> Option<Seq<char>>;

pub open spec fn text_view(text: Option<String>) -> Option<Seq<char>> {
    match text {
        Some(text) => Some(text@),
        None => None,
    }
}

/// Makes a `HotSigner` of the mnemonic with `HotSigner::from_str` and calls
/// `HotSigner::fingerprint`. Trusted: the result is the fingerprint of the
/// master key of the mnemonic, which is the same on every network.
#[verifier::external_body]
fn read_fingerprint(mnemonic: &str, network: Network) -> (fingerprint: Option<Fingerprint>)
    ensures
        fingerprint == mnemonic_fingerprint(mnemonic@),
{
    let network = match network {
        Network::Bitcoin => KeyNetwork::Bitcoin,
        Network::Testnet => KeyNetwork::Testnet,
        Network::Signet => KeyNetwork::Signet,
        Network::Regtest => KeyNetwork::Regtest,
    };
    let key = HotSigner::from_str(network, mnemonic).ok()?;
    Some(u32::from_be_bytes(key.fingerprint(&Secp256k1::signing_only()).to_bytes()))
}

/// Makes a `HotSigner` of the mnemonic with `HotSigner::from_str` and calls
/// `HotSigner::xpub_at`. Trusted: the result is the extended key of the
/// mnemonic at the path, displayed for the network, and there is one
/// whenever the text is a mnemonic. The derivation counts its depth in one
/// byte, which a path of up to 255 steps cannot overflow.
#[verifier::external_body]
fn derive_xpub(mnemonic: &str, network: Network, path: &Vec<ChildNumber>) -> (xpub: Option<String>)
    requires
        path@.len() <= 255,
    ensures
        text_view(xpub) == mnemonic_xpub(mnemonic@, network, path@),
        xpub is Some <==> mnemonic_fingerprint(mnemonic@) is Some,
{
    let network = match network {
        Network::Bitcoin => KeyNetwork::Bitcoin,
        Network::Testnet => KeyNetwork::Testnet,
        Network::Signet => KeyNetwork::Signet,
        Network::Regtest => KeyNetwork::Regtest,
    };
    let key = HotSigner::from_str(network, mnemonic).ok()?;
    let path: DerivationPath = path.iter().map(|child| (*child).into()).collect();
    Some(key.xpub_at(&path, &Secp256k1::signing_only()).to_string())
}

/// A software signer.
pub struct Signer {
    mnemonic: String,
    network: Network,
    fingerprint: Fingerprint,
}

impl Signer {
    /// A signer is only ever made of a mnemonic, and knows its fingerprint.
    #[verifier::type_invariant]
    spec fn wf(self) -> bool {
        mnemonic_fingerprint(self.mnemonic@) == Some(self.fingerprint)
    }

    pub closed spec fn spec_mnemonic(&self) -> Seq<char> {
        self.mnemonic@
    }

    pub closed spec fn spec_network(&self) -> Network {
        self.network
    }

    pub closed spec fn spec_fingerprint(&self) -> Fingerprint {
        self.fingerprint
    }

    /// The extended public key of the signer at a path, as text.
    pub closed spec fn spec_xpub_at(&self, path: Seq<ChildNumber>) -> Seq<char> {
        mnemonic_xpub(self.mnemonic@, self.network, path)->0
    }

    /// The same signer on another network.
    pub closed spec fn on_network(self, network: Network) -> Signer {
        Signer { network: network, ..self }
    }

    /// Takes a signer into use: the one of the mnemonic, on a network.
    /// There is none for a text that is no mnemonic.
    pub fn new(mnemonic: String, network: Network) -> (signer: Option<Signer>)
        ensures
            match signer {
                Some(signer) => signer.spec_mnemonic() == mnemonic@ && signer.spec_network()
                    == network && mnemonic_fingerprint(mnemonic@) == Some(
                    signer.spec_fingerprint(),
                ),
                None => mnemonic_fingerprint(mnemonic@) is None,
            },
    {
        match read_fingerprint(mnemonic.as_str(), network) {
            Some(fingerprint) => Some(Signer { mnemonic, network, fingerprint }),
            None => None,
        }
    }

    /// The mnemonic of the signer.
    pub fn mnemonic(&self) -> (mnemonic: &String)
        ensures
            mnemonic@ == self.spec_mnemonic(),
    {
        &self.mnemonic
    }

    /// The network that the signer encodes its keys for.
    #[verifier::when_used_as_spec(spec_network)]
    pub fn network(&self) -> (network: Network)
        ensures
            network == self.spec_network(),
    {
        self.network
    }

    /// The fingerprint of the master key.
    #[verifier::when_used_as_spec(spec_fingerprint)]
    pub fn fingerprint(&self) -> (fingerprint: Fingerprint)
        ensures
            fingerprint == self.spec_fingerprint(),
            mnemonic_fingerprint(self.spec_mnemonic()) == Some(fingerprint),
    {
        proof {
            use_type_invariant(self);
        }
        self.fingerprint
    }

    /// The extended public key at a path below the master key, as text.
    pub fn get_extended_pubkey(&self, path: &Vec<ChildNumber>) -> (xpub: String)
        requires
            path@.len() <= 255,
        ensures
            xpub@ == self.spec_xpub_at(path@),
            mnemonic_xpub(self.spec_mnemonic(), self.spec_network(), path@) == Some(xpub@),
    {
        proof {
            use_type_invariant(self);
        }
        match derive_xpub(self.mnemonic.as_str(), self.network, path) {
            Some(xpub) => xpub,
            None => String::new(),
        }
    }

    /// Has the signer encode its keys for another network. The signer
    /// stays the same one.
    pub fn set_network(&mut self, network: Network)
        ensures
            *final(self) == old(self).on_network(network),
            final(self).spec_mnemonic() == old(self).spec_mnemonic(),
            final(self).spec_fingerprint() == old(self).spec_fingerprint(),
            final(self).spec_network() == network,
    {
        proof {
            use_type_invariant(&*self);
        }
        self.network = network;
    }
}

} // verus!
