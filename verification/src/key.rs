//! Imported keys.
//!
//! The library never looks inside a key expression itself. A key enters it
//! as text, is read by the descriptor library, and is kept as the plain
//! facts that the policy logic works on, next to the canonical text that
//! stands for its whole content.

use vstd::prelude::*;
use std::str::FromStr;
use liana::miniscript::bitcoin::Network as KeyNetwork;
use liana::miniscript::descriptor::DescriptorPublicKey;
use crate::network::Network;
use crate::path::{ChildNumber, Fingerprint};
use crate::text::{key_text, spec_key_text};

verus! {

/// The three shapes of a key expression.
#[derive(Clone, Copy, PartialEq, Eq, Structural, Debug)]
pub enum KeyKind {
    /// One plain public key.
    Single,
    /// An extended public key, with at most one derivation path behind it.
    XPub,
    /// An extended public key with several derivation paths behind it.
    MultiXPub,
}

/// A key as a slot holds it.
#[derive(Clone, Debug, PartialEq, Eq)]
pub struct ExtendedKey {
    /// The key expression in its canonical form. Two keys have the same
    /// content exactly when they have the same text.
    pub text: String,
    pub kind: KeyKind,
    /// The fingerprint of the master key: that of the origin where the
    /// expression has one.
    pub fingerprint: Fingerprint,
    /// The derivation path from the master key, where the expression has an
    /// origin.
    pub origin: Option<Vec<ChildNumber>>,
    /// The extended public key itself, in its Base58 form; `None` for a
    /// plain public key.
    pub xpub: Option<String>,
    /// Whether the extended key is encoded for the production network;
    /// `None` for a key that carries no network.
    pub mainnet: Option<bool>,
}

pub struct ExtendedKeyView {
    pub text: Seq<char>,
    pub kind: KeyKind,
    pub fingerprint: Fingerprint,
    pub origin: Option<Seq<ChildNumber>>,
    pub xpub: Option<Seq<char>>,
    pub mainnet: Option<bool>,
}

impl View for ExtendedKey {
    type V = ExtendedKeyView;

    open spec fn view(&self) -> ExtendedKeyView {
        ExtendedKeyView {
            text: self.text@,
            kind: self.kind,
            fingerprint: self.fingerprint,
            origin: match self.origin {
                Some(path) => Some(path@),
                None => None,
            },
            xpub: match self.xpub {
                Some(xpub) => Some(xpub@),
                None => None,
            },
            mainnet: self.mainnet,
        }
    }
}

pub open spec fn key_view(key: Option<ExtendedKey>) -> Option<ExtendedKeyView> {
    match key {
        Some(key) => Some(key@),
        None => None,
    }
}

/// What the descriptor library reads out of a key expression: nothing for a
/// text that it refuses, else the facts of the key and its canonical text.
pub uninterp spec fn parsed_key(text: Seq<char>) -> Option<ExtendedKeyView>;

/// A key as the parser hands it over: its text, its kind, its fingerprint,
/// the path of its origin, and its extended key with the network tag.
type RawKey = (String, KeyKind, Fingerprint, Option<Vec<ChildNumber>>, Option<(String, bool)>);

spec fn raw_key_view(raw: Option<RawKey>) -> Option<ExtendedKeyView> {
    match raw {
        Some(raw) => Some(
            ExtendedKeyView {
                text: raw.0@,
                kind: raw.1,
                fingerprint: raw.2,
                origin: match raw.3 {
                    Some(path) => Some(path@),
                    None => None,
                },
                xpub: match raw.4 {
                    Some(xpub) => Some(xpub.0@),
                    None => None,
                },
                mainnet: match raw.4 {
                    Some(xpub) => Some(xpub.1),
                    None => None,
                },
            },
        ),
        None => None,
    }
}

/// Reads a key expression with `DescriptorPublicKey::from_str`. Trusted: the
/// result is what that parser makes of the text, in plain values: the text
/// that the key displays as, its variant, its `master_fingerprint`, the path
/// of its origin, and the text that its extended key displays as together
/// with whether that extended key is tagged for the production network.
#[verifier::external_body]
fn parse_descriptor_key(text: &str) -> (raw: Option<RawKey>)
    ensures
        raw_key_view(raw) == parsed_key(text@),
{
    let key = DescriptorPublicKey::from_str(text).ok()?;
    let (kind, origin, xkey) = match &key {
        DescriptorPublicKey::Single(k) => (KeyKind::Single, &k.origin, None),
        DescriptorPublicKey::XPub(k) => (KeyKind::XPub, &k.origin, Some(k.xkey)),
        DescriptorPublicKey::MultiXPub(k) => (KeyKind::MultiXPub, &k.origin, Some(k.xkey)),
    };
    Some((
        key.to_string(),
        kind,
        u32::from_be_bytes(key.master_fingerprint().to_bytes()),
        origin.as_ref().map(|o| o.1.into_iter().map(|c| u32::from(*c)).collect()),
        xkey.map(|x| (x.to_string(), x.network == KeyNetwork::Bitcoin)),
    ))
}

fn same_path(a: &Vec<ChildNumber>, b: &Vec<ChildNumber>) -> (same: bool)
    ensures
        same == (a@ == b@),
{
    if a.len() != b.len() {
        return false;
    }
    let mut i: usize = 0;
    while i < a.len()
        invariant
            0 <= i <= a@.len(),
            a@.len() == b@.len(),
            forall|j: int| 0 <= j < i ==> a@[j] == b@[j],
        decreases a@.len() - i,
    {
        if a[i] != b[i] {
            return false;
        }
        i += 1;
    }
    proof {
        assert(a@ =~= b@);
    }
    true
}

fn copy_path(path: &Vec<ChildNumber>) -> (copy: Vec<ChildNumber>)
    ensures
        copy@ == path@,
{
    let mut copy: Vec<ChildNumber> = Vec::new();
    let mut i: usize = 0;
    while i < path.len()
        invariant
            0 <= i <= path@.len(),
            copy@ == path@.take(i as int),
        decreases path@.len() - i,
    {
        copy.push(path[i]);
        proof {
            assert(copy@ =~= path@.take(i + 1));
        }
        i += 1;
    }
    proof {
        assert(path@.take(path@.len() as int) =~= path@);
    }
    copy
}

impl ExtendedKey {
    /// Reads a key expression. Succeeds on every text that the descriptor
    /// library accepts as a public key.
    pub fn parse(text: &str) -> (key: Option<ExtendedKey>)
        ensures
            key_view(key) == parsed_key(text@),
    {
        match parse_descriptor_key(text) {
            Some((text, kind, fingerprint, origin, xkey)) => {
                let (xpub, mainnet) = match xkey {
                    Some((xpub, mainnet)) => (Some(xpub), Some(mainnet)),
                    None => (None, None),
                };
                Some(ExtendedKey { text, kind, fingerprint, origin, xpub, mainnet })
            },
            None => None,
        }
    }

    /// Whether two keys have the same content.
    pub fn same_as(&self, other: &ExtendedKey) -> (same: bool)
        ensures
            same == (self@ == other@),
    {
        let same_origin = match (&self.origin, &other.origin) {
            (Some(a), Some(b)) => same_path(a, b),
            (None, None) => true,
            _ => false,
        };
        let same_xpub = match (&self.xpub, &other.xpub) {
            (Some(a), Some(b)) => *a == *b,
            (None, None) => true,
            _ => false,
        };
        let same_network = match (self.mainnet, other.mainnet) {
            (Some(a), Some(b)) => a == b,
            (None, None) => true,
            _ => false,
        };
        self.text == other.text && self.kind == other.kind && self.fingerprint
            == other.fingerprint && same_origin && same_xpub && same_network
    }

    /// A copy of the key.
    pub fn duplicate(&self) -> (copy: ExtendedKey)
        ensures
            copy@ == self@,
    {
        ExtendedKey {
            text: self.text.clone(),
            kind: self.kind,
            fingerprint: self.fingerprint,
            origin: match &self.origin {
                Some(path) => Some(copy_path(path)),
                None => None,
            },
            xpub: match &self.xpub {
                Some(xpub) => Some(xpub.clone()),
                None => None,
            },
            mainnet: self.mainnet,
        }
    }

    /// Whether the key is an extended key with an origin: one that a signing
    /// device can be asked to sign for.
    pub open spec fn spec_has_device_origin(&self) -> bool {
        self.kind == KeyKind::XPub && self.origin is Some
    }

    #[verifier::when_used_as_spec(spec_has_device_origin)]
    pub fn has_device_origin(&self) -> (r: bool)
        ensures
            r == self.spec_has_device_origin(),
    {
        self.kind == KeyKind::XPub && self.origin.is_some()
    }
}

/// Whether the network tag of a key suits a network: a key tagged for the
/// production network suits that network alone, a key tagged for testing
/// suits every other, and a key without a tag suits all.
pub open spec fn key_suits_network(key: ExtendedKeyView, network: Network) -> bool {
    match key.mainnet {
        Some(mainnet) => mainnet == (network == Network::Bitcoin),
        None => true,
    }
}

pub fn check_key_network(key: &ExtendedKey, network: Network) -> (valid: bool)
    ensures
        valid == key_suits_network(key@, network),
{
    match key.mainnet {
        Some(mainnet) => mainnet == (network == Network::Bitcoin),
        None => true,
    }
}

/// The key that a signing device returned: the extended key `xpub`, derived
/// at `path` below the master key with this fingerprint. None if the
/// resulting expression does not read as a key.
pub fn device_key(fingerprint: Fingerprint, path: &Vec<ChildNumber>, xpub: &str) -> (key: Option<
    ExtendedKey,
>)
    ensures
        key_view(key) == parsed_key(spec_key_text(fingerprint, path@, xpub@)),
{
    let text = key_text(fingerprint, path, xpub);
    ExtendedKey::parse(text.as_str())
}

} // verus!
