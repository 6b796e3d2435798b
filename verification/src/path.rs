//! Derivation paths and the allocation of account indices.
//!
//! A child number is held as the `u32` that BIP32 serializes: the index in
//! the low 31 bits, and the top bit set for a hardened step. Child numbers
//! are ordered as these integers are, every normal one below every hardened
//! one.

use vstd::prelude::*;
use std::collections::HashMap;
use crate::network::Network;

verus! {

/// A step of a derivation path.
pub type ChildNumber = u32;

/// The fingerprint of a master key, its four bytes read big-endian.
pub type Fingerprint = u32;

/// The bit that marks a hardened child number.
pub const HARDENED_BIT: u32 = 0x8000_0000;

/// The purpose under which multisig policy keys are derived.
pub const POLICY_PURPOSE: u32 = 48;

/// The script type that closes the standard policy path.
pub const POLICY_SCRIPT_TYPE: u32 = 2;

pub open spec fn spec_hardened(index: u32) -> ChildNumber
    recommends
        index < HARDENED_BIT,
{
    (index + HARDENED_BIT) as u32
}

/// The hardened child number of an index.
#[verifier::when_used_as_spec(spec_hardened)]
pub fn hardened(index: u32) -> (child: ChildNumber)
    requires
        index < HARDENED_BIT,
    ensures
        child == spec_hardened(index),
{
    index + HARDENED_BIT
}

pub open spec fn spec_is_hardened(child: ChildNumber) -> bool {
    child >= HARDENED_BIT
}

#[verifier::when_used_as_spec(spec_is_hardened)]
pub fn is_hardened(child: ChildNumber) -> (r: bool)
    ensures
        r == spec_is_hardened(child),
{
    child >= HARDENED_BIT
}

pub open spec fn spec_child_index(child: ChildNumber) -> u32 {
    if child >= HARDENED_BIT {
        (child - HARDENED_BIT) as u32
    } else {
        child
    }
}

/// The index of a child number, without its hardened mark.
#[verifier::when_used_as_spec(spec_child_index)]
pub fn child_index(child: ChildNumber) -> (index: u32)
    ensures
        index == spec_child_index(child),
        index < HARDENED_BIT,
{
    if child >= HARDENED_BIT {
        child - HARDENED_BIT
    } else {
        child
    }
}

/// The standard policy path of an account: purpose 48', the coin type of the
/// network, the account, and script type 2'.
pub open spec fn standard_path(network: Network, account: ChildNumber) -> Seq<ChildNumber> {
    seq![
        spec_hardened(POLICY_PURPOSE),
        spec_hardened(network.spec_coin_type()),
        account,
        spec_hardened(POLICY_SCRIPT_TYPE),
    ]
}

/// Builds the path at which a device is asked for the key of an account.
pub fn generate_derivation_path(network: Network, account_index: ChildNumber) -> (path: Vec<
    ChildNumber,
>)
    ensures
        path@ == standard_path(network, account_index),
{
    let mut path: Vec<ChildNumber> = Vec::new();
    path.push(hardened(POLICY_PURPOSE));
    path.push(hardened(network.coin_type()));
    path.push(account_index);
    path.push(hardened(POLICY_SCRIPT_TYPE));
    proof {
        assert(path@ =~= standard_path(network, account_index));
    }
    path
}

/// The account that a path spends from, if the path follows the standard
/// policy scheme: at least four steps, the first of them 48'.
pub open spec fn spec_used_account(path: Seq<ChildNumber>) -> Option<ChildNumber> {
    if path.len() >= 4 && path[0] == spec_hardened(POLICY_PURPOSE) {
        Some(path[2])
    } else {
        None
    }
}

pub fn used_account(path: &Vec<ChildNumber>) -> (account: Option<ChildNumber>)
    ensures
        account == spec_used_account(path@),
{
    if path.len() >= 4 && path[0] == hardened(POLICY_PURPOSE) {
        Some(path[2])
    } else {
        None
    }
}

/// The account to derive the next key of a device at, given the highest
/// account that its keys already use: hardened index 0 for a device that
/// has none, else the hardened index that follows the highest one. There is
/// none once index 2^31 - 1 is in use.
pub open spec fn spec_next_account_index(highest: Option<ChildNumber>) -> Option<ChildNumber> {
    match highest {
        None => Some(spec_hardened(0)),
        Some(used) => if spec_child_index(used) + 1 < HARDENED_BIT {
            Some(spec_hardened((spec_child_index(used) + 1) as u32))
        } else {
            None
        },
    }
}

pub open spec fn map_get(indexes: Map<Fingerprint, ChildNumber>, fingerprint: Fingerprint) -> Option<
    ChildNumber,
> {
    if indexes.contains_key(fingerprint) {
        Some(indexes[fingerprint])
    } else {
        None
    }
}

/// Allocates the account index for the next key imported from the device
/// with this fingerprint.
pub fn next_account_index(
    account_indexes: &HashMap<Fingerprint, ChildNumber>,
    fingerprint: Fingerprint,
) -> (next: Option<ChildNumber>)
    ensures
        next == spec_next_account_index(map_get(account_indexes@, fingerprint)),
{
    match account_indexes.get(&fingerprint) {
        None => Some(hardened(0)),
        Some(used) => {
            let index = child_index(*used);
            if index < HARDENED_BIT - 1 {
                Some(hardened(index + 1))
            } else {
                None
            }
        },
    }
}

/// An allocated account is hardened, and lies above the account it follows.
pub proof fn lemma_next_account_is_hardened_and_higher(highest: Option<ChildNumber>)
    requires
        spec_next_account_index(highest) is Some,
    ensures
        spec_is_hardened(spec_next_account_index(highest)->0),
        highest is Some ==> spec_child_index(spec_next_account_index(highest)->0)
            == spec_child_index(highest->0) + 1,
        highest is None ==> spec_child_index(spec_next_account_index(highest)->0) == 0,
{
}

} // verus!
