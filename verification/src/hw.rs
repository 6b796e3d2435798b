//! Signing devices, as far as the policy logic looks at them.
//!
//! The connection to a device stays with the caller. The library refers to
//! a device by its place in the list that the caller reported last.

use vstd::prelude::*;
use crate::path::Fingerprint;

verus! {

/// The make of a signing device.
#[derive(Clone, Copy, PartialEq, Eq, Structural, Debug)]
pub enum DeviceKind {
    BitBox02,
    Coldcard,
    Specter,
    SpecterSimulator,
    Ledger,
    LedgerSimulator,
    Jade,
}

/// A connected signing device.
#[derive(Clone, Copy, PartialEq, Eq, Structural, Debug)]
pub enum HardwareWallet {
    /// A device that cannot be worked with as it is.
    Unsupported { kind: DeviceKind },
    /// A device that answers, with the fingerprint of its master key.
    Supported { kind: DeviceKind, fingerprint: Fingerprint },
}

impl HardwareWallet {
    pub open spec fn spec_kind(&self) -> DeviceKind {
        match *self {
            HardwareWallet::Unsupported { kind } => kind,
            HardwareWallet::Supported { kind, .. } => kind,
        }
    }

    #[verifier::when_used_as_spec(spec_kind)]
    pub fn kind(&self) -> (kind: DeviceKind)
        ensures
            kind == self.spec_kind(),
    {
        match *self {
            HardwareWallet::Unsupported { kind } => kind,
            HardwareWallet::Supported { kind, .. } => kind,
        }
    }

    pub open spec fn spec_fingerprint(&self) -> Option<Fingerprint> {
        match *self {
            HardwareWallet::Unsupported { .. } => None,
            HardwareWallet::Supported { fingerprint, .. } => Some(fingerprint),
        }
    }

    #[verifier::when_used_as_spec(spec_fingerprint)]
    pub fn fingerprint(&self) -> (fingerprint: Option<Fingerprint>)
        ensures
            fingerprint == self.spec_fingerprint(),
    {
        match *self {
            HardwareWallet::Unsupported { .. } => None,
            HardwareWallet::Supported { fingerprint, .. } => Some(fingerprint),
        }
    }

    pub open spec fn spec_is_supported(&self) -> bool {
        *self is Supported
    }

    #[verifier::when_used_as_spec(spec_is_supported)]
    pub fn is_supported(&self) -> (supported: bool)
        ensures
            supported == self.spec_is_supported(),
    {
        match *self {
            HardwareWallet::Unsupported { .. } => false,
            HardwareWallet::Supported { .. } => true,
        }
    }
}

/// The place of the first device with this fingerprint in a list.
pub open spec fn spec_position(hws: Seq<HardwareWallet>, fingerprint: Fingerprint) -> Option<
    usize,
>
    decreases hws.len(),
{
    if hws.len() == 0 {
        None
    } else {
        match spec_position(hws.drop_last(), fingerprint) {
            Some(i) => Some(i),
            None => if hws.last().spec_fingerprint() == Some(fingerprint) {
                Some((hws.len() - 1) as usize)
            } else {
                None
            },
        }
    }
}

/// Finds the first device with this fingerprint.
pub fn position(hws: &Vec<HardwareWallet>, fingerprint: Fingerprint) -> (found: Option<usize>)
    ensures
        found == spec_position(hws@, fingerprint),
        found matches Some(i) ==> i < hws@.len() && hws@[i as int].spec_fingerprint() == Some(
            fingerprint,
        ),
{
    let mut i: usize = 0;
    while i < hws.len()
        invariant
            0 <= i <= hws@.len(),
            spec_position(hws@.take(i as int), fingerprint) is None,
        decreases hws@.len() - i,
    {
        proof {
            assert(hws@.take(i + 1).drop_last() =~= hws@.take(i as int));
        }
        if hws[i].fingerprint() == Some(fingerprint) {
            proof {
                lemma_position_stays(hws@, fingerprint, i + 1);
            }
            return Some(i);
        }
        i += 1;
    }
    proof {
        assert(hws@.take(hws@.len() as int) =~= hws@);
    }
    None
}

proof fn lemma_position_stays(hws: Seq<HardwareWallet>, fingerprint: Fingerprint, n: int)
    requires
        0 <= n <= hws.len(),
        spec_position(hws.take(n), fingerprint) is Some,
    ensures
        spec_position(hws, fingerprint) == spec_position(hws.take(n), fingerprint),
    decreases hws.len() - n,
{
    if n == hws.len() {
        assert(hws.take(n) =~= hws);
    } else {
        assert(hws.take(n + 1).drop_last() =~= hws.take(n));
        lemma_position_stays(hws, fingerprint, n + 1);
    }
}

} // verus!
