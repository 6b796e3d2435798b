//! The networks a wallet can be set up for.

use vstd::prelude::*;

verus! {

/// The network that the wallet under construction is meant for.
#[derive(Clone, Copy, PartialEq, Eq, Structural, Debug)]
pub enum Network {
    Bitcoin,
    Testnet,
    Signet,
    Regtest,
}

impl Network {
    /// The coin type of the standard policy path: 0 on the production
    /// network, 1 on every test network.
    pub open spec fn spec_coin_type(self) -> u32 {
        if self == Network::Bitcoin {
            0
        } else {
            1
        }
    }

    #[verifier::when_used_as_spec(spec_coin_type)]
    pub fn coin_type(self) -> (coin: u32)
        ensures
            coin == self.spec_coin_type(),
    {
        if self == Network::Bitcoin {
            0
        } else {
            1
        }
    }
}

} // verus!
