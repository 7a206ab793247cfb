//! The JSON-RPC providers of each network.

use vstd::prelude::*;

verus! {

#[derive(Clone, Copy, Debug, PartialEq, Eq, Hash, Structural)]
pub enum SolanaMainnetProvider {
    PublicNode,
}

impl SolanaMainnetProvider {
    pub fn endpoint_url(&self) -> (url: &'static str)
        ensures
            url@ == "https://api.mainnet-beta.solana.com"@,
    {
        match self {
            SolanaMainnetProvider::PublicNode => "https://api.mainnet-beta.solana.com",
        }
    }
}

#[derive(Clone, Copy, Debug, PartialEq, Eq, Hash, Structural)]
pub enum SolanaTestnetProvider {
    PublicNode,
}

impl SolanaTestnetProvider {
    pub fn endpoint_url(&self) -> (url: &'static str)
        ensures
            url@ == "https://api.devnet.solana.com"@,
    {
        match self {
            SolanaTestnetProvider::PublicNode => "https://api.devnet.solana.com",
        }
    }
}

#[derive(Clone, Copy, Debug, PartialEq, Eq, Hash, Structural)]
pub enum RpcNodeProvider {
    Mainnet(SolanaMainnetProvider),
    Testnet(SolanaTestnetProvider),
}

impl RpcNodeProvider {
    pub open spec fn address(self) -> Seq<char> {
        match self {
            RpcNodeProvider::Mainnet(_) => "https://api.mainnet-beta.solana.com"@,
            RpcNodeProvider::Testnet(_) => "https://api.devnet.solana.com"@,
        }
    }

    /// Where the provider is reached.
    pub fn url(&self) -> (url: &'static str)
        ensures
            url@ == self.address(),
    {
        match self {
            Self::Mainnet(provider) => provider.endpoint_url(),
            Self::Testnet(provider) => provider.endpoint_url(),
        }
    }
}

} // verus!
