use vstd::prelude::*;

verus! {

/// The chains the node runs on.
#[derive(Clone, Copy, Debug, PartialEq, Eq, Structural)]
pub enum Network {
    Testnet,
    Regtest,
}

/// Why the daemon's chain is refused.
#[derive(Clone, Copy, Debug, PartialEq, Eq, Structural)]
pub enum NetworkError {
    /// The daemon has not verified 99% of the chain yet.
    NotSynced,
    /// Segwit is not active on the daemon's chain.
    SegwitInactive,
    /// The main chain is refused.
    Mainnet,
    /// A chain name the node does not know.
    UnknownChain,
}

/// The network for the daemon's `getblockchaininfo`: `chain` its chain name, `synced` whether
/// its verification progress is above 0.99, `segwit_active` whether segwit's status is active.
pub open spec fn network_of(chain: Seq<char>, synced: bool, segwit_active: bool) -> Result<Network, NetworkError> {
    if !synced {
        Err(NetworkError::NotSynced)
    } else if !segwit_active {
        Err(NetworkError::SegwitInactive)
    } else if chain == "main"@ {
        Err(NetworkError::Mainnet)
    } else if chain == "test"@ {
        Ok(Network::Testnet)
    } else if chain == "regtest"@ {
        Ok(Network::Regtest)
    } else {
        Err(NetworkError::UnknownChain)
    }
}

pub fn get_network(chain: &String, synced: bool, segwit_active: bool) -> (r: Result<Network, NetworkError>)
    ensures
        r == network_of(chain@, synced, segwit_active),
{
    if !synced {
        Err(NetworkError::NotSynced)
    } else if !segwit_active {
        Err(NetworkError::SegwitInactive)
    } else if *chain == String::from_str("main") {
        Err(NetworkError::Mainnet)
    } else if *chain == String::from_str("test") {
        Ok(Network::Testnet)
    } else if *chain == String::from_str("regtest") {
        Ok(Network::Regtest)
    } else {
        Err(NetworkError::UnknownChain)
    }
}

} // verus!
