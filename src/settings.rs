use vstd::prelude::*;

verus! {

/// The node's own side of the configuration.
pub struct Lightning {
    /// The port that peers connect to.
    pub port: u16,
    /// The data directory: `manager_data` and the `monitors` directory live there.
    pub lndata: String,
}

/// How to reach the chain daemon.
pub struct Bitcoind {
    /// `user:password@host:port`.
    pub rpc_url: String,
}

/// The configuration of the node core.
pub struct Settings {
    pub lightning: Lightning,
    pub bitcoind: Bitcoind,
}

} // verus!
