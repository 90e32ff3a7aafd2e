use vstd::prelude::*;

verus! {

/// Where the command server listens.
pub struct Server {
    pub address: String,
}

/// The configuration of the command server.
pub struct Settings {
    pub server: Server,
}

/// A configuration handed to a task at start-up.
pub enum Arg {
    MgrConf(crate::settings::Settings),
    NodeConf(Settings),
}

} // verus!
