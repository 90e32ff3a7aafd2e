//! The runtime core of a payment-channel node: it keeps the channel-state engine's view of
//! the chain, its peers and its durable channel records consistent, with every decision
//! proved against its contract.

use vstd::prelude::*;

/// Following the chain daemon's best block and resolving reorganizations into fork steps.
pub mod chain;
/// Decimal, hexadecimal and field-splitting helpers.
pub mod text;
/// Crash-safe channel records: file names and the order of filesystem steps.
pub mod store;
/// Per-peer read backpressure, buffered writes and disconnection.
pub mod connection;
/// The coalescing notifier and the actions of a dispatch pass.
pub mod dispatch;
/// Chain daemon requests and the verdict on their replies.
pub mod rpc;
/// Fee-rate estimates.
pub mod fees;
/// Funding transaction parameters.
pub mod funding;
/// Funding transactions awaiting broadcast.
pub mod broadcast;
/// The command protocol.
pub mod protocol;
/// Node configuration.
pub mod settings;
/// Command server configuration.
pub mod node_settings;
/// Filtering of the engine's log lines.
pub mod log_printer;
/// Command lines and the command interfaces of the node.
pub mod commands;
/// Which chain the daemon runs.
pub mod network;

verus! {

} // verus!
