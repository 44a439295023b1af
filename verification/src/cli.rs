//! The command surface: plain data describing what the process was asked to
//! do. Argument parsing itself is a collaborator concern; it hands one of
//! these values in.

use vstd::prelude::*;

verus! {

/// One invocation: a single command.
#[derive(Debug)]
pub struct Cli {
    pub command: Commands,
}

/// The operations the observer offers.
#[derive(Debug)]
pub enum Commands {
    /// Fetch the last `blocks` blocks and store their transactions.
    IngestOnce { blocks: u64 },
    /// Sample pending transactions for a bounded time and count.
    MempoolSample { duration_secs: u64, max: u64 },
    /// Print the senders with the most stored transactions.
    TopSenders { limit: u64 },
    /// Print the most recently stored transactions.
    RecentTxs { limit: u64 },
    /// Print gas-price statistics over the last `blocks` blocks.
    GasStats { blocks: u64 },
    /// Run the HTTP API server, optionally overriding the bind address.
    Serve { addr: Option<String> },
}

} // verus!
