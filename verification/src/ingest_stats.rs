//! Monotonic ingestion counters: confirmed blocks, confirmed transactions,
//! and pending transactions persisted, with a point-in-time snapshot. The
//! counters are an explicitly constructed, injected object — never implicit
//! global state — and reset with the process.

use vstd::prelude::*;

verus! {

/// The three ingestion counters. Exclusive access (`&mut`) makes every
/// increment a single atomic step of the program: no update is lost.
#[derive(Debug)]
pub struct IngestStats {
    blocks: u64,
    transactions: u64,
    pending_transactions: u64,
}

/// A consistent point-in-time copy of the counters.
#[derive(Debug, Clone, Copy)]
pub struct IngestSnapshot {
    pub blocks: u64,
    pub transactions: u64,
    pub pending_transactions: u64,
}

impl IngestStats {
    /// Fresh counters, all zero.
    pub fn new() -> (r: Self)
        ensures
            r.blocks() == 0,
            r.transactions() == 0,
            r.pending_transactions() == 0,
    {
        IngestStats { blocks: 0, transactions: 0, pending_transactions: 0 }
    }

    /// Blocks ingested so far.
    pub closed spec fn blocks(&self) -> u64 {
        self.blocks
    }

    /// Confirmed transactions ingested so far.
    pub closed spec fn transactions(&self) -> u64 {
        self.transactions
    }

    /// Pending transactions persisted so far.
    pub closed spec fn pending_transactions(&self) -> u64 {
        self.pending_transactions
    }

    /// Counts `n` more ingested blocks.
    pub fn inc_blocks(&mut self, n: u64)
        requires
            old(self).blocks() + n <= u64::MAX,
        ensures
            final(self).blocks() == old(self).blocks() + n,
            final(self).transactions() == old(self).transactions(),
            final(self).pending_transactions() == old(self).pending_transactions(),
    {
        self.blocks = self.blocks + n;
    }

    /// Counts `n` more ingested confirmed transactions.
    pub fn inc_transactions(&mut self, n: u64)
        requires
            old(self).transactions() + n <= u64::MAX,
        ensures
            final(self).transactions() == old(self).transactions() + n,
            final(self).blocks() == old(self).blocks(),
            final(self).pending_transactions() == old(self).pending_transactions(),
    {
        self.transactions = self.transactions + n;
    }

    /// Counts `n` more persisted pending transactions.
    pub fn inc_pending_transactions(&mut self, n: u64)
        requires
            old(self).pending_transactions() + n <= u64::MAX,
        ensures
            final(self).pending_transactions() == old(self).pending_transactions() + n,
            final(self).blocks() == old(self).blocks(),
            final(self).transactions() == old(self).transactions(),
    {
        self.pending_transactions = self.pending_transactions + n;
    }

    /// A consistent snapshot of all three counters.
    pub fn snapshot(&self) -> (r: IngestSnapshot)
        ensures
            r.blocks == self.blocks(),
            r.transactions == self.transactions(),
            r.pending_transactions == self.pending_transactions(),
    {
        IngestSnapshot {
            blocks: self.blocks,
            transactions: self.transactions,
            pending_transactions: self.pending_transactions,
        }
    }
}

impl Default for IngestStats {
    fn default() -> (r: Self)
        ensures
            r.blocks() == 0,
            r.transactions() == 0,
            r.pending_transactions() == 0,
    {
        IngestStats::new()
    }
}

} // verus!
