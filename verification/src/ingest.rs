//! The persistence step of one-shot block ingestion: filter a block's
//! transactions, store the block before its transactions, and count exactly
//! what was handed to storage.

use vstd::prelude::*;

use crate::ingest_stats::IngestStats;
use crate::models::{BlockInfo, NormalizedTx};
use crate::normalize::{filter_txs, filters_view, spec_include};
use crate::storage::{spec_insert_batch, spec_insert_block, Storage};

verus! {

/// Stores one fetched block and its transactions: the transactions are
/// filtered by the address allow-list, the block row is written before its
/// transactions, the batch is written insert-or-ignore, and the confirmed
/// transaction counter grows by the number of rows handed to storage.
/// Returns that number.
pub fn ingest_block(
    store: &mut Storage,
    stats: &mut IngestStats,
    block: &BlockInfo,
    txs: &Vec<NormalizedTx>,
    filters: Option<&Vec<String>>,
) -> (stored: usize)
    requires
        old(store).wf(),
        old(store).txs().len() + txs@.len() <= i64::MAX,
        old(stats).transactions() + txs@.len() <= u64::MAX,
    ensures
        final(store).wf(),
        final(store).blocks() == spec_insert_block(old(store).blocks(), *block),
        final(store).txs() == spec_insert_batch(
            old(store).txs(),
            txs@.filter(|t: NormalizedTx| spec_include(t, filters_view(filters))),
        ),
        stored == txs@.filter(|t: NormalizedTx| spec_include(t, filters_view(filters))).len(),
        final(stats).transactions() == old(stats).transactions() + stored,
        final(stats).blocks() == old(stats).blocks(),
        final(stats).pending_transactions() == old(stats).pending_transactions(),
{
    let filtered = filter_txs(txs, filters);
    proof {
        txs@.lemma_filter_len(|t: NormalizedTx| spec_include(t, filters_view(filters)));
    }
    store.insert_block(block);
    let stored = filtered.len();
    if stored > 0 {
        store.insert_transactions(&filtered);
        stats.inc_transactions(stored as u64);
    } else {
        proof {
            vstd::seq_lib::lemma_seq_empty_equality(filtered@);
            assert(spec_insert_batch(store.txs(), filtered@) == store.txs());
        }
    }
    stored
}

} // verus!
