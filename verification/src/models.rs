//! Canonical data shapes: the raw transaction and block values handed in by
//! the chain collaborator, and the normalized records this crate stores and
//! serves.

use vstd::prelude::*;

verus! {

/// A transaction as the chain collaborator reports it, reduced to plain
/// values. Addresses and hashes are lowercase hex-prefixed strings; the
/// 256-bit wei amounts are decimal strings; `gas` and `nonce` are the raw
/// unsigned values, narrowed during normalization.
#[derive(Debug)]
pub struct RawTx {
    pub hash: String,
    pub from: String,
    pub to: Option<String>,
    pub value_wei: String,
    pub gas: u128,
    pub gas_price_wei: Option<String>,
    pub max_fee_per_gas_wei: Option<String>,
    pub nonce: u128,
}

/// A block as the chain collaborator reports it. `number` and `hash` are
/// absent for blocks that are not (or not yet) canonical; such blocks are
/// skipped by normalization.
#[derive(Debug)]
pub struct RawBlock {
    pub number: Option<i64>,
    pub hash: Option<String>,
    pub timestamp: i64,
    pub transactions: Vec<RawTx>,
}

/// One canonical transaction record. `hash` is the identity. `block_number`
/// and `timestamp` are both present for confirmed transactions and both
/// absent for pending ones. At most one of `gas_price_wei` (legacy pricing)
/// and `max_fee_per_gas_wei` (fee-market pricing) is present.
#[derive(Debug)]
pub struct NormalizedTx {
    pub hash: String,
    pub from: String,
    pub to: Option<String>,
    pub value_wei: String,
    pub gas: i64,
    pub gas_price_wei: Option<String>,
    pub max_fee_per_gas_wei: Option<String>,
    pub nonce: i64,
    pub block_number: Option<i64>,
    pub timestamp: Option<i64>,
    pub status: Option<String>,
}

/// One stored block. `number` is the identity.
#[derive(Debug)]
pub struct BlockInfo {
    pub number: i64,
    pub hash: String,
    pub timestamp: i64,
}

/// Gas-price statistics over a block window. `avg` is the integer quotient
/// of the sum of qualifying prices by their count, so `min <= avg <= max`.
#[derive(Debug)]
pub struct GasStats {
    pub min: i64,
    pub max: i64,
    pub avg: i64,
}

/// One sender address with its transaction count.
#[derive(Debug)]
pub struct TopSender {
    pub address: String,
    pub count: i64,
}

/// The key `recent_transactions` orders by, descending: the timestamp, with
/// pending rows (no timestamp) ranking as zero and hence below every
/// confirmed row.
pub open spec fn recency_key(t: NormalizedTx) -> int {
    match t.timestamp {
        Some(ts) => ts as int,
        None => 0,
    }
}

fn clone_opt_string(o: &Option<String>) -> (r: Option<String>)
    ensures
        r == *o,
{
    match o {
        None => None,
        Some(s) => Some(s.clone()),
    }
}

impl Clone for NormalizedTx {
    fn clone(&self) -> (r: Self)
        ensures
            r == *self,
    {
        NormalizedTx {
            hash: self.hash.clone(),
            from: self.from.clone(),
            to: clone_opt_string(&self.to),
            value_wei: self.value_wei.clone(),
            gas: self.gas,
            gas_price_wei: clone_opt_string(&self.gas_price_wei),
            max_fee_per_gas_wei: clone_opt_string(&self.max_fee_per_gas_wei),
            nonce: self.nonce,
            block_number: self.block_number,
            timestamp: self.timestamp,
            status: clone_opt_string(&self.status),
        }
    }
}

impl Clone for BlockInfo {
    fn clone(&self) -> (r: Self)
        ensures
            r == *self,
    {
        BlockInfo { number: self.number, hash: self.hash.clone(), timestamp: self.timestamp }
    }
}

impl Clone for TopSender {
    fn clone(&self) -> (r: Self)
        ensures
            r == *self,
    {
        TopSender { address: self.address.clone(), count: self.count }
    }
}

impl Clone for GasStats {
    fn clone(&self) -> (r: Self)
        ensures
            r == *self,
    {
        GasStats { min: self.min, max: self.max, avg: self.avg }
    }
}

} // verus!
