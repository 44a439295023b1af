//! Normalization of raw chain values into canonical records: saturating
//! integer narrowing, pricing-field selection, block linkage, and the
//! address allow-list filter.

use vstd::prelude::*;

use crate::models::{BlockInfo, NormalizedTx, RawBlock, RawTx};

verus! {

/// Saturating narrowing: values beyond the signed 64-bit range become
/// `i64::MAX`, the documented sentinel, never a truncation.
pub open spec fn sat_i64(v: u128) -> i64 {
    if v > i64::MAX as u128 {
        i64::MAX
    } else {
        v as i64
    }
}

/// Narrowing that reports an out-of-range value instead of saturating.
pub fn narrow_to_i64(v: u128) -> (r: Option<i64>)
    ensures
        r == (if v <= i64::MAX as u128 {
            Some(v as i64)
        } else {
            None::<i64>
        }),
{
    if v <= i64::MAX as u128 {
        Some(v as i64)
    } else {
        None
    }
}

/// Saturating narrowing; see `sat_i64`.
pub fn narrow_to_i64_lossy(v: u128) -> (r: i64)
    ensures
        r == sat_i64(v),
{
    match narrow_to_i64(v) {
        Some(n) => n,
        None => i64::MAX,
    }
}

/// What normalization makes of a raw transaction confirmed in a block:
/// both block fields set, integers narrowed with saturation, and exactly
/// the pricing rule of `spec_normalize_pending`.
pub open spec fn spec_normalize_confirmed(raw: RawTx, block_number: i64, timestamp: i64) -> NormalizedTx {
    NormalizedTx {
        hash: raw.hash,
        from: raw.from,
        to: raw.to,
        value_wei: raw.value_wei,
        gas: sat_i64(raw.gas),
        gas_price_wei: if raw.max_fee_per_gas_wei is Some {
            None
        } else {
            raw.gas_price_wei
        },
        max_fee_per_gas_wei: raw.max_fee_per_gas_wei,
        nonce: sat_i64(raw.nonce),
        block_number: Some(block_number),
        timestamp: Some(timestamp),
        status: None,
    }
}

/// What normalization makes of a pending raw transaction: no block linkage,
/// and a fee-market max-fee (when present) displaces the legacy gas price.
pub open spec fn spec_normalize_pending(raw: RawTx) -> NormalizedTx {
    NormalizedTx {
        hash: raw.hash,
        from: raw.from,
        to: raw.to,
        value_wei: raw.value_wei,
        gas: sat_i64(raw.gas),
        gas_price_wei: if raw.max_fee_per_gas_wei is Some {
            None
        } else {
            raw.gas_price_wei
        },
        max_fee_per_gas_wei: raw.max_fee_per_gas_wei,
        nonce: sat_i64(raw.nonce),
        block_number: None,
        timestamp: None,
        status: None,
    }
}

/// Normalizes a transaction confirmed in block `block_number` at
/// `timestamp`.
pub fn normalize_tx(raw: RawTx, block_number: i64, timestamp: i64) -> (r: NormalizedTx)
    ensures
        r == spec_normalize_confirmed(raw, block_number, timestamp),
{
    let gas = narrow_to_i64_lossy(raw.gas);
    let nonce = narrow_to_i64_lossy(raw.nonce);
    let (gas_price_wei, max_fee_per_gas_wei) = match raw.max_fee_per_gas_wei {
        Some(f) => (None, Some(f)),
        None => (raw.gas_price_wei, None),
    };
    NormalizedTx {
        hash: raw.hash,
        from: raw.from,
        to: raw.to,
        value_wei: raw.value_wei,
        gas,
        gas_price_wei,
        max_fee_per_gas_wei,
        nonce,
        block_number: Some(block_number),
        timestamp: Some(timestamp),
        status: None,
    }
}

/// Normalizes a transaction observed in the mempool: both block fields stay
/// absent until the transaction is (if ever) re-ingested as confirmed.
pub fn normalize_pending_tx(raw: RawTx) -> (r: NormalizedTx)
    ensures
        r == spec_normalize_pending(raw),
{
    let gas = narrow_to_i64_lossy(raw.gas);
    let nonce = narrow_to_i64_lossy(raw.nonce);
    let (gas_price_wei, max_fee_per_gas_wei) = match raw.max_fee_per_gas_wei {
        Some(f) => (None, Some(f)),
        None => (raw.gas_price_wei, None),
    };
    NormalizedTx {
        hash: raw.hash,
        from: raw.from,
        to: raw.to,
        value_wei: raw.value_wei,
        gas,
        gas_price_wei,
        max_fee_per_gas_wei,
        nonce,
        block_number: None,
        timestamp: None,
        status: None,
    }
}

/// Law: normalization populates at most one pricing field. A fee-market
/// max-fee forces the gas price absent; otherwise the legacy gas price (if
/// any) is kept and the max-fee stays absent; with neither raw field
/// populated both stay absent.
pub proof fn lemma_pricing_exclusive(raw: RawTx, block_number: i64, timestamp: i64)
    ensures
        !(spec_normalize_confirmed(raw, block_number, timestamp).gas_price_wei is Some
            && spec_normalize_confirmed(raw, block_number, timestamp).max_fee_per_gas_wei is Some),
        raw.max_fee_per_gas_wei is Some ==> {
            &&& spec_normalize_confirmed(raw, block_number, timestamp).gas_price_wei is None
            &&& spec_normalize_confirmed(raw, block_number, timestamp).max_fee_per_gas_wei
                == raw.max_fee_per_gas_wei
        },
        raw.max_fee_per_gas_wei is None ==> {
            &&& spec_normalize_confirmed(raw, block_number, timestamp).gas_price_wei
                == raw.gas_price_wei
            &&& spec_normalize_confirmed(raw, block_number, timestamp).max_fee_per_gas_wei is None
        },
        spec_normalize_pending(raw).gas_price_wei
            == spec_normalize_confirmed(raw, block_number, timestamp).gas_price_wei,
        spec_normalize_pending(raw).max_fee_per_gas_wei
            == spec_normalize_confirmed(raw, block_number, timestamp).max_fee_per_gas_wei,
{
}

/// Law: a confirmed record carries both `block_number` and `timestamp`; a
/// pending record carries neither — never exactly one.
pub proof fn lemma_block_linkage(raw: RawTx, block_number: i64, timestamp: i64)
    ensures
        spec_normalize_confirmed(raw, block_number, timestamp).block_number == Some(block_number),
        spec_normalize_confirmed(raw, block_number, timestamp).timestamp == Some(timestamp),
        spec_normalize_pending(raw).block_number is None,
        spec_normalize_pending(raw).timestamp is None,
{
}

/// Whether a sequence of filter entries contains the given characters.
pub open spec fn seq_contains_str(fs: Seq<String>, s: Seq<char>) -> bool {
    exists|i: int| 0 <= i < fs.len() && fs[i]@ == s
}

/// The allow-list policy: with no filter every transaction passes; with a
/// filter, a transaction passes when its `from` address, or its `to` address
/// when present, is among the entries.
pub open spec fn spec_include(t: NormalizedTx, filters: Option<Seq<String>>) -> bool {
    match filters {
        None => true,
        Some(fs) => seq_contains_str(fs, t.from@) || (match t.to {
            Some(a) => seq_contains_str(fs, a@),
            None => false,
        }),
    }
}

/// The filter entries as the specification sees them.
pub open spec fn filters_view(filters: Option<&Vec<String>>) -> Option<Seq<String>> {
    match filters {
        None => None,
        Some(fs) => Some(fs@),
    }
}

fn contains_string(fs: &Vec<String>, s: &String) -> (r: bool)
    ensures
        r == seq_contains_str(fs@, s@),
{
    let mut i: usize = 0;
    while i < fs.len()
        invariant
            0 <= i <= fs@.len(),
            forall|j: int| 0 <= j < i ==> fs@[j]@ != s@,
        decreases fs@.len() - i,
    {
        if fs[i] == *s {
            return true;
        }
        i = i + 1;
    }
    false
}

/// Whether `tx` passes the address allow-list; see `spec_include`.
pub fn include_tx(tx: &NormalizedTx, filters: Option<&Vec<String>>) -> (r: bool)
    ensures
        r == spec_include(*tx, filters_view(filters)),
{
    match filters {
        None => true,
        Some(fs) => {
            let from_match = contains_string(fs, &tx.from);
            let to_match = match &tx.to {
                Some(a) => contains_string(fs, a),
                None => false,
            };
            from_match || to_match
        },
    }
}

/// Keeps exactly the transactions that pass the allow-list, in order.
pub fn filter_txs(txs: &Vec<NormalizedTx>, filters: Option<&Vec<String>>) -> (r: Vec<NormalizedTx>)
    ensures
        r@ == txs@.filter(|t: NormalizedTx| spec_include(t, filters_view(filters))),
{
    let ghost pred = |t: NormalizedTx| spec_include(t, filters_view(filters));
    let mut r: Vec<NormalizedTx> = Vec::new();
    let mut i: usize = 0;
    proof {
        assert(txs@.take(0).filter(pred) =~= Seq::<NormalizedTx>::empty()) by {
            reveal_with_fuel(Seq::filter, 1);
        }
    }
    while i < txs.len()
        invariant
            0 <= i <= txs@.len(),
            r@ == txs@.take(i as int).filter(pred),
            pred == (|t: NormalizedTx| spec_include(t, filters_view(filters))),
        decreases txs@.len() - i,
    {
        proof {
            lemma_filter_take_step(txs@, pred, i as int);
        }
        if include_tx(&txs[i], filters) {
            r.push(txs[i].clone());
        }
        i = i + 1;
    }
    proof {
        assert(txs@.take(txs@.len() as int) =~= txs@);
    }
    r
}

proof fn lemma_filter_take_step<A>(s: Seq<A>, pred: spec_fn(A) -> bool, i: int)
    requires
        0 <= i < s.len(),
    ensures
        s.take(i + 1).filter(pred) == (if pred(s[i]) {
            s.take(i).filter(pred).push(s[i])
        } else {
            s.take(i).filter(pred)
        }),
{
    reveal_with_fuel(Seq::filter, 1);
    let t = s.take(i + 1);
    assert(t.drop_last() =~= s.take(i));
    assert(t.last() == s[i]);
    if pred(s[i]) {
        assert(t.filter(pred) =~= s.take(i).filter(pred).push(s[i]));
    } else {
        assert(t.filter(pred) =~= s.take(i).filter(pred));
    }
}

/// The inclusive block-number window `[start, head]` that a request for the
/// most recent `count` blocks covers: `start` is `head - (count - 1)`,
/// saturating at zero. A request for zero blocks covers no window.
pub fn recent_block_range(head: u64, count: u64) -> (r: Option<(u64, u64)>)
    ensures
        r is Some <==> count > 0,
        count > 0 ==> r == Some(
            ((if count - 1 <= head {
                (head - (count - 1)) as u64
            } else {
                0u64
            }), head),
        ),
{
    if count == 0 {
        None
    } else if count - 1 <= head {
        Some((head - (count - 1), head))
    } else {
        Some((0, head))
    }
}

/// Normalizes a block and its inline transactions. A block without a number
/// or hash cannot be stored and yields nothing; the caller falls back to
/// fetching it another way or skips it.
pub fn normalize_block(raw: RawBlock) -> (r: Option<(BlockInfo, Vec<NormalizedTx>)>)
    ensures
        r is Some <==> (raw.number is Some && raw.hash is Some),
        r matches Some((bi, txs)) ==> {
            &&& raw.number == Some(bi.number)
            &&& raw.hash == Some(bi.hash)
            &&& bi.timestamp == raw.timestamp
            &&& txs@.len() == raw.transactions@.len()
            &&& forall|i: int|
                0 <= i < txs@.len() ==> txs@[i] == spec_normalize_confirmed(
                    raw.transactions@[i],
                    bi.number,
                    bi.timestamp,
                )
        },
{
    let RawBlock { number, hash, timestamp, transactions } = raw;
    let number = match number {
        Some(n) => n,
        None => {
            return None;
        },
    };
    let hash = match hash {
        Some(h) => h,
        None => {
            return None;
        },
    };
    let mut txs: Vec<NormalizedTx> = Vec::new();
    let mut src = transactions;
    let ghost all = src@;
    let total: usize = src.len();
    let mut i: usize = 0;
    while src.len() > 0
        invariant
            all.len() == total,
            i + src@.len() == all.len(),
            txs@.len() == i,
            src@ == all.skip(i as int),
            forall|j: int|
                0 <= j < i ==> txs@[j] == spec_normalize_confirmed(all[j], number, timestamp),
        decreases src@.len(),
    {
        let raw_tx = src.remove(0);
        proof {
            assert(raw_tx == all[i as int]);
            assert(all.skip(i as int).skip(1) =~= all.skip(i + 1));
        }
        txs.push(normalize_tx(raw_tx, number, timestamp));
        i = i + 1;
    }
    Some((BlockInfo { number, hash, timestamp }, txs))
}

} // verus!
