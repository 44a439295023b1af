//! The storage engine: the single source of truth for blocks and
//! transactions. Writes are idempotent on each entity's identity (the
//! transaction hash, the block number); reads are aggregate projections with
//! deterministic semantics over whatever rows are present.

use vstd::prelude::*;
use vstd::pervasive::VecAdditionalExecFns;
use vstd::arithmetic::div_mod::{lemma_div_is_ordered, lemma_div_multiples_vanish};
use vstd::arithmetic::mul::{lemma_mul_inequality, lemma_mul_is_distributive_add_other_way};

use crate::models::{recency_key, BlockInfo, GasStats, NormalizedTx, TopSender};
use crate::text::{all_digits, dec_val, lemma_dec_val_bounds, parse_decimal_18, pow10};

verus! {

broadcast use vstd::seq_lib::group_to_multiset_ensures;

/// Whether some stored transaction already carries this hash.
pub open spec fn has_hash(rows: Seq<NormalizedTx>, hash: Seq<char>) -> bool {
    exists|i: int| 0 <= i < rows.len() && rows[i].hash@ == hash
}

/// Whether some stored block already carries this number.
pub open spec fn has_block_number(rows: Seq<BlockInfo>, number: int) -> bool {
    exists|i: int| 0 <= i < rows.len() && rows[i].number == number
}

/// Insert-or-ignore of one transaction: a previously seen hash is a silent
/// no-op, a new one is appended.
pub open spec fn spec_insert_tx(rows: Seq<NormalizedTx>, t: NormalizedTx) -> Seq<NormalizedTx> {
    if has_hash(rows, t.hash@) {
        rows
    } else {
        rows.push(t)
    }
}

/// Insert-or-ignore of a whole batch, first element first.
pub open spec fn spec_insert_batch(rows: Seq<NormalizedTx>, batch: Seq<NormalizedTx>) -> Seq<
    NormalizedTx,
>
    decreases batch.len(),
{
    if batch.len() == 0 {
        rows
    } else {
        spec_insert_batch(spec_insert_tx(rows, batch[0]), batch.drop_first())
    }
}

/// Insert-or-ignore of one block: a previously seen number is a silent
/// no-op, a new one is appended.
pub open spec fn spec_insert_block(rows: Seq<BlockInfo>, b: BlockInfo) -> Seq<BlockInfo> {
    if has_block_number(rows, b.number as int) {
        rows
    } else {
        rows.push(b)
    }
}

/// The storage engine. Rows live for the data lifetime of the process:
/// created once by insertion, never updated or deleted.
pub struct Storage {
    blocks: Vec<BlockInfo>,
    txs: Vec<NormalizedTx>,
}

impl Storage {
    /// The stored blocks, in insertion order.
    pub closed spec fn blocks(&self) -> Seq<BlockInfo> {
        self.blocks@
    }

    /// The stored transactions, in insertion order.
    pub closed spec fn txs(&self) -> Seq<NormalizedTx> {
        self.txs@
    }

    /// Well-formedness: each transaction hash and each block number appears
    /// at most once, and the row count stays within the signed 64-bit range
    /// that the count aggregates use.
    pub open spec fn wf(&self) -> bool {
        &&& forall|i: int, j: int|
            0 <= i < j < self.txs().len() ==> self.txs()[i].hash@ != self.txs()[j].hash@
        &&& forall|i: int, j: int|
            0 <= i < j < self.blocks().len() ==> self.blocks()[i].number != self.blocks()[j].number
        &&& self.txs().len() <= i64::MAX
    }

    /// An empty store.
    pub fn new() -> (r: Self)
        ensures
            r.wf(),
            r.blocks() == Seq::<BlockInfo>::empty(),
            r.txs() == Seq::<NormalizedTx>::empty(),
    {
        Storage { blocks: Vec::new(), txs: Vec::new() }
    }

    fn contains_hash(&self, hash: &String) -> (r: bool)
        ensures
            r == has_hash(self.txs(), hash@),
    {
        let mut i: usize = 0;
        while i < self.txs.len()
            invariant
                0 <= i <= self.txs@.len(),
                forall|j: int| 0 <= j < i ==> self.txs@[j].hash@ != hash@,
            decreases self.txs@.len() - i,
        {
            if self.txs[i].hash == *hash {
                return true;
            }
            i = i + 1;
        }
        false
    }

    fn contains_block_number(&self, number: i64) -> (r: bool)
        ensures
            r == has_block_number(self.blocks(), number as int),
    {
        let mut i: usize = 0;
        while i < self.blocks.len()
            invariant
                0 <= i <= self.blocks@.len(),
                forall|j: int| 0 <= j < i ==> self.blocks@[j].number != number,
            decreases self.blocks@.len() - i,
        {
            if self.blocks[i].number == number {
                return true;
            }
            i = i + 1;
        }
        false
    }

    /// Stores a block. Re-inserting a previously seen number is a silent
    /// no-op; nothing else changes either way.
    pub fn insert_block(&mut self, block: &BlockInfo)
        requires
            old(self).wf(),
        ensures
            final(self).wf(),
            final(self).txs() == old(self).txs(),
            final(self).blocks() == spec_insert_block(old(self).blocks(), *block),
    {
        if !self.contains_block_number(block.number) {
            self.blocks.push(block.clone());
        }
    }

    /// Stores a batch of transactions, first element first, each
    /// insert-or-ignore on the hash. In-memory rows cannot fail partway, so
    /// the whole batch always becomes visible at once.
    pub fn insert_transactions(&mut self, batch: &Vec<NormalizedTx>)
        requires
            old(self).wf(),
            old(self).txs().len() + batch@.len() <= i64::MAX,
        ensures
            final(self).wf(),
            final(self).blocks() == old(self).blocks(),
            final(self).txs() == spec_insert_batch(old(self).txs(), batch@),
    {
        let ghost orig = self.txs@;
        let mut i: usize = 0;
        proof {
            assert(batch@.skip(0) =~= batch@);
        }
        while i < batch.len()
            invariant
                0 <= i <= batch@.len(),
                self.wf(),
                self.blocks() == old(self).blocks(),
                self.txs().len() <= orig.len() + i,
                orig.len() + batch@.len() <= i64::MAX,
                spec_insert_batch(orig, batch@) == spec_insert_batch(
                    self.txs(),
                    batch@.skip(i as int),
                ),
            decreases batch@.len() - i,
        {
            proof {
                assert(batch@.skip(i as int)[0] == batch@[i as int]);
                assert(batch@.skip(i as int).drop_first() =~= batch@.skip(i + 1));
            }
            if !self.contains_hash(&batch[i].hash) {
                self.txs.push(batch[i].clone());
            }
            i = i + 1;
        }
        proof {
            assert(batch@.skip(batch@.len() as int) =~= Seq::<NormalizedTx>::empty());
        }
    }

    /// How many transaction rows are stored.
    pub fn tx_count(&self) -> (r: usize)
        ensures
            r == self.txs().len(),
    {
        self.txs.len()
    }

    /// How many block rows are stored.
    pub fn block_count(&self) -> (r: usize)
        ensures
            r == self.blocks().len(),
    {
        self.blocks.len()
    }
}

/// How many transactions of `rows` were sent from `addr`.
pub open spec fn count_from(rows: Seq<NormalizedTx>, addr: Seq<char>) -> int
    decreases rows.len(),
{
    if rows.len() == 0 {
        0
    } else {
        count_from(rows.drop_last(), addr) + if rows.last().from@ == addr {
            1int
        } else {
            0int
        }
    }
}

/// Law: re-inserting a transaction whose hash is already present leaves the
/// stored rows — row count and field values — unchanged.
pub proof fn lemma_insert_tx_idempotent(rows: Seq<NormalizedTx>, t: NormalizedTx)
    requires
        has_hash(rows, t.hash@),
    ensures
        spec_insert_tx(rows, t) == rows,
{
}

/// Law: a batch all of whose hashes are already present leaves the stored
/// rows unchanged.
pub proof fn lemma_insert_batch_idempotent(rows: Seq<NormalizedTx>, batch: Seq<NormalizedTx>)
    requires
        forall|i: int| 0 <= i < batch.len() ==> has_hash(rows, #[trigger] batch[i].hash@),
    ensures
        spec_insert_batch(rows, batch) == rows,
    decreases batch.len(),
{
    if batch.len() > 0 {
        assert(spec_insert_tx(rows, batch[0]) == rows);
        assert(forall|i: int|
            0 <= i < batch.drop_first().len() ==> has_hash(
                rows,
                #[trigger] batch.drop_first()[i].hash@,
            ));
        lemma_insert_batch_idempotent(rows, batch.drop_first());
    }
}

/// Whether `s` is ordered by recency key, newest first. Pending rows rank
/// as key zero, below every confirmed row.
pub open spec fn sorted_desc_by_recency(s: Seq<NormalizedTx>) -> bool {
    forall|i: int, j: int|
        0 <= i < j < s.len() ==> recency_key(s[i]) >= recency_key(s[j])
}

fn recency_key_exec(t: &NormalizedTx) -> (k: i64)
    ensures
        k as int == recency_key(*t),
{
    match t.timestamp {
        Some(ts) => ts,
        None => 0,
    }
}

fn max_recency_index(v: &Vec<NormalizedTx>) -> (m: usize)
    requires
        v@.len() > 0,
    ensures
        0 <= m < v@.len(),
        forall|j: int| 0 <= j < v@.len() ==> recency_key(v@[j]) <= recency_key(v@[m as int]),
{
    let mut m: usize = 0;
    let mut best: i64 = recency_key_exec(&v[0]);
    let mut i: usize = 1;
    while i < v.len()
        invariant
            0 <= m < i <= v@.len(),
            best as int == recency_key(v@[m as int]),
            forall|j: int| 0 <= j < i ==> recency_key(v@[j]) <= best as int,
        decreases v@.len() - i,
    {
        let k = recency_key_exec(&v[i]);
        if k > best {
            m = i;
            best = k;
        }
        i = i + 1;
    }
    m
}

fn sort_txs_by_recency_desc(input: Vec<NormalizedTx>) -> (r: Vec<NormalizedTx>)
    ensures
        r@.to_multiset() == input@.to_multiset(),
        sorted_desc_by_recency(r@),
{
    broadcast use vstd::multiset::group_multiset_axioms;

    let ghost orig = input@;
    let mut src = input;
    let mut out: Vec<NormalizedTx> = Vec::new();
    proof {
        assert(out@.to_multiset().add(src@.to_multiset()) =~= orig.to_multiset());
    }
    while src.len() > 0
        invariant
            out@.to_multiset().add(src@.to_multiset()) == orig.to_multiset(),
            sorted_desc_by_recency(out@),
            forall|a: int, b: int|
                0 <= a < out@.len() && 0 <= b < src@.len() ==> recency_key(out@[a]) >= recency_key(
                    src@[b],
                ),
        decreases src@.len(),
    {
        let ghost pre_out = out@;
        let ghost pre_src = src@;
        let m = max_recency_index(&src);
        let x = src.remove(m);
        out.push(x);
        proof {
            assert(forall|b: int|
                0 <= b < src@.len() ==> recency_key(src@[b]) <= recency_key(x));
            assert(out@.to_multiset().add(src@.to_multiset()) =~= orig.to_multiset());
        }
    }
    out
}

impl Storage {
    /// The stored transactions ordered newest first by `recency_key` — a
    /// pending row sorts as timestamp zero, below every confirmed row —
    /// capped at `limit`. Rows tied on the key come in an unspecified order.
    pub fn get_recent_transactions(&self, limit: usize) -> (r: Vec<NormalizedTx>)
        ensures
            r@.len() == vstd::math::min(limit as int, self.txs().len() as int),
            sorted_desc_by_recency(r@),
            exists|perm: Seq<NormalizedTx>|
                {
                    &&& perm.to_multiset() == self.txs().to_multiset()
                    &&& sorted_desc_by_recency(perm)
                    &&& r@ == perm.take(vstd::math::min(limit as int, self.txs().len() as int))
                },
    {
        let mut copy: Vec<NormalizedTx> = Vec::new();
        let mut i: usize = 0;
        while i < self.txs.len()
            invariant
                0 <= i <= self.txs@.len(),
                copy@ == self.txs@.take(i as int),
            decreases self.txs@.len() - i,
        {
            copy.push(self.txs[i].clone());
            proof {
                assert(copy@ =~= self.txs@.take(i + 1));
            }
            i = i + 1;
        }
        proof {
            assert(self.txs@.take(self.txs@.len() as int) =~= self.txs@);
        }
        let mut r = sort_txs_by_recency_desc(copy);
        let ghost perm = r@;
        proof {
            assert(perm.len() == self.txs().len()) by {
                perm.to_multiset_ensures();
                self.txs().to_multiset_ensures();
            }
        }
        r.truncate(limit);
        proof {
            if limit as int <= perm.len() {
                assert(r@ == perm.take(vstd::math::min(limit as int, self.txs().len() as int)));
            } else {
                assert(r@ =~= perm.take(vstd::math::min(limit as int, self.txs().len() as int)));
            }
        }
        r
    }
}

/// Whether `s` is ordered by transaction count, largest first.
pub open spec fn sorted_desc_by_count(s: Seq<TopSender>) -> bool {
    forall|i: int, j: int| 0 <= i < j < s.len() ==> s[i].count >= s[j].count
}

/// Whether `tally` is exactly the sender tally of `rows`: one entry per
/// distinct sender, carrying that sender's transaction count.
pub open spec fn is_sender_tally(rows: Seq<NormalizedTx>, tally: Seq<TopSender>) -> bool {
    &&& forall|i: int|
        0 <= i < tally.len() ==> (#[trigger] tally[i]).count == count_from(
            rows,
            tally[i].address@,
        )
    &&& forall|i: int| 0 <= i < tally.len() ==> (#[trigger] tally[i]).count >= 1
    &&& forall|i: int, j: int|
        0 <= i < j < tally.len() ==> (#[trigger] tally[i]).address@ != (#[trigger] tally[j]).address@
    &&& forall|k: int|
        0 <= k < rows.len() ==> exists|i: int|
            0 <= i < tally.len() && (#[trigger] tally[i]).address@ == (#[trigger] rows[k]).from@
}

/// A sender's count never exceeds the row count.
pub proof fn lemma_count_from_le(rows: Seq<NormalizedTx>, addr: Seq<char>)
    ensures
        0 <= count_from(rows, addr) <= rows.len(),
    decreases rows.len(),
{
    if rows.len() > 0 {
        lemma_count_from_le(rows.drop_last(), addr);
    }
}

proof fn lemma_count_from_zero(rows: Seq<NormalizedTx>, addr: Seq<char>)
    requires
        forall|i: int| 0 <= i < rows.len() ==> (#[trigger] rows[i]).from@ != addr,
    ensures
        count_from(rows, addr) == 0,
    decreases rows.len(),
{
    if rows.len() > 0 {
        assert(forall|i: int|
            0 <= i < rows.len() - 1 ==> rows.drop_last()[i] == rows[i]);
        lemma_count_from_zero(rows.drop_last(), addr);
    }
}

proof fn lemma_count_from_take_step(rows: Seq<NormalizedTx>, k: int, addr: Seq<char>)
    requires
        0 <= k < rows.len(),
    ensures
        count_from(rows.take(k + 1), addr) == count_from(rows.take(k), addr) + (
        if rows[k].from@ == addr {
            1int
        } else {
            0int
        }),
{
    assert(rows.take(k + 1).drop_last() =~= rows.take(k));
    assert(rows.take(k + 1).last() == rows[k]);
}

fn find_address(tally: &Vec<TopSender>, addr: &String) -> (r: Option<usize>)
    ensures
        match r {
            Some(m) => 0 <= m < tally@.len() && tally@[m as int].address@ == addr@,
            None => forall|i: int| 0 <= i < tally@.len() ==> tally@[i].address@ != addr@,
        },
{
    let mut i: usize = 0;
    while i < tally.len()
        invariant
            0 <= i <= tally@.len(),
            forall|j: int| 0 <= j < i ==> tally@[j].address@ != addr@,
        decreases tally@.len() - i,
    {
        if tally[i].address == *addr {
            return Some(i);
        }
        i = i + 1;
    }
    None
}

fn tally_senders(rows: &Vec<NormalizedTx>) -> (t: Vec<TopSender>)
    requires
        rows@.len() <= i64::MAX,
    ensures
        is_sender_tally(rows@, t@),
{
    let mut tally: Vec<TopSender> = Vec::new();
    let mut k: usize = 0;
    proof {
        assert(rows@.take(0) =~= Seq::<NormalizedTx>::empty());
    }
    while k < rows.len()
        invariant
            0 <= k <= rows@.len(),
            rows@.len() <= i64::MAX,
            is_sender_tally(rows@.take(k as int), tally@),
        decreases rows@.len() - k,
    {
        let ghost pre = tally@;
        let ghost taken = rows@.take(k as int);
        proof {
            assert(rows@.take(k + 1).drop_last() =~= taken);
            assert forall|a: Seq<char>| true implies count_from(rows@.take(k + 1), a)
                == count_from(taken, a) + (if rows@[k as int].from@ == a {
                1int
            } else {
                0int
            }) by {
                lemma_count_from_take_step(rows@, k as int, a);
            }
        }
        match find_address(&tally, &rows[k].from) {
            Some(m) => {
                let addr = tally[m].address.clone();
                let c = tally[m].count;
                proof {
                    lemma_count_from_le(taken, addr@);
                }
                tally.set(m, TopSender { address: addr, count: c + 1 });
                proof {
                    assert forall|i: int|
                        0 <= i < tally@.len() implies (#[trigger] tally@[i]).count == count_from(
                        rows@.take(k + 1),
                        tally@[i].address@,
                    ) by {
                        if i == m {
                            assert(tally@[i].address@ == rows@[k as int].from@);
                        } else {
                            assert(tally@[i] == pre[i]);
                            assert(pre[i].address@ != pre[m as int].address@);
                        }
                    }
                    assert forall|kk: int|
                        0 <= kk < rows@.take(k + 1).len() implies exists|i: int|
                        0 <= i < tally@.len() && (#[trigger] tally@[i]).address@ == (
                        #[trigger] rows@.take(k + 1)[kk]).from@ by {
                        if kk < k {
                            let i = choose|i: int|
                                0 <= i < pre.len() && pre[i].address@ == taken[kk].from@;
                            assert(tally@[i].address@ == pre[i].address@);
                        } else {
                            assert(tally@[m as int].address@ == rows@[k as int].from@);
                        }
                    }
                }
            },
            None => {
                proof {
                    assert forall|i: int|
                        0 <= i < taken.len() implies (#[trigger] taken[i]).from@
                        != rows@[k as int].from@ by {
                        let t = choose|t: int|
                            0 <= t < pre.len() && pre[t].address@ == taken[i].from@;
                    }
                    lemma_count_from_zero(taken, rows@[k as int].from@);
                }
                tally.push(TopSender { address: rows[k].from.clone(), count: 1 });
                proof {
                    assert forall|kk: int|
                        0 <= kk < rows@.take(k + 1).len() implies exists|i: int|
                        0 <= i < tally@.len() && (#[trigger] tally@[i]).address@ == (
                        #[trigger] rows@.take(k + 1)[kk]).from@ by {
                        if kk < k {
                            let i = choose|i: int|
                                0 <= i < pre.len() && pre[i].address@ == taken[kk].from@;
                            assert(tally@[i].address@ == pre[i].address@);
                        } else {
                            assert(tally@[pre.len() as int].address@ == rows@[k as int].from@);
                        }
                    }
                }
            },
        }
        k = k + 1;
    }
    proof {
        assert(rows@.take(rows@.len() as int) =~= rows@);
    }
    tally
}

fn max_count_index(v: &Vec<TopSender>) -> (m: usize)
    requires
        v@.len() > 0,
    ensures
        0 <= m < v@.len(),
        forall|j: int| 0 <= j < v@.len() ==> v@[j].count <= v@[m as int].count,
{
    let mut m: usize = 0;
    let mut best: i64 = v[0].count;
    let mut i: usize = 1;
    while i < v.len()
        invariant
            0 <= m < i <= v@.len(),
            best == v@[m as int].count,
            forall|j: int| 0 <= j < i ==> v@[j].count <= best,
        decreases v@.len() - i,
    {
        if v[i].count > best {
            m = i;
            best = v[i].count;
        }
        i = i + 1;
    }
    m
}

fn sort_tally_by_count_desc(input: Vec<TopSender>) -> (r: Vec<TopSender>)
    ensures
        r@.to_multiset() == input@.to_multiset(),
        sorted_desc_by_count(r@),
{
    broadcast use vstd::multiset::group_multiset_axioms;

    let ghost orig = input@;
    let mut src = input;
    let mut out: Vec<TopSender> = Vec::new();
    proof {
        assert(out@.to_multiset().add(src@.to_multiset()) =~= orig.to_multiset());
    }
    while src.len() > 0
        invariant
            out@.to_multiset().add(src@.to_multiset()) == orig.to_multiset(),
            sorted_desc_by_count(out@),
            forall|a: int, b: int|
                0 <= a < out@.len() && 0 <= b < src@.len() ==> out@[a].count >= src@[b].count,
        decreases src@.len(),
    {
        let m = max_count_index(&src);
        let x = src.remove(m);
        out.push(x);
        proof {
            assert(forall|b: int| 0 <= b < src@.len() ==> src@[b].count <= x.count);
            assert(out@.to_multiset().add(src@.to_multiset()) =~= orig.to_multiset());
        }
    }
    out
}

/// A sender tally transfers across any reordering of its entries.
proof fn lemma_tally_permutation(rows: Seq<NormalizedTx>, t1: Seq<TopSender>, t2: Seq<TopSender>)
    requires
        is_sender_tally(rows, t1),
        t2.to_multiset() == t1.to_multiset(),
    ensures
        is_sender_tally(rows, t2),
{
    broadcast use vstd::multiset::group_multiset_axioms;

    t1.to_multiset_ensures();
    t2.to_multiset_ensures();
    assert forall|i: int|
        0 <= i < t2.len() implies (#[trigger] t2[i]).count == count_from(rows, t2[i].address@)
        && t2[i].count >= 1 by {
        assert(t2.contains(t2[i]));
        assert(t2.to_multiset().count(t2[i]) > 0);
        assert(t1.to_multiset().count(t2[i]) > 0);
        assert(t1.contains(t2[i]));
        let j = choose|j: int| 0 <= j < t1.len() && t1[j] == t2[i];
    }
    assert forall|i: int, j: int|
        0 <= i < j < t2.len() implies (#[trigger] t2[i]).address@ != (
    #[trigger] t2[j]).address@ by {
        if t2[i].address@ == t2[j].address@ {
            assert(t2.contains(t2[i]));
            assert(t2.to_multiset().count(t2[i]) > 0);
            assert(t1.to_multiset().count(t2[i]) > 0);
            assert(t1.contains(t2[i]));
            assert(t2.contains(t2[j]));
            assert(t2.to_multiset().count(t2[j]) > 0);
            assert(t1.to_multiset().count(t2[j]) > 0);
            assert(t1.contains(t2[j]));
            let a = choose|a: int| 0 <= a < t1.len() && t1[a] == t2[i];
            let b = choose|b: int| 0 <= b < t1.len() && t1[b] == t2[j];
            assert(a == b);
            let v = t2[i];
            assert(t2[j] == v);
            let s = t2.remove(i);
            vstd::seq_lib::to_multiset_remove(t2, i);
            assert(s[j - 1] == t2[j]) by {
                assert(s =~= t2.take(i) + t2.skip(i + 1));
            }
            assert(s.contains(v));
            s.to_multiset_ensures();
            assert(s.to_multiset().count(v) > 0);
            assert(s.to_multiset() == t2.to_multiset().remove(v));
            assert(t2.to_multiset().remove(v).count(v) == t2.to_multiset().count(v) - 1);
            assert(t2.to_multiset().count(v) >= 2);
            assert(t1.no_duplicates()) by {
                assert forall|x: int, y: int|
                    0 <= x < t1.len() && 0 <= y < t1.len() && x != y implies t1[x] != t1[y] by {
                    if x < y {
                        assert(t1[x].address@ != t1[y].address@);
                    } else {
                        assert(t1[y].address@ != t1[x].address@);
                    }
                }
            }
            t1.lemma_multiset_has_no_duplicates();
            assert(t1.to_multiset().count(v) == 1);
        }
    }
    assert forall|k: int|
        0 <= k < rows.len() implies exists|i: int|
        0 <= i < t2.len() && (#[trigger] t2[i]).address@ == (#[trigger] rows[k]).from@ by {
        let j = choose|j: int| 0 <= j < t1.len() && (#[trigger] t1[j]).address@ == rows[k].from@;
        assert(t1.contains(t1[j]));
        assert(t1.to_multiset().count(t1[j]) > 0);
        assert(t2.to_multiset().count(t1[j]) > 0);
        assert(t2.contains(t1[j]));
        let i = choose|i: int| 0 <= i < t2.len() && t2[i] == t1[j];
        assert(t2[i].address@ == rows[k].from@);
    }
}

impl Storage {
    /// The senders with the most stored transactions, largest count first,
    /// capped at `limit`: each returned entry carries a sender's exact
    /// transaction count, no sender appears twice, and the returned entries
    /// are a prefix of some full sender tally ordered by count — so no
    /// omitted sender outranks a returned one. Ties come in an unspecified
    /// order.
    pub fn get_top_senders(&self, limit: usize) -> (r: Vec<TopSender>)
        requires
            self.wf(),
        ensures
            sorted_desc_by_count(r@),
            forall|i: int|
                0 <= i < r@.len() ==> (#[trigger] r@[i]).count == count_from(
                    self.txs(),
                    r@[i].address@,
                ) && r@[i].count >= 1,
            forall|i: int, j: int|
                0 <= i < j < r@.len() ==> (#[trigger] r@[i]).address@ != (#[trigger] r@[j]).address@,
            exists|tally: Seq<TopSender>|
                {
                    &&& is_sender_tally(self.txs(), tally)
                    &&& sorted_desc_by_count(tally)
                    &&& r@ == tally.take(vstd::math::min(limit as int, tally.len() as int))
                },
    {
        let tally = tally_senders(&self.txs);
        let ghost unsorted = tally@;
        let mut r = sort_tally_by_count_desc(tally);
        let ghost full = r@;
        proof {
            lemma_tally_permutation(self.txs(), unsorted, full);
            assert(full.len() == unsorted.len()) by {
                full.to_multiset_ensures();
                unsorted.to_multiset_ensures();
            }
        }
        r.truncate(limit);
        proof {
            if limit as int <= full.len() {
                assert(r@ == full.take(vstd::math::min(limit as int, full.len() as int)));
            } else {
                assert(r@ =~= full.take(vstd::math::min(limit as int, full.len() as int)));
            }
        }
        r
    }
}

/// How many block numbers among `rows` exceed `b`.
pub open spec fn count_numbers_greater(rows: Seq<BlockInfo>, b: int) -> int
    decreases rows.len(),
{
    if rows.len() == 0 {
        0
    } else {
        count_numbers_greater(rows.drop_last(), b) + if rows.last().number > b {
            1int
        } else {
            0int
        }
    }
}

/// Whether `b` is among the `n` highest block numbers present: it is stored,
/// and fewer than `n` stored numbers exceed it.
pub open spec fn in_recent_window(blocks: Seq<BlockInfo>, n: int, b: int) -> bool {
    has_block_number(blocks, b) && count_numbers_greater(blocks, b) < n
}

/// The numeric value of a row's legacy gas price (zero when absent).
pub open spec fn spec_gas_price_val(t: NormalizedTx) -> int {
    match t.gas_price_wei {
        Some(gp) => dec_val(gp@),
        None => 0,
    }
}

/// Whether a row feeds the gas aggregate over the last `n` blocks: confirmed
/// in a window block, with a purely numeric legacy gas price of at most 18
/// characters (the 64-bit accumulator guard). Fee-market rows, which carry a
/// max-fee instead of a gas price, are excluded by design.
pub open spec fn qualifies(t: NormalizedTx, blocks: Seq<BlockInfo>, n: int) -> bool {
    match (t.block_number, t.gas_price_wei) {
        (Some(b), Some(gp)) => in_recent_window(blocks, n, b as int) && all_digits(gp@) && 1
            <= gp@.len() <= 18,
        _ => false,
    }
}

/// How many rows qualify for the gas aggregate.
pub open spec fn q_count(rows: Seq<NormalizedTx>, blocks: Seq<BlockInfo>, n: int) -> int
    decreases rows.len(),
{
    if rows.len() == 0 {
        0
    } else {
        q_count(rows.drop_last(), blocks, n) + if qualifies(rows.last(), blocks, n) {
            1int
        } else {
            0int
        }
    }
}

/// The sum of the qualifying rows' gas prices.
pub open spec fn q_sum(rows: Seq<NormalizedTx>, blocks: Seq<BlockInfo>, n: int) -> int
    decreases rows.len(),
{
    if rows.len() == 0 {
        0
    } else {
        q_sum(rows.drop_last(), blocks, n) + if qualifies(rows.last(), blocks, n) {
            spec_gas_price_val(rows.last())
        } else {
            0int
        }
    }
}

impl Storage {
    fn in_window(&self, number: i64, n: usize) -> (r: bool)
        ensures
            r == in_recent_window(self.blocks(), n as int, number as int),
    {
        let mut found = false;
        let mut cnt: usize = 0;
        let mut i: usize = 0;
        proof {
            assert(self.blocks@.take(0) =~= Seq::<BlockInfo>::empty());
        }
        while i < self.blocks.len()
            invariant
                0 <= i <= self.blocks@.len(),
                cnt <= i,
                cnt == count_numbers_greater(self.blocks@.take(i as int), number as int),
                found == has_block_number(self.blocks@.take(i as int), number as int),
            decreases self.blocks@.len() - i,
        {
            proof {
                assert(self.blocks@.take(i + 1).drop_last() =~= self.blocks@.take(i as int));
                assert(self.blocks@.take(i + 1).last() == self.blocks@[i as int]);
            }
            let ghost pre_found = found;
            if self.blocks[i].number == number {
                found = true;
            }
            if self.blocks[i].number > number {
                cnt = cnt + 1;
            }
            proof {
                if found {
                    if pre_found {
                        let w = choose|w: int|
                            0 <= w < i && self.blocks@.take(i as int)[w].number == number as int;
                        assert(self.blocks@.take(i + 1)[w].number == number as int);
                    } else {
                        assert(self.blocks@.take(i + 1)[i as int].number == number as int);
                    }
                } else {
                    assert(forall|w: int|
                        0 <= w < i + 1 ==> self.blocks@.take(i + 1)[w] == self.blocks@[w]);
                }
            }
            i = i + 1;
        }
        proof {
            assert(self.blocks@.take(self.blocks@.len() as int) =~= self.blocks@);
        }
        found && cnt < n
    }

    /// Gas-price statistics over the transactions confirmed in the
    /// `last_n_blocks` highest stored blocks whose legacy gas price is a
    /// purely numeric string of at most 18 characters: the minimum, maximum
    /// and integer-average price of that set, with `min <= avg <= max`, or
    /// nothing when no row qualifies.
    pub fn get_gas_stats(&self, last_n_blocks: usize) -> (r: Option<GasStats>)
        ensures
            r is Some <==> q_count(self.txs(), self.blocks(), last_n_blocks as int) > 0,
            r matches Some(g) ==> {
                &&& exists|i: int|
                    0 <= i < self.txs().len() && qualifies(
                        #[trigger] self.txs()[i],
                        self.blocks(),
                        last_n_blocks as int,
                    ) && spec_gas_price_val(self.txs()[i]) == g.min
                &&& exists|i: int|
                    0 <= i < self.txs().len() && qualifies(
                        #[trigger] self.txs()[i],
                        self.blocks(),
                        last_n_blocks as int,
                    ) && spec_gas_price_val(self.txs()[i]) == g.max
                &&& forall|i: int|
                    0 <= i < self.txs().len() && qualifies(
                        #[trigger] self.txs()[i],
                        self.blocks(),
                        last_n_blocks as int,
                    ) ==> g.min <= spec_gas_price_val(self.txs()[i]) <= g.max
                &&& g.avg == q_sum(self.txs(), self.blocks(), last_n_blocks as int) / q_count(
                    self.txs(),
                    self.blocks(),
                    last_n_blocks as int,
                )
                &&& g.min <= g.avg <= g.max
            },
    {
        let n = last_n_blocks;
        let ghost blocks = self.blocks@;
        let ghost rows = self.txs@;
        let mut cnt: u64 = 0;
        let mut sum: u128 = 0;
        let mut mn: i64 = 0;
        let mut mx: i64 = 0;
        let mut i: usize = 0;
        proof {
            assert(rows.take(0) =~= Seq::<NormalizedTx>::empty());
        }
        while i < self.txs.len()
            invariant
                0 <= i <= rows.len(),
                rows == self.txs@,
                blocks == self.blocks@,
                cnt <= i,
                cnt == q_count(rows.take(i as int), blocks, n as int),
                sum == q_sum(rows.take(i as int), blocks, n as int),
                cnt == 0 ==> sum == 0,
                cnt > 0 ==> 0 <= mn <= mx < 1_000_000_000_000_000_000,
                cnt > 0 ==> exists|j: int|
                    0 <= j < i && qualifies(#[trigger] rows[j], blocks, n as int)
                        && spec_gas_price_val(rows[j]) == mn,
                cnt > 0 ==> exists|j: int|
                    0 <= j < i && qualifies(#[trigger] rows[j], blocks, n as int)
                        && spec_gas_price_val(rows[j]) == mx,
                forall|j: int|
                    0 <= j < i && qualifies(#[trigger] rows[j], blocks, n as int) ==> mn
                        <= spec_gas_price_val(rows[j]) <= mx,
                cnt * mn <= sum <= cnt * mx,
            decreases rows.len() - i,
        {
            proof {
                assert(rows.take(i + 1).drop_last() =~= rows.take(i as int));
                assert(rows.take(i + 1).last() == rows[i as int]);
            }
            let q: Option<i64> = match (self.txs[i].block_number, &self.txs[i].gas_price_wei) {
                (Some(b), Some(gp)) => {
                    if self.in_window(b, n) {
                        parse_decimal_18(gp.as_str())
                    } else {
                        None
                    }
                },
                _ => None,
            };
            let ghost pre_cnt = cnt;
            let ghost pre_sum = sum;
            let ghost pre_mn = mn;
            let ghost pre_mx = mx;
            match q {
                Some(v) => {
                    proof {
                        assert(qualifies(rows[i as int], blocks, n as int));
                        assert(v == spec_gas_price_val(rows[i as int]));
                        assert(0 <= v < 1_000_000_000_000_000_000) by {
                            let gp = rows[i as int].gas_price_wei->0;
                            lemma_dec_val_bounds(gp@);
                            lemma_pow10_le_18(gp@.len() as nat);
                        }
                    }
                    if cnt == 0 {
                        mn = v;
                        mx = v;
                    } else {
                        if v < mn {
                            mn = v;
                        }
                        if v > mx {
                            mx = v;
                        }
                    }
                    proof {
                        let c = pre_cnt as int;
                        let big: int = 999_999_999_999_999_999int;
                        assert(mn <= v <= mx);
                        vstd::arithmetic::mul::lemma_mul_is_commutative(c, pre_mn as int);
                        vstd::arithmetic::mul::lemma_mul_is_commutative(c, pre_mx as int);
                        vstd::arithmetic::mul::lemma_mul_is_commutative(c, mn as int);
                        vstd::arithmetic::mul::lemma_mul_is_commutative(c, mx as int);
                        vstd::arithmetic::mul::lemma_mul_is_commutative(c + 1, mn as int);
                        vstd::arithmetic::mul::lemma_mul_is_commutative(c + 1, mx as int);
                        if pre_cnt == 0 {
                            vstd::arithmetic::mul::lemma_mul_basics_1(mn as int);
                            vstd::arithmetic::mul::lemma_mul_basics_1(mx as int);
                            lemma_q_count_zero(rows.take(i as int), blocks, n as int);
                            assert forall|j: int|
                                0 <= j < i implies !qualifies(
                                #[trigger] rows[j],
                                blocks,
                                n as int,
                            ) by {
                                assert(rows.take(i as int)[j] == rows[j]);
                            }
                        } else {
                            assert(mn <= pre_mn && pre_mx <= mx);
                            lemma_mul_inequality(mn as int, pre_mn as int, c);
                            lemma_mul_inequality(pre_mx as int, mx as int, c);
                        }
                        lemma_mul_is_distributive_add_other_way(mn as int, c, 1int);
                        lemma_mul_is_distributive_add_other_way(mx as int, c, 1int);
                        vstd::arithmetic::mul::lemma_mul_basics_4(mn as int);
                        vstd::arithmetic::mul::lemma_mul_basics_4(mx as int);
                        assert((c + 1) * mn <= sum as int + v);
                        assert(sum as int + v <= (c + 1) * mx);
                        lemma_mul_inequality(mx as int, big, c + 1);
                        lemma_mul_inequality(c + 1, u64::MAX as int + 1, big);
                        vstd::arithmetic::mul::lemma_mul_is_commutative(c + 1, big);
                        assert(sum as int + v <= (u64::MAX as int + 1) * big);
                    }
                    sum = sum + (v as u128);
                    cnt = cnt + 1;
                },
                None => {
                    proof {
                        assert(!qualifies(rows[i as int], blocks, n as int));
                    }
                },
            }
            i = i + 1;
        }
        proof {
            assert(rows.take(rows.len() as int) =~= rows);
        }
        if cnt == 0 {
            None
        } else {
            let avg_u: u128 = sum / (cnt as u128);
            proof {
                let c = cnt as int;
                let s = sum as int;
                assert(c * mn <= s && s <= c * mx);
                lemma_div_is_ordered(c * mn, s, c);
                lemma_div_is_ordered(s, c * mx, c);
                lemma_div_multiples_vanish(mn as int, c);
                lemma_div_multiples_vanish(mx as int, c);
                assert((c * mn) / c == mn);
                assert((c * mx) / c == mx);
                assert(mn <= s / c <= mx);
                assert(avg_u as int == s / c) by {
                    assert(sum / (cnt as u128) == sum as int / (cnt as u128) as int);
                }
            }
            Some(GasStats { min: mn, max: mx, avg: avg_u as i64 })
        }
    }
}

proof fn lemma_pow10_le_18(n: nat)
    requires
        n <= 18,
    ensures
        pow10(n) <= 1_000_000_000_000_000_000,
    decreases 18 - n,
{
    reveal_with_fuel(pow10, 19);
    if n < 18 {
        lemma_pow10_le_18(n + 1);
    }
}

proof fn lemma_q_count_zero(rows: Seq<NormalizedTx>, blocks: Seq<BlockInfo>, n: int)
    requires
        q_count(rows, blocks, n) == 0,
    ensures
        forall|j: int| 0 <= j < rows.len() ==> !qualifies(#[trigger] rows[j], blocks, n),
    decreases rows.len(),
{
    if rows.len() > 0 {
        lemma_q_count_ge_zero(rows.drop_last(), blocks, n);
        lemma_q_count_zero(rows.drop_last(), blocks, n);
        assert(forall|j: int| 0 <= j < rows.len() - 1 ==> rows.drop_last()[j] == rows[j]);
        assert(rows[rows.len() - 1] == rows.last());
    }
}

proof fn lemma_q_count_ge_zero(rows: Seq<NormalizedTx>, blocks: Seq<BlockInfo>, n: int)
    ensures
        q_count(rows, blocks, n) >= 0,
    decreases rows.len(),
{
    if rows.len() > 0 {
        lemma_q_count_ge_zero(rows.drop_last(), blocks, n);
    }
}

/// Law: re-inserting a block whose number is already present leaves the
/// stored rows unchanged.
pub proof fn lemma_insert_block_idempotent(rows: Seq<BlockInfo>, b: BlockInfo)
    requires
        has_block_number(rows, b.number as int),
    ensures
        spec_insert_block(rows, b) == rows,
{
}

} // verus!
