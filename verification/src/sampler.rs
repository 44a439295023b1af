//! The pending-transaction sampling session as a state machine: time budget
//! and count cap enforced by the driver's bounded waits, per-hash fetch
//! outcomes folded in one at a time, the address filter applied, and batches
//! handed out for flushing whenever the buffer reaches its threshold plus a
//! final drain. The driver performs the waiting, fetching and writing and
//! reports each flush outcome back.

use vstd::prelude::*;

use crate::models::{NormalizedTx, RawTx};
use crate::normalize::{filters_view, include_tx, normalize_pending_tx, spec_include, spec_normalize_pending};

verus! {

/// The phases of one sampling session: receiving hashes, flushing the final
/// buffer, finished.
#[derive(Debug)]
pub enum SamplerPhase {
    Running,
    Draining,
    Done,
}

/// How the driver's per-hash transaction lookup went: a full transaction, a
/// transaction already gone from the mempool, or a fetch error. The last two
/// are skipped without aborting the session.
#[derive(Debug)]
pub enum FetchOutcome {
    Fetched(RawTx),
    Missing,
    Failed,
}

/// The observability counters one sampling session reports.
#[derive(Debug)]
pub struct PendingSampleStats {
    pub received: usize,
    pub fetched: usize,
    pub inserted: usize,
    pub insert_errors: usize,
}

impl Default for PendingSampleStats {
    fn default() -> (r: Self)
        ensures
            r.received == 0,
            r.fetched == 0,
            r.inserted == 0,
            r.insert_errors == 0,
    {
        PendingSampleStats { received: 0, fetched: 0, inserted: 0, insert_errors: 0 }
    }
}

/// What the buffer holds after folding in one fetch outcome: a fetched
/// transaction is normalized as pending and appended when it passes the
/// address filter; anything else leaves the buffer as it was.
pub open spec fn spec_buffer_after(
    pre: Seq<NormalizedTx>,
    outcome: FetchOutcome,
    filter: Option<Seq<String>>,
) -> Seq<NormalizedTx> {
    match outcome {
        FetchOutcome::Fetched(raw) => {
            if spec_include(spec_normalize_pending(raw), filter) {
                pre.push(spec_normalize_pending(raw))
            } else {
                pre
            }
        },
        _ => pre,
    }
}

/// One sampling session. The session owns every decision — counting,
/// normalization, filtering, batching, phase transitions — while the driver
/// owns the clock, the subscription and the storage writes.
pub struct PendingSampler {
    max_count: usize,
    flush_every: usize,
    filter: Option<Vec<String>>,
    received: usize,
    fetched: usize,
    inserted: usize,
    insert_errors: usize,
    buffer: Vec<NormalizedTx>,
    phase: SamplerPhase,
}

impl PendingSampler {
    /// Hashes received so far.
    pub closed spec fn received(&self) -> int {
        self.received as int
    }

    /// Transactions successfully fetched so far.
    pub closed spec fn fetched(&self) -> int {
        self.fetched as int
    }

    /// Rows from successfully flushed batches.
    pub closed spec fn inserted(&self) -> int {
        self.inserted as int
    }

    /// Failed flush attempts.
    pub closed spec fn insert_errors(&self) -> int {
        self.insert_errors as int
    }

    /// The cap on received hashes.
    pub closed spec fn max_count(&self) -> int {
        self.max_count as int
    }

    /// The flush threshold.
    pub closed spec fn flush_every(&self) -> int {
        self.flush_every as int
    }

    /// The address allow-list.
    pub closed spec fn filter_spec(&self) -> Option<Seq<String>> {
        match self.filter {
            None => None,
            Some(fs) => Some(fs@),
        }
    }

    /// The transactions buffered and not yet flushed.
    pub closed spec fn buffer(&self) -> Seq<NormalizedTx> {
        self.buffer@
    }

    /// Whether the session still accepts hashes.
    pub closed spec fn running(&self) -> bool {
        self.phase is Running
    }

    /// Whether the session awaits its final drain.
    pub closed spec fn draining(&self) -> bool {
        self.phase is Draining
    }

    /// Whether the session is finished.
    pub closed spec fn done(&self) -> bool {
        self.phase is Done
    }

    /// Session well-formedness: the threshold is positive, the buffer stays
    /// below it, the counters are consistent, a running session is under its
    /// cap, and every buffered row is a pending row that passed the filter.
    pub open spec fn wf(&self) -> bool {
        &&& self.flush_every() >= 1
        &&& self.received() <= self.max_count()
        &&& self.fetched() <= self.received()
        &&& self.buffer().len() < self.flush_every()
        &&& (self.running() ==> self.received() < self.max_count())
        &&& forall|i: int|
            0 <= i < self.buffer().len() ==> (#[trigger] self.buffer()[i]).block_number is None
                && self.buffer()[i].timestamp is None && spec_include(
                self.buffer()[i],
                self.filter_spec(),
            )
    }

    /// A fresh session. With a zero cap it starts out draining: it accepts
    /// no hash at all.
    pub fn new(max_count: usize, flush_every: usize, filter: Option<Vec<String>>) -> (r: Self)
        requires
            flush_every >= 1,
        ensures
            r.wf(),
            r.received() == 0,
            r.fetched() == 0,
            r.inserted() == 0,
            r.insert_errors() == 0,
            r.buffer() == Seq::<NormalizedTx>::empty(),
            r.max_count() == max_count,
            r.flush_every() == flush_every,
            r.filter_spec() == filters_view(match filter {
                Some(ref f) => Some(f),
                None => None,
            }),
            r.running() <==> max_count > 0,
            r.draining() <==> max_count == 0,
            !r.done(),
    {
        let phase = if max_count > 0 {
            SamplerPhase::Running
        } else {
            SamplerPhase::Draining
        };
        PendingSampler {
            max_count,
            flush_every,
            filter,
            received: 0,
            fetched: 0,
            inserted: 0,
            insert_errors: 0,
            buffer: Vec::new(),
            phase,
        }
    }

    /// Whether the session still accepts hashes.
    pub fn is_running(&self) -> (r: bool)
        ensures
            r == self.running(),
    {
        match self.phase {
            SamplerPhase::Running => true,
            _ => false,
        }
    }

    /// Whether the session awaits its final drain.
    pub fn is_draining(&self) -> (r: bool)
        ensures
            r == self.draining(),
    {
        match self.phase {
            SamplerPhase::Draining => true,
            _ => false,
        }
    }

    /// Whether the session is finished.
    pub fn is_done(&self) -> (r: bool)
        ensures
            r == self.done(),
    {
        match self.phase {
            SamplerPhase::Done => true,
            _ => false,
        }
    }

    /// Folds in one received hash together with its fetch outcome. The hash
    /// always counts as received; a fetched transaction counts as fetched,
    /// is normalized as pending, filtered, and buffered; a missing
    /// transaction or a failed fetch is skipped. When the buffer reaches the
    /// threshold it is handed back for flushing — the caller writes it and
    /// reports through `note_flush`. Receiving the `max_count`-th hash ends
    /// input: the session leaves `running` and awaits its final drain.
    pub fn process_hash(&mut self, outcome: FetchOutcome) -> (flush: Option<Vec<NormalizedTx>>)
        requires
            old(self).wf(),
            old(self).running(),
        ensures
            final(self).wf(),
            final(self).max_count() == old(self).max_count(),
            final(self).flush_every() == old(self).flush_every(),
            final(self).filter_spec() == old(self).filter_spec(),
            final(self).received() == old(self).received() + 1,
            final(self).fetched() == old(self).fetched() + (if outcome is Fetched {
                1int
            } else {
                0int
            }),
            final(self).inserted() == old(self).inserted(),
            final(self).insert_errors() == old(self).insert_errors(),
            final(self).running() <==> old(self).received() + 1 < old(self).max_count(),
            final(self).draining() <==> old(self).received() + 1 == old(self).max_count(),
            !final(self).done(),
            ({
                let buf1 = spec_buffer_after(old(self).buffer(), outcome, old(self).filter_spec());
                if buf1.len() >= old(self).flush_every() {
                    &&& flush matches Some(b) && b@ == buf1
                    &&& final(self).buffer() == Seq::<NormalizedTx>::empty()
                } else {
                    &&& flush is None
                    &&& final(self).buffer() == buf1
                }
            }),
    {
        self.received = self.received + 1;
        match outcome {
            FetchOutcome::Fetched(raw) => {
                self.fetched = self.fetched + 1;
                let t = normalize_pending_tx(raw);
                if include_tx(&t, self.filter.as_ref()) {
                    self.buffer.push(t);
                }
            },
            FetchOutcome::Missing => {},
            FetchOutcome::Failed => {},
        }
        let flush = if self.buffer.len() >= self.flush_every {
            let mut out: Vec<NormalizedTx> = Vec::new();
            core::mem::swap(&mut out, &mut self.buffer);
            Some(out)
        } else {
            None
        };
        if self.received >= self.max_count {
            self.phase = SamplerPhase::Draining;
        }
        flush
    }

    /// Ends input before the cap is reached: the wall-clock deadline passed,
    /// or the subscription stream closed. The session awaits its final
    /// drain; nothing else changes.
    pub fn end_input(&mut self)
        requires
            old(self).wf(),
            !old(self).done(),
        ensures
            final(self).wf(),
            final(self).draining(),
            final(self).max_count() == old(self).max_count(),
            final(self).flush_every() == old(self).flush_every(),
            final(self).filter_spec() == old(self).filter_spec(),
            final(self).received() == old(self).received(),
            final(self).fetched() == old(self).fetched(),
            final(self).inserted() == old(self).inserted(),
            final(self).insert_errors() == old(self).insert_errors(),
            final(self).buffer() == old(self).buffer(),
    {
        self.phase = SamplerPhase::Draining;
    }

    /// The final drain: hands back whatever is still buffered — also below
    /// the threshold — and finishes the session. An empty buffer needs no
    /// flush.
    pub fn drain(&mut self) -> (flush: Option<Vec<NormalizedTx>>)
        requires
            old(self).wf(),
            old(self).draining(),
        ensures
            final(self).wf(),
            final(self).done(),
            final(self).max_count() == old(self).max_count(),
            final(self).flush_every() == old(self).flush_every(),
            final(self).filter_spec() == old(self).filter_spec(),
            final(self).received() == old(self).received(),
            final(self).fetched() == old(self).fetched(),
            final(self).inserted() == old(self).inserted(),
            final(self).insert_errors() == old(self).insert_errors(),
            final(self).buffer() == Seq::<NormalizedTx>::empty(),
            if old(self).buffer().len() > 0 {
                flush matches Some(b) && b@ == old(self).buffer()
            } else {
                flush is None
            },
    {
        self.phase = SamplerPhase::Done;
        if self.buffer.len() > 0 {
            let mut out: Vec<NormalizedTx> = Vec::new();
            core::mem::swap(&mut out, &mut self.buffer);
            Some(out)
        } else {
            proof {
                assert(self.buffer@ =~= Seq::<NormalizedTx>::empty());
            }
            None
        }
    }

    /// Records the outcome of one flush the caller performed: a successful
    /// write of `flushed` rows counts them as inserted; a failed write
    /// counts one insert error and nothing as inserted — the batch is
    /// dropped, not retried.
    pub fn note_flush(&mut self, flushed: usize, ok: bool)
        requires
            old(self).wf(),
            ok ==> old(self).inserted() + flushed <= usize::MAX,
            !ok ==> old(self).insert_errors() < usize::MAX,
        ensures
            final(self).wf(),
            final(self).max_count() == old(self).max_count(),
            final(self).flush_every() == old(self).flush_every(),
            final(self).filter_spec() == old(self).filter_spec(),
            final(self).received() == old(self).received(),
            final(self).fetched() == old(self).fetched(),
            final(self).buffer() == old(self).buffer(),
            final(self).running() == old(self).running(),
            final(self).draining() == old(self).draining(),
            final(self).done() == old(self).done(),
            ok ==> final(self).inserted() == old(self).inserted() + flushed
                && final(self).insert_errors() == old(self).insert_errors(),
            !ok ==> final(self).insert_errors() == old(self).insert_errors() + 1
                && final(self).inserted() == old(self).inserted(),
    {
        if ok {
            self.inserted = self.inserted + flushed;
        } else {
            self.insert_errors = self.insert_errors + 1;
        }
    }

    /// The session's observability counters.
    pub fn stats(&self) -> (r: PendingSampleStats)
        ensures
            r.received == self.received(),
            r.fetched == self.fetched(),
            r.inserted == self.inserted(),
            r.insert_errors == self.insert_errors(),
    {
        PendingSampleStats {
            received: self.received,
            fetched: self.fetched,
            inserted: self.inserted,
            insert_errors: self.insert_errors,
        }
    }
}

} // verus!
