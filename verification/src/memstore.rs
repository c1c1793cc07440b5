//! In-memory store implementations.
//!
//! These are real, fully verified implementations of the store contracts:
//! they serve as reference models and let the insertion, backfill and
//! reconciliation logic be exercised without a database.

use vstd::prelude::*;

use crate::bulk::{accepts_all_chunks, single_poison, RecordSink, SinkError};

verus! {

/// An in-memory append-only store that accepts every chunk.
pub struct MemorySink<R> {
    /// The rows appended so far, in arrival order.
    pub rows: Vec<R>,
    /// Runtime counter of insert calls; saturates at `u64::MAX`.
    pub attempts: u64,
    /// Exact count of insert calls.
    pub call_count: Ghost<nat>,
}

impl<R> MemorySink<R> {
    /// An empty store with no calls made.
    pub fn new() -> (r: MemorySink<R>)
        ensures
            r.contents() == Seq::<R>::empty(),
            r.calls() == 0,
            r.attempts == 0,
    {
        MemorySink { rows: Vec::new(), attempts: 0, call_count: Ghost(0) }
    }
}

impl<R> RecordSink<R> for MemorySink<R> {
    open spec fn contents(&self) -> Seq<R> {
        self.rows@
    }

    open spec fn calls(&self) -> nat {
        self.call_count@
    }

    open spec fn accepts(&self, chunk: Seq<R>) -> bool {
        true
    }

    open spec fn rejects(&self, chunk: Seq<R>) -> bool {
        false
    }

    fn insert_chunk(&mut self, chunk: Vec<R>) -> (r: Result<(), (SinkError, Vec<R>)>) {
        let mut chunk = chunk;
        self.call_count = Ghost(self.call_count@ + 1);
        if self.attempts < u64::MAX {
            self.attempts = self.attempts + 1;
        }
        self.rows.append(&mut chunk);
        Ok(())
    }
}

/// A memory store accepts every contiguous chunk of any batch, so the
/// bulk writer's all-healthy guarantees — everything inserted, one call
/// per full chunk — apply to it unconditionally.
pub proof fn lemma_memory_sink_accepts_all<R>(sink: MemorySink<R>, records: Seq<R>)
    ensures
        accepts_all_chunks(sink, records),
{
}

/// An in-memory store that rejects every chunk holding a designated
/// poison value, and accepts every other chunk.
pub struct PoisonSink {
    /// The value whose presence poisons a chunk.
    pub poison: u64,
    /// The rows appended so far, in arrival order.
    pub rows: Vec<u64>,
    /// Runtime counter of insert calls; saturates at `u64::MAX`.
    pub attempts: u64,
    /// Exact count of insert calls.
    pub call_count: Ghost<nat>,
}

impl PoisonSink {
    /// An empty store rejecting chunks that hold `poison`.
    pub fn new(poison: u64) -> (r: PoisonSink)
        ensures
            r.contents() == Seq::<u64>::empty(),
            r.calls() == 0,
            r.attempts == 0,
            r.poison == poison,
    {
        PoisonSink { poison, rows: Vec::new(), attempts: 0, call_count: Ghost(0) }
    }
}

impl RecordSink<u64> for PoisonSink {
    open spec fn contents(&self) -> Seq<u64> {
        self.rows@
    }

    open spec fn calls(&self) -> nat {
        self.call_count@
    }

    open spec fn accepts(&self, chunk: Seq<u64>) -> bool {
        !chunk.contains(self.poison)
    }

    open spec fn rejects(&self, chunk: Seq<u64>) -> bool {
        chunk.contains(self.poison)
    }

    fn insert_chunk(&mut self, chunk: Vec<u64>) -> (r: Result<(), (SinkError, Vec<u64>)>) {
        let mut chunk = chunk;
        self.call_count = Ghost(self.call_count@ + 1);
        if self.attempts < u64::MAX {
            self.attempts = self.attempts + 1;
        }
        let n = chunk.len();
        let mut i: usize = 0;
        let mut poisoned = false;
        while i < n
            invariant
                0 <= i <= n,
                n == chunk@.len(),
                poisoned ==> chunk@.contains(self.poison),
                !poisoned ==> forall|t: int| 0 <= t < i ==> chunk@[t] != self.poison,
            decreases n - i,
        {
            if chunk[i] == self.poison {
                poisoned = true;
            }
            i = i + 1;
        }
        if poisoned {
            Err((SinkError::Rejected, chunk))
        } else {
            assert(!chunk@.contains(self.poison));
            self.rows.append(&mut chunk);
            Ok(())
        }
    }
}

/// A batch holding the poison value exactly once realises the
/// single-poison hypothesis against a poison store, so the bulk
/// writer's isolation guarantee — every healthy record inserted, the
/// poison alone skipped — applies to it.
pub proof fn lemma_poison_sink_single_poison(sink: PoisonSink, records: Seq<u64>, p: int)
    requires
        0 <= p < records.len(),
        records[p] == sink.poison,
        forall|i: int| 0 <= i < records.len() && i != p
            ==> (#[trigger] records[i]) != sink.poison,
    ensures
        single_poison(sink, records, p),
{
}

/// An in-memory stand-in for a store that cannot be reached: every
/// insert call fails with `Unavailable` and nothing is ever held.
pub struct OfflineSink {
    /// Runtime counter of insert calls; saturates at `u64::MAX`.
    pub attempts: u64,
    /// Exact count of insert calls.
    pub call_count: Ghost<nat>,
}

impl OfflineSink {
    /// An unreachable store with no calls made.
    pub fn new() -> (r: OfflineSink)
        ensures
            r.call_count@ == 0,
            r.attempts == 0,
    {
        OfflineSink { attempts: 0, call_count: Ghost(0) }
    }
}

impl<R> RecordSink<R> for OfflineSink {
    open spec fn calls(&self) -> nat {
        self.call_count@
    }

    open spec fn unavailable(&self) -> bool {
        true
    }

    fn insert_chunk(&mut self, chunk: Vec<R>) -> (r: Result<(), (SinkError, Vec<R>)>) {
        self.call_count = Ghost(self.call_count@ + 1);
        if self.attempts < u64::MAX {
            self.attempts = self.attempts + 1;
        }
        Err((SinkError::Unavailable, chunk))
    }
}

} // verus!
