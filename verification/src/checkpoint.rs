//! Durable per-instrument watermarks.
//!
//! A checkpoint store maps an instrument to the end of the last
//! successfully ingested day.  Absence of an entry means the instrument
//! was never ingested.  `put` demands a watermark no smaller than the
//! stored one, so watermarks never move backwards.

use vstd::prelude::*;

use crate::errors::TransportError;
use crate::records::DbLoadStatus;

verus! {

/// The value a watermark map holds for a key, if any.
pub open spec fn watermark_of(m: Map<Seq<char>, i64>, k: Seq<char>) -> Option<i64> {
    if m.contains_key(k) {
        Some(m[k])
    } else {
        None
    }
}

/// A durable instrument-to-watermark map.
/// The ghost model defaults to the empty map — an unverified backend
/// claims nothing of itself and only supplies `get` and `put`.
pub trait CheckpointStore: Sized {
    /// The watermark each instrument is known to be ingested up to.
    open spec fn model(&self) -> Map<Seq<char>, i64> {
        Map::empty()
    }

    /// Reads the watermark of one instrument; `None` means the
    /// instrument was never ingested.
    fn get(&mut self, instrument_id: &String) -> (r: Result<Option<i64>, TransportError>)
        ensures
            final(self).model() == old(self).model(),
            r matches Ok(v) ==> v == watermark_of(old(self).model(), instrument_id@),
    ;

    /// Creates or advances the watermark of one instrument.  The new
    /// watermark may not lie below the stored one.
    fn put(&mut self, instrument_id: &String, watermark: i64) -> (r: Result<(), TransportError>)
        requires
            old(self).model().contains_key(instrument_id@)
                ==> old(self).model()[instrument_id@] <= watermark,
        ensures
            r is Ok ==> final(self).model()
                == old(self).model().insert(instrument_id@, watermark),
            r is Err ==> final(self).model() == old(self).model(),
    ;
}

/// The watermark map described by a checkpoint-row log, last row winning.
pub open spec fn rows_model(s: Seq<DbLoadStatus>) -> Map<Seq<char>, i64>
    decreases s.len(),
{
    if s.len() == 0 {
        Map::empty()
    } else {
        rows_model(s.drop_last()).insert(s.last().instrument_id@, s.last().to)
    }
}

/// An in-memory checkpoint store: an append-only row log whose latest
/// row per instrument is authoritative.
pub struct MemoryCheckpointStore {
    /// The checkpoint rows, in write order.
    pub entries: Vec<DbLoadStatus>,
}

impl MemoryCheckpointStore {
    /// An empty store: no instrument has been ingested.
    pub fn new() -> (r: MemoryCheckpointStore)
        ensures
            r.model() == Map::<Seq<char>, i64>::empty(),
    {
        MemoryCheckpointStore { entries: Vec::new() }
    }
}

impl CheckpointStore for MemoryCheckpointStore {
    open spec fn model(&self) -> Map<Seq<char>, i64> {
        rows_model(self.entries@)
    }

    fn get(&mut self, instrument_id: &String) -> (r: Result<Option<i64>, TransportError>) {
        let n = self.entries.len();
        let mut found: Option<i64> = None;
        let mut i: usize = 0;
        while i < n
            invariant
                0 <= i <= n,
                n == self.entries@.len(),
                found == watermark_of(rows_model(self.entries@.take(i as int)), instrument_id@),
            decreases n - i,
        {
            proof {
                assert(self.entries@.take(i as int + 1).drop_last()
                    =~= self.entries@.take(i as int));
                assert(self.entries@.take(i as int + 1).last() == self.entries@[i as int]);
            }
            if self.entries[i].instrument_id == *instrument_id {
                found = Some(self.entries[i].to);
            }
            i = i + 1;
        }
        proof {
            assert(self.entries@.take(n as int) =~= self.entries@);
        }
        Ok(found)
    }

    fn put(&mut self, instrument_id: &String, watermark: i64) -> (r: Result<(), TransportError>) {
        let row = DbLoadStatus { instrument_id: instrument_id.clone(), to: watermark };
        proof {
            assert(self.entries@.push(row).drop_last() =~= self.entries@);
        }
        self.entries.push(row);
        Ok(())
    }
}

} // verus!
