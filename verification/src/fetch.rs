//! The upstream market-data interface.
//!
//! A fetcher lists tradable instruments and returns the minute candles
//! of one instrument within a closed time window.  Nothing is promised
//! about what a fetch returns — a window may yield fewer candles than it
//! implies, including none at all — so the logic built on a fetcher is
//! verified for every possible response.

use vstd::prelude::*;

use crate::errors::TransportError;
use crate::records::{Instrument, RawCandle};

verus! {

/// A paginated, bounded-range reader of the upstream provider.
pub trait MarketDataFetcher: Sized {
    /// The number of upstream calls issued so far; defaults to zero for
    /// an unverified backend that counts nothing.
    open spec fn fetches(&self) -> nat {
        0
    }

    /// The candle windows requested so far, in order: instrument id and
    /// the closed `[from, to]` range.  Defaults to the empty log for an
    /// unverified backend that records nothing.
    open spec fn windows(&self) -> Seq<(Seq<char>, i64, i64)> {
        Seq::empty()
    }

    /// Lists the tradable instruments the provider knows.
    fn list_instruments(&mut self) -> (r: Result<Vec<Instrument>, TransportError>)
        ensures
            final(self).fetches() == old(self).fetches() + 1,
            final(self).windows() == old(self).windows(),
    ;

    /// Fetches the minute candles of one instrument with open time in
    /// `[from, to]`.
    fn get_bars(&mut self, instrument_id: &String, from: i64, to: i64) -> (r: Result<
        Vec<RawCandle>,
        TransportError,
    >)
        requires
            from <= to,
        ensures
            final(self).fetches() == old(self).fetches() + 1,
            final(self).windows() == old(self).windows().push((instrument_id@, from, to)),
    ;
}

/// An in-memory fetcher serving a fixed set of instruments and candles.
pub struct MemoryFetcher {
    /// The instruments that `list_instruments` returns.
    pub instruments: Vec<Instrument>,
    /// The candle universe: `(instrument_id, candle)` pairs.
    pub candles: Vec<(String, RawCandle)>,
    /// Runtime counter of upstream calls; saturates at `u64::MAX`.
    pub attempts: u64,
    /// Exact count of upstream calls.
    pub call_count: Ghost<nat>,
    /// The candle windows requested so far.
    pub window_log: Ghost<Seq<(Seq<char>, i64, i64)>>,
}

impl MemoryFetcher {
    /// A fetcher over a fixed universe; no calls made yet.
    pub fn new(instruments: Vec<Instrument>, candles: Vec<(String, RawCandle)>) -> (r:
        MemoryFetcher)
        ensures
            r.fetches() == 0,
            r.windows() == Seq::<(Seq<char>, i64, i64)>::empty(),
            r.instruments == instruments,
            r.candles == candles,
    {
        MemoryFetcher {
            instruments,
            candles,
            attempts: 0,
            call_count: Ghost(0),
            window_log: Ghost(Seq::empty()),
        }
    }
}

/// The candles of `universe` that belong to `id` and open inside
/// `[from, to]`, in order.
pub open spec fn candles_in_window(
    universe: Seq<(String, RawCandle)>,
    id: Seq<char>,
    from: i64,
    to: i64,
) -> Seq<RawCandle>
    decreases universe.len(),
{
    if universe.len() == 0 {
        Seq::empty()
    } else {
        let rest = candles_in_window(universe.drop_last(), id, from, to);
        let pair = universe.last();
        if pair.0@ == id && (pair.1.time matches Some(t) && from <= t <= to) {
            rest.push(pair.1)
        } else {
            rest
        }
    }
}

impl MarketDataFetcher for MemoryFetcher {
    open spec fn fetches(&self) -> nat {
        self.call_count@
    }

    open spec fn windows(&self) -> Seq<(Seq<char>, i64, i64)> {
        self.window_log@
    }

    fn list_instruments(&mut self) -> (r: Result<Vec<Instrument>, TransportError>) {
        self.call_count = Ghost(self.call_count@ + 1);
        if self.attempts < u64::MAX {
            self.attempts = self.attempts + 1;
        }
        Ok(self.instruments.clone())
    }

    fn get_bars(&mut self, instrument_id: &String, from: i64, to: i64) -> (r: Result<
        Vec<RawCandle>,
        TransportError,
    >)
        ensures
            r matches Ok(v) ==> v@ == candles_in_window(
                old(self).candles@, instrument_id@, from, to),
    {
        self.call_count = Ghost(self.call_count@ + 1);
        self.window_log = Ghost(self.window_log@.push((instrument_id@, from, to)));
        if self.attempts < u64::MAX {
            self.attempts = self.attempts + 1;
        }
        let n = self.candles.len();
        let mut out: Vec<RawCandle> = Vec::new();
        let mut i: usize = 0;
        while i < n
            invariant
                0 <= i <= n,
                n == self.candles@.len(),
                out@ == candles_in_window(
                    self.candles@.take(i as int), instrument_id@, from, to),
            decreases n - i,
        {
            proof {
                assert(self.candles@.take(i as int + 1).drop_last()
                    =~= self.candles@.take(i as int));
                assert(self.candles@.take(i as int + 1).last() == self.candles@[i as int]);
            }
            let pair = &self.candles[i];
            if pair.0 == *instrument_id {
                if let Some(t) = pair.1.time {
                    if from <= t && t <= to {
                        out.push(pair.1);
                    }
                }
            }
            i = i + 1;
        }
        proof {
            assert(self.candles@.take(n as int) =~= self.candles@);
        }
        Ok(out)
    }
}

} // verus!
