//! Checkpointed, day-granular candle backfill.
//!
//! For each instrument the pipeline catches the stored bar history up to
//! the end of the most recently closed UTC day, one calendar day per
//! fetch, resuming from a durable watermark.  The checkpoint advances
//! after every successfully fetched day, whether or not the day returned
//! bars — a non-trading day must not be re-queried forever.  A fetch or
//! store failure stops only the instrument at hand; progress made so far
//! stays checkpointed.

use vstd::prelude::*;

use crate::bulk::{insert_batch, BulkAborted, RecordSink};
use crate::checkpoint::{watermark_of, CheckpointStore};
use crate::days::{day_end, day_index, day_start, get_day_start, get_end_of_day,
    get_next_day_range, lemma_day_bounds, MAX_DAY_TS};
use crate::errors::TransportError;
use crate::fetch::MarketDataFetcher;
use crate::records::{convert_candles, Bar, DbSharesLiquid};

verus! {

/// Why the backfill of one instrument stopped early.
#[derive(Debug)]
pub enum PipelineError {
    /// The upstream provider could not be reached.
    Fetch(TransportError),
    /// The checkpoint store could not be reached.
    Checkpoint(TransportError),
    /// The bar store became unreachable in the middle of a batch.
    Insert(BulkAborted),
    /// The stored watermark lies before the epoch and cannot be used.
    CorruptCheckpoint(i64),
}

/// The exact fetch windows a catch-up from watermark `wm` to
/// `yesterday_end` issues: successive next-day windows, each capped at
/// `yesterday_end`, consecutive and complete — and none once the
/// watermark lies inside yesterday's own day.
pub open spec fn backfill_windows(id: Seq<char>, wm: int, yesterday_end: int) -> Seq<
    (Seq<char>, i64, i64),
>
    decreases yesterday_end - wm,
{
    if wm < 0 || wm >= yesterday_end || wm >= day_start(yesterday_end) {
        Seq::empty()
    } else {
        let next_start = day_start(wm) + 86400;
        let next_end = next_start + 86399;
        let end_time = if next_end < yesterday_end {
            next_end
        } else {
            yesterday_end
        };
        seq![(id, next_start as i64, end_time as i64)]
            + backfill_windows(id, end_time, yesterday_end)
    }
}

/// Catches one instrument up to `yesterday_end`.
///
/// With no checkpoint, one window from the first tradable minute to the
/// end of that calendar day is fetched, its bars are persisted, and the
/// checkpoint is created at that day's end.  With a checkpoint below
/// `yesterday_end`, successive next-day windows are fetched and the
/// checkpoint advances to each window's end — also when the window
/// returned no bars — until `yesterday_end` is reached or a call fails.
/// An instrument already at or past `yesterday_end` is left untouched.
/// Returns the number of bars inserted (saturating).
pub fn run_instrument_backfill<F: MarketDataFetcher, C: CheckpointStore, S: RecordSink<Bar>>(
    fetcher: &mut F,
    checkpoints: &mut C,
    sink: &mut S,
    instrument_id: &String,
    first_tradable_minute_timestamp: i64,
    yesterday_end: i64,
    max_batch: usize,
) -> (r: Result<u64, PipelineError>)
    requires
        max_batch >= 1,
        0 <= first_tradable_minute_timestamp <= MAX_DAY_TS,
        0 <= yesterday_end <= MAX_DAY_TS,
        yesterday_end == day_end(yesterday_end as int),
    ensures
        final(checkpoints).model().remove(instrument_id@)
            == old(checkpoints).model().remove(instrument_id@),
        old(checkpoints).model().contains_key(instrument_id@)
            ==> final(checkpoints).model().contains_key(instrument_id@)
                && old(checkpoints).model()[instrument_id@]
                    <= final(checkpoints).model()[instrument_id@],
        final(sink).contents().len() >= old(sink).contents().len(),
        old(sink).contents()
            == final(sink).contents().take(old(sink).contents().len() as int),
        forall|c: Seq<Bar>| #[trigger] final(sink).accepts(c) == old(sink).accepts(c),
        forall|c: Seq<Bar>| #[trigger] final(sink).rejects(c) == old(sink).rejects(c),
        final(fetcher).windows().len() >= old(fetcher).windows().len(),
        old(fetcher).windows()
            == final(fetcher).windows().take(old(fetcher).windows().len() as int),
        watermark_of(old(checkpoints).model(), instrument_id@) is None ==> (
            final(fetcher).windows().len() <= old(fetcher).windows().len() + 1
            && (forall|j: int|
                old(fetcher).windows().len() <= j < final(fetcher).windows().len()
                ==> (#[trigger] final(fetcher).windows()[j]) == (
                    instrument_id@,
                    first_tradable_minute_timestamp,
                    day_end(first_tradable_minute_timestamp as int) as i64,
                ))),
        forall|j: int| old(fetcher).windows().len() <= j < final(fetcher).windows().len()
            ==> ((#[trigger] final(fetcher).windows()[j]).1 <= final(fetcher).windows()[j].2
                && final(fetcher).windows()[j].2
                    <= day_end(final(fetcher).windows()[j].1 as int)),
        watermark_of(old(checkpoints).model(), instrument_id@) matches Some(w)
            ==> ((r is Ok && 0 <= w) ==> final(fetcher).windows()
                == old(fetcher).windows()
                    + backfill_windows(instrument_id@, w as int, yesterday_end as int)),
        watermark_of(old(checkpoints).model(), instrument_id@) matches Some(w)
            ==> (w >= 0 ==> forall|j: int|
                old(fetcher).windows().len() <= j < final(fetcher).windows().len()
                ==> ((#[trigger] final(fetcher).windows()[j]).0 == instrument_id@
                    && w < final(fetcher).windows()[j].1
                    && final(fetcher).windows()[j].1
                        == day_start(final(fetcher).windows()[j].1 as int)
                    && final(fetcher).windows()[j].2 == (
                        if day_end(final(fetcher).windows()[j].1 as int) < yesterday_end {
                            day_end(final(fetcher).windows()[j].1 as int) as i64
                        } else {
                            yesterday_end
                        }))),
        (watermark_of(old(checkpoints).model(), instrument_id@) matches Some(w)
            && w >= yesterday_end) ==> (final(checkpoints).model() == old(checkpoints).model()
            && final(fetcher).fetches() == old(fetcher).fetches()
            && final(fetcher).windows() == old(fetcher).windows()
            && final(sink).contents() == old(sink).contents()
            && final(sink).calls() == old(sink).calls()
            && (r matches Ok(v) ==> v == 0)),
        r is Ok && watermark_of(old(checkpoints).model(), instrument_id@) is None
            ==> final(checkpoints).model().contains_key(instrument_id@)
                && final(checkpoints).model()[instrument_id@]
                    == day_end(first_tradable_minute_timestamp as int),
        (r is Ok && (watermark_of(old(checkpoints).model(), instrument_id@) matches Some(w)
            && w < yesterday_end)) ==> final(checkpoints).model().contains_key(instrument_id@)
                && final(checkpoints).model()[instrument_id@] == yesterday_end,
        r matches Err(PipelineError::CorruptCheckpoint(w))
            ==> watermark_of(old(checkpoints).model(), instrument_id@) == Some(w) && w < 0,
        watermark_of(old(checkpoints).model(), instrument_id@) matches Some(w)
            ==> (w < 0 ==> (r matches Err(e) && (e is CorruptCheckpoint || e is Checkpoint))),
{
    let got = match checkpoints.get(instrument_id) {
        Ok(v) => v,
        Err(e) => {
            return Err(PipelineError::Checkpoint(e));
        },
    };
    match got {
        None => {
            // First ingestion: one window from the first tradable minute
            // to the end of that calendar day.
            let window_end = get_end_of_day(first_tradable_minute_timestamp);
            let ghost pre_windows = fetcher.windows();
            let raw_result = fetcher.get_bars(
                instrument_id, first_tradable_minute_timestamp, window_end);
            proof {
                assert(fetcher.windows().take(pre_windows.len() as int) =~= pre_windows);
            }
            let raw = match raw_result {
                Ok(v) => v,
                Err(e) => {
                    return Err(PipelineError::Fetch(e));
                },
            };
            let bars = convert_candles(instrument_id, &raw);
            let mut count: u64 = 0;
            if bars.len() > 0 {
                match insert_batch(sink, bars, max_batch) {
                    Ok((inserted, _skipped)) => {
                        count = inserted as u64;
                    },
                    Err(a) => {
                        proof {
                            lemma_take_of_extension(
                                old(sink).contents(), sink.contents());
                        }
                        return Err(PipelineError::Insert(a));
                    },
                }
                proof {
                    lemma_take_of_extension(old(sink).contents(), sink.contents());
                }
            }
            match checkpoints.put(instrument_id, window_end) {
                Ok(()) => {},
                Err(e) => {
                    return Err(PipelineError::Checkpoint(e));
                },
            }
            Ok(count)
        },
        Some(w) => {
            if w >= yesterday_end {
                // Already caught up; nothing to do this cycle.
                return Ok(0);
            }
            if w < 0 {
                return Err(PipelineError::CorruptCheckpoint(w));
            }
            let y_start = get_day_start(yesterday_end);
            let mut wm = w;
            let mut count: u64 = 0;
            while wm < yesterday_end
                invariant
                    0 <= wm <= yesterday_end,
                    0 <= w,
                    w <= wm,
                    w < yesterday_end,
                    old(checkpoints).model().contains_key(instrument_id@),
                    old(checkpoints).model()[instrument_id@] == w,
                    0 <= yesterday_end <= MAX_DAY_TS,
                    yesterday_end == day_end(yesterday_end as int),
                    y_start == day_start(yesterday_end as int),
                    max_batch >= 1,
                    checkpoints.model().contains_key(instrument_id@),
                    checkpoints.model()[instrument_id@] == wm,
                    checkpoints.model().remove(instrument_id@)
                        == old(checkpoints).model().remove(instrument_id@),
                    sink.contents().len() >= old(sink).contents().len(),
                    old(sink).contents()
                        == sink.contents().take(old(sink).contents().len() as int),
                    forall|c: Seq<Bar>| #[trigger] sink.accepts(c) == old(sink).accepts(c),
                    forall|c: Seq<Bar>| #[trigger] sink.rejects(c) == old(sink).rejects(c),
                    fetcher.windows().len() >= old(fetcher).windows().len(),
                    old(fetcher).windows()
                        == fetcher.windows().take(old(fetcher).windows().len() as int),
                    forall|j: int|
                        old(fetcher).windows().len() <= j < fetcher.windows().len()
                        ==> ((#[trigger] fetcher.windows()[j]).0 == instrument_id@
                            && w < fetcher.windows()[j].1
                            && fetcher.windows()[j].1
                                == day_start(fetcher.windows()[j].1 as int)
                            && fetcher.windows()[j].1 <= fetcher.windows()[j].2
                            && fetcher.windows()[j].2
                                <= day_end(fetcher.windows()[j].1 as int)
                            && fetcher.windows()[j].2 == (
                                if day_end(fetcher.windows()[j].1 as int) < yesterday_end {
                                    day_end(fetcher.windows()[j].1 as int) as i64
                                } else {
                                    yesterday_end
                                })),
                    fetcher.windows()
                        + backfill_windows(instrument_id@, wm as int, yesterday_end as int)
                        == old(fetcher).windows()
                            + backfill_windows(instrument_id@, w as int, yesterday_end as int),
                decreases yesterday_end - wm,
            {
                if wm >= y_start {
                    // The watermark already lies inside the final day; the
                    // next-day window would begin past `yesterday_end`, so
                    // the checkpoint advances without a fetch.
                    proof {
                        assert(backfill_windows(
                            instrument_id@, wm as int, yesterday_end as int)
                            =~= Seq::<(Seq<char>, i64, i64)>::empty());
                        assert(backfill_windows(
                            instrument_id@, yesterday_end as int, yesterday_end as int)
                            =~= Seq::<(Seq<char>, i64, i64)>::empty());
                    }
                    match checkpoints.put(instrument_id, yesterday_end) {
                        Ok(()) => {},
                        Err(e) => {
                            return Err(PipelineError::Checkpoint(e));
                        },
                    }
                    wm = yesterday_end;
                } else {
                    proof {
                        lemma_day_bounds(wm as int);
                        lemma_day_bounds(yesterday_end as int);
                        assert(day_index(wm as int) < day_index(yesterday_end as int)) by {
                            if day_index(wm as int) >= day_index(yesterday_end as int) {
                                assert(86400 * day_index(wm as int)
                                    >= 86400 * day_index(yesterday_end as int));
                            }
                        }
                    }
                    let (next_start, next_end) = get_next_day_range(wm);
                    let end_time = if next_end < yesterday_end {
                        next_end
                    } else {
                        yesterday_end
                    };
                    let ghost pre_windows = fetcher.windows();
                    proof {
                        assert(backfill_windows(
                            instrument_id@, wm as int, yesterday_end as int)
                            == seq![(instrument_id@, next_start, end_time)]
                                + backfill_windows(
                                    instrument_id@, end_time as int, yesterday_end as int));
                    }
                    let raw_result = fetcher.get_bars(instrument_id, next_start, end_time);
                    proof {
                        assert(fetcher.windows().take(old(fetcher).windows().len() as int)
                            =~= pre_windows.take(old(fetcher).windows().len() as int));
                        assert(pre_windows.push((instrument_id@, next_start, end_time))
                            + backfill_windows(
                                instrument_id@, end_time as int, yesterday_end as int)
                            =~= pre_windows
                                + backfill_windows(
                                    instrument_id@, wm as int, yesterday_end as int));
                    }
                    let raw = match raw_result {
                        Ok(v) => v,
                        Err(e) => {
                            return Err(PipelineError::Fetch(e));
                        },
                    };
                    let bars = convert_candles(instrument_id, &raw);
                    if bars.len() > 0 {
                        let ghost pre = sink.contents();
                        match insert_batch(sink, bars, max_batch) {
                            Ok((inserted, _skipped)) => {
                                let add = inserted as u64;
                                count = if count <= u64::MAX - add {
                                    count + add
                                } else {
                                    u64::MAX
                                };
                            },
                            Err(a) => {
                                proof {
                                    lemma_take_of_extension(pre, sink.contents());
                                    lemma_take_of_take(
                                        old(sink).contents(), pre, sink.contents());
                                }
                                return Err(PipelineError::Insert(a));
                            },
                        }
                        proof {
                            lemma_take_of_extension(pre, sink.contents());
                            lemma_take_of_take(old(sink).contents(), pre, sink.contents());
                        }
                    }
                    match checkpoints.put(instrument_id, end_time) {
                        Ok(()) => {},
                        Err(e) => {
                            return Err(PipelineError::Checkpoint(e));
                        },
                    }
                    wm = end_time;
                }
            }
            proof {
                assert(backfill_windows(instrument_id@, wm as int, yesterday_end as int)
                    =~= Seq::<(Seq<char>, i64, i64)>::empty());
                assert(fetcher.windows()
                    =~= fetcher.windows()
                        + backfill_windows(instrument_id@, wm as int, yesterday_end as int));
            }
            Ok(count)
        },
    }
}

/// `b` extends some prefix state: taking back the old length of a
/// sequence that only grew returns the old sequence.
proof fn lemma_take_of_extension<T>(a: Seq<T>, b: Seq<T>)
    requires
        a.len() <= b.len(),
        forall|i: int| 0 <= i < a.len() ==> a[i] == b[i],
    ensures
        a == b.take(a.len() as int),
{
    assert(a =~= b.take(a.len() as int));
}

/// Prefix-of is transitive, phrased over `take`.
proof fn lemma_take_of_take<T>(a: Seq<T>, b: Seq<T>, c: Seq<T>)
    requires
        a.len() <= b.len() <= c.len(),
        a == b.take(a.len() as int),
        b == c.take(b.len() as int),
    ensures
        a == c.take(a.len() as int),
{
    assert(a =~= c.take(a.len() as int));
}

/// Runs one backfill cycle over a listing of liquid instruments.
///
/// Each instrument is processed independently: a failure (or a listing
/// row whose first tradable minute is out of range) is skipped and does
/// not stop the cycle.  Returns how many instruments were processed
/// without error.  Watermarks never move backwards in a cycle.
pub fn run_backfill_cycle<F: MarketDataFetcher, C: CheckpointStore, S: RecordSink<Bar>>(
    fetcher: &mut F,
    checkpoints: &mut C,
    sink: &mut S,
    shares: &Vec<DbSharesLiquid>,
    yesterday_end: i64,
    max_batch: usize,
) -> (processed: usize)
    requires
        max_batch >= 1,
        0 <= yesterday_end <= MAX_DAY_TS,
        yesterday_end == day_end(yesterday_end as int),
    ensures
        processed <= shares@.len(),
        forall|k: Seq<char>| old(checkpoints).model().contains_key(k)
            ==> (#[trigger] final(checkpoints).model().contains_key(k))
                && old(checkpoints).model()[k] <= final(checkpoints).model()[k],
        final(sink).contents().len() >= old(sink).contents().len(),
        old(sink).contents()
            == final(sink).contents().take(old(sink).contents().len() as int),
        final(fetcher).windows().len() >= old(fetcher).windows().len(),
        old(fetcher).windows()
            == final(fetcher).windows().take(old(fetcher).windows().len() as int),
        forall|j: int| old(fetcher).windows().len() <= j < final(fetcher).windows().len()
            ==> ((#[trigger] final(fetcher).windows()[j]).1 <= final(fetcher).windows()[j].2
                && final(fetcher).windows()[j].2
                    <= day_end(final(fetcher).windows()[j].1 as int)),
        shares@.len() == 0 ==> (processed == 0
            && final(fetcher).windows() == old(fetcher).windows()
            && final(fetcher).fetches() == old(fetcher).fetches()
            && final(checkpoints).model() == old(checkpoints).model()
            && final(sink).contents() == old(sink).contents()
            && final(sink).calls() == old(sink).calls()),
{
    let n = shares.len();
    let mut processed: usize = 0;
    let mut i: usize = 0;
    while i < n
        invariant
            0 <= i <= n,
            n == shares@.len(),
            processed <= i,
            max_batch >= 1,
            0 <= yesterday_end <= MAX_DAY_TS,
            yesterday_end == day_end(yesterday_end as int),
            forall|k: Seq<char>| old(checkpoints).model().contains_key(k)
                ==> (#[trigger] checkpoints.model().contains_key(k))
                    && old(checkpoints).model()[k] <= checkpoints.model()[k],
            sink.contents().len() >= old(sink).contents().len(),
            old(sink).contents()
                == sink.contents().take(old(sink).contents().len() as int),
            fetcher.windows().len() >= old(fetcher).windows().len(),
            old(fetcher).windows()
                == fetcher.windows().take(old(fetcher).windows().len() as int),
            forall|j: int| old(fetcher).windows().len() <= j < fetcher.windows().len()
                ==> ((#[trigger] fetcher.windows()[j]).1 <= fetcher.windows()[j].2
                    && fetcher.windows()[j].2 <= day_end(fetcher.windows()[j].1 as int)),
            n == 0 ==> (fetcher.windows() == old(fetcher).windows()
                && fetcher.fetches() == old(fetcher).fetches()
                && checkpoints.model() == old(checkpoints).model()
                && sink.contents() == old(sink).contents()
                && sink.calls() == old(sink).calls()),
        decreases n - i,
    {
        let share = &shares[i];
        let first = share.first_1min_candle_date;
        if 0 <= first && first <= MAX_DAY_TS {
            let ghost pre_model = checkpoints.model();
            let ghost pre_rows = sink.contents();
            let ghost pre_windows = fetcher.windows();
            let id = &share.instrument_id;
            let outcome = run_instrument_backfill(
                fetcher, checkpoints, sink, id, first, yesterday_end, max_batch);
            proof {
                lemma_take_of_take(old(sink).contents(), pre_rows, sink.contents());
                lemma_take_of_take(
                    old(fetcher).windows(), pre_windows, fetcher.windows());
                assert forall|j: int|
                    old(fetcher).windows().len() <= j < fetcher.windows().len()
                    implies ((#[trigger] fetcher.windows()[j]).1
                        <= fetcher.windows()[j].2
                        && fetcher.windows()[j].2
                            <= day_end(fetcher.windows()[j].1 as int)) by {
                    if j < pre_windows.len() {
                        assert(fetcher.windows()[j] == pre_windows[j]);
                    }
                }
                assert forall|k: Seq<char>| old(checkpoints).model().contains_key(k)
                    implies (#[trigger] checkpoints.model().contains_key(k))
                        && old(checkpoints).model()[k] <= checkpoints.model()[k] by {
                    assert(pre_model.contains_key(k));
                    assert(old(checkpoints).model()[k] <= pre_model[k]);
                    if k != id@ {
                        assert(pre_model.remove(id@).contains_key(k));
                        assert(checkpoints.model().remove(id@) == pre_model.remove(id@));
                        assert(checkpoints.model().remove(id@).contains_key(k));
                        assert(checkpoints.model().contains_key(k));
                        assert(checkpoints.model()[k] == checkpoints.model().remove(id@)[k]);
                        assert(pre_model.remove(id@)[k] == pre_model[k]);
                        assert(pre_model[k] == checkpoints.model()[k]);
                    } else {
                        assert(pre_model.contains_key(id@));
                        assert(checkpoints.model().contains_key(id@));
                        assert(pre_model[id@] <= checkpoints.model()[id@]);
                    }
                }
            }
            if outcome.is_ok() {
                processed = processed + 1;
            }
        }
        proof {
            assert(forall|k: Seq<char>| old(checkpoints).model().contains_key(k)
                ==> (#[trigger] checkpoints.model().contains_key(k))
                    && old(checkpoints).model()[k] <= checkpoints.model()[k]);
        }
        i = i + 1;
    }
    proof {
        assert(forall|k: Seq<char>| old(checkpoints).model().contains_key(k)
            ==> (#[trigger] checkpoints.model().contains_key(k))
                && old(checkpoints).model()[k] <= checkpoints.model()[k]);
    }
    processed
}

} // verus!
