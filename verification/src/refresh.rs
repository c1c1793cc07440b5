//! The instrument-refresh cycle.
//!
//! One refresh fetches the full instrument listing upstream, drops the
//! known-problematic instruments, replaces the instrument rows through
//! the bulk writer, and hands the fresh liquid classification to the
//! reconciler, which appends the cycle's liquidity facts.  The caller
//! clears the instrument listing beforehand: rows are replaced
//! wholesale each cycle, never mutated one by one.

use vstd::prelude::*;

use crate::bulk::{accepts_all_chunks, insert_batch, BulkAborted, RecordSink};
use crate::reconcile::{classify_liquid, contains_str, dropped_facts, liquid_rows,
    run_reconciliation, true_facts};
use crate::records::{DbSharesLiquid, Instrument, LiquidityFact};

verus! {

/// Why a refresh cycle stopped early.
#[derive(Debug)]
pub enum RefreshError {
    /// The instrument store became unreachable mid-batch.
    Instruments(BulkAborted),
    /// The fact store became unreachable mid-batch.
    Facts(BulkAborted),
}

/// `s` without the instruments whose id is listed in `excluded`.
pub open spec fn without_excluded(s: Seq<Instrument>, excluded: Seq<String>) -> Seq<Instrument>
    decreases s.len(),
{
    if s.len() == 0 {
        Seq::empty()
    } else {
        let rest = without_excluded(s.drop_last(), excluded);
        if contains_str(excluded, s.last().instrument_id@) {
            rest
        } else {
            rest.push(s.last())
        }
    }
}

/// Drops the instruments on the permanent exclusion list.
pub fn filter_excluded(instruments: Vec<Instrument>, excluded: &Vec<String>) -> (r: Vec<
    Instrument,
>)
    ensures
        r@ == without_excluded(instruments@, excluded@),
{
    let ghost all = instruments@;
    let mut v = instruments;
    let mut out: Vec<Instrument> = Vec::new();
    let ghost mut done: Seq<Instrument> = Seq::empty();
    proof {
        assert(done + v@ =~= all);
    }
    while v.len() > 0
        invariant
            done + v@ == all,
            out@ == without_excluded(done, excluded@),
        decreases v@.len(),
    {
        let ins = v.remove(0);
        proof {
            assert(done.push(ins) + v@ =~= all);
            assert(done.push(ins).drop_last() =~= done);
        }
        let m = excluded.len();
        let mut j: usize = 0;
        let mut skip = false;
        while j < m
            invariant
                0 <= j <= m,
                m == excluded@.len(),
                skip <==> exists|t: int| 0 <= t < j && excluded@[t]@ == ins.instrument_id@,
            decreases m - j,
        {
            if excluded[j] == ins.instrument_id {
                skip = true;
            }
            j = j + 1;
        }
        proof {
            assert(skip <==> contains_str(excluded@, ins.instrument_id@));
        }
        if !skip {
            out.push(ins);
        }
        proof {
            done = done.push(ins);
        }
    }
    proof {
        assert(done =~= all);
    }
    out
}

/// Runs one instrument-refresh cycle.
///
/// The fetched listing, minus the excluded instruments, is inserted
/// through the bulk writer; the fresh liquid classification is then
/// reconciled against the previously recorded liquid set, appending
/// this cycle's liquidity facts.  Reconciliation runs on an empty
/// listing too: every previously liquid instrument then gets a
/// not-liquid fact, as the append-only view demands.  Returns how many
/// listing rows were inserted and the liquid-share rows of the cycle,
/// which the candle backfill consumes.
pub fn run_instrument_refresh<SI: RecordSink<Instrument>, SF: RecordSink<LiquidityFact>>(
    instrument_sink: &mut SI,
    fact_sink: &mut SF,
    fetched: Vec<Instrument>,
    excluded: &Vec<String>,
    prev_liquid: Vec<String>,
    now: i64,
    max_batch: usize,
) -> (r: Result<(usize, Vec<DbSharesLiquid>), RefreshError>)
    requires
        max_batch >= 1,
    ensures
        r matches Ok(v) ==> v.1@ == liquid_rows(without_excluded(fetched@, excluded@)),
        r matches Ok(v) ==> v.0 <= without_excluded(fetched@, excluded@).len(),
        accepts_all_chunks(*old(instrument_sink), without_excluded(fetched@, excluded@))
            ==> (r matches Ok(v) ==> v.0 == without_excluded(fetched@, excluded@).len()),
        accepts_all_chunks(*old(instrument_sink), without_excluded(fetched@, excluded@))
            ==> final(instrument_sink).contents() == old(instrument_sink).contents()
                + without_excluded(fetched@, excluded@),
        (accepts_all_chunks(*old(instrument_sink), without_excluded(fetched@, excluded@))
            && accepts_all_chunks(*old(fact_sink),
                true_facts(liquid_rows(without_excluded(fetched@, excluded@)), now)
                + dropped_facts(prev_liquid@,
                    liquid_rows(without_excluded(fetched@, excluded@)), now)))
            ==> (r is Ok && final(fact_sink).contents() == old(fact_sink).contents()
                + (true_facts(liquid_rows(without_excluded(fetched@, excluded@)), now)
                    + dropped_facts(prev_liquid@,
                        liquid_rows(without_excluded(fetched@, excluded@)), now))),
        final(instrument_sink).contents().len() >= old(instrument_sink).contents().len(),
        old(instrument_sink).contents() == final(instrument_sink).contents().take(
            old(instrument_sink).contents().len() as int),
        final(fact_sink).contents().len() >= old(fact_sink).contents().len(),
        old(fact_sink).contents() == final(fact_sink).contents().take(
            old(fact_sink).contents().len() as int),
{
    let filtered = filter_excluded(fetched, excluded);
    let liquid = classify_liquid(&filtered);
    let ghost fview = filtered@;
    let inserted = match insert_batch(instrument_sink, filtered, max_batch) {
        Ok((count, _skipped)) => {
            proof {
                if accepts_all_chunks(*old(instrument_sink), fview) && fview.len() == 0 {
                    assert(old(instrument_sink).contents() + fview
                        =~= old(instrument_sink).contents());
                }
                assert(old(instrument_sink).contents()
                    =~= instrument_sink.contents().take(
                        old(instrument_sink).contents().len() as int));
            }
            count
        },
        Err(a) => {
            proof {
                assert(old(instrument_sink).contents()
                    =~= instrument_sink.contents().take(
                        old(instrument_sink).contents().len() as int));
                assert(old(fact_sink).contents()
                    =~= fact_sink.contents().take(old(fact_sink).contents().len() as int));
            }
            return Err(RefreshError::Instruments(a));
        },
    };
    match run_reconciliation(fact_sink, &liquid, prev_liquid, now, max_batch) {
        Ok(_) => {},
        Err(a) => {
            return Err(RefreshError::Facts(a));
        },
    }
    Ok((inserted, liquid))
}

} // verus!
