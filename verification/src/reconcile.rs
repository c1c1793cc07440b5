//! Append-only liquidity reconciliation.
//!
//! After each instrument refresh the reconciler classifies which
//! instruments are liquid — buyable, sellable, first tradable minute
//! known — appends a `true` fact for each, and appends a `false` fact
//! for each instrument that was liquid before and dropped out.  Facts
//! are never rewritten; the current view is derived by picking, per
//! instrument, the fact with the greatest `observed_at`, later rows
//! winning ties — never by arrival order alone.

use vstd::prelude::*;
use vstd::pervasive::VecAdditionalExecFns;

use crate::bulk::{accepts_all_chunks, insert_batch, BulkAborted, RecordSink};
use crate::records::{DbSharesLiquid, Instrument, LiquidityFact};

verus! {

/// An instrument is liquid when it can be bought and sold and its first
/// tradable minute is known.
pub open spec fn is_liquid_instrument(ins: Instrument) -> bool {
    ins.buy_available && ins.sell_available && ins.first_tradable_minute_timestamp is Some
}

/// The liquid-share rows of an instrument listing, in order.
pub open spec fn liquid_rows(s: Seq<Instrument>) -> Seq<DbSharesLiquid>
    decreases s.len(),
{
    if s.len() == 0 {
        Seq::empty()
    } else {
        let rest = liquid_rows(s.drop_last());
        let ins = s.last();
        if is_liquid_instrument(ins) {
            rest.push(DbSharesLiquid {
                instrument_id: ins.instrument_id,
                first_1min_candle_date: ins.first_tradable_minute_timestamp->0,
            })
        } else {
            rest
        }
    }
}

/// Whether some row carries the given instrument id.
pub open spec fn contains_id(rows: Seq<DbSharesLiquid>, id: Seq<char>) -> bool {
    exists|i: int| 0 <= i < rows.len() && rows[i].instrument_id@ == id
}

/// Whether some string in the sequence reads as the given id.
pub open spec fn contains_str(ids: Seq<String>, id: Seq<char>) -> bool {
    exists|i: int| 0 <= i < ids.len() && ids[i]@ == id
}

/// One `is_liquid = true` fact per current liquid row, in order.
pub open spec fn true_facts(rows: Seq<DbSharesLiquid>, now: i64) -> Seq<LiquidityFact>
    decreases rows.len(),
{
    if rows.len() == 0 {
        Seq::empty()
    } else {
        true_facts(rows.drop_last(), now).push(LiquidityFact {
            instrument_id: rows.last().instrument_id,
            observed_at: now,
            is_liquid: true,
        })
    }
}

/// One `is_liquid = false` fact per previously liquid instrument that
/// is no longer in the current rows, in order.
pub open spec fn dropped_facts(
    prev: Seq<String>,
    rows: Seq<DbSharesLiquid>,
    now: i64,
) -> Seq<LiquidityFact>
    decreases prev.len(),
{
    if prev.len() == 0 {
        Seq::empty()
    } else {
        let rest = dropped_facts(prev.drop_last(), rows, now);
        if contains_id(rows, prev.last()@) {
            rest
        } else {
            rest.push(LiquidityFact {
                instrument_id: prev.last(),
                observed_at: now,
                is_liquid: false,
            })
        }
    }
}

/// Classifies an instrument listing into its liquid-share rows.
pub fn classify_liquid(instruments: &Vec<Instrument>) -> (r: Vec<DbSharesLiquid>)
    ensures
        r@ == liquid_rows(instruments@),
{
    let n = instruments.len();
    let mut out: Vec<DbSharesLiquid> = Vec::new();
    let mut i: usize = 0;
    while i < n
        invariant
            0 <= i <= n,
            n == instruments@.len(),
            out@ == liquid_rows(instruments@.take(i as int)),
        decreases n - i,
    {
        proof {
            assert(instruments@.take(i as int + 1).drop_last()
                =~= instruments@.take(i as int));
            assert(instruments@.take(i as int + 1).last() == instruments@[i as int]);
        }
        let ins = &instruments[i];
        if ins.buy_available && ins.sell_available {
            match ins.first_tradable_minute_timestamp {
                Some(t) => {
                    out.push(DbSharesLiquid {
                        instrument_id: ins.instrument_id.clone(),
                        first_1min_candle_date: t,
                    });
                },
                None => {},
            }
        }
        i = i + 1;
    }
    proof {
        assert(instruments@.take(n as int) =~= instruments@);
    }
    out
}

/// Builds the facts one reconciliation cycle appends: a `true` fact per
/// current liquid row, then a `false` fact per dropped-out instrument.
pub fn build_reconcile_facts(
    liquid: &Vec<DbSharesLiquid>,
    prev_liquid: Vec<String>,
    now: i64,
) -> (r: Vec<LiquidityFact>)
    ensures
        r@ == true_facts(liquid@, now) + dropped_facts(prev_liquid@, liquid@, now),
{
    let mut out: Vec<LiquidityFact> = Vec::new();
    let n = liquid.len();
    let mut i: usize = 0;
    while i < n
        invariant
            0 <= i <= n,
            n == liquid@.len(),
            out@ == true_facts(liquid@.take(i as int), now),
        decreases n - i,
    {
        proof {
            assert(liquid@.take(i as int + 1).drop_last() =~= liquid@.take(i as int));
            assert(liquid@.take(i as int + 1).last() == liquid@[i as int]);
        }
        out.push(LiquidityFact {
            instrument_id: liquid[i].instrument_id.clone(),
            observed_at: now,
            is_liquid: true,
        });
        i = i + 1;
    }
    proof {
        assert(liquid@.take(n as int) =~= liquid@);
    }

    let ghost all_prev = prev_liquid@;
    let mut prev = prev_liquid;
    let ghost mut done: Seq<String> = Seq::empty();
    proof {
        assert(done + prev@ =~= all_prev);
        assert(out@ =~= true_facts(liquid@, now) + dropped_facts(done, liquid@, now));
    }
    while prev.len() > 0
        invariant
            done + prev@ == all_prev,
            out@ == true_facts(liquid@, now) + dropped_facts(done, liquid@, now),
        decreases prev@.len(),
    {
        let p = prev.remove(0);
        proof {
            assert(done.push(p) + prev@ =~= all_prev);
            assert(done.push(p).drop_last() =~= done);
        }
        let mut found = false;
        let m = liquid.len();
        let mut j: usize = 0;
        while j < m
            invariant
                0 <= j <= m,
                m == liquid@.len(),
                found <==> exists|t: int| 0 <= t < j && liquid@[t].instrument_id@ == p@,
            decreases m - j,
        {
            if liquid[j].instrument_id == p {
                found = true;
            }
            j = j + 1;
        }
        if !found {
            proof {
                assert(!contains_id(liquid@, p@));
                assert(out@.push(LiquidityFact { instrument_id: p, observed_at: now,
                        is_liquid: false })
                    =~= true_facts(liquid@, now) + dropped_facts(done.push(p), liquid@, now));
            }
            out.push(LiquidityFact { instrument_id: p, observed_at: now, is_liquid: false });
        } else {
            proof {
                assert(contains_id(liquid@, p@));
            }
        }
        proof {
            done = done.push(p);
        }
    }
    proof {
        assert(done =~= all_prev);
    }
    out
}

/// Runs one reconciliation: classifies nothing itself, but appends the
/// cycle's facts through the bulk writer, so poison facts cannot block
/// the healthy ones.
pub fn run_reconciliation<S: RecordSink<LiquidityFact>>(
    sink: &mut S,
    liquid: &Vec<DbSharesLiquid>,
    prev_liquid: Vec<String>,
    now: i64,
    max_batch: usize,
) -> (r: Result<(usize, Vec<usize>), BulkAborted>)
    requires
        max_batch >= 1,
    ensures
        accepts_all_chunks(*old(sink),
            true_facts(liquid@, now) + dropped_facts(prev_liquid@, liquid@, now))
            ==> (r is Ok && final(sink).contents() == old(sink).contents()
                + (true_facts(liquid@, now) + dropped_facts(prev_liquid@, liquid@, now))),
        final(sink).contents().len() >= old(sink).contents().len(),
        old(sink).contents()
            == final(sink).contents().take(old(sink).contents().len() as int),
{
    let facts = build_reconcile_facts(liquid, prev_liquid, now);
    let ghost fview = facts@;
    let r = insert_batch(sink, facts, max_batch);
    proof {
        if accepts_all_chunks(*old(sink), fview) && fview.len() == 0 {
            assert(old(sink).contents() + fview =~= old(sink).contents());
        }
        assert(old(sink).contents()
            =~= sink.contents().take(old(sink).contents().len() as int));
    }
    r
}

/// The authoritative fact of an instrument in a fact log: the fact with
/// the greatest `observed_at`, a later row winning a tie.
pub open spec fn latest_fact(log: Seq<LiquidityFact>, id: Seq<char>) -> Option<LiquidityFact>
    decreases log.len(),
{
    if log.len() == 0 {
        None
    } else {
        let rest = latest_fact(log.drop_last(), id);
        let last = log.last();
        if last.instrument_id@ == id {
            match rest {
                None => Some(last),
                Some(f) => if last.observed_at >= f.observed_at {
                    Some(last)
                } else {
                    Some(f)
                },
            }
        } else {
            rest
        }
    }
}

/// An instrument is currently liquid when its authoritative fact says so.
pub open spec fn currently_liquid(log: Seq<LiquidityFact>, id: Seq<char>) -> bool {
    latest_fact(log, id) matches Some(f) && f.is_liquid
}

/// The authoritative fact, when there is one, is a fact of the log and
/// belongs to the instrument; there is none exactly when the log holds
/// no fact for the instrument.
pub proof fn lemma_latest_props(log: Seq<LiquidityFact>, id: Seq<char>)
    ensures
        latest_fact(log, id) matches Some(f) ==> (exists|i: int|
            0 <= i < log.len() && log[i] == f) && f.instrument_id@ == id,
        latest_fact(log, id) is None <==> (forall|i: int|
            0 <= i < log.len() ==> (#[trigger] log[i]).instrument_id@ != id),
    decreases log.len(),
{
    if log.len() > 0 {
        lemma_latest_props(log.drop_last(), id);
        if let Some(f) = latest_fact(log, id) {
            if log.last().instrument_id@ == id && f == log.last() {
                assert(log[log.len() - 1] == f);
            } else {
                let i = choose|i: int| 0 <= i < log.drop_last().len()
                    && log.drop_last()[i] == f;
                assert(log[i] == f);
            }
        }
        if latest_fact(log, id) is None {
            assert forall|i: int| 0 <= i < log.len()
                implies (#[trigger] log[i]).instrument_id@ != id by {
                if i < log.len() - 1 {
                    assert(log.drop_last()[i] == log[i]);
                }
            }
        } else {
            assert(!(forall|i: int| 0 <= i < log.len()
                ==> (#[trigger] log[i]).instrument_id@ != id)) by {
                let f = latest_fact(log, id)->0;
                let i = choose|i: int| 0 <= i < log.len() && log[i] == f;
                assert(log[i].instrument_id@ == id);
            }
        }
    }
}

/// Appending facts no older than everything in the log makes them
/// authoritative: the combined latest fact is the appended part's when
/// it has one, and the old log's otherwise.
pub proof fn lemma_latest_append_ge(
    a: Seq<LiquidityFact>,
    b: Seq<LiquidityFact>,
    id: Seq<char>,
)
    requires
        forall|i: int, j: int| 0 <= i < a.len() && 0 <= j < b.len()
            ==> (#[trigger] a[i]).observed_at <= (#[trigger] b[j]).observed_at,
    ensures
        latest_fact(a + b, id) == (match latest_fact(b, id) {
            Some(f) => Some(f),
            None => latest_fact(a, id),
        }),
    decreases b.len(),
{
    if b.len() == 0 {
        assert(a + b =~= a);
    } else {
        assert forall|i: int, j: int| 0 <= i < a.len() && 0 <= j < b.drop_last().len()
            implies (#[trigger] a[i]).observed_at
                <= (#[trigger] b.drop_last()[j]).observed_at by {
            assert(b.drop_last()[j] == b[j]);
        }
        lemma_latest_append_ge(a, b.drop_last(), id);
        assert((a + b).drop_last() =~= a + b.drop_last());
        assert((a + b).last() == b.last());
        if b.last().instrument_id@ == id {
            if latest_fact(b.drop_last(), id) is None {
                if let Some(f) = latest_fact(a, id) {
                    lemma_latest_props(a, id);
                    let i = choose|i: int| 0 <= i < a.len() && a[i] == f;
                    assert(a[i].observed_at <= b[b.len() - 1].observed_at);
                }
            }
        }
    }
}

/// Every fact of a cycle carries the cycle's timestamp.
pub proof fn lemma_cycle_times(rows: Seq<DbSharesLiquid>, prev: Seq<String>, now: i64)
    ensures
        forall|i: int| 0 <= i < true_facts(rows, now).len()
            ==> (#[trigger] true_facts(rows, now)[i]).observed_at == now,
        forall|i: int| 0 <= i < dropped_facts(prev, rows, now).len()
            ==> (#[trigger] dropped_facts(prev, rows, now)[i]).observed_at == now,
    decreases rows.len() + prev.len(),
{
    if rows.len() > 0 {
        lemma_cycle_times(rows.drop_last(), prev, now);
        assert forall|i: int| 0 <= i < true_facts(rows, now).len()
            implies (#[trigger] true_facts(rows, now)[i]).observed_at == now by {
            if i < true_facts(rows, now).len() - 1 {
                assert(true_facts(rows, now)[i] == true_facts(rows.drop_last(), now)[i]);
            }
        }
    }
    if prev.len() > 0 {
        lemma_cycle_times(rows, prev.drop_last(), now);
        assert forall|i: int| 0 <= i < dropped_facts(prev, rows, now).len()
            implies (#[trigger] dropped_facts(prev, rows, now)[i]).observed_at == now by {
            if i < dropped_facts(prev.drop_last(), rows, now).len() {
                assert(dropped_facts(prev, rows, now)[i]
                    == dropped_facts(prev.drop_last(), rows, now)[i]);
            }
        }
    }
}

/// The true facts of a cycle have an authoritative fact exactly for the
/// cycle's liquid instruments, and it reads liquid.
proof fn lemma_true_facts_latest(rows: Seq<DbSharesLiquid>, now: i64, id: Seq<char>)
    ensures
        latest_fact(true_facts(rows, now), id) is Some <==> contains_id(rows, id),
        latest_fact(true_facts(rows, now), id) matches Some(f) ==> f.is_liquid,
    decreases rows.len(),
{
    if rows.len() > 0 {
        lemma_true_facts_latest(rows.drop_last(), now, id);
        assert(true_facts(rows, now).drop_last() =~= true_facts(rows.drop_last(), now));
        if contains_id(rows, id) && !(rows.last().instrument_id@ == id) {
            let i = choose|i: int| 0 <= i < rows.len() && rows[i].instrument_id@ == id;
            assert(rows.drop_last()[i] == rows[i]);
            assert(contains_id(rows.drop_last(), id));
        }
        if contains_id(rows.drop_last(), id) {
            let i = choose|i: int| 0 <= i < rows.drop_last().len()
                && rows.drop_last()[i].instrument_id@ == id;
            assert(rows[i] == rows.drop_last()[i]);
            assert(contains_id(rows, id));
        }
        if rows.last().instrument_id@ == id {
            assert(rows[rows.len() - 1].instrument_id@ == id);
            assert(contains_id(rows, id));
        }
    }
}

/// The dropped facts of a cycle have an authoritative fact exactly for
/// the previously liquid instruments that dropped out, and it reads
/// not liquid.
proof fn lemma_dropped_facts_latest(
    prev: Seq<String>,
    rows: Seq<DbSharesLiquid>,
    now: i64,
    id: Seq<char>,
)
    ensures
        latest_fact(dropped_facts(prev, rows, now), id) is Some
            <==> (contains_str(prev, id) && !contains_id(rows, id)),
        latest_fact(dropped_facts(prev, rows, now), id) matches Some(f) ==> !f.is_liquid,
    decreases prev.len(),
{
    if prev.len() > 0 {
        lemma_dropped_facts_latest(prev.drop_last(), rows, now, id);
        if !contains_id(rows, prev.last()@) {
            assert(dropped_facts(prev, rows, now).drop_last()
                =~= dropped_facts(prev.drop_last(), rows, now));
        }
        if contains_str(prev, id) && !(prev.last()@ == id) {
            let i = choose|i: int| 0 <= i < prev.len() && prev[i]@ == id;
            assert(prev.drop_last()[i] == prev[i]);
            assert(contains_str(prev.drop_last(), id));
        }
        if contains_str(prev.drop_last(), id) {
            let i = choose|i: int| 0 <= i < prev.drop_last().len()
                && prev.drop_last()[i]@ == id;
            assert(prev[i] == prev.drop_last()[i]);
            assert(contains_str(prev, id));
        }
        if prev.last()@ == id {
            assert(prev[prev.len() - 1]@ == id);
            assert(contains_str(prev, id));
        }
    }
}

/// Derives the current liquid set from a fact log: one entry per
/// instrument, kept exactly when its authoritative fact — greatest
/// `observed_at`, later rows winning ties — reads liquid.  Physical
/// arrival order alone never decides.
#[verifier::rlimit(60)]
pub fn get_current_liquid_set(log: &Vec<LiquidityFact>) -> (r: Vec<String>)
    ensures
        forall|j: int| 0 <= j < r@.len() ==> currently_liquid(log@, (#[trigger] r@[j])@),
        forall|id: Seq<char>| #[trigger] currently_liquid(log@, id)
            ==> exists|j: int| 0 <= j < r@.len() && r@[j]@ == id,
        forall|j1: int, j2: int| 0 <= j1 < j2 < r@.len()
            ==> (#[trigger] r@[j1])@ != (#[trigger] r@[j2])@,
{
    let n = log.len();
    let mut latest: Vec<LiquidityFact> = Vec::new();
    let mut i: usize = 0;
    while i < n
        invariant
            0 <= i <= n,
            n == log@.len(),
            forall|a: int, b: int| 0 <= a < b < latest@.len()
                ==> (#[trigger] latest@[a]).instrument_id@
                    != (#[trigger] latest@[b]).instrument_id@,
            forall|a: int| 0 <= a < latest@.len()
                ==> latest_fact(log@.take(i as int),
                    (#[trigger] latest@[a]).instrument_id@) == Some(latest@[a]),
            forall|id: Seq<char>| #[trigger] latest_fact(log@.take(i as int), id) is Some
                ==> exists|a: int| 0 <= a < latest@.len()
                    && (#[trigger] latest@[a]).instrument_id@ == id,
        decreases n - i,
    {
        proof {
            assert(log@.take(i as int + 1).drop_last() =~= log@.take(i as int));
            assert(log@.take(i as int + 1).last() == log@[i as int]);
        }
        let m = latest.len();
        let mut j: usize = 0;
        let mut found = false;
        let mut idx: usize = 0;
        while j < m
            invariant
                0 <= j <= m,
                m == latest@.len(),
                found ==> idx < m
                    && latest@[idx as int].instrument_id@ == log@[i as int].instrument_id@,
                !found ==> forall|t: int| 0 <= t < j
                    ==> (#[trigger] latest@[t]).instrument_id@
                        != log@[i as int].instrument_id@,
                i < n,
                n == log@.len(),
            decreases m - j,
        {
            if !found && latest[j].instrument_id == log[i].instrument_id {
                found = true;
                idx = j;
            }
            j = j + 1;
        }
        let newf = LiquidityFact {
            instrument_id: log[i].instrument_id.clone(),
            observed_at: log[i].observed_at,
            is_liquid: log[i].is_liquid,
        };
        let ghost pfx = log@.take(i as int);
        let ghost pfx1 = log@.take(i as int + 1);
        let ghost f = log@[i as int];
        let ghost fid = f.instrument_id@;
        proof {
            assert(newf == f);
            assert forall|id: Seq<char>| id != fid
                implies #[trigger] latest_fact(pfx1, id) == latest_fact(pfx, id) by {
            }
        }
        if found {
            let ghost oldlatest = latest@;
            if log[i].observed_at >= latest[idx].observed_at {
                latest.set(idx, newf);
                proof {
                    assert(latest_fact(pfx1, fid) == Some(f));
                    assert forall|a: int| 0 <= a < latest@.len()
                        implies latest_fact(pfx1, (#[trigger] latest@[a]).instrument_id@)
                            == Some(latest@[a]) by {
                        if a != idx {
                            assert(latest@[a] == oldlatest[a]);
                            assert(oldlatest[a].instrument_id@
                                != oldlatest[idx as int].instrument_id@);
                        }
                    }
                    assert forall|id: Seq<char>| #[trigger] latest_fact(pfx1, id) is Some
                        implies exists|a: int| 0 <= a < latest@.len()
                            && (#[trigger] latest@[a]).instrument_id@ == id by {
                        if id == fid {
                            assert(latest@[idx as int].instrument_id@ == id);
                        } else {
                            let a = choose|a: int| 0 <= a < oldlatest.len()
                                && oldlatest[a].instrument_id@ == id;
                            assert(latest@[a].instrument_id@ == id);
                        }
                    }
                }
            } else {
                proof {
                    assert(latest_fact(pfx, fid) == Some(oldlatest[idx as int]));
                    assert(latest_fact(pfx1, fid) == Some(oldlatest[idx as int]));
                    assert forall|a: int| 0 <= a < latest@.len()
                        implies latest_fact(pfx1, (#[trigger] latest@[a]).instrument_id@)
                            == Some(latest@[a]) by {
                        if a != idx {
                            assert(latest@[a].instrument_id@
                                != latest@[idx as int].instrument_id@);
                        }
                    }
                    assert forall|id: Seq<char>| #[trigger] latest_fact(pfx1, id) is Some
                        implies exists|a: int| 0 <= a < latest@.len()
                            && (#[trigger] latest@[a]).instrument_id@ == id by {
                        if id == fid {
                            assert(latest@[idx as int].instrument_id@ == id);
                        }
                    }
                }
            }
        } else {
            proof {
                assert(forall|t: int| 0 <= t < latest@.len()
                    ==> (#[trigger] latest@[t]).instrument_id@ != fid);
                assert(latest_fact(pfx, fid) is None) by {
                    if latest_fact(pfx, fid) is Some {
                        let a = choose|a: int| 0 <= a < latest@.len()
                            && (#[trigger] latest@[a]).instrument_id@ == fid;
                    }
                }
                assert(latest_fact(pfx1, fid) == Some(f));
            }
            let ghost oldlatest = latest@;
            latest.push(newf);
            proof {
                assert forall|a: int| 0 <= a < latest@.len()
                    implies latest_fact(pfx1, (#[trigger] latest@[a]).instrument_id@)
                        == Some(latest@[a]) by {
                    if a < oldlatest.len() {
                        assert(latest@[a] == oldlatest[a]);
                        assert(oldlatest[a].instrument_id@ != fid);
                    } else {
                        assert(latest@[a] == newf);
                    }
                }
                assert forall|id: Seq<char>| #[trigger] latest_fact(pfx1, id) is Some
                    implies exists|a: int| 0 <= a < latest@.len()
                        && (#[trigger] latest@[a]).instrument_id@ == id by {
                    if id == fid {
                        assert(latest@[latest@.len() - 1].instrument_id@ == id);
                    } else {
                        let a = choose|a: int| 0 <= a < oldlatest.len()
                            && oldlatest[a].instrument_id@ == id;
                        assert(latest@[a].instrument_id@ == id);
                    }
                }
            }
        }
        i = i + 1;
    }
    proof {
        assert(log@.take(n as int) =~= log@);
    }
    filter_liquid(latest, Ghost(log@))
}

/// Keeps, in order, the ids of the authoritative facts that read
/// liquid.  `latest` must hold exactly the authoritative facts of
/// `log`, one per instrument.
fn filter_liquid(latest: Vec<LiquidityFact>, Ghost(log): Ghost<Seq<LiquidityFact>>) -> (r: Vec<
    String,
>)
    requires
        forall|a: int, b: int| 0 <= a < b < latest@.len()
            ==> (#[trigger] latest@[a]).instrument_id@
                != (#[trigger] latest@[b]).instrument_id@,
        forall|a: int| 0 <= a < latest@.len()
            ==> latest_fact(log, (#[trigger] latest@[a]).instrument_id@) == Some(latest@[a]),
        forall|id: Seq<char>| #[trigger] latest_fact(log, id) is Some
            ==> exists|a: int| 0 <= a < latest@.len()
                && (#[trigger] latest@[a]).instrument_id@ == id,
    ensures
        forall|j: int| 0 <= j < r@.len() ==> currently_liquid(log, (#[trigger] r@[j])@),
        forall|id: Seq<char>| #[trigger] currently_liquid(log, id)
            ==> exists|j: int| 0 <= j < r@.len() && r@[j]@ == id,
        forall|j1: int, j2: int| 0 <= j1 < j2 < r@.len()
            ==> (#[trigger] r@[j1])@ != (#[trigger] r@[j2])@,
{
    let m2 = latest.len();
    let mut out: Vec<String> = Vec::new();
    let mut k: usize = 0;
    let ghost mut src: Seq<int> = Seq::empty();
    let ghost mut pos: Map<int, int> = Map::empty();
    #[verifier::loop_isolation(false)]
    while k < m2
        invariant
            0 <= k <= m2,
            src.len() == out@.len(),
            forall|j: int| 0 <= j < out@.len() ==> 0 <= (#[trigger] src[j]) < k,
            forall|j: int| 0 <= j < out@.len()
                ==> (#[trigger] out@[j])@ == latest@[src[j]].instrument_id@
                    && latest@[src[j]].is_liquid,
            forall|j1: int, j2: int| 0 <= j1 < j2 < out@.len()
                ==> (#[trigger] src[j1]) < (#[trigger] src[j2]),
            forall|a: int| 0 <= a < k && (#[trigger] latest@[a]).is_liquid
                ==> pos.contains_key(a) && 0 <= pos[a] < out@.len() && src[pos[a]] == a,
        decreases m2 - k,
    {
        if latest[k].is_liquid {
            let id = latest[k].instrument_id.clone();
            proof {
                src = src.push(k as int);
                pos = pos.insert(k as int, out@.len() as int);
            }
            out.push(id);
        }
        k = k + 1;
    }
    proof {
        assert forall|j: int| 0 <= j < out@.len()
            implies currently_liquid(log, (#[trigger] out@[j])@) by {
            let a = src[j];
            assert(latest_fact(log, latest@[a].instrument_id@) == Some(latest@[a]));
        }
        assert forall|id: Seq<char>| #[trigger] currently_liquid(log, id)
            implies exists|j: int| 0 <= j < out@.len() && out@[j]@ == id by {
            let a = choose|a: int| 0 <= a < latest@.len()
                && (#[trigger] latest@[a]).instrument_id@ == id;
            assert(latest_fact(log, id) == Some(latest@[a]));
            assert(latest@[a].is_liquid);
            let j = pos[a];
            assert(0 <= j < out@.len() && src[j] == a);
            assert(out@[j]@ == id);
        }
        assert forall|j1: int, j2: int| 0 <= j1 < j2 < out@.len()
            implies (#[trigger] out@[j1])@ != (#[trigger] out@[j2])@ by {
            assert(src[j1] < src[j2]);
            assert(latest@[src[j1]].instrument_id@ != latest@[src[j2]].instrument_id@);
        }
    }
    out
}

/// After a reconciliation cycle whose timestamp exceeds everything in
/// the log, the current-liquidity view reflects exactly that cycle's
/// classification — older facts remain stored but are never
/// authoritative.  The cycle must have been fed the log's own current
/// liquid set, as the reconciler does.
pub proof fn lemma_reconcile_authoritative(
    log: Seq<LiquidityFact>,
    liquid: Seq<DbSharesLiquid>,
    prev: Seq<String>,
    now: i64,
    id: Seq<char>,
)
    requires
        forall|i: int| 0 <= i < log.len() ==> (#[trigger] log[i]).observed_at < now,
        forall|k: Seq<char>| #[trigger] currently_liquid(log, k) ==> contains_str(prev, k),
    ensures
        currently_liquid(
            log + (true_facts(liquid, now) + dropped_facts(prev, liquid, now)), id)
            <==> contains_id(liquid, id),
{
    let tf = true_facts(liquid, now);
    let df = dropped_facts(prev, liquid, now);
    let cycle = tf + df;
    lemma_cycle_times(liquid, prev, now);
    lemma_latest_append_ge(tf, df, id);
    assert forall|i: int, j: int| 0 <= i < log.len() && 0 <= j < cycle.len()
        implies (#[trigger] log[i]).observed_at <= (#[trigger] cycle[j]).observed_at by {
        if j < tf.len() {
            assert(cycle[j] == tf[j]);
        } else {
            assert(cycle[j] == df[j - tf.len()]);
        }
    }
    lemma_latest_append_ge(log, cycle, id);
    lemma_true_facts_latest(liquid, now, id);
    lemma_dropped_facts_latest(prev, liquid, now, id);
    if contains_id(liquid, id) {
        assert(latest_fact(df, id) is None);
        assert(currently_liquid(log + cycle, id));
    } else {
        if contains_str(prev, id) {
            assert(latest_fact(cycle, id) == latest_fact(df, id));
            assert(!currently_liquid(log + cycle, id));
        } else {
            assert(latest_fact(tf, id) is None);
            assert(latest_fact(df, id) is None);
            assert(latest_fact(log + cycle, id) == latest_fact(log, id));
            if currently_liquid(log + cycle, id) {
                assert(currently_liquid(log, id));
                assert(contains_str(prev, id));
            }
        }
    }
}

} // verus!
