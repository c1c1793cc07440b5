//! Resilient bulk insertion with poison-record isolation.
//!
//! `insert_batch` appends a batch of records to an append-only store
//! through chunked insert calls.  When a chunk is rejected it halves the
//! chunk size and retries, so a single poison record cannot block the
//! rest of the batch: the poison is isolated at chunk size one, recorded
//! by index, and every healthy record is still inserted, in order.

use vstd::prelude::*;

verus! {

/// How an underlying insert call failed.
#[derive(Clone, Copy, Debug, PartialEq, Eq, Structural)]
pub enum SinkError {
    /// The store cannot be reached; retrying within this call is futile.
    Unavailable,
    /// The store rejected rows of this chunk; a smaller chunk may succeed.
    Rejected,
}

/// An append-only record store accepting one chunk per round trip.
///
/// `accepts` and `rejects` are the chunks on which the store's outcome is
/// known beforehand; both may be empty for a store whose behaviour is not
/// pinned down.  A deterministic in-memory store makes them complementary.
/// The ghost members default to the empty model — an unverified backend
/// claims nothing of itself and only supplies `insert_chunk`.
pub trait RecordSink<R>: Sized {
    /// The records the store holds, in arrival order.
    open spec fn contents(&self) -> Seq<R> {
        Seq::empty()
    }

    /// The number of insert calls issued so far.
    open spec fn calls(&self) -> nat {
        0
    }

    /// Chunks this store is known to accept.
    open spec fn accepts(&self, chunk: Seq<R>) -> bool {
        false
    }

    /// Chunks this store is known to reject.
    open spec fn rejects(&self, chunk: Seq<R>) -> bool {
        false
    }

    /// Whether the store is known to be unreachable: every insert call
    /// then fails with `Unavailable`.
    open spec fn unavailable(&self) -> bool {
        false
    }

    /// One insert round trip.  On failure the chunk is handed back
    /// untouched, so the caller can retry it in smaller pieces.
    fn insert_chunk(&mut self, chunk: Vec<R>) -> (r: Result<(), (SinkError, Vec<R>)>)
        requires
            chunk@.len() >= 1,
        ensures
            final(self).calls() == old(self).calls() + 1,
            forall|c: Seq<R>| #[trigger] final(self).accepts(c) == old(self).accepts(c),
            forall|c: Seq<R>| #[trigger] final(self).rejects(c) == old(self).rejects(c),
            final(self).unavailable() == old(self).unavailable(),
            old(self).unavailable() ==> (r matches Err(e) && e.0 == SinkError::Unavailable),
            r is Ok ==> final(self).contents() == old(self).contents() + chunk@,
            r matches Err(e) ==> final(self).contents() == old(self).contents()
                && e.1@ == chunk@,
            old(self).accepts(chunk@) ==> r is Ok,
            old(self).rejects(chunk@) ==> (r matches Err(e) && e.0 == SinkError::Rejected),
    ;
}

/// Progress made before a bulk insertion was cut short by an unreachable
/// store.
#[derive(Debug)]
pub struct BulkAborted {
    /// Records consumed (inserted or isolated) before the fatal call.
    pub processed: usize,
    /// Records inserted before the fatal call.
    pub inserted: usize,
    /// Indices of records isolated as poison before the fatal call.
    pub skipped: Vec<usize>,
}

/// The indices are in strictly ascending order.
pub open spec fn strictly_increasing(s: Seq<usize>) -> bool {
    forall|i: int, j: int| 0 <= i < j < s.len() ==> s[i] < s[j]
}

/// `records` with the positions listed in `skipped` removed; `skipped`
/// must be ascending and within range.
pub open spec fn unskipped<R>(records: Seq<R>, skipped: Seq<usize>) -> Seq<R>
    decreases records.len(),
{
    if records.len() == 0 {
        Seq::empty()
    } else if skipped.len() > 0 && skipped.last() as int == records.len() - 1 {
        unskipped(records.drop_last(), skipped.drop_last())
    } else {
        unskipped(records.drop_last(), skipped).push(records.last())
    }
}

/// Rounded-up division, for counting full-size chunks.
pub open spec fn ceil_div(a: int, b: int) -> int {
    (a + b - 1) / b
}

/// How many halvings (rounding down) bring `m` to one: the length of a
/// chunk-shrinking descent that starts at `m`.
pub open spec fn halvings(m: int) -> int
    decreases m,
{
    if m <= 1 {
        0
    } else {
        1 + halvings(m / 2)
    }
}

proof fn lemma_halvings_nonneg(m: int)
    ensures
        halvings(m) >= 0,
    decreases m,
{
    if m > 1 {
        lemma_halvings_nonneg(m / 2);
    }
}

proof fn lemma_halvings_mono(a: int, b: int)
    requires
        a <= b,
    ensures
        halvings(a) <= halvings(b),
    decreases b,
{
    if a <= 1 {
        lemma_halvings_nonneg(b);
    } else {
        lemma_halvings_mono(a / 2, b / 2);
    }
}

/// The store is known to accept every contiguous chunk of `records`.
pub open spec fn accepts_all_chunks<R, S: RecordSink<R>>(sink: S, records: Seq<R>) -> bool {
    forall|i: int, j: int| 0 <= i <= j <= records.len()
        ==> #[trigger] sink.accepts(records.subrange(i, j))
}

/// The store's known behaviour is "reject exactly the chunks holding the
/// record at `p`, accept all others", and no other record equals it.
pub open spec fn single_poison<R, S: RecordSink<R>>(sink: S, records: Seq<R>, p: int) -> bool {
    &&& 0 <= p < records.len()
    &&& forall|c: Seq<R>| #[trigger] sink.accepts(c) <==> !c.contains(records[p])
    &&& forall|c: Seq<R>| #[trigger] sink.rejects(c) <==> c.contains(records[p])
    &&& forall|i: int| 0 <= i < records.len() && i != p ==> records[i] != records[p]
}

proof fn lemma_unskipped_extend<R>(records: Seq<R>, skipped: Seq<usize>, pos: int, k: int)
    requires
        0 <= pos,
        0 <= k,
        pos + k <= records.len(),
        forall|t: int| 0 <= t < skipped.len() ==> (#[trigger] skipped[t]) < pos,
    ensures
        unskipped(records.take(pos + k), skipped)
            == unskipped(records.take(pos), skipped) + records.subrange(pos, pos + k),
    decreases k,
{
    if k == 0 {
        assert(records.take(pos + 0) =~= records.take(pos));
        assert(records.subrange(pos, pos) =~= Seq::<R>::empty());
        assert(unskipped(records.take(pos), skipped) + Seq::<R>::empty()
            =~= unskipped(records.take(pos), skipped));
    } else {
        lemma_unskipped_extend(records, skipped, pos, k - 1);
        let t1 = records.take(pos + k);
        assert(t1.drop_last() =~= records.take(pos + k - 1));
        if skipped.len() > 0 {
            assert(skipped.last() == skipped[skipped.len() - 1]);
            assert(skipped[skipped.len() - 1] < pos);
        }
        assert(unskipped(t1, skipped)
            == unskipped(records.take(pos + k - 1), skipped).push(records[pos + k - 1]));
        assert((unskipped(records.take(pos), skipped) + records.subrange(pos, pos + k - 1)).push(
            records[pos + k - 1])
            =~= unskipped(records.take(pos), skipped) + records.subrange(pos, pos + k));
    }
}

proof fn lemma_unskipped_skip<R>(records: Seq<R>, skipped: Seq<usize>, pos: usize)
    requires
        0 <= pos < records.len(),
        forall|t: int| 0 <= t < skipped.len() ==> (#[trigger] skipped[t]) < pos,
    ensures
        unskipped(records.take(pos + 1), skipped.push(pos))
            == unskipped(records.take(pos as int), skipped),
{
    let t1 = records.take(pos + 1);
    assert(t1.len() == pos + 1);
    assert(skipped.push(pos).last() == pos);
    assert(t1.drop_last() =~= records.take(pos as int));
    assert(skipped.push(pos).drop_last() =~= skipped);
}

/// Inserts `records` through `sink` in chunks of at most `max_batch`.
///
/// On a rejected chunk the chunk size is halved (floor one) and the same
/// records are retried; a record rejected alone is isolated: its index is
/// recorded and the rest of the batch continues at full chunk size.  An
/// unreachable store aborts the batch at once, reporting the progress
/// made.  The total number of insert calls is bounded for every run:
/// each record costs at most one call plus one shrinking descent, so no
/// input can make the writer loop indefinitely.  Returns the number of
/// records inserted and the indices of the isolated records.
#[verifier::rlimit(100)]
pub fn insert_batch<R, S: RecordSink<R>>(sink: &mut S, records: Vec<R>, max_batch: usize) -> (r:
    Result<(usize, Vec<usize>), BulkAborted>)
    requires
        max_batch >= 1,
    ensures
        forall|c: Seq<R>| #[trigger] final(sink).accepts(c) == old(sink).accepts(c),
        forall|c: Seq<R>| #[trigger] final(sink).rejects(c) == old(sink).rejects(c),
        final(sink).unavailable() == old(sink).unavailable(),
        final(sink).calls() >= old(sink).calls(),
        old(sink).unavailable() && records@.len() > 0 ==> (r matches Err(f)
            && f.processed == 0 && f.inserted == 0 && f.skipped@ == Seq::<usize>::empty()
            && final(sink).calls() == old(sink).calls() + 1),
        final(sink).calls() <= old(sink).calls()
            + records@.len() * (halvings(max_batch as int) + 2)
            + halvings(max_batch as int) + 1,
        r matches Ok(v) ==> {
            &&& strictly_increasing(v.1@)
            &&& forall|t: int| 0 <= t < v.1@.len() ==> (#[trigger] v.1@[t]) < records@.len()
            &&& v.0 as int + v.1@.len() == records@.len()
            &&& final(sink).contents() == old(sink).contents() + unskipped(records@, v.1@)
            &&& forall|t: int| 0 <= t < v.1@.len()
                ==> !old(sink).accepts(seq![records@[(#[trigger] v.1@[t]) as int]])
        },
        r matches Err(f) ==> {
            &&& f.processed <= records@.len()
            &&& strictly_increasing(f.skipped@)
            &&& forall|t: int| 0 <= t < f.skipped@.len()
                ==> (#[trigger] f.skipped@[t]) < f.processed
            &&& f.inserted as int + f.skipped@.len() == f.processed as int
            &&& final(sink).contents() == old(sink).contents()
                + unskipped(records@.take(f.processed as int), f.skipped@)
            &&& final(sink).calls() > old(sink).calls()
        },
        records@.len() == 0 ==> (r matches Ok(v) && v.0 == 0 && v.1@ == Seq::<usize>::empty()
            && final(sink).calls() == old(sink).calls()),
        accepts_all_chunks(*old(sink), records@) && records@.len() > 0 ==> (r matches Ok(v)
            && v.0 == records@.len() && v.1@ == Seq::<usize>::empty()
            && final(sink).contents() == old(sink).contents() + records@
            && final(sink).calls() == old(sink).calls()
                + ceil_div(records@.len() as int, max_batch as int)),
        forall|p: int| single_poison(*old(sink), records@, p) ==> (r matches Ok(v)
            && v.0 as int == records@.len() - 1 && v.1@ == seq![p as usize]),
{
    let ghost all: Seq<R> = records@;
    let n = records.len();
    let mut remaining = records;
    let mut pos: usize = 0;
    let mut batch_size: usize = max_batch;
    let mut inserted: usize = 0;
    let mut skipped: Vec<usize> = Vec::new();
    let ghost mut step_count: int = 0;
    let ghost mut fail_count: int = 0;

    proof {
        lemma_halvings_nonneg(max_batch as int);
        assert(remaining@ =~= all.subrange(0, n as int));
        assert(all.take(0) =~= Seq::<R>::empty());
        vstd::arithmetic::div_mod::lemma_basic_div_specific_divisor(max_batch as int);
        vstd::arithmetic::div_mod::lemma_small_mod(0, max_batch as nat);
        assert(ceil_div(0, max_batch as int) == 0);
    }
    while remaining.len() > 0
        invariant
            all == records@,
            n == all.len(),
            0 <= pos <= n,
            remaining@ == all.subrange(pos as int, n as int),
            1 <= batch_size <= max_batch,
            forall|c: Seq<R>| #[trigger] sink.accepts(c) == old(sink).accepts(c),
            forall|c: Seq<R>| #[trigger] sink.rejects(c) == old(sink).rejects(c),
            sink.unavailable() == old(sink).unavailable(),
            old(sink).unavailable() && n > 0 ==> (pos == 0 && skipped@.len() == 0
                && sink.calls() == old(sink).calls()),
            sink.calls() == old(sink).calls() + step_count + fail_count,
            0 <= step_count <= pos,
            0 <= fail_count,
            0 <= halvings(batch_size as int) <= halvings(max_batch as int),
            fail_count <= step_count * (halvings(max_batch as int) + 1)
                + (halvings(max_batch as int) - halvings(batch_size as int)),
            strictly_increasing(skipped@),
            forall|t: int| 0 <= t < skipped@.len() ==> (#[trigger] skipped@[t]) < pos,
            inserted as int + skipped@.len() == pos as int,
            sink.contents() == old(sink).contents() + unskipped(all.take(pos as int), skipped@),
            sink.calls() >= old(sink).calls(),
            pos > 0 ==> sink.calls() > old(sink).calls(),
            n == 0 ==> sink.calls() == old(sink).calls(),
            forall|t: int| 0 <= t < skipped@.len()
                ==> !old(sink).accepts(seq![all[(#[trigger] skipped@[t]) as int]]),
            accepts_all_chunks(*old(sink), all) ==> {
                &&& skipped@.len() == 0
                &&& batch_size == max_batch
                &&& pos as int % max_batch as int == 0 || pos == n
                &&& sink.calls() == old(sink).calls()
                    + ceil_div(pos as int, max_batch as int)
            },
            forall|p: int| single_poison(*old(sink), all, p) ==> {
                &&& (p >= pos as int ==> skipped@.len() == 0)
                &&& (p < pos as int ==> skipped@ == seq![p as usize])
            },
        decreases n - pos, batch_size,
    {
        let k = if batch_size < remaining.len() {
            batch_size
        } else {
            remaining.len()
        };
        let rest = remaining.split_off(k);
        let ghost chunk_view = all.subrange(pos as int, pos as int + k as int);
        proof {
            assert(remaining@ =~= chunk_view);
            assert(rest@ =~= all.subrange(pos as int + k as int, n as int));
        }
        match sink.insert_chunk(remaining) {
            Ok(()) => {
                proof {
                    lemma_unskipped_extend(all, skipped@, pos as int, k as int);
                    assert((old(sink).contents() + unskipped(all.take(pos as int), skipped@))
                        + chunk_view
                        =~= old(sink).contents()
                            + unskipped(all.take(pos as int + k as int), skipped@));
                    if accepts_all_chunks(*old(sink), all) {
                        assert(old(sink).accepts(chunk_view));
                        lemma_chunk_progress(n as int, pos as int, k as int, max_batch as int);
                    }
                    assert forall|p: int| single_poison(*old(sink), all, p) implies {
                        &&& (p >= pos as int + k as int ==> skipped@.len() == 0)
                        &&& (p < pos as int + k as int ==> skipped@ == seq![p as usize])
                    } by {
                        if pos as int <= p < pos as int + k as int {
                            assert(chunk_view[p - pos as int] == all[p]);
                            assert(chunk_view.contains(all[p]));
                            assert(old(sink).rejects(chunk_view));
                        }
                    }
                }
                proof {
                    let gl = halvings(max_batch as int);
                    assert((step_count + 1) * (gl + 1) == step_count * (gl + 1) + (gl + 1))
                        by (nonlinear_arith);
                    step_count = step_count + 1;
                }
                inserted = inserted + k;
                pos = pos + k;
                remaining = rest;
                batch_size = max_batch;
            },
            Err((e, back)) => {
                match e {
                    SinkError::Unavailable => {
                        proof {
                            assert forall|p: int| single_poison(*old(sink), all, p)
                                implies false by {
                                if chunk_view.contains(all[p]) {
                                    assert(old(sink).rejects(chunk_view));
                                } else {
                                    assert(old(sink).accepts(chunk_view));
                                }
                            }
                            assert(!accepts_all_chunks(*old(sink), all)) by {
                                if accepts_all_chunks(*old(sink), all) {
                                    assert(old(sink).accepts(chunk_view));
                                }
                            }
                        }
                        proof {
                            if old(sink).unavailable() {
                                assert(skipped@ =~= Seq::<usize>::empty());
                            }
                            let gl = halvings(max_batch as int);
                            assert(step_count * (gl + 1) <= n * (gl + 1))
                                by (nonlinear_arith)
                                requires 0 <= step_count <= n as int && gl >= 0;
                            assert(n * (gl + 2) == n * (gl + 1) + n) by (nonlinear_arith);
                        }
                        return Err(BulkAborted { processed: pos, inserted, skipped });
                    },
                    SinkError::Rejected => {
                        if k == 1 {
                            proof {
                                assert(chunk_view =~= seq![all[pos as int]]);
                                assert(!old(sink).accepts(chunk_view));
                                lemma_unskipped_skip(all, skipped@, pos);
                                assert forall|i: int, j: int|
                                    0 <= i < j < skipped@.push(pos).len()
                                    implies skipped@.push(pos)[i] < skipped@.push(pos)[j] by {
                                    if j < skipped@.len() {
                                    } else {
                                        assert(skipped@.push(pos)[i] == skipped@[i]);
                                    }
                                }
                                assert(!accepts_all_chunks(*old(sink), all)) by {
                                    if accepts_all_chunks(*old(sink), all) {
                                        assert(old(sink).accepts(chunk_view));
                                    }
                                }
                                assert forall|p: int| single_poison(*old(sink), all, p)
                                    implies {
                                    &&& (p >= pos as int + 1 ==> skipped@.push(pos).len() == 0)
                                    &&& (p < pos as int + 1 ==> skipped@.push(pos)
                                        == seq![p as usize])
                                } by {
                                    assert(old(sink).accepts(chunk_view)
                                        <==> !chunk_view.contains(all[p]));
                                    assert(chunk_view.contains(all[p]));
                                    let w = choose|w: int|
                                        0 <= w < chunk_view.len() && chunk_view[w] == all[p];
                                    assert(w == 0);
                                    assert(all[pos as int] == all[p]);
                                    assert(p == pos as int) by {
                                        if p != pos as int {
                                            assert(all[pos as int] != all[p]);
                                        }
                                    }
                                    assert(skipped@.len() == 0);
                                    assert(skipped@.push(pos) =~= seq![p as usize]);
                                }
                            }
                            proof {
                                let gl = halvings(max_batch as int);
                                assert((step_count + 1) * (gl + 1)
                                    == step_count * (gl + 1) + (gl + 1))
                                    by (nonlinear_arith);
                                step_count = step_count + 1;
                            }
                            skipped.push(pos);
                            pos = pos + 1;
                            remaining = rest;
                            batch_size = max_batch;
                        } else {
                            proof {
                                assert(!accepts_all_chunks(*old(sink), all)) by {
                                    if accepts_all_chunks(*old(sink), all) {
                                        assert(old(sink).accepts(chunk_view));
                                    }
                                }
                            }
                            let mut back = back;
                            let mut rest = rest;
                            back.append(&mut rest);
                            proof {
                                assert(back@ =~= all.subrange(pos as int, n as int));
                                lemma_halvings_mono(k as int, batch_size as int);
                                lemma_halvings_nonneg(k as int / 2);
                                assert(halvings(k as int) == 1 + halvings(k as int / 2));
                                fail_count = fail_count + 1;
                            }
                            remaining = back;
                            batch_size = k / 2;
                        }
                    },
                }
            },
        }
    }
    proof {
        assert(all.take(n as int) =~= all);
        assert(pos == n);
        if n == 0 {
            assert(unskipped(all, skipped@) =~= Seq::<R>::empty());
            assert(old(sink).contents() + unskipped(all, skipped@)
                =~= old(sink).contents());
            assert(skipped@ =~= Seq::<usize>::empty());
        }
        if accepts_all_chunks(*old(sink), all) && n > 0 {
            lemma_unskipped_extend(all, skipped@, 0, n as int);
            assert(all.take(0) =~= Seq::<R>::empty());
            assert(all.subrange(0, n as int) =~= all);
            assert(Seq::<R>::empty() + all =~= all);
            assert(old(sink).contents() + unskipped(all, skipped@)
                =~= old(sink).contents() + all);
            assert(skipped@ =~= Seq::<usize>::empty());
        }
        assert forall|p: int| single_poison(*old(sink), all, p)
            implies skipped@ == seq![p as usize] by {
        }
        let gl = halvings(max_batch as int);
        assert(step_count * (gl + 1) <= n * (gl + 1)) by (nonlinear_arith)
            requires 0 <= step_count <= n as int && gl >= 0;
        assert(n * (gl + 2) == n * (gl + 1) + n) by (nonlinear_arith);
    }
    Ok((inserted, skipped))
}

proof fn lemma_chunk_progress(n: int, pos: int, k: int, max_batch: int)
    requires
        1 <= max_batch,
        0 <= pos < n,
        pos % max_batch == 0,
        k == if max_batch < n - pos { max_batch } else { n - pos },
    ensures
        (pos + k) % max_batch == 0 || pos + k == n,
        ceil_div(pos + k, max_batch) == ceil_div(pos, max_batch) + 1,
{
    let t = pos / max_batch;
    vstd::arithmetic::div_mod::lemma_fundamental_div_mod(pos, max_batch);
    assert(pos == max_batch * t);
    assert(max_batch * t == t * max_batch) by (nonlinear_arith);
    assert((t + 1) * max_batch == t * max_batch + max_batch) by (nonlinear_arith);
    vstd::arithmetic::div_mod::lemma_fundamental_div_mod_converse_div(
        pos + max_batch - 1, max_batch, t, max_batch - 1);
    if k == max_batch {
        vstd::arithmetic::div_mod::lemma_fundamental_div_mod_converse_mod(
            pos + k, max_batch, t + 1, 0);
        vstd::arithmetic::div_mod::lemma_fundamental_div_mod_converse_div(
            pos + k + max_batch - 1, max_batch, t + 1, max_batch - 1);
    } else {
        assert(pos + k == n);
        assert(1 <= k < max_batch);
        vstd::arithmetic::div_mod::lemma_fundamental_div_mod_converse_div(
            pos + k + max_batch - 1, max_batch, t + 1, k - 1);
    }
}

} // verus!
