use market_ingest::checkpoint::{CheckpointStore, MemoryCheckpointStore};
use market_ingest::fetch::MemoryFetcher;
use market_ingest::memstore::MemorySink;
use market_ingest::pipeline::{run_backfill_cycle, run_instrument_backfill};
use market_ingest::records::{Bar, DbSharesLiquid, Quotation, RawCandle};

// 2022-01-08 00:00:00 UTC.
const DAY_START: i64 = 19000 * 86400;
const DAY_END: i64 = DAY_START + 86399;

fn candle(t: i64, price_units: i64) -> RawCandle {
    RawCandle {
        time: Some(t),
        open: Some(Quotation { units: price_units, nano: 0 }),
        high: Some(Quotation { units: price_units + 1, nano: 0 }),
        low: Some(Quotation { units: price_units - 1, nano: 0 }),
        close: Some(Quotation { units: price_units, nano: 500 }),
        volume: 10,
        is_complete: true,
    }
}

fn fetcher_with(candles: Vec<(String, RawCandle)>) -> MemoryFetcher {
    MemoryFetcher::new(Vec::new(), candles)
}

#[test]
fn first_ingestion_creates_checkpoint_at_day_end() {
    // No checkpoint; first tradable minute at 10:00:00 of day D.  One
    // cycle fetches [D 10:00:00, D 23:59:59], persists the returned
    // bars and checkpoints at D 23:59:59.
    let first = DAY_START + 36000;
    let x = "X".to_string();
    let mut fetcher = fetcher_with(vec![
        (x.clone(), candle(first, 100)),
        (x.clone(), candle(first + 60, 101)),
        // outside the window: the next day
        (x.clone(), candle(DAY_START + 86400, 102)),
        // another instrument inside the window
        ("Z".to_string(), candle(first + 120, 103)),
    ]);
    let mut checkpoints = MemoryCheckpointStore::new();
    let mut sink: MemorySink<Bar> = MemorySink::new();
    let yesterday_end = DAY_END + 5 * 86400;

    let r = run_instrument_backfill(
        &mut fetcher, &mut checkpoints, &mut sink, &x, first, yesterday_end, 1000);
    assert_eq!(r.unwrap(), 2);
    assert_eq!(checkpoints.get(&x).unwrap(), Some(DAY_END));
    assert_eq!(sink.rows.len(), 2);
    assert_eq!(sink.rows[0].instrument_id, "X");
    assert_eq!(sink.rows[0].open_time, first);
    assert_eq!(sink.rows[0].open_units, 100);
    assert_eq!(sink.rows[0].close_nano, 500);
    assert_eq!(sink.rows[1].open_time, first + 60);
    // one fetch for the single first-day window
    assert_eq!(fetcher.attempts, 1);
}

#[test]
fn empty_days_still_advance_the_checkpoint() {
    // The watermark sits at the end of day D; the next two days return
    // no bars at all, yet the checkpoint must advance to yesterday_end,
    // or the same empty day would be re-fetched forever.
    let y = "Y".to_string();
    let mut fetcher = fetcher_with(Vec::new());
    let mut checkpoints = MemoryCheckpointStore::new();
    checkpoints.put(&y, DAY_END).unwrap();
    let mut sink: MemorySink<Bar> = MemorySink::new();
    let yesterday_end = DAY_END + 2 * 86400;

    let r = run_instrument_backfill(
        &mut fetcher, &mut checkpoints, &mut sink, &y, DAY_START, yesterday_end, 1000);
    assert_eq!(r.unwrap(), 0);
    assert_eq!(checkpoints.get(&y).unwrap(), Some(yesterday_end));
    assert!(sink.rows.is_empty());
    assert_eq!(fetcher.attempts, 2);
}

#[test]
fn caught_up_instrument_is_left_alone() {
    let y = "Y".to_string();
    let mut fetcher = fetcher_with(Vec::new());
    let mut checkpoints = MemoryCheckpointStore::new();
    checkpoints.put(&y, DAY_END).unwrap();
    let mut sink: MemorySink<Bar> = MemorySink::new();

    let r = run_instrument_backfill(
        &mut fetcher, &mut checkpoints, &mut sink, &y, DAY_START, DAY_END, 1000);
    assert_eq!(r.unwrap(), 0);
    assert_eq!(fetcher.attempts, 0);
    assert_eq!(sink.attempts, 0);
    assert_eq!(checkpoints.get(&y).unwrap(), Some(DAY_END));
}

#[test]
fn watermark_is_monotone_across_cycles() {
    let x = "X".to_string();
    let first = DAY_START + 36000;
    let mut fetcher = fetcher_with(vec![(x.clone(), candle(first, 100))]);
    let mut checkpoints = MemoryCheckpointStore::new();
    let mut sink: MemorySink<Bar> = MemorySink::new();

    // Cycle 1: first ingestion, checkpoint at the end of day D.
    run_instrument_backfill(
        &mut fetcher, &mut checkpoints, &mut sink, &x, first, DAY_END + 3 * 86400, 1000)
        .unwrap();
    let w1 = checkpoints.get(&x).unwrap().unwrap();

    // Cycle 2: catch up to yesterday.
    run_instrument_backfill(
        &mut fetcher, &mut checkpoints, &mut sink, &x, first, DAY_END + 3 * 86400, 1000)
        .unwrap();
    let w2 = checkpoints.get(&x).unwrap().unwrap();

    // Cycle 3: already caught up.
    run_instrument_backfill(
        &mut fetcher, &mut checkpoints, &mut sink, &x, first, DAY_END + 3 * 86400, 1000)
        .unwrap();
    let w3 = checkpoints.get(&x).unwrap().unwrap();

    assert!(w1 <= w2 && w2 <= w3);
    assert_eq!(w1, DAY_END);
    assert_eq!(w2, DAY_END + 3 * 86400);
    assert_eq!(w3, DAY_END + 3 * 86400);
}

#[test]
fn cycle_skips_bad_listings_and_processes_the_rest() {
    let good = DbSharesLiquid {
        instrument_id: "GOOD".to_string(),
        first_1min_candle_date: DAY_START + 60,
    };
    let bad = DbSharesLiquid {
        instrument_id: "BAD".to_string(),
        first_1min_candle_date: -1,
    };
    let shares = vec![bad, good];
    let mut fetcher = fetcher_with(Vec::new());
    let mut checkpoints = MemoryCheckpointStore::new();
    let mut sink: MemorySink<Bar> = MemorySink::new();

    let processed = run_backfill_cycle(
        &mut fetcher, &mut checkpoints, &mut sink, &shares, DAY_END, 1000);
    assert_eq!(processed, 1);
    assert_eq!(checkpoints.get(&"GOOD".to_string()).unwrap(), Some(DAY_END));
    assert_eq!(checkpoints.get(&"BAD".to_string()).unwrap(), None);
}
