use market_ingest::memstore::MemorySink;
use market_ingest::reconcile::{
    build_reconcile_facts, classify_liquid, get_current_liquid_set, run_reconciliation,
};
use market_ingest::records::{Instrument, LiquidityFact};

fn instrument(id: &str, buy: bool, sell: bool, first: Option<i64>) -> Instrument {
    Instrument {
        instrument_id: id.to_string(),
        buy_available: buy,
        sell_available: sell,
        first_tradable_minute_timestamp: first,
    }
}

fn fact(id: &str, at: i64, liquid: bool) -> LiquidityFact {
    LiquidityFact {
        instrument_id: id.to_string(),
        observed_at: at,
        is_liquid: liquid,
    }
}

#[test]
fn classification_requires_both_flags_and_a_known_first_minute() {
    let instruments = vec![
        instrument("A", true, true, Some(100)),
        instrument("B", true, false, Some(100)),
        instrument("C", false, true, Some(100)),
        instrument("D", true, true, None),
        instrument("E", true, true, Some(200)),
    ];
    let rows = classify_liquid(&instruments);
    assert_eq!(rows.len(), 2);
    assert_eq!(rows[0].instrument_id, "A");
    assert_eq!(rows[0].first_1min_candle_date, 100);
    assert_eq!(rows[1].instrument_id, "E");
    assert_eq!(rows[1].first_1min_candle_date, 200);
}

#[test]
fn cycle_facts_mark_current_liquid_and_dropped_out() {
    let instruments = vec![
        instrument("A", true, true, Some(1)),
        instrument("B", true, true, Some(2)),
    ];
    let rows = classify_liquid(&instruments);
    let prev = vec!["B".to_string(), "C".to_string()];
    let facts = build_reconcile_facts(&rows, prev, 500);
    assert_eq!(facts.len(), 3);
    assert_eq!((facts[0].instrument_id.as_str(), facts[0].is_liquid), ("A", true));
    assert_eq!((facts[1].instrument_id.as_str(), facts[1].is_liquid), ("B", true));
    assert_eq!((facts[2].instrument_id.as_str(), facts[2].is_liquid), ("C", false));
    assert!(facts.iter().all(|f| f.observed_at == 500));
}

#[test]
fn current_liquid_set_follows_timestamps_not_arrival_order() {
    // The newest fact for A reads not-liquid but sits physically first.
    let log = vec![
        fact("A", 300, false),
        fact("A", 100, true),
        fact("B", 100, true),
        fact("B", 50, false),
    ];
    let current = get_current_liquid_set(&log);
    assert_eq!(current, vec!["B".to_string()]);
}

#[test]
fn tie_on_observed_at_is_won_by_the_later_row() {
    let log = vec![fact("A", 100, true), fact("A", 100, false)];
    assert!(get_current_liquid_set(&log).is_empty());
    let log = vec![fact("A", 100, false), fact("A", 100, true)];
    assert_eq!(get_current_liquid_set(&log), vec!["A".to_string()]);
}

#[test]
fn n_cycles_only_the_last_classification_counts() {
    // Three reconciliation cycles over a shared append-only fact store.
    let mut sink: MemorySink<LiquidityFact> = MemorySink::new();

    // Cycle 1 at t=100: A and B are liquid.
    let rows = classify_liquid(&vec![
        instrument("A", true, true, Some(1)),
        instrument("B", true, true, Some(1)),
    ]);
    let prev = get_current_liquid_set(&sink.rows);
    run_reconciliation(&mut sink, &rows, prev, 100, 10).unwrap();

    // Cycle 2 at t=200: only B.
    let rows = classify_liquid(&vec![
        instrument("A", true, false, Some(1)),
        instrument("B", true, true, Some(1)),
    ]);
    let prev = get_current_liquid_set(&sink.rows);
    run_reconciliation(&mut sink, &rows, prev, 200, 10).unwrap();

    // Cycle 3 at t=300: A and C.
    let rows = classify_liquid(&vec![
        instrument("A", true, true, Some(1)),
        instrument("C", true, true, Some(1)),
    ]);
    let prev = get_current_liquid_set(&sink.rows);
    run_reconciliation(&mut sink, &rows, prev, 300, 10).unwrap();

    // All facts of all three cycles are still stored…
    assert_eq!(sink.rows.len(), 2 + (1 + 1) + (2 + 1));
    // …but the view reflects only the third cycle's classification.
    let mut current = get_current_liquid_set(&sink.rows);
    current.sort();
    assert_eq!(current, vec!["A".to_string(), "C".to_string()]);
}

#[test]
fn empty_cycle_marks_everything_dropped_out() {
    let mut sink: MemorySink<LiquidityFact> = MemorySink::new();
    let rows = classify_liquid(&vec![instrument("A", true, true, Some(1))]);
    let prev = get_current_liquid_set(&sink.rows);
    run_reconciliation(&mut sink, &rows, prev, 100, 10).unwrap();

    let rows = classify_liquid(&Vec::new());
    let prev = get_current_liquid_set(&sink.rows);
    run_reconciliation(&mut sink, &rows, prev, 200, 10).unwrap();

    assert!(get_current_liquid_set(&sink.rows).is_empty());
    assert_eq!(sink.rows.len(), 2);
}
