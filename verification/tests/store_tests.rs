use std::str::FromStr;

use market_ingest::checkpoint::{CheckpointStore, MemoryCheckpointStore};
use market_ingest::config::{AppEnv, Env};
use market_ingest::memstore::MemorySink;
use market_ingest::records::Instrument;
use market_ingest::refresh::{filter_excluded, run_instrument_refresh};

fn instrument(id: &str, buy: bool, sell: bool, first: Option<i64>) -> Instrument {
    Instrument {
        instrument_id: id.to_string(),
        buy_available: buy,
        sell_available: sell,
        first_tradable_minute_timestamp: first,
    }
}

#[test]
fn checkpoints_read_back_what_was_put() {
    let mut store = MemoryCheckpointStore::new();
    let x = "X".to_string();
    let y = "Y".to_string();
    assert_eq!(store.get(&x).unwrap(), None);
    store.put(&x, 100).unwrap();
    store.put(&y, 50).unwrap();
    assert_eq!(store.get(&x).unwrap(), Some(100));
    assert_eq!(store.get(&y).unwrap(), Some(50));
    store.put(&x, 200).unwrap();
    assert_eq!(store.get(&x).unwrap(), Some(200));
    assert_eq!(store.get(&y).unwrap(), Some(50));
}

#[test]
fn exclusion_list_filters_by_id() {
    let fetched = vec![
        instrument("A", true, true, Some(1)),
        instrument("BAD", true, true, Some(1)),
        instrument("B", true, true, Some(1)),
    ];
    let excluded = vec!["BAD".to_string()];
    let kept = filter_excluded(fetched, &excluded);
    let ids: Vec<&str> = kept.iter().map(|i| i.instrument_id.as_str()).collect();
    assert_eq!(ids, vec!["A", "B"]);
}

#[test]
fn refresh_inserts_instruments_and_appends_facts() {
    let fetched = vec![
        instrument("A", true, true, Some(1)),
        instrument("BAD", true, true, Some(1)),
        instrument("B", true, false, Some(1)),
    ];
    let excluded = vec!["BAD".to_string()];
    let mut instrument_sink: MemorySink<Instrument> = MemorySink::new();
    let mut fact_sink = MemorySink::new();
    let prev = vec!["B".to_string()];

    let (inserted, liquid) = run_instrument_refresh(
        &mut instrument_sink, &mut fact_sink, fetched, &excluded, prev, 500, 100)
        .unwrap();

    assert_eq!(inserted, 2);
    assert_eq!(instrument_sink.rows.len(), 2);
    assert_eq!(instrument_sink.rows[0].instrument_id, "A");
    assert_eq!(instrument_sink.rows[1].instrument_id, "B");

    // A is liquid; B lost its sell flag and drops out.
    assert_eq!(liquid.len(), 1);
    assert_eq!(liquid[0].instrument_id, "A");
    assert_eq!(fact_sink.rows.len(), 2);
    assert_eq!((fact_sink.rows[0].instrument_id.as_str(), fact_sink.rows[0].is_liquid),
        ("A", true));
    assert_eq!((fact_sink.rows[1].instrument_id.as_str(), fact_sink.rows[1].is_liquid),
        ("B", false));
    assert!(fact_sink.rows.iter().all(|f| f.observed_at == 500));
}

#[test]
fn environment_parsing_is_case_insensitive() {
    assert!(matches!(Env::from_str("local"), Ok(Env::Local)));
    assert!(matches!(Env::from_str("LOCAL"), Ok(Env::Local)));
    assert!(matches!(Env::from_str("prod"), Ok(Env::Production)));
    assert!(matches!(Env::from_str("Production"), Ok(Env::Production)));
    assert!(Env::from_str("staging").is_err());
    assert_eq!(Env::Local.as_str(), "local");
    assert_eq!(Env::Production.as_str(), "prod");
}

#[test]
fn is_local_reflects_the_environment() {
    let env = AppEnv {
        env: Env::Local,
        clickhouse_url: String::new(),
        clickhouse_user: String::new(),
        clickhouse_password: String::new(),
        clickhouse_database: String::new(),
        postgres_host: String::new(),
        postgres_user: String::new(),
        postgres_password: String::new(),
        postgres_database: String::new(),
        tinkoff_token: String::new(),
        server_port: 8080,
        server_address: String::new(),
    };
    assert!(env.is_local());
    let env = AppEnv { env: Env::Production, ..env };
    assert!(!env.is_local());
}
