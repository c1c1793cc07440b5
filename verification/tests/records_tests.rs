use market_ingest::bulk::SinkError;
use market_ingest::errors::ClickhouseError;
use market_ingest::models::{
    MyCandleInterval, TinkoffRealExchangeModel, TinkoffShareTypeModel, TinkoffTradingStatusModel,
};
use market_ingest::records::{
    convert_candles, extract_money_value, extract_quotation, MoneyValue, Quotation, RawCandle,
};
use market_ingest::sqlfmt::escape_string_max;

#[test]
fn quotation_extraction_defaults_to_zero() {
    assert_eq!(extract_quotation(&Some(Quotation { units: 12, nano: -34 })), (12, -34));
    assert_eq!(extract_quotation(&None), (0, 0));
}

#[test]
fn money_value_extraction_defaults_to_empty() {
    let m = MoneyValue { currency: "rub".to_string(), units: 5, nano: 70 };
    assert_eq!(extract_money_value(&Some(m)), ("rub".to_string(), 5, 70));
    assert_eq!(extract_money_value(&None), (String::new(), 0, 0));
}

#[test]
fn candles_without_a_timestamp_are_dropped() {
    let id = "X".to_string();
    let timed = RawCandle {
        time: Some(77),
        open: Some(Quotation { units: 1, nano: 2 }),
        high: None,
        low: Some(Quotation { units: 3, nano: 4 }),
        close: None,
        volume: 9,
        is_complete: false,
    };
    let untimed = RawCandle { time: None, ..timed.clone() };
    let bars = convert_candles(&id, &vec![untimed.clone(), timed, untimed]);
    assert_eq!(bars.len(), 1);
    let b = &bars[0];
    assert_eq!(b.instrument_id, "X");
    assert_eq!(b.open_time, 77);
    assert_eq!((b.open_units, b.open_nano), (1, 2));
    assert_eq!((b.high_units, b.high_nano), (0, 0));
    assert_eq!((b.low_units, b.low_nano), (3, 4));
    assert_eq!((b.close_units, b.close_nano), (0, 0));
    assert_eq!(b.volume, 9);
    assert!(!b.is_complete);
}

#[test]
fn sql_escaping_maps_each_special_character() {
    assert_eq!(escape_string_max("plain"), "plain");
    assert_eq!(escape_string_max("a'b"), "a\\'b");
    assert_eq!(escape_string_max("a\\b"), "a\\\\b");
    assert_eq!(escape_string_max("q?\"\n\r\t\0"), "q\\?\\\"\\n\\r\\t\\0");
    assert_eq!(escape_string_max(""), "");
}

#[test]
fn real_exchange_codes_decode_to_names() {
    assert_eq!(TinkoffRealExchangeModel::from_raw(1).name, "REAL_EXCHANGE_MOEX");
    assert_eq!(TinkoffRealExchangeModel::from_raw(3).raw, 3);
    assert_eq!(TinkoffRealExchangeModel::from_raw(77).name, "UNKNOWN");
}

#[test]
fn share_type_codes_decode_to_names() {
    assert_eq!(TinkoffShareTypeModel::from_raw(2).name, "SHARE_TYPE_PREFERRED");
    assert_eq!(TinkoffShareTypeModel::from_raw(8).name, "SHARE_TYPE_REIT");
    assert_eq!(TinkoffShareTypeModel::from_raw(-1).name, "UNKNOWN");
}

#[test]
fn trading_status_codes_decode_to_names() {
    assert_eq!(TinkoffTradingStatusModel::from_raw(5).value, "NORMAL_TRADING");
    assert_eq!(TinkoffTradingStatusModel::from_raw(42).value, "UNKNOWN");
}

#[test]
fn candle_intervals_round_trip_their_codes() {
    assert!(matches!(MyCandleInterval::from_i32(1), Some(MyCandleInterval::OneMin)));
    assert!(matches!(MyCandleInterval::from_i32(13), Some(MyCandleInterval::Month)));
    assert!(MyCandleInterval::from_i32(14).is_none());
    assert!(MyCandleInterval::from_i32(-1).is_none());
    assert_eq!(MyCandleInterval::OneMin.as_str_name(), "CANDLE_INTERVAL_1_MIN");
    assert_eq!(MyCandleInterval::Unspecified.as_str_name(), "CANDLE_INTERVAL_UNSPECIFIED");
}

#[test]
fn store_errors_classify_and_describe() {
    let conn = ClickhouseError::ConnectionError("refused".to_string());
    let query = ClickhouseError::QueryError("bad row".to_string());
    let conv = ClickhouseError::ConversionError("bad type".to_string());
    assert_eq!(conn.to_sink_error(), SinkError::Unavailable);
    assert_eq!(query.to_sink_error(), SinkError::Rejected);
    assert_eq!(conv.to_sink_error(), SinkError::Rejected);
    assert_eq!(ClickhouseError::NotFound.to_sink_error(), SinkError::Rejected);
    assert_eq!(conn.message(), "Connection error: refused");
    assert_eq!(query.message(), "Query error: bad row");
    assert_eq!(ClickhouseError::NotFound.message(), "Record not found");
}
