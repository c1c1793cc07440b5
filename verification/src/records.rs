//! Plain data carried through the ingestion paths.
//!
//! Upstream messages arrive as optional fixed-point pairs and optional
//! timestamps; the types here hold the same information as plain values,
//! so the logic over them can be verified.  Store row types mirror the
//! analytical store's tables one field per column.

use vstd::prelude::*;

verus! {

/// A fixed-point number: `units` plus `nano` billionths.
#[derive(Clone, Copy, Debug, PartialEq, Eq, Structural)]
pub struct Quotation {
    pub units: i64,
    pub nano: i32,
}

/// A fixed-point amount of money in a named currency.
#[derive(Clone, Debug, PartialEq)]
pub struct MoneyValue {
    pub currency: String,
    pub units: i64,
    pub nano: i32,
}

/// Extracts the `(units, nano)` pair of an optional quotation, defaulting
/// both components to zero when it is absent.
pub fn extract_quotation(quotation: &Option<Quotation>) -> (r: (i64, i32))
    ensures
        r == (match quotation {
            Some(q) => (q.units, q.nano),
            None => (0i64, 0i32),
        }),
{
    match quotation {
        Some(q) => (q.units, q.nano),
        None => (0, 0),
    }
}

/// Extracts the `(currency, units, nano)` triple of an optional money
/// value, defaulting to an empty currency and zero components.
pub fn extract_money_value(money: &Option<MoneyValue>) -> (r: (String, i64, i32))
    ensures
        match money {
            Some(m) => r.0@ == m.currency@ && r.1 == m.units && r.2 == m.nano,
            None => r.0@ == Seq::<char>::empty() && r.1 == 0 && r.2 == 0,
        },
{
    match money {
        Some(m) => (m.currency.clone(), m.units, m.nano),
        None => (String::new(), 0, 0),
    }
}

/// A minute bar as stored: immutable, keyed by `(instrument_id, open_time)`.
#[derive(Clone, Debug, PartialEq)]
pub struct Bar {
    pub instrument_id: String,
    pub open_time: i64,
    pub open_units: i64,
    pub open_nano: i32,
    pub high_units: i64,
    pub high_nano: i32,
    pub low_units: i64,
    pub low_nano: i32,
    pub close_units: i64,
    pub close_nano: i32,
    pub volume: i64,
    pub is_complete: bool,
}

/// A minute candle as the upstream API returns it: every field optional.
#[derive(Clone, Copy, Debug, PartialEq)]
pub struct RawCandle {
    pub time: Option<i64>,
    pub open: Option<Quotation>,
    pub high: Option<Quotation>,
    pub low: Option<Quotation>,
    pub close: Option<Quotation>,
    pub volume: i64,
    pub is_complete: bool,
}

/// The `units` component of an optional quotation, zero when absent.
pub open spec fn quot_units(q: Option<Quotation>) -> i64 {
    match q {
        Some(q) => q.units,
        None => 0,
    }
}

/// The `nano` component of an optional quotation, zero when absent.
pub open spec fn quot_nano(q: Option<Quotation>) -> i32 {
    match q {
        Some(q) => q.nano,
        None => 0,
    }
}

/// The raw candles that carry a timestamp, in order; the rest are dropped.
pub open spec fn keep_timed(s: Seq<RawCandle>) -> Seq<RawCandle>
    decreases s.len(),
{
    if s.len() == 0 {
        Seq::empty()
    } else {
        let rest = keep_timed(s.drop_last());
        if s.last().time is Some {
            rest.push(s.last())
        } else {
            rest
        }
    }
}

/// Field-by-field relation between a timed raw candle and its stored bar.
pub open spec fn bar_matches(id: Seq<char>, c: RawCandle, b: Bar) -> bool {
    &&& b.instrument_id@ == id
    &&& c.time matches Some(t) && b.open_time == t
    &&& b.open_units == quot_units(c.open)
    &&& b.open_nano == quot_nano(c.open)
    &&& b.high_units == quot_units(c.high)
    &&& b.high_nano == quot_nano(c.high)
    &&& b.low_units == quot_units(c.low)
    &&& b.low_nano == quot_nano(c.low)
    &&& b.close_units == quot_units(c.close)
    &&& b.close_nano == quot_nano(c.close)
    &&& b.volume == c.volume
    &&& b.is_complete == c.is_complete
}

/// Converts the upstream candles of one instrument to storable bars,
/// dropping candles without a timestamp and defaulting absent prices to
/// zero components.
pub fn convert_candles(instrument_id: &String, api_candles: &Vec<RawCandle>) -> (r: Vec<Bar>)
    ensures
        r@.len() == keep_timed(api_candles@).len(),
        forall|j: int| 0 <= j < r@.len()
            ==> #[trigger] bar_matches(instrument_id@, keep_timed(api_candles@)[j], r@[j]),
{
    let mut out: Vec<Bar> = Vec::new();
    let n = api_candles.len();
    let mut i: usize = 0;
    while i < n
        invariant
            0 <= i <= n,
            n == api_candles@.len(),
            out@.len() == keep_timed(api_candles@.take(i as int)).len(),
            forall|j: int| 0 <= j < out@.len()
                ==> #[trigger] bar_matches(
                    instrument_id@,
                    keep_timed(api_candles@.take(i as int))[j],
                    out@[j],
                ),
        decreases n - i,
    {
        proof {
            assert(api_candles@.take(i as int + 1).drop_last() =~= api_candles@.take(i as int));
            assert(api_candles@.take(i as int + 1).last() == api_candles@[i as int]);
        }
        let c = &api_candles[i];
        if let Some(t) = c.time {
            let (open_units, open_nano) = extract_quotation(&c.open);
            let (high_units, high_nano) = extract_quotation(&c.high);
            let (low_units, low_nano) = extract_quotation(&c.low);
            let (close_units, close_nano) = extract_quotation(&c.close);
            let bar = Bar {
                instrument_id: instrument_id.clone(),
                open_time: t,
                open_units,
                open_nano,
                high_units,
                high_nano,
                low_units,
                low_nano,
                close_units,
                close_nano,
                volume: c.volume,
                is_complete: c.is_complete,
            };
            out.push(bar);
        }
        i = i + 1;
    }
    proof {
        assert(api_candles@.take(n as int) =~= api_candles@);
    }
    out
}

/// Tradable-instrument metadata, refreshed wholesale each cycle.
#[derive(Clone, Debug, PartialEq)]
pub struct Instrument {
    pub instrument_id: String,
    pub buy_available: bool,
    pub sell_available: bool,
    pub first_tradable_minute_timestamp: Option<i64>,
}

/// An append-only record of an instrument's tradability at a point in time.
#[derive(Clone, Debug, PartialEq)]
pub struct LiquidityFact {
    pub instrument_id: String,
    pub observed_at: i64,
    pub is_liquid: bool,
}

/// A checkpoint row: the watermark up to which an instrument is ingested.
#[derive(Clone, Debug, PartialEq)]
pub struct DbLoadStatus {
    pub instrument_id: String,
    pub to: i64,
}

/// A liquid-share listing row: the instrument and its first tradable minute.
#[derive(Clone, Debug, PartialEq)]
pub struct DbSharesLiquid {
    pub instrument_id: String,
    pub first_1min_candle_date: i64,
}

/// A row of the derived current-liquidity view.
#[derive(Clone, Debug, PartialEq)]
pub struct DbLiquidShares {
    pub instrument_id: String,
    pub first_1min_candle_date: i64,
}

/// A row of the per-instrument candle-range summary table.
#[derive(Clone, Debug, PartialEq)]
pub struct DbModelMyInstrument {
    pub uid: String,
    pub first_1min_candle_date: i64,
    pub last_1min_candle_date: i64,
}

} // verus!
