//! Readable models of the upstream API's enumerations.
//!
//! The upstream protocol encodes these as raw integers; each model
//! keeps the raw value beside its protocol name.

use vstd::prelude::*;

verus! {

/// The protocol name of a real-exchange code.
pub open spec fn real_exchange_name(raw: i32) -> Seq<char> {
    if raw == 0 {
        "REAL_EXCHANGE_UNSPECIFIED"@
    } else if raw == 1 {
        "REAL_EXCHANGE_MOEX"@
    } else if raw == 2 {
        "REAL_EXCHANGE_RTS"@
    } else if raw == 3 {
        "REAL_EXCHANGE_OTC"@
    } else {
        "UNKNOWN"@
    }
}

/// A real-exchange code with its protocol name.
#[derive(Clone, Debug, PartialEq)]
pub struct TinkoffRealExchangeModel {
    pub raw: i32,
    pub name: String,
}

impl TinkoffRealExchangeModel {
    /// Decodes a raw real-exchange code.
    pub fn from_raw(raw: i32) -> (r: Self)
        ensures
            r.raw == raw,
            r.name@ == real_exchange_name(raw),
    {
        let name = match raw {
            0 => "REAL_EXCHANGE_UNSPECIFIED",
            1 => "REAL_EXCHANGE_MOEX",
            2 => "REAL_EXCHANGE_RTS",
            3 => "REAL_EXCHANGE_OTC",
            _ => "UNKNOWN",
        };
        TinkoffRealExchangeModel { raw, name: String::from_str(name) }
    }
}

/// The protocol name of a share-type code.
pub open spec fn share_type_name(raw: i32) -> Seq<char> {
    if raw == 0 {
        "SHARE_TYPE_UNSPECIFIED"@
    } else if raw == 1 {
        "SHARE_TYPE_COMMON"@
    } else if raw == 2 {
        "SHARE_TYPE_PREFERRED"@
    } else if raw == 3 {
        "SHARE_TYPE_ADR"@
    } else if raw == 4 {
        "SHARE_TYPE_GDR"@
    } else if raw == 5 {
        "SHARE_TYPE_MLP"@
    } else if raw == 6 {
        "SHARE_TYPE_NY_REG_SHRS"@
    } else if raw == 7 {
        "SHARE_TYPE_CLOSED_END_FUND"@
    } else if raw == 8 {
        "SHARE_TYPE_REIT"@
    } else {
        "UNKNOWN"@
    }
}

/// A share-type code with its protocol name.
#[derive(Clone, Debug, PartialEq)]
pub struct TinkoffShareTypeModel {
    pub raw: i32,
    pub name: String,
}

impl TinkoffShareTypeModel {
    /// Decodes a raw share-type code.
    pub fn from_raw(raw: i32) -> (r: Self)
        ensures
            r.raw == raw,
            r.name@ == share_type_name(raw),
    {
        let name = match raw {
            0 => "SHARE_TYPE_UNSPECIFIED",
            1 => "SHARE_TYPE_COMMON",
            2 => "SHARE_TYPE_PREFERRED",
            3 => "SHARE_TYPE_ADR",
            4 => "SHARE_TYPE_GDR",
            5 => "SHARE_TYPE_MLP",
            6 => "SHARE_TYPE_NY_REG_SHRS",
            7 => "SHARE_TYPE_CLOSED_END_FUND",
            8 => "SHARE_TYPE_REIT",
            _ => "UNKNOWN",
        };
        TinkoffShareTypeModel { raw, name: String::from_str(name) }
    }
}

/// The protocol name of a trading-status code.
pub open spec fn trading_status_name(raw: i32) -> Seq<char> {
    if raw == 0 {
        "UNSPECIFIED"@
    } else if raw == 1 {
        "NOT_AVAILABLE_FOR_TRADING"@
    } else if raw == 2 {
        "OPENING_PERIOD"@
    } else if raw == 3 {
        "CLOSING_PERIOD"@
    } else if raw == 4 {
        "BREAK_IN_TRADING"@
    } else if raw == 5 {
        "NORMAL_TRADING"@
    } else if raw == 6 {
        "CLOSING_AUCTION"@
    } else if raw == 7 {
        "DARK_POOL_AUCTION"@
    } else if raw == 8 {
        "DISCRETE_AUCTION"@
    } else if raw == 9 {
        "OPENING_AUCTION_PERIOD"@
    } else if raw == 10 {
        "TRADING_AT_CLOSING_AUCTION_PRICE"@
    } else if raw == 11 {
        "SESSION_ASSIGNED"@
    } else if raw == 12 {
        "SESSION_CLOSE"@
    } else if raw == 13 {
        "SESSION_OPEN"@
    } else if raw == 14 {
        "DEALER_NORMAL_TRADING"@
    } else if raw == 15 {
        "DEALER_BREAK_IN_TRADING"@
    } else if raw == 16 {
        "DEALER_NOT_AVAILABLE_FOR_TRADING"@
    } else {
        "UNKNOWN"@
    }
}

/// A trading-status code with its protocol name.
#[derive(Clone, Debug, PartialEq)]
pub struct TinkoffTradingStatusModel {
    pub raw: i32,
    pub value: String,
}

impl TinkoffTradingStatusModel {
    /// Decodes a raw trading-status code.
    pub fn from_raw(raw: i32) -> (r: Self)
        ensures
            r.raw == raw,
            r.value@ == trading_status_name(raw),
    {
        let value = match raw {
            0 => "UNSPECIFIED",
            1 => "NOT_AVAILABLE_FOR_TRADING",
            2 => "OPENING_PERIOD",
            3 => "CLOSING_PERIOD",
            4 => "BREAK_IN_TRADING",
            5 => "NORMAL_TRADING",
            6 => "CLOSING_AUCTION",
            7 => "DARK_POOL_AUCTION",
            8 => "DISCRETE_AUCTION",
            9 => "OPENING_AUCTION_PERIOD",
            10 => "TRADING_AT_CLOSING_AUCTION_PRICE",
            11 => "SESSION_ASSIGNED",
            12 => "SESSION_CLOSE",
            13 => "SESSION_OPEN",
            14 => "DEALER_NORMAL_TRADING",
            15 => "DEALER_BREAK_IN_TRADING",
            16 => "DEALER_NOT_AVAILABLE_FOR_TRADING",
            _ => "UNKNOWN",
        };
        TinkoffTradingStatusModel { raw, value: String::from_str(value) }
    }
}

/// A candle resolution, as the upstream API enumerates them.
#[derive(Clone, Copy, Debug, PartialEq, Eq, Structural)]
pub enum MyCandleInterval {
    Unspecified,
    OneMin,
    FiveMin,
    FifteenMin,
    Hour,
    Day,
    TwoMin,
    ThreeMin,
    TenMin,
    ThirtyMin,
    TwoHour,
    FourHour,
    Week,
    Month,
}

impl MyCandleInterval {
    /// Decodes the upstream wire value, `None` for an unknown code.
    pub fn from_i32(value: i32) -> (r: Option<Self>)
        ensures
            r == (match value {
                0 => Some(MyCandleInterval::Unspecified),
                1 => Some(MyCandleInterval::OneMin),
                2 => Some(MyCandleInterval::FiveMin),
                3 => Some(MyCandleInterval::FifteenMin),
                4 => Some(MyCandleInterval::Hour),
                5 => Some(MyCandleInterval::Day),
                6 => Some(MyCandleInterval::TwoMin),
                7 => Some(MyCandleInterval::ThreeMin),
                8 => Some(MyCandleInterval::TenMin),
                9 => Some(MyCandleInterval::ThirtyMin),
                10 => Some(MyCandleInterval::TwoHour),
                11 => Some(MyCandleInterval::FourHour),
                12 => Some(MyCandleInterval::Week),
                13 => Some(MyCandleInterval::Month),
                _ => None::<MyCandleInterval>,
            }),
    {
        match value {
            0 => Some(Self::Unspecified),
            1 => Some(Self::OneMin),
            2 => Some(Self::FiveMin),
            3 => Some(Self::FifteenMin),
            4 => Some(Self::Hour),
            5 => Some(Self::Day),
            6 => Some(Self::TwoMin),
            7 => Some(Self::ThreeMin),
            8 => Some(Self::TenMin),
            9 => Some(Self::ThirtyMin),
            10 => Some(Self::TwoHour),
            11 => Some(Self::FourHour),
            12 => Some(Self::Week),
            13 => Some(Self::Month),
            _ => None,
        }
    }

    /// The protocol name of the interval.
    pub fn as_str_name(&self) -> (r: &'static str)
        ensures
            self is Unspecified ==> r@ == "CANDLE_INTERVAL_UNSPECIFIED"@,
            self is OneMin ==> r@ == "CANDLE_INTERVAL_1_MIN"@,
            self is FiveMin ==> r@ == "CANDLE_INTERVAL_5_MIN"@,
            self is FifteenMin ==> r@ == "CANDLE_INTERVAL_15_MIN"@,
            self is Hour ==> r@ == "CANDLE_INTERVAL_HOUR"@,
            self is Day ==> r@ == "CANDLE_INTERVAL_DAY"@,
            self is TwoMin ==> r@ == "CANDLE_INTERVAL_2_MIN"@,
            self is ThreeMin ==> r@ == "CANDLE_INTERVAL_3_MIN"@,
            self is TenMin ==> r@ == "CANDLE_INTERVAL_10_MIN"@,
            self is ThirtyMin ==> r@ == "CANDLE_INTERVAL_30_MIN"@,
            self is TwoHour ==> r@ == "CANDLE_INTERVAL_2_HOUR"@,
            self is FourHour ==> r@ == "CANDLE_INTERVAL_4_HOUR"@,
            self is Week ==> r@ == "CANDLE_INTERVAL_WEEK"@,
            self is Month ==> r@ == "CANDLE_INTERVAL_MONTH"@,
    {
        match self {
            Self::Unspecified => "CANDLE_INTERVAL_UNSPECIFIED",
            Self::OneMin => "CANDLE_INTERVAL_1_MIN",
            Self::FiveMin => "CANDLE_INTERVAL_5_MIN",
            Self::FifteenMin => "CANDLE_INTERVAL_15_MIN",
            Self::Hour => "CANDLE_INTERVAL_HOUR",
            Self::Day => "CANDLE_INTERVAL_DAY",
            Self::TwoMin => "CANDLE_INTERVAL_2_MIN",
            Self::ThreeMin => "CANDLE_INTERVAL_3_MIN",
            Self::TenMin => "CANDLE_INTERVAL_10_MIN",
            Self::ThirtyMin => "CANDLE_INTERVAL_30_MIN",
            Self::TwoHour => "CANDLE_INTERVAL_2_HOUR",
            Self::FourHour => "CANDLE_INTERVAL_4_HOUR",
            Self::Week => "CANDLE_INTERVAL_WEEK",
            Self::Month => "CANDLE_INTERVAL_MONTH",
        }
    }
}

} // verus!
