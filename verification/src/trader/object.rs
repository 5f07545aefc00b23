//! The records that flow through the engine: market data, orders and trades.
//!
//! Prices, volumes and amounts are fixed-point numbers; `datetime` is local
//! wall-clock time in milliseconds since 1970-01-01T00:00:00.

use super::constant::{Direction, Interval, Offset_, OrderType, Status};
use crate::ident::{gateway_id, gateway_id_text};
use crate::text::join3;
use vstd::prelude::*;

verus! {

/// A snapshot of the last trade and of the five best levels on either side.
#[derive(Debug)]
pub struct TickData {
    pub gateway_name: &'static str,
    pub symbol: String,
    pub exchange: String,
    pub name: String,
    pub datetime: i64,
    pub volume: i64,
    pub turnover: i64,
    pub open_interest: i64,
    pub last_price: i64,
    pub last_volume: i64,
    pub limit_up: i64,
    pub limit_down: i64,
    pub open_price: i64,
    pub high_price: i64,
    pub low_price: i64,
    pub pre_close: i64,
    pub bid_price_1: i64,
    pub bid_price_2: i64,
    pub bid_price_3: i64,
    pub bid_price_4: i64,
    pub bid_price_5: i64,
    pub ask_price_1: i64,
    pub ask_price_2: i64,
    pub ask_price_3: i64,
    pub ask_price_4: i64,
    pub ask_price_5: i64,
    pub bid_volume_1: i64,
    pub bid_volume_2: i64,
    pub bid_volume_3: i64,
    pub bid_volume_4: i64,
    pub bid_volume_5: i64,
    pub ask_volume_1: i64,
    pub ask_volume_2: i64,
    pub ask_volume_3: i64,
    pub ask_volume_4: i64,
    pub ask_volume_5: i64,
    pub localtime: i64,
}

/// Open, high, low and close over one interval.
#[derive(Debug)]
pub struct BarData {
    pub gateway_name: &'static str,
    pub symbol: String,
    pub exchange: String,
    pub interval: Interval,
    pub datetime: i64,
    pub volume: i64,
    pub turnover: i64,
    pub open_interest: i64,
    pub open_price: i64,
    pub high_price: i64,
    pub low_price: i64,
    pub close_price: i64,
}

/// One record of history: a tick or a bar.
#[derive(Debug)]
pub enum MixData {
    TickData(TickData),
    BarData(BarData),
}

/// A limit order. `orderid` is its number; the text of its identifier is
/// made from the number on request.
#[derive(Debug)]
pub struct OrderData {
    pub gateway_name: &'static str,
    pub symbol: String,
    pub exchange: String,
    pub reference: &'static str,
    pub orderid: u64,
    pub order_type: OrderType,
    pub direction: Direction,
    pub offset: Offset_,
    pub status: Status,
    pub price: i64,
    pub volume: i64,
    pub traded: i64,
    pub datetime: i64,
}

/// A fill. `tradeid` is its number and `orderid` that of the order filled.
#[derive(Debug)]
pub struct TradeData {
    pub gateway_name: &'static str,
    pub symbol: String,
    pub exchange: String,
    pub orderid: u64,
    pub tradeid: u64,
    pub direction: Direction,
    pub offset: Offset_,
    pub price: i64,
    pub volume: i64,
    pub datetime: i64,
}

impl Clone for TickData {
    fn clone(&self) -> (r: Self)
        ensures
            r == *self,
    {
        TickData {
            gateway_name: self.gateway_name,
            symbol: self.symbol.clone(),
            exchange: self.exchange.clone(),
            name: self.name.clone(),
            datetime: self.datetime,
            volume: self.volume,
            turnover: self.turnover,
            open_interest: self.open_interest,
            last_price: self.last_price,
            last_volume: self.last_volume,
            limit_up: self.limit_up,
            limit_down: self.limit_down,
            open_price: self.open_price,
            high_price: self.high_price,
            low_price: self.low_price,
            pre_close: self.pre_close,
            bid_price_1: self.bid_price_1,
            bid_price_2: self.bid_price_2,
            bid_price_3: self.bid_price_3,
            bid_price_4: self.bid_price_4,
            bid_price_5: self.bid_price_5,
            ask_price_1: self.ask_price_1,
            ask_price_2: self.ask_price_2,
            ask_price_3: self.ask_price_3,
            ask_price_4: self.ask_price_4,
            ask_price_5: self.ask_price_5,
            bid_volume_1: self.bid_volume_1,
            bid_volume_2: self.bid_volume_2,
            bid_volume_3: self.bid_volume_3,
            bid_volume_4: self.bid_volume_4,
            bid_volume_5: self.bid_volume_5,
            ask_volume_1: self.ask_volume_1,
            ask_volume_2: self.ask_volume_2,
            ask_volume_3: self.ask_volume_3,
            ask_volume_4: self.ask_volume_4,
            ask_volume_5: self.ask_volume_5,
            localtime: self.localtime,
        }
    }
}

impl Clone for BarData {
    fn clone(&self) -> (r: Self)
        ensures
            r == *self,
    {
        BarData {
            gateway_name: self.gateway_name,
            symbol: self.symbol.clone(),
            exchange: self.exchange.clone(),
            interval: self.interval,
            datetime: self.datetime,
            volume: self.volume,
            turnover: self.turnover,
            open_interest: self.open_interest,
            open_price: self.open_price,
            high_price: self.high_price,
            low_price: self.low_price,
            close_price: self.close_price,
        }
    }
}

impl Clone for OrderData {
    fn clone(&self) -> (r: Self)
        ensures
            r == *self,
    {
        OrderData {
            gateway_name: self.gateway_name,
            symbol: self.symbol.clone(),
            exchange: self.exchange.clone(),
            reference: self.reference,
            orderid: self.orderid,
            order_type: self.order_type,
            direction: self.direction,
            offset: self.offset,
            status: self.status,
            price: self.price,
            volume: self.volume,
            traded: self.traded,
            datetime: self.datetime,
        }
    }
}

impl Clone for TradeData {
    fn clone(&self) -> (r: Self)
        ensures
            r == *self,
    {
        TradeData {
            gateway_name: self.gateway_name,
            symbol: self.symbol.clone(),
            exchange: self.exchange.clone(),
            orderid: self.orderid,
            tradeid: self.tradeid,
            direction: self.direction,
            offset: self.offset,
            price: self.price,
            volume: self.volume,
            datetime: self.datetime,
        }
    }
}

impl Default for BarData {
    /// A bar of one minute without an instrument, at the beginning of
    /// time, with every number at zero.
    fn default() -> (r: Self)
        ensures
            r.gateway_name@.len() == 0,
            r.symbol@.len() == 0,
            r.exchange@.len() == 0,
            r.interval == Interval::MINUTE,
            r.datetime == 0,
            r.volume == 0 && r.turnover == 0 && r.open_interest == 0,
            r.open_price == 0 && r.high_price == 0 && r.low_price == 0 && r.close_price == 0,
    {
        proof {
            reveal_strlit("");
        }
        BarData {
            gateway_name: "",
            symbol: String::new(),
            exchange: String::new(),
            interval: Interval::MINUTE,
            datetime: 0,
            volume: 0,
            turnover: 0,
            open_interest: 0,
            open_price: 0,
            high_price: 0,
            low_price: 0,
            close_price: 0,
        }
    }
}

impl Clone for MixData {
    fn clone(&self) -> (r: Self)
        ensures
            r == *self,
    {
        match self {
            MixData::TickData(t) => MixData::TickData(t.clone()),
            MixData::BarData(b) => MixData::BarData(b.clone()),
        }
    }
}

/// The text `symbol.exchange`.
pub open spec fn vt_symbol_text(symbol: Seq<char>, exchange: Seq<char>) -> Seq<char> {
    symbol + "."@ + exchange
}

impl TickData {
    /// The instrument as `symbol.exchange`.
    pub fn vt_symbol(&self) -> (r: String)
        ensures
            r@ == vt_symbol_text(self.symbol@, self.exchange@),
    {
        join3(self.symbol.as_str(), ".", self.exchange.as_str())
    }
}

impl BarData {
    /// The instrument as `symbol.exchange`.
    pub fn vt_symbol(&self) -> (r: String)
        ensures
            r@ == vt_symbol_text(self.symbol@, self.exchange@),
    {
        join3(self.symbol.as_str(), ".", self.exchange.as_str())
    }

    /// The low is the lowest and the high the highest of the four prices,
    /// and none of them is negative.
    pub open spec fn well_formed(self) -> bool {
        &&& 0 <= self.low_price
        &&& self.low_price <= self.open_price <= self.high_price
        &&& self.low_price <= self.close_price <= self.high_price
    }

    /// Whether the low is the lowest and the high the highest of the four
    /// prices, and none of them is negative.
    pub fn is_well_formed(&self) -> (r: bool)
        ensures
            r == self.well_formed(),
    {
        0 <= self.low_price && self.low_price <= self.open_price && self.open_price
            <= self.high_price && self.low_price <= self.close_price && self.close_price
            <= self.high_price
    }
}

impl MixData {
    /// The time of the record.
    pub open spec fn time(self) -> i64 {
        match self {
            MixData::TickData(t) => t.datetime,
            MixData::BarData(b) => b.datetime,
        }
    }

    /// The price at which the record leaves the market: a bar's close, a
    /// tick's last price.
    pub open spec fn closing_price(self) -> i64 {
        match self {
            MixData::TickData(t) => t.last_price,
            MixData::BarData(b) => b.close_price,
        }
    }

    /// The time of the record.
    pub fn datetime(&self) -> (r: i64)
        ensures
            r == self.time(),
    {
        match self {
            MixData::TickData(t) => t.datetime,
            MixData::BarData(b) => b.datetime,
        }
    }
}

impl OrderData {
    /// The instrument as `symbol.exchange`.
    pub fn vt_symbol(&self) -> (r: String)
        ensures
            r@ == vt_symbol_text(self.symbol@, self.exchange@),
    {
        join3(self.symbol.as_str(), ".", self.exchange.as_str())
    }

    /// The identifier of the order: `BACKTESTING.` and its padded number.
    pub fn vt_orderid(&self) -> (r: String)
        ensures
            r@ == gateway_id_text(self.orderid as nat),
    {
        gateway_id(self.orderid)
    }

    /// An order is active while it is being submitted or rests in the book
    /// untraded or partly traded.
    pub open spec fn active(self) -> bool {
        self.status.active()
    }

    /// Whether the order still rests in the book.
    pub fn is_active(&self) -> (r: bool)
        ensures
            r == self.active(),
    {
        self.status.is_active()
    }
}

impl TradeData {
    /// The instrument as `symbol.exchange`.
    pub fn vt_symbol(&self) -> (r: String)
        ensures
            r@ == vt_symbol_text(self.symbol@, self.exchange@),
    {
        join3(self.symbol.as_str(), ".", self.exchange.as_str())
    }

    /// The identifier of the order filled: `BACKTESTING.` and its padded
    /// number.
    pub fn vt_orderid(&self) -> (r: String)
        ensures
            r@ == gateway_id_text(self.orderid as nat),
    {
        gateway_id(self.orderid)
    }

    /// The identifier of the trade: `BACKTESTING.` and its padded number.
    pub fn vt_tradeid(&self) -> (r: String)
        ensures
            r@ == gateway_id_text(self.tradeid as nat),
    {
        gateway_id(self.tradeid)
    }

    /// The change of position that the trade makes: its volume, negated for
    /// a short.
    pub open spec fn signed_volume(self) -> int {
        if self.direction == Direction::LONG {
            self.volume as int
        } else {
            -(self.volume as int)
        }
    }
}

} // verus!
