//! Types of the backtesting engine that are not market records.

use crate::clock::{MILLIS_PER_DAY, MILLIS_PER_HOUR, MILLIS_PER_MINUTE};
use crate::error::ErrorKind;
use crate::ident::{stop_id, stop_id_text};
use crate::text::same_text;
use crate::trader::constant::{Direction, Interval, Offset_};
use crate::trader::object::{OrderData, TradeData};
use vstd::prelude::*;
use vstd::string::StringExecFns;

verus! {

/// What the identifier of every stop order begins with.
pub const STOPORDER_PREFIX: &'static str = "STOP";

/// Status of a stop order.
#[derive(Debug, Clone, Copy, PartialEq, Eq, Structural)]
pub enum StopOrderStatus {
    WAITING,
    CANCELLED,
    TRIGGERED,
}

/// Whether an engine trades live or replays history.
#[derive(Debug, Clone, Copy, PartialEq, Eq, Structural)]
pub enum EngineType {
    LIVE,
    BACKTESTING,
}

/// Whether the history replayed is made of bars or of ticks.
#[derive(Debug, Clone, Copy, PartialEq, Eq, Structural)]
pub enum BacktestingMode {
    BAR,
    TICK,
}

/// The mode that a text names, if it names one.
pub open spec fn mode_named(s: Seq<char>) -> Option<BacktestingMode> {
    if s == "BAR"@ {
        Some(BacktestingMode::BAR)
    } else if s == "TICK"@ {
        Some(BacktestingMode::TICK)
    } else {
        None
    }
}

impl BacktestingMode {
    /// The name of the mode.
    pub open spec fn text(self) -> Seq<char> {
        match self {
            BacktestingMode::BAR => "BAR"@,
            BacktestingMode::TICK => "TICK"@,
        }
    }

    /// The name of the mode.
    pub fn to_string(&self) -> (r: String)
        ensures
            r@ == self.text(),
    {
        match self {
            BacktestingMode::BAR => String::from_str("BAR"),
            BacktestingMode::TICK => String::from_str("TICK"),
        }
    }

    /// Reads a mode from its name. Any other text is a configuration error.
    pub fn from_str(s: &str) -> (r: Result<BacktestingMode, ErrorKind>)
        ensures
            r == match mode_named(s@) {
                Some(m) => Ok::<BacktestingMode, ErrorKind>(m),
                None => Err::<BacktestingMode, ErrorKind>(ErrorKind::Config),
            },
    {
        if same_text(s, "BAR") {
            Ok(BacktestingMode::BAR)
        } else if same_text(s, "TICK") {
            Ok(BacktestingMode::TICK)
        } else {
            Err(ErrorKind::Config)
        }
    }
}

/// The step from one record to the next at a given interval, in
/// milliseconds. A weekly interval has none.
pub open spec fn interval_delta_spec(interval: Interval) -> Option<i64> {
    match interval {
        Interval::TICK => Some(1i64),
        Interval::MINUTE => Some(MILLIS_PER_MINUTE),
        Interval::HOUR => Some(MILLIS_PER_HOUR),
        Interval::DAILY => Some(MILLIS_PER_DAY),
        Interval::WEEKLY => None,
    }
}

/// The step from one record to the next at a given interval, in
/// milliseconds. A weekly interval has none.
pub fn interval_delta(interval: Interval) -> (r: Option<i64>)
    ensures
        r == interval_delta_spec(interval),
{
    match interval {
        Interval::TICK => Some(1),
        Interval::MINUTE => Some(MILLIS_PER_MINUTE),
        Interval::HOUR => Some(MILLIS_PER_HOUR),
        Interval::DAILY => Some(MILLIS_PER_DAY),
        Interval::WEEKLY => None,
    }
}

/// A local stop order. `stop_orderid` is its number and `vt_orderids` the
/// numbers of the limit orders that it has spawned.
#[derive(Debug)]
pub struct StopOrder {
    pub vt_symbol: String,
    pub direction: Direction,
    pub offset: Offset_,
    pub price: i64,
    pub volume: i64,
    pub stop_orderid: u64,
    pub strategy_name: String,
    pub datetime: i64,
    pub lock: bool,
    pub net: bool,
    pub vt_orderids: Vec<u64>,
    pub status: StopOrderStatus,
}

/// A stop order as a mathematical value.
pub struct StopOrderView {
    pub vt_symbol: Seq<char>,
    pub direction: Direction,
    pub offset: Offset_,
    pub price: i64,
    pub volume: i64,
    pub stop_orderid: u64,
    pub strategy_name: Seq<char>,
    pub datetime: i64,
    pub lock: bool,
    pub net: bool,
    pub vt_orderids: Seq<u64>,
    pub status: StopOrderStatus,
}

impl View for StopOrder {
    type V = StopOrderView;

    open spec fn view(&self) -> StopOrderView {
        StopOrderView {
            vt_symbol: self.vt_symbol@,
            direction: self.direction,
            offset: self.offset,
            price: self.price,
            volume: self.volume,
            stop_orderid: self.stop_orderid,
            strategy_name: self.strategy_name@,
            datetime: self.datetime,
            lock: self.lock,
            net: self.net,
            vt_orderids: self.vt_orderids@,
            status: self.status,
        }
    }
}

impl Clone for StopOrder {
    fn clone(&self) -> (r: Self)
        ensures
            r@ == self@,
    {
        let mut ids: Vec<u64> = Vec::new();
        let mut i: usize = 0;
        while i < self.vt_orderids.len()
            invariant
                i <= self.vt_orderids@.len(),
                ids@ == self.vt_orderids@.subrange(0, i as int),
            decreases self.vt_orderids@.len() - i,
        {
            ids.push(self.vt_orderids[i]);
            assert(ids@ =~= self.vt_orderids@.subrange(0, i + 1));
            i = i + 1;
        }
        assert(ids@ =~= self.vt_orderids@);
        StopOrder {
            vt_symbol: self.vt_symbol.clone(),
            direction: self.direction,
            offset: self.offset,
            price: self.price,
            volume: self.volume,
            stop_orderid: self.stop_orderid,
            strategy_name: self.strategy_name.clone(),
            datetime: self.datetime,
            lock: self.lock,
            net: self.net,
            vt_orderids: ids,
            status: self.status,
        }
    }
}

impl StopOrder {
    /// The identifier of the stop order: `STOP.` and its padded number.
    pub fn stop_orderid_text(&self) -> (r: String)
        ensures
            r@ == stop_id_text(self.stop_orderid as nat),
    {
        stop_id(self.stop_orderid)
    }
}

/// What the engine tells the strategy, in the order in which it happened.
#[derive(Debug)]
pub enum StrategyEvent {
    /// A limit order changed its status: `on_order`.
    Order(OrderData),
    /// An order was filled: `on_trade`. The number is the strategy's
    /// position after the fill, which the engine sets before the call.
    Trade(TradeData, i128),
    /// A stop order changed its status: `on_stop_order`.
    StopOrder(StopOrder),
}

/// An event as a mathematical value.
pub enum StrategyEventView {
    Order(OrderData),
    Trade(TradeData, i128),
    StopOrder(StopOrderView),
}

impl View for StrategyEvent {
    type V = StrategyEventView;

    open spec fn view(&self) -> StrategyEventView {
        match self {
            StrategyEvent::Order(o) => StrategyEventView::Order(*o),
            StrategyEvent::Trade(t, p) => StrategyEventView::Trade(*t, *p),
            StrategyEvent::StopOrder(s) => StrategyEventView::StopOrder(s@),
        }
    }
}

/// The events of a list as mathematical values.
pub open spec fn events_view(events: Seq<StrategyEvent>) -> Seq<StrategyEventView> {
    Seq::new(events.len(), |i: int| events[i]@)
}

/// The stop orders of a list as mathematical values.
pub open spec fn stops_view(stops: Seq<StopOrder>) -> Seq<StopOrderView> {
    Seq::new(stops.len(), |i: int| stops[i]@)
}

} // verus!
