//! The engine's state and its matching of orders against market records.

use super::base::{
    events_view, stops_view, BacktestingMode, StopOrder, StopOrderStatus, StopOrderView,
    StrategyEvent, StrategyEventView,
};
use super::daily::DailyResult;
use super::matching::{
    after_limit_cross, after_stop_cross, lemma_signed_volume_sum_bound,
    lemma_signed_volume_sum_push, limit_events, limit_fill_price, limit_fills, limit_long_cross,
    limit_order_events, limit_quote_spec, limit_short_cross, order_filled, order_not_traded,
    signed_volume_sum, spawned_order, stop_events, stop_fill_price, stop_fills, stop_long_cross,
    stop_quote_spec, stop_short_cross, stop_spawns, stop_triggered, trade_of, trigger_count,
    Quote, GATEWAY_NAME,
};
use crate::clock::local_date_spec;
use crate::counting::{count_if, lemma_count_positive, lemma_count_push, lemma_count_update};
use crate::ident::MAX_ID;
use crate::trader::constant::{Direction, Interval, OrderType, Status};
use crate::trader::object::{BarData, MixData, OrderData, TickData, TradeData};
use vstd::prelude::*;

verus! {

/// How far a run has come.
#[derive(Debug, Clone, Copy, PartialEq, Eq, Structural)]
pub enum ReplayPhase {
    /// No run has begun.
    Idle,
    /// The strategy is being initialised.
    Initialising,
    /// The strategy is being started.
    Starting,
    /// History is being replayed, and the next record is to be taken.
    Replaying,
    /// History is being replayed: the limit orders are crossed with the
    /// current record, and the stop orders have yet to be.
    Crossing,
    /// The run is over.
    Finished,
}

/// The backtesting engine.
///
/// The books are kept whole: `limit_orders`, `stop_orders` and `trades` hold
/// every order and trade of the run in the order in which they were made,
/// so that the item numbered `n` stands at place `n - 1`. An order is in
/// the active book while its status says so.
pub struct BacktestingEngine {
    /// The instrument as `symbol.exchange`, and its two parts.
    pub vt_symbol: String,
    pub symbol: String,
    pub exchange: String,
    /// The first and the last time of the history to replay.
    pub start: i64,
    pub end: i64,
    /// The commission as a share of the turnover.
    pub rate: i64,
    /// The slippage per unit traded.
    pub slippage: i64,
    /// The contract multiplier.
    pub size: i64,
    /// The step that prices of orders are rounded to.
    pub pricetick: i64,
    pub capital: i64,
    pub risk_free: i64,
    pub annual_days: i64,
    pub half_life: i64,
    pub mode: BacktestingMode,
    pub interval: Option<Interval>,
    /// The strategy's name and the three attributes of the strategy that
    /// the engine sets.
    pub strategy_name: String,
    pub inited: bool,
    pub trading: bool,
    pub pos: i128,
    /// The current record, by its kind, and the clock.
    pub tick: Option<TickData>,
    pub bar: Option<BarData>,
    pub datetime: Option<i64>,
    /// The closing price of the current record, until the day's close has
    /// been booked.
    pub pending_close: Option<i64>,
    pub history_data: Vec<MixData>,
    pub stop_orders: Vec<StopOrder>,
    /// How many of the stop orders are waiting.
    pub waiting_stops: u64,
    pub limit_orders: Vec<OrderData>,
    pub trades: Vec<TradeData>,
    pub logs: Vec<String>,
    pub daily_results: Vec<DailyResult>,
    pub phase: ReplayPhase,
    /// How many records of the history have been replayed.
    pub cursor: usize,
}

/// The predicate of an active limit order.
pub open spec fn order_active() -> spec_fn(OrderData) -> bool {
    |o: OrderData| o.active()
}

/// The predicate of a waiting stop order.
pub open spec fn stop_waiting() -> spec_fn(StopOrderView) -> bool {
    |s: StopOrderView| s.status == StopOrderStatus::WAITING
}

/// Every order stands at the place of its number.
pub open spec fn orders_numbered(orders: Seq<OrderData>) -> bool {
    forall|i: int| 0 <= i < orders.len() ==> (#[trigger] orders[i]).orderid == i + 1
}

/// Every stop order stands at the place of its number.
pub open spec fn stops_numbered(stops: Seq<StopOrderView>) -> bool {
    forall|i: int| 0 <= i < stops.len() ==> (#[trigger] stops[i]).stop_orderid == i + 1
}

/// Every trade stands at the place of its number.
pub open spec fn trades_numbered(trades: Seq<TradeData>) -> bool {
    forall|i: int| 0 <= i < trades.len() ==> (#[trigger] trades[i]).tradeid == i + 1
}

/// Whether a day is on record for a date.
pub open spec fn has_day(days: Seq<DailyResult>, date: i64) -> bool {
    exists|i: int| 0 <= i < days.len() && (#[trigger] days[i]).date == date
}

/// Every trade falls on a date that a day is on record for, or on the date
/// `today`.
pub open spec fn trades_accounted(
    trades: Seq<TradeData>,
    days: Seq<DailyResult>,
    today: Option<i64>,
) -> bool {
    forall|k: int|
        0 <= k < trades.len() ==> has_day(days, local_date_spec((#[trigger] trades[k]).datetime))
            || today == Some(local_date_spec(trades[k].datetime))
}

/// The days are in ascending order of their dates, none twice.
pub open spec fn days_ascending(days: Seq<DailyResult>) -> bool {
    forall|i: int, j: int| 0 <= i < j < days.len() ==> days[i].date < days[j].date
}

impl BacktestingEngine {
    /// The engine's invariant.
    ///
    /// Orders, stop orders and trades are numbered by their places. No
    /// number outgrows the ten columns of an identifier: the limit orders
    /// and the stops still waiting, each of which may yet spawn one, are
    /// together at most `MAX_ID`. Every trade fills a limit order of its
    /// own, so there are no more trades than orders that are not active.
    /// The position is the sum of the trades. Every trade falls on a date
    /// that has a day on record, but for the trades of the current record
    /// while its close has yet to be booked.
    pub open spec fn wf(&self) -> bool {
        &&& orders_numbered(self.limit_orders@)
        &&& stops_numbered(stops_view(self.stop_orders@))
        &&& trades_numbered(self.trades@)
        &&& self.waiting_stops == count_if(stops_view(self.stop_orders@), stop_waiting())
        &&& self.limit_orders@.len() + self.waiting_stops <= MAX_ID
        &&& self.stop_orders@.len() <= MAX_ID
        &&& self.trades@.len() + count_if(self.limit_orders@, order_active())
            <= self.limit_orders@.len()
        &&& self.pos == signed_volume_sum(self.trades@)
        &&& days_ascending(self.daily_results@)
        &&& self.cursor <= self.history_data@.len()
        &&& self.pending_close is Some ==> self.datetime is Some
        &&& self.datetime is Some && self.pending_close is None ==> has_day(
            self.daily_results@,
            local_date_spec(self.datetime->0),
        )
        &&& trades_accounted(self.trades@, self.daily_results@, self.open_date())
    }

    /// The date of the record whose close has yet to be booked, if there
    /// is one.
    pub open spec fn open_date(&self) -> Option<i64> {
        if self.pending_close is Some && self.datetime is Some {
            Some(local_date_spec(self.datetime->0))
        } else {
            None
        }
    }

    /// The record that the mode asks for is there, and so is the clock.
    pub open spec fn has_record(&self) -> bool {
        &&& self.datetime is Some
        &&& self.mode == BacktestingMode::BAR ==> self.bar is Some
        &&& self.mode == BacktestingMode::TICK ==> self.tick is Some
    }

    /// The quote that the current record gives for limit orders.
    pub open spec fn limit_quote_now(&self) -> Quote {
        limit_quote_spec(self.mode, self.bar, self.tick)
    }

    /// The quote that the current record gives for stop orders.
    pub open spec fn stop_quote_now(&self) -> Quote {
        stop_quote_spec(self.mode, self.bar, self.tick)
    }

    /// The quote that limit orders are held against.
    fn limit_quote(&self) -> (q: Quote)
        requires
            self.has_record(),
        ensures
            q == self.limit_quote_now(),
    {
        match self.mode {
            BacktestingMode::BAR => {
                let bar = self.bar.as_ref().unwrap();
                Quote {
                    long_cross: bar.low_price,
                    short_cross: bar.high_price,
                    long_best: bar.open_price,
                    short_best: bar.open_price,
                }
            },
            BacktestingMode::TICK => {
                let tick = self.tick.as_ref().unwrap();
                Quote {
                    long_cross: tick.ask_price_1,
                    short_cross: tick.bid_price_1,
                    long_best: tick.ask_price_1,
                    short_best: tick.bid_price_1,
                }
            },
        }
    }

    /// The quote that stop orders are held against.
    fn stop_quote(&self) -> (q: Quote)
        requires
            self.has_record(),
        ensures
            q == self.stop_quote_now(),
    {
        match self.mode {
            BacktestingMode::BAR => {
                let bar = self.bar.as_ref().unwrap();
                Quote {
                    long_cross: bar.high_price,
                    short_cross: bar.low_price,
                    long_best: bar.open_price,
                    short_best: bar.open_price,
                }
            },
            BacktestingMode::TICK => {
                let tick = self.tick.as_ref().unwrap();
                Quote {
                    long_cross: tick.last_price,
                    short_cross: tick.last_price,
                    long_best: tick.last_price,
                    short_best: tick.last_price,
                }
            },
        }
    }

    /// Crosses the active limit orders with the current record, in the
    /// order of their numbers.
    ///
    /// An order that was being submitted becomes not traded. An order that
    /// crosses is filled in full at its own price or at the best price,
    /// whichever is more favourable, and leaves the active book; the
    /// position moves by its volume. Returns what the strategy is to hear.
    pub fn cross_limit_order(&mut self) -> (events: Vec<StrategyEvent>)
        requires
            old(self).wf(),
            old(self).has_record(),
        ensures
            final(self).wf(),
            final(self).limit_orders@ == Seq::new(
                old(self).limit_orders@.len(),
                |i: int| after_limit_cross(old(self).limit_orders@[i], old(self).limit_quote_now()),
            ),
            final(self).trades@ == old(self).trades@ + limit_fills(
                old(self).limit_orders@,
                old(self).limit_quote_now(),
                (old(self).trades@.len() + 1) as int,
                old(self).datetime->0,
            ),
            events_view(events@) == limit_events(
                old(self).limit_orders@,
                old(self).limit_quote_now(),
                (old(self).trades@.len() + 1) as int,
                old(self).datetime->0,
                old(self).pos as int,
            ),
            *final(self) == (BacktestingEngine {
                limit_orders: final(self).limit_orders,
                trades: final(self).trades,
                pos: final(self).pos,
                ..*old(self)
            }),
    {
        let q = self.limit_quote();
        let now: i64 = self.datetime.unwrap();
        let n: usize = self.limit_orders.len();
        let ghost orders0 = self.limit_orders@;
        let ghost trades0 = self.trades@;
        let ghost pos0 = self.pos as int;
        let ghost first = trades0.len() + 1;
        let mut events: Vec<StrategyEvent> = Vec::new();
        let mut i: usize = 0;
        proof {
            assert(orders0.take(0) =~= Seq::<OrderData>::empty());
            assert(events_view(events@) =~= Seq::empty());
            assert(trades0 + Seq::<TradeData>::empty() =~= trades0);
        }
        while i < n
            invariant
                i <= n,
                n == orders0.len(),
                n <= MAX_ID,
                self.limit_orders@.len() == n,
                first == trades0.len() + 1,
                pos0 == signed_volume_sum(trades0),
                forall|j: int| 0 <= j < i ==> self.limit_orders@[j] == after_limit_cross(orders0[j], q),
                forall|j: int| i <= j < n ==> self.limit_orders@[j] == orders0[j],
                self.trades@ == trades0 + limit_fills(orders0.take(i as int), q, first as int, now),
                events_view(events@) == limit_events(orders0.take(i as int), q, first as int, now, pos0),
                self.pos == pos0 + signed_volume_sum(
                    limit_fills(orders0.take(i as int), q, first as int, now),
                ),
                self.pos == signed_volume_sum(self.trades@),
                trades_numbered(self.trades@),
                self.trades@.len() + count_if(self.limit_orders@, order_active()) <= n,
                old(self).wf(),
                old(self).datetime == Some(now),
                trades_accounted(self.trades@, self.daily_results@, self.open_date()),
                *self == (BacktestingEngine {
                    limit_orders: self.limit_orders,
                    trades: self.trades,
                    pos: self.pos,
                    ..*old(self)
                }),
            decreases n - i,
        {
            let ghost book = self.limit_orders@;
            let ghost o0 = orders0[i as int];
            let ghost fills = limit_fills(orders0.take(i as int), q, first as int, now);
            let ghost heard = events_view(events@);
            proof {
                assert(orders0.take(i + 1).drop_last() =~= orders0.take(i as int));
                assert(orders0.take(i + 1).last() == o0);
                assert(book[i as int] == o0);
            }
            if self.limit_orders[i].status.is_active() {
                if self.limit_orders[i].status == Status::SUBMITTING {
                    self.limit_orders[i].status = Status::NOTTRADED;
                    let seen = self.limit_orders[i].clone();
                    assert(seen == order_not_traded(o0));
                    events.push(StrategyEvent::Order(seen));
                    proof {
                        assert(events_view(events@) =~= heard.push(
                            StrategyEventView::Order(order_not_traded(o0)),
                        ));
                    }
                }
                let long_cross: bool = self.limit_orders[i].direction == Direction::LONG
                    && self.limit_orders[i].price >= q.long_cross && q.long_cross > 0;
                let short_cross: bool = self.limit_orders[i].direction == Direction::SHORT
                    && self.limit_orders[i].price <= q.short_cross && q.short_cross > 0;
                assert(long_cross == limit_long_cross(o0, q));
                assert(short_cross == limit_short_cross(o0, q));
                if long_cross || short_cross {
                    let volume: i64 = self.limit_orders[i].volume;
                    self.limit_orders[i].traded = volume;
                    self.limit_orders[i].status = Status::ALLTRADED;
                    let done = self.limit_orders[i].clone();
                    assert(done == order_filled(o0));
                    let price: i64 = if long_cross {
                        if done.price <= q.long_best {
                            done.price
                        } else {
                            q.long_best
                        }
                    } else {
                        if done.price >= q.short_best {
                            done.price
                        } else {
                            q.short_best
                        }
                    };
                    assert(price == limit_fill_price(o0, q));
                    proof {
                        lemma_count_positive(book, i as int, order_active());
                        assert(self.limit_orders@ =~= book.update(i as int, order_filled(o0)));
                        lemma_count_update(book, i as int, order_filled(o0), order_active());
                        lemma_signed_volume_sum_bound(self.trades@);
                        assert(self.trades@.len() * 0x8000_0000_0000_0000 <= 9_999_999_999
                            * 0x8000_0000_0000_0000) by (nonlinear_arith)
                            requires
                                self.trades@.len() <= 9_999_999_999,
                        ;
                    }
                    let tradeid: u64 = self.trades.len() as u64 + 1;
                    let trade = TradeData {
                        gateway_name: GATEWAY_NAME,
                        symbol: done.symbol.clone(),
                        exchange: done.exchange.clone(),
                        orderid: done.orderid,
                        tradeid,
                        direction: done.direction,
                        offset: done.offset,
                        price,
                        volume: done.volume,
                        datetime: now,
                    };
                    assert(trade == trade_of(o0, (first + fills.len()) as u64, price, now));
                    let change: i128 = if long_cross {
                        volume as i128
                    } else {
                        -(volume as i128)
                    };
                    assert(change == trade.signed_volume());
                    self.pos = self.pos + change;
                    let heard_now = trade.clone();
                    let ghost heard2 = events_view(events@);
                    events.push(StrategyEvent::Order(done));
                    events.push(StrategyEvent::Trade(heard_now, self.pos));
                    proof {
                        lemma_signed_volume_sum_push(self.trades@, trade);
                        lemma_signed_volume_sum_push(fills, trade);
                        assert(events_view(events@) =~= heard2.push(
                            StrategyEventView::Order(order_filled(o0)),
                        ).push(
                            StrategyEventView::Trade(trade, self.pos),
                        ));
                        assert(trades0 + fills.push(trade) =~= (trades0 + fills).push(trade));
                    }
                    self.trades.push(trade);
                } else {
                    proof {
                        if o0.status == Status::SUBMITTING {
                            assert(self.limit_orders@ =~= book.update(
                                i as int,
                                order_not_traded(o0),
                            ));
                            lemma_count_update(
                                book,
                                i as int,
                                order_not_traded(o0),
                                order_active(),
                            );
                        } else {
                            assert(self.limit_orders@ =~= book);
                        }
                    }
                }
            }
            proof {
                assert(self.limit_orders@[i as int] == after_limit_cross(o0, q));
                assert(limit_events(orders0.take(i + 1), q, first as int, now, pos0) =~= heard
                    + limit_order_events(
                    o0,
                    q,
                    (first + fills.len()) as u64,
                    now,
                    pos0 + signed_volume_sum(fills),
                ));
            }
            i = i + 1;
        }
        proof {
            assert(orders0.take(n as int) =~= orders0);
            assert(self.limit_orders@ =~= Seq::new(
                orders0.len(),
                |i: int| after_limit_cross(orders0[i], q),
            ));
        }
        events
    }

    /// Crosses the waiting stop orders with the current record, in the
    /// order of their numbers.
    ///
    /// A stop that is triggered spawns a limit order that is born filled
    /// and never enters the active book, and a trade at the stop's price or
    /// at the best price, whichever is less favourable; the position moves
    /// by its volume. Returns what the strategy is to hear: for each stop
    /// triggered the stop, the order and the trade.
    pub fn cross_stop_order(&mut self) -> (events: Vec<StrategyEvent>)
        requires
            old(self).wf(),
            old(self).has_record(),
        ensures
            final(self).wf(),
            stops_view(final(self).stop_orders@) == Seq::new(
                old(self).stop_orders@.len(),
                |i: int|
                    after_stop_cross(
                        stops_view(old(self).stop_orders@),
                        i,
                        old(self).stop_quote_now(),
                        (old(self).limit_orders@.len() + 1) as int,
                    ),
            ),
            final(self).limit_orders@ == old(self).limit_orders@ + stop_spawns(
                stops_view(old(self).stop_orders@),
                old(self).stop_quote_now(),
                (old(self).limit_orders@.len() + 1) as int,
                old(self).datetime->0,
                old(self).symbol,
                old(self).exchange,
            ),
            final(self).trades@ == old(self).trades@ + stop_fills(
                stops_view(old(self).stop_orders@),
                old(self).stop_quote_now(),
                (old(self).limit_orders@.len() + 1) as int,
                (old(self).trades@.len() + 1) as int,
                old(self).datetime->0,
                old(self).symbol,
                old(self).exchange,
            ),
            events_view(events@) == stop_events(
                stops_view(old(self).stop_orders@),
                old(self).stop_quote_now(),
                (old(self).limit_orders@.len() + 1) as int,
                (old(self).trades@.len() + 1) as int,
                old(self).datetime->0,
                old(self).symbol,
                old(self).exchange,
                old(self).pos as int,
            ),
            *final(self) == (BacktestingEngine {
                stop_orders: final(self).stop_orders,
                waiting_stops: final(self).waiting_stops,
                limit_orders: final(self).limit_orders,
                trades: final(self).trades,
                pos: final(self).pos,
                ..*old(self)
            }),
    {
        let q = self.stop_quote();
        let now: i64 = self.datetime.unwrap();
        let n: usize = self.stop_orders.len();
        let ghost stops0 = stops_view(self.stop_orders@);
        let ghost orders0 = self.limit_orders@;
        let ghost trades0 = self.trades@;
        let ghost pos0 = self.pos as int;
        let ghost first_order = (orders0.len() + 1) as int;
        let ghost first_trade = (trades0.len() + 1) as int;
        let ghost symbol = self.symbol;
        let ghost exchange = self.exchange;
        let mut events: Vec<StrategyEvent> = Vec::new();
        let mut i: usize = 0;
        proof {
            assert(stops0.take(0) =~= Seq::<StopOrderView>::empty());
            assert(events_view(events@) =~= Seq::empty());
            assert(trades0 + Seq::<TradeData>::empty() =~= trades0);
            assert(orders0 + Seq::<OrderData>::empty() =~= orders0);
        }
        while i < n
            invariant
                i <= n,
                n == stops0.len(),
                self.stop_orders@.len() == n,
                n <= MAX_ID,
                first_order == orders0.len() + 1,
                first_trade == trades0.len() + 1,
                symbol == self.symbol,
                exchange == self.exchange,
                forall|j: int|
                    0 <= j < i ==> (#[trigger] self.stop_orders@[j])@ == after_stop_cross(
                        stops0,
                        j,
                        q,
                        first_order,
                    ),
                forall|j: int| i <= j < n ==> (#[trigger] self.stop_orders@[j])@ == stops0[j],
                stop_spawns(stops0.take(i as int), q, first_order, now, symbol, exchange).len()
                    == trigger_count(stops0.take(i as int), q),
                stop_fills(
                    stops0.take(i as int),
                    q,
                    first_order,
                    first_trade,
                    now,
                    symbol,
                    exchange,
                ).len() == trigger_count(stops0.take(i as int), q),
                self.limit_orders@ == orders0 + stop_spawns(
                    stops0.take(i as int),
                    q,
                    first_order,
                    now,
                    symbol,
                    exchange,
                ),
                self.trades@ == trades0 + stop_fills(
                    stops0.take(i as int),
                    q,
                    first_order,
                    first_trade,
                    now,
                    symbol,
                    exchange,
                ),
                events_view(events@) == stop_events(
                    stops0.take(i as int),
                    q,
                    first_order,
                    first_trade,
                    now,
                    symbol,
                    exchange,
                    pos0,
                ),
                self.pos == pos0 + signed_volume_sum(
                    stop_fills(
                        stops0.take(i as int),
                        q,
                        first_order,
                        first_trade,
                        now,
                        symbol,
                        exchange,
                    ),
                ),
                self.pos == signed_volume_sum(self.trades@),
                old(self).wf(),
                old(self).datetime == Some(now),
                trades_accounted(self.trades@, self.daily_results@, self.open_date()),
                orders_numbered(self.limit_orders@),
                trades_numbered(self.trades@),
                stops_numbered(stops_view(self.stop_orders@)),
                self.waiting_stops == count_if(stops_view(self.stop_orders@), stop_waiting()),
                self.limit_orders@.len() + self.waiting_stops <= MAX_ID,
                self.trades@.len() + count_if(self.limit_orders@, order_active())
                    <= self.limit_orders@.len(),
                *self == (BacktestingEngine {
                    stop_orders: self.stop_orders,
                    waiting_stops: self.waiting_stops,
                    limit_orders: self.limit_orders,
                    trades: self.trades,
                    pos: self.pos,
                    ..*old(self)
                }),
            decreases n - i,
        {
            let ghost book = stops_view(self.stop_orders@);
            let ghost s0 = stops0[i as int];
            let ghost spawns = stop_spawns(stops0.take(i as int), q, first_order, now, symbol, exchange);
            let ghost fills = stop_fills(
                stops0.take(i as int),
                q,
                first_order,
                first_trade,
                now,
                symbol,
                exchange,
            );
            let ghost heard = events_view(events@);
            proof {
                assert(stops0.take(i + 1).drop_last() =~= stops0.take(i as int));
                assert(stops0.take(i + 1).last() == s0);
                assert(self.stop_orders@[i as int]@ == s0);
                assert(book[i as int] == s0);
            }
            let waiting: bool = self.stop_orders[i].status == StopOrderStatus::WAITING;
            let long_cross: bool = self.stop_orders[i].direction == Direction::LONG
                && self.stop_orders[i].price <= q.long_cross;
            let short_cross: bool = self.stop_orders[i].direction == Direction::SHORT
                && self.stop_orders[i].price >= q.short_cross;
            assert(long_cross == stop_long_cross(s0, q));
            assert(short_cross == stop_short_cross(s0, q));
            if waiting && (long_cross || short_cross) {
                proof {
                    lemma_count_positive(book, i as int, stop_waiting());
                    lemma_count_update(
                        book,
                        i as int,
                        stop_triggered(s0, (first_order + spawns.len()) as u64),
                        stop_waiting(),
                    );
                    crate::counting::lemma_count_le_len(self.limit_orders@, order_active());
                    lemma_signed_volume_sum_bound(self.trades@);
                    assert(self.trades@.len() * 0x8000_0000_0000_0000 <= 9_999_999_999
                        * 0x8000_0000_0000_0000) by (nonlinear_arith)
                        requires
                            self.trades@.len() <= 9_999_999_999,
                    ;
                }
                let orderid: u64 = self.limit_orders.len() as u64 + 1;
                let stop_price: i64 = self.stop_orders[i].price;
                let volume: i64 = self.stop_orders[i].volume;
                let order = OrderData {
                    gateway_name: GATEWAY_NAME,
                    symbol: self.symbol.clone(),
                    exchange: self.exchange.clone(),
                    reference: "",
                    orderid,
                    order_type: OrderType::LIMIT,
                    direction: self.stop_orders[i].direction,
                    offset: self.stop_orders[i].offset,
                    status: Status::ALLTRADED,
                    price: stop_price,
                    volume,
                    traded: volume,
                    datetime: now,
                };
                assert(order == spawned_order(s0, (first_order + spawns.len()) as u64, now, symbol, exchange));
                let price: i64 = if long_cross {
                    if stop_price >= q.long_best {
                        stop_price
                    } else {
                        q.long_best
                    }
                } else {
                    if stop_price <= q.short_best {
                        stop_price
                    } else {
                        q.short_best
                    }
                };
                assert(price == stop_fill_price(s0, q));
                let tradeid: u64 = self.trades.len() as u64 + 1;
                let trade = TradeData {
                    gateway_name: GATEWAY_NAME,
                    symbol: order.symbol.clone(),
                    exchange: order.exchange.clone(),
                    orderid: order.orderid,
                    tradeid,
                    direction: order.direction,
                    offset: order.offset,
                    price,
                    volume: order.volume,
                    datetime: now,
                };
                assert(trade == trade_of(order, (first_trade + fills.len()) as u64, price, now));
                let change: i128 = if long_cross {
                    volume as i128
                } else {
                    -(volume as i128)
                };
                assert(change == trade.signed_volume());
                self.stop_orders[i].vt_orderids.push(orderid);
                self.stop_orders[i].status = StopOrderStatus::TRIGGERED;
                self.waiting_stops = self.waiting_stops - 1;
                self.pos = self.pos + change;
                let triggered = self.stop_orders[i].clone();
                let order_heard = order.clone();
                let trade_heard = trade.clone();
                events.push(StrategyEvent::StopOrder(triggered));
                events.push(StrategyEvent::Order(order_heard));
                events.push(StrategyEvent::Trade(trade_heard, self.pos));
                proof {
                    assert(self.stop_orders@[i as int]@ == stop_triggered(s0, orderid));
                    assert(stops_view(self.stop_orders@) =~= book.update(
                        i as int,
                        stop_triggered(s0, orderid),
                    ));
                    lemma_count_push(self.limit_orders@, order, order_active());
                    lemma_signed_volume_sum_push(self.trades@, trade);
                    lemma_signed_volume_sum_push(fills, trade);
                    assert(events_view(events@) =~= heard.push(
                        StrategyEventView::StopOrder(stop_triggered(s0, orderid)),
                    ).push(StrategyEventView::Order(order)).push(
                        StrategyEventView::Trade(trade, self.pos),
                    ));
                    assert(trades0 + fills.push(trade) =~= (trades0 + fills).push(trade));
                    assert(orders0 + spawns.push(order) =~= (orders0 + spawns).push(order));
                }
                self.limit_orders.push(order);
                self.trades.push(trade);
            } else {
                proof {
                    assert(stops_view(self.stop_orders@) =~= book);
                }
            }
            i = i + 1;
        }
        proof {
            assert(stops0.take(n as int) =~= stops0);
            assert(stops_view(self.stop_orders@) =~= Seq::new(
                stops0.len(),
                |i: int| after_stop_cross(stops0, i, q, first_order),
            ));
        }
        events
    }
}

} // verus!
