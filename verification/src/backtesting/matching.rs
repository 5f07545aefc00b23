//! The fill model: what one market record does to the resting orders.
//!
//! A record is reduced to a quote of four prices. Every active limit order
//! and every waiting stop order is held against the quote on its own, in
//! the order of the identifiers; orders that cross on the same record do not
//! use up each other's volume.

use super::base::{BacktestingMode, StopOrderStatus, StopOrderView, StrategyEventView};
use crate::numeric::{max_spec, min_spec};
use crate::trader::constant::{Direction, OrderType, Status};
use crate::trader::object::{BarData, OrderData, TickData, TradeData};
use vstd::prelude::*;

verus! {

/// The name of the gateway that every order and trade of a backtest bears.
pub const GATEWAY_NAME: &'static str = "BACKTESTING";

/// The four prices of a record that orders are held against: the price
/// that a long and a short order must reach, and the best price that
/// either can be filled at.
#[derive(Debug, Clone, Copy, PartialEq, Eq, Structural)]
pub struct Quote {
    pub long_cross: i64,
    pub short_cross: i64,
    pub long_best: i64,
    pub short_best: i64,
}

/// The quote for limit orders: on a bar a long order must reach the low and
/// a short order the high, and the open is the best price of both; on a
/// tick they are the best ask and the best bid.
pub open spec fn limit_quote_spec(
    mode: BacktestingMode,
    bar: Option<BarData>,
    tick: Option<TickData>,
) -> Quote
    recommends
        mode == BacktestingMode::BAR ==> bar is Some,
        mode == BacktestingMode::TICK ==> tick is Some,
{
    if mode == BacktestingMode::BAR {
        Quote {
            long_cross: bar->0.low_price,
            short_cross: bar->0.high_price,
            long_best: bar->0.open_price,
            short_best: bar->0.open_price,
        }
    } else {
        Quote {
            long_cross: tick->0.ask_price_1,
            short_cross: tick->0.bid_price_1,
            long_best: tick->0.ask_price_1,
            short_best: tick->0.bid_price_1,
        }
    }
}

/// The quote for stop orders: on a bar a long stop is triggered by the high
/// and a short stop by the low, and the open is the best price of both; on
/// a tick all four are the last price.
pub open spec fn stop_quote_spec(
    mode: BacktestingMode,
    bar: Option<BarData>,
    tick: Option<TickData>,
) -> Quote
    recommends
        mode == BacktestingMode::BAR ==> bar is Some,
        mode == BacktestingMode::TICK ==> tick is Some,
{
    if mode == BacktestingMode::BAR {
        Quote {
            long_cross: bar->0.high_price,
            short_cross: bar->0.low_price,
            long_best: bar->0.open_price,
            short_best: bar->0.open_price,
        }
    } else {
        Quote {
            long_cross: tick->0.last_price,
            short_cross: tick->0.last_price,
            long_best: tick->0.last_price,
            short_best: tick->0.last_price,
        }
    }
}

/// A long limit order crosses where its price is at least the long cross
/// price, a short one where its price is at most the short cross price; a
/// cross price that is not positive crosses nothing.
pub open spec fn limit_long_cross(o: OrderData, q: Quote) -> bool {
    o.direction == Direction::LONG && o.price >= q.long_cross && q.long_cross > 0
}

/// Whether a short limit order has reached the short cross price.
pub open spec fn limit_short_cross(o: OrderData, q: Quote) -> bool {
    o.direction == Direction::SHORT && o.price <= q.short_cross && q.short_cross > 0
}

/// Whether an active limit order is filled by the quote.
pub open spec fn limit_fills_at(o: OrderData, q: Quote) -> bool {
    o.active() && (limit_long_cross(o, q) || limit_short_cross(o, q))
}

/// The price at which a crossing limit order is filled: its own price, or
/// the best price where that is more favourable.
pub open spec fn limit_fill_price(o: OrderData, q: Quote) -> i64 {
    if limit_long_cross(o, q) {
        min_spec(o.price, q.long_best)
    } else {
        max_spec(o.price, q.short_best)
    }
}

/// An order that has been seen pending.
pub open spec fn order_not_traded(o: OrderData) -> OrderData {
    OrderData { status: Status::NOTTRADED, ..o }
}

/// An order filled in full.
pub open spec fn order_filled(o: OrderData) -> OrderData {
    OrderData { traded: o.volume, status: Status::ALLTRADED, ..o }
}

/// An order cancelled.
pub open spec fn order_cancelled(o: OrderData) -> OrderData {
    OrderData { status: Status::CANCELLED, ..o }
}

/// What a limit order is after one crossing: filled if it was active and
/// crossed, not traded if it was being submitted and did not cross, and
/// otherwise what it was.
pub open spec fn after_limit_cross(o: OrderData, q: Quote) -> OrderData {
    if limit_fills_at(o, q) {
        order_filled(o)
    } else if o.status == Status::SUBMITTING {
        order_not_traded(o)
    } else {
        o
    }
}

/// The trade that fills an order at a price.
pub open spec fn trade_of(o: OrderData, tradeid: u64, price: i64, now: i64) -> TradeData {
    TradeData {
        gateway_name: GATEWAY_NAME,
        symbol: o.symbol,
        exchange: o.exchange,
        orderid: o.orderid,
        tradeid,
        direction: o.direction,
        offset: o.offset,
        price,
        volume: o.volume,
        datetime: now,
    }
}

/// The sum of the position changes of a list of trades.
pub open spec fn signed_volume_sum(trades: Seq<TradeData>) -> int
    decreases trades.len(),
{
    if trades.len() == 0 {
        0
    } else {
        signed_volume_sum(trades.drop_last()) + trades.last().signed_volume()
    }
}

/// The trades that one crossing makes of a book of limit orders, in the
/// order of the book. The first of them gets the number `first_id`.
pub open spec fn limit_fills(orders: Seq<OrderData>, q: Quote, first_id: int, now: i64) -> Seq<
    TradeData,
>
    decreases orders.len(),
{
    if orders.len() == 0 {
        Seq::empty()
    } else {
        let before = limit_fills(orders.drop_last(), q, first_id, now);
        let o = orders.last();
        if limit_fills_at(o, q) {
            before.push(
                trade_of(o, (first_id + before.len()) as u64, limit_fill_price(o, q), now),
            )
        } else {
            before
        }
    }
}

/// What one limit order gives the strategy to hear in a crossing: that it
/// is pending, if it was being submitted; and, if it crosses, that it is
/// filled, and the trade with the position after it.
pub open spec fn limit_order_events(o: OrderData, q: Quote, tradeid: u64, now: i64, pos: int) -> Seq<
    StrategyEventView,
> {
    let seen = if o.active() && o.status == Status::SUBMITTING {
        seq![StrategyEventView::Order(order_not_traded(o))]
    } else {
        Seq::empty()
    };
    if limit_fills_at(o, q) {
        let t = trade_of(o, tradeid, limit_fill_price(o, q), now);
        seen.push(StrategyEventView::Order(order_filled(o))).push(
            StrategyEventView::Trade(t, (pos + t.signed_volume()) as i128),
        )
    } else {
        seen
    }
}

/// The events of one crossing of a book of limit orders, in the order of
/// the book. `pos` is the position before the crossing.
pub open spec fn limit_events(
    orders: Seq<OrderData>,
    q: Quote,
    first_id: int,
    now: i64,
    pos: int,
) -> Seq<StrategyEventView>
    decreases orders.len(),
{
    if orders.len() == 0 {
        Seq::empty()
    } else {
        let head = orders.drop_last();
        let fills = limit_fills(head, q, first_id, now);
        limit_events(head, q, first_id, now, pos) + limit_order_events(
            orders.last(),
            q,
            (first_id + fills.len()) as u64,
            now,
            pos + signed_volume_sum(fills),
        )
    }
}

/// A waiting long stop is triggered where the long cross price has reached
/// its price, a waiting short stop where the short cross price has fallen
/// to its price.
pub open spec fn stop_long_cross(s: StopOrderView, q: Quote) -> bool {
    s.direction == Direction::LONG && s.price <= q.long_cross
}

/// Whether the short cross price has fallen to a short stop.
pub open spec fn stop_short_cross(s: StopOrderView, q: Quote) -> bool {
    s.direction == Direction::SHORT && s.price >= q.short_cross
}

/// Whether a waiting stop order is triggered by the quote.
pub open spec fn stop_triggers(s: StopOrderView, q: Quote) -> bool {
    s.status == StopOrderStatus::WAITING && (stop_long_cross(s, q) || stop_short_cross(s, q))
}

/// The price at which a triggered stop is filled: its own price, or the
/// best price where that is less favourable.
pub open spec fn stop_fill_price(s: StopOrderView, q: Quote) -> i64 {
    if stop_long_cross(s, q) {
        max_spec(s.price, q.long_best)
    } else {
        min_spec(s.price, q.short_best)
    }
}

/// The limit order that a triggered stop spawns. It is born filled.
pub open spec fn spawned_order(
    s: StopOrderView,
    orderid: u64,
    now: i64,
    symbol: String,
    exchange: String,
) -> OrderData {
    OrderData {
        gateway_name: GATEWAY_NAME,
        symbol,
        exchange,
        reference: "",
        orderid,
        order_type: OrderType::LIMIT,
        direction: s.direction,
        offset: s.offset,
        status: Status::ALLTRADED,
        price: s.price,
        volume: s.volume,
        traded: s.volume,
        datetime: now,
    }
}

/// A stop order after it was triggered and has spawned the order
/// `orderid`.
pub open spec fn stop_triggered(s: StopOrderView, orderid: u64) -> StopOrderView {
    StopOrderView {
        status: StopOrderStatus::TRIGGERED,
        vt_orderids: s.vt_orderids.push(orderid),
        ..s
    }
}

/// A stop order cancelled.
pub open spec fn stop_cancelled(s: StopOrderView) -> StopOrderView {
    StopOrderView { status: StopOrderStatus::CANCELLED, ..s }
}

/// How many of the stop orders are triggered by the quote.
pub open spec fn trigger_count(stops: Seq<StopOrderView>, q: Quote) -> nat
    decreases stops.len(),
{
    if stops.len() == 0 {
        0
    } else {
        trigger_count(stops.drop_last(), q) + if stop_triggers(stops.last(), q) {
            1nat
        } else {
            0nat
        }
    }
}

/// What a stop order is after one crossing of the book that it stands in at
/// place `i`: triggered, with the number of the order it spawned, or what
/// it was. The orders spawned are numbered from `first_order` on.
pub open spec fn after_stop_cross(
    stops: Seq<StopOrderView>,
    i: int,
    q: Quote,
    first_order: int,
) -> StopOrderView
    recommends
        0 <= i < stops.len(),
{
    if stop_triggers(stops[i], q) {
        stop_triggered(stops[i], (first_order + trigger_count(stops.take(i), q)) as u64)
    } else {
        stops[i]
    }
}

/// The limit orders that one crossing of a book of stop orders spawns, in
/// the order of the book, numbered from `first_order` on.
pub open spec fn stop_spawns(
    stops: Seq<StopOrderView>,
    q: Quote,
    first_order: int,
    now: i64,
    symbol: String,
    exchange: String,
) -> Seq<OrderData>
    decreases stops.len(),
{
    if stops.len() == 0 {
        Seq::empty()
    } else {
        let before = stop_spawns(stops.drop_last(), q, first_order, now, symbol, exchange);
        let s = stops.last();
        if stop_triggers(s, q) {
            before.push(
                spawned_order(s, (first_order + before.len()) as u64, now, symbol, exchange),
            )
        } else {
            before
        }
    }
}

/// The trades that one crossing of a book of stop orders makes, in the
/// order of the book. The orders are numbered from `first_order` on and the
/// trades from `first_trade` on.
pub open spec fn stop_fills(
    stops: Seq<StopOrderView>,
    q: Quote,
    first_order: int,
    first_trade: int,
    now: i64,
    symbol: String,
    exchange: String,
) -> Seq<TradeData>
    decreases stops.len(),
{
    if stops.len() == 0 {
        Seq::empty()
    } else {
        let before = stop_fills(
            stops.drop_last(),
            q,
            first_order,
            first_trade,
            now,
            symbol,
            exchange,
        );
        let s = stops.last();
        if stop_triggers(s, q) {
            let o = spawned_order(s, (first_order + before.len()) as u64, now, symbol, exchange);
            before.push(trade_of(o, (first_trade + before.len()) as u64, stop_fill_price(s, q), now))
        } else {
            before
        }
    }
}

/// The events of one crossing of a book of stop orders: for each stop
/// triggered, in the order of the book, the stop, the order it spawned and
/// the trade with the position after it. `pos` is the position before the
/// crossing.
pub open spec fn stop_events(
    stops: Seq<StopOrderView>,
    q: Quote,
    first_order: int,
    first_trade: int,
    now: i64,
    symbol: String,
    exchange: String,
    pos: int,
) -> Seq<StrategyEventView>
    decreases stops.len(),
{
    if stops.len() == 0 {
        Seq::empty()
    } else {
        let head = stops.drop_last();
        let before = stop_events(head, q, first_order, first_trade, now, symbol, exchange, pos);
        let fills = stop_fills(head, q, first_order, first_trade, now, symbol, exchange);
        let s = stops.last();
        if stop_triggers(s, q) {
            let o = spawned_order(s, (first_order + fills.len()) as u64, now, symbol, exchange);
            let t = trade_of(o, (first_trade + fills.len()) as u64, stop_fill_price(s, q), now);
            before.push(StrategyEventView::StopOrder(stop_triggered(s, o.orderid))).push(
                StrategyEventView::Order(o),
            ).push(
                StrategyEventView::Trade(
                    t,
                    (pos + signed_volume_sum(fills) + t.signed_volume()) as i128,
                ),
            )
        } else {
            before
        }
    }
}

/// A limit fill is never worse than the order's own price: a long is
/// filled at or below it, a short at or above it.
pub proof fn lemma_limit_fill_price_favourable(o: OrderData, q: Quote)
    requires
        limit_fills_at(o, q),
    ensures
        o.direction == Direction::LONG ==> limit_fill_price(o, q) <= o.price,
        o.direction == Direction::SHORT ==> limit_fill_price(o, q) >= o.price,
{
}

/// A stop fill is never better than the stop's own price: a long is filled
/// at or above it, a short at or below it.
pub proof fn lemma_stop_fill_price_bound(s: StopOrderView, q: Quote)
    requires
        stop_triggers(s, q),
    ensures
        s.direction == Direction::LONG ==> stop_fill_price(s, q) >= s.price,
        s.direction == Direction::SHORT ==> stop_fill_price(s, q) <= s.price,
{
}

/// On a bar whose low and high bound its open, an order that is filled is
/// filled within the range of the bar: a limit order that crosses and a
/// stop order that is triggered alike.
pub proof fn lemma_bar_fills_in_range(o: OrderData, s: StopOrderView, bar: BarData)
    requires
        bar.well_formed(),
    ensures
        limit_fills_at(o, limit_quote_spec(BacktestingMode::BAR, Some(bar), None))
            ==> bar.low_price <= limit_fill_price(
            o,
            limit_quote_spec(BacktestingMode::BAR, Some(bar), None),
        ) <= bar.high_price,
        stop_triggers(s, stop_quote_spec(BacktestingMode::BAR, Some(bar), None)) ==> bar.low_price
            <= stop_fill_price(s, stop_quote_spec(BacktestingMode::BAR, Some(bar), None))
            <= bar.high_price,
{
}

/// The position changes of a list with one more trade.
pub proof fn lemma_signed_volume_sum_push(trades: Seq<TradeData>, t: TradeData)
    ensures
        signed_volume_sum(trades.push(t)) == signed_volume_sum(trades) + t.signed_volume(),
{
    assert(trades.push(t).drop_last() =~= trades);
}

/// The position changes of two lists joined.
pub proof fn lemma_signed_volume_sum_concat(a: Seq<TradeData>, b: Seq<TradeData>)
    ensures
        signed_volume_sum(a + b) == signed_volume_sum(a) + signed_volume_sum(b),
    decreases b.len(),
{
    if b.len() == 0 {
        assert(a + b =~= a);
    } else {
        assert((a + b).drop_last() =~= a + b.drop_last());
        lemma_signed_volume_sum_concat(a, b.drop_last());
    }
}

/// No list of trades moves the position by more than its length times the
/// largest volume.
pub proof fn lemma_signed_volume_sum_bound(trades: Seq<TradeData>)
    ensures
        -(trades.len() * 0x8000_0000_0000_0000) <= signed_volume_sum(trades) <= trades.len()
            * 0x8000_0000_0000_0000,
    decreases trades.len(),
{
    if trades.len() > 0 {
        lemma_signed_volume_sum_bound(trades.drop_last());
        assert(trades.len() * 0x8000_0000_0000_0000 == trades.drop_last().len()
            * 0x8000_0000_0000_0000 + 0x8000_0000_0000_0000) by (nonlinear_arith)
            requires
                trades.len() == trades.drop_last().len() + 1,
        ;
    }
}

/// Whether the trade `t` fills the limit order `o` against the quote, at
/// a price that is not worse than the order's own.
pub open spec fn fills_limit_order(t: TradeData, o: OrderData, q: Quote) -> bool {
    &&& limit_fills_at(o, q)
    &&& t.orderid == o.orderid
    &&& t.direction == o.direction
    &&& t.volume == o.volume
    &&& t.price == limit_fill_price(o, q)
    &&& o.direction == Direction::LONG ==> t.price <= o.price
    &&& o.direction == Direction::SHORT ==> t.price >= o.price
}

/// Every trade of a crossing of limit orders fills an order of the book
/// that crosses, at a price that is not worse than the order's own: at or
/// below it for a long, at or above it for a short. The trades are
/// numbered in their order.
pub proof fn lemma_limit_fills_favourable(
    orders: Seq<OrderData>,
    q: Quote,
    first_id: int,
    now: i64,
    k: int,
)
    requires
        0 <= k < limit_fills(orders, q, first_id, now).len(),
    ensures
        exists|i: int|
            0 <= i < orders.len() && fills_limit_order(
                limit_fills(orders, q, first_id, now)[k],
                #[trigger] orders[i],
                q,
            ),
        limit_fills(orders, q, first_id, now)[k].tradeid == (first_id + k) as u64,
        limit_fills(orders, q, first_id, now)[k].datetime == now,
    decreases orders.len(),
{
    let head = orders.drop_last();
    let before = limit_fills(head, q, first_id, now);
    if k < before.len() {
        lemma_limit_fills_favourable(head, q, first_id, now, k);
        let i = choose|i: int|
            0 <= i < head.len() && fills_limit_order(before[k], #[trigger] head[i], q);
        assert(fills_limit_order(limit_fills(orders, q, first_id, now)[k], orders[i], q));
    } else {
        let i = orders.len() - 1;
        assert(fills_limit_order(limit_fills(orders, q, first_id, now)[k], orders[i], q));
    }
}

/// Whether the trade `t` fills the stop order `s` against the quote, at a
/// price that is not better than the stop's own.
pub open spec fn fills_stop_order(t: TradeData, s: StopOrderView, q: Quote) -> bool {
    &&& stop_triggers(s, q)
    &&& t.direction == s.direction
    &&& t.volume == s.volume
    &&& t.price == stop_fill_price(s, q)
    &&& s.direction == Direction::LONG ==> t.price >= s.price
    &&& s.direction == Direction::SHORT ==> t.price <= s.price
}

/// Every trade of a crossing of stop orders fills a stop of the book that
/// is triggered, at a price that is not better than the stop's own: at or
/// above it for a long, at or below it for a short. The trades and the
/// orders that they fill are numbered in their order.
pub proof fn lemma_stop_fills_bounded(
    stops: Seq<StopOrderView>,
    q: Quote,
    first_order: int,
    first_trade: int,
    now: i64,
    symbol: String,
    exchange: String,
    k: int,
)
    requires
        0 <= k < stop_fills(stops, q, first_order, first_trade, now, symbol, exchange).len(),
    ensures
        exists|i: int|
            0 <= i < stops.len() && fills_stop_order(
                stop_fills(stops, q, first_order, first_trade, now, symbol, exchange)[k],
                #[trigger] stops[i],
                q,
            ),
        stop_fills(stops, q, first_order, first_trade, now, symbol, exchange)[k].tradeid == (
        first_trade + k) as u64,
        stop_fills(stops, q, first_order, first_trade, now, symbol, exchange)[k].orderid == (
        first_order + k) as u64,
        stop_fills(stops, q, first_order, first_trade, now, symbol, exchange)[k].datetime == now,
    decreases stops.len(),
{
    let head = stops.drop_last();
    let before = stop_fills(head, q, first_order, first_trade, now, symbol, exchange);
    let all = stop_fills(stops, q, first_order, first_trade, now, symbol, exchange);
    if k < before.len() {
        lemma_stop_fills_bounded(head, q, first_order, first_trade, now, symbol, exchange, k);
        let i = choose|i: int|
            0 <= i < head.len() && fills_stop_order(before[k], #[trigger] head[i], q);
        assert(fills_stop_order(all[k], stops[i], q));
    } else {
        let i = stops.len() - 1;
        assert(fills_stop_order(all[k], stops[i], q));
    }
}

} // verus!
