//! Submitting and cancelling orders.

use super::base::{
    events_view, stops_view, StopOrder, StopOrderStatus, StopOrderView, StrategyEvent,
    StrategyEventView, STOPORDER_PREFIX,
};
use super::engine::{
    order_active, orders_numbered, stop_waiting, stops_numbered, BacktestingEngine,
};
use super::matching::{order_cancelled, stop_cancelled, GATEWAY_NAME};
use crate::counting::{
    count_if, first_match, is_first, lemma_count_le_len, lemma_count_none, lemma_count_positive,
    lemma_count_push, lemma_count_update, lemma_first_match_is, lemma_first_match_none,
};
use crate::error::ErrorKind;
use crate::ident::{
    gateway_id, gateway_id_text, lemma_ids_differ, lemma_ids_rise, lex_less, stop_id,
    stop_id_text, MAX_ID,
};
use crate::numeric::{decimal_quotient, round_to, round_to_spec, DECIMALS};
use crate::text::{same_text, starts_with, starts_with_spec};
use crate::trader::constant::{Direction, Offset_, OrderType, Status};
use crate::trader::object::OrderData;
use vstd::prelude::*;

verus! {

/// The limit order that a submission makes.
pub open spec fn submitted_order(
    orderid: u64,
    direction: Direction,
    offset: Offset_,
    price: i64,
    volume: i64,
    now: i64,
    symbol: String,
    exchange: String,
) -> OrderData {
    OrderData {
        gateway_name: GATEWAY_NAME,
        symbol,
        exchange,
        reference: "",
        orderid,
        order_type: OrderType::LIMIT,
        direction,
        offset,
        status: Status::SUBMITTING,
        price,
        volume,
        traded: 0,
        datetime: now,
    }
}

/// The stop order that a submission makes.
pub open spec fn submitted_stop(
    stop_orderid: u64,
    direction: Direction,
    offset: Offset_,
    price: i64,
    volume: i64,
    now: i64,
    vt_symbol: Seq<char>,
    strategy_name: Seq<char>,
) -> StopOrderView {
    StopOrderView {
        vt_symbol,
        direction,
        offset,
        price,
        volume,
        stop_orderid,
        strategy_name,
        datetime: now,
        lock: false,
        net: false,
        vt_orderids: Seq::empty(),
        status: StopOrderStatus::WAITING,
    }
}

/// The predicate of an active limit order with the identifier `text`.
pub open spec fn active_order_named(text: Seq<char>) -> spec_fn(OrderData) -> bool {
    |o: OrderData| o.active() && gateway_id_text(o.orderid as nat) == text
}

/// The predicate of a waiting stop order with the identifier `text`.
pub open spec fn waiting_stop_named(text: Seq<char>) -> spec_fn(StopOrderView) -> bool {
    |s: StopOrderView|
        s.status == StopOrderStatus::WAITING && stop_id_text(s.stop_orderid as nat) == text
}

/// What the strategy hears when every active limit order of a book is
/// cancelled, in the order of the book.
pub open spec fn cancel_limit_events(orders: Seq<OrderData>) -> Seq<StrategyEventView>
    decreases orders.len(),
{
    if orders.len() == 0 {
        Seq::empty()
    } else {
        let before = cancel_limit_events(orders.drop_last());
        if orders.last().active() {
            before.push(StrategyEventView::Order(order_cancelled(orders.last())))
        } else {
            before
        }
    }
}

/// What the strategy hears when every waiting stop order of a book is
/// cancelled, in the order of the book.
pub open spec fn cancel_stop_events(stops: Seq<StopOrderView>) -> Seq<StrategyEventView>
    decreases stops.len(),
{
    if stops.len() == 0 {
        Seq::empty()
    } else {
        let before = cancel_stop_events(stops.drop_last());
        if stops.last().status == StopOrderStatus::WAITING {
            before.push(StrategyEventView::StopOrder(stop_cancelled(stops.last())))
        } else {
            before
        }
    }
}

impl BacktestingEngine {
    /// Whether the books have room for one more limit order: the limit
    /// orders and the waiting stops together are fewer than `MAX_ID`.
    pub open spec fn room_for_limit(&self) -> bool {
        self.limit_orders@.len() + self.waiting_stops < MAX_ID
    }

    /// Whether the books have room for one more stop order.
    pub open spec fn room_for_stop(&self) -> bool {
        self.room_for_limit() && self.stop_orders@.len() < MAX_ID
    }

    /// `post` is `pre` with one more limit order, submitted at `pre`'s
    /// clock.
    pub open spec fn limit_sent(
        pre: Self,
        post: Self,
        direction: Direction,
        offset: Offset_,
        price: i64,
        volume: i64,
    ) -> bool {
        &&& post.limit_orders@ == pre.limit_orders@.push(
            submitted_order(
                (pre.limit_orders@.len() + 1) as u64,
                direction,
                offset,
                price,
                volume,
                pre.datetime->0,
                pre.symbol,
                pre.exchange,
            ),
        )
        &&& post == (BacktestingEngine { limit_orders: post.limit_orders, ..pre })
    }

    /// `post` is `pre` with one more stop order, submitted at `pre`'s
    /// clock.
    pub open spec fn stop_sent(
        pre: Self,
        post: Self,
        direction: Direction,
        offset: Offset_,
        price: i64,
        volume: i64,
    ) -> bool {
        &&& stops_view(post.stop_orders@) == stops_view(pre.stop_orders@).push(
            submitted_stop(
                (pre.stop_orders@.len() + 1) as u64,
                direction,
                offset,
                price,
                volume,
                pre.datetime->0,
                pre.vt_symbol@,
                pre.strategy_name@,
            ),
        )
        &&& post.waiting_stops == pre.waiting_stops + 1
        &&& post == (BacktestingEngine {
            stop_orders: post.stop_orders,
            waiting_stops: post.waiting_stops,
            ..pre
        })
    }

    /// Submits a limit order at the engine's clock and returns its
    /// identifier. The order is active and being submitted until the next
    /// crossing. Where the books are full nothing changes and the error is
    /// numeric: no identifier is left.
    pub fn send_limit_order(
        &mut self,
        direction: Direction,
        offset: Offset_,
        price: i64,
        volume: i64,
    ) -> (r: Result<String, ErrorKind>)
        requires
            old(self).wf(),
            old(self).datetime is Some,
        ensures
            final(self).wf(),
            r is Ok <==> old(self).room_for_limit(),
            r is Ok ==> Self::limit_sent(*old(self), *final(self), direction, offset, price, volume)
                && r->Ok_0@ == gateway_id_text((old(self).limit_orders@.len() + 1) as nat),
            r is Err ==> r->Err_0 == ErrorKind::Numeric && *final(self) == *old(self),
    {
        if self.limit_orders.len() as u64 >= MAX_ID - self.waiting_stops {
            return Err(ErrorKind::Numeric);
        }
        let orderid: u64 = self.limit_orders.len() as u64 + 1;
        let order = OrderData {
            gateway_name: GATEWAY_NAME,
            symbol: self.symbol.clone(),
            exchange: self.exchange.clone(),
            reference: "",
            orderid,
            order_type: OrderType::LIMIT,
            direction,
            offset,
            status: Status::SUBMITTING,
            price,
            volume,
            traded: 0,
            datetime: self.datetime.unwrap(),
        };
        proof {
            lemma_count_push(self.limit_orders@, order, order_active());
        }
        self.limit_orders.push(order);
        Ok(gateway_id(orderid))
    }

    /// Submits a stop order at the engine's clock and returns its
    /// identifier. The stop waits until a record triggers it. Where the
    /// books are full nothing changes and the error is numeric.
    pub fn send_stop_order(
        &mut self,
        direction: Direction,
        offset: Offset_,
        price: i64,
        volume: i64,
    ) -> (r: Result<String, ErrorKind>)
        requires
            old(self).wf(),
            old(self).datetime is Some,
        ensures
            final(self).wf(),
            r is Ok <==> old(self).room_for_stop(),
            r is Ok ==> Self::stop_sent(*old(self), *final(self), direction, offset, price, volume)
                && r->Ok_0@ == stop_id_text((old(self).stop_orders@.len() + 1) as nat),
            r is Err ==> r->Err_0 == ErrorKind::Numeric && *final(self) == *old(self),
    {
        if self.limit_orders.len() as u64 >= MAX_ID - self.waiting_stops
            || self.stop_orders.len() as u64 >= MAX_ID {
            return Err(ErrorKind::Numeric);
        }
        let stop_orderid: u64 = self.stop_orders.len() as u64 + 1;
        let stop = StopOrder {
            vt_symbol: self.vt_symbol.clone(),
            direction,
            offset,
            price,
            volume,
            stop_orderid,
            strategy_name: self.strategy_name.clone(),
            datetime: self.datetime.unwrap(),
            lock: false,
            net: false,
            vt_orderids: Vec::new(),
            status: StopOrderStatus::WAITING,
        };
        proof {
            let before = stops_view(self.stop_orders@);
            lemma_count_push(before, stop@, stop_waiting());
            assert(stops_view(self.stop_orders@.push(stop)) =~= before.push(stop@));
        }
        self.stop_orders.push(stop);
        self.waiting_stops = self.waiting_stops + 1;
        Ok(stop_id(stop_orderid))
    }

    /// Submits an order at `price` rounded to the price tick: a stop order
    /// if `stop` is set, else a limit order. Returns the one identifier.
    /// `lock` and `net` are not used in a backtest.
    ///
    /// A price tick of zero, or a rounded price that the fixed-point type
    /// cannot hold, is a numeric error, and so are full books; the engine
    /// is then left as it was.
    pub fn send_order(
        &mut self,
        direction: Direction,
        offset: Offset_,
        price: i64,
        volume: i64,
        stop: bool,
        lock: bool,
        net: bool,
    ) -> (r: Result<Vec<String>, ErrorKind>)
        requires
            old(self).wf(),
            old(self).datetime is Some,
        ensures
            final(self).wf(),
            ({
                let rounded = round_to_spec(
                    price,
                    old(self).pricetick,
                    decimal_quotient(
                        price as int,
                        DECIMALS as nat,
                        old(self).pricetick as int,
                        DECIMALS as nat,
                    ),
                );
                &&& r is Ok <==> rounded is Ok && if stop {
                    old(self).room_for_stop()
                } else {
                    old(self).room_for_limit()
                }
                &&& r is Ok && stop ==> Self::stop_sent(
                    *old(self),
                    *final(self),
                    direction,
                    offset,
                    rounded->Ok_0,
                    volume,
                ) && r->Ok_0@.len() == 1 && r->Ok_0@[0]@ == stop_id_text(
                    (old(self).stop_orders@.len() + 1) as nat,
                )
                &&& r is Ok && !stop ==> Self::limit_sent(
                    *old(self),
                    *final(self),
                    direction,
                    offset,
                    rounded->Ok_0,
                    volume,
                ) && r->Ok_0@.len() == 1 && r->Ok_0@[0]@ == gateway_id_text(
                    (old(self).limit_orders@.len() + 1) as nat,
                )
            }),
            r is Err ==> r->Err_0 == ErrorKind::Numeric && *final(self) == *old(self),
    {
        let price: i64 = match round_to(price, self.pricetick) {
            Ok(p) => p,
            Err(e) => { return Err(e); },
        };
        let sent = if stop {
            self.send_stop_order(direction, offset, price, volume)
        } else {
            self.send_limit_order(direction, offset, price, volume)
        };
        match sent {
            Ok(id) => {
                let mut ids: Vec<String> = Vec::new();
                ids.push(id);
                Ok(ids)
            },
            Err(e) => Err(e),
        }
    }

    /// Cancels the active limit order with the identifier `vt_orderid` and
    /// returns what the strategy is to hear. An identifier that no active
    /// limit order bears changes nothing.
    pub fn cancel_limit_order(&mut self, vt_orderid: &str) -> (events: Vec<StrategyEvent>)
        requires
            old(self).wf(),
        ensures
            final(self).wf(),
            match first_match(old(self).limit_orders@, active_order_named(vt_orderid@)) {
                Some(i) => {
                    &&& final(self).limit_orders@ == old(self).limit_orders@.update(
                        i,
                        order_cancelled(old(self).limit_orders@[i]),
                    )
                    &&& events_view(events@) == seq![
                        StrategyEventView::Order(order_cancelled(old(self).limit_orders@[i])),
                    ]
                    &&& *final(self) == (BacktestingEngine {
                        limit_orders: final(self).limit_orders,
                        ..*old(self)
                    })
                },
                None => *final(self) == *old(self) && events@.len() == 0,
            },
    {
        let mut events: Vec<StrategyEvent> = Vec::new();
        let n: usize = self.limit_orders.len();
        let ghost orders0 = self.limit_orders@;
        let ghost named = active_order_named(vt_orderid@);
        let mut i: usize = 0;
        while i < n
            invariant
                i <= n,
                n == orders0.len(),
                *self == *old(self),
                self.wf(),
                orders0 == self.limit_orders@,
                named == active_order_named(vt_orderid@),
                events@.len() == 0,
                forall|j: int| 0 <= j < i ==> !named(#[trigger] orders0[j]),
            decreases n - i,
        {
            if self.limit_orders[i].status.is_active() {
                let id = gateway_id(self.limit_orders[i].orderid);
                if same_text(id.as_str(), vt_orderid) {
                    proof {
                        assert(named(orders0[i as int]));
                        assert(is_first(orders0, named, i as int));
                        lemma_first_match_is(orders0, named, i as int);
                        lemma_count_update(
                            orders0,
                            i as int,
                            order_cancelled(orders0[i as int]),
                            order_active(),
                        );
                    }
                    self.limit_orders[i].status = Status::CANCELLED;
                    let heard = self.limit_orders[i].clone();
                    events.push(StrategyEvent::Order(heard));
                    proof {
                        assert(self.limit_orders@ =~= orders0.update(
                            i as int,
                            order_cancelled(orders0[i as int]),
                        ));
                        assert(events_view(events@) =~= seq![
                            StrategyEventView::Order(order_cancelled(orders0[i as int])),
                        ]);
                    }
                    return events;
                }
            }
            i = i + 1;
        }
        proof {
            lemma_first_match_none(orders0, named);
        }
        events
    }

    /// Cancels the waiting stop order with the identifier `vt_orderid` and
    /// returns what the strategy is to hear. An identifier that no waiting
    /// stop order bears changes nothing.
    pub fn cancel_stop_order(&mut self, vt_orderid: &str) -> (events: Vec<StrategyEvent>)
        requires
            old(self).wf(),
        ensures
            final(self).wf(),
            match first_match(
                stops_view(old(self).stop_orders@),
                waiting_stop_named(vt_orderid@),
            ) {
                Some(i) => {
                    &&& stops_view(final(self).stop_orders@) == stops_view(
                        old(self).stop_orders@,
                    ).update(i, stop_cancelled(old(self).stop_orders@[i]@))
                    &&& events_view(events@) == seq![
                        StrategyEventView::StopOrder(stop_cancelled(old(self).stop_orders@[i]@)),
                    ]
                    &&& final(self).waiting_stops == old(self).waiting_stops - 1
                    &&& *final(self) == (BacktestingEngine {
                        stop_orders: final(self).stop_orders,
                        waiting_stops: final(self).waiting_stops,
                        ..*old(self)
                    })
                },
                None => *final(self) == *old(self) && events@.len() == 0,
            },
    {
        let mut events: Vec<StrategyEvent> = Vec::new();
        let n: usize = self.stop_orders.len();
        let ghost stops0 = stops_view(self.stop_orders@);
        let ghost named = waiting_stop_named(vt_orderid@);
        let mut i: usize = 0;
        while i < n
            invariant
                i <= n,
                n == stops0.len(),
                *self == *old(self),
                self.wf(),
                stops0 == stops_view(self.stop_orders@),
                named == waiting_stop_named(vt_orderid@),
                events@.len() == 0,
                forall|j: int| 0 <= j < i ==> !named(#[trigger] stops0[j]),
            decreases n - i,
        {
            assert(stops0[i as int] == self.stop_orders@[i as int]@);
            if self.stop_orders[i].status == StopOrderStatus::WAITING {
                let id = stop_id(self.stop_orders[i].stop_orderid);
                if same_text(id.as_str(), vt_orderid) {
                    proof {
                        assert(named(stops0[i as int]));
                        assert(is_first(stops0, named, i as int));
                        lemma_first_match_is(stops0, named, i as int);
                        lemma_count_positive(stops0, i as int, stop_waiting());
                        lemma_count_update(
                            stops0,
                            i as int,
                            stop_cancelled(stops0[i as int]),
                            stop_waiting(),
                        );
                    }
                    self.stop_orders[i].status = StopOrderStatus::CANCELLED;
                    self.waiting_stops = self.waiting_stops - 1;
                    let heard = self.stop_orders[i].clone();
                    events.push(StrategyEvent::StopOrder(heard));
                    proof {
                        assert(stops_view(self.stop_orders@) =~= stops0.update(
                            i as int,
                            stop_cancelled(stops0[i as int]),
                        ));
                        assert(events_view(events@) =~= seq![
                            StrategyEventView::StopOrder(stop_cancelled(stops0[i as int])),
                        ]);
                    }
                    return events;
                }
            }
            i = i + 1;
        }
        proof {
            lemma_first_match_none(stops0, named);
        }
        events
    }

    /// Cancels the order with the identifier `vt_orderid`: a stop order if
    /// the identifier begins with the prefix of stop orders, else a limit
    /// order. An unknown identifier changes nothing.
    pub fn cancel_order(&mut self, vt_orderid: &str) -> (events: Vec<StrategyEvent>)
        requires
            old(self).wf(),
        ensures
            final(self).wf(),
            starts_with_spec(vt_orderid@, STOPORDER_PREFIX@) ==> match first_match(
                stops_view(old(self).stop_orders@),
                waiting_stop_named(vt_orderid@),
            ) {
                Some(i) => {
                    &&& stops_view(final(self).stop_orders@) == stops_view(
                        old(self).stop_orders@,
                    ).update(i, stop_cancelled(old(self).stop_orders@[i]@))
                    &&& events_view(events@) == seq![
                        StrategyEventView::StopOrder(stop_cancelled(old(self).stop_orders@[i]@)),
                    ]
                    &&& final(self).waiting_stops == old(self).waiting_stops - 1
                    &&& *final(self) == (BacktestingEngine {
                        stop_orders: final(self).stop_orders,
                        waiting_stops: final(self).waiting_stops,
                        ..*old(self)
                    })
                },
                None => *final(self) == *old(self) && events@.len() == 0,
            },
            !starts_with_spec(vt_orderid@, STOPORDER_PREFIX@) ==> match first_match(
                old(self).limit_orders@,
                active_order_named(vt_orderid@),
            ) {
                Some(i) => {
                    &&& final(self).limit_orders@ == old(self).limit_orders@.update(
                        i,
                        order_cancelled(old(self).limit_orders@[i]),
                    )
                    &&& events_view(events@) == seq![
                        StrategyEventView::Order(order_cancelled(old(self).limit_orders@[i])),
                    ]
                    &&& *final(self) == (BacktestingEngine {
                        limit_orders: final(self).limit_orders,
                        ..*old(self)
                    })
                },
                None => *final(self) == *old(self) && events@.len() == 0,
            },
    {
        if starts_with(vt_orderid, STOPORDER_PREFIX) {
            self.cancel_stop_order(vt_orderid)
        } else {
            self.cancel_limit_order(vt_orderid)
        }
    }

    /// Cancels every active limit order and then every waiting stop order,
    /// each book in the order of its numbers, and returns what the
    /// strategy is to hear. Both active books are empty afterwards.
    pub fn cancel_all(&mut self) -> (events: Vec<StrategyEvent>)
        requires
            old(self).wf(),
        ensures
            final(self).wf(),
            final(self).limit_orders@ == Seq::new(
                old(self).limit_orders@.len(),
                |i: int|
                    if old(self).limit_orders@[i].active() {
                        order_cancelled(old(self).limit_orders@[i])
                    } else {
                        old(self).limit_orders@[i]
                    },
            ),
            stops_view(final(self).stop_orders@) == Seq::new(
                old(self).stop_orders@.len(),
                |i: int|
                    if old(self).stop_orders@[i].status == StopOrderStatus::WAITING {
                        stop_cancelled(old(self).stop_orders@[i]@)
                    } else {
                        old(self).stop_orders@[i]@
                    },
            ),
            events_view(events@) == cancel_limit_events(old(self).limit_orders@)
                + cancel_stop_events(stops_view(old(self).stop_orders@)),
            forall|i: int|
                0 <= i < final(self).limit_orders@.len() ==> !(
                #[trigger] final(self).limit_orders@[i]).active(),
            forall|i: int|
                0 <= i < final(self).stop_orders@.len() ==> (
                #[trigger] final(self).stop_orders@[i]).status != StopOrderStatus::WAITING,
            final(self).waiting_stops == 0,
            *final(self) == (BacktestingEngine {
                limit_orders: final(self).limit_orders,
                stop_orders: final(self).stop_orders,
                waiting_stops: final(self).waiting_stops,
                ..*old(self)
            }),
    {
        let mut events: Vec<StrategyEvent> = Vec::new();
        let n: usize = self.limit_orders.len();
        let ghost orders0 = self.limit_orders@;
        let ghost stops0 = stops_view(self.stop_orders@);
        let mut i: usize = 0;
        proof {
            assert(orders0.take(0) =~= Seq::<OrderData>::empty());
            assert(events_view(events@) =~= Seq::empty());
        }
        while i < n
            invariant
                i <= n,
                n == orders0.len(),
                self.limit_orders@.len() == n,
                forall|j: int|
                    0 <= j < i ==> self.limit_orders@[j] == if orders0[j].active() {
                        order_cancelled(orders0[j])
                    } else {
                        orders0[j]
                    },
                forall|j: int| i <= j < n ==> self.limit_orders@[j] == orders0[j],
                events_view(events@) == cancel_limit_events(orders0.take(i as int)),
                count_if(self.limit_orders@, order_active()) <= count_if(orders0, order_active()),
                *self == (BacktestingEngine { limit_orders: self.limit_orders, ..*old(self) }),
                old(self).wf(),
                orders0 == old(self).limit_orders@,
                stops0 == stops_view(old(self).stop_orders@),
            decreases n - i,
        {
            let ghost book = self.limit_orders@;
            let ghost heard = events_view(events@);
            proof {
                assert(orders0.take(i + 1).drop_last() =~= orders0.take(i as int));
                assert(orders0.take(i + 1).last() == orders0[i as int]);
            }
            if self.limit_orders[i].status.is_active() {
                self.limit_orders[i].status = Status::CANCELLED;
                let gone = self.limit_orders[i].clone();
                events.push(StrategyEvent::Order(gone));
                proof {
                    assert(self.limit_orders@ =~= book.update(
                        i as int,
                        order_cancelled(orders0[i as int]),
                    ));
                    lemma_count_update(
                        book,
                        i as int,
                        order_cancelled(orders0[i as int]),
                        order_active(),
                    );
                    assert(events_view(events@) =~= heard.push(
                        StrategyEventView::Order(order_cancelled(orders0[i as int])),
                    ));
                }
            }
            i = i + 1;
        }
        let ghost limit_heard = events_view(events@);
        let ghost orders1 = self.limit_orders@;
        let m: usize = self.stop_orders.len();
        let mut k: usize = 0;
        proof {
            assert(orders0.take(n as int) =~= orders0);
            assert(orders1 =~= Seq::new(
                orders0.len(),
                |i: int|
                    if orders0[i].active() {
                        order_cancelled(orders0[i])
                    } else {
                        orders0[i]
                    },
            ));
            assert(orders_numbered(orders1));
            assert forall|j: int| 0 <= j < orders1.len() implies !order_active()(
                #[trigger] orders1[j],
            ) by {}
            lemma_count_none(orders1, order_active());
            assert(stops0.take(0) =~= Seq::<StopOrderView>::empty());
            assert(limit_heard + Seq::<StrategyEventView>::empty() =~= limit_heard);
        }
        while k < m
            invariant
                k <= m,
                m == stops0.len(),
                self.stop_orders@.len() == m,
                limit_heard == cancel_limit_events(orders0),
                old(self).wf(),
                orders0 == old(self).limit_orders@,
                stops0 == stops_view(old(self).stop_orders@),
                self.limit_orders@ == orders1,
                orders1.len() == orders0.len(),
                orders_numbered(orders1),
                count_if(orders1, order_active()) == 0,
                orders1 == Seq::new(
                    orders0.len(),
                    |i: int|
                        if orders0[i].active() {
                            order_cancelled(orders0[i])
                        } else {
                            orders0[i]
                        },
                ),
                forall|j: int|
                    0 <= j < k ==> (#[trigger] self.stop_orders@[j])@ == if stops0[j].status
                        == StopOrderStatus::WAITING {
                        stop_cancelled(stops0[j])
                    } else {
                        stops0[j]
                    },
                forall|j: int| k <= j < m ==> (#[trigger] self.stop_orders@[j])@ == stops0[j],
                events_view(events@) == limit_heard + cancel_stop_events(stops0.take(k as int)),
                self.waiting_stops == count_if(stops_view(self.stop_orders@), stop_waiting()),
                self.waiting_stops <= old(self).waiting_stops,
                *self == (BacktestingEngine {
                    limit_orders: self.limit_orders,
                    stop_orders: self.stop_orders,
                    waiting_stops: self.waiting_stops,
                    ..*old(self)
                }),
            decreases m - k,
        {
            let ghost book = stops_view(self.stop_orders@);
            let ghost heard = events_view(events@);
            proof {
                assert(stops0.take(k + 1).drop_last() =~= stops0.take(k as int));
                assert(stops0.take(k + 1).last() == stops0[k as int]);
                assert(book[k as int] == self.stop_orders@[k as int]@);
            }
            if self.stop_orders[k].status == StopOrderStatus::WAITING {
                proof {
                    lemma_count_positive(book, k as int, stop_waiting());
                    lemma_count_update(
                        book,
                        k as int,
                        stop_cancelled(stops0[k as int]),
                        stop_waiting(),
                    );
                }
                self.stop_orders[k].status = StopOrderStatus::CANCELLED;
                self.waiting_stops = self.waiting_stops - 1;
                let gone = self.stop_orders[k].clone();
                events.push(StrategyEvent::StopOrder(gone));
                proof {
                    assert(stops_view(self.stop_orders@) =~= book.update(
                        k as int,
                        stop_cancelled(stops0[k as int]),
                    ));
                    assert(events_view(events@) =~= heard.push(
                        StrategyEventView::StopOrder(stop_cancelled(stops0[k as int])),
                    ));
                    assert(limit_heard + cancel_stop_events(stops0.take(k as int)).push(
                        StrategyEventView::StopOrder(stop_cancelled(stops0[k as int])),
                    ) =~= (limit_heard + cancel_stop_events(stops0.take(k as int))).push(
                        StrategyEventView::StopOrder(stop_cancelled(stops0[k as int])),
                    ));
                }
            } else {
                proof {
                    assert(stops_view(self.stop_orders@) =~= book);
                }
            }
            k = k + 1;
        }
        proof {
            assert(stops0.take(m as int) =~= stops0);
            let after = stops_view(self.stop_orders@);
            assert forall|j: int| 0 <= j < after.len() implies !stop_waiting()(
                #[trigger] after[j],
            ) by {
                assert(after[j] == self.stop_orders@[j]@);
            }
            lemma_count_none(after, stop_waiting());
            assert(stops_view(self.stop_orders@) =~= Seq::new(
                stops0.len(),
                |i: int|
                    if old(self).stop_orders@[i].status == StopOrderStatus::WAITING {
                        stop_cancelled(old(self).stop_orders@[i]@)
                    } else {
                        old(self).stop_orders@[i]@
                    },
            ));
            assert(stops_numbered(stops_view(self.stop_orders@)));
        }
        events
    }

    /// The identifiers of the limit orders rise in the order of the book:
    /// an order made earlier has the lesser identifier.
    pub proof fn lemma_order_ids_rise(&self, i: int, j: int)
        requires
            self.wf(),
            0 <= i < j < self.limit_orders@.len(),
        ensures
            lex_less(
                gateway_id_text(self.limit_orders@[i].orderid as nat),
                gateway_id_text(self.limit_orders@[j].orderid as nat),
            ),
    {
        lemma_ids_rise((i + 1) as nat, (j + 1) as nat);
    }

    /// The identifiers of the stop orders rise in the order of the book.
    pub proof fn lemma_stop_ids_rise(&self, i: int, j: int)
        requires
            self.wf(),
            0 <= i < j < self.stop_orders@.len(),
        ensures
            lex_less(
                stop_id_text(self.stop_orders@[i].stop_orderid as nat),
                stop_id_text(self.stop_orders@[j].stop_orderid as nat),
            ),
    {
        assert(stops_view(self.stop_orders@)[i].stop_orderid == i + 1);
        assert(stops_view(self.stop_orders@)[j].stop_orderid == j + 1);
        lemma_ids_rise((i + 1) as nat, (j + 1) as nat);
    }

    /// The identifiers of the trades rise in the order in which the
    /// trades were made.
    pub proof fn lemma_trade_ids_rise(&self, i: int, j: int)
        requires
            self.wf(),
            0 <= i < j < self.trades@.len(),
        ensures
            lex_less(
                gateway_id_text(self.trades@[i].tradeid as nat),
                gateway_id_text(self.trades@[j].tradeid as nat),
            ),
    {
        lemma_count_le_len(self.limit_orders@, order_active());
        lemma_ids_rise((i + 1) as nat, (j + 1) as nat);
    }

    /// At most one active limit order bears an identifier.
    pub proof fn lemma_one_order_per_id(&self, text: Seq<char>, i: int, j: int)
        requires
            self.wf(),
            0 <= i < self.limit_orders@.len(),
            0 <= j < self.limit_orders@.len(),
            active_order_named(text)(self.limit_orders@[i]),
            active_order_named(text)(self.limit_orders@[j]),
        ensures
            i == j,
    {
        if i != j {
            lemma_ids_differ((i + 1) as nat, (j + 1) as nat);
        }
    }
}

} // verus!
