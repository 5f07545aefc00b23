//! Replaying history: one record at a time, and the run as a whole.

use super::base::{
    events_view, stops_view, BacktestingMode, StrategyEvent, StrategyEventView,
};
use super::daily::{dated_before, day_closed, days_view, DailyResult, DailyResultView};
use super::engine::{days_ascending, has_day, trades_accounted, BacktestingEngine, ReplayPhase};
use super::matching::{
    after_limit_cross, after_stop_cross, limit_events, limit_fills, stop_events, stop_fills,
    stop_spawns,
};
use crate::clock::{local_date, local_date_spec};
use crate::counting::lemma_count_split;
use crate::error::ErrorKind;
use crate::trader::object::{BarData, MixData, TickData};
use vstd::prelude::*;

verus! {

/// What the caller of a run is to do next.
#[derive(Debug)]
pub enum ReplayStep {
    /// Call the strategy's `on_init`.
    Init,
    /// Call the strategy's `on_start`.
    Start,
    /// The next record was taken and the limit orders were crossed with
    /// it: hand the events to the strategy in their order.
    Crossed { events: Vec<StrategyEvent> },
    /// The stop orders were crossed with the record: hand the events to
    /// the strategy in their order, then the record itself, `on_bar` or
    /// `on_tick`. Where `progress` is set, report it: it counts the tenths
    /// of the history that have been replayed.
    Record { events: Vec<StrategyEvent>, record: MixData, progress: Option<usize> },
    /// Call the strategy's `on_stop`.
    Stop,
    /// The run is over.
    Finished,
}

/// How many records are replayed between two reports of progress: a tenth
/// of the history, and at least one.
pub open spec fn batch_size_spec(total: int) -> int {
    if total / 10 >= 1 {
        total / 10
    } else {
        1
    }
}

/// The progress to report with the record at place `i` of `total`.
pub open spec fn progress_mark(i: int, total: int) -> Option<usize> {
    if i % batch_size_spec(total) == 0 {
        Some((i / batch_size_spec(total)) as usize)
    } else {
        None
    }
}

impl BacktestingEngine {
    /// `post` is `pre` after its limit orders were crossed with its
    /// record, and `events` is what the strategy is to hear.
    pub open spec fn limits_crossed(pre: Self, post: Self, events: Seq<StrategyEventView>) -> bool {
        let q = pre.limit_quote_now();
        let now = pre.datetime->0;
        let first = (pre.trades@.len() + 1) as int;
        &&& post.limit_orders@ == Seq::new(
            pre.limit_orders@.len(),
            |i: int| after_limit_cross(pre.limit_orders@[i], q),
        )
        &&& post.trades@ == pre.trades@ + limit_fills(pre.limit_orders@, q, first, now)
        &&& events == limit_events(pre.limit_orders@, q, first, now, pre.pos as int)
        &&& post == (BacktestingEngine {
            limit_orders: post.limit_orders,
            trades: post.trades,
            pos: post.pos,
            ..pre
        })
    }

    /// `post` is `pre` after its stop orders were crossed with its record,
    /// and `events` is what the strategy is to hear.
    pub open spec fn stops_crossed(pre: Self, post: Self, events: Seq<StrategyEventView>) -> bool {
        let q = pre.stop_quote_now();
        let now = pre.datetime->0;
        let stops = stops_view(pre.stop_orders@);
        let first_order = (pre.limit_orders@.len() + 1) as int;
        let first_trade = (pre.trades@.len() + 1) as int;
        &&& stops_view(post.stop_orders@) == Seq::new(
            stops.len(),
            |i: int| after_stop_cross(stops, i, q, first_order),
        )
        &&& post.limit_orders@ == pre.limit_orders@ + stop_spawns(
            stops,
            q,
            first_order,
            now,
            pre.symbol,
            pre.exchange,
        )
        &&& post.trades@ == pre.trades@ + stop_fills(
            stops,
            q,
            first_order,
            first_trade,
            now,
            pre.symbol,
            pre.exchange,
        )
        &&& events == stop_events(
            stops,
            q,
            first_order,
            first_trade,
            now,
            pre.symbol,
            pre.exchange,
            pre.pos as int,
        )
        &&& post == (BacktestingEngine {
            stop_orders: post.stop_orders,
            waiting_stops: post.waiting_stops,
            limit_orders: post.limit_orders,
            trades: post.trades,
            pos: post.pos,
            ..pre
        })
    }

    /// The table of days once the close that is pending has been booked.
    pub open spec fn days_settled(&self) -> Seq<DailyResultView> {
        match self.pending_close {
            Some(price) => day_closed(
                days_view(self.daily_results@),
                local_date_spec(self.datetime->0),
                price,
            ),
            None => days_view(self.daily_results@),
        }
    }

    /// Whether the engine can take a record: a record of the kind that the
    /// mode asks for, or of the other kind where one of the mode's kind is
    /// there already.
    pub open spec fn can_take(&self, record: MixData) -> bool {
        match record {
            MixData::BarData(_) => self.mode == BacktestingMode::BAR || self.tick is Some,
            MixData::TickData(_) => self.mode == BacktestingMode::TICK || self.bar is Some,
        }
    }

    /// `post` is `pre` after it took `record`: the close of the record
    /// before is booked, the record is the current one and the clock is at
    /// its time, the record's close is pending, and the limit orders are
    /// crossed with it.
    pub open spec fn record_taken(
        pre: Self,
        post: Self,
        record: MixData,
        events: Seq<StrategyEventView>,
    ) -> bool {
        let set = BacktestingEngine {
            bar: match record {
                MixData::BarData(b) => Some(b),
                MixData::TickData(_) => pre.bar,
            },
            tick: match record {
                MixData::TickData(t) => Some(t),
                MixData::BarData(_) => pre.tick,
            },
            datetime: Some(record.time()),
            pending_close: Some(record.closing_price()),
            daily_results: post.daily_results,
            ..pre
        };
        &&& days_view(post.daily_results@) == pre.days_settled()
        &&& Self::limits_crossed(set, post, events)
    }

    /// Books `price` as the close of the clock's date: the day of that
    /// date gets the price, and where the date has no day yet one is made.
    /// No close is pending afterwards.
    pub fn update_daily_close(&mut self, price: i64)
        requires
            old(self).wf(),
            old(self).datetime is Some,
        ensures
            final(self).wf(),
            days_view(final(self).daily_results@) == day_closed(
                days_view(old(self).daily_results@),
                local_date_spec(old(self).datetime->0),
                price,
            ),
            *final(self) == (BacktestingEngine {
                daily_results: final(self).daily_results,
                pending_close: None,
                ..*old(self)
            }),
    {
        let d: i64 = local_date(self.datetime.unwrap());
        let n: usize = self.daily_results.len();
        let ghost days0 = self.daily_results@;
        let ghost views0 = days_view(days0);
        let mut k: usize = n;
        while k > 0 && self.daily_results[k - 1].date >= d
            invariant
                k <= n,
                n == days0.len(),
                *self == *old(self),
                days0 == self.daily_results@,
                days_ascending(days0),
                forall|j: int| k <= j < n ==> days0[j].date >= d,
            decreases k,
        {
            k = k - 1;
        }
        proof {
            assert forall|j: int| 0 <= j < k implies dated_before(d)(#[trigger] views0[j]) by {
                assert(days0[j].date < days0[k - 1].date || j == k - 1);
            }
            assert forall|j: int| k <= j < views0.len() implies !dated_before(d)(
                #[trigger] views0[j],
            ) by {}
            lemma_count_split(views0, dated_before(d), k as int);
        }
        if k < n && self.daily_results[k].date == d {
            self.daily_results[k].close_price = price;
            proof {
                let days1 = self.daily_results@;
                assert(days_view(days1) =~= views0.update(
                    k as int,
                    DailyResultView { close_price: price, ..views0[k as int] },
                ));
                assert forall|date: i64| has_day(days0, date) implies has_day(days1, date) by {
                    let i = choose|i: int| 0 <= i < days0.len() && (#[trigger] days0[i]).date == date;
                    assert(days1[i].date == date);
                }
                assert(days1[k as int].date == d);
            }
        } else {
            let day = DailyResult::new(d, price);
            self.daily_results.insert(k, day);
            proof {
                let days1 = self.daily_results@;
                assert(days_view(days1) =~= views0.insert(k as int, day@));
                assert forall|date: i64| has_day(days0, date) implies has_day(days1, date) by {
                    let i = choose|i: int| 0 <= i < days0.len() && (#[trigger] days0[i]).date == date;
                    if i < k {
                        assert(days1[i].date == date);
                    } else {
                        assert(days1[i + 1].date == date);
                    }
                }
                assert(days1[k as int].date == d);
                assert forall|i: int, j: int| 0 <= i < j < days1.len() implies days1[i].date
                    < days1[j].date by {
                    let a = if i < k {
                        i
                    } else {
                        i - 1
                    };
                    let b = if j < k {
                        j
                    } else {
                        j - 1
                    };
                    if i != k && j != k {
                        assert(days0[a].date < days0[b].date);
                    } else if i == k {
                        assert(days0[b].date >= d);
                    } else {
                        assert(days0[a].date < d) by {
                            assert(dated_before(d)(views0[a]));
                        }
                    }
                }
            }
        }
        self.pending_close = None;
        proof {
            let days1 = self.daily_results@;
            assert(has_day(days1, d));
            assert(trades_accounted(self.trades@, days1, None)) by {
                assert forall|t: int| 0 <= t < self.trades@.len() implies has_day(
                    days1,
                    local_date_spec((#[trigger] self.trades@[t]).datetime),
                ) by {
                    let date = local_date_spec(self.trades@[t].datetime);
                    if !has_day(days0, date) {
                        assert(old(self).open_date() == Some(date));
                    }
                }
            }
        }
    }

    /// Takes a bar as the current record: books the close that is still
    /// pending, sets the clock to the bar's time and crosses the limit
    /// orders. Returns what the strategy is to hear. The bar's close is
    /// pending afterwards, and the stop orders have yet to be crossed.
    pub fn new_bar(&mut self, bar: &BarData) -> (events: Vec<StrategyEvent>)
        requires
            old(self).wf(),
            old(self).can_take(MixData::BarData(*bar)),
        ensures
            final(self).wf(),
            final(self).has_record(),
            Self::record_taken(
                *old(self),
                *final(self),
                MixData::BarData(*bar),
                events_view(events@),
            ),
    {
        match self.pending_close {
            Some(price) => {
                self.update_daily_close(price);
            },
            None => {},
        }
        self.bar = Some(bar.clone());
        self.datetime = Some(bar.datetime);
        self.pending_close = Some(bar.close_price);
        self.cross_limit_order()
    }

    /// Takes a tick as the current record: books the close that is still
    /// pending, sets the clock to the tick's time and crosses the limit
    /// orders. Returns what the strategy is to hear. The tick's last price
    /// is pending as the close afterwards, and the stop orders have yet to
    /// be crossed.
    pub fn new_tick(&mut self, tick: &TickData) -> (events: Vec<StrategyEvent>)
        requires
            old(self).wf(),
            old(self).can_take(MixData::TickData(*tick)),
        ensures
            final(self).wf(),
            final(self).has_record(),
            Self::record_taken(
                *old(self),
                *final(self),
                MixData::TickData(*tick),
                events_view(events@),
            ),
    {
        match self.pending_close {
            Some(price) => {
                self.update_daily_close(price);
            },
            None => {},
        }
        self.tick = Some(tick.clone());
        self.datetime = Some(tick.datetime);
        self.pending_close = Some(tick.last_price);
        self.cross_limit_order()
    }

    /// `post` and `r` are what a step of the replay makes of `pre` before
    /// a record.
    ///
    /// The close that is pending is booked first. Then, where history is
    /// left: a run that was cancelled ends with that error, a record that
    /// the engine cannot take ends it with a data-source error, and any
    /// other record is taken, its limit orders are crossed and the events
    /// are handed out. Where no history is left the strategy is to be
    /// stopped and the run is over.
    pub open spec fn replayed(
        pre: Self,
        post: Self,
        cancelled: bool,
        r: Result<ReplayStep, ErrorKind>,
    ) -> bool {
        let ended = BacktestingEngine {
            trading: true,
            phase: ReplayPhase::Finished,
            pending_close: None,
            daily_results: post.daily_results,
            ..pre
        };
        if pre.cursor >= pre.history_data@.len() {
            &&& r matches Ok(ReplayStep::Stop)
            &&& days_view(post.daily_results@) == pre.days_settled()
            &&& post == ended
        } else if cancelled {
            &&& r == Err::<ReplayStep, ErrorKind>(ErrorKind::Cancelled)
            &&& days_view(post.daily_results@) == pre.days_settled()
            &&& post == ended
        } else if !pre.can_take(pre.history_data@[pre.cursor as int]) {
            &&& r == Err::<ReplayStep, ErrorKind>(ErrorKind::DataSource)
            &&& days_view(post.daily_results@) == pre.days_settled()
            &&& post == ended
        } else {
            &&& r matches Ok(ReplayStep::Crossed { events })
            &&& Self::record_taken(
                BacktestingEngine { trading: true, phase: ReplayPhase::Crossing, ..pre },
                post,
                pre.history_data@[pre.cursor as int],
                events_view(r->Ok_0->Crossed_events@),
            )
        }
    }

    /// `post` and `r` are what a step of the replay makes of `pre` after
    /// the limit orders were crossed with a record: the stop orders are
    /// crossed with it, and the events and the record are handed out. A
    /// run that has lost its record in between ends with a contract error.
    pub open spec fn record_replayed(pre: Self, post: Self, r: Result<ReplayStep, ErrorKind>) -> bool {
        if pre.has_record() && pre.cursor < pre.history_data@.len() {
            &&& r matches Ok(ReplayStep::Record { events, record, progress })
            &&& r->Ok_0->record == pre.history_data@[pre.cursor as int]
            &&& r->Ok_0->progress == progress_mark(
                pre.cursor as int,
                pre.history_data@.len() as int,
            )
            &&& Self::stops_crossed(
                BacktestingEngine {
                    phase: ReplayPhase::Replaying,
                    cursor: (pre.cursor + 1) as usize,
                    ..pre
                },
                post,
                events_view(r->Ok_0->Record_events@),
            )
        } else {
            &&& r == Err::<ReplayStep, ErrorKind>(ErrorKind::Contract)
            &&& post == (BacktestingEngine { phase: ReplayPhase::Finished, ..pre })
        }
    }

    /// Advances the run by one step and says what the caller is to do
    /// next. The caller acts on the answer and calls again, until the
    /// answer is `Finished` or an error.
    ///
    /// The first step asks for the strategy to be initialised, the second
    /// marks it initialised and asks for it to be started, and the third
    /// marks it trading and begins the replay. Every record of the history
    /// takes two steps, in the order of the history. The first books the
    /// close of the record before, moves the clock to the record, crosses
    /// the limit orders and hands out their events; `cancelled` is looked
    /// at before it. The second crosses the stop orders and hands out
    /// their events and the record. What the strategy does on hearing the
    /// events of the limit orders is so in the books before the stop
    /// orders are crossed.
    pub fn run_backtesting(&mut self, cancelled: bool) -> (r: Result<ReplayStep, ErrorKind>)
        requires
            old(self).wf(),
        ensures
            final(self).wf(),
            match old(self).phase {
                ReplayPhase::Idle => {
                    &&& r matches Ok(ReplayStep::Init)
                    &&& *final(self) == (BacktestingEngine {
                        phase: ReplayPhase::Initialising,
                        cursor: 0,
                        ..*old(self)
                    })
                },
                ReplayPhase::Initialising => {
                    &&& r matches Ok(ReplayStep::Start)
                    &&& *final(self) == (BacktestingEngine {
                        inited: true,
                        phase: ReplayPhase::Starting,
                        ..*old(self)
                    })
                },
                ReplayPhase::Starting => Self::replayed(*old(self), *final(self), cancelled, r),
                ReplayPhase::Replaying => Self::replayed(*old(self), *final(self), cancelled, r),
                ReplayPhase::Crossing => Self::record_replayed(*old(self), *final(self), r),
                ReplayPhase::Finished => {
                    &&& r matches Ok(ReplayStep::Finished)
                    &&& *final(self) == *old(self)
                },
            },
    {
        match self.phase {
            ReplayPhase::Idle => {
                self.phase = ReplayPhase::Initialising;
                self.cursor = 0;
                return Ok(ReplayStep::Init);
            },
            ReplayPhase::Initialising => {
                self.inited = true;
                self.phase = ReplayPhase::Starting;
                return Ok(ReplayStep::Start);
            },
            ReplayPhase::Finished => {
                return Ok(ReplayStep::Finished);
            },
            ReplayPhase::Crossing => {
                return self.replay_stops();
            },
            _ => {},
        }
        self.trading = true;
        match self.pending_close {
            Some(price) => {
                self.update_daily_close(price);
            },
            None => {},
        }
        let total: usize = self.history_data.len();
        let i: usize = self.cursor;
        if i >= total {
            self.phase = ReplayPhase::Finished;
            return Ok(ReplayStep::Stop);
        }
        if cancelled {
            self.phase = ReplayPhase::Finished;
            return Err(ErrorKind::Cancelled);
        }
        let record = self.history_data[i].clone();
        let fits: bool = match &record {
            MixData::BarData(_) => self.mode == BacktestingMode::BAR || self.tick.is_some(),
            MixData::TickData(_) => self.mode == BacktestingMode::TICK || self.bar.is_some(),
        };
        if !fits {
            self.phase = ReplayPhase::Finished;
            return Err(ErrorKind::DataSource);
        }
        self.phase = ReplayPhase::Crossing;
        let events = match &record {
            MixData::BarData(bar) => self.new_bar(bar),
            MixData::TickData(tick) => self.new_tick(tick),
        };
        Ok(ReplayStep::Crossed { events })
    }

    /// The second step of a record: crosses the stop orders and hands out
    /// the record.
    fn replay_stops(&mut self) -> (r: Result<ReplayStep, ErrorKind>)
        requires
            old(self).wf(),
            old(self).phase == ReplayPhase::Crossing,
        ensures
            final(self).wf(),
            Self::record_replayed(*old(self), *final(self), r),
    {
        let total: usize = self.history_data.len();
        let i: usize = self.cursor;
        let has_slot: bool = match self.mode {
            BacktestingMode::BAR => self.bar.is_some(),
            BacktestingMode::TICK => self.tick.is_some(),
        };
        if !has_slot || self.datetime.is_none() || i >= total {
            self.phase = ReplayPhase::Finished;
            return Err(ErrorKind::Contract);
        }
        self.phase = ReplayPhase::Replaying;
        self.cursor = i + 1;
        let events = self.cross_stop_order();
        let record = self.history_data[i].clone();
        let batch: usize = if total / 10 >= 1 {
            total / 10
        } else {
            1
        };
        let progress: Option<usize> = if i % batch == 0 {
            Some(i / batch)
        } else {
            None
        };
        Ok(ReplayStep::Record { events, record, progress })
    }

    /// Whether two engines are in the same state of a run: the same
    /// parameters and history, the same clock and record, and books and
    /// days that hold the same values.
    pub open spec fn same_run(a: Self, b: Self) -> bool {
        &&& a.limit_orders@ == b.limit_orders@
        &&& stops_view(a.stop_orders@) == stops_view(b.stop_orders@)
        &&& a.trades@ == b.trades@
        &&& days_view(a.daily_results@) == days_view(b.daily_results@)
        &&& a.history_data@ == b.history_data@
        &&& a.waiting_stops == b.waiting_stops
        &&& a.pos == b.pos
        &&& a.symbol == b.symbol
        &&& a.exchange == b.exchange
        &&& a.mode == b.mode
        &&& a.bar == b.bar
        &&& a.tick == b.tick
        &&& a.datetime == b.datetime
        &&& a.pending_close == b.pending_close
        &&& a.phase == b.phase
        &&& a.cursor == b.cursor
        &&& a.inited == b.inited
        &&& a.trading == b.trading
    }

    /// Whether two steps of a run tell the caller the same.
    pub open spec fn same_step(
        x: Result<ReplayStep, ErrorKind>,
        y: Result<ReplayStep, ErrorKind>,
    ) -> bool {
        match (x, y) {
            (Ok(ReplayStep::Init), Ok(ReplayStep::Init)) => true,
            (Ok(ReplayStep::Start), Ok(ReplayStep::Start)) => true,
            (Ok(ReplayStep::Stop), Ok(ReplayStep::Stop)) => true,
            (Ok(ReplayStep::Finished), Ok(ReplayStep::Finished)) => true,
            (
                Ok(ReplayStep::Crossed { events: heard_x }),
                Ok(ReplayStep::Crossed { events: heard_y }),
            ) => events_view(heard_x@) == events_view(heard_y@),
            (
                Ok(ReplayStep::Record { events: heard_x, record: record_x, progress: mark_x }),
                Ok(ReplayStep::Record { events: heard_y, record: record_y, progress: mark_y }),
            ) => events_view(heard_x@) == events_view(heard_y@) && record_x == record_y && mark_x
                == mark_y,
            (Err(error_x), Err(error_y)) => error_x == error_y,
            _ => false,
        }
    }

    /// A step of the replay is a function of the state of the run: from
    /// the same state it leads to the same state, with the same trades, and
    /// tells the caller the same. A run that is repeated from the same
    /// state with the same orders therefore makes the same trades.
    pub proof fn lemma_replay_is_deterministic(
        a: Self,
        b: Self,
        a_next: Self,
        b_next: Self,
        cancelled: bool,
        x: Result<ReplayStep, ErrorKind>,
        y: Result<ReplayStep, ErrorKind>,
    )
        requires
            Self::same_run(a, b),
            a.wf(),
            b.wf(),
            a_next.wf(),
            b_next.wf(),
            a.phase == ReplayPhase::Crossing ==> Self::record_replayed(a, a_next, x)
                && Self::record_replayed(b, b_next, y),
            a.phase == ReplayPhase::Starting || a.phase == ReplayPhase::Replaying
                ==> Self::replayed(a, a_next, cancelled, x) && Self::replayed(
                b,
                b_next,
                cancelled,
                y,
            ),
            a.phase == ReplayPhase::Starting || a.phase == ReplayPhase::Replaying || a.phase
                == ReplayPhase::Crossing,
        ensures
            Self::same_run(a_next, b_next),
            Self::same_step(x, y),
            a_next.trades@ == b_next.trades@,
    {
        assert(a.days_settled() == b.days_settled());
    }
}

} // verus!
