//! The table of daily results: every trade is put to the day of its date
//! and the days are accounted one after the other.

use super::daily::{
    accounted, day_in_range, day_totals, days_view, effective_pre_close, DailyResult,
    DailyResultView, Rates,
};
use super::engine::{days_ascending, has_day, BacktestingEngine};
use super::matching::{lemma_signed_volume_sum_push, signed_volume_sum};
use crate::clock::{local_date, local_date_spec};
use crate::error::ErrorKind;
use crate::numeric::UNIT;
use crate::trader::object::TradeData;
use vstd::prelude::*;

verus! {

/// The table of daily results by columns. Place `k` of every column
/// belongs to the day at place `k` of `date`.
#[derive(Debug)]
pub struct DailyTable {
    pub date: Vec<i64>,
    pub close_price: Vec<i64>,
    pub pre_close: Vec<i64>,
    pub trade_count: Vec<u64>,
    pub start_pos: Vec<i128>,
    pub end_pos: Vec<i128>,
    pub turnover: Vec<i128>,
    pub commission: Vec<i128>,
    pub slippage: Vec<i128>,
    pub trading_pnl: Vec<i128>,
    pub holding_pnl: Vec<i128>,
    pub total_pnl: Vec<i128>,
    pub net_pnl: Vec<i128>,
}

/// Whether the columns of a table hold the figures of the days.
pub open spec fn table_of(table: DailyTable, days: Seq<DailyResultView>) -> bool {
    &&& table.date@ == Seq::new(days.len(), |k: int| days[k].date)
    &&& table.close_price@ == Seq::new(days.len(), |k: int| days[k].close_price)
    &&& table.pre_close@ == Seq::new(days.len(), |k: int| days[k].pre_close)
    &&& table.trade_count@ == Seq::new(days.len(), |k: int| days[k].trade_count)
    &&& table.start_pos@ == Seq::new(days.len(), |k: int| days[k].start_pos)
    &&& table.end_pos@ == Seq::new(days.len(), |k: int| days[k].end_pos)
    &&& table.turnover@ == Seq::new(days.len(), |k: int| days[k].turnover)
    &&& table.commission@ == Seq::new(days.len(), |k: int| days[k].commission)
    &&& table.slippage@ == Seq::new(days.len(), |k: int| days[k].slippage)
    &&& table.trading_pnl@ == Seq::new(days.len(), |k: int| days[k].trading_pnl)
    &&& table.holding_pnl@ == Seq::new(days.len(), |k: int| days[k].holding_pnl)
    &&& table.total_pnl@ == Seq::new(days.len(), |k: int| days[k].total_pnl)
    &&& table.net_pnl@ == Seq::new(days.len(), |k: int| days[k].net_pnl)
}

/// The trades of a list that fall on a date, in their order.
pub open spec fn trades_on(trades: Seq<TradeData>, date: i64) -> Seq<TradeData>
    decreases trades.len(),
{
    if trades.len() == 0 {
        Seq::empty()
    } else {
        let before = trades_on(trades.drop_last(), date);
        if local_date_spec(trades.last().datetime) == date {
            before.push(trades.last())
        } else {
            before
        }
    }
}

/// The days with the trades of a list put to them: each day holds the
/// trades that fall on its date, and no figures yet.
pub open spec fn bucketed(days: Seq<DailyResultView>, trades: Seq<TradeData>) -> Seq<
    DailyResultView,
> {
    Seq::new(
        days.len(),
        |k: int| DailyResultView { trades: trades_on(trades, days[k].date), ..days[k] },
    )
}

/// The close that the day at place `k` is marked against: that of the day
/// before it, and none for the first day.
pub open spec fn close_before(days: Seq<DailyResultView>, k: int) -> i64 {
    if k <= 0 {
        0
    } else {
        days[k - 1].close_price
    }
}

/// The position that the day at place `k` starts with: the position that
/// the day before it ends with, and zero for the first day.
pub open spec fn start_pos_at(days: Seq<DailyResultView>, k: int, r: Rates) -> i128
    decreases k,
{
    if k <= 0 {
        0
    } else {
        accounted(days[k - 1], close_before(days, k - 1), start_pos_at(days, k - 1, r), r).end_pos
    }
}

/// The day at place `k` after the table was accounted.
pub open spec fn accounted_at(days: Seq<DailyResultView>, k: int, r: Rates) -> DailyResultView {
    accounted(days[k], close_before(days, k), start_pos_at(days, k, r), r)
}

/// Whether every day of the table can be accounted in 128 bits.
pub open spec fn table_in_range(days: Seq<DailyResultView>, r: Rates) -> bool {
    forall|k: int|
        0 <= k < days.len() ==> day_in_range(
            (#[trigger] days[k]).trades,
            start_pos_at(days, k, r),
            days[k].close_price,
            close_before(days, k),
            r,
        )
}

/// The table after it was accounted.
pub open spec fn accounted_table(days: Seq<DailyResultView>, r: Rates) -> Seq<DailyResultView> {
    Seq::new(days.len(), |k: int| accounted_at(days, k, r))
}

/// The position changes of the trades that fall on the first `k` of a list
/// of dates.
pub open spec fn bucket_total(trades: Seq<TradeData>, dates: Seq<i64>, k: int) -> int
    decreases k,
{
    if k <= 0 {
        0
    } else {
        bucket_total(trades, dates, k - 1) + signed_volume_sum(trades_on(trades, dates[k - 1]))
    }
}

/// Whether one of the first `k` dates is `d`.
pub open spec fn dated_among(dates: Seq<i64>, k: int, d: i64) -> bool {
    exists|j: int| 0 <= j < k && dates[j] == d
}

/// One more trade adds its position change to the buckets exactly if its
/// date is among theirs.
proof fn lemma_bucket_total_push(trades: Seq<TradeData>, t: TradeData, dates: Seq<i64>, k: int)
    requires
        0 <= k <= dates.len(),
        forall|i: int, j: int| 0 <= i < j < dates.len() ==> dates[i] != dates[j],
    ensures
        bucket_total(trades.push(t), dates, k) == bucket_total(trades, dates, k) + if dated_among(
            dates,
            k,
            local_date_spec(t.datetime),
        ) {
            t.signed_volume()
        } else {
            0
        },
    decreases k,
{
    let d = local_date_spec(t.datetime);
    if k > 0 {
        lemma_bucket_total_push(trades, t, dates, k - 1);
        assert(trades.push(t).drop_last() =~= trades);
        if dates[k - 1] == d {
            lemma_signed_volume_sum_push(trades_on(trades, d), t);
            assert(dated_among(dates, k, d));
            if dated_among(dates, k - 1, d) {
                let j = choose|j: int| 0 <= j < k - 1 && dates[j] == d;
                assert(dates[j] != dates[k - 1]);
            }
        } else {
            if dated_among(dates, k, d) {
                let j = choose|j: int| 0 <= j < k && dates[j] == d;
                assert(0 <= j < k - 1 && dates[j] == d);
            }
            if dated_among(dates, k - 1, d) {
                let j = choose|j: int| 0 <= j < k - 1 && dates[j] == d;
                assert(0 <= j < k && dates[j] == d);
            }
        }
    }
}

/// Where the dates differ from each other and every trade falls on one of
/// them, the buckets of all dates hold the position changes of all trades.
pub proof fn lemma_buckets_hold_all(trades: Seq<TradeData>, dates: Seq<i64>)
    requires
        forall|i: int, j: int| 0 <= i < j < dates.len() ==> dates[i] != dates[j],
        forall|k: int|
            0 <= k < trades.len() ==> dated_among(
                dates,
                dates.len() as int,
                local_date_spec((#[trigger] trades[k]).datetime),
            ),
    ensures
        bucket_total(trades, dates, dates.len() as int) == signed_volume_sum(trades),
    decreases trades.len(),
{
    if trades.len() == 0 {
        assert(trades =~= Seq::<TradeData>::empty());
        lemma_bucket_total_empty(dates, dates.len() as int);
    } else {
        let head = trades.drop_last();
        let t = trades.last();
        assert forall|k: int| 0 <= k < head.len() implies dated_among(
            dates,
            dates.len() as int,
            local_date_spec((#[trigger] head[k]).datetime),
        ) by {
            assert(head[k] == trades[k]);
        }
        lemma_buckets_hold_all(head, dates);
        lemma_bucket_total_push(head, t, dates, dates.len() as int);
        assert(head.push(t) =~= trades);
        assert(dated_among(dates, dates.len() as int, local_date_spec(t.datetime))) by {
            assert(t == trades[trades.len() - 1]);
        }
    }
}

proof fn lemma_bucket_total_empty(dates: Seq<i64>, k: int)
    ensures
        bucket_total(Seq::<TradeData>::empty(), dates, k) == 0,
    decreases k,
{
    if k > 0 {
        lemma_bucket_total_empty(dates, k - 1);
    }
}

/// The position after a list of trades is the position before it and
/// their position changes.
pub proof fn lemma_day_totals_position(
    trades: Seq<TradeData>,
    start_pos: int,
    close: i64,
    r: Rates,
)
    ensures
        day_totals(trades, start_pos, close, r).position == start_pos + signed_volume_sum(trades),
    decreases trades.len(),
{
    if trades.len() > 0 {
        lemma_day_totals_position(trades.drop_last(), start_pos, close, r);
    }
}

/// The dates of a table.
pub open spec fn dates_of(days: Seq<DailyResultView>) -> Seq<i64> {
    Seq::new(days.len(), |k: int| days[k].date)
}

/// In a table that can be accounted, each day starts with the position
/// changes of the trades of the days before it.
pub proof fn lemma_start_pos_is_bucket_total(
    days: Seq<DailyResultView>,
    trades: Seq<TradeData>,
    k: int,
    r: Rates,
)
    requires
        0 <= k <= days.len(),
        table_in_range(bucketed(days, trades), r),
    ensures
        start_pos_at(bucketed(days, trades), k, r) == bucket_total(trades, dates_of(days), k),
    decreases k,
{
    if k > 0 {
        let b = bucketed(days, trades);
        lemma_start_pos_is_bucket_total(days, trades, k - 1, r);
        let sp = start_pos_at(b, k - 1, r);
        assert(day_in_range(
            b[k - 1].trades,
            sp,
            b[k - 1].close_price,
            close_before(b, k - 1),
            r,
        ));
        lemma_day_totals_position(b[k - 1].trades, sp as int, b[k - 1].close_price, r);
        let tr = b[k - 1].trades;
        assert(tr.take(tr.len() as int) =~= tr);
        assert(super::daily::totals_fit(day_totals(tr.take(tr.len() as int), sp as int, b[k - 1].close_price, r)));
        assert(b[k - 1].trades == trades_on(trades, dates_of(days)[k - 1]));
    }
}

/// The place of the day of a date in a table in ascending order.
fn find_day(days: &Vec<DailyResult>, d: i64) -> (r: Option<usize>)
    requires
        days_ascending(days@),
    ensures
        match r {
            Some(k) => k < days@.len() && days@[k as int].date == d,
            None => !has_day(days@, d),
        },
{
    let mut lo: usize = 0;
    let mut hi: usize = days.len();
    while lo < hi
        invariant
            lo <= hi <= days@.len(),
            days_ascending(days@),
            forall|j: int| 0 <= j < lo ==> (#[trigger] days@[j]).date < d,
            forall|j: int| hi <= j < days@.len() ==> (#[trigger] days@[j]).date > d,
        decreases hi - lo,
    {
        let mid: usize = lo + (hi - lo) / 2;
        let date: i64 = days[mid].date;
        if date < d {
            assert forall|j: int| 0 <= j < mid + 1 implies (#[trigger] days@[j]).date < d by {
                if j < mid {
                    assert(days@[j].date < days@[mid as int].date);
                }
            }
            lo = mid + 1;
        } else if date > d {
            assert forall|j: int| mid <= j < days@.len() implies (#[trigger] days@[j]).date > d by {
                if j > mid {
                    assert(days@[mid as int].date < days@[j].date);
                }
            }
            hi = mid;
        } else {
            return Some(mid);
        }
    }
    None
}

impl BacktestingEngine {
    /// The rates that the engine accounts with.
    pub open spec fn rates(&self) -> Rates {
        Rates { size: self.size, rate: self.rate, slippage: self.slippage }
    }

    /// The days as they stand once every trade is put to the day of its
    /// date.
    pub open spec fn days_bucketed(&self) -> Seq<DailyResultView> {
        bucketed(days_view(self.daily_results@), self.trades@)
    }

    /// Puts every trade to the day of its date, in place of the trades
    /// that the days held.
    fn bucket_trades(&mut self)
        requires
            old(self).wf(),
            old(self).pending_close is None,
        ensures
            final(self).wf(),
            days_view(final(self).daily_results@) == old(self).days_bucketed(),
            *final(self) == (BacktestingEngine {
                daily_results: final(self).daily_results,
                ..*old(self)
            }),
    {
        let ghost days0 = days_view(self.daily_results@);
        let ghost trades = self.trades@;
        let n: usize = self.daily_results.len();
        let mut j: usize = 0;
        while j < n
            invariant
                j <= n,
                n == days0.len(),
                self.daily_results@.len() == n,
                forall|k: int|
                    0 <= k < j ==> (#[trigger] self.daily_results@[k])@ == (DailyResultView {
                        trades: Seq::empty(),
                        ..days0[k]
                    }),
                forall|k: int| j <= k < n ==> (#[trigger] self.daily_results@[k])@ == days0[k],
                *self == (BacktestingEngine { daily_results: self.daily_results, ..*old(self) }),
            decreases n - j,
        {
            self.daily_results[j].trades = Vec::new();
            j = j + 1;
        }
        let m: usize = self.trades.len();
        let mut i: usize = 0;
        proof {
            assert(trades.take(0) =~= Seq::<TradeData>::empty());
            assert forall|k: int| 0 <= k < n implies (#[trigger] self.daily_results@[k]).date
                == old(self).daily_results@[k].date by {
                assert(self.daily_results@[k]@.date == days0[k].date);
            }
        }
        while i < m
            invariant
                i <= m,
                m == trades.len(),
                trades == self.trades@,
                n == days0.len(),
                days0 == days_view(old(self).daily_results@),
                self.daily_results@.len() == n,
                old(self).wf(),
                old(self).pending_close is None,
                days_ascending(self.daily_results@),
                forall|k: int|
                    0 <= k < n ==> (#[trigger] self.daily_results@[k]).date == old(
                        self,
                    ).daily_results@[k].date,
                forall|k: int|
                    0 <= k < n ==> (#[trigger] self.daily_results@[k])@ == (DailyResultView {
                        trades: trades_on(trades.take(i as int), days0[k].date),
                        ..days0[k]
                    }),
                *self == (BacktestingEngine { daily_results: self.daily_results, ..*old(self) }),
            decreases m - i,
        {
            let trade = self.trades[i].clone();
            let d: i64 = local_date(trade.datetime);
            proof {
                assert(trades.take(i + 1).drop_last() =~= trades.take(i as int));
                assert(trades.take(i + 1).last() == trades[i as int]);
                assert(has_day(old(self).daily_results@, d));
                let w = choose|w: int|
                    0 <= w < old(self).daily_results@.len() && (#[trigger] old(
                        self,
                    ).daily_results@[w]).date == d;
                assert(self.daily_results@[w].date == d);
                assert(has_day(self.daily_results@, d));
            }
            match find_day(&self.daily_results, d) {
                Some(k) => {
                    let ghost before = self.daily_results@;
                    self.daily_results[k].trades.push(trade);
                    proof {
                        assert forall|x: int| 0 <= x < n implies (
                        #[trigger] self.daily_results@[x])@ == (DailyResultView {
                            trades: trades_on(trades.take(i + 1), days0[x].date),
                            ..days0[x]
                        }) by {
                            assert(before[x]@.date == days0[x].date);
                            if x != k {
                                assert(self.daily_results@[x] == before[x]);
                                assert(before[x].date != before[k as int].date);
                            }
                        }
                    }
                },
                None => {},
            }
            i = i + 1;
        }
        proof {
            assert(trades.take(m as int) =~= trades);
            assert(days_view(self.daily_results@) =~= old(self).days_bucketed());
            assert forall|date: i64| has_day(old(self).daily_results@, date) implies has_day(
                self.daily_results@,
                date,
            ) by {
                let w = choose|w: int|
                    0 <= w < old(self).daily_results@.len() && (#[trigger] old(
                        self,
                    ).daily_results@[w]).date == date;
                assert(self.daily_results@[w].date == date);
            }
        }
    }

    /// Accounts the run day by day and returns the table of the results.
    ///
    /// Every trade is put to the day of its date. The days are then
    /// accounted in the order of their dates, each from the close and the
    /// final position of the day before it; the first day starts from no
    /// position and is marked against a previous close of one.
    ///
    /// While the close of a record is pending the error is `Contract` and
    /// nothing changes. Where a figure does not fit in 128 bits the error
    /// is `Numeric`; the books are then as they were, and the days hold
    /// their trades.
    pub fn calculate_result(&mut self) -> (r: Result<DailyTable, ErrorKind>)
        requires
            old(self).wf(),
        ensures
            final(self).wf(),
            r is Ok <==> old(self).pending_close is None && table_in_range(
                old(self).days_bucketed(),
                old(self).rates(),
            ),
            r is Ok ==> {
                &&& days_view(final(self).daily_results@) == accounted_table(
                    old(self).days_bucketed(),
                    old(self).rates(),
                )
                &&& table_of(r->Ok_0, days_view(final(self).daily_results@))
            },
            r is Ok && final(self).daily_results@.len() > 0 ==> final(self).daily_results@.last().end_pos
                == signed_volume_sum(old(self).trades@),
            r is Ok ==> forall|k: int|
                0 <= k < final(self).daily_results@.len() ==> (
                #[trigger] final(self).daily_results@[k]).pre_close == if k == 0 {
                    UNIT
                } else {
                    effective_pre_close(final(self).daily_results@[k - 1].close_price)
                },
            r is Err ==> r->Err_0 == if old(self).pending_close is Some {
                ErrorKind::Contract
            } else {
                ErrorKind::Numeric
            },
            old(self).pending_close is Some ==> *final(self) == *old(self),
            *final(self) == (BacktestingEngine {
                daily_results: final(self).daily_results,
                ..*old(self)
            }),
    {
        if self.pending_close.is_some() {
            return Err(ErrorKind::Contract);
        }
        self.bucket_trades();
        let ghost days0 = days_view(self.daily_results@);
        let ghost r = self.rates();
        let n: usize = self.daily_results.len();
        let mut pre_close: i64 = 0;
        let mut start_pos: i128 = 0;
        let mut i: usize = 0;
        while i < n
            invariant
                i <= n,
                n == days0.len(),
                self.daily_results@.len() == n,
                days0 == old(self).days_bucketed(),
                r == old(self).rates(),
                r == self.rates(),
                old(self).wf(),
                old(self).pending_close is None,
                pre_close == close_before(days0, i as int),
                start_pos == start_pos_at(days0, i as int, r),
                forall|k: int|
                    0 <= k < i ==> (#[trigger] self.daily_results@[k])@ == accounted_at(days0, k, r),
                forall|k: int| i <= k < n ==> (#[trigger] self.daily_results@[k])@ == days0[k],
                forall|k: int|
                    0 <= k < i ==> day_in_range(
                        (#[trigger] days0[k]).trades,
                        start_pos_at(days0, k, r),
                        days0[k].close_price,
                        close_before(days0, k),
                        r,
                    ),
                *self == (BacktestingEngine { daily_results: self.daily_results, ..*old(self) }),
            decreases n - i,
        {
            let size: i64 = self.size;
            let rate: i64 = self.rate;
            let slippage: i64 = self.slippage;
            let ghost before = self.daily_results@;
            assert(before[i as int]@ == days0[i as int]);
            match self.daily_results[i].calculate_pnl(pre_close, start_pos, size, rate, slippage) {
                Ok(()) => {},
                Err(_) => {
                    proof {
                        assert(self.daily_results@[i as int] == before[i as int]);
                        assert(self.daily_results@ =~= before);
                        self.lemma_days_keep_books(*old(self), days0);
                    }
                    return Err(ErrorKind::Numeric);
                },
            }
            pre_close = self.daily_results[i].close_price;
            start_pos = self.daily_results[i].end_pos;
            proof {
                assert forall|k: int| 0 <= k < n && k != i implies (
                #[trigger] self.daily_results@[k]) == before[k] by {}
            }
            i = i + 1;
        }
        proof {
            assert(days_view(self.daily_results@) =~= accounted_table(days0, r));
            self.lemma_days_keep_books(*old(self), days0);
            if n > 0 {
                old(self).lemma_last_day_ends_with_position();
                assert(self.daily_results@.last()@ == accounted_at(days0, n - 1, r));
            }
            assert forall|k: int| 0 <= k < n implies (#[trigger] self.daily_results@[k]).pre_close
                == if k == 0 {
                UNIT
            } else {
                effective_pre_close(self.daily_results@[k - 1].close_price)
            } by {
                assert(self.daily_results@[k]@ == accounted_at(days0, k, r));
                if k > 0 {
                    assert(self.daily_results@[k - 1]@ == accounted_at(days0, k - 1, r));
                }
            }
        }
        let table = self.daily_table();
        Ok(table)
    }

    /// After a run whose every close is booked, the last day of the
    /// accounted table ends with the sum of the position changes of all
    /// trades, which is the engine's position.
    pub proof fn lemma_last_day_ends_with_position(&self)
        requires
            self.wf(),
            self.pending_close is None,
            self.daily_results@.len() > 0,
            table_in_range(self.days_bucketed(), self.rates()),
        ensures
            accounted_table(self.days_bucketed(), self.rates()).last().end_pos == signed_volume_sum(
                self.trades@,
            ),
            accounted_table(self.days_bucketed(), self.rates()).last().end_pos == self.pos,
    {
        let days = days_view(self.daily_results@);
        let b = self.days_bucketed();
        let r = self.rates();
        let n = days.len() as int;
        let dates = dates_of(days);
        lemma_start_pos_is_bucket_total(days, self.trades@, n, r);
        assert forall|i: int, j: int| 0 <= i < j < dates.len() implies dates[i] != dates[j] by {
            assert(self.daily_results@[i].date < self.daily_results@[j].date);
        }
        assert forall|k: int| 0 <= k < self.trades@.len() implies dated_among(
            dates,
            dates.len() as int,
            local_date_spec((#[trigger] self.trades@[k]).datetime),
        ) by {
            let d = local_date_spec(self.trades@[k].datetime);
            assert(has_day(self.daily_results@, d));
            let w = choose|w: int|
                0 <= w < self.daily_results@.len() && (#[trigger] self.daily_results@[w]).date == d;
            assert(dates[w] == d);
        }
        lemma_buckets_hold_all(self.trades@, dates);
        assert(start_pos_at(b, n, r) == accounted_at(b, n - 1, r).end_pos);
    }

    /// An engine whose days have kept their dates, and that is otherwise
    /// what a well-formed engine without a pending close was, is
    /// well-formed.
    proof fn lemma_days_keep_books(&self, pre: Self, days0: Seq<DailyResultView>)
        requires
            pre.wf(),
            pre.pending_close is None,
            days0 == pre.days_bucketed(),
            self.daily_results@.len() == days0.len(),
            forall|k: int|
                0 <= k < days0.len() ==> (#[trigger] self.daily_results@[k])@.date == days0[k].date,
            *self == (BacktestingEngine { daily_results: self.daily_results, ..pre }),
        ensures
            self.wf(),
    {
        assert forall|k: int| 0 <= k < days0.len() implies (#[trigger] self.daily_results@[k]).date
            == pre.daily_results@[k].date by {
            assert(self.daily_results@[k]@.date == days0[k].date);
            assert(days0[k].date == pre.daily_results@[k]@.date);
        }
        assert forall|date: i64| has_day(pre.daily_results@, date) implies has_day(
            self.daily_results@,
            date,
        ) by {
            let w = choose|w: int|
                0 <= w < pre.daily_results@.len() && (#[trigger] pre.daily_results@[w]).date == date;
            assert(self.daily_results@[w].date == date);
        }
        assert(days_ascending(self.daily_results@)) by {
            assert forall|i: int, j: int| 0 <= i < j < self.daily_results@.len() implies self.daily_results@[i].date
                < self.daily_results@[j].date by {
                assert(pre.daily_results@[i].date < pre.daily_results@[j].date);
            }
        }
    }

    /// The table of the days as they stand, by columns.
    pub fn daily_table(&self) -> (table: DailyTable)
        ensures
            table_of(table, days_view(self.daily_results@)),
    {
        let mut table = DailyTable {
            date: Vec::new(),
            close_price: Vec::new(),
            pre_close: Vec::new(),
            trade_count: Vec::new(),
            start_pos: Vec::new(),
            end_pos: Vec::new(),
            turnover: Vec::new(),
            commission: Vec::new(),
            slippage: Vec::new(),
            trading_pnl: Vec::new(),
            holding_pnl: Vec::new(),
            total_pnl: Vec::new(),
            net_pnl: Vec::new(),
        };
        let ghost days = days_view(self.daily_results@);
        let n: usize = self.daily_results.len();
        let mut i: usize = 0;
        proof {
            let none = days.take(0);
            assert(none.len() == 0);
            assert(table.date@ =~= Seq::new(none.len(), |k: int| none[k].date));
            assert(table.close_price@ =~= Seq::new(none.len(), |k: int| none[k].close_price));
            assert(table.pre_close@ =~= Seq::new(none.len(), |k: int| none[k].pre_close));
            assert(table.trade_count@ =~= Seq::new(none.len(), |k: int| none[k].trade_count));
            assert(table.start_pos@ =~= Seq::new(none.len(), |k: int| none[k].start_pos));
            assert(table.end_pos@ =~= Seq::new(none.len(), |k: int| none[k].end_pos));
            assert(table.turnover@ =~= Seq::new(none.len(), |k: int| none[k].turnover));
            assert(table.commission@ =~= Seq::new(none.len(), |k: int| none[k].commission));
            assert(table.slippage@ =~= Seq::new(none.len(), |k: int| none[k].slippage));
            assert(table.trading_pnl@ =~= Seq::new(none.len(), |k: int| none[k].trading_pnl));
            assert(table.holding_pnl@ =~= Seq::new(none.len(), |k: int| none[k].holding_pnl));
            assert(table.total_pnl@ =~= Seq::new(none.len(), |k: int| none[k].total_pnl));
            assert(table.net_pnl@ =~= Seq::new(none.len(), |k: int| none[k].net_pnl));
        }
        while i < n
            invariant
                i <= n,
                n == days.len(),
                days == days_view(self.daily_results@),
                table_of(table, days.take(i as int)),
            decreases n - i,
        {
            let day = &self.daily_results[i];
            assert(day@ == days[i as int]);
            table.date.push(day.date);
            table.close_price.push(day.close_price);
            table.pre_close.push(day.pre_close);
            table.trade_count.push(day.trade_count);
            table.start_pos.push(day.start_pos);
            table.end_pos.push(day.end_pos);
            table.turnover.push(day.turnover);
            table.commission.push(day.commission);
            table.slippage.push(day.slippage);
            table.trading_pnl.push(day.trading_pnl);
            table.holding_pnl.push(day.holding_pnl);
            table.total_pnl.push(day.total_pnl);
            table.net_pnl.push(day.net_pnl);
            proof {
                let next = days.take(i + 1);
                assert(next.len() == i + 1);
                assert(table.date@ =~= Seq::new(next.len(), |k: int| next[k].date));
                assert(table.close_price@ =~= Seq::new(next.len(), |k: int| next[k].close_price));
                assert(table.pre_close@ =~= Seq::new(next.len(), |k: int| next[k].pre_close));
                assert(table.trade_count@ =~= Seq::new(next.len(), |k: int| next[k].trade_count));
                assert(table.start_pos@ =~= Seq::new(next.len(), |k: int| next[k].start_pos));
                assert(table.end_pos@ =~= Seq::new(next.len(), |k: int| next[k].end_pos));
                assert(table.turnover@ =~= Seq::new(next.len(), |k: int| next[k].turnover));
                assert(table.commission@ =~= Seq::new(next.len(), |k: int| next[k].commission));
                assert(table.slippage@ =~= Seq::new(next.len(), |k: int| next[k].slippage));
                assert(table.trading_pnl@ =~= Seq::new(next.len(), |k: int| next[k].trading_pnl));
                assert(table.holding_pnl@ =~= Seq::new(next.len(), |k: int| next[k].holding_pnl));
                assert(table.total_pnl@ =~= Seq::new(next.len(), |k: int| next[k].total_pnl));
                assert(table.net_pnl@ =~= Seq::new(next.len(), |k: int| next[k].net_pnl));
            }
            i = i + 1;
        }
        proof {
            assert(days.take(n as int) =~= days);
        }
        table
    }
}

} // verus!
