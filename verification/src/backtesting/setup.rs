//! Making an engine, setting it up and reading it out.

use super::base::{
    interval_delta, interval_delta_spec, mode_named, stops_view, BacktestingMode, EngineType,
};
use super::daily::{days_view, DailyResult};
use super::engine::{BacktestingEngine, ReplayPhase};
use crate::clock::{
    end_of_day, end_of_day_spec, whole_days, whole_days_spec, MILLIS_PER_DAY, MILLIS_PER_SECOND,
};
use crate::error::ErrorKind;
use crate::numeric::UNIT;
use crate::text::{find_char, first_two_parts, join3, split_first_two};
use crate::trader::constant::{interval_named, Interval};
use crate::trader::object::{MixData, OrderData, TradeData};
use crate::trader::utility::extract_vt_symbol;
use vstd::prelude::*;
use vstd::string::StringExecFns;

verus! {

/// A stretch of history to ask the data source for: every record of the
/// instrument from `start` to `end`, both included.
#[derive(Debug, Clone, Copy, PartialEq, Eq, Structural)]
pub struct LoadWindow {
    pub start: i64,
    pub end: i64,
}

/// What to ask the data source for to warm a strategy up.
#[derive(Debug)]
pub struct HistoryQuery {
    pub symbol: String,
    pub exchange: String,
    pub start: i64,
    pub end: i64,
}

/// The length of a window of loading: a tenth of the whole days from start
/// to end, and at least one day.
pub open spec fn window_days(start: i64, end: i64) -> int {
    if whole_days_spec(start, end) / 10 >= 1 {
        whole_days_spec(start, end) / 10
    } else {
        1
    }
}

/// How far `start` is before `limit`, and zero where it is not.
pub open spec fn time_left(start: int, limit: int) -> int {
    if start < limit {
        limit - start
    } else {
        0
    }
}

/// The windows that history is loaded in, from `start` on: a window ends
/// at `end` or at `limit`, whichever is earlier, and the next one starts
/// `gap` after it and is `step` long. No window starts at or after
/// `limit`.
pub open spec fn load_windows(start: int, end: int, limit: int, step: int, gap: int) -> Seq<
    (int, int),
>
    recommends
        0 < gap <= step,
        start <= end,
    decreases time_left(start, limit),
{
    if start >= limit || gap <= 0 || end < start {
        Seq::empty()
    } else {
        let clipped = if end <= limit {
            end
        } else {
            limit
        };
        seq![(start, clipped)] + load_windows(clipped + gap, clipped + step, limit, step, gap)
    }
}

/// Windows as pairs of numbers.
pub open spec fn windows_view(windows: Seq<LoadWindow>) -> Seq<(int, int)> {
    Seq::new(windows.len(), |i: int| (windows[i].start as int, windows[i].end as int))
}

/// The records of a history that are of one kind: bars, or ticks.
pub open spec fn records_of_kind(history: Seq<MixData>, bars: bool) -> Seq<MixData>
    decreases history.len(),
{
    if history.len() == 0 {
        Seq::empty()
    } else {
        let before = records_of_kind(history.drop_last(), bars);
        if (history.last() is BarData) == bars {
            before.push(history.last())
        } else {
            before
        }
    }
}

/// Whether records are what a data source may answer a window with: none
/// of them before the start or after the end of the window, and none of
/// them earlier than the one before it.
pub open spec fn answers_window(records: Seq<MixData>, window: LoadWindow) -> bool {
    &&& forall|i: int|
        0 <= i < records.len() ==> window.start <= (#[trigger] records[i]).time() <= window.end
    &&& forall|i: int, j: int|
        0 <= i < j < records.len() ==> records[i].time() <= records[j].time()
}

/// Whether records are what a data source may answer a window with.
pub fn is_window_answer(records: &Vec<MixData>, window: LoadWindow) -> (ok: bool)
    ensures
        ok == answers_window(records@, window),
{
    let n: usize = records.len();
    let mut i: usize = 0;
    while i < n
        invariant
            i <= n,
            n == records@.len(),
            answers_window(records@.take(i as int), window),
        decreases n - i,
    {
        let t: i64 = records[i].datetime();
        if t < window.start || t > window.end {
            return false;
        }
        if i > 0 && records[i - 1].datetime() > t {
            return false;
        }
        proof {
            let next = records@.take(i + 1);
            assert forall|a: int, b: int| 0 <= a < b < next.len() implies next[a].time()
                <= next[b].time() by {
                if b < i {
                    assert(records@.take(i as int)[a].time() <= records@.take(i as int)[b].time());
                } else if a < i - 1 {
                    assert(records@.take(i as int)[a].time() <= records@.take(i as int)[i - 1].time());
                }
            }
            assert forall|a: int| 0 <= a < next.len() implies window.start <= (
            #[trigger] next[a]).time() <= window.end by {
                if a < i {
                    assert(records@.take(i as int)[a] == next[a]);
                }
            }
        }
        i = i + 1;
    }
    proof {
        assert(records@.take(n as int) =~= records@);
    }
    true
}

impl BacktestingEngine {
    /// An engine without history, orders or trades: a contract multiplier
    /// of one, a capital of one million, no rates, in bar mode.
    pub fn new() -> (r: Self)
        ensures
            r.wf(),
            r.limit_orders@.len() == 0,
            r.stop_orders@.len() == 0,
            r.trades@.len() == 0,
            r.daily_results@.len() == 0,
            r.history_data@.len() == 0,
            r.logs@.len() == 0,
            r.pos == 0,
            r.datetime is None,
            r.bar is None,
            r.tick is None,
            r.pending_close is None,
            r.phase == ReplayPhase::Idle,
            r.mode == BacktestingMode::BAR,
            r.interval is None,
            r.size == UNIT,
            r.capital == 1_000_000 * UNIT,
            r.rate == 0 && r.slippage == 0 && r.pricetick == 0 && r.risk_free == 0,
            r.annual_days == 240 && r.half_life == 120,
            r.start == 0 && r.end == 0,
            r.vt_symbol@.len() == 0 && r.symbol@.len() == 0 && r.exchange@.len() == 0,
            r.strategy_name@.len() == 0,
            !r.inited && !r.trading,
    {
        let r = BacktestingEngine {
            vt_symbol: String::new(),
            symbol: String::new(),
            exchange: String::new(),
            start: 0,
            end: 0,
            rate: 0,
            slippage: 0,
            size: UNIT,
            pricetick: 0,
            capital: 100_000_000_000_000,
            risk_free: 0,
            annual_days: 240,
            half_life: 120,
            mode: BacktestingMode::BAR,
            interval: None,
            strategy_name: String::new(),
            inited: false,
            trading: false,
            pos: 0,
            tick: None,
            bar: None,
            datetime: None,
            pending_close: None,
            history_data: Vec::new(),
            stop_orders: Vec::new(),
            waiting_stops: 0,
            limit_orders: Vec::new(),
            trades: Vec::new(),
            logs: Vec::new(),
            daily_results: Vec::new(),
            phase: ReplayPhase::Idle,
            cursor: 0,
        };
        proof {
            assert(stops_view(r.stop_orders@) =~= Seq::empty());
        }
        r
    }

    /// Forgets the run: the strategy, the current record and the clock,
    /// every order and trade, the log and the days. The parameters and the
    /// history stay.
    pub fn clear_data(&mut self)
        ensures
            final(self).wf(),
            final(self).limit_orders@.len() == 0,
            final(self).stop_orders@.len() == 0,
            final(self).trades@.len() == 0,
            final(self).daily_results@.len() == 0,
            final(self).logs@.len() == 0,
            final(self).strategy_name@.len() == 0,
            *final(self) == (BacktestingEngine {
                strategy_name: final(self).strategy_name,
                inited: false,
                trading: false,
                pos: 0,
                tick: None,
                bar: None,
                datetime: None,
                pending_close: None,
                stop_orders: final(self).stop_orders,
                waiting_stops: 0,
                limit_orders: final(self).limit_orders,
                trades: final(self).trades,
                logs: final(self).logs,
                daily_results: final(self).daily_results,
                phase: ReplayPhase::Idle,
                cursor: 0,
                ..*old(self)
            }),
    {
        self.strategy_name = String::new();
        self.inited = false;
        self.trading = false;
        self.pos = 0;
        self.tick = None;
        self.bar = None;
        self.datetime = None;
        self.pending_close = None;
        self.stop_orders.clear();
        self.waiting_stops = 0;
        self.limit_orders.clear();
        self.trades.clear();
        self.logs.clear();
        self.daily_results.clear();
        self.phase = ReplayPhase::Idle;
        self.cursor = 0;
        proof {
            assert(stops_view(self.stop_orders@) =~= Seq::empty());
        }
    }

    /// Gives the engine the strategy that it is to run: its name, not yet
    /// initialised and not trading.
    pub fn add_strategy(&mut self, strategy_name: &str)
        requires
            old(self).wf(),
        ensures
            final(self).wf(),
            final(self).strategy_name@ == strategy_name@,
            *final(self) == (BacktestingEngine {
                strategy_name: final(self).strategy_name,
                inited: false,
                trading: false,
                ..*old(self)
            }),
    {
        self.strategy_name = String::from_str(strategy_name);
        self.inited = false;
        self.trading = false;
    }

    /// Sets the parameters of a run.
    ///
    /// `mode` and `interval` are read by their names, and `vt_symbol` is
    /// split at its dots into the symbol and the exchange: a name that is
    /// not known, or a symbol without a dot, is a configuration error. An
    /// `end` of zero stands for `now`. The end is moved to 23:59:59 of its
    /// day; where that is beyond the range of a timestamp the error is
    /// numeric. On an error nothing changes.
    pub fn set_parameters(
        &mut self,
        vt_symbol: &str,
        interval: &str,
        start: i64,
        rate: i64,
        slippage: i64,
        size: i64,
        pricetick: i64,
        capital: i64,
        end: i64,
        mode: &str,
        risk_free: i64,
        annual_days: i64,
        half_life: i64,
        now: i64,
    ) -> (r: Result<(), ErrorKind>)
        requires
            old(self).wf(),
        ensures
            final(self).wf(),
            ({
                let named = mode_named(mode@) is Some && interval_named(interval@) is Some
                    && first_two_parts(vt_symbol@) is Some;
                let last = end_of_day_spec(
                    if end == 0 {
                        now
                    } else {
                        end
                    },
                );
                &&& r is Ok <==> named && last <= i64::MAX
                &&& r is Err ==> *final(self) == *old(self) && r->Err_0 == if named {
                    ErrorKind::Numeric
                } else {
                    ErrorKind::Config
                }
                &&& r is Ok ==> {
                    &&& final(self).vt_symbol@ == vt_symbol@
                    &&& first_two_parts(vt_symbol@) == Some(
                        (final(self).symbol@, final(self).exchange@),
                    )
                    &&& *final(self) == (BacktestingEngine {
                        vt_symbol: final(self).vt_symbol,
                        symbol: final(self).symbol,
                        exchange: final(self).exchange,
                        mode: mode_named(mode@)->0,
                        interval: interval_named(interval@),
                        start,
                        end: last as i64,
                        rate,
                        slippage,
                        size,
                        pricetick,
                        capital,
                        risk_free,
                        annual_days,
                        half_life,
                        ..*old(self)
                    })
                }
            }),
    {
        let m = match BacktestingMode::from_str(mode) {
            Ok(m) => m,
            Err(e) => { return Err(e); },
        };
        let iv = match Interval::from_str(interval) {
            Ok(iv) => iv,
            Err(e) => { return Err(e); },
        };
        let (symbol, exchange) = match split_first_two(vt_symbol) {
            Some(parts) => parts,
            None => { return Err(ErrorKind::Config); },
        };
        let asked: i64 = if end == 0 {
            now
        } else {
            end
        };
        let last: i64 = match end_of_day(asked) {
            Some(t) => t,
            None => { return Err(ErrorKind::Numeric); },
        };
        self.mode = m;
        self.vt_symbol = String::from_str(vt_symbol);
        self.interval = Some(iv);
        self.rate = rate;
        self.slippage = slippage;
        self.size = size;
        self.pricetick = pricetick;
        self.start = start;
        self.symbol = symbol;
        self.exchange = exchange;
        self.capital = capital;
        self.end = last;
        self.risk_free = risk_free;
        self.annual_days = annual_days;
        self.half_life = half_life;
        Ok(())
    }

    /// Begins loading history: empties the history and returns the windows
    /// to ask the data source for, in their order. The caller hands what
    /// each window gives to `extend_history`.
    ///
    /// An end of zero is set to `now` first. A start that is not before
    /// the end is a contract error. An interval that is not set, or that
    /// has no step, is a configuration error. On an error the history
    /// stays.
    pub fn load_data(&mut self, now: i64) -> (r: Result<Vec<LoadWindow>, ErrorKind>)
        requires
            old(self).wf(),
        ensures
            final(self).wf(),
            ({
                let end = if old(self).end == 0 {
                    now
                } else {
                    old(self).end
                };
                let gap = match old(self).interval {
                    Some(iv) => interval_delta_spec(iv),
                    None => None,
                };
                let step = window_days(old(self).start, end) * MILLIS_PER_DAY;
                &&& r is Ok <==> old(self).start < end && gap is Some
                &&& r is Err ==> *final(self) == (BacktestingEngine { end, ..*old(self) })
                    && r->Err_0 == if old(self).start >= end {
                    ErrorKind::Contract
                } else {
                    ErrorKind::Config
                }
                &&& r is Ok ==> {
                    &&& windows_view(r->Ok_0@) == load_windows(
                        old(self).start as int,
                        old(self).start + step,
                        end as int,
                        step,
                        gap->0 as int,
                    )
                    &&& final(self).history_data@.len() == 0
                    &&& *final(self) == (BacktestingEngine {
                        end,
                        history_data: final(self).history_data,
                        cursor: 0,
                        ..*old(self)
                    })
                }
            }),
    {
        if self.end == 0 {
            self.end = now;
        }
        if self.start >= self.end {
            return Err(ErrorKind::Contract);
        }
        let gap: i64 = match self.interval {
            Some(iv) => match interval_delta(iv) {
                Some(g) => g,
                None => { return Err(ErrorKind::Config); },
            },
            None => { return Err(ErrorKind::Config); },
        };
        self.history_data.clear();
        self.cursor = 0;
        let total_days: i64 = whole_days(self.start, self.end);
        let days: i64 = if total_days / 10 >= 1 {
            total_days / 10
        } else {
            1
        };
        let limit: i128 = self.end as i128;
        let step: i128 = days as i128 * MILLIS_PER_DAY as i128;
        let ghost first = self.start as int;
        let mut windows: Vec<LoadWindow> = Vec::new();
        let mut start: i128 = self.start as i128;
        let mut end: i128 = start + step;
        proof {
            assert(windows_view(windows@) =~= Seq::empty());
        }
        while start < limit
            invariant
                1 <= gap <= MILLIS_PER_DAY,
                MILLIS_PER_DAY <= step <= 0x7fff_ffff_ffff_ffff * MILLIS_PER_DAY,
                i64::MIN <= limit <= i64::MAX,
                i64::MIN <= start <= limit + gap,
                start <= end <= limit + step,
                windows_view(windows@) + load_windows(
                    start as int,
                    end as int,
                    limit as int,
                    step as int,
                    gap as int,
                ) == load_windows(first, first + step, limit as int, step as int, gap as int),
            decreases time_left(start as int, limit as int),
        {
            let clipped: i128 = if end <= limit {
                end
            } else {
                limit
            };
            let window = LoadWindow { start: start as i64, end: clipped as i64 };
            proof {
                let before = windows_view(windows@);
                let rest = load_windows(
                    clipped + gap,
                    clipped + step,
                    limit as int,
                    step as int,
                    gap as int,
                );
                assert(windows_view(windows@.push(window)) =~= before.push(
                    (start as int, clipped as int),
                ));
                assert(before + (seq![(start as int, clipped as int)] + rest) =~= before.push(
                    (start as int, clipped as int),
                ) + rest);
            }
            windows.push(window);
            start = clipped + gap as i128;
            end = clipped + step;
        }
        proof {
            assert(load_windows(start as int, end as int, limit as int, step as int, gap as int)
                =~= Seq::empty());
            assert(windows_view(windows@) + Seq::<(int, int)>::empty() =~= windows_view(windows@));
        }
        Ok(windows)
    }

    /// Adds records to the end of the history.
    pub fn extend_history(&mut self, records: Vec<MixData>)
        requires
            old(self).wf(),
        ensures
            final(self).wf(),
            final(self).history_data@ == old(self).history_data@ + records@,
            *final(self) == (BacktestingEngine {
                history_data: final(self).history_data,
                ..*old(self)
            }),
    {
        let mut records = records;
        self.history_data.append(&mut records);
    }

    /// What to ask the data source for to warm a strategy up with bars:
    /// the instrument split at its last dot, from `days` days before the
    /// start of the run to one interval before it.
    ///
    /// An instrument without a dot and an interval without a step are
    /// configuration errors; a time beyond the range of a timestamp is a
    /// numeric error.
    pub fn load_bar(&self, vt_symbol: &str, days: i64, interval: Interval) -> (r: Result<
        HistoryQuery,
        ErrorKind,
    >)
        ensures
            ({
                let configured = vt_symbol@.contains('.') && interval_delta_spec(interval) is Some;
                let from = self.start - days * MILLIS_PER_DAY;
                let to = self.start - interval_delta_spec(interval)->0;
                &&& r is Ok <==> configured && i64::MIN <= from <= i64::MAX && i64::MIN <= to
                &&& r is Err ==> r->Err_0 == if configured {
                    ErrorKind::Numeric
                } else {
                    ErrorKind::Config
                }
                &&& r is Ok ==> {
                    &&& r->Ok_0.start == from
                    &&& r->Ok_0.end == to
                    &&& r->Ok_0.symbol@ + seq!['.'] + r->Ok_0.exchange@ == vt_symbol@
                    &&& !r->Ok_0.exchange@.contains('.')
                }
            }),
    {
        let gap: i64 = match interval_delta(interval) {
            Some(g) => g,
            None => { return Err(ErrorKind::Config); },
        };
        self.warm_up(vt_symbol, days, gap)
    }

    /// What to ask the data source for to warm a strategy up with ticks:
    /// the instrument split at its last dot, from `days` days before the
    /// start of the run to one second before it.
    ///
    /// An instrument without a dot is a configuration error; a time beyond
    /// the range of a timestamp is a numeric error.
    pub fn load_tick(&self, vt_symbol: &str, days: i64) -> (r: Result<HistoryQuery, ErrorKind>)
        ensures
            ({
                let from = self.start - days * MILLIS_PER_DAY;
                let to = self.start - MILLIS_PER_SECOND;
                &&& r is Ok <==> vt_symbol@.contains('.') && i64::MIN <= from <= i64::MAX
                    && i64::MIN <= to
                &&& r is Err ==> r->Err_0 == if vt_symbol@.contains('.') {
                    ErrorKind::Numeric
                } else {
                    ErrorKind::Config
                }
                &&& r is Ok ==> {
                    &&& r->Ok_0.start == from
                    &&& r->Ok_0.end == to
                    &&& r->Ok_0.symbol@ + seq!['.'] + r->Ok_0.exchange@ == vt_symbol@
                    &&& !r->Ok_0.exchange@.contains('.')
                }
            }),
    {
        self.warm_up(vt_symbol, days, MILLIS_PER_SECOND)
    }

    fn warm_up(&self, vt_symbol: &str, days: i64, gap: i64) -> (r: Result<HistoryQuery, ErrorKind>)
        requires
            gap > 0,
        ensures
            ({
                let from = self.start - days * MILLIS_PER_DAY;
                let to = self.start - gap;
                &&& r is Ok <==> vt_symbol@.contains('.') && i64::MIN <= from <= i64::MAX
                    && i64::MIN <= to
                &&& r is Err ==> r->Err_0 == if vt_symbol@.contains('.') {
                    ErrorKind::Numeric
                } else {
                    ErrorKind::Config
                }
                &&& r is Ok ==> {
                    &&& r->Ok_0.start == from
                    &&& r->Ok_0.end == to
                    &&& r->Ok_0.symbol@ + seq!['.'] + r->Ok_0.exchange@ == vt_symbol@
                    &&& !r->Ok_0.exchange@.contains('.')
                }
            }),
    {
        match find_char(vt_symbol, '.') {
            Some(i) => {
                proof {
                    crate::text::lemma_first_match_found(vt_symbol@, crate::text::is_char('.'));
                    assert(vt_symbol@[i as int] == '.');
                }
            },
            None => {
                proof {
                    if vt_symbol@.contains('.') {
                        let j = choose|j: int| 0 <= j < vt_symbol@.len() && vt_symbol@[j] == '.';
                        assert(crate::text::is_char('.')(vt_symbol@[j]));
                        crate::text::lemma_some_match(vt_symbol@, crate::text::is_char('.'), j);
                    }
                }
                return Err(ErrorKind::Config);
            },
        }
        let back: i128 = days as i128 * MILLIS_PER_DAY as i128;
        let from: i128 = self.start as i128 - back;
        let to: i128 = self.start as i128 - gap as i128;
        if from < i64::MIN as i128 || from > i64::MAX as i128 || to < i64::MIN as i128 {
            return Err(ErrorKind::Numeric);
        }
        let (symbol, exchange) = extract_vt_symbol(vt_symbol);
        Ok(HistoryQuery { symbol, exchange, start: from as i64, end: to as i64 })
    }

    /// Adds a line to the log: the time given, a tab and the message.
    pub fn write_log(&mut self, msg: &str, time: &str)
        ensures
            final(self).logs@.len() == old(self).logs@.len() + 1,
            final(self).logs@.last()@ == time@ + "\t"@ + msg@,
            forall|i: int|
                0 <= i < old(self).logs@.len() ==> final(self).logs@[i] == old(self).logs@[i],
            *final(self) == (BacktestingEngine { logs: final(self).logs, ..*old(self) }),
    {
        let line = join3(time, "\t", msg);
        self.logs.push(line);
    }

    /// The kind of the engine: it replays history.
    pub fn get_engine_type(&self) -> (r: EngineType)
        ensures
            r == EngineType::BACKTESTING,
    {
        EngineType::BACKTESTING
    }

    /// The price tick that prices of orders are rounded to.
    pub fn get_pricetick(&self) -> (r: i64)
        ensures
            r == self.pricetick,
    {
        self.pricetick
    }

    /// The contract multiplier.
    pub fn get_size(&self) -> (r: i64)
        ensures
            r == self.size,
    {
        self.size
    }

    /// Every trade of the run, in the order of the numbers.
    pub fn get_all_trades(&self) -> (r: Vec<TradeData>)
        ensures
            r@ == self.trades@,
    {
        let mut out: Vec<TradeData> = Vec::new();
        let mut i: usize = 0;
        while i < self.trades.len()
            invariant
                i <= self.trades@.len(),
                out@ == self.trades@.take(i as int),
            decreases self.trades@.len() - i,
        {
            out.push(self.trades[i].clone());
            assert(out@ =~= self.trades@.take(i + 1));
            i = i + 1;
        }
        assert(out@ =~= self.trades@);
        out
    }

    /// Every limit order of the run, active or not, in the order of the
    /// numbers.
    pub fn get_all_orders(&self) -> (r: Vec<OrderData>)
        ensures
            r@ == self.limit_orders@,
    {
        let mut out: Vec<OrderData> = Vec::new();
        let mut i: usize = 0;
        while i < self.limit_orders.len()
            invariant
                i <= self.limit_orders@.len(),
                out@ == self.limit_orders@.take(i as int),
            decreases self.limit_orders@.len() - i,
        {
            out.push(self.limit_orders[i].clone());
            assert(out@ =~= self.limit_orders@.take(i + 1));
            i = i + 1;
        }
        assert(out@ =~= self.limit_orders@);
        out
    }

    /// Every day of the run, in the order of the dates.
    pub fn get_all_daily_results(&self) -> (r: Vec<DailyResult>)
        ensures
            days_view(r@) == days_view(self.daily_results@),
    {
        let mut out: Vec<DailyResult> = Vec::new();
        let mut i: usize = 0;
        while i < self.daily_results.len()
            invariant
                i <= self.daily_results@.len(),
                out@.len() == i,
                days_view(out@) == days_view(self.daily_results@).take(i as int),
            decreases self.daily_results@.len() - i,
        {
            let ghost before = out@;
            let day = self.daily_results[i].clone();
            out.push(day);
            proof {
                let want = days_view(self.daily_results@).take(i + 1);
                assert forall|k: int| 0 <= k < i + 1 implies days_view(out@)[k] == want[k] by {
                    if k < i {
                        assert(out@[k] == before[k]);
                        assert(days_view(before)[k] == days_view(self.daily_results@).take(
                            i as int,
                        )[k]);
                    }
                }
                assert(days_view(out@) =~= want);
            }
            i = i + 1;
        }
        assert(days_view(out@) =~= days_view(self.daily_results@));
        out
    }

    /// Whether any history is loaded.
    pub fn has_history_data(&self) -> (r: bool)
        ensures
            r == (self.history_data@.len() > 0),
    {
        self.history_data.len() > 0
    }

    /// The records of the history that are of the kind of its first
    /// record, in their order.
    pub fn get_history_data(&self) -> (r: Vec<MixData>)
        ensures
            self.history_data@.len() == 0 ==> r@.len() == 0,
            self.history_data@.len() > 0 ==> r@ == records_of_kind(
                self.history_data@,
                self.history_data@[0] is BarData,
            ),
    {
        let mut out: Vec<MixData> = Vec::new();
        let n: usize = self.history_data.len();
        if n == 0 {
            return out;
        }
        let bars: bool = match &self.history_data[0] {
            MixData::BarData(_) => true,
            MixData::TickData(_) => false,
        };
        let ghost history = self.history_data@;
        let mut i: usize = 0;
        proof {
            assert(history.take(0) =~= Seq::<MixData>::empty());
        }
        while i < n
            invariant
                i <= n,
                n == history.len(),
                history == self.history_data@,
                out@ == records_of_kind(history.take(i as int), bars),
            decreases n - i,
        {
            proof {
                assert(history.take(i + 1).drop_last() =~= history.take(i as int));
                assert(history.take(i + 1).last() == history[i as int]);
            }
            let same: bool = match &self.history_data[i] {
                MixData::BarData(_) => bars,
                MixData::TickData(_) => !bars,
            };
            if same {
                out.push(self.history_data[i].clone());
            }
            i = i + 1;
        }
        proof {
            assert(history.take(n as int) =~= history);
        }
        out
    }
}

} // verus!
