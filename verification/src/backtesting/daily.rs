//! Mark-to-market accounting of one calendar day.

use crate::counting::count_if;
use crate::error::ErrorKind;
use crate::numeric::{fx_mul, fx_mul_spec, product_fits, UNIT};
use crate::trader::object::TradeData;
use vstd::prelude::*;

verus! {

/// The result of one calendar day. `date` counts days since 1970-01-01.
#[derive(Debug)]
pub struct DailyResult {
    pub date: i64,
    pub close_price: i64,
    pub pre_close: i64,
    pub trades: Vec<TradeData>,
    pub trade_count: u64,
    pub start_pos: i128,
    pub end_pos: i128,
    pub turnover: i128,
    pub commission: i128,
    pub slippage: i128,
    pub trading_pnl: i128,
    pub holding_pnl: i128,
    pub total_pnl: i128,
    pub net_pnl: i128,
}

/// The result of a day as a mathematical value.
pub struct DailyResultView {
    pub date: i64,
    pub close_price: i64,
    pub pre_close: i64,
    pub trades: Seq<TradeData>,
    pub trade_count: u64,
    pub start_pos: i128,
    pub end_pos: i128,
    pub turnover: i128,
    pub commission: i128,
    pub slippage: i128,
    pub trading_pnl: i128,
    pub holding_pnl: i128,
    pub total_pnl: i128,
    pub net_pnl: i128,
}

impl View for DailyResult {
    type V = DailyResultView;

    open spec fn view(&self) -> DailyResultView {
        DailyResultView {
            date: self.date,
            close_price: self.close_price,
            pre_close: self.pre_close,
            trades: self.trades@,
            trade_count: self.trade_count,
            start_pos: self.start_pos,
            end_pos: self.end_pos,
            turnover: self.turnover,
            commission: self.commission,
            slippage: self.slippage,
            trading_pnl: self.trading_pnl,
            holding_pnl: self.holding_pnl,
            total_pnl: self.total_pnl,
            net_pnl: self.net_pnl,
        }
    }
}

/// The five running sums of a day's trades.
pub struct DayTotals {
    pub position: int,
    pub turnover: int,
    pub commission: int,
    pub slippage: int,
    pub trading_pnl: int,
}

/// The rates that a day is accounted with: the contract multiplier, the
/// commission rate and the slippage per unit.
#[derive(Debug, Clone, Copy, PartialEq, Eq, Structural)]
pub struct Rates {
    pub size: i64,
    pub rate: i64,
    pub slippage: i64,
}

/// The previous close that a day is marked against: the close handed in,
/// or one where none was.
pub open spec fn effective_pre_close(pre_close: i64) -> i64 {
    if pre_close != 0 {
        pre_close
    } else {
        UNIT
    }
}

/// `volume * size`, the number of units that a trade moves.
pub open spec fn trade_units(t: TradeData, r: Rates) -> int {
    fx_mul_spec(t.volume as int, r.size as int)
}

/// `volume * size * price`.
pub open spec fn trade_turnover(t: TradeData, r: Rates) -> int {
    fx_mul_spec(trade_units(t, r), t.price as int)
}

/// `turnover * rate`.
pub open spec fn trade_commission(t: TradeData, r: Rates) -> int {
    fx_mul_spec(trade_turnover(t, r), r.rate as int)
}

/// `volume * size * slippage`.
pub open spec fn trade_slippage(t: TradeData, r: Rates) -> int {
    fx_mul_spec(trade_units(t, r), r.slippage as int)
}

/// `pos_change * (close - price) * size`.
pub open spec fn trade_pnl(t: TradeData, close: i64, r: Rates) -> int {
    fx_mul_spec(fx_mul_spec(t.signed_volume(), close - t.price), r.size as int)
}

/// Whether every product in the figures of one trade can be formed.
pub open spec fn trade_in_range(t: TradeData, close: i64, r: Rates) -> bool {
    &&& product_fits(trade_units(t, r), t.price as int)
    &&& product_fits(trade_turnover(t, r), r.rate as int)
    &&& product_fits(trade_units(t, r), r.slippage as int)
    &&& product_fits(fx_mul_spec(t.signed_volume(), close - t.price), r.size as int)
}

/// The sums over a list of trades, from a starting position.
pub open spec fn day_totals(trades: Seq<TradeData>, start_pos: int, close: i64, r: Rates) -> DayTotals
    decreases trades.len(),
{
    if trades.len() == 0 {
        DayTotals { position: start_pos, turnover: 0, commission: 0, slippage: 0, trading_pnl: 0 }
    } else {
        let s = day_totals(trades.drop_last(), start_pos, close, r);
        let t = trades.last();
        DayTotals {
            position: s.position + t.signed_volume(),
            turnover: s.turnover + trade_turnover(t, r),
            commission: s.commission + trade_commission(t, r),
            slippage: s.slippage + trade_slippage(t, r),
            trading_pnl: s.trading_pnl + trade_pnl(t, close, r),
        }
    }
}

/// Whether a number fits in 128 bits.
pub open spec fn fits_i128(x: int) -> bool {
    i128::MIN <= x <= i128::MAX
}

/// Whether each of the five sums fits in 128 bits.
pub open spec fn totals_fit(s: DayTotals) -> bool {
    &&& fits_i128(s.position)
    &&& fits_i128(s.turnover)
    &&& fits_i128(s.commission)
    &&& fits_i128(s.slippage)
    &&& fits_i128(s.trading_pnl)
}

/// `start_pos * (close - pre_close) * size`.
pub open spec fn holding_pnl_of(start_pos: int, close: i64, pre_close: i64, r: Rates) -> int {
    fx_mul_spec(fx_mul_spec(start_pos, close - effective_pre_close(pre_close)), r.size as int)
}

/// Whether the day can be accounted in 128 bits: every product and every
/// running sum on the way fits.
pub open spec fn day_in_range(
    trades: Seq<TradeData>,
    start_pos: i128,
    close: i64,
    pre_close: i64,
    r: Rates,
) -> bool {
    let held = fx_mul_spec(start_pos as int, close - effective_pre_close(pre_close));
    let last = day_totals(trades, start_pos as int, close, r);
    let holding = holding_pnl_of(start_pos as int, close, pre_close, r);
    &&& product_fits(start_pos as int, close - effective_pre_close(pre_close))
    &&& product_fits(held, r.size as int)
    &&& forall|k: int| 0 <= k < trades.len() ==> trade_in_range(#[trigger] trades[k], close, r)
    &&& forall|k: int|
        0 <= k <= trades.len() ==> totals_fit(
            #[trigger] day_totals(trades.take(k), start_pos as int, close, r),
        )
    &&& fits_i128(last.trading_pnl + holding)
    &&& fits_i128(last.trading_pnl + holding - last.commission)
    &&& fits_i128(last.trading_pnl + holding - last.commission - last.slippage)
}

/// The day as it stands after accounting.
pub open spec fn accounted(
    day: DailyResultView,
    pre_close: i64,
    start_pos: i128,
    r: Rates,
) -> DailyResultView {
    let s = day_totals(day.trades, start_pos as int, day.close_price, r);
    let holding = holding_pnl_of(start_pos as int, day.close_price, pre_close, r);
    DailyResultView {
        date: day.date,
        close_price: day.close_price,
        pre_close: effective_pre_close(pre_close),
        trades: day.trades,
        trade_count: day.trades.len() as u64,
        start_pos,
        end_pos: s.position as i128,
        turnover: s.turnover as i128,
        commission: s.commission as i128,
        slippage: s.slippage as i128,
        trading_pnl: s.trading_pnl as i128,
        holding_pnl: holding as i128,
        total_pnl: (s.trading_pnl + holding) as i128,
        net_pnl: (s.trading_pnl + holding - s.commission - s.slippage) as i128,
    }
}

/// A day without trades and without figures.
pub open spec fn fresh_day(date: i64, close_price: i64) -> DailyResultView {
    DailyResultView {
        date,
        close_price,
        pre_close: 0,
        trades: Seq::empty(),
        trade_count: 0,
        start_pos: 0,
        end_pos: 0,
        turnover: 0,
        commission: 0,
        slippage: 0,
        trading_pnl: 0,
        holding_pnl: 0,
        total_pnl: 0,
        net_pnl: 0,
    }
}

/// The days of a list as mathematical values.
pub open spec fn days_view(days: Seq<DailyResult>) -> Seq<DailyResultView> {
    Seq::new(days.len(), |i: int| days[i]@)
}

/// The predicate of a day before the date `d`.
pub open spec fn dated_before(d: i64) -> spec_fn(DailyResultView) -> bool {
    |r: DailyResultView| r.date < d
}

/// A table of days in ascending order after the close of the date `d` has
/// been booked at `price`: the day of that date has the new close, and
/// where there was none a fresh day stands in its place in the order.
pub open spec fn day_closed(days: Seq<DailyResultView>, d: i64, price: i64) -> Seq<
    DailyResultView,
> {
    let k = count_if(days, dated_before(d)) as int;
    if k < days.len() && days[k].date == d {
        days.update(k, DailyResultView { close_price: price, ..days[k] })
    } else {
        days.insert(k, fresh_day(d, price))
    }
}

/// The figures of one trade, where every product can be formed.
struct TradeFigures {
    turnover: i128,
    commission: i128,
    slippage: i128,
    pnl: i128,
}

fn trade_figures(t: &TradeData, close: i64, r: Rates) -> (f: Option<TradeFigures>)
    ensures
        f is Some <==> trade_in_range(*t, close, r),
        f is Some ==> {
            &&& f->0.turnover == trade_turnover(*t, r)
            &&& f->0.commission == trade_commission(*t, r)
            &&& f->0.slippage == trade_slippage(*t, r)
            &&& f->0.pnl == trade_pnl(*t, close, r)
        },
{
    let pos_change: i128 = if t.direction == crate::trader::constant::Direction::LONG {
        t.volume as i128
    } else {
        -(t.volume as i128)
    };
    let diff: i128 = close as i128 - t.price as i128;
    proof {
        crate::numeric::lemma_product_bound(
            t.volume as int,
            r.size as int,
            0x8000_0000_0000_0000,
            0x8000_0000_0000_0000,
        );
        crate::numeric::lemma_product_bound(
            pos_change as int,
            diff as int,
            0x8000_0000_0000_0000,
            0xffff_ffff_ffff_ffff,
        );
    }
    let units: i128 = fx_mul(t.volume as i128, r.size as i128).unwrap();
    let moved: i128 = fx_mul(pos_change, diff).unwrap();
    let turnover = match fx_mul(units, t.price as i128) {
        Some(x) => x,
        None => { return None; },
    };
    let commission = match fx_mul(turnover, r.rate as i128) {
        Some(x) => x,
        None => { return None; },
    };
    let slippage = match fx_mul(units, r.slippage as i128) {
        Some(x) => x,
        None => { return None; },
    };
    let pnl = match fx_mul(moved, r.size as i128) {
        Some(x) => x,
        None => { return None; },
    };
    Some(TradeFigures { turnover, commission, slippage, pnl })
}

impl DailyResult {
    /// A day with its closing price and nothing else.
    pub fn new(date: i64, close_price: i64) -> (r: DailyResult)
        ensures
            r@ == fresh_day(date, close_price),
    {
        DailyResult {
            date,
            close_price,
            pre_close: 0,
            trades: Vec::new(),
            trade_count: 0,
            start_pos: 0,
            end_pos: 0,
            turnover: 0,
            commission: 0,
            slippage: 0,
            trading_pnl: 0,
            holding_pnl: 0,
            total_pnl: 0,
            net_pnl: 0,
        }
    }

    /// Adds a trade to the day.
    pub fn add_trade(&mut self, trade: TradeData)
        ensures
            final(self)@ == (DailyResultView {
                trades: old(self)@.trades.push(trade),
                ..old(self)@
            }),
    {
        self.trades.push(trade);
    }

    /// Accounts the day from the previous close and the position that it
    /// starts with. Where a figure does not fit in 128 bits the day is left
    /// as it was.
    pub fn calculate_pnl(
        &mut self,
        pre_close: i64,
        start_pos: i128,
        size: i64,
        rate: i64,
        slippage: i64,
    ) -> (r: Result<(), ErrorKind>)
        ensures
            r is Ok <==> day_in_range(
                old(self)@.trades,
                start_pos,
                old(self).close_price,
                pre_close,
                Rates { size, rate, slippage },
            ),
            r is Ok ==> final(self)@ == accounted(
                old(self)@,
                pre_close,
                start_pos,
                Rates { size, rate, slippage },
            ),
            r is Err ==> r == Err::<(), ErrorKind>(ErrorKind::Numeric) && *final(self) == *old(
                self,
            ),
    {
        let r = Rates { size, rate, slippage };
        let close: i64 = self.close_price;
        let pre: i64 = if pre_close != 0 {
            pre_close
        } else {
            UNIT
        };
        let ghost trades = self.trades@;
        let ghost sp = start_pos as int;
        let held = match fx_mul(start_pos, close as i128 - pre as i128) {
            Some(x) => x,
            None => { return Err(ErrorKind::Numeric); },
        };
        let holding = match fx_mul(held, size as i128) {
            Some(x) => x,
            None => { return Err(ErrorKind::Numeric); },
        };
        let mut position: i128 = start_pos;
        let mut turnover: i128 = 0;
        let mut commission: i128 = 0;
        let mut slip: i128 = 0;
        let mut trading: i128 = 0;
        let n: usize = self.trades.len();
        let mut i: usize = 0;
        assert(trades.take(0) =~= Seq::<TradeData>::empty());
        while i < n
            invariant
                i <= n,
                n == trades.len(),
                trades == self.trades@,
                *self == *old(self),
                close == self.close_price,
                r == (Rates { size, rate, slippage }),
                pre == effective_pre_close(pre_close),
                held == fx_mul_spec(sp, close - pre),
                holding == holding_pnl_of(sp, close, pre_close, r),
                product_fits(sp, close - pre),
                product_fits(held as int, size as int),
                sp == start_pos as int,
                ({
                    let s = day_totals(trades.take(i as int), sp, close, r);
                    &&& s.position == position
                    &&& s.turnover == turnover
                    &&& s.commission == commission
                    &&& s.slippage == slip
                    &&& s.trading_pnl == trading
                }),
                forall|k: int| 0 <= k < i ==> trade_in_range(#[trigger] trades[k], close, r),
                forall|k: int|
                    0 <= k <= i ==> totals_fit(#[trigger] day_totals(trades.take(k), sp, close, r)),
            decreases n - i,
        {
            let t = &self.trades[i];
            proof {
                assert(trades.take(i + 1).drop_last() =~= trades.take(i as int));
                assert(trades.take(i + 1).last() == trades[i as int]);
            }
            let f = match trade_figures(t, close, r) {
                Some(f) => f,
                None => {
                    assert(!trade_in_range(trades[i as int], close, r));
                    return Err(ErrorKind::Numeric);
                },
            };
            let pos_change: i128 = if t.direction == crate::trader::constant::Direction::LONG {
                t.volume as i128
            } else {
                -(t.volume as i128)
            };
            let ghost next = day_totals(trades.take(i + 1), sp, close, r);
            let position_next = position.checked_add(pos_change);
            let turnover_next = turnover.checked_add(f.turnover);
            let commission_next = commission.checked_add(f.commission);
            let slip_next = slip.checked_add(f.slippage);
            let trading_next = trading.checked_add(f.pnl);
            if position_next.is_none() || turnover_next.is_none() || commission_next.is_none()
                || slip_next.is_none() || trading_next.is_none() {
                assert(!totals_fit(next));
                return Err(ErrorKind::Numeric);
            }
            position = position_next.unwrap();
            turnover = turnover_next.unwrap();
            commission = commission_next.unwrap();
            slip = slip_next.unwrap();
            trading = trading_next.unwrap();
            i = i + 1;
        }
        assert(trades.take(n as int) =~= trades);
        let total = match trading.checked_add(holding) {
            Some(x) => x,
            None => { return Err(ErrorKind::Numeric); },
        };
        let after_commission = match total.checked_sub(commission) {
            Some(x) => x,
            None => { return Err(ErrorKind::Numeric); },
        };
        let net = match after_commission.checked_sub(slip) {
            Some(x) => x,
            None => { return Err(ErrorKind::Numeric); },
        };
        self.pre_close = pre;
        self.start_pos = start_pos;
        self.end_pos = position;
        self.holding_pnl = holding;
        self.trade_count = n as u64;
        self.turnover = turnover;
        self.commission = commission;
        self.slippage = slip;
        self.trading_pnl = trading;
        self.total_pnl = total;
        self.net_pnl = net;
        Ok(())
    }
}

impl Clone for DailyResult {
    fn clone(&self) -> (r: Self)
        ensures
            r@ == self@,
    {
        let mut trades: Vec<TradeData> = Vec::new();
        let mut i: usize = 0;
        while i < self.trades.len()
            invariant
                i <= self.trades@.len(),
                trades@ == self.trades@.subrange(0, i as int),
            decreases self.trades@.len() - i,
        {
            trades.push(self.trades[i].clone());
            assert(trades@ =~= self.trades@.subrange(0, i + 1));
            i = i + 1;
        }
        assert(trades@ =~= self.trades@);
        DailyResult {
            date: self.date,
            close_price: self.close_price,
            pre_close: self.pre_close,
            trades,
            trade_count: self.trade_count,
            start_pos: self.start_pos,
            end_pos: self.end_pos,
            turnover: self.turnover,
            commission: self.commission,
            slippage: self.slippage,
            trading_pnl: self.trading_pnl,
            holding_pnl: self.holding_pnl,
            total_pnl: self.total_pnl,
            net_pnl: self.net_pnl,
        }
    }
}

} // verus!
