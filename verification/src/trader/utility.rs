//! General helpers of the trading platform.

use super::constant::Interval;
use super::object::{BarData, TickData};
use crate::clock::{
    floor_time, floor_time_spec, hour_of, hour_of_spec, minute_of, minute_of_spec, time_of_day,
    time_of_day_spec, MILLIS_PER_DAY, MILLIS_PER_HOUR, MILLIS_PER_MINUTE,
};
use crate::numeric::{
    growth, growth_spec, max_of, max_spec, min_of, min_spec, sat_add, sat_add_spec,
};
use crate::text::{is_last_char, rfind_char};
use vstd::prelude::*;
use vstd::string::{StrSliceExecFns, StringExecFns};

pub use crate::numeric::round_to;

verus! {

/// Splits `symbol.exchange` at its last dot.
pub fn extract_vt_symbol(vt_symbol: &str) -> (r: (String, String))
    requires
        vt_symbol@.contains('.'),
    ensures
        exists|i: int|
            is_last_char(vt_symbol@, '.', i) && r.0@ == vt_symbol@.subrange(0, i) && r.1@
                == vt_symbol@.subrange(i + 1, vt_symbol@.len() as int),
        r.0@ + seq!['.'] + r.1@ == vt_symbol@,
        !r.1@.contains('.'),
{
    let n: usize = vt_symbol.unicode_len();
    match rfind_char(vt_symbol, '.') {
        Some(i) => {
            let symbol = String::from_str(vt_symbol.substring_char(0, i));
            let exchange = String::from_str(vt_symbol.substring_char(i + 1, n));
            proof {
                assert(symbol@ + seq!['.'] + exchange@ =~= vt_symbol@);
                if exchange@.contains('.') {
                    let j = choose|j: int| 0 <= j < exchange@.len() && exchange@[j] == '.';
                    assert(vt_symbol@[i + 1 + j] == '.');
                }
            }
            (symbol, exchange)
        },
        None => (String::from_str(vt_symbol), String::from_str("")),
    }
}

/// Makes bars of one minute from ticks, and bars of a window of minutes,
/// of hours or of a day from bars of one minute.
///
/// A window of `x` minutes wants an `x` that divides sixty; a window of
/// hours can have any length. A bar that is finished is handed back by the
/// call that finished it.
#[derive(Debug)]
pub struct BarGenerator {
    pub bar: Option<BarData>,
    pub interval: Interval,
    pub interval_count: u32,
    pub hour_bar: Option<BarData>,
    pub daily_bar: Option<BarData>,
    pub window: u32,
    pub window_bar: Option<BarData>,
    pub last_tick: Option<TickData>,
    /// The time of day, in milliseconds since midnight, of the bar that
    /// closes the day.
    pub daily_end: Option<i64>,
}

/// The bar that a tick begins: every price is the tick's last price.
pub open spec fn bar_begun(tick: TickData) -> BarData {
    BarData {
        gateway_name: tick.gateway_name,
        symbol: tick.symbol,
        exchange: tick.exchange,
        interval: Interval::MINUTE,
        datetime: tick.datetime,
        volume: 0,
        turnover: 0,
        open_interest: tick.open_interest,
        open_price: tick.last_price,
        high_price: tick.last_price,
        low_price: tick.last_price,
        close_price: tick.last_price,
    }
}

/// A bar that a tick of the same minute has gone into. `last` is the tick
/// before it: a high or a low of the day that has moved since then goes
/// into the bar too.
pub open spec fn bar_ticked(bar: BarData, tick: TickData, last: TickData) -> BarData {
    let high = max_spec(bar.high_price, tick.last_price);
    let low = min_spec(bar.low_price, tick.last_price);
    BarData {
        high_price: if tick.high_price > last.high_price {
            max_spec(high, tick.high_price)
        } else {
            high
        },
        low_price: if tick.low_price < last.low_price {
            min_spec(low, tick.low_price)
        } else {
            low
        },
        close_price: tick.last_price,
        open_interest: tick.open_interest,
        datetime: tick.datetime,
        ..bar
    }
}

/// A bar with what the volume and the turnover have grown by from one
/// tick to the next.
pub open spec fn bar_grown(bar: BarData, tick: TickData, last: TickData) -> BarData {
    BarData {
        volume: sat_add_spec(bar.volume, growth_spec(tick.volume, last.volume)),
        turnover: sat_add_spec(bar.turnover, growth_spec(tick.turnover, last.turnover)),
        ..bar
    }
}

/// A bar with its time moved back to the last whole multiple of `unit`.
pub open spec fn bar_floored(bar: BarData, unit: i64) -> BarData {
    BarData { datetime: floor_time_spec(bar.datetime, unit), ..bar }
}

/// The bar that a window begins with `bar`, at the time `datetime`: it
/// has the open, the high and the low of the bar, and no close, volume or
/// turnover yet.
pub open spec fn window_begun(bar: BarData, datetime: i64) -> BarData {
    BarData {
        gateway_name: bar.gateway_name,
        symbol: bar.symbol,
        exchange: bar.exchange,
        interval: Interval::MINUTE,
        datetime,
        volume: 0,
        turnover: 0,
        open_interest: 0,
        open_price: bar.open_price,
        high_price: bar.high_price,
        low_price: bar.low_price,
        close_price: 0,
    }
}

/// The bar of an hour that `bar` begins: the bar itself at the whole
/// hour.
pub open spec fn hour_begun(bar: BarData) -> BarData {
    BarData {
        interval: Interval::MINUTE,
        datetime: floor_time_spec(bar.datetime, MILLIS_PER_HOUR),
        ..bar
    }
}

/// A bar of a window that the high and the low of `bar` have gone into.
pub open spec fn window_stretched(w: BarData, bar: BarData) -> BarData {
    BarData {
        high_price: max_spec(w.high_price, bar.high_price),
        low_price: min_spec(w.low_price, bar.low_price),
        ..w
    }
}

/// A bar of a window that the close, the volume, the turnover and the
/// open interest of `bar` have gone into.
pub open spec fn window_closed(w: BarData, bar: BarData) -> BarData {
    BarData {
        close_price: bar.close_price,
        volume: sat_add_spec(w.volume, bar.volume),
        turnover: sat_add_spec(w.turnover, bar.turnover),
        open_interest: bar.open_interest,
        ..w
    }
}

/// The bar of a window after `bar` has gone into it: into the window at
/// hand, or into one that the bar begins at the time `datetime`.
pub open spec fn window_fed(w: Option<BarData>, bar: BarData, datetime: i64) -> BarData {
    window_closed(
        match w {
            Some(w) => window_stretched(w, bar),
            None => window_begun(bar, datetime),
        },
        bar,
    )
}

/// Whether a tick falls in another minute than a bar.
pub open spec fn other_minute(bar: BarData, tick: TickData) -> bool {
    minute_of_spec(bar.datetime) != minute_of_spec(tick.datetime) || hour_of_spec(bar.datetime)
        != hour_of_spec(tick.datetime)
}

impl BarGenerator {
    /// A bar of one minute in the making has a tick before it, and the
    /// count of hours in a window is within the window.
    pub open spec fn wf(&self) -> bool {
        &&& self.bar is Some ==> self.last_tick is Some
        &&& self.window >= 1 ==> self.interval_count < self.window
    }

    /// The generator after a tick, and the bar of one minute that the
    /// tick finished. A tick without a last price is passed over. A tick
    /// in another minute than the bar in the making finishes that bar, at
    /// its whole minute, and begins the next one.
    pub open spec fn after_tick(self, tick: TickData) -> (Self, Option<BarData>) {
        if tick.last_price == 0 {
            (self, None)
        } else {
            let begins = self.bar is None || other_minute(self.bar->0, tick);
            let finished = if self.bar is Some && begins {
                Some(bar_floored(self.bar->0, MILLIS_PER_MINUTE))
            } else {
                None
            };
            let made = if begins {
                bar_begun(tick)
            } else {
                bar_ticked(self.bar->0, tick, self.last_tick->0)
            };
            let grown = match self.last_tick {
                Some(last) => bar_grown(made, tick, last),
                None => made,
            };
            (BarGenerator { bar: Some(grown), last_tick: Some(tick), ..self }, finished)
        }
    }

    /// The generator after a bar of one minute went into its window of
    /// minutes, and the bar of the window if that is finished: the bar of
    /// a minute whose number, counted from one, is a multiple of the
    /// window finishes the window.
    pub open spec fn after_minute_bar(self, bar: BarData) -> (Self, Option<BarData>)
        recommends
            self.window > 0,
    {
        let fed = window_fed(
            self.window_bar,
            bar,
            floor_time_spec(bar.datetime, MILLIS_PER_MINUTE),
        );
        if (minute_of_spec(bar.datetime) + 1) % (self.window as int) == 0 {
            (BarGenerator { window_bar: None, ..self }, Some(fed))
        } else {
            (BarGenerator { window_bar: Some(fed), ..self }, None)
        }
    }

    /// The generator after a bar of one hour went into its window of
    /// hours, and the bar of the window if that is finished. A window of
    /// one hour is the bar itself; a longer one is finished by its last
    /// hour.
    pub open spec fn after_hour_bar(self, bar: BarData) -> (Self, Option<BarData>)
        recommends
            self.window > 0,
    {
        if self.window == 1 {
            (self, Some(bar))
        } else {
            let fed = window_fed(self.window_bar, bar, bar.datetime);
            if (self.interval_count + 1) % (self.window as int) == 0 {
                (BarGenerator { window_bar: None, interval_count: 0, ..self }, Some(fed))
            } else {
                (
                    BarGenerator {
                        window_bar: Some(fed),
                        interval_count: (self.interval_count + 1) as u32,
                        ..self
                    },
                    None,
                )
            }
        }
    }

    /// The generator after a bar of one minute went into its bar of an
    /// hour, and the bar of an hour that it finished, if any: the minute
    /// 59 finishes the hour that it belongs to, and a minute of another
    /// hour finishes the hour before it and begins its own.
    pub open spec fn after_hour_minute(self, bar: BarData) -> (Self, Option<BarData>) {
        match self.hour_bar {
            None => (BarGenerator { hour_bar: Some(hour_begun(bar)), ..self }, None),
            Some(h) => {
                if minute_of_spec(bar.datetime) == 59 {
                    (
                        BarGenerator { hour_bar: None, ..self },
                        Some(window_closed(window_stretched(h, bar), bar)),
                    )
                } else if hour_of_spec(bar.datetime) != hour_of_spec(h.datetime) {
                    (BarGenerator { hour_bar: Some(hour_begun(bar)), ..self }, Some(h))
                } else {
                    (
                        BarGenerator {
                            hour_bar: Some(window_closed(window_stretched(h, bar), bar)),
                            ..self
                        },
                        None,
                    )
                }
            },
        }
    }

    /// The generator after a bar of one minute went into its window of
    /// hours, and the bar of the window if that is finished.
    pub open spec fn after_hour_window(self, bar: BarData) -> (Self, Option<BarData>)
        recommends
            self.window > 0,
    {
        let (g, finished) = self.after_hour_minute(bar);
        match finished {
            Some(h) => g.after_hour_bar(h),
            None => (g, None),
        }
    }

    /// The generator after a bar of one minute went into its bar of the
    /// day, and the bar of the day if that is finished: the bar at the
    /// time of day that closes the day finishes it, at midnight.
    pub open spec fn after_daily_bar(self, bar: BarData) -> (Self, Option<BarData>)
        recommends
            self.daily_end is Some,
    {
        let fed = window_fed(self.daily_bar, bar, bar.datetime);
        if time_of_day_spec(bar.datetime) == self.daily_end->0 {
            (BarGenerator { daily_bar: None, ..self }, Some(bar_floored(fed, MILLIS_PER_DAY)))
        } else {
            (BarGenerator { daily_bar: Some(fed), ..self }, None)
        }
    }

    /// The generator after a bar of one minute, by the interval of its
    /// window.
    pub open spec fn after_bar(self, bar: BarData) -> (Self, Option<BarData>) {
        if self.interval == Interval::MINUTE {
            self.after_minute_bar(bar)
        } else if self.interval == Interval::HOUR {
            self.after_hour_window(bar)
        } else {
            self.after_daily_bar(bar)
        }
    }

    /// What a bar of one minute asks of the generator: a window of at
    /// least one for windows of minutes and of hours, and a time that
    /// closes the day for any other.
    pub open spec fn can_take_bar(self) -> bool {
        if self.interval == Interval::MINUTE || self.interval == Interval::HOUR {
            self.window > 0
        } else {
            self.daily_end is Some
        }
    }

    /// A generator of bars of `window` times `interval`. A daily
    /// generator wants the time of day that closes the day.
    pub fn new(window: u32, interval: Interval, daily_end: Option<i64>) -> (r: Self)
        requires
            interval == Interval::DAILY ==> daily_end is Some,
        ensures
            r.wf(),
            r == (BarGenerator {
                bar: None,
                interval,
                interval_count: 0,
                hour_bar: None,
                daily_bar: None,
                window,
                window_bar: None,
                last_tick: None,
                daily_end,
            }),
    {
        BarGenerator {
            bar: None,
            interval,
            interval_count: 0,
            hour_bar: None,
            daily_bar: None,
            window,
            window_bar: None,
            last_tick: None,
            daily_end,
        }
    }

    /// Takes a tick into the bar of one minute and hands back the bar
    /// that the tick finished, if any.
    pub fn update_tick(&mut self, tick: TickData) -> (r: Option<BarData>)
        requires
            old(self).wf(),
        ensures
            final(self).wf(),
            (*final(self), r) == old(self).after_tick(tick),
    {
        if tick.last_price == 0 {
            return None;
        }
        let begins: bool = match &self.bar {
            None => true,
            Some(b) => minute_of(b.datetime) != minute_of(tick.datetime) || hour_of(b.datetime)
                != hour_of(tick.datetime),
        };
        let mut finished: Option<BarData> = None;
        let mut made: BarData;
        if begins {
            match self.bar.take() {
                Some(b) => {
                    let mut done = b;
                    done.datetime = floor_time(done.datetime, MILLIS_PER_MINUTE);
                    finished = Some(done);
                },
                None => {},
            }
            made = BarData {
                gateway_name: tick.gateway_name,
                symbol: tick.symbol.clone(),
                exchange: tick.exchange.clone(),
                interval: Interval::MINUTE,
                datetime: tick.datetime,
                volume: 0,
                turnover: 0,
                open_interest: tick.open_interest,
                open_price: tick.last_price,
                high_price: tick.last_price,
                low_price: tick.last_price,
                close_price: tick.last_price,
            };
        } else {
            made = self.bar.take().unwrap();
            let last = self.last_tick.as_ref().unwrap();
            made.high_price = max_of(made.high_price, tick.last_price);
            if tick.high_price > last.high_price {
                made.high_price = max_of(made.high_price, tick.high_price);
            }
            made.low_price = min_of(made.low_price, tick.last_price);
            if tick.low_price < last.low_price {
                made.low_price = min_of(made.low_price, tick.low_price);
            }
            made.close_price = tick.last_price;
            made.open_interest = tick.open_interest;
            made.datetime = tick.datetime;
        }
        match &self.last_tick {
            Some(last) => {
                made.volume = sat_add(made.volume, growth(tick.volume, last.volume));
                made.turnover = sat_add(made.turnover, growth(tick.turnover, last.turnover));
            },
            None => {},
        }
        self.bar = Some(made);
        self.last_tick = Some(tick);
        finished
    }

    /// Takes a bar of one minute into the window and hands back the bar
    /// of the window, if this bar finished it.
    pub fn update_bar(&mut self, bar: BarData) -> (r: Option<BarData>)
        requires
            old(self).wf(),
            old(self).can_take_bar(),
        ensures
            final(self).wf(),
            (*final(self), r) == old(self).after_bar(bar),
    {
        match self.interval {
            Interval::MINUTE => self.update_bar_minute_window(bar),
            Interval::HOUR => self.update_bar_hour_window(bar),
            _ => self.update_bar_daily_window(bar),
        }
    }

    /// Takes a bar of one minute into a window of minutes and hands back
    /// the bar of the window, if this bar finished it.
    pub fn update_bar_minute_window(&mut self, bar: BarData) -> (r: Option<BarData>)
        requires
            old(self).wf(),
            old(self).window > 0,
        ensures
            final(self).wf(),
            (*final(self), r) == old(self).after_minute_bar(bar),
    {
        let minute: i64 = minute_of(bar.datetime);
        let at: i64 = floor_time(bar.datetime, MILLIS_PER_MINUTE);
        let fed = feed_window(self.window_bar.take(), bar, at);
        if (minute + 1) % (self.window as i64) == 0 {
            Some(fed)
        } else {
            self.window_bar = Some(fed);
            None
        }
    }

    /// Takes a bar of one minute into a window of hours and hands back
    /// the bar of the window, if this bar finished it.
    pub fn update_bar_hour_window(&mut self, bar: BarData) -> (r: Option<BarData>)
        requires
            old(self).wf(),
            old(self).window > 0,
        ensures
            final(self).wf(),
            (*final(self), r) == old(self).after_hour_window(bar),
    {
        let finished: Option<BarData> = match self.hour_bar.take() {
            None => {
                self.hour_bar = Some(begin_hour(bar));
                None
            },
            Some(h) => {
                if minute_of(bar.datetime) == 59 {
                    Some(close_window(stretch_window(h, &bar), &bar))
                } else if hour_of(bar.datetime) != hour_of(h.datetime) {
                    self.hour_bar = Some(begin_hour(bar));
                    Some(h)
                } else {
                    self.hour_bar = Some(close_window(stretch_window(h, &bar), &bar));
                    None
                }
            },
        };
        match finished {
            Some(h) => self.on_hour_bar(h),
            None => None,
        }
    }

    /// Takes a bar of one hour into the window of hours and hands back
    /// the bar of the window, if this bar finished it.
    pub fn on_hour_bar(&mut self, bar: BarData) -> (r: Option<BarData>)
        requires
            old(self).wf(),
            old(self).window > 0,
        ensures
            final(self).wf(),
            (*final(self), r) == old(self).after_hour_bar(bar),
    {
        if self.window == 1 {
            return Some(bar);
        }
        let at: i64 = bar.datetime;
        let fed = feed_window(self.window_bar.take(), bar, at);
        let count: u32 = self.interval_count + 1;
        proof {
            vstd::arithmetic::div_mod::lemma_mod_self_0(self.window as int);
        }
        if count % self.window == 0 {
            self.interval_count = 0;
            Some(fed)
        } else {
            self.interval_count = count;
            self.window_bar = Some(fed);
            None
        }
    }

    /// Takes a bar of one minute into the bar of the day and hands back
    /// the bar of the day, if this bar finished it.
    pub fn update_bar_daily_window(&mut self, bar: BarData) -> (r: Option<BarData>)
        requires
            old(self).wf(),
            old(self).daily_end is Some,
        ensures
            final(self).wf(),
            (*final(self), r) == old(self).after_daily_bar(bar),
    {
        let at: i64 = bar.datetime;
        let mut fed = feed_window(self.daily_bar.take(), bar, at);
        if time_of_day(at) == self.daily_end.unwrap() {
            fed.datetime = floor_time(fed.datetime, MILLIS_PER_DAY);
            Some(fed)
        } else {
            self.daily_bar = Some(fed);
            None
        }
    }

    /// Hands back the bar of one minute in the making, at its whole
    /// minute, and begins anew.
    pub fn generate(&mut self) -> (r: Option<BarData>)
        requires
            old(self).wf(),
        ensures
            final(self).wf(),
            *final(self) == (BarGenerator { bar: None, ..*old(self) }),
            r == match old(self).bar {
                Some(b) => Some(bar_floored(b, MILLIS_PER_MINUTE)),
                None => None,
            },
    {
        match self.bar.take() {
            Some(b) => {
                let mut done = b;
                done.datetime = floor_time(done.datetime, MILLIS_PER_MINUTE);
                Some(done)
            },
            None => None,
        }
    }
}

fn stretch_window(w: BarData, bar: &BarData) -> (r: BarData)
    ensures
        r == window_stretched(w, *bar),
{
    let mut w = w;
    w.high_price = max_of(w.high_price, bar.high_price);
    w.low_price = min_of(w.low_price, bar.low_price);
    w
}

fn close_window(w: BarData, bar: &BarData) -> (r: BarData)
    ensures
        r == window_closed(w, *bar),
{
    let mut w = w;
    w.close_price = bar.close_price;
    w.volume = sat_add(w.volume, bar.volume);
    w.turnover = sat_add(w.turnover, bar.turnover);
    w.open_interest = bar.open_interest;
    w
}

fn begin_hour(bar: BarData) -> (r: BarData)
    ensures
        r == hour_begun(bar),
{
    let mut h = bar;
    h.interval = Interval::MINUTE;
    h.datetime = floor_time(h.datetime, MILLIS_PER_HOUR);
    h
}

fn feed_window(w: Option<BarData>, bar: BarData, datetime: i64) -> (r: BarData)
    ensures
        r == window_fed(w, bar, datetime),
{
    let begun = match w {
        Some(w) => stretch_window(w, &bar),
        None => BarData {
            gateway_name: bar.gateway_name,
            symbol: bar.symbol.clone(),
            exchange: bar.exchange.clone(),
            interval: Interval::MINUTE,
            datetime,
            volume: 0,
            turnover: 0,
            open_interest: 0,
            open_price: bar.open_price,
            high_price: bar.high_price,
            low_price: bar.low_price,
            close_price: 0,
        },
    };
    close_window(begun, &bar)
}

} // verus!
