use vnpyrs::numeric::{growth, max_of, min_of, sat_add, UNIT};
use vnpyrs::trader::constant::Interval;
use vnpyrs::trader::object::{BarData, TickData};
use vnpyrs::trader::utility::BarGenerator;

const DAY: i64 = 86_400_000;
const HOUR: i64 = 3_600_000;
const MINUTE: i64 = 60_000;
const JAN_15: i64 = 19_737 * DAY;

fn tick(datetime: i64, last: i64, volume: i64, high: i64, low: i64) -> TickData {
    TickData {
        gateway_name: "CTP",
        symbol: String::from("IF2401"),
        exchange: String::from("CFFEX"),
        name: String::new(),
        datetime,
        volume,
        turnover: volume * 10,
        open_interest: 500 + volume,
        last_price: last,
        last_volume: 0,
        limit_up: 0,
        limit_down: 0,
        open_price: 0,
        high_price: high,
        low_price: low,
        pre_close: 0,
        bid_price_1: 0,
        bid_price_2: 0,
        bid_price_3: 0,
        bid_price_4: 0,
        bid_price_5: 0,
        ask_price_1: 0,
        ask_price_2: 0,
        ask_price_3: 0,
        ask_price_4: 0,
        ask_price_5: 0,
        bid_volume_1: 0,
        bid_volume_2: 0,
        bid_volume_3: 0,
        bid_volume_4: 0,
        bid_volume_5: 0,
        ask_volume_1: 0,
        ask_volume_2: 0,
        ask_volume_3: 0,
        ask_volume_4: 0,
        ask_volume_5: 0,
        localtime: 0,
    }
}

fn bar(datetime: i64, open: i64, high: i64, low: i64, close: i64, volume: i64) -> BarData {
    BarData {
        gateway_name: "CTP",
        symbol: String::from("IF2401"),
        exchange: String::from("CFFEX"),
        interval: Interval::MINUTE,
        datetime,
        volume,
        turnover: volume * 100,
        open_interest: 7,
        open_price: open,
        high_price: high,
        low_price: low,
        close_price: close,
    }
}

fn ohlcv(b: &BarData) -> (i64, i64, i64, i64, i64) {
    (b.open_price, b.high_price, b.low_price, b.close_price, b.volume)
}

#[test]
fn a_default_bar_is_empty() {
    let b = BarData::default();
    assert_eq!(b.gateway_name, "");
    assert_eq!(b.symbol, "");
    assert_eq!(b.interval, Interval::MINUTE);
    assert_eq!(ohlcv(&b), (0, 0, 0, 0, 0));
    assert_eq!(b.datetime, 0);
}

#[test]
fn ticks_of_a_minute_make_one_bar() {
    let mut g = BarGenerator::new(0, Interval::MINUTE, None);
    let t0 = JAN_15 + 570 * MINUTE;
    assert!(g.update_tick(tick(t0 + 1_000, 100, 10, 100, 100)).is_none());
    assert!(g.update_tick(tick(t0 + 2_000, 103, 14, 103, 100)).is_none());
    assert!(g.update_tick(tick(t0 + 3_000, 98, 14, 103, 98)).is_none());
    // A falling count of volume adds nothing.
    assert!(g.update_tick(tick(t0 + 4_000, 101, 9, 103, 98)).is_none());
    let done = g.update_tick(tick(t0 + MINUTE + 500, 102, 12, 103, 98)).unwrap();
    assert_eq!(done.datetime, t0);
    assert_eq!(ohlcv(&done), (100, 103, 98, 101, 4));
    assert_eq!(done.turnover, 40);
    assert_eq!(done.open_interest, 509);
    assert_eq!(done.symbol, "IF2401");
    assert_eq!(done.gateway_name, "CTP");
    assert_eq!(done.interval, Interval::MINUTE);
    // The bar begun by the last tick has what the volume grew by.
    let next = g.generate().unwrap();
    assert_eq!(next.datetime, t0 + MINUTE);
    assert_eq!(ohlcv(&next), (102, 102, 102, 102, 3));
    assert!(g.generate().is_none());
}

#[test]
fn a_new_high_of_the_day_goes_into_the_bar() {
    let mut g = BarGenerator::new(0, Interval::MINUTE, None);
    let t0 = JAN_15 + 570 * MINUTE;
    g.update_tick(tick(t0, 100, 0, 105, 95));
    // The high of the day moved between the ticks, beyond the last price.
    g.update_tick(tick(t0 + 500, 101, 0, 107, 93));
    // An unchanged high and low are not taken.
    g.update_tick(tick(t0 + 900, 100, 0, 107, 93));
    let b = g.generate().unwrap();
    assert_eq!(ohlcv(&b), (100, 107, 93, 100, 0));
}

#[test]
fn a_tick_without_a_price_is_passed_over() {
    let mut g = BarGenerator::new(0, Interval::MINUTE, None);
    assert!(g.update_tick(tick(JAN_15, 0, 10, 0, 0)).is_none());
    assert!(g.bar.is_none());
    assert!(g.last_tick.is_none());
    g.update_tick(tick(JAN_15, 100, 10, 100, 100));
    assert!(g.update_tick(tick(JAN_15 + 5 * MINUTE, 0, 50, 0, 0)).is_none());
    assert_eq!(g.bar.as_ref().unwrap().datetime, JAN_15);
    assert_eq!(g.last_tick.as_ref().unwrap().volume, 10);
}

#[test]
fn a_tick_of_the_same_minute_in_another_hour_begins_a_bar() {
    let mut g = BarGenerator::new(0, Interval::MINUTE, None);
    g.update_tick(tick(JAN_15 + 9 * HOUR + 30 * MINUTE, 100, 0, 0, 0));
    let done = g.update_tick(tick(JAN_15 + 10 * HOUR + 30 * MINUTE + 10, 101, 0, 0, 0));
    assert_eq!(done.unwrap().datetime, JAN_15 + 9 * HOUR + 30 * MINUTE);
}

#[test]
fn five_minute_bars_close_on_the_multiples_of_five() {
    let mut g = BarGenerator::new(5, Interval::MINUTE, None);
    let t0 = JAN_15 + 9 * HOUR;
    let mut out = Vec::new();
    for i in 0..12 {
        let p = 100 + i;
        if let Some(w) = g.update_bar(bar(t0 + i * MINUTE + 30_000, p, p + 2, p - 1, p + 1, 10)) {
            out.push(w);
        }
    }
    assert_eq!(out.len(), 2);
    assert_eq!(out[0].datetime, t0);
    assert_eq!(ohlcv(&out[0]), (100, 106, 99, 105, 50));
    assert_eq!(out[0].turnover, 5000);
    assert_eq!(out[0].open_interest, 7);
    assert_eq!(out[1].datetime, t0 + 5 * MINUTE);
    assert_eq!(ohlcv(&out[1]), (105, 111, 104, 110, 50));
    // Two bars wait in the window.
    assert_eq!(ohlcv(g.window_bar.as_ref().unwrap()), (110, 113, 109, 112, 20));
}

#[test]
fn hours_close_on_minute_59_or_on_the_next_hour() {
    let mut g = BarGenerator::new(1, Interval::HOUR, None);
    let t0 = JAN_15 + 9 * HOUR;
    assert!(g.update_bar(bar(t0 + 57 * MINUTE, 100, 101, 99, 100, 1)).is_none());
    assert!(g.update_bar(bar(t0 + 58 * MINUTE, 100, 104, 100, 103, 2)).is_none());
    let h = g.update_bar(bar(t0 + 59 * MINUTE, 103, 103, 97, 98, 3)).unwrap();
    assert_eq!(h.datetime, t0);
    assert_eq!(ohlcv(&h), (100, 104, 97, 98, 6));
    assert!(g.hour_bar.is_none());
    // An hour that ends early is closed by the first bar of the next.
    assert!(g.update_bar(bar(t0 + HOUR + 5 * MINUTE, 50, 51, 49, 50, 1)).is_none());
    assert!(g.update_bar(bar(t0 + HOUR + 6 * MINUTE, 50, 52, 50, 51, 1)).is_none());
    let h = g.update_bar(bar(t0 + 3 * HOUR + 2 * MINUTE, 60, 61, 59, 60, 4)).unwrap();
    assert_eq!(h.datetime, t0 + HOUR);
    assert_eq!(ohlcv(&h), (50, 52, 49, 51, 2));
    assert_eq!(g.hour_bar.as_ref().unwrap().datetime, t0 + 3 * HOUR);
    assert_eq!(ohlcv(g.hour_bar.as_ref().unwrap()), (60, 61, 59, 60, 4));
}

#[test]
fn windows_of_hours_count_their_hours() {
    let mut g = BarGenerator::new(2, Interval::HOUR, None);
    let t0 = JAN_15 + 9 * HOUR;
    let mut out = Vec::new();
    for h in 0..5 {
        for m in [0, 59] {
            let p = 100 + 10 * h;
            if let Some(w) = g.update_bar(bar(t0 + h * HOUR + m * MINUTE, p, p + 1, p - 1, p, 1)) {
                out.push(w);
            }
        }
    }
    assert_eq!(out.len(), 2);
    assert_eq!(out[0].datetime, t0);
    assert_eq!(ohlcv(&out[0]), (100, 111, 99, 110, 4));
    assert_eq!(out[1].datetime, t0 + 2 * HOUR);
    assert_eq!(ohlcv(&out[1]), (120, 131, 119, 130, 4));
    assert_eq!(g.interval_count, 1);
    assert_eq!(g.window_bar.as_ref().unwrap().datetime, t0 + 4 * HOUR);
}

#[test]
fn the_bar_of_the_day_closes_at_its_time() {
    let end = 15 * HOUR;
    let mut g = BarGenerator::new(0, Interval::DAILY, Some(end));
    let t0 = JAN_15 + 9 * HOUR;
    assert!(g.update_bar(bar(t0, 100, 101, 99, 100, 5)).is_none());
    assert!(g.update_bar(bar(t0 + HOUR, 100, 108, 100, 107, 5)).is_none());
    let d = g.update_bar(bar(JAN_15 + end, 107, 107, 90, 95, 5)).unwrap();
    assert_eq!(d.datetime, JAN_15);
    assert_eq!(ohlcv(&d), (100, 108, 90, 95, 15));
    assert!(g.daily_bar.is_none());
    // A weekly generator is fed as a daily one.
    let mut g = BarGenerator::new(0, Interval::WEEKLY, Some(end));
    assert!(g.update_bar(bar(t0, 1, 1, 1, 1, 1)).is_none());
    assert!(g.update_bar(bar(JAN_15 + end, 1, 1, 1, 1, 1)).is_some());
}

#[test]
fn sums_are_held_to_the_range() {
    assert_eq!(sat_add(i64::MAX, 1), i64::MAX);
    assert_eq!(sat_add(i64::MIN, -1), i64::MIN);
    assert_eq!(sat_add(5, -7), -2);
    assert_eq!(growth(10, 4), 6);
    assert_eq!(growth(4, 10), 0);
    assert_eq!(growth(i64::MAX, i64::MIN), i64::MAX);
    assert_eq!(max_of(3, -3), 3);
    assert_eq!(min_of(3, -3), -3);
    let mut g = BarGenerator::new(3, Interval::MINUTE, None);
    g.update_bar(bar(JAN_15, 1, 1, 1, 1, i64::MAX / 100));
    g.update_bar(bar(JAN_15 + MINUTE, 1, 1, 1, 1, i64::MAX / 100));
    let w = g.update_bar(bar(JAN_15 + 2 * MINUTE, 1, 1, 1, 1, 1)).unwrap();
    assert_eq!(w.volume, 2 * (i64::MAX / 100) + 1);
    assert_eq!(w.turnover, i64::MAX);
    assert_eq!(UNIT, 100_000_000);
}
