use std::collections::BTreeMap;

use vnpyrs::backtesting::base::StrategyEvent;
use vnpyrs::backtesting::BacktestingEngine;
use vnpyrs::numeric::UNIT;
use vnpyrs::trader::constant::{Direction, Interval, Offset_};
use vnpyrs::trader::object::BarData;

const DAY: i64 = 86_400_000;
const MINUTE: i64 = 60_000;
const JAN_15: i64 = 19_737 * DAY;

/// A plain model of the two books, keyed by the text of the identifiers.
struct Model {
    limits: BTreeMap<String, (bool, i64, i64)>,
    stops: BTreeMap<String, (bool, i64, i64)>,
    limit_count: u64,
    stop_count: u64,
    trade_count: u64,
    pos: i128,
    /// Trade number, order number, long, price, volume.
    trades: Vec<(u64, u64, bool, i64, i64)>,
}

impl Model {
    fn new() -> Self {
        Model {
            limits: BTreeMap::new(),
            stops: BTreeMap::new(),
            limit_count: 0,
            stop_count: 0,
            trade_count: 0,
            pos: 0,
            trades: Vec::new(),
        }
    }

    fn send(&mut self, long: bool, price: i64, volume: i64, stop: bool) -> String {
        if stop {
            self.stop_count += 1;
            let id = format!("STOP.{:10}", self.stop_count);
            self.stops.insert(id.clone(), (long, price, volume));
            id
        } else {
            self.limit_count += 1;
            let id = format!("BACKTESTING.{:10}", self.limit_count);
            self.limits.insert(id.clone(), (long, price, volume));
            id
        }
    }

    fn cancel(&mut self, id: &str) {
        if id.starts_with("STOP") {
            self.stops.remove(id);
        } else {
            self.limits.remove(id);
        }
    }

    fn fill(&mut self, order: u64, long: bool, price: i64, volume: i64) {
        self.trade_count += 1;
        self.pos += if long { volume as i128 } else { -(volume as i128) };
        self.trades.push((self.trade_count, order, long, price, volume));
    }

    fn cross_limits(&mut self, open: i64, high: i64, low: i64) {
        let book: Vec<(String, (bool, i64, i64))> =
            self.limits.iter().map(|(k, v)| (k.clone(), *v)).collect();
        for (id, (long, price, volume)) in book {
            let crosses = if long { price >= low && low > 0 } else { price <= high && high > 0 };
            if !crosses {
                continue;
            }
            self.limits.remove(&id);
            let number: u64 = id["BACKTESTING.".len()..].trim().parse().unwrap();
            let at = if long { price.min(open) } else { price.max(open) };
            self.fill(number, long, at, volume);
        }
    }

    fn cross_stops(&mut self, open: i64, high: i64, low: i64) {
        let book: Vec<(String, (bool, i64, i64))> =
            self.stops.iter().map(|(k, v)| (k.clone(), *v)).collect();
        for (id, (long, price, volume)) in book {
            let crosses = if long { price <= high } else { price >= low };
            if !crosses {
                continue;
            }
            self.limit_count += 1;
            self.stops.remove(&id);
            let at = if long { price.max(open) } else { price.min(open) };
            self.fill(self.limit_count, long, at, volume);
        }
    }
}

struct Dice(u64);

impl Dice {
    fn roll(&mut self, sides: u64) -> u64 {
        self.0 = self.0.wrapping_mul(6_364_136_223_846_793_005).wrapping_add(1_442_695_040_888_963_407);
        (self.0 >> 33) % sides
    }
}

fn bar(datetime: i64, open: i64, high: i64, low: i64, close: i64) -> BarData {
    BarData {
        gateway_name: "DB",
        symbol: String::from("IF2401"),
        exchange: String::from("CFFEX"),
        interval: Interval::MINUTE,
        datetime,
        volume: 0,
        turnover: 0,
        open_interest: 0,
        open_price: open,
        high_price: high,
        low_price: low,
        close_price: close,
    }
}

#[test]
fn the_engine_agrees_with_a_plain_model_of_the_books() {
    let mut dice = Dice(20240115);
    let mut e = BacktestingEngine::new();
    e.set_parameters("IF2401.CFFEX", "1m", JAN_15, 0, 0, UNIT, UNIT, 0, JAN_15 + DAY, "BAR", 0, 240, 120, 0)
        .unwrap();
    e.add_strategy("dice");
    let mut model = Model::new();
    let mut live: Vec<String> = Vec::new();
    let mut heard_trades = 0usize;
    for step in 0..400i64 {
        let low = (90 + dice.roll(15) as i64) * UNIT;
        let high = low + dice.roll(12) as i64 * UNIT;
        let open = low + (dice.roll(13) as i64 * UNIT).min(high - low);
        let close = low + (dice.roll(13) as i64 * UNIT).min(high - low);
        // Now and then the bar has no low or no high to cross.
        let low = if dice.roll(40) == 0 { 0 } else { low };
        let b = bar(JAN_15 + step * 7 * MINUTE, open, high, low, close);
        let mut events = e.new_bar(&b);
        events.extend(e.cross_stop_order());
        model.cross_limits(open, high, low);
        model.cross_stops(open, high, low);
        heard_trades += events.iter().filter(|ev| matches!(ev, StrategyEvent::Trade(_, _))).count();
        for _ in 0..dice.roll(4) {
            let long = dice.roll(2) == 0;
            let stop = dice.roll(3) == 0;
            let price = (85 + dice.roll(30) as i64) * UNIT;
            let volume = (1 + dice.roll(5) as i64) * UNIT;
            let direction = if long { Direction::LONG } else { Direction::SHORT };
            let ids = e.send_order(direction, Offset_::OPEN, price, volume, stop, false, false).unwrap();
            let id = model.send(long, price, volume, stop);
            assert_eq!(ids, vec![id.clone()]);
            live.push(id);
        }
        if !live.is_empty() && dice.roll(3) == 0 {
            let id = live.remove(dice.roll(live.len() as u64) as usize);
            e.cancel_order(&id);
            model.cancel(&id);
        }
        if dice.roll(60) == 0 {
            e.cancel_all();
            model.limits.clear();
            model.stops.clear();
        }
        e.update_daily_close(close);
        let trades: Vec<(u64, u64, bool, i64, i64)> = e
            .trades
            .iter()
            .map(|t| (t.tradeid, t.orderid, t.direction == Direction::LONG, t.price, t.volume))
            .collect();
        assert_eq!(trades, model.trades);
        assert_eq!(e.pos, model.pos);
        let active: Vec<String> =
            e.limit_orders.iter().filter(|o| o.is_active()).map(|o| o.vt_orderid()).collect();
        assert_eq!(active, model.limits.keys().cloned().collect::<Vec<_>>());
        assert_eq!(e.waiting_stops as usize, model.stops.len());
    }
    assert!(model.trades.len() > 100);
    assert_eq!(heard_trades, model.trades.len());
    let table = e.calculate_result().unwrap();
    assert_eq!(*table.end_pos.last().unwrap(), model.pos);
    assert_eq!(table.trade_count.iter().sum::<u64>(), model.trades.len() as u64);
}
