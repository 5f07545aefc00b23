use vnpyrs::backtesting::daily::DailyResult;
use vnpyrs::backtesting::engine::BacktestingEngine;
use vnpyrs::error::ErrorKind;
use vnpyrs::numeric::UNIT;
use vnpyrs::trader::constant::{Direction, Interval, Offset_};
use vnpyrs::trader::object::{BarData, TradeData};

const DAY: i64 = 86_400_000;
const MINUTE: i64 = 60_000;
const JAN_15: i64 = 19_737 * DAY;

fn px(whole: i64) -> i64 {
    whole * UNIT
}

fn amount(whole: i64) -> i128 {
    whole as i128 * UNIT as i128
}

fn bar(datetime: i64, open: i64, high: i64, low: i64, close: i64) -> BarData {
    BarData {
        gateway_name: "DB",
        symbol: String::from("IF2401"),
        exchange: String::from("CFFEX"),
        interval: Interval::MINUTE,
        datetime,
        volume: 0,
        turnover: 0,
        open_interest: 0,
        open_price: px(open),
        high_price: px(high),
        low_price: px(low),
        close_price: px(close),
    }
}

fn trade(tradeid: u64, direction: Direction, price: i64, volume: i64, datetime: i64) -> TradeData {
    TradeData {
        gateway_name: "BACKTESTING",
        symbol: String::from("IF2401"),
        exchange: String::from("CFFEX"),
        orderid: tradeid,
        tradeid,
        direction,
        offset: Offset_::OPEN,
        price,
        volume,
        datetime,
    }
}

fn engine(rate: i64, slippage: i64, size: i64) -> BacktestingEngine {
    let mut e = BacktestingEngine::new();
    e.set_parameters(
        "IF2401.CFFEX",
        "1m",
        JAN_15,
        rate,
        slippage,
        size,
        UNIT / 100,
        px(1_000_000),
        JAN_15 + 30 * DAY,
        "BAR",
        0,
        240,
        120,
        JAN_15 + 400 * DAY,
    )
    .unwrap();
    e.add_strategy("probe");
    e
}

#[test]
fn a_trade_is_booked_on_the_day_of_its_date() {
    let mut e = engine(0, 0, UNIT);
    // 2024-01-15 09:29 and 09:30.
    e.new_bar(&bar(JAN_15 + 569 * MINUTE, 100, 101, 99, 100));
    e.send_order(Direction::LONG, Offset_::OPEN, px(100), px(1), false, false, false).unwrap();
    e.update_daily_close(px(100));
    e.new_bar(&bar(JAN_15 + 570 * MINUTE, 100, 103, 100, 102));
    e.update_daily_close(px(102));
    let table = e.calculate_result().unwrap();
    assert_eq!(table.date, vec![19_737]);
    assert_eq!(table.close_price, vec![px(102)]);
    assert_eq!(table.pre_close, vec![UNIT]);
    assert_eq!(table.trade_count, vec![1]);
    assert_eq!(table.start_pos, vec![0]);
    assert_eq!(table.end_pos, vec![amount(1)]);
    assert_eq!(table.trading_pnl, vec![amount(2)]);
    assert_eq!(table.holding_pnl, vec![0]);
    assert_eq!(table.total_pnl, vec![amount(2)]);
    assert_eq!(table.net_pnl, vec![amount(2)]);
    assert_eq!(table.turnover, vec![amount(100)]);
    assert_eq!(table.commission, vec![0]);
    assert_eq!(table.slippage, vec![0]);
    let days = e.get_all_daily_results();
    assert_eq!(days.len(), 1);
    assert_eq!(days[0].trades.len(), 1);
    assert_eq!(days[0].trades[0].price, px(100));
}

#[test]
fn a_position_held_over_night_earns_the_move_of_the_close() {
    let mut e = engine(0, 0, UNIT);
    e.new_bar(&bar(JAN_15 + 569 * MINUTE, 100, 101, 99, 100));
    e.send_order(Direction::LONG, Offset_::OPEN, px(100), px(1), false, false, false).unwrap();
    e.update_daily_close(px(100));
    e.new_bar(&bar(JAN_15 + 570 * MINUTE, 100, 100, 100, 100));
    e.update_daily_close(px(100));
    e.new_bar(&bar(JAN_15 + DAY + 570 * MINUTE, 104, 106, 103, 105));
    e.update_daily_close(px(105));
    let table = e.calculate_result().unwrap();
    assert_eq!(table.date, vec![19_737, 19_738]);
    assert_eq!(table.start_pos, vec![0, amount(1)]);
    assert_eq!(table.end_pos, vec![amount(1), amount(1)]);
    assert_eq!(table.pre_close, vec![UNIT, px(100)]);
    assert_eq!(table.holding_pnl, vec![0, amount(5)]);
    assert_eq!(table.trading_pnl, vec![0, 0]);
    assert_eq!(table.net_pnl, vec![0, amount(5)]);
    assert_eq!(table.trade_count, vec![1, 0]);
}

#[test]
fn the_last_day_ends_with_the_sum_of_the_trades() {
    let mut e = engine(0, 0, UNIT);
    let mut t = JAN_15;
    e.new_bar(&bar(t, 100, 101, 99, 100));
    for day in 0..6 {
        for step in 0..5 {
            let p = 100 + (day * 3 + step) % 7;
            if step % 2 == 0 {
                e.send_order(Direction::LONG, Offset_::OPEN, px(p + 1), px(2), false, false, false).unwrap();
            } else {
                e.send_order(Direction::SHORT, Offset_::CLOSE, px(p - 1), px(1), step == 3, false, false).unwrap();
            }
            e.update_daily_close(px(p));
            t = JAN_15 + day * DAY + (step + 1) * MINUTE;
            e.new_bar(&bar(t, p, p + 2, p - 2, p));
            e.cross_stop_order();
        }
    }
    e.update_daily_close(px(100));
    let trades = e.get_all_trades();
    assert!(trades.len() > 10);
    let mut sum: i128 = 0;
    for tr in &trades {
        sum += if tr.direction == Direction::LONG { tr.volume as i128 } else { -(tr.volume as i128) };
    }
    assert_eq!(sum, e.pos);
    let table = e.calculate_result().unwrap();
    assert_eq!(table.date.len(), 6);
    assert_eq!(*table.end_pos.last().unwrap(), sum);
    for i in 1..table.date.len() {
        assert_eq!(table.pre_close[i], table.close_price[i - 1]);
        assert_eq!(table.start_pos[i], table.end_pos[i - 1]);
        assert!(table.date[i - 1] < table.date[i]);
    }
    assert_eq!(table.pre_close[0], UNIT);
    assert_eq!(table.trade_count.iter().sum::<u64>(), trades.len() as u64);
}

#[test]
fn a_close_of_zero_is_replaced_by_one_on_the_next_day() {
    let mut e = engine(0, 0, UNIT);
    e.new_bar(&bar(JAN_15, 0, 0, 0, 0));
    e.update_daily_close(0);
    e.new_bar(&bar(JAN_15 + DAY, 5, 5, 5, 5));
    e.update_daily_close(px(5));
    let table = e.calculate_result().unwrap();
    assert_eq!(table.close_price, vec![0, px(5)]);
    assert_eq!(table.pre_close, vec![UNIT, UNIT]);
}

#[test]
fn calculate_result_waits_for_the_close_of_the_record() {
    let mut e = engine(0, 0, UNIT);
    e.new_bar(&bar(JAN_15, 100, 101, 99, 100));
    assert_eq!(e.calculate_result().err(), Some(ErrorKind::Contract));
    assert_eq!(e.get_all_daily_results().len(), 0);
    e.update_daily_close(px(100));
    assert!(e.calculate_result().is_ok());
}

#[test]
fn calculate_result_can_be_repeated() {
    let mut e = engine(25_000, UNIT / 5, 10 * UNIT);
    e.new_bar(&bar(JAN_15, 100, 101, 99, 100));
    e.send_order(Direction::SHORT, Offset_::OPEN, px(100), px(3), false, false, false).unwrap();
    e.update_daily_close(px(100));
    e.new_bar(&bar(JAN_15 + MINUTE, 101, 102, 100, 98));
    e.update_daily_close(px(98));
    let first = format!("{:?}", e.calculate_result().unwrap());
    let second = format!("{:?}", e.calculate_result().unwrap());
    assert_eq!(first, second);
    assert_eq!(e.get_all_daily_results()[0].trades.len(), 1);
}

#[test]
fn update_daily_close_keeps_the_days_in_order() {
    let mut e = engine(0, 0, UNIT);
    for (day, close) in [(3, 30), (1, 10), (2, 20), (1, 11), (5, 50), (3, 31)] {
        e.new_bar(&bar(JAN_15 + day * DAY + 5 * MINUTE, close, close, close, close));
        e.update_daily_close(px(close));
    }
    let days = e.get_all_daily_results();
    let dates: Vec<i64> = days.iter().map(|d| d.date - 19_737).collect();
    let closes: Vec<i64> = days.iter().map(|d| d.close_price).collect();
    assert_eq!(dates, vec![1, 2, 3, 5]);
    assert_eq!(closes, vec![px(11), px(20), px(31), px(50)]);
}

#[test]
fn a_day_is_accounted_by_its_formulas() {
    let mut day = DailyResult::new(19_737, px(102));
    day.add_trade(trade(1, Direction::LONG, px(100), px(3), JAN_15));
    day.add_trade(trade(2, Direction::SHORT, px(104), px(1), JAN_15 + 1));
    // size 10, rate 0.0001, slippage 0.2 per unit.
    day.calculate_pnl(px(101), amount(2), 10 * UNIT, 10_000, UNIT / 5).unwrap();
    assert_eq!(day.pre_close, px(101));
    assert_eq!(day.start_pos, amount(2));
    assert_eq!(day.end_pos, amount(4));
    assert_eq!(day.trade_count, 2);
    // 2 * (102 - 101) * 10
    assert_eq!(day.holding_pnl, amount(20));
    // 3 * (102 - 100) * 10 - 1 * (102 - 104) * 10
    assert_eq!(day.trading_pnl, amount(80));
    assert_eq!(day.total_pnl, amount(100));
    // 3 * 10 * 100 + 1 * 10 * 104
    assert_eq!(day.turnover, amount(4040));
    // 4040 * 0.0001
    assert_eq!(day.commission, 40_400_000);
    // (3 + 1) * 10 * 0.2
    assert_eq!(day.slippage, amount(8));
    assert_eq!(day.net_pnl, amount(100) - 40_400_000 - amount(8));
}

#[test]
fn a_day_without_a_previous_close_is_marked_against_one() {
    let mut day = DailyResult::new(0, px(7));
    day.calculate_pnl(0, amount(1), UNIT, 0, 0).unwrap();
    assert_eq!(day.pre_close, UNIT);
    assert_eq!(day.holding_pnl, amount(6));
    assert_eq!(day.net_pnl, amount(6));
    assert_eq!(day.end_pos, amount(1));
}

#[test]
fn a_day_that_does_not_fit_is_left_as_it_was() {
    let mut day = DailyResult::new(0, i64::MAX);
    day.add_trade(trade(1, Direction::LONG, i64::MIN, i64::MAX, 0));
    let r = day.calculate_pnl(px(1), 0, i64::MAX, i64::MAX, i64::MAX);
    assert_eq!(r, Err(ErrorKind::Numeric));
    assert_eq!(day.trade_count, 0);
    assert_eq!(day.pre_close, 0);
    assert_eq!(day.turnover, 0);
    let mut day = DailyResult::new(0, px(1));
    assert_eq!(day.calculate_pnl(px(2), i128::MAX, UNIT, 0, 0), Err(ErrorKind::Numeric));
}

#[test]
fn a_net_trade_counts_as_a_sale() {
    let mut day = DailyResult::new(0, px(10));
    day.add_trade(trade(1, Direction::NET, px(10), px(2), 0));
    day.calculate_pnl(px(10), 0, UNIT, 0, 0).unwrap();
    assert_eq!(day.end_pos, -amount(2));
}
