use vnpyrs::backtesting::base::{BacktestingMode, StopOrderStatus, StrategyEvent};
use vnpyrs::backtesting::engine::{BacktestingEngine, ReplayPhase};
use vnpyrs::backtesting::replay::ReplayStep;
use vnpyrs::error::ErrorKind;
use vnpyrs::numeric::UNIT;
use vnpyrs::trader::constant::{Direction, Interval, Offset_, Status};
use vnpyrs::trader::object::{BarData, MixData, TickData};

const DAY: i64 = 86_400_000;
const MINUTE: i64 = 60_000;
/// 2024-01-15T00:00:00.
const JAN_15: i64 = 19_737 * DAY;

fn px(whole: i64) -> i64 {
    whole * UNIT
}

fn bar(datetime: i64, open: i64, high: i64, low: i64, close: i64) -> BarData {
    BarData {
        gateway_name: "DB",
        symbol: String::from("IF2401"),
        exchange: String::from("CFFEX"),
        interval: Interval::MINUTE,
        datetime,
        volume: 0,
        turnover: 0,
        open_interest: 0,
        open_price: px(open),
        high_price: px(high),
        low_price: px(low),
        close_price: px(close),
    }
}

fn tick(datetime: i64, last: i64, bid: i64, ask: i64) -> TickData {
    TickData {
        gateway_name: "DB",
        symbol: String::from("IF2401"),
        exchange: String::from("CFFEX"),
        name: String::new(),
        datetime,
        volume: 0,
        turnover: 0,
        open_interest: 0,
        last_price: px(last),
        last_volume: 0,
        limit_up: 0,
        limit_down: 0,
        open_price: 0,
        high_price: 0,
        low_price: 0,
        pre_close: 0,
        bid_price_1: px(bid),
        bid_price_2: 0,
        bid_price_3: 0,
        bid_price_4: 0,
        bid_price_5: 0,
        ask_price_1: px(ask),
        ask_price_2: 0,
        ask_price_3: 0,
        ask_price_4: 0,
        ask_price_5: 0,
        bid_volume_1: 0,
        bid_volume_2: 0,
        bid_volume_3: 0,
        bid_volume_4: 0,
        bid_volume_5: 0,
        ask_volume_1: 0,
        ask_volume_2: 0,
        ask_volume_3: 0,
        ask_volume_4: 0,
        ask_volume_5: 0,
        localtime: 0,
    }
}

fn engine(mode: &str) -> BacktestingEngine {
    let mut e = BacktestingEngine::new();
    e.set_parameters(
        "IF2401.CFFEX",
        "1m",
        JAN_15,
        0,
        0,
        UNIT,
        UNIT / 100,
        px(1_000_000),
        JAN_15 + 30 * DAY,
        mode,
        0,
        240,
        120,
        JAN_15 + 400 * DAY,
    )
    .unwrap();
    e.add_strategy("probe");
    e
}

#[test]
fn gap_down_fills_a_long_limit_at_the_open() {
    let mut e = engine("BAR");
    let b1 = bar(JAN_15 + 570 * MINUTE, 100, 101, 99, 100);
    let b2 = bar(JAN_15 + 571 * MINUTE, 90, 91, 89, 90);
    assert!(e.new_bar(&b1).is_empty());
    let ids = e.send_order(Direction::LONG, Offset_::OPEN, px(95), px(1), false, false, false);
    assert_eq!(ids, Ok(vec![String::from("BACKTESTING.         1")]));
    e.update_daily_close(b1.close_price);
    let events = e.new_bar(&b2);
    assert_eq!(events.len(), 3);
    match &events[0] {
        StrategyEvent::Order(o) => assert_eq!(o.status, Status::NOTTRADED),
        _ => panic!("the order is heard of as pending first"),
    }
    match &events[1] {
        StrategyEvent::Order(o) => {
            assert_eq!(o.status, Status::ALLTRADED);
            assert_eq!(o.traded, px(1));
        }
        _ => panic!("the order is heard of as filled second"),
    }
    match &events[2] {
        StrategyEvent::Trade(t, pos) => {
            assert_eq!(t.price, px(90));
            assert_eq!(t.volume, px(1));
            assert_eq!(t.direction, Direction::LONG);
            assert_eq!(t.tradeid, 1);
            assert_eq!(t.orderid, 1);
            assert_eq!(t.datetime, b2.datetime);
            assert_eq!(t.vt_tradeid(), "BACKTESTING.         1");
            assert_eq!(*pos, px(1) as i128);
        }
        _ => panic!("the trade is heard of last"),
    }
    e.update_daily_close(b2.close_price);
    assert_eq!(e.pos, px(1) as i128);
    assert_eq!(e.get_all_trades().len(), 1);
    assert!(!e.get_all_orders()[0].is_active());
}

#[test]
fn stop_triggers_and_fills_on_the_same_bar() {
    let mut e = engine("BAR");
    let b0 = bar(JAN_15 + 570 * MINUTE, 50, 51, 49, 50);
    let b1 = bar(JAN_15 + 571 * MINUTE, 50, 60, 45, 55);
    e.new_bar(&b0);
    let ids = e.send_order(Direction::LONG, Offset_::OPEN, px(52), px(1), true, false, false);
    assert_eq!(ids, Ok(vec![String::from("STOP.         1")]));
    e.update_daily_close(b0.close_price);
    assert!(e.new_bar(&b1).is_empty());
    let events = e.cross_stop_order();
    assert_eq!(events.len(), 3);
    match &events[0] {
        StrategyEvent::StopOrder(s) => {
            assert_eq!(s.status, StopOrderStatus::TRIGGERED);
            assert_eq!(s.vt_orderids, vec![1]);
            assert_eq!(s.stop_orderid_text(), "STOP.         1");
        }
        _ => panic!("the stop is heard of first"),
    }
    match &events[1] {
        StrategyEvent::Order(o) => {
            assert_eq!(o.status, Status::ALLTRADED);
            assert_eq!(o.price, px(52));
            assert_eq!(o.traded, o.volume);
            assert_eq!(o.vt_orderid(), "BACKTESTING.         1");
        }
        _ => panic!("the spawned order is heard of second"),
    }
    match &events[2] {
        StrategyEvent::Trade(t, pos) => {
            assert_eq!(t.price, px(52));
            assert_eq!(*pos, px(1) as i128);
        }
        _ => panic!("the trade is heard of last"),
    }
    assert_eq!(e.pos, px(1) as i128);
    assert_eq!(e.get_all_trades().len(), 1);
    assert_eq!(e.waiting_stops, 0);
    // The spawned order never was active.
    assert!(e.cancel_order("BACKTESTING.         1").is_empty());
}

#[test]
fn stop_fills_at_the_open_where_the_bar_gaps_over_it() {
    let mut e = engine("BAR");
    e.new_bar(&bar(JAN_15, 50, 51, 49, 50));
    e.send_order(Direction::LONG, Offset_::OPEN, px(52), px(2), true, false, false).unwrap();
    e.send_order(Direction::SHORT, Offset_::OPEN, px(48), px(3), true, false, false).unwrap();
    e.update_daily_close(px(50));
    // Gap up: the long stop fills at the open, above its price.
    e.new_bar(&bar(JAN_15 + MINUTE, 55, 56, 54, 55));
    let events = e.cross_stop_order();
    assert_eq!(events.len(), 3);
    let trades = e.get_all_trades();
    assert_eq!(trades.len(), 1);
    assert_eq!(trades[0].price, px(55));
    assert_eq!(e.pos, px(2) as i128);
    e.update_daily_close(px(55));
    // Gap down: the short stop fills at the open, below its price.
    e.new_bar(&bar(JAN_15 + 2 * MINUTE, 40, 41, 39, 40));
    e.cross_stop_order();
    let trades = e.get_all_trades();
    assert_eq!(trades.len(), 2);
    assert_eq!(trades[1].price, px(40));
    assert_eq!(trades[1].direction, Direction::SHORT);
    assert_eq!(e.pos, px(2) as i128 - px(3) as i128);
}

#[test]
fn limit_that_does_not_cross_stays_in_the_book() {
    let mut e = engine("BAR");
    e.new_bar(&bar(JAN_15, 25, 30, 20, 28));
    e.send_order(Direction::LONG, Offset_::OPEN, px(10), px(1), false, false, false).unwrap();
    assert_eq!(e.get_all_orders()[0].status, Status::SUBMITTING);
    e.update_daily_close(px(28));
    let events = e.new_bar(&bar(JAN_15 + MINUTE, 25, 30, 20, 28));
    assert_eq!(events.len(), 1);
    match &events[0] {
        StrategyEvent::Order(o) => assert_eq!(o.status, Status::NOTTRADED),
        _ => panic!("only the order is heard of"),
    }
    let orders = e.get_all_orders();
    assert_eq!(orders[0].status, Status::NOTTRADED);
    assert!(orders[0].is_active());
    assert_eq!(e.get_all_trades().len(), 0);
    // The next crossing has nothing new to say.
    e.update_daily_close(px(28));
    assert!(e.new_bar(&bar(JAN_15 + 2 * MINUTE, 25, 30, 20, 28)).is_empty());
}

#[test]
fn short_limit_fills_at_the_open_on_a_gap_up() {
    let mut e = engine("BAR");
    e.new_bar(&bar(JAN_15, 100, 101, 99, 100));
    e.send_order(Direction::SHORT, Offset_::OPEN, px(105), px(1), false, false, false).unwrap();
    e.update_daily_close(px(100));
    e.new_bar(&bar(JAN_15 + MINUTE, 110, 111, 109, 110));
    let trades = e.get_all_trades();
    assert_eq!(trades.len(), 1);
    assert_eq!(trades[0].price, px(110));
    assert_eq!(e.pos, -(px(1) as i128));
}

#[test]
fn limit_fills_at_its_own_price_inside_the_bar() {
    let mut e = engine("BAR");
    e.new_bar(&bar(JAN_15, 100, 101, 99, 100));
    e.send_order(Direction::LONG, Offset_::OPEN, px(95), px(1), false, false, false).unwrap();
    e.send_order(Direction::SHORT, Offset_::OPEN, px(104), px(1), false, false, false).unwrap();
    e.update_daily_close(px(100));
    e.new_bar(&bar(JAN_15 + MINUTE, 100, 105, 94, 100));
    let trades = e.get_all_trades();
    assert_eq!(trades.len(), 2);
    assert_eq!(trades[0].price, px(95));
    assert_eq!(trades[1].price, px(104));
    assert_eq!(trades[0].tradeid, 1);
    assert_eq!(trades[1].tradeid, 2);
    assert_eq!(e.pos, 0);
}

#[test]
fn a_cross_price_of_zero_crosses_no_limit_order() {
    let mut e = engine("TICK");
    e.new_tick(&tick(JAN_15, 100, 99, 101));
    e.send_order(Direction::LONG, Offset_::OPEN, px(200), px(1), false, false, false).unwrap();
    e.send_order(Direction::SHORT, Offset_::OPEN, px(1), px(1), false, false, false).unwrap();
    e.update_daily_close(px(100));
    // No ask and no bid: nothing crosses.
    let events = e.new_tick(&tick(JAN_15 + 1, 100, 0, 0));
    assert_eq!(events.len(), 2);
    assert_eq!(e.get_all_trades().len(), 0);
    e.update_daily_close(px(100));
    // With a book the long pays the ask and the short gets the bid.
    e.new_tick(&tick(JAN_15 + 2, 100, 99, 101));
    let trades = e.get_all_trades();
    assert_eq!(trades.len(), 2);
    assert_eq!(trades[0].price, px(101));
    assert_eq!(trades[1].price, px(99));
}

#[test]
fn stops_trigger_on_the_last_price_of_a_tick() {
    let mut e = engine("TICK");
    e.new_tick(&tick(JAN_15, 100, 99, 101));
    e.send_order(Direction::LONG, Offset_::OPEN, px(102), px(1), true, false, false).unwrap();
    e.update_daily_close(px(100));
    assert!(e.new_tick(&tick(JAN_15 + 1, 101, 100, 102)).is_empty());
    assert!(e.cross_stop_order().is_empty());
    e.update_daily_close(px(101));
    assert!(e.new_tick(&tick(JAN_15 + 2, 103, 102, 104)).is_empty());
    let events = e.cross_stop_order();
    assert_eq!(events.len(), 3);
    assert_eq!(e.get_all_trades()[0].price, px(103));
}

#[test]
fn cancel_all_empties_both_books() {
    let mut e = engine("BAR");
    e.new_bar(&bar(JAN_15, 100, 101, 99, 100));
    for p in [90, 91, 92] {
        e.send_order(Direction::LONG, Offset_::OPEN, px(p), px(1), false, false, false).unwrap();
    }
    for p in [120, 121] {
        e.send_order(Direction::LONG, Offset_::OPEN, px(p), px(1), true, false, false).unwrap();
    }
    let events = e.cancel_all();
    assert_eq!(events.len(), 5);
    for (i, ev) in events.iter().enumerate() {
        match ev {
            StrategyEvent::Order(o) => {
                assert!(i < 3);
                assert_eq!(o.status, Status::CANCELLED);
                assert_eq!(o.orderid, i as u64 + 1);
            }
            StrategyEvent::StopOrder(s) => {
                assert!(i >= 3);
                assert_eq!(s.status, StopOrderStatus::CANCELLED);
                assert_eq!(s.stop_orderid, i as u64 - 2);
            }
            StrategyEvent::Trade(_, _) => panic!("a cancellation makes no trade"),
        }
    }
    assert!(e.get_all_orders().iter().all(|o| !o.is_active()));
    assert!(e.stop_orders.iter().all(|s| s.status == StopOrderStatus::CANCELLED));
    assert_eq!(e.waiting_stops, 0);
    assert!(e.cancel_all().is_empty());
    // Nothing is left to cross.
    e.update_daily_close(px(100));
    assert!(e.new_bar(&bar(JAN_15 + MINUTE, 80, 130, 70, 100)).is_empty());
    assert!(e.cross_stop_order().is_empty());
    assert_eq!(e.get_all_trades().len(), 0);
}

#[test]
fn cancel_order_goes_by_the_prefix_and_ignores_unknown_ids() {
    let mut e = engine("BAR");
    e.new_bar(&bar(JAN_15, 100, 101, 99, 100));
    let limit = e.send_order(Direction::LONG, Offset_::OPEN, px(90), px(1), false, false, false).unwrap();
    let stop = e.send_order(Direction::LONG, Offset_::OPEN, px(120), px(1), true, false, false).unwrap();
    assert!(e.cancel_order("BACKTESTING.         9").is_empty());
    assert!(e.cancel_order("STOP.         9").is_empty());
    assert!(e.cancel_order("").is_empty());
    assert!(e.cancel_order("BACKTESTING.1").is_empty());
    let events = e.cancel_order(&stop[0]);
    assert_eq!(events.len(), 1);
    assert!(matches!(&events[0], StrategyEvent::StopOrder(s) if s.status == StopOrderStatus::CANCELLED));
    let events = e.cancel_order(&limit[0]);
    assert_eq!(events.len(), 1);
    assert!(matches!(&events[0], StrategyEvent::Order(o) if o.status == Status::CANCELLED));
    // A second cancel finds nothing.
    assert!(e.cancel_order(&stop[0]).is_empty());
    assert!(e.cancel_order(&limit[0]).is_empty());
}

#[test]
fn send_order_rounds_the_price_to_the_tick() {
    let mut e = engine("BAR");
    e.new_bar(&bar(JAN_15, 100, 101, 99, 100));
    e.send_order(Direction::LONG, Offset_::OPEN, 9_512_345_678, px(1), false, false, false).unwrap();
    assert_eq!(e.get_all_orders()[0].price, 9_512_000_000);
    e.send_order(Direction::LONG, Offset_::OPEN, 9_512_545_678, px(1), true, false, false).unwrap();
    assert_eq!(e.stop_orders[0].price, 9_513_000_000);
}

#[test]
fn send_order_without_a_price_tick_is_a_numeric_error() {
    let mut e = BacktestingEngine::new();
    e.new_bar(&bar(JAN_15, 100, 101, 99, 100));
    let r = e.send_order(Direction::LONG, Offset_::OPEN, px(95), px(1), false, false, false);
    assert_eq!(r, Err(ErrorKind::Numeric));
    assert!(e.get_all_orders().is_empty());
}

#[test]
fn order_ids_rise_across_limit_orders_and_spawned_orders() {
    let mut e = engine("BAR");
    e.new_bar(&bar(JAN_15, 100, 101, 99, 100));
    let a = e.send_order(Direction::LONG, Offset_::OPEN, px(50), px(1), false, false, false).unwrap();
    e.send_order(Direction::LONG, Offset_::OPEN, px(105), px(1), true, false, false).unwrap();
    e.update_daily_close(px(100));
    e.new_bar(&bar(JAN_15 + MINUTE, 106, 107, 105, 106));
    e.cross_stop_order();
    let b = e.send_order(Direction::LONG, Offset_::OPEN, px(51), px(1), false, false, false).unwrap();
    let orders = e.get_all_orders();
    assert_eq!(orders.len(), 3);
    let ids: Vec<String> = orders.iter().map(|o| o.vt_orderid()).collect();
    assert_eq!(ids[0], a[0]);
    assert_eq!(ids[2], b[0]);
    assert!(ids[0] < ids[1] && ids[1] < ids[2]);
    assert_eq!(orders[1].status, Status::ALLTRADED);
}

fn heard(seen: &mut Vec<String>, events: &[StrategyEvent]) {
    for ev in events {
        seen.push(match ev {
            StrategyEvent::Order(o) => format!("order {} {:?}", o.orderid, o.status),
            StrategyEvent::Trade(t, pos) => format!("trade {} @{} pos {}", t.tradeid, t.price, pos),
            StrategyEvent::StopOrder(s) => format!("stop {} {:?}", s.stop_orderid, s.status),
        });
    }
}

fn run_to_end(e: &mut BacktestingEngine, mut on_record: impl FnMut(&mut BacktestingEngine, usize)) -> Vec<String> {
    let mut seen = Vec::new();
    let mut i = 0;
    loop {
        match e.run_backtesting(false).unwrap() {
            ReplayStep::Init => seen.push(String::from("init")),
            ReplayStep::Start => seen.push(String::from("start")),
            ReplayStep::Crossed { events } => heard(&mut seen, &events),
            ReplayStep::Record { events, record, progress: _ } => {
                heard(&mut seen, &events);
                seen.push(match record {
                    MixData::BarData(b) => format!("bar {}", b.datetime),
                    MixData::TickData(t) => format!("tick {}", t.datetime),
                });
                on_record(e, i);
                i += 1;
            }
            ReplayStep::Stop => seen.push(String::from("stop")),
            ReplayStep::Finished => break,
        }
    }
    seen
}

#[test]
fn a_run_goes_through_its_steps_in_order() {
    let mut e = engine("BAR");
    let t0 = JAN_15 + 570 * MINUTE;
    e.extend_history(vec![
        MixData::BarData(bar(t0, 100, 101, 99, 100)),
        MixData::BarData(bar(t0 + MINUTE, 90, 91, 89, 90)),
    ]);
    assert_eq!(e.phase, ReplayPhase::Idle);
    let seen = run_to_end(&mut e, |e, i| {
        if i == 0 {
            e.send_order(Direction::LONG, Offset_::OPEN, px(95), px(1), false, false, false).unwrap();
        }
    });
    assert_eq!(
        seen,
        vec![
            String::from("init"),
            String::from("start"),
            format!("bar {}", t0),
            String::from("order 1 NOTTRADED"),
            String::from("order 1 ALLTRADED"),
            format!("trade 1 @{} pos {}", px(90), px(1)),
            format!("bar {}", t0 + MINUTE),
            String::from("stop"),
        ]
    );
    assert!(e.inited && e.trading);
    assert_eq!(e.phase, ReplayPhase::Finished);
    assert_eq!(e.pos, px(1) as i128);
    assert!(e.pending_close.is_none());
    assert!(matches!(e.run_backtesting(false), Ok(ReplayStep::Finished)));
}

#[test]
fn a_run_reports_progress_every_tenth() {
    let mut e = engine("BAR");
    let records: Vec<MixData> =
        (0..25).map(|i| MixData::BarData(bar(JAN_15 + i * MINUTE, 100, 101, 99, 100))).collect();
    e.extend_history(records);
    let mut marks = Vec::new();
    let mut i = 0;
    loop {
        match e.run_backtesting(false).unwrap() {
            ReplayStep::Record { progress, .. } => {
                if let Some(p) = progress {
                    marks.push((i, p));
                }
                i += 1;
            }
            ReplayStep::Finished => break,
            _ => {}
        }
    }
    let expected: Vec<(usize, usize)> = (0..13).map(|k| (2 * k, k)).collect();
    assert_eq!(marks, expected);
}

#[test]
fn a_cancelled_run_ends_with_that_error_and_keeps_its_trades() {
    let mut e = engine("BAR");
    e.extend_history(vec![
        MixData::BarData(bar(JAN_15, 100, 101, 99, 100)),
        MixData::BarData(bar(JAN_15 + MINUTE, 90, 91, 89, 90)),
        MixData::BarData(bar(JAN_15 + 2 * MINUTE, 90, 91, 89, 90)),
    ]);
    assert!(matches!(e.run_backtesting(false), Ok(ReplayStep::Init)));
    assert!(matches!(e.run_backtesting(false), Ok(ReplayStep::Start)));
    assert!(matches!(e.run_backtesting(false), Ok(ReplayStep::Crossed { .. })));
    assert_eq!(e.phase, ReplayPhase::Crossing);
    assert!(matches!(e.run_backtesting(false), Ok(ReplayStep::Record { .. })));
    e.send_order(Direction::LONG, Offset_::OPEN, px(95), px(1), false, false, false).unwrap();
    assert!(matches!(e.run_backtesting(false), Ok(ReplayStep::Crossed { .. })));
    // The cancellation is looked at before a record, not within it.
    assert!(matches!(e.run_backtesting(true), Ok(ReplayStep::Record { .. })));
    assert_eq!(e.run_backtesting(true).err(), Some(ErrorKind::Cancelled));
    assert_eq!(e.phase, ReplayPhase::Finished);
    assert_eq!(e.get_all_trades().len(), 1);
    assert_eq!(e.get_all_daily_results().len(), 1);
    assert_eq!(e.cursor, 2);
}

#[test]
fn a_record_of_the_wrong_kind_is_a_data_source_error() {
    let mut e = engine("BAR");
    e.extend_history(vec![MixData::TickData(tick(JAN_15, 100, 99, 101))]);
    e.run_backtesting(false).unwrap();
    e.run_backtesting(false).unwrap();
    assert_eq!(e.run_backtesting(false).err(), Some(ErrorKind::DataSource));
}

#[test]
fn two_runs_with_a_clear_between_them_make_the_same_trades() {
    let mut e = engine("BAR");
    let history: Vec<MixData> = (0..40)
        .map(|i| {
            let base = 100 + (i * 7) % 13 - (i * 5) % 11;
            MixData::BarData(bar(JAN_15 + i * 7 * 60 * MINUTE, base, base + 3, base - 3, base + 1))
        })
        .collect();
    e.extend_history(history);
    let strategy = |e: &mut BacktestingEngine, i: usize| {
        let p = px(98 + (i as i64 % 5));
        if i % 3 == 0 {
            e.send_order(Direction::LONG, Offset_::OPEN, p, px(1), false, false, false).unwrap();
        }
        if i % 4 == 1 {
            e.send_order(Direction::SHORT, Offset_::CLOSE, p + px(3), px(2), i % 8 == 1, false, false).unwrap();
        }
        if i % 10 == 9 {
            e.cancel_all();
        }
    };
    let first_log = run_to_end(&mut e, strategy);
    let first: Vec<String> = e.get_all_trades().iter().map(|t| format!("{:?}", t)).collect();
    let first_table = format!("{:?}", e.calculate_result().unwrap());
    assert!(first.len() > 5);
    e.clear_data();
    assert_eq!(e.get_all_trades().len(), 0);
    assert_eq!(e.phase, ReplayPhase::Idle);
    e.add_strategy("probe");
    let second_log = run_to_end(&mut e, strategy);
    let second: Vec<String> = e.get_all_trades().iter().map(|t| format!("{:?}", t)).collect();
    let second_table = format!("{:?}", e.calculate_result().unwrap());
    assert_eq!(first, second);
    assert_eq!(first_log, second_log);
    assert_eq!(first_table, second_table);
}

#[test]
fn set_parameters_reads_names_and_moves_the_end_to_the_last_second() {
    let mut e = BacktestingEngine::new();
    e.set_parameters(
        "rb2405.SHFE.extra",
        "tick",
        JAN_15,
        25_000,
        20_000_000,
        10 * UNIT,
        UNIT,
        px(500_000),
        JAN_15 + 3 * DAY + 5 * MINUTE + 123,
        "TICK",
        3_000_000,
        250,
        60,
        JAN_15 + 400 * DAY,
    )
    .unwrap();
    assert_eq!(e.vt_symbol, "rb2405.SHFE.extra");
    assert_eq!(e.symbol, "rb2405");
    assert_eq!(e.exchange, "SHFE");
    assert_eq!(e.mode, BacktestingMode::TICK);
    assert_eq!(e.interval, Some(Interval::TICK));
    assert_eq!(e.end, JAN_15 + 3 * DAY + DAY - 1000 + 123);
    assert_eq!(e.start, JAN_15);
    assert_eq!((e.rate, e.slippage, e.size, e.pricetick), (25_000, 20_000_000, 10 * UNIT, UNIT));
    assert_eq!((e.capital, e.risk_free, e.annual_days, e.half_life), (px(500_000), 3_000_000, 250, 60));
    assert_eq!(e.get_pricetick(), UNIT);
    assert_eq!(e.get_size(), 10 * UNIT);
}

#[test]
fn set_parameters_takes_now_for_an_end_of_zero() {
    let mut e = BacktestingEngine::new();
    let now = JAN_15 + 9 * DAY + 77_000;
    e.set_parameters("a.b", "d", JAN_15, 0, 0, UNIT, UNIT, 0, 0, "BAR", 0, 240, 120, now).unwrap();
    assert_eq!(e.end, JAN_15 + 9 * DAY + DAY - 1000);
    // A time before 1970 falls on the day that holds it.
    e.set_parameters("a.b", "d", -3 * DAY, 0, 0, UNIT, UNIT, 0, -DAY - 1, "BAR", 0, 240, 120, now).unwrap();
    assert_eq!(e.end, -2 * DAY + DAY - 1000 + 999);
}

#[test]
fn set_parameters_rejects_unknown_names() {
    let mut e = BacktestingEngine::new();
    let r = e.set_parameters("a.b", "1m", 0, 0, 0, UNIT, UNIT, 0, DAY, "bar", 0, 240, 120, DAY);
    assert_eq!(r, Err(ErrorKind::Config));
    let r = e.set_parameters("a.b", "5m", 0, 0, 0, UNIT, UNIT, 0, DAY, "BAR", 0, 240, 120, DAY);
    assert_eq!(r, Err(ErrorKind::Config));
    let r = e.set_parameters("ab", "1m", 0, 0, 0, UNIT, UNIT, 0, DAY, "BAR", 0, 240, 120, DAY);
    assert_eq!(r, Err(ErrorKind::Config));
    let r = e.set_parameters("a.b", "1m", 0, 0, 0, UNIT, UNIT, 0, i64::MAX, "BAR", 0, 240, 120, DAY);
    assert_eq!(r, Err(ErrorKind::Numeric));
    assert_eq!(e.vt_symbol, "");
    assert_eq!(e.interval, None);
}

#[test]
fn a_stop_sent_on_a_fill_is_crossed_with_the_same_record() {
    let mut e = engine("BAR");
    let t0 = JAN_15 + 570 * MINUTE;
    e.extend_history(vec![
        MixData::BarData(bar(t0, 100, 101, 99, 100)),
        MixData::BarData(bar(t0 + MINUTE, 100, 106, 94, 100)),
    ]);
    let mut seen = Vec::new();
    let mut records = 0;
    loop {
        match e.run_backtesting(false).unwrap() {
            ReplayStep::Crossed { events } => {
                heard(&mut seen, &events);
                // The strategy guards every fill with a stop.
                for ev in &events {
                    if let StrategyEvent::Trade(t, _) = ev {
                        assert_eq!(t.price, px(95));
                        e.send_order(Direction::SHORT, Offset_::CLOSE, px(96), px(1), true, false, false)
                            .unwrap();
                    }
                }
            }
            ReplayStep::Record { events, .. } => {
                heard(&mut seen, &events);
                if records == 0 {
                    e.send_order(Direction::LONG, Offset_::OPEN, px(95), px(1), false, false, false)
                        .unwrap();
                }
                records += 1;
            }
            ReplayStep::Finished => break,
            _ => {}
        }
    }
    assert_eq!(
        seen,
        vec![
            String::from("order 1 NOTTRADED"),
            String::from("order 1 ALLTRADED"),
            format!("trade 1 @{} pos {}", px(95), px(1)),
            String::from("stop 1 TRIGGERED"),
            String::from("order 2 ALLTRADED"),
            format!("trade 2 @{} pos 0", px(96)),
        ]
    );
    assert_eq!(e.pos, 0);
}

#[test]
fn a_run_that_lost_its_record_ends_with_a_contract_error() {
    let mut e = engine("BAR");
    e.extend_history(vec![MixData::BarData(bar(JAN_15, 100, 101, 99, 100))]);
    e.run_backtesting(false).unwrap();
    e.run_backtesting(false).unwrap();
    assert!(matches!(e.run_backtesting(false), Ok(ReplayStep::Crossed { .. })));
    e.load_data(0).unwrap();
    assert_eq!(e.run_backtesting(false).err(), Some(ErrorKind::Contract));
    assert_eq!(e.phase, ReplayPhase::Finished);
}

#[test]
fn fills_on_a_sound_bar_lie_within_its_range() {
    let sound = bar(JAN_15 + MINUTE, 100, 105, 95, 101);
    assert!(sound.is_well_formed());
    assert!(!bar(JAN_15, 100, 99, 95, 97).is_well_formed());
    assert!(!bar(JAN_15, 100, 105, 95, 106).is_well_formed());
    assert!(!bar(JAN_15, 0, 0, -1, 0).is_well_formed());
    let mut e = engine("BAR");
    e.new_bar(&bar(JAN_15, 100, 100, 100, 100));
    for p in [90, 96, 100, 104, 110] {
        e.send_order(Direction::LONG, Offset_::OPEN, px(p), px(1), false, false, false).unwrap();
        e.send_order(Direction::SHORT, Offset_::OPEN, px(p), px(1), false, false, false).unwrap();
        e.send_order(Direction::LONG, Offset_::OPEN, px(p), px(1), true, false, false).unwrap();
        e.send_order(Direction::SHORT, Offset_::OPEN, px(p), px(1), true, false, false).unwrap();
    }
    e.update_daily_close(px(100));
    e.new_bar(&sound);
    e.cross_stop_order();
    let trades = e.get_all_trades();
    assert_eq!(trades.len(), 16);
    for t in &trades {
        assert!(sound.low_price <= t.price && t.price <= sound.high_price);
    }
    let orders = e.get_all_orders();
    for t in &trades[..8] {
        let o = &orders[t.orderid as usize - 1];
        if o.direction == Direction::LONG {
            assert!(t.price <= o.price);
        } else {
            assert!(t.price >= o.price);
        }
    }
    for (t, s) in trades[8..].iter().zip(e.stop_orders.iter().filter(|s| !s.vt_orderids.is_empty())) {
        assert_eq!(s.vt_orderids[0], t.orderid);
        if s.direction == Direction::LONG {
            assert!(t.price >= s.price);
        } else {
            assert!(t.price <= s.price);
        }
    }
}
